//! The messages the window's menu and buttons send to the main loop.
use vstd::prelude::*;

verus! {

/// What the user asked for.
#[derive(Clone, Copy, Debug, PartialEq, Eq, Structural)]
pub enum Message {
    /// Start downloading.
    Start,
    /// Stop downloading.
    Stop,
    /// Open the files selected in the tree.
    Open,
    /// Choose another save directory.
    ChangeSavePath,
    /// Go back to the default save directory.
    ResetSavePath,
}

} // verus!
