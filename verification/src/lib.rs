//! The logic of a downloader for past exam papers: where its files live,
//! its configuration file, the order in which it searches and fetches
//! papers, and how its file tree maps to the disk.
pub mod clicks;
pub mod events;
pub mod network;
pub mod number;
pub mod paths;
pub mod settings;
pub mod subjects;
pub mod text;
