//! Paths: joining components the way `Path::join` does on each platform,
//! and the mapping between paths on disk and the paths the file tree shows.
use vstd::prelude::*;
use crate::text::{
    chars_eq, chars_of, copy_range, extend, join, lemma_join_split, lemma_split_concat,
    lemma_split_len, lemma_split_no_sep, split, split_chars, string_of, views,
};
use vstd::string::*;

verus! {

/// The kind of system the program runs on, which decides the separators
/// and where the configuration lives.
#[derive(Clone, Copy, Debug, PartialEq, Eq, Structural)]
pub enum Platform {
    Windows,
    MacOs,
    Other,
}

/// Whether `c` separates path components on `p`.
pub open spec fn is_sep(c: char, p: Platform) -> bool {
    c == '/' || (p == Platform::Windows && c == '\\')
}

/// The separator `Path::join` inserts on `p`.
pub open spec fn main_sep(p: Platform) -> char {
    if p == Platform::Windows {
        '\\'
    } else {
        '/'
    }
}

/// Whether `c` is an ASCII letter.
pub open spec fn is_letter(c: char) -> bool {
    (65 <= (c as u32) <= 90) || (97 <= (c as u32) <= 122)
}

/// The kinds of prefix a Windows path can begin with.
#[derive(Clone, Copy, Debug, PartialEq, Eq, Structural)]
pub enum PrefixKind {
    /// `\\?\name`
    Verbatim,
    /// `\\?\UNC\server\share`
    VerbatimUnc,
    /// `\\?\C:`
    VerbatimDisk,
    /// `\\.\name`
    DeviceNs,
    /// `\\server\share`
    Unc,
    /// `C:`
    Disk,
}

/// Whether `c` separates path components on Windows.
pub open spec fn is_win_sep(c: char) -> bool {
    c == '/' || c == '\\'
}

/// Where the component of `s` that starts at `from` ends: at the next
/// separator (only `\` where `verbatim`), or at the end.
pub open spec fn comp_end(s: Seq<char>, from: int, verbatim: bool) -> int
    decreases s.len() - from,
{
    if from < 0 || from >= s.len() {
        s.len() as int
    } else if (if verbatim {
        s[from] == '\\'
    } else {
        is_win_sep(s[from])
    }) {
        from
    } else {
        comp_end(s, from + 1, verbatim)
    }
}

/// The prefix a Windows path `s` begins with, and its length, as `Path`
/// reads it:
/// - `\\?\` (with backslashes only) begins a verbatim prefix: `\\?\UNC\`
///   (its last separator either kind) followed by a server and, where there
///   is one, a share, each ended by `\`; else `\\?\` and a drive and `\`,
///   whose prefix is the first six characters; else `\\?\` and a name ended
///   by `\`;
/// - two separators, `.` and a separator begin a device prefix with a name
///   ended by a separator;
/// - two separators, a server and a share, neither empty and each ended by
///   a separator, make a network prefix;
/// - a letter and `:` make a drive;
/// - nothing else is a prefix.
pub open spec fn windows_prefix(s: Seq<char>) -> Option<(PrefixKind, int)> {
    if s.len() >= 2 && is_win_sep(s[0]) && is_win_sep(s[1]) {
        if s.len() >= 4 && s[0] == '\\' && s[1] == '\\' && s[2] == '?' && s[3] == '\\' {
            if s.len() >= 8 && s[4] == 'U' && s[5] == 'N' && s[6] == 'C' && is_win_sep(s[7]) {
                let e1 = comp_end(s, 8, true);
                if e1 < s.len() && comp_end(s, e1 + 1, true) > e1 + 1 {
                    Some((PrefixKind::VerbatimUnc, comp_end(s, e1 + 1, true)))
                } else {
                    Some((PrefixKind::VerbatimUnc, e1))
                }
            } else if s.len() >= 7 && is_letter(s[4]) && s[5] == ':' && s[6] == '\\' {
                Some((PrefixKind::VerbatimDisk, 6))
            } else {
                Some((PrefixKind::Verbatim, comp_end(s, 4, true)))
            }
        } else if s.len() >= 4 && s[2] == '.' && is_win_sep(s[3]) {
            Some((PrefixKind::DeviceNs, comp_end(s, 4, false)))
        } else {
            let e1 = comp_end(s, 2, false);
            if e1 > 2 && e1 < s.len() && comp_end(s, e1 + 1, false) > e1 + 1 {
                Some((PrefixKind::Unc, comp_end(s, e1 + 1, false)))
            } else {
                None
            }
        }
    } else if s.len() >= 2 && is_letter(s[0]) && s[1] == ':' {
        Some((PrefixKind::Disk, 2))
    } else {
        None
    }
}

/// The prefix `s` begins with on `p`: only Windows paths have one.
pub open spec fn prefix_of(s: Seq<char>, p: Platform) -> Option<(PrefixKind, int)> {
    if p == Platform::Windows {
        windows_prefix(s)
    } else {
        None
    }
}

/// The length of the prefix `s` begins with on `p`, 0 where there is none.
pub open spec fn prefix_len(s: Seq<char>, p: Platform) -> int {
    match prefix_of(s, p) {
        Some((_, l)) => l,
        None => 0,
    }
}

/// Whether `s` is a drive alone, such as `C:` or `\\?\C:`, on `p`.
pub open spec fn is_bare_drive(s: Seq<char>, p: Platform) -> bool {
    match prefix_of(s, p) {
        Some((k, l)) => (k == PrefixKind::Disk || k == PrefixKind::VerbatimDisk) && l == s.len(),
        None => false,
    }
}

/// Whether `s` begins with a separator.
pub open spec fn is_rooted(s: Seq<char>, p: Platform) -> bool {
    s.len() > 0 && is_sep(s[0], p)
}

/// Whether `s` names a place without reference to a current directory:
/// beginning with `/` elsewhere; on Windows, having a prefix other than a
/// drive, or a drive followed by a separator.
pub open spec fn is_absolute(s: Seq<char>, p: Platform) -> bool {
    if p == Platform::Windows {
        match windows_prefix(s) {
            Some((k, l)) => k != PrefixKind::Disk || (l < s.len() && is_sep(s[l], p)),
            None => false,
        }
    } else {
        is_rooted(s, p)
    }
}

/// `base` joined with `part` as `Path::join` does:
/// - a part with a prefix replaces the base, as does a part beginning with
///   `/` other than on Windows;
/// - on Windows, a part beginning with a separator keeps only the base's
///   prefix;
/// - otherwise a separator is put between the two, unless the base is
///   empty, already ends with one, or is a drive alone.
pub open spec fn path_join(base: Seq<char>, part: Seq<char>, p: Platform) -> Seq<char> {
    if prefix_of(part, p) is Some || (p != Platform::Windows && is_rooted(part, p)) {
        part
    } else if is_rooted(part, p) {
        base.subrange(0, prefix_len(base, p)) + part
    } else if base.len() == 0 || is_sep(base.last(), p) || is_bare_drive(base, p) {
        base + part
    } else {
        base + seq![main_sep(p)] + part
    }
}

/// `path` made absolute against the current directory `cwd`: unchanged
/// where it is absolute, else `cwd` joined with it.
pub open spec fn absolute_in(path: Seq<char>, cwd: Seq<char>, p: Platform) -> Seq<char> {
    if is_absolute(path, p) {
        path
    } else {
        path_join(cwd, path, p)
    }
}

/// Whether `s` is a plain file or folder name on `p`: not empty, with no
/// separator and, on Windows, no `:`.
pub open spec fn is_plain_name(s: Seq<char>, p: Platform) -> bool {
    &&& s.len() > 0
    &&& forall|i: int|
        0 <= i < s.len() ==> !is_sep(#[trigger] s[i], p) && (p == Platform::Windows ==> s[i]
            != ':')
}

/// Joining a plain name onto a base that does not end with a separator and
/// is no drive alone puts the base, one separator of the platform (`\` on
/// Windows, `/` elsewhere) and the name one after the other.
pub proof fn lemma_join_plain(base: Seq<char>, part: Seq<char>, p: Platform)
    requires
        base.len() > 0,
        !is_sep(base.last(), p),
        !is_bare_drive(base, p),
        is_plain_name(part, p),
    ensures
        path_join(base, part, p) == base + seq![
            if p == Platform::Windows {
                '\\'
            } else {
                '/'
            },
        ] + part,
        !is_sep(path_join(base, part, p).last(), p),
        !is_bare_drive(path_join(base, part, p), p),
{
    assert(!is_sep(part[0], p));
    if part.len() >= 2 {
        assert(part[1] != ':' || p != Platform::Windows);
    }
    assert(prefix_of(part, p) is None);
    let r = path_join(base, part, p);
    assert(r.last() == part.last());
    assert(r.len() >= 3);
}

/// A component ends within the path.
pub proof fn lemma_comp_end(s: Seq<char>, from: int, verbatim: bool)
    ensures
        0 <= from <= s.len() ==> from <= comp_end(s, from, verbatim),
        comp_end(s, from, verbatim) <= s.len(),
    decreases s.len() - from,
{
    if 0 <= from < s.len() {
        lemma_comp_end(s, from + 1, verbatim);
    }
}

/// A prefix lies within the path.
pub proof fn lemma_prefix_len(s: Seq<char>, p: Platform)
    ensures
        0 <= prefix_len(s, p) <= s.len(),
{
    lemma_comp_end(s, 2, false);
    lemma_comp_end(s, 4, false);
    lemma_comp_end(s, 4, true);
    lemma_comp_end(s, 8, true);
    let e1 = comp_end(s, 8, true);
    lemma_comp_end(s, e1 + 1, true);
    let f1 = comp_end(s, 2, false);
    lemma_comp_end(s, f1 + 1, false);
}

/// Whether `c` separates path components on `p`.
pub fn is_sep_char(c: char, p: Platform) -> (r: bool)
    ensures
        r == is_sep(c, p),
{
    c == '/' || (p == Platform::Windows && c == '\\')
}

/// Where the component of `s` that starts at `from` ends.
fn comp_end_at(s: &[char], from: usize, verbatim: bool) -> (r: usize)
    requires
        from <= s@.len(),
    ensures
        r as int == comp_end(s@, from as int, verbatim),
{
    let mut i = from;
    while i < s.len()
        invariant
            from <= i <= s@.len(),
            comp_end(s@, from as int, verbatim) == comp_end(s@, i as int, verbatim),
        decreases s@.len() - i,
    {
        let stop = if verbatim {
            s[i] == '\\'
        } else {
            s[i] == '/' || s[i] == '\\'
        };
        if stop {
            return i;
        }
        i = i + 1;
    }
    i
}

/// Whether `c` is an ASCII letter.
fn letter(c: char) -> (r: bool)
    ensures
        r == is_letter(c),
{
    let u = c as u32;
    (65 <= u && u <= 90) || (97 <= u && u <= 122)
}

/// The prefix a Windows path `s` begins with, and its length.
fn windows_prefix_of(s: &[char]) -> (r: Option<(PrefixKind, usize)>)
    ensures
        match r {
            Some((k, l)) => windows_prefix(s@) == Some((k, l as int)),
            None => windows_prefix(s@) is None,
        },
{
    let n = s.len();
    if n >= 2 && (s[0] == '/' || s[0] == '\\') && (s[1] == '/' || s[1] == '\\') {
        if n >= 4 && s[0] == '\\' && s[1] == '\\' && s[2] == '?' && s[3] == '\\' {
            if n >= 8 && s[4] == 'U' && s[5] == 'N' && s[6] == 'C' && (s[7] == '/' || s[7]
                == '\\') {
                let e1 = comp_end_at(s, 8, true);
                if e1 < n {
                    let e2 = comp_end_at(s, e1 + 1, true);
                    if e2 > e1 + 1 {
                        return Some((PrefixKind::VerbatimUnc, e2));
                    }
                }
                Some((PrefixKind::VerbatimUnc, e1))
            } else if n >= 7 && letter(s[4]) && s[5] == ':' && s[6] == '\\' {
                Some((PrefixKind::VerbatimDisk, 6))
            } else {
                Some((PrefixKind::Verbatim, comp_end_at(s, 4, true)))
            }
        } else if n >= 4 && s[2] == '.' && (s[3] == '/' || s[3] == '\\') {
            Some((PrefixKind::DeviceNs, comp_end_at(s, 4, false)))
        } else {
            let e1 = comp_end_at(s, 2, false);
            if e1 > 2 && e1 < n {
                let e2 = comp_end_at(s, e1 + 1, false);
                if e2 > e1 + 1 {
                    return Some((PrefixKind::Unc, e2));
                }
            }
            None
        }
    } else if n >= 2 && letter(s[0]) && s[1] == ':' {
        Some((PrefixKind::Disk, 2))
    } else {
        None
    }
}

/// The prefix `s` begins with on `p`, and its length.
fn prefix_of_chars(s: &[char], p: Platform) -> (r: Option<(PrefixKind, usize)>)
    ensures
        match r {
            Some((k, l)) => prefix_of(s@, p) == Some((k, l as int)),
            None => prefix_of(s@, p) is None,
        },
{
    if p == Platform::Windows {
        windows_prefix_of(s)
    } else {
        None
    }
}

/// Whether `s` names a place without reference to a current directory.
pub fn is_absolute_chars(s: &[char], p: Platform) -> (r: bool)
    ensures
        r == is_absolute(s@, p),
{
    if p == Platform::Windows {
        match windows_prefix_of(s) {
            Some((k, l)) => k != PrefixKind::Disk || (l < s.len() && is_sep_char(s[l], p)),
            None => false,
        }
    } else {
        s.len() > 0 && is_sep_char(s[0], p)
    }
}

/// `base` joined with `part`, as `Path::new(base).join(part)` gives it on
/// `p`.
///
/// Where on Windows the base has a verbatim prefix (`\\?\`) and the part is
/// not empty, `Path::join` also removes `.` and `..` components and
/// rewrites separators; this function joins as for any other base.
pub fn join_chars(base: &[char], part: &[char], p: Platform) -> (r: Vec<char>)
    ensures
        r@ == path_join(base@, part@, p),
{
    let rooted = part.len() > 0 && is_sep_char(part[0], p);
    if prefix_of_chars(part, p).is_some() || (p != Platform::Windows && rooted) {
        let r = copy_range(part, 0, part.len());
        assert(part@.subrange(0, part@.len() as int) =~= part@);
        return r;
    }
    let bp = prefix_of_chars(base, p);
    proof {
        lemma_prefix_len(base@, p);
    }
    let mut r: Vec<char>;
    if rooted {
        let l = match bp {
            Some((_, l)) => l,
            None => 0,
        };
        r = copy_range(base, 0, l);
    } else {
        r = copy_range(base, 0, base.len());
        let bare = match bp {
            Some((k, l)) => (k == PrefixKind::Disk || k == PrefixKind::VerbatimDisk) && l
                == base.len(),
            None => false,
        };
        if base.len() > 0 && !is_sep_char(base[base.len() - 1], p) && !bare {
            if p == Platform::Windows {
                r.push('\\');
            } else {
                r.push('/');
            }
        }
        assert(base@.subrange(0, base@.len() as int) =~= base@);
    }
    extend(&mut r, part);
    r
}

/// Joining a part without a prefix to an absolute directory (one on a drive,
/// on Windows) gives an absolute path.
pub proof fn lemma_join_absolute(base: Seq<char>, part: Seq<char>, p: Platform)
    requires
        is_absolute(base, p),
        p == Platform::Windows ==> windows_prefix(base) == Some((PrefixKind::Disk, 2int)),
        prefix_of(part, p) is None,
    ensures
        is_absolute(path_join(base, part, p), p),
{
    let r = path_join(base, part, p);
    if p == Platform::Windows {
        assert(is_letter(base[0]) && base[1] == ':' && base.len() >= 3 && is_sep(base[2], p));
        if is_rooted(part, p) {
            assert(r[0] == base[0] && r[1] == base[1] && r[2] == part[0]);
        } else if base.len() == 0 || is_sep(base.last(), p) || is_bare_drive(base, p) {
            assert(r[0] == base[0] && r[1] == base[1] && r[2] == base[2]);
        } else {
            assert(r[0] == base[0] && r[1] == base[1] && r[2] == base[2]);
        }
        assert(!is_win_sep(r[0]));
        assert(windows_prefix(r) == Some((PrefixKind::Disk, 2int)));
    } else if !is_rooted(part, p) {
        assert(r[0] == base[0]);
    }
}

/// Making a path absolute against an absolute current directory (one on a
/// drive, on Windows) gives an absolute path, except for a path with a
/// drive but no separator after it, such as `D:papers`, which names a place
/// relative to that drive's own current directory.
pub proof fn lemma_absolute_in(path: Seq<char>, cwd: Seq<char>, p: Platform)
    requires
        is_absolute(cwd, p),
        p == Platform::Windows ==> windows_prefix(cwd) == Some((PrefixKind::Disk, 2int)),
        prefix_of(path, p) is Some ==> is_absolute(path, p),
    ensures
        is_absolute(absolute_in(path, cwd, p), p),
{
    if !is_absolute(path, p) {
        lemma_join_absolute(cwd, path, p);
    }
}

/// `path` made absolute against the current directory `cwd` on `p`.
pub fn absolute_chars(path: &[char], cwd: &[char], p: Platform) -> (r: Vec<char>)
    ensures
        r@ == absolute_in(path@, cwd@, p),
{
    if is_absolute_chars(path, p) {
        let r = copy_range(path, 0, path.len());
        assert(path@.subrange(0, path@.len() as int) =~= path@);
        r
    } else {
        join_chars(cwd, path, p)
    }
}

/// `base` joined with `part` on `p`.
pub fn join_path(base: &str, part: &str, p: Platform) -> (r: String)
    ensures
        r@ == path_join(base@, part@, p),
{
    let b = chars_of(base);
    let q = chars_of(part);
    let j = join_chars(&b, &q, p);
    string_of(&j)
}

// ---------------------------------------------------------------------------
// The file tree
// ---------------------------------------------------------------------------
/// The pieces each followed by `sep`, one after the other.
pub open spec fn terminated(pieces: Seq<Seq<char>>, sep: char) -> Seq<char>
    decreases pieces.len(),
{
    if pieces.len() == 0 {
        Seq::<char>::empty()
    } else {
        pieces[0] + seq![sep] + terminated(pieces.drop_first(), sep)
    }
}

/// How many leading components of a path under `save_dir` lie above the
/// tree: all components of `save_dir` but its last.
pub open spec fn tree_depth(save_dir: Seq<char>) -> int {
    split(save_dir, '/').len() - 1
}

/// The directories above the tree, each followed by `/`: what is put in
/// front of a tree item's path to find the file on disk.
pub open spec fn tree_root_prefix(save_dir: Seq<char>) -> Seq<char> {
    terminated(split(save_dir, '/').subrange(0, tree_depth(save_dir)), '/')
}

/// The path under which the file at `path` shows in the tree: its
/// components from the tree depth of `save_dir` on, joined by `/`.
pub open spec fn tree_item_path(save_dir: Seq<char>, path: Seq<char>) -> Seq<char> {
    let pieces = split(path, '/');
    let k = tree_depth(save_dir);
    if k <= pieces.len() {
        join(pieces.subrange(k, pieces.len() as int), '/')
    } else {
        Seq::<char>::empty()
    }
}

/// No piece of a split holds the separator.
pub proof fn lemma_split_pieces(s: Seq<char>, sep: char)
    ensures
        forall|i: int| 0 <= i < split(s, sep).len() ==> !(#[trigger] split(s, sep)[i]).contains(sep),
    decreases s.len(),
{
    lemma_split_len(s, sep);
    if s.len() > 0 {
        lemma_split_pieces(s.drop_last(), sep);
        lemma_split_len(s.drop_last(), sep);
        let p = split(s.drop_last(), sep);
        if s.last() != sep {
            let q = p.update(p.len() - 1, p.last().push(s.last()));
            assert forall|i: int| 0 <= i < q.len() implies !(#[trigger] q[i]).contains(sep) by {
                if i == q.len() - 1 {
                    if q[i].contains(sep) {
                        let k = choose|k: int| 0 <= k < q[i].len() && q[i][k] == sep;
                        if k < p.last().len() {
                            assert(p[p.len() - 1][k] == sep);
                        }
                    }
                } else {
                    assert(q[i] == p[i]);
                }
            }
        } else {
            let q = p.push(Seq::<char>::empty());
            assert forall|i: int| 0 <= i < q.len() implies !(#[trigger] q[i]).contains(sep) by {
                if i < p.len() {
                    assert(q[i] == p[i]);
                }
            }
        }
    }
}

/// Splitting separator-terminated pieces followed by `t` gives those pieces
/// followed by the pieces of `t`.
pub proof fn lemma_split_terminated(pieces: Seq<Seq<char>>, t: Seq<char>, sep: char)
    requires
        forall|i: int| 0 <= i < pieces.len() ==> !(#[trigger] pieces[i]).contains(sep),
    ensures
        split(terminated(pieces, sep) + t, sep) =~= pieces + split(t, sep),
    decreases pieces.len(),
{
    if pieces.len() == 0 {
        assert(terminated(pieces, sep) + t =~= t);
    } else {
        let rest = pieces.drop_first();
        assert forall|i: int| 0 <= i < rest.len() implies !(#[trigger] rest[i]).contains(sep) by {
            assert(rest[i] == pieces[i + 1]);
        }
        lemma_split_terminated(rest, t, sep);
        assert(terminated(pieces, sep) + t =~= pieces[0] + seq![sep] + (terminated(rest, sep)
            + t));
        lemma_split_concat(pieces[0], terminated(rest, sep) + t, sep);
        assert(!pieces[0].contains(sep));
        lemma_split_no_sep(pieces[0], sep);
        assert(pieces =~= seq![pieces[0]] + rest);
    }
}

/// A path made of the tree's root prefix and `t` shows in the tree as `t`.
pub proof fn lemma_tree_item_path_of_prefixed(save_dir: Seq<char>, t: Seq<char>)
    ensures
        tree_item_path(save_dir, tree_root_prefix(save_dir) + t) == t,
{
    let comps = split(save_dir, '/');
    lemma_split_len(save_dir, '/');
    lemma_split_pieces(save_dir, '/');
    let k = tree_depth(save_dir);
    let above = comps.subrange(0, k);
    assert forall|i: int| 0 <= i < above.len() implies !(#[trigger] above[i]).contains('/') by {
        assert(above[i] == comps[i]);
    }
    lemma_split_terminated(above, t, '/');
    let pieces = split(tree_root_prefix(save_dir) + t, '/');
    assert(pieces =~= above + split(t, '/'));
    assert(pieces.subrange(k, pieces.len() as int) =~= split(t, '/'));
    lemma_join_split(t, '/');
}

/// A path that starts with the tree's root prefix is that prefix followed by
/// the path the tree shows for it: putting the prefix back in front of a
/// tree item's path finds the file again.
pub proof fn lemma_tree_path_round_trip(save_dir: Seq<char>, path: Seq<char>)
    requires
        tree_root_prefix(save_dir).is_prefix_of(path),
    ensures
        tree_root_prefix(save_dir) + tree_item_path(save_dir, path) == path,
{
    let pre = tree_root_prefix(save_dir);
    let t = path.subrange(pre.len() as int, path.len() as int);
    assert(pre + t =~= path);
    lemma_tree_item_path_of_prefixed(save_dir, t);
}

/// The pieces from `from` on, each followed by `/`.
fn terminated_chars(pieces: &Vec<Vec<char>>, from: usize, to: usize) -> (r: Vec<char>)
    requires
        from <= to <= pieces@.len(),
    ensures
        r@ == terminated(views(pieces@).subrange(from as int, to as int), '/'),
    decreases to - from,
{
    if from == to {
        proof {
            assert(views(pieces@).subrange(from as int, to as int) =~= Seq::<Seq<char>>::empty());
        }
        Vec::new()
    } else {
        let mut r = copy_range(&pieces[from], 0, pieces[from].len());
        r.push('/');
        let rest = terminated_chars(pieces, from + 1, to);
        extend(&mut r, &rest);
        proof {
            let v = views(pieces@).subrange(from as int, to as int);
            assert(v.drop_first() =~= views(pieces@).subrange(from + 1, to as int));
            assert(v[0] == pieces@[from as int]@);
            assert(pieces@[from as int]@.subrange(0, pieces@[from as int]@.len() as int)
                =~= pieces@[from as int]@);
        }
        r
    }
}

/// The pieces from `from` to `to` joined by `/`.
fn join_chars_from(pieces: &Vec<Vec<char>>, from: usize, to: usize) -> (r: Vec<char>)
    requires
        from <= to <= pieces@.len(),
    ensures
        r@ == join(views(pieces@).subrange(from as int, to as int), '/'),
    decreases to - from,
{
    if from == to {
        Vec::new()
    } else if from + 1 == to {
        let r = copy_range(&pieces[from], 0, pieces[from].len());
        proof {
            assert(pieces@[from as int]@.subrange(0, pieces@[from as int]@.len() as int)
                =~= pieces@[from as int]@);
        }
        r
    } else {
        let mut r = join_chars_from(pieces, from, to - 1);
        r.push('/');
        extend(&mut r, &pieces[to - 1]);
        proof {
            let v = views(pieces@).subrange(from as int, to as int);
            assert(v.drop_last() =~= views(pieces@).subrange(from as int, to - 1));
            assert(v.last() == pieces@[to - 1]@);
        }
        r
    }
}

/// The directories above the file tree, each followed by `/`.
pub fn tree_prefix_chars(save_dir: &[char]) -> (r: Vec<char>)
    ensures
        r@ == tree_root_prefix(save_dir@),
{
    let comps = split_chars(save_dir, '/');
    proof {
        lemma_split_len(save_dir@, '/');
    }
    let k = comps.len() - 1;
    terminated_chars(&comps, 0, k)
}

/// What is put in front of a tree item's path to find the file on disk:
/// the components of `save_dir` but its last, each followed by `/`.
pub fn tree_root_prefix_of(save_dir: &str) -> (r: String)
    ensures
        r@ == tree_root_prefix(save_dir@),
{
    let s = chars_of(save_dir);
    let r = tree_prefix_chars(&s);
    string_of(&r)
}

/// The path under which the file at `path` shows in the file tree rooted at
/// the last component of `save_dir`.
pub fn tree_item_path_of(save_dir: &str, path: &str) -> (r: String)
    ensures
        r@ == tree_item_path(save_dir@, path@),
{
    let s = chars_of(save_dir);
    let comps = split_chars(&s, '/');
    proof {
        lemma_split_len(s@, '/');
    }
    let k = comps.len() - 1;
    let p = chars_of(path);
    let pieces = split_chars(&p, '/');
    if k <= pieces.len() {
        let r = join_chars_from(&pieces, k, pieces.len());
        string_of(&r)
    } else {
        String::new()
    }
}

/// Where on disk the tree item with path `item` lies: the tree's root
/// prefix followed by `item`. The file tree opens this path on a double
/// click, and a refresh drops the item when nothing exists there.
pub fn item_disk_path(save_dir: &str, item: &str) -> (r: String)
    ensures
        r@ == tree_root_prefix(save_dir@) + item@,
{
    let s = chars_of(save_dir);
    let mut r = tree_prefix_chars(&s);
    let i = chars_of(item);
    extend(&mut r, &i);
    string_of(&r)
}

/// Whether a refresh drops the tree item whose file would be at
/// `disk_path`: when nothing exists there and the path is not empty.
pub fn drops_item(exists: bool, disk_path: &str) -> (r: bool)
    ensures
        r == (!exists && disk_path@.len() > 0),
{
    !exists && disk_path.unicode_len() > 0
}

/// The last component of `save_dir`: the name of the directory the file
/// tree shows.
pub open spec fn save_dir_name(save_dir: Seq<char>) -> Seq<char> {
    split(save_dir, '/').last()
}

/// Whether closing all nodes leaves the node open: the root, and the node
/// labelled with the name of the save directory, stay open.
pub fn stays_open(is_root: bool, label: &str, save_dir: &str) -> (r: bool)
    ensures
        r == (is_root || label@ == save_dir_name(save_dir@)),
{
    if is_root {
        return true;
    }
    let s = chars_of(save_dir);
    let comps = split_chars(&s, '/');
    proof {
        lemma_split_len(s@, '/');
    }
    let l = chars_of(label);
    chars_eq(&l, &comps[comps.len() - 1])
}

/// The name of the entry the file tree never lists.
pub const HIDDEN_ENTRY: &'static str = ".DS_Store";

/// Whether a directory entry called `file_name` is listed in the file tree:
/// every entry is but `.DS_Store`.
pub fn lists_entry(file_name: &str) -> (r: bool)
    ensures
        r == (file_name@ != HIDDEN_ENTRY@),
{
    let n = chars_of(file_name);
    let h = chars_of(HIDDEN_ENTRY);
    !chars_eq(&n, &h)
}

} // verus!
