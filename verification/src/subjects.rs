//! The subjects papers can be fetched for, and the inputs that choose what
//! to fetch.
use vstd::prelude::*;
use vstd::string::*;
use crate::number::{int_in_range, parse_isize};
use crate::text::{chars_of, copy_range, string_of};

verus! {

/// Every subject the program offers, as "code - name (level)".
pub const KINDS: [&'static str; 36] = [
    "0413 - Physical Education (IGCSE)",
    "0450 - Business Studies (IGCSE)",
    "0452 - Accounting (IGCSE)",
    "0455 - Economics (IGCSE)",
    "0460 - Geography (IGCSE)",
    "0470 - History (IGCSE)",
    "0478 - Computer Science (IGCSE)",
    "0500 - English First Language (IGCSE)",
    "0509 - Chinese First Language (IGCSE)",
    "0510 - English Speaking endorsement (IGCSE)",
    "0511 - English Count-in speaking (IGCSE)",
    "0580 - Mathematics (IGCSE)",
    "0606 - Mathematics Additional (IGCSE)",
    "0610 - Biology (IGCSE)",
    "0620 - Chemistry (IGCSE)",
    "0625 - Physics (IGCSE)",
    "9093 - English Language AS and A Level (AS-A2)",
    "9231 - Further Mathematics (AS-A2)",
    "9389 - History (AS-A2)",
    "9396 - Physical Education (AS-A2)",
    "9489 - History (AS-A2)",
    "9608 - Computer Science (AS-A2)",
    "9609 - Business (AS-A2)",
    "9618 - Computer Science (AS-A2)",
    "9696 - Geography (AS-A2)",
    "9698 - Psychology (AS-A2)",
    "9700 - Biology (AS-A2)",
    "9701 - Chemistry (AS-A2)",
    "9702 - Physics (AS-A2)",
    "9706 - Accounting (AS-A2)",
    "9707 - Business Studies (AS-A2)",
    "9708 - Economics (AS-A2)",
    "9709 - Mathematics (AS-A2)",
    "9713 - Applied ICT (AS-A2)",
    "9715 - Chinese First Language (AS-A2)",
    "9990 - Psychology (AS-A2)",
];

/// The text between a subject's code and its name.
pub const CODE_SEPARATOR: &'static str = " - ";

/// Whether `pat` occurs in `s` at `i`.
pub open spec fn occurs_at(s: Seq<char>, pat: Seq<char>, i: int) -> bool {
    0 <= i && i + pat.len() <= s.len() && s.subrange(i, i + pat.len()) == pat
}

/// Whether `r` is what comes before the first occurrence of `pat` in `s`,
/// or all of `s` where `pat` does not occur: the first piece that
/// `str::split` yields.
pub open spec fn is_first_piece(s: Seq<char>, pat: Seq<char>, r: Seq<char>) -> bool {
    ||| (exists|k: int|
        #![trigger s.subrange(0, k)]
        occurs_at(s, pat, k) && (forall|j: int| 0 <= j < k ==> !occurs_at(s, pat, j)) && r
            == s.subrange(0, k))
    ||| ((forall|j: int| !occurs_at(s, pat, j)) && r == s)
}

/// The code of the subject `kind` (as in [`KINDS`]): what comes before the
/// first " - ", or all of it where there is none.
pub fn subject_code(kind: &str) -> (r: String)
    ensures
        is_first_piece(kind@, CODE_SEPARATOR@, r@),
{
    let s = chars_of(kind);
    let pat = chars_of(CODE_SEPARATOR);
    let n = s.len();
    let m = pat.len();
    let mut i: usize = 0;
    while i <= n && m <= n - i
        invariant
            i <= n,
            s@ == kind@,
            pat@ == CODE_SEPARATOR@,
            n == s@.len(),
            m == pat@.len(),
            forall|j: int| 0 <= j < i ==> !occurs_at(s@, pat@, j),
        decreases n - i,
    {
        let mut k: usize = 0;
        let mut same = true;
        while k < m
            invariant
                k <= m,
                i + m <= n == s@.len(),
                m == pat@.len(),
                same == (forall|t: int| 0 <= t < k ==> s@[i + t] == pat@[t]),
            decreases m - k,
        {
            if s[i + k] != pat[k] {
                same = false;
            }
            k = k + 1;
        }
        if same {
            assert(s@.subrange(i as int, i + m) =~= pat@);
            let r = copy_range(&s, 0, i);
            return string_of(&r);
        }
        assert(!occurs_at(s@, pat@, i as int)) by {
            if occurs_at(s@, pat@, i as int) {
                assert forall|t: int| 0 <= t < m implies s@[i + t] == pat@[t] by {
                    assert(s@.subrange(i as int, i + m)[t] == s@[i + t]);
                }
            }
        }
        i = i + 1;
    }
    assert forall|j: int| !occurs_at(s@, pat@, j) by {
        if j >= i as int && j >= 0 {
            assert(j + m > n);
        }
    }
    assert(s@.subrange(0, n as int) =~= s@);
    string_of(&s)
}

/// The year typed into a year field, as `text.parse::<isize>()` reads it.
pub fn parse_year(text: &str) -> (r: Option<isize>)
    ensures
        r == (match int_in_range(text@, isize::MIN as int, isize::MAX as int) {
            Some(v) => Some(v as isize),
            None => None::<isize>,
        }),
{
    let c = chars_of(text);
    parse_isize(&c)
}

/// The subjects as the download task takes them: whether each is ticked,
/// its code and its full name, in the order of [`KINDS`].
pub fn subject_choices(ticked: &Vec<bool>) -> (r: Vec<(bool, String, String)>)
    requires
        ticked@.len() == KINDS@.len(),
    ensures
        r@.len() == KINDS@.len(),
        forall|i: int|
            0 <= i < r@.len() ==> {
                &&& (#[trigger] r@[i]).0 == ticked@[i]
                &&& is_first_piece(KINDS@[i]@, CODE_SEPARATOR@, r@[i].1@)
                &&& r@[i].2@ == KINDS@[i]@
            },
{
    let mut r: Vec<(bool, String, String)> = Vec::new();
    let mut i: usize = 0;
    while i < KINDS.len()
        invariant
            i <= KINDS@.len(),
            ticked@.len() == KINDS@.len(),
            r@.len() == i,
            forall|j: int|
                0 <= j < i ==> {
                    &&& (#[trigger] r@[j]).0 == ticked@[j]
                    &&& is_first_piece(KINDS@[j]@, CODE_SEPARATOR@, r@[j].1@)
                    &&& r@[j].2@ == KINDS@[j]@
                },
        decreases KINDS@.len() - i,
    {
        let kind = KINDS[i];
        let code = subject_code(kind);
        let name = string_of(&chars_of(kind));
        r.push((ticked[i], code, name));
        i = i + 1;
    }
    r
}

} // verus!
