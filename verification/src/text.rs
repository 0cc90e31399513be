use vstd::prelude::*;
use vstd::string::StrSliceExecFns;

verus! {

/// The case-folded code point of a character: upper-case ASCII letters map
/// to their lower-case counterpart, everything else is unchanged.
pub open spec fn folded_code(c: char) -> int {
    if 65 <= c as int && c as int <= 90 {
        c as int + 32
    } else {
        c as int
    }
}

/// Whether `s` equals the (lower-case) keyword `w` up to ASCII case.
pub open spec fn matches_keyword(s: Seq<char>, w: Seq<char>) -> bool {
    s.len() == w.len() && forall|i: int| 0 <= i < s.len()
        ==> folded_code(#[trigger] s[i]) == w[i] as int
}

/// Exact character-for-character equality of two strings.
pub fn str_eq(a: &str, b: &str) -> (r: bool)
    ensures
        r == (a@ == b@),
{
    let an = a.unicode_len();
    let bn = b.unicode_len();
    if an != bn {
        proof {
            if a@ == b@ {
                assert(a@.len() == b@.len());
            }
        }
        return false;
    }
    let mut i: usize = 0;
    while i < an
        invariant
            an == a@.len(),
            an == b@.len(),
            i <= an,
            forall|j: int| 0 <= j < i ==> a@[j] == b@[j],
        decreases an - i,
    {
        if a.get_char(i) != b.get_char(i) {
            return false;
        }
        i = i + 1;
    }
    proof {
        assert(a@ =~= b@);
    }
    true
}

/// ASCII-case-insensitive match of `s` against a lower-case keyword `w`.
pub fn keyword_matches(s: &str, w: &str) -> (r: bool)
    ensures
        r == matches_keyword(s@, w@),
{
    let sn = s.unicode_len();
    let wn = w.unicode_len();
    if sn != wn {
        return false;
    }
    let mut i: usize = 0;
    while i < sn
        invariant
            sn == s@.len(),
            sn == w@.len(),
            i <= sn,
            forall|j: int| 0 <= j < i ==> folded_code(#[trigger] s@[j]) == w@[j] as int,
        decreases sn - i,
    {
        let c = s.get_char(i) as u32;
        let folded = if c >= 65 && c <= 90 {
            c + 32
        } else {
            c
        };
        if folded != w.get_char(i) as u32 {
            return false;
        }
        i = i + 1;
    }
    true
}

} // verus!
