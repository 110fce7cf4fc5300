//! Comparison of string slices, exact and ignoring ASCII case.

use vstd::prelude::*;
use vstd::std_specs::iter::IteratorSpec;
use vstd::string::*;

verus! {

/// `c` with an ASCII capital letter replaced by its small letter.
pub open spec fn lower_char(c: char) -> char {
    if 'A' <= c <= 'Z' {
        ((c as u8) + 32) as char
    } else {
        c
    }
}

/// Two texts are equal up to the case of their ASCII letters.
pub open spec fn eq_ignore_case(a: Seq<char>, b: Seq<char>) -> bool {
    &&& a.len() == b.len()
    &&& forall|i: int| 0 <= i < a.len() ==> lower_char(#[trigger] a[i]) == lower_char(b[i])
}

/// Maps an ASCII capital letter to its small letter and leaves every other character alone.
pub fn to_lower(c: char) -> (r: char)
    ensures
        r == lower_char(c),
{
    if 'A' <= c && c <= 'Z' {
        let b: u8 = c as u8;
        (b + 32) as char
    } else {
        c
    }
}

/// Whether two string slices hold the same characters.
pub fn str_eq(a: &str, b: &str) -> (r: bool)
    ensures
        r == (a@ == b@),
{
    broadcast use vstd::string::group_string_axioms;

    let mut ia = a.chars();
    let mut ib = b.chars();
    let ghost mut k: int = 0;
    loop
        invariant
            0 <= k <= a@.len(),
            k <= b@.len(),
            ia.remaining() == a@.skip(k),
            ib.remaining() == b@.skip(k),
            ia.obeys_prophetic_iter_laws(),
            ib.obeys_prophetic_iter_laws(),
            forall|i: int| 0 <= i < k ==> a@[i] == b@[i],
        decreases a@.len() - k,
    {
        let ca = ia.next();
        let cb = ib.next();
        match (ca, cb) {
            (None, None) => {
                assert(a@ =~= b@);
                return true;
            },
            (Some(x), Some(y)) => {
                if x != y {
                    return false;
                }
            },
            _ => {
                return false;
            },
        }
        proof {
            k = k + 1;
        }
    }
}

/// Whether two string slices hold the same characters once the case of ASCII
/// letters is set aside.
pub fn eq_ignore_ascii_case(a: &str, b: &str) -> (r: bool)
    ensures
        r == eq_ignore_case(a@, b@),
{
    broadcast use vstd::string::group_string_axioms;

    let mut ia = a.chars();
    let mut ib = b.chars();
    let ghost mut k: int = 0;
    loop
        invariant
            0 <= k <= a@.len(),
            k <= b@.len(),
            ia.remaining() == a@.skip(k),
            ib.remaining() == b@.skip(k),
            ia.obeys_prophetic_iter_laws(),
            ib.obeys_prophetic_iter_laws(),
            forall|i: int| 0 <= i < k ==> lower_char(#[trigger] a@[i]) == lower_char(b@[i]),
        decreases a@.len() - k,
    {
        let ca = ia.next();
        let cb = ib.next();
        match (ca, cb) {
            (None, None) => {
                return true;
            },
            (Some(x), Some(y)) => {
                if to_lower(x) != to_lower(y) {
                    return false;
                }
            },
            _ => {
                return false;
            },
        }
        proof {
            k = k + 1;
        }
    }
}

/// The text holds no capital ASCII letter.
pub open spec fn is_lower(s: Seq<char>) -> bool {
    forall|i: int| 0 <= i < s.len() ==> lower_char(#[trigger] s[i]) == s[i]
}

/// Text that holds no capital ASCII letter is compared exactly: ignoring case
/// changes nothing when both sides are already in lower case.
pub proof fn lemma_eq_ignore_case_of_lower(a: Seq<char>, b: Seq<char>)
    requires
        is_lower(a),
        is_lower(b),
    ensures
        eq_ignore_case(a, b) <==> a == b,
{
    if eq_ignore_case(a, b) {
        assert forall|i: int| 0 <= i < a.len() implies a[i] == b[i] by {
            assert(lower_char(a[i]) == lower_char(b[i]));
        }
        assert(a =~= b);
    }
}

} // verus!
