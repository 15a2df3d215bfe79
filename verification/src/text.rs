//! Text helpers: the case-insensitive matching used for caller-supplied
//! names, the byte-wise lexicographic order used to list preset names,
//! and small verified utilities over vectors of strings.

use vstd::prelude::*;
use vstd::string::*;
use vstd::utf8::encode_utf8;

verus! {

/// An ASCII upper-case byte folded to lower case; every other byte is
/// left alone.  Bytes of multi-byte UTF-8 sequences are all at least
/// 128, so folding the encoding folds exactly the ASCII letters.
pub open spec fn fold_byte(b: u8) -> u8 {
    if 65 <= b <= 90 {
        (b + 32) as u8
    } else {
        b
    }
}

/// A byte string with its ASCII letters folded to lower case.
pub open spec fn fold_bytes(s: Seq<u8>) -> Seq<u8> {
    s.map_values(|b: u8| fold_byte(b))
}

/// Two names match when their UTF-8 encodings agree up to ASCII case.
/// Caller-supplied names are matched this way at the boundary, while
/// stored names keep their original casing.
pub open spec fn names_match(a: Seq<char>, b: Seq<char>) -> bool {
    fold_bytes(encode_utf8(a)) == fold_bytes(encode_utf8(b))
}

fn fold_byte_exec(b: u8) -> (r: u8)
    ensures
        r == fold_byte(b),
{
    if 65 <= b && b <= 90 {
        b + 32
    } else {
        b
    }
}

/// Compares two strings up to ASCII case.
pub fn str_eq_ignore_case(a: &str, b: &str) -> (r: bool)
    ensures
        r == names_match(a@, b@),
{
    let ab = a.as_bytes();
    let bb = b.as_bytes();
    if ab.len() != bb.len() {
        assert(fold_bytes(encode_utf8(a@)).len() != fold_bytes(encode_utf8(b@)).len());
        return false;
    }
    let mut i: usize = 0;
    while i < ab.len()
        invariant
            ab@ == encode_utf8(a@),
            bb@ == encode_utf8(b@),
            ab@.len() == bb@.len(),
            i <= ab@.len(),
            forall|j: int| 0 <= j < i ==> fold_byte(ab@[j]) == fold_byte(bb@[j]),
        decreases ab@.len() - i,
    {
        if fold_byte_exec(ab[i]) != fold_byte_exec(bb[i]) {
            assert(fold_bytes(ab@)[i as int] != fold_bytes(bb@)[i as int]);
            return false;
        }
        i += 1;
    }
    assert(fold_bytes(ab@) =~= fold_bytes(bb@));
    true
}

/// Byte-wise lexicographic order on UTF-8 encodings, the order in
/// which preset names are listed.
pub open spec fn lex_leq(a: Seq<u8>, b: Seq<u8>) -> bool
    decreases a.len(),
{
    if a.len() == 0 {
        true
    } else if b.len() == 0 {
        false
    } else if a[0] < b[0] {
        true
    } else if a[0] > b[0] {
        false
    } else {
        lex_leq(a.drop_first(), b.drop_first())
    }
}

/// Name order: lexicographic order of the UTF-8 encodings.
pub open spec fn name_leq(a: Seq<char>, b: Seq<char>) -> bool {
    lex_leq(encode_utf8(a), encode_utf8(b))
}

/// The lexicographic order is total: of any two byte strings, one
/// precedes the other.
pub proof fn lemma_lex_leq_total(a: Seq<u8>, b: Seq<u8>)
    ensures
        lex_leq(a, b) || lex_leq(b, a),
    decreases a.len(),
{
    if a.len() > 0 && b.len() > 0 && a[0] == b[0] {
        lemma_lex_leq_total(a.drop_first(), b.drop_first());
    }
}

/// The lexicographic order is transitive.
pub proof fn lemma_lex_leq_trans(a: Seq<u8>, b: Seq<u8>, c: Seq<u8>)
    requires
        lex_leq(a, b),
        lex_leq(b, c),
    ensures
        lex_leq(a, c),
    decreases a.len(),
{
    if a.len() > 0 {
        if a[0] == b[0] && b[0] == c[0] {
            lemma_lex_leq_trans(a.drop_first(), b.drop_first(), c.drop_first());
        }
    }
}

/// The name order is total.
pub proof fn lemma_name_leq_total(a: Seq<char>, b: Seq<char>)
    ensures
        name_leq(a, b) || name_leq(b, a),
{
    lemma_lex_leq_total(encode_utf8(a), encode_utf8(b));
}

/// The name order is transitive.
pub proof fn lemma_name_leq_trans(a: Seq<char>, b: Seq<char>, c: Seq<char>)
    requires
        name_leq(a, b),
        name_leq(b, c),
    ensures
        name_leq(a, c),
{
    lemma_lex_leq_trans(encode_utf8(a), encode_utf8(b), encode_utf8(c));
}

/// Compares two strings in the byte-wise lexicographic order.
pub fn str_lex_leq(a: &String, b: &String) -> (r: bool)
    ensures
        r == name_leq(a@, b@),
{
    let ab = a.as_str().as_bytes();
    let bb = b.as_str().as_bytes();
    assert(ab@.skip(0) =~= ab@);
    assert(bb@.skip(0) =~= bb@);
    let mut i: usize = 0;
    while i < ab.len() && i < bb.len()
        invariant
            ab@ == encode_utf8(a@),
            bb@ == encode_utf8(b@),
            i <= ab@.len(),
            i <= bb@.len(),
            lex_leq(ab@, bb@) == lex_leq(ab@.skip(i as int), bb@.skip(i as int)),
        decreases ab@.len() - i,
    {
        if ab[i] < bb[i] {
            return true;
        }
        if ab[i] > bb[i] {
            return false;
        }
        assert(ab@.skip(i as int).drop_first() =~= ab@.skip(i + 1));
        assert(bb@.skip(i as int).drop_first() =~= bb@.skip(i + 1));
        i += 1;
    }
    if ab.len() <= bb.len() {
        assert(ab@.skip(i as int).len() == 0);
        true
    } else {
        assert(ab@.skip(i as int).len() > 0 && bb@.skip(i as int).len() == 0);
        false
    }
}

/// Whether a vector of strings holds one with the given view.
pub fn vec_contains_string(v: &Vec<String>, x: &String) -> (r: bool)
    ensures
        r == v.deep_view().contains(x@),
{
    let mut i: usize = 0;
    while i < v.len()
        invariant
            i <= v@.len(),
            forall|j: int| 0 <= j < i ==> v.deep_view()[j] != x@,
        decreases v@.len() - i,
    {
        if v[i] == *x {
            assert(v.deep_view()[i as int] == x@);
            return true;
        }
        i += 1;
    }
    assert(forall|j: int| 0 <= j < v.deep_view().len() ==> v.deep_view()[j] != x@);
    false
}

/// Whether two vectors of strings hold the same texts in the same
/// order.
pub fn string_vecs_equal(a: &Vec<String>, b: &Vec<String>) -> (r: bool)
    ensures
        r == (a.deep_view() == b.deep_view()),
{
    if a.len() != b.len() {
        assert(a.deep_view().len() != b.deep_view().len());
        return false;
    }
    let mut i: usize = 0;
    while i < a.len()
        invariant
            a@.len() == b@.len(),
            i <= a@.len(),
            forall|j: int| 0 <= j < i ==> a.deep_view()[j] == b.deep_view()[j],
        decreases a@.len() - i,
    {
        if !(a[i] == b[i]) {
            assert(a.deep_view()[i as int] != b.deep_view()[i as int]);
            return false;
        }
        i += 1;
    }
    assert(a.deep_view() =~= b.deep_view());
    true
}

} // verus!
