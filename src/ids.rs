use vstd::prelude::*;
use vstd::set_lib::{lemma_int_range, lemma_len_subset, set_int_range};

verus! {

/// The 128-bit value that `uuid::Uuid::parse_str` reads from a text, if the
/// text is a valid identifier in one of the formats that crate accepts.
pub uninterp spec fn uuid_from_text(s: Seq<char>) -> Option<u128>;

/// Relies on `uuid::Uuid::new_v4` and `uuid::Uuid::as_u128`: a random
/// version-4 identifier as a 128-bit integer. Nothing is promised of its value.
/// The crate panics only where the operating system refuses random bytes.
#[verifier::external_body]
pub(crate) fn random_id() -> (r: u128) {
    uuid::Uuid::new_v4().as_u128()
}

/// Relies on `uuid::Uuid::parse_str` and `uuid::Uuid::as_u128`: the
/// identifier written in `s`, or `None` where `s` is not one. An empty text
/// is never an identifier.
#[verifier::external_body]
fn parse_id(s: &str) -> (r: Option<u128>)
    ensures
        r == uuid_from_text(s@),
        s@.len() == 0 ==> r is None,
{
    match uuid::Uuid::parse_str(s) {
        Ok(u) => Some(u.as_u128()),
        Err(_) => None,
    }
}

/// Reads a record identifier from the text of a request path.
pub fn parse_user_id(text: &str) -> (r: Option<u128>)
    ensures
        r == uuid_from_text(text@),
{
    parse_id(text)
}

/// Whether `x` occurs in `v`.
pub fn holds_id(v: &Vec<u128>, x: u128) -> (r: bool)
    ensures
        r == v@.contains(x),
{
    let mut i: usize = 0;
    while i < v.len()
        invariant
            0 <= i <= v.len(),
            forall|j: int| 0 <= j < i ==> v@[j] != x,
        decreases v.len() - i,
    {
        if v[i] == x {
            return true;
        }
        i = i + 1;
    }
    false
}

/// A sequence of `n` values cannot hold every integer of `0..=n`.
proof fn lemma_some_small_value_missing(s: Seq<u128>)
    requires
        s.len() <= usize::MAX,
    ensures
        exists|c: u128| c as int <= s.len() && !s.contains(c),
{
    let top: int = s.len() as int + 1;
    let ints = s.map_values(|x: u128| x as int);
    let all = ints.to_set();
    if forall|c: u128| c as int <= s.len() ==> s.contains(c) {
        assert(set_int_range(0, top).subset_of(all)) by {
            assert forall|i: int| set_int_range(0, top).contains(i) implies all.contains(i) by {
                let c = i as u128;
                assert(c as int == i);
                assert(s.contains(c));
                let k = choose|k: int| 0 <= k < s.len() && s[k] == c;
                assert(ints[k] == i);
                assert(ints.contains(i));
            }
        }
        lemma_int_range(0, top);
        ints.lemma_cardinality_of_set();
        lemma_len_subset(set_int_range(0, top), all);
    }
}

/// An identifier that does not occur in `issued`: `candidate` itself where it
/// is new, otherwise the smallest value that no earlier identifier took.
pub fn fresh_id(issued: &Vec<u128>, candidate: u128) -> (r: u128)
    ensures
        !issued@.contains(r),
        !issued@.contains(candidate) ==> r == candidate,
        issued@.contains(candidate) ==> forall|c: u128| c < r ==> issued@.contains(c),
{
    if !holds_id(issued, candidate) {
        return candidate;
    }
    let n = issued.len() as u128;
    let mut c: u128 = 0;
    while c <= n
        invariant
            n == issued@.len(),
            n <= usize::MAX,
            c <= n + 1,
            issued@.contains(candidate),
            forall|d: u128| d < c ==> issued@.contains(d),
        decreases n + 1 - c,
    {
        if !holds_id(issued, c) {
            return c;
        }
        c = c + 1;
    }
    proof {
        lemma_some_small_value_missing(issued@);
    }
    0
}

} // verus!
