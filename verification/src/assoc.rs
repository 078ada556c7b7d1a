use vstd::prelude::*;

verus! {

// The schema mappings (options, containers, resources, relations) are held as
// vectors of key/value pairs with distinct keys; these are the spec-level
// helpers that the contracts state lookups with.

/// View of a pair vector: each key as a character sequence, each value by its
/// own view.
pub open spec fn pair_seq_view<T: View>(s: Seq<(String, T)>) -> Seq<(Seq<char>, T::V)> {
    s.map(|i: int, p: (String, T)| (p.0@, p.1@))
}

/// View of an argument vector: each string as a character sequence.
pub open spec fn strs_view(s: Seq<String>) -> Seq<Seq<char>> {
    s.map(|i: int, x: String| x@)
}

/// First value bound to `k` at or after position `i`.
pub open spec fn lookup_from<T>(s: Seq<(Seq<char>, T)>, k: Seq<char>, i: int) -> Option<T>
    decreases s.len() - i,
{
    if i < 0 || i >= s.len() {
        None
    } else if s[i].0 == k {
        Some(s[i].1)
    } else {
        lookup_from(s, k, i + 1)
    }
}

/// First value bound to `k`, if any.
pub open spec fn lookup<T>(s: Seq<(Seq<char>, T)>, k: Seq<char>) -> Option<T> {
    lookup_from(s, k, 0)
}

/// Whether some pair binds `k`.
pub open spec fn has_key<T>(s: Seq<(Seq<char>, T)>, k: Seq<char>) -> bool {
    lookup(s, k) is Some
}

/// No key is bound twice.
pub open spec fn distinct_keys<T>(s: Seq<(Seq<char>, T)>) -> bool {
    forall|i: int, j: int| 0 <= i < j < s.len() ==> s[i].0 != s[j].0
}

/// Relies on `str`'s `==`: true exactly when the two strings hold the same
/// characters.
#[verifier::external_body]
pub fn str_eq(a: &str, b: &str) -> (r: bool)
    ensures
        r == (a@ == b@),
{
    a == b
}

/// What `String::from_utf8_lossy` decodes a given byte sequence to.
pub uninterp spec fn lossy_of(bytes: Seq<u8>) -> Seq<char>;

/// Relies on `String::from_utf8_lossy`: the decoding depends on the bytes
/// alone.
#[verifier::external_body]
pub fn bytes_to_string_lossy(v: &[u8]) -> (r: String)
    ensures
        r@ == lossy_of(v@),
{
    String::from_utf8_lossy(v).into_owned()
}

/// First value bound to `k` in a pair vector, by the same rule as `lookup`.
#[verifier::loop_isolation(false)]
pub fn assoc_get<'a, T: View>(s: &'a Vec<(String, T)>, k: &str) -> (r: Option<&'a T>)
    ensures
        match r {
            Some(v) => lookup(pair_seq_view(s@), k@) == Some(v@),
            None => lookup(pair_seq_view(s@), k@) is None,
        },
{
    let ghost view = pair_seq_view(s@);
    let mut i: usize = 0;
    while i < s.len()
        invariant
            0 <= i <= s.len(),
            view == pair_seq_view(s@),
            lookup_from(view, k@, 0) == lookup_from(view, k@, i as int),
        decreases s.len() - i,
    {
        assert(view[i as int] == (s@[i as int].0@, s@[i as int].1@));
        if str_eq(s[i].0.as_str(), k) {
            return Some(&s[i].1);
        }
        i = i + 1;
    }
    None
}

} // verus!
