//! The string buffer (`imstr`) and the length cache (`im`) that the string
//! table is built on.

use vstd::prelude::*;

use vstd::string::StringSliceAdditionalSpecFns;
use vstd::utf8::valid_utf8;

verus! {

#[verifier::external_type_specification]
#[verifier::external_body]
#[verifier::reject_recursive_types(K)]
#[verifier::reject_recursive_types(V)]
#[verifier::reject_recursive_types(S)]
pub struct ExImHashMap<K, V, S>(im::HashMap<K, V, S>);

/// The interned text of a string table: an `imstr` string, which Verus
/// cannot declare because its type parameter is bound by a trait of `imstr`.
#[verifier::external_body]
pub struct Text {
    inner: imstr::string::ImString<imstr::string::Local>,
}

/// The cache of string lengths, keyed by string offset.
pub type LengthCache = im::HashMap<usize, usize>;

/// The UTF-8 bytes a text holds.
pub uninterp spec fn text_bytes(t: Text) -> Seq<u8>;

/// The offsets and lengths a length cache holds.
pub uninterp spec fn cached_lengths(m: LengthCache) -> Map<usize, usize>;

/// Calls `ImString::from_utf8`, which fails only on bytes that are not
/// UTF-8; on UTF-8 bytes the text holds exactly those bytes.
#[verifier::external_body]
pub(crate) fn text_from_utf8(data: Vec<u8>) -> (r: Text)
    requires
        valid_utf8(data@),
    ensures
        text_bytes(r) == data@,
{
    Text { inner: imstr::string::ImString::from_utf8(data).unwrap() }
}

/// Calls `ImString::as_str`: the whole text as a string slice.
#[verifier::external_body]
pub(crate) fn text_as_str(t: &Text) -> (r: &str)
    ensures
        r.spec_bytes() == text_bytes(*t),
{
    t.inner.as_str()
}

/// Calls `ImString::push_str`: the text grows by the bytes of `s`.
#[verifier::external_body]
pub(crate) fn text_push_str(t: &mut Text, s: &str)
    ensures
        text_bytes(*final(t)) == text_bytes(*old(t)) + s.spec_bytes(),
{
    t.inner.push_str(s)
}

/// Calls `im::HashMap::new`: a cache with no entries.
#[verifier::external_body]
pub(crate) fn cache_new() -> (r: LengthCache)
    ensures
        cached_lengths(r).dom() == Set::<usize>::empty(),
{
    im::HashMap::new()
}

/// Calls `im::HashMap::get`: the length cached for `id`, if there is one.
#[verifier::external_body]
pub(crate) fn cache_get(m: &LengthCache, id: usize) -> (r: Option<usize>)
    ensures
        r == (if cached_lengths(*m).contains_key(id) {
            Some(cached_lengths(*m)[id])
        } else {
            None
        }),
{
    m.get(&id).copied()
}

/// Calls `im::HashMap::insert`: afterwards `id` leads to `len`, and every
/// other entry is unchanged.
#[verifier::external_body]
pub(crate) fn cache_insert(m: &mut LengthCache, id: usize, len: usize)
    ensures
        cached_lengths(*final(m)) == cached_lengths(*old(m)).insert(id, len),
{
    m.insert(id, len);
}

} // verus!
