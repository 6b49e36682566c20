//! The string table of the interpreter: NUL-terminated strings interned in
//! one UTF-8 buffer, found by byte offset.

use vstd::prelude::*;

use vstd::string::StringSliceAdditionalSpecFns;
use vstd::utf8::{decode_utf8, is_char_boundary, is_continuation_byte, valid_utf8};

use super::outside::{
    cache_get, cache_insert, cache_new, cached_lengths, text_as_str, text_bytes, text_from_utf8,
    text_push_str, LengthCache, Text,
};
use super::{ProgsError, StringId};
use crate::text::{chars_of, join, string_of};

verus! {

broadcast use {vstd::utf8::encode_utf8_valid_utf8, vstd::utf8::encode_utf8_decode_utf8};

/// The most characters `get` scans for the end of a string.
pub const MAX_SCAN: usize = 1048576;

/// `i` is the start of a character in `bytes`, or its end.
pub open spec fn at_char_start(bytes: Seq<u8>, i: int) -> bool {
    0 <= i <= bytes.len() && (i == bytes.len() || !is_continuation_byte(bytes[i]))
}

/// `target`, followed by a NUL byte, stands at offset `ofs` of `bytes`.
pub open spec fn terminated_at(bytes: Seq<u8>, target: Seq<u8>, ofs: int) -> bool {
    &&& 0 <= ofs
    &&& ofs + target.len() < bytes.len()
    &&& bytes.subrange(ofs, ofs + target.len()) == target
    &&& bytes[ofs + target.len()] == 0
}

/// The offsets `find` tries: those at which a character of the target
/// itself starts.
pub open spec fn probe(target: Seq<u8>, i: int) -> bool {
    0 <= i < target.len() && !is_continuation_byte(target[i])
}

/// No offset tried before `i` holds the target.
pub open spec fn no_match_before(bytes: Seq<u8>, target: Seq<u8>, i: int) -> bool {
    forall|j: int| 0 <= j < i && #[trigger] probe(target, j) ==> !terminated_at(bytes, target, j)
}

/// The offsets `find` reads the text at, each tried offset up to the first
/// that holds the target, lie within the text at character starts.
pub open spec fn find_in_bounds(bytes: Seq<u8>, target: Seq<u8>) -> bool {
    forall|i: int|
        #[trigger] probe(target, i) && no_match_before(bytes, target, i) ==> at_char_start(bytes, i)
}

/// `n` is the position of the first NUL character of `chars`.
pub open spec fn nul_at(chars: Seq<char>, n: int) -> bool {
    &&& 0 <= n < chars.len()
    &&& chars[n] == '\0'
    &&& forall|j: int| 0 <= j < n ==> chars[j] != '\0'
}

/// The characters of the text from byte offset `start` on.
pub open spec fn chars_from(bytes: Seq<u8>, start: int) -> Seq<char> {
    decode_utf8(bytes.subrange(start, bytes.len() as int))
}

/// The position of the first NUL character from byte offset `start` on.
pub open spec fn scan_len(bytes: Seq<u8>, start: int) -> int {
    choose|n: int| nul_at(chars_from(bytes, start), n)
}

/// The string of `len` bytes at byte offset `start`.
pub open spec fn string_at(bytes: Seq<u8>, start: int, len: int) -> Seq<char> {
    decode_utf8(bytes.subrange(start, start + len))
}

/// The text split at each NUL character.
pub open spec fn split_nul(s: Seq<char>) -> Seq<Seq<char>>
    decreases s.len(),
{
    if s.len() == 0 {
        seq![Seq::<char>::empty()]
    } else {
        let init = split_nul(s.drop_last());
        if s.last() == '\0' {
            init.push(Seq::<char>::empty())
        } else {
            init.update(init.len() - 1, init.last().push(s.last()))
        }
    }
}

proof fn lemma_split_nul_len(s: Seq<char>)
    ensures
        split_nul(s).len() >= 1,
    decreases s.len(),
{
    if s.len() > 0 {
        lemma_split_nul_len(s.drop_last());
    }
}

proof fn lemma_join_extend_last(q: Seq<Seq<char>>, sep: Seq<char>, c: char)
    requires
        q.len() >= 1,
    ensures
        join(q.update(q.len() - 1, q.last().push(c)), sep) == join(q, sep).push(c),
{
    let q2 = q.update(q.len() - 1, q.last().push(c));
    if q.len() == 1 {
        assert(join(q2, sep) == q2[0]);
    } else {
        assert(q2.drop_last() =~= q.drop_last());
        assert(join(q2, sep) == join(q.drop_last(), sep) + sep + q.last().push(c));
        assert(join(q.drop_last(), sep) + sep + q.last().push(c) =~= (join(q.drop_last(), sep) + sep
            + q.last()).push(c));
    }
}

/// Splitting a text at its NUL characters loses nothing and moves nothing:
/// the pieces, joined with a NUL between each two, give back the text, and
/// no piece holds a NUL, so every other character stays in its piece.
pub proof fn split_nul_rejoins(s: Seq<char>)
    ensures
        join(split_nul(s), seq!['\0']) == s,
        forall|i: int| 0 <= i < split_nul(s).len() ==> !(#[trigger] split_nul(s)[i]).contains('\0'),
    decreases s.len(),
{
    lemma_split_nul_len(s);
    if s.len() == 0 {
        assert(split_nul(s)[0] =~= Seq::<char>::empty());
        assert(join(split_nul(s), seq!['\0']) == split_nul(s)[0]);
        assert(s =~= Seq::<char>::empty());
    } else {
        let init = s.drop_last();
        split_nul_rejoins(init);
        lemma_split_nul_len(init);
        let p = split_nul(init);
        if s.last() == '\0' {
            let q = p.push(Seq::<char>::empty());
            assert(q.drop_last() =~= p);
            assert(join(q, seq!['\0']) == join(p, seq!['\0']) + seq!['\0'] + Seq::<char>::empty());
            assert(join(q, seq!['\0']) =~= s);
            assert forall|i: int| 0 <= i < q.len() implies !(#[trigger] q[i]).contains('\0') by {
                if i < p.len() {
                    assert(q[i] == p[i]);
                }
            }
        } else {
            lemma_join_extend_last(p, seq!['\0'], s.last());
            assert(init.push(s.last()) =~= s);
            let q = p.update(p.len() - 1, p.last().push(s.last()));
            assert forall|i: int| 0 <= i < q.len() implies !(#[trigger] q[i]).contains('\0') by {
                if i == p.len() - 1 {
                    assert(!p[i].contains('\0'));
                    assert forall|j: int| 0 <= j < q[i].len() implies q[i][j] != '\0' by {
                        if j < p[i].len() {
                            assert(q[i][j] == p[i][j]);
                        }
                    }
                } else {
                    assert(q[i] == p[i]);
                }
            }
        }
    }
}

/// In valid UTF-8, the character boundaries are the offsets at which a
/// character starts, and the end.
proof fn lemma_char_start(bytes: Seq<u8>, i: int)
    requires
        valid_utf8(bytes),
        0 <= i <= bytes.len(),
    ensures
        is_char_boundary(bytes, i) <==> at_char_start(bytes, i),
{
    vstd::utf8::is_char_boundary_start_end_of_seq(bytes);
    if i < bytes.len() {
        vstd::utf8::is_char_boundary_iff_not_is_continuation_byte(bytes, i);
    }
}

/// A character start at or after a boundary `i` is a boundary of the text
/// from `i` on.
proof fn lemma_sub_char_start(bytes: Seq<u8>, i: int, j: int)
    requires
        valid_utf8(bytes),
        at_char_start(bytes, i),
        at_char_start(bytes, j),
        i <= j,
    ensures
        is_char_boundary(bytes, i),
        valid_utf8(bytes.subrange(i, bytes.len() as int)),
        is_char_boundary(bytes.subrange(i, bytes.len() as int), j - i),
{
    lemma_char_start(bytes, i);
    vstd::utf8::valid_utf8_split(bytes, i);
    let sub = bytes.subrange(i, bytes.len() as int);
    lemma_char_start(sub, j - i);
}

/// Appending valid UTF-8 keeps every character start, and the old end
/// becomes a character start.
proof fn lemma_append_char_start(b1: Seq<u8>, b2: Seq<u8>, i: int)
    requires
        valid_utf8(b2),
        at_char_start(b1, i),
    ensures
        at_char_start(b1 + b2, i),
{
    if i == b1.len() && b2.len() > 0 {
        vstd::utf8::is_char_boundary_start_end_of_seq(b2);
        lemma_char_start(b2, 0);
        assert((b1 + b2)[i] == b2[0]);
    }
}

/// Whether `target` followed by a NUL byte stands at `ofs` of `bytes`.
fn terminated_at_exec(bytes: &[u8], target: &[u8], ofs: usize) -> (r: bool)
    ensures
        r == terminated_at(bytes@, target@, ofs as int),
{
    if ofs >= bytes.len() || target.len() >= bytes.len() - ofs {
        return false;
    }
    let mut k: usize = 0;
    while k < target.len()
        invariant
            k <= target@.len(),
            ofs + target@.len() < bytes@.len(),
            bytes@.len() == bytes.len(),
            forall|m: int| 0 <= m < k ==> bytes@[ofs + m] == target@[m],
        decreases target@.len() - k,
    {
        assert(ofs + k < bytes@.len());
        if bytes[ofs + k] != target[k] {
            assert(bytes@.subrange(ofs as int, ofs + target@.len())[k as int] != target@[k as int]);
            return false;
        }
        k = k + 1;
    }
    assert(bytes@.subrange(ofs as int, ofs + target@.len()) =~= target@);
    bytes[ofs + target.len()] == 0
}

/// Interned strings, each found by the byte offset at which it starts.
pub struct StringTable {
    /// Interned string data.
    data: Text,
    /// Lengths of strings already looked up or inserted, by offset.
    lengths: LengthCache,
}

impl StringTable {
    /// The UTF-8 bytes of the table.
    pub closed spec fn bytes(&self) -> Seq<u8> {
        text_bytes(self.data)
    }

    /// The cached string lengths, by offset.
    pub closed spec fn cache(&self) -> Map<usize, usize> {
        cached_lengths(self.lengths)
    }

    /// The data is UTF-8, and each cached string lies in it from one
    /// character start to another.
    pub closed spec fn wf(&self) -> bool {
        &&& valid_utf8(self.bytes())
        &&& forall|id: usize| #[trigger]
            self.cache().contains_key(id) ==> {
                &&& id + self.cache()[id] <= self.bytes().len()
                &&& at_char_start(self.bytes(), id as int)
                &&& at_char_start(self.bytes(), id + self.cache()[id])
            }
    }

    /// A table over `data`, which must be UTF-8.
    pub fn new(data: Vec<u8>) -> (r: StringTable)
        requires
            valid_utf8(data@),
        ensures
            r.wf(),
            r.bytes() == data@,
            r.cache().dom() == Set::<usize>::empty(),
    {
        StringTable { data: text_from_utf8(data), lengths: cache_new() }
    }

    /// Length of the table's data in bytes.
    pub fn len(&self) -> (r: usize)
        ensures
            r == self.bytes().len(),
    {
        text_as_str(&self.data).as_bytes().len()
    }

    /// Checks that a raw identifier names an offset in the table.
    pub fn id_from_i32(&self, value: i32) -> (r: Result<StringId, ProgsError>)
        ensures
            value < 0 ==> r == Err::<StringId, ProgsError>(ProgsError::NegativeStringId),
            0 <= value < self.bytes().len() ==> r == Ok::<StringId, ProgsError>(
                StringId(value as usize),
            ),
            value >= 0 && value >= self.bytes().len() ==> r == Err::<StringId, ProgsError>(
                ProgsError::NoSuchString(value),
            ),
    {
        if value < 0 {
            return Err(ProgsError::NegativeStringId);
        }
        let id = StringId(value as usize);
        if id.0 < self.len() {
            Ok(id)
        } else {
            Err(ProgsError::NoSuchString(value))
        }
    }

    /// The offset of `target` followed by a NUL byte, tried only at the
    /// offsets at which the target's own characters start: the first such
    /// offset that holds it, if any does.
    pub fn find(&self, target: &str) -> (r: Option<StringId>)
        requires
            self.wf(),
            find_in_bounds(self.bytes(), target.spec_bytes()),
        ensures
            r matches Some(id) ==> probe(target.spec_bytes(), id.0 as int) && terminated_at(
                self.bytes(),
                target.spec_bytes(),
                id.0 as int,
            ) && no_match_before(self.bytes(), target.spec_bytes(), id.0 as int),
            r is None ==> no_match_before(
                self.bytes(),
                target.spec_bytes(),
                target.spec_bytes().len() as int,
            ),
    {
        let t = target.as_bytes();
        let b = text_as_str(&self.data).as_bytes();
        let mut i: usize = 0;
        while i < t.len()
            invariant
                i <= t@.len(),
                t@ == target.spec_bytes(),
                b@ == self.bytes(),
                no_match_before(b@, t@, i as int),
            decreases t@.len() - i,
        {
            let byte = t[i];
            if !(0x80 <= byte && byte <= 0xbf) {
                if terminated_at_exec(b, t, i) {
                    return Some(StringId(i));
                }
            }
            assert forall|j: int| 0 <= j < i + 1 && #[trigger] probe(t@, j) implies !terminated_at(
                b@,
                t@,
                j,
            ) by {}
            i = i + 1;
        }
        None
    }

    /// The string that starts at `id`: the bytes cached for it, or else as
    /// many bytes as it has characters before its NUL terminator, whose
    /// length is then cached. `None` if `id` lies past the data.
    pub fn get(&mut self, id: StringId) -> (r: Option<String>)
        requires
            old(self).wf(),
            (id.0 < old(self).bytes().len() && !old(self).cache().contains_key(id.0)) ==> {
                &&& at_char_start(old(self).bytes(), id.0 as int)
                &&& exists|n: int| nul_at(chars_from(old(self).bytes(), id.0 as int), n)
                &&& scan_len(old(self).bytes(), id.0 as int) < MAX_SCAN
                &&& at_char_start(
                    old(self).bytes(),
                    id.0 + scan_len(old(self).bytes(), id.0 as int),
                )
            },
        ensures
            final(self).wf(),
            final(self).bytes() == old(self).bytes(),
            id.0 >= old(self).bytes().len() ==> r is None && final(self).cache() == old(
                self,
            ).cache(),
            (id.0 < old(self).bytes().len() && old(self).cache().contains_key(id.0)) ==> (r matches Some(
                s,
            ) && s@ == string_at(old(self).bytes(), id.0 as int, old(self).cache()[id.0] as int)
                && final(self).cache() == old(self).cache()),
            (id.0 < old(self).bytes().len() && !old(self).cache().contains_key(id.0)) ==> (r matches Some(
                s,
            ) && s@ == string_at(
                old(self).bytes(),
                id.0 as int,
                scan_len(old(self).bytes(), id.0 as int),
            ) && final(self).cache() == old(self).cache().insert(
                id.0,
                scan_len(old(self).bytes(), id.0 as int) as usize,
            )),
    {
        let start = id.0;
        let s = text_as_str(&self.data);
        let ghost bytes = self.bytes();
        if start >= s.as_bytes().len() {
            return None;
        }
        match cache_get(&self.lengths, start) {
            Some(len) => {
                proof {
                    lemma_sub_char_start(bytes, start as int, start + len);
                }
                let (_, rest) = s.split_at(start);
                let (piece, _) = rest.split_at(len);
                assert(piece.spec_bytes() =~= bytes.subrange(start as int, start + len));
                Some(piece.to_owned())
            },
            None => {
                proof {
                    lemma_sub_char_start(bytes, start as int, start as int);
                }
                let (_, rest) = s.split_at(start);
                assert(rest.spec_bytes() =~= bytes.subrange(start as int, bytes.len() as int));
                let chars = chars_of(rest);
                let ghost n = scan_len(bytes, start as int);
                let mut k: usize = 0;
                while k < chars.len() && k < MAX_SCAN && chars[k] != '\0'
                    invariant
                        k <= chars@.len(),
                        chars@ == chars_from(bytes, start as int),
                        nul_at(chars@, n),
                        n < MAX_SCAN,
                        forall|j: int| 0 <= j < k ==> chars@[j] != '\0',
                    decreases chars@.len() - k,
                {
                    k = k + 1;
                }
                assert(k == n);
                proof {
                    lemma_sub_char_start(bytes, start as int, start + k);
                }
                let (piece, _) = rest.split_at(k);
                assert(piece.spec_bytes() =~= bytes.subrange(start as int, start + k));
                let out = piece.to_owned();
                cache_insert(&mut self.lengths, start, k);
                Some(out)
            },
        }
    }

    /// Appends `s`, without a terminator, and caches its length; the new
    /// string's identifier is the old length of the data.
    pub fn insert(&mut self, s: &str) -> (r: StringId)
        requires
            old(self).wf(),
            !s@.contains('\0'),
            old(self).bytes().len() + s.spec_bytes().len() <= usize::MAX,
        ensures
            final(self).wf(),
            r == StringId(old(self).bytes().len() as usize),
            final(self).bytes() == old(self).bytes() + s.spec_bytes(),
            final(self).cache() == old(self).cache().insert(
                old(self).bytes().len() as usize,
                s.spec_bytes().len() as usize,
            ),
    {
        let id = StringId(self.len());
        let n = s.len();
        let ghost old_bytes = self.bytes();
        text_push_str(&mut self.data, s);
        cache_insert(&mut self.lengths, id.0, n);
        proof {
            vstd::utf8::valid_utf8_concat(old_bytes, s.spec_bytes());
            assert forall|i: usize| #[trigger] self.cache().contains_key(i) implies {
                &&& i + self.cache()[i] <= self.bytes().len()
                &&& at_char_start(self.bytes(), i as int)
                &&& at_char_start(self.bytes(), i + self.cache()[i])
            } by {
                if i == id.0 {
                    lemma_append_char_start(old_bytes, s.spec_bytes(), i as int);
                } else {
                    assert(old(self).cache().contains_key(i));
                    lemma_append_char_start(old_bytes, s.spec_bytes(), i as int);
                    lemma_append_char_start(old_bytes, s.spec_bytes(), i + old(self).cache()[i]);
                }
            }
        }
        id
    }

    /// The offset of `target` if `find` finds it, else the offset at which
    /// it is inserted.
    pub fn find_or_insert(&mut self, target: &str) -> (r: StringId)
        requires
            old(self).wf(),
            find_in_bounds(old(self).bytes(), target.spec_bytes()),
            no_match_before(
                old(self).bytes(),
                target.spec_bytes(),
                target.spec_bytes().len() as int,
            ) ==> !target@.contains('\0') && old(self).bytes().len() + target.spec_bytes().len()
                <= usize::MAX,
        ensures
            final(self).wf(),
            !no_match_before(
                old(self).bytes(),
                target.spec_bytes(),
                target.spec_bytes().len() as int,
            ) ==> *final(self) == *old(self) && probe(target.spec_bytes(), r.0 as int)
                && terminated_at(old(self).bytes(), target.spec_bytes(), r.0 as int)
                && no_match_before(old(self).bytes(), target.spec_bytes(), r.0 as int),
            no_match_before(
                old(self).bytes(),
                target.spec_bytes(),
                target.spec_bytes().len() as int,
            ) ==> r == StringId(old(self).bytes().len() as usize) && final(self).bytes() == old(
                self,
            ).bytes() + target.spec_bytes() && final(self).cache() == old(self).cache().insert(
                old(self).bytes().len() as usize,
                target.spec_bytes().len() as usize,
            ),
    {
        match self.find(target) {
            Some(id) => id,
            None => self.insert(target),
        }
    }

    /// The table's data split at each NUL character.
    pub fn iter(&self) -> (r: Vec<String>)
        requires
            self.wf(),
        ensures
            r@.map_values(|s: String| s@) == split_nul(decode_utf8(self.bytes())),
            join(r@.map_values(|s: String| s@), seq!['\0']) == decode_utf8(self.bytes()),
            forall|i: int| 0 <= i < r@.len() ==> !(#[trigger] r@[i]@).contains('\0'),
    {
        proof {
            split_nul_rejoins(decode_utf8(self.bytes()));
        }
        let s = text_as_str(&self.data);
        let chars = chars_of(s);
        let mut pieces: Vec<String> = Vec::new();
        let mut current: Vec<char> = Vec::new();
        let mut i: usize = 0;
        while i < chars.len()
            invariant
                i <= chars@.len(),
                chars@ == decode_utf8(self.bytes()),
                pieces@.map_values(|s: String| s@).push(current@) == split_nul(
                    chars@.take(i as int),
                ),
            decreases chars@.len() - i,
        {
            let c = chars[i];
            let ghost prev = pieces@.map_values(|s: String| s@);
            assert(chars@.take(i + 1).drop_last() =~= chars@.take(i as int));
            if c == '\0' {
                let piece = string_of(current.as_slice());
                pieces.push(piece);
                current = Vec::new();
                assert(pieces@.map_values(|s: String| s@) =~= prev.push(piece@));
                assert(pieces@.map_values(|s: String| s@).push(current@) =~= split_nul(
                    chars@.take(i as int),
                ).push(Seq::<char>::empty()));
            } else {
                let ghost before = current@;
                current.push(c);
                proof {
                    lemma_split_nul_len(chars@.take(i as int));
                }
                assert(prev.push(current@) =~= prev.push(before).update(
                    prev.len() as int,
                    before.push(c),
                ));
            }
            i = i + 1;
        }
        assert(chars@.take(i as int) =~= chars@);
        let ghost prev = pieces@.map_values(|s: String| s@);
        let last = string_of(current.as_slice());
        pieces.push(last);
        assert(pieces@.map_values(|s: String| s@) =~= prev.push(current@));
        proof {
            let views = pieces@.map_values(|s: String| s@);
            assert forall|i: int| 0 <= i < pieces@.len() implies !(#[trigger] pieces@[i]@).contains('\0') by {
                assert(views[i] == pieces@[i]@);
            }
        }
        pieces
    }
}

/// What `insert` appends, `get` gives back: the string at the old end of
/// the data, with the length `insert` caches, is the inserted string.
pub proof fn get_after_insert(bytes: Seq<u8>, s: Seq<char>)
    ensures
        string_at(bytes + vstd::utf8::encode_utf8(s), bytes.len() as int, vstd::utf8::encode_utf8(s).len() as int)
            == s,
{
    let e = vstd::utf8::encode_utf8(s);
    assert((bytes + e).subrange(bytes.len() as int, (bytes.len() + e.len()) as int) =~= e);
}

} // verus!
