//! Byte slices: comparison, search and splitting.
use vstd::prelude::*;

verus! {

/// The bytes of a text.
pub open spec fn utf8(text: &str) -> Seq<u8> {
    vstd::utf8::encode_utf8(text@)
}

/// Where `byte` first occurs in `s`; the length of `s` when it does not occur.
pub open spec fn index_of(s: Seq<u8>, byte: u8) -> int
    decreases s.len(),
{
    if s.len() == 0 || s[0] == byte {
        0
    } else {
        1 + index_of(s.drop_first(), byte)
    }
}

/// The pieces of `s` between occurrences of `separator`, in order, empty pieces kept.
pub open spec fn fields(s: Seq<u8>, separator: u8) -> Seq<Seq<u8>>
    decreases s.len(),
{
    if s.len() == 0 {
        seq![Seq::empty()]
    } else {
        let before = fields(s.drop_last(), separator);
        if s.last() == separator {
            before.push(Seq::empty())
        } else {
            before.drop_last().push(before.last().push(s.last()))
        }
    }
}

/// The contents of a sequence of byte vectors.
pub open spec fn views(pieces: Seq<Vec<u8>>) -> Seq<Seq<u8>> {
    Seq::new(pieces.len(), |i: int| pieces[i]@)
}

/// Whether `pattern` occurs in `s` as consecutive bytes.
pub open spec fn occurs_in(pattern: Seq<u8>, s: Seq<u8>) -> bool {
    exists|i: int| #[trigger] occurs_at(pattern, s, i)
}

/// Whether `pattern` occurs in `s` at position `i`.
pub open spec fn occurs_at(pattern: Seq<u8>, s: Seq<u8>, i: int) -> bool {
    &&& 0 <= i
    &&& i + pattern.len() <= s.len()
    &&& s.subrange(i, i + pattern.len()) == pattern
}

pub proof fn lemma_index_of(s: Seq<u8>, byte: u8)
    ensures
        0 <= index_of(s, byte) <= s.len(),
        index_of(s, byte) < s.len() ==> s[index_of(s, byte)] == byte,
        forall|j: int| 0 <= j < index_of(s, byte) ==> s[j] != byte,
    decreases s.len(),
{
    if s.len() > 0 && s[0] != byte {
        lemma_index_of(s.drop_first(), byte);
        assert forall|j: int| 0 <= j < index_of(s, byte) implies s[j] != byte by {
            if j > 0 {
                assert(s[j] == s.drop_first()[j - 1]);
            }
        }
    }
}

pub proof fn lemma_index_of_unique(s: Seq<u8>, byte: u8, i: int)
    requires
        0 <= i <= s.len(),
        i < s.len() ==> s[i] == byte,
        forall|j: int| 0 <= j < i ==> s[j] != byte,
    ensures
        index_of(s, byte) == i,
{
    lemma_index_of(s, byte);
}

pub proof fn lemma_fields_nonempty(s: Seq<u8>, separator: u8)
    ensures
        fields(s, separator).len() > 0,
    decreases s.len(),
{
    if s.len() > 0 {
        lemma_fields_nonempty(s.drop_last(), separator);
    }
}

/// A separator and what follows it add one field, where no other separator follows.
pub proof fn lemma_fields_append(s: Seq<u8>, separator: u8, tail: Seq<u8>)
    requires
        forall|i: int| 0 <= i < tail.len() ==> tail[i] != separator,
    ensures
        fields(s.push(separator) + tail, separator) == fields(s, separator).push(tail),
    decreases tail.len(),
{
    let whole = s.push(separator) + tail;
    if tail.len() == 0 {
        assert(whole =~= s.push(separator));
        assert(whole.drop_last() =~= s);
        assert(tail =~= Seq::empty());
    } else {
        lemma_fields_append(s, separator, tail.drop_last());
        assert(whole.drop_last() =~= s.push(separator) + tail.drop_last());
        let before = fields(s, separator).push(tail.drop_last());
        assert(before.drop_last() =~= fields(s, separator));
        assert(before.last().push(tail.last()) =~= tail);
    }
}

/// Whether two slices hold the same bytes.
pub fn bytes_equal(left: &[u8], right: &[u8]) -> (equal: bool)
    ensures
        equal == (left@ == right@),
{
    if left.len() != right.len() {
        return false;
    }
    let mut i: usize = 0;
    while i < left.len()
        invariant
            i <= left.len(),
            left.len() == right.len(),
            forall|j: int| 0 <= j < i ==> left[j] == right[j],
        decreases left.len() - i,
    {
        if left[i] != right[i] {
            return false;
        }
        i += 1;
    }
    assert(left@ =~= right@);
    true
}

/// Whether a slice holds exactly the bytes of a text.
pub fn is_text(bytes: &[u8], text: &str) -> (equal: bool)
    ensures
        equal == (bytes@ == utf8(text)),
{
    bytes_equal(bytes, text.as_bytes())
}

/// Whether `bytes` begins with `prefix`.
pub fn starts_with(bytes: &[u8], prefix: &[u8]) -> (found: bool)
    ensures
        found == prefix@.is_prefix_of(bytes@),
{
    if bytes.len() < prefix.len() {
        return false;
    }
    let mut i: usize = 0;
    while i < prefix.len()
        invariant
            i <= prefix.len() <= bytes.len(),
            forall|j: int| 0 <= j < i ==> prefix[j] == bytes[j],
        decreases prefix.len() - i,
    {
        if prefix[i] != bytes[i] {
            return false;
        }
        i += 1;
    }
    assert(prefix@ =~= bytes@.subrange(0, prefix@.len() as int));
    true
}

/// What follows the first `n` bytes.
pub fn after(bytes: &[u8], n: usize) -> (rest: &[u8])
    requires
        n <= bytes@.len(),
    ensures
        rest@ == bytes@.skip(n as int),
{
    &bytes[n..bytes.len()]
}

/// The first `n` bytes.
pub fn before(bytes: &[u8], n: usize) -> (start: &[u8])
    requires
        n <= bytes@.len(),
    ensures
        start@ == bytes@.take(n as int),
{
    &bytes[0..n]
}

/// What follows `prefix`, where `bytes` begins with it.
pub fn strip_prefix<'a>(bytes: &'a [u8], prefix: &[u8]) -> (rest: Option<&'a [u8]>)
    ensures
        match rest {
            Some(rest) => prefix@.is_prefix_of(bytes@) && rest@ == bytes@.skip(
                prefix@.len() as int,
            ),
            None => !prefix@.is_prefix_of(bytes@),
        },
{
    if starts_with(bytes, prefix) {
        Some(after(bytes, prefix.len()))
    } else {
        None
    }
}

/// Where `byte` first occurs.
pub fn position(bytes: &[u8], byte: u8) -> (found: Option<usize>)
    ensures
        match found {
            Some(i) => i < bytes@.len() && i == index_of(bytes@, byte),
            None => index_of(bytes@, byte) == bytes@.len(),
        },
{
    let mut i: usize = 0;
    while i < bytes.len()
        invariant
            i <= bytes.len(),
            forall|j: int| 0 <= j < i ==> bytes[j] != byte,
        decreases bytes.len() - i,
    {
        if bytes[i] == byte {
            proof {
                lemma_index_of_unique(bytes@, byte, i as int);
            }
            return Some(i);
        }
        i += 1;
    }
    proof {
        lemma_index_of_unique(bytes@, byte, i as int);
    }
    None
}

/// Whether `pattern` occurs as consecutive bytes.
pub fn contains(bytes: &[u8], pattern: &[u8]) -> (found: bool)
    ensures
        found == occurs_in(pattern@, bytes@),
{
    let mut i: usize = 0;
    while pattern.len() <= bytes.len() - i
        invariant
            i <= bytes.len(),
            forall|j: int| 0 <= j < i ==> !occurs_at(pattern@, bytes@, j),
        decreases bytes.len() - i,
    {
        if starts_with(after(bytes, i), pattern) {
            proof {
                assert(bytes@.skip(i as int).subrange(0, pattern@.len() as int)
                    =~= bytes@.subrange(i as int, i + pattern@.len()));
                assert(occurs_at(pattern@, bytes@, i as int));
            }
            return true;
        }
        proof {
            if occurs_at(pattern@, bytes@, i as int) {
                assert(pattern@ =~= bytes@.skip(i as int).subrange(0, pattern@.len() as int));
            }
        }
        if i == bytes.len() {
            return false;
        }
        i += 1;
    }
    false
}

/// The pieces between occurrences of a separator.
pub fn split_fields(bytes: &[u8], separator: u8) -> (pieces: Vec<Vec<u8>>)
    ensures
        views(pieces@) == fields(bytes@, separator),
{
    let mut pieces: Vec<Vec<u8>> = Vec::new();
    let mut current: Vec<u8> = Vec::new();
    let mut i: usize = 0;
    proof {
        assert(bytes@.take(0) =~= Seq::empty());
        assert(fields(bytes@.take(0), separator) =~= views(pieces@).push(current@));
    }
    while i < bytes.len()
        invariant
            i <= bytes.len(),
            fields(bytes@.take(i as int), separator) == views(pieces@).push(current@),
        decreases bytes.len() - i,
    {
        let ghost taken = bytes@.take(i as int + 1);
        let ghost before = views(pieces@);
        let ghost open = current@;
        assert(taken.drop_last() =~= bytes@.take(i as int));
        assert(before.push(open).drop_last() =~= before);
        if bytes[i] == separator {
            pieces.push(current);
            current = Vec::new();
            assert(views(pieces@) =~= before.push(open));
        } else {
            current.push(bytes[i]);
        }
        i += 1;
    }
    assert(bytes@.take(i as int) =~= bytes@);
    let ghost before = views(pieces@);
    let ghost open = current@;
    pieces.push(current);
    assert(views(pieces@) =~= before.push(open));
    pieces
}

/// A copy of a slice.
pub fn copied(bytes: &[u8]) -> (copy: Vec<u8>)
    ensures
        copy@ == bytes@,
{
    vstd::slice::slice_to_vec(bytes)
}

/// Appends the bytes of a slice.
pub fn append_slice(target: &mut Vec<u8>, bytes: &[u8])
    ensures
        final(target)@ == old(target)@ + bytes@,
{
    let ghost start = target@;
    target.extend_from_slice(bytes);
    assert(target@ =~= start + bytes@);
}

/// The empty byte vector is left behind; its former content is returned.
pub fn take_bytes(bytes: &mut Vec<u8>) -> (taken: Vec<u8>)
    ensures
        taken@ == old(bytes)@,
        final(bytes)@ == Seq::<u8>::empty(),
{
    let mut taken: Vec<u8> = Vec::new();
    taken.append(bytes);
    assert(taken@ =~= old(bytes)@);
    taken
}

/// The fields of a text are what stands between its separators: a text without any is one
/// field, and a separator with what follows it adds one.
pub proof fn law_fields_stand_between_separators(s: Seq<u8>, separator: u8, tail: Seq<u8>)
    requires
        forall|i: int| 0 <= i < tail.len() ==> tail[i] != separator,
    ensures
        fields(tail, separator) == seq![tail],
        fields(s.push(separator) + tail, separator) == fields(s, separator).push(tail),
    decreases tail.len(),
{
    lemma_fields_append(s, separator, tail);
    if tail.len() > 0 {
        law_fields_stand_between_separators(s, separator, tail.drop_last());
        assert(seq![tail.drop_last()].drop_last() =~= Seq::<Seq<u8>>::empty());
        assert(tail.drop_last().push(tail.last()) =~= tail);
        assert(fields(tail, separator) =~= seq![tail]);
    } else {
        assert(tail =~= Seq::<u8>::empty());
    }
}

/// A byte is found where it first stands, and a pattern exactly where all its bytes stand one
/// after the other.
pub proof fn law_bytes_are_found(s: Seq<u8>, byte: u8, pattern: Seq<u8>)
    ensures
        index_of(s, byte) < s.len() <==> s.contains(byte),
        index_of(s, byte) < s.len() ==> s[index_of(s, byte)] == byte,
        forall|j: int| 0 <= j < index_of(s, byte) ==> s[j] != byte,
        occurs_in(pattern, s) <==> exists|before: Seq<u8>, after: Seq<u8>|
            s == #[trigger] (before + pattern + after),
{
    lemma_index_of(s, byte);
    if s.contains(byte) {
        let k = choose|k: int| 0 <= k < s.len() && s[k] == byte;
        assert(!(k < index_of(s, byte)));
    }
    if occurs_in(pattern, s) {
        let i = choose|i: int| #[trigger] occurs_at(pattern, s, i);
        let end = i + pattern.len();
        assert(s =~= s.take(i) + pattern + s.skip(end)) by {
            assert(s =~= s.take(i) + s.subrange(i, end) + s.skip(end));
        }
    }
    if exists|before: Seq<u8>, after: Seq<u8>| s == #[trigger] (before + pattern + after) {
        let (before, after) = choose|before: Seq<u8>, after: Seq<u8>|
            s == #[trigger] (before + pattern + after);
        let i = before.len() as int;
        assert(s.subrange(i, i + pattern.len()) =~= pattern);
        assert(occurs_at(pattern, s, i));
    }
}

} // verus!
