//! Stream metadata: the vendor text and the user comments, as text borrowed
//! from the bytes that the native decoder holds.

use vstd::prelude::*;
use vstd::string::StringSliceAdditionalSpecFns;
use vstd::utf8::{
    decode_first_scalar, decode_utf8, length_of_first_scalar, pop_first_scalar, valid_first_scalar,
    valid_utf8,
};

verus! {

/// The text that stands for a vendor string that is not valid UTF-8.
pub const INVALID_VENDOR: &'static str = "<INVALID UTF-8>";

/// The comment structure as the native decoder holds it: bytes, not yet
/// known to be text.
#[derive(Debug)]
pub struct NativeComments<'a> {
    /// The vendor string, without its terminating zero.
    pub vendor: &'a [u8],
    /// The user comments, each with the length that the native table gives.
    pub entries: Vec<&'a [u8]>,
}

/// File metadata
#[derive(Debug)]
pub struct Comments<'a> {
    /// The Vorbis implementation that encoded the stream.
    pub vendor: &'a str,
    /// User-specified key-value pairs of the form KEY=VALUE.
    pub comments: Vec<&'a str>,
}

/// Metadata as mathematical text.
pub struct CommentsView {
    /// The vendor text.
    pub vendor: Seq<char>,
    /// The user comments, in the order of the native table.
    pub comments: Seq<Seq<char>>,
}

impl<'a> View for Comments<'a> {
    type V = CommentsView;

    open spec fn view(&self) -> CommentsView {
        CommentsView {
            vendor: self.vendor@,
            comments: Seq::new(self.comments@.len(), |i: int| self.comments@[i]@),
        }
    }
}

impl<'a> NativeComments<'a> {
    /// The bytes of each entry, in the order of the native table.
    pub open spec fn entry_bytes(&self) -> Seq<Seq<u8>> {
        Seq::new(self.entries@.len(), |i: int| self.entries@[i]@)
    }
}

/// The vendor text: the bytes decoded, or a fixed marker where they are not
/// valid UTF-8.
pub open spec fn vendor_text(bytes: Seq<u8>) -> Seq<char> {
    if valid_utf8(bytes) {
        decode_utf8(bytes)
    } else {
        INVALID_VENDOR@
    }
}

/// The entries that are valid UTF-8, decoded, in their order. An entry that
/// is not valid UTF-8 is left out, and takes nothing else with it.
pub open spec fn entry_texts(entries: Seq<Seq<u8>>) -> Seq<Seq<char>>
    decreases entries.len(),
{
    if entries.len() == 0 {
        Seq::empty()
    } else if valid_utf8(entries.last()) {
        entry_texts(entries.drop_last()).push(decode_utf8(entries.last()))
    } else {
        entry_texts(entries.drop_last())
    }
}

/// The metadata that a native comment structure holds.
pub open spec fn extracted(vendor: Seq<u8>, entries: Seq<Seq<u8>>) -> CommentsView {
    CommentsView { vendor: vendor_text(vendor), comments: entry_texts(entries) }
}

/// `core::str::from_utf8`: the bytes as text, without copying, where they are
/// valid UTF-8, and nothing where they are not. The text is made of exactly
/// the bytes given.
#[verifier::external_body]
pub(crate) fn text_of<'a>(bytes: &'a [u8]) -> (text: Option<&'a str>)
    ensures
        text is Some <==> valid_utf8(bytes@),
        text matches Some(t) ==> t.spec_bytes() == bytes@,
{
    match std::str::from_utf8(bytes) {
        Ok(t) => Some(t),
        Err(_) => None,
    }
}

/// Text made of the bytes `bytes` is the text that the bytes decode to.
pub proof fn lemma_text_is_decoded(t: &str, bytes: Seq<u8>)
    requires
        t.spec_bytes() == bytes,
    ensures
        valid_utf8(bytes),
        t@ == decode_utf8(bytes),
{
    vstd::utf8::encode_utf8_valid_utf8(t@);
    vstd::utf8::encode_utf8_decode_utf8(t@);
}

/// The byte that stands for `=` in UTF-8, and for nothing else.
pub const EQUALS: u8 = 0x3d;

/// One user comment, taken apart at its first `=`.
#[derive(Debug)]
pub struct Field<'a> {
    /// The text before the first `=`, or the whole comment where it has none.
    pub key: &'a str,
    /// The text after the first `=`, which may be empty; nothing where the
    /// comment has no `=`.
    pub value: Option<&'a str>,
}

/// Whether `key` and `value` are the two sides of `entry`: with no `=` in
/// it the entry is the key, verbatim, and there is no value; else the key
/// ends before the first `=` and the value begins after it.
pub open spec fn splits(entry: Seq<char>, key: Seq<char>, value: Option<Seq<char>>) -> bool {
    match value {
        None => key == entry && !entry.contains('='),
        Some(v) => entry == key + seq!['='] + v && !key.contains('='),
    }
}

/// Takes a user comment of the form KEY=VALUE apart at its first `=`.
pub fn split_comment<'a>(entry: &'a str) -> (field: Field<'a>)
    ensures
        splits(
            entry@,
            field.key@,
            match field.value {
                Some(v) => Some(v@),
                None => None,
            },
        ),
{
    let bytes = entry.as_bytes();
    let n = bytes.len();
    proof {
        lemma_text_is_decoded(entry, bytes@);
    }
    let mut i: usize = 0;
    while i < n && bytes[i] != EQUALS
        invariant
            i <= n,
            n == bytes@.len(),
            forall|j: int| 0 <= j < i ==> bytes@[j] != EQUALS,
        decreases n - i,
    {
        i = i + 1;
    }
    if i == n {
        proof {
            lemma_no_equals_byte_no_equals_char(bytes@);
        }
        return Field { key: entry, value: None };
    }
    proof {
        vstd::utf8::is_char_boundary_iff_not_is_continuation_byte(bytes@, i as int);
    }
    let (key, rest) = entry.split_at(i);
    proof {
        let r = bytes@.subrange(i as int, n as int);
        vstd::utf8::valid_utf8_split(bytes@, i as int);
        assert(r[0] == EQUALS);
        assert(vstd::utf8::is_char_boundary(r, 1)) by {
            reveal_with_fuel(vstd::utf8::is_char_boundary, 2);
            reveal_with_fuel(valid_utf8, 2);
        }
    }
    let (_, value) = rest.split_at(1);
    proof {
        let b = bytes@;
        let k = b.subrange(0, i as int);
        let r = b.subrange(i as int, n as int);
        let e = r.subrange(0, 1);
        let v = r.subrange(1, r.len() as int);
        vstd::utf8::decode_utf8_split(b, i as int);
        vstd::utf8::valid_utf8_split(r, 1);
        vstd::utf8::decode_utf8_split(r, 1);
        lemma_text_is_decoded(key, k);
        lemma_text_is_decoded(value, v);
        lemma_no_equals_byte_no_equals_char(k);
        assert(decode_utf8(e) =~= seq!['=']) by {
            lemma_equals_is_one_byte();
            assert(e =~= seq![EQUALS]);
        }
        assert(entry@ =~= key@ + seq!['='] + value@);
    }
    Field { key, value: Some(value) }
}

/// The character `=` is encoded as the single byte `EQUALS`, and that byte
/// decodes to it.
pub proof fn lemma_equals_is_one_byte()
    ensures
        vstd::utf8::encode_scalar('=' as u32) == seq![EQUALS],
        vstd::utf8::encode_utf8(seq!['=']) == seq![EQUALS],
        decode_utf8(seq![EQUALS]) == seq!['='],
{
    assert((0x3du32 & 0x7f) as u8 == 0x3du8) by (bit_vector);
    assert('=' as u32 == 0x3du32);
    assert(vstd::utf8::encode_scalar('=' as u32) =~= seq![EQUALS]);
    assert(vstd::utf8::encode_utf8(seq!['=']) =~= seq![EQUALS]) by {
        reveal_with_fuel(vstd::utf8::encode_utf8, 2);
        assert(seq!['='].drop_first() =~= Seq::<char>::empty());
    }
    vstd::utf8::encode_utf8_decode_utf8(seq!['=']);
}

/// Valid UTF-8 without the byte of `=` decodes to text without `=`: the
/// character has no other encoding.
pub proof fn lemma_no_equals_byte_no_equals_char(bytes: Seq<u8>)
    requires
        valid_utf8(bytes),
        forall|j: int| 0 <= j < bytes.len() ==> bytes[j] != EQUALS,
    ensures
        !decode_utf8(bytes).contains('='),
    decreases bytes.len(),
{
    if bytes.len() > 0 {
        let rest = pop_first_scalar(bytes);
        let first = decode_first_scalar(bytes);
        assert(valid_first_scalar(bytes));
        assert(forall|j: int|
            0 <= j < rest.len() ==> rest[j] == bytes[j + length_of_first_scalar(bytes)]);
        lemma_no_equals_byte_no_equals_char(rest);
        if (first as char) == '=' {
            lemma_equals_is_one_byte();
            vstd::utf8::decode_utf8_first_scalar(bytes);
            assert(vstd::utf8::take_first_scalar(bytes)[0] == bytes[0]);
        }
        let text = decode_utf8(bytes);
        assert(text =~= seq![first as char] + decode_utf8(rest));
        assert forall|j: int| 0 <= j < text.len() implies text[j] != '=' by {
            if j > 0 {
                assert(text[j] == decode_utf8(rest)[j - 1]);
            }
        }
    }
}

} // verus!
