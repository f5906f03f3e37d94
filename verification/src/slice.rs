use vstd::prelude::*;
use vstd::utf8::{
    char_is_scalar, encode_scalar, encode_utf8, encode_utf8_decode_utf8, encode_utf8_valid_utf8,
    has_width_1_encoding, is_char_boundary, is_char_boundary_iff_not_is_continuation_byte,
};

verus! {

/// The byte of the space character.
pub const SPACE: u8 = 0x20;

/// Walks through the slices of a string literal and of an array.
pub fn slice_references() {
    string_literal();
}

/// The number of characters in the first word of `text`: those before its
/// first space, or all of them if it holds none.
pub open spec fn first_word_len(text: Seq<char>) -> int
    decreases text.len(),
{
    if text.len() == 0 || text[0] == ' ' {
        0
    } else {
        1 + first_word_len(text.drop_first())
    }
}

/// The first word of `text`: what stands before its first space, or all of
/// `text` if it holds none.
pub open spec fn first_word_of(text: Seq<char>) -> Seq<char> {
    text.take(first_word_len(text))
}

/// `end` is where the first word of `bytes` ends: at the first space, or at
/// the end of `bytes` if they hold no space.
pub open spec fn ends_first_word(bytes: Seq<u8>, end: int) -> bool {
    &&& 0 <= end <= bytes.len()
    &&& forall|i: int| 0 <= i < end ==> bytes[i] != SPACE
    &&& end < bytes.len() ==> bytes[end] == SPACE
}

/// The first word holds no space, and a space follows it unless the text
/// ends with it.
pub proof fn lemma_first_word_of(text: Seq<char>)
    ensures
        0 <= first_word_len(text) <= text.len(),
        forall|i: int| 0 <= i < first_word_len(text) ==> text[i] != ' ',
        first_word_len(text) < text.len() ==> text[first_word_len(text)] == ' ',
    decreases text.len(),
{
    if text.len() > 0 && text[0] != ' ' {
        let rest = text.drop_first();
        lemma_first_word_of(rest);
        assert forall|i: int| 0 <= i < first_word_len(text) implies text[i] != ' ' by {
            if i > 0 {
                assert(text[i] == rest[i - 1]);
            }
        }
    }
}

/// The space is encoded as the one byte `SPACE`, and that byte occurs in
/// the encoding of no other character.
proof fn lemma_space_encoding(c: char)
    ensures
        encode_scalar(c as u32).len() >= 1,
        c == ' ' ==> encode_scalar(c as u32) == seq![SPACE],
        c != ' ' ==> forall|i: int|
            0 <= i < encode_scalar(c as u32).len() ==> #[trigger] encode_scalar(c as u32)[i]
                != SPACE,
{
    let u = c as u32;
    char_is_scalar(c);
    if has_width_1_encoding(u) {
        assert((u & 0x7F) as u8 == 0x20u8 <==> u == 0x20u32) by (bit_vector)
            requires
                u <= 0x7F,
        ;
        assert(' ' as u32 == 0x20u32);
        if c == ' ' {
            assert(encode_scalar(u) =~= seq![SPACE]);
        }
    } else {
        assert(c != ' ');
        assert(0xC0u8 | ((u >> 6) & 0x1F) as u8 != 0x20u8) by (bit_vector);
        assert(0xE0u8 | ((u >> 12) & 0x0F) as u8 != 0x20u8) by (bit_vector);
        assert(0xF0u8 | ((u >> 18) & 0x7) as u8 != 0x20u8) by (bit_vector);
        assert(0x80u8 | (u & 0x3F) as u8 != 0x20u8) by (bit_vector);
        assert(0x80u8 | ((u >> 6) & 0x3F) as u8 != 0x20u8) by (bit_vector);
        assert(0x80u8 | ((u >> 12) & 0x3F) as u8 != 0x20u8) by (bit_vector);
    }
}

/// In bytes, the first word of a text ends where its encoding ends, and
/// its encoding is what stands before that place.
proof fn lemma_first_word_bytes(text: Seq<char>)
    ensures
        ends_first_word(encode_utf8(text), encode_utf8(first_word_of(text)).len() as int),
        encode_utf8(text).subrange(0, encode_utf8(first_word_of(text)).len() as int)
            == encode_utf8(first_word_of(text)),
    decreases text.len(),
{
    let bytes = encode_utf8(text);
    let word = first_word_of(text);
    if text.len() == 0 {
        assert(encode_utf8(word) =~= Seq::<u8>::empty());
        assert(bytes.subrange(0, 0) =~= encode_utf8(word));
    } else if text[0] == ' ' {
        lemma_space_encoding(text[0]);
        assert(word =~= Seq::<char>::empty());
        assert(bytes.subrange(0, 0) =~= encode_utf8(word));
        assert(bytes[0] == encode_scalar(text[0] as u32)[0]);
    } else {
        let rest = text.drop_first();
        let head = encode_scalar(text[0] as u32);
        lemma_first_word_bytes(rest);
        lemma_first_word_of(rest);
        lemma_space_encoding(text[0]);
        let rest_word = first_word_of(rest);
        let rest_end = encode_utf8(rest_word).len() as int;
        assert(word.len() > 0);
        assert(word[0] == text[0]);
        assert(word.drop_first() =~= rest_word);
        assert(encode_utf8(word) == head + encode_utf8(rest_word));
        let end = head.len() + rest_end;
        assert(encode_utf8(word).len() == end);
        assert forall|i: int| 0 <= i < end implies bytes[i] != SPACE by {
            if i >= head.len() {
                assert(bytes[i] == encode_utf8(rest)[i - head.len()]);
            } else {
                assert(bytes[i] == head[i]);
            }
        }
        if end < bytes.len() {
            assert(bytes[end] == encode_utf8(rest)[rest_end]);
        }
        assert(bytes.subrange(0, end) =~= head + encode_utf8(rest).subrange(0, rest_end));
    }
}

/// The first word ends at one place only.
proof fn lemma_first_word_end_unique(bytes: Seq<u8>, end: int, other: int)
    requires
        ends_first_word(bytes, end),
        ends_first_word(bytes, other),
    ensures
        end == other,
{
}

/// The byte index at which the first word of `s` ends: that of its first
/// space, or its length in bytes if it holds none.
pub fn first_word(s: &String) -> (end: usize)
    ensures
        end == encode_utf8(first_word_of(s@)).len(),
        ends_first_word(encode_utf8(s@), end as int),
{
    let bytes = s.as_str().as_bytes();
    let mut i: usize = 0;
    while i < bytes.len()
        invariant
            bytes@ == encode_utf8(s@),
            i <= bytes@.len(),
            forall|k: int| 0 <= k < i ==> bytes@[k] != SPACE,
        decreases bytes@.len() - i,
    {
        let item = bytes[i];
        if item == SPACE {
            proof {
                lemma_first_word_bytes(s@);
                lemma_first_word_end_unique(
                    bytes@,
                    i as int,
                    encode_utf8(first_word_of(s@)).len() as int,
                );
            }
            return i;
        }
        i += 1;
    }
    proof {
        lemma_first_word_bytes(s@);
        lemma_first_word_end_unique(
            bytes@,
            bytes@.len() as int,
            encode_utf8(first_word_of(s@)).len() as int,
        );
    }
    bytes.len()
}

/// The first word of `s`: what stands before its first space, or all of
/// `s` if it holds none.
pub fn first_word_re(s: &String) -> (word: &str)
    ensures
        word@ == first_word_of(s@),
{
    let text = s.as_str();
    let bytes = text.as_bytes();
    let mut i: usize = 0;
    while i < bytes.len()
        invariant
            text@ == s@,
            bytes@ == encode_utf8(s@),
            i <= bytes@.len(),
            forall|k: int| 0 <= k < i ==> bytes@[k] != SPACE,
        decreases bytes@.len() - i,
    {
        let item = bytes[i];
        if item == SPACE {
            proof {
                encode_utf8_valid_utf8(s@);
                is_char_boundary_iff_not_is_continuation_byte(bytes@, i as int);
                assert(is_char_boundary(bytes@, i as int));
            }
            let word = text.split_at(i).0;
            proof {
                lemma_first_word_bytes(s@);
                lemma_first_word_end_unique(
                    bytes@,
                    i as int,
                    encode_utf8(first_word_of(s@)).len() as int,
                );
                assert(encode_utf8(word@) == encode_utf8(first_word_of(s@)));
                encode_utf8_decode_utf8(word@);
                encode_utf8_decode_utf8(first_word_of(s@));
            }
            return word;
        }
        i += 1;
    }
    proof {
        lemma_first_word_bytes(s@);
        lemma_first_word_end_unique(
            bytes@,
            bytes@.len() as int,
            encode_utf8(first_word_of(s@)).len() as int,
        );
        assert(bytes@.subrange(0, bytes@.len() as int) =~= bytes@);
        encode_utf8_decode_utf8(text@);
        encode_utf8_decode_utf8(first_word_of(s@));
    }
    text
}

/// A string literal is a slice of the program's own text.
pub fn string_literal() {
    let s = "hello world!";
    array_slice();
}

/// A slice of an array holds the elements of the range it was cut at.
pub fn array_slice() {
    let a: [i32; 6] = [1, 2, 3, 4, 5, 6];
    let slice_arr = &a[1..3];
    assert(slice_arr@ == a@.subrange(1, 3));
}

} // verus!
