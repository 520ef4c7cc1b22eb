//! Pieces of text by their place in bytes.

use vstd::prelude::*;
use vstd::utf8::*;

verus! {

/// How many bytes `text` takes.
pub open spec fn byte_len(text: Seq<char>) -> nat {
    encode_utf8(text).len()
}

/// Whether `text` has a piece from byte `start` up to byte `end`: both stand
/// between characters, in this order.
pub open spec fn has_piece(text: Seq<char>, start: int, end: int) -> bool {
    &&& 0 <= start <= end <= byte_len(text)
    &&& is_char_boundary(encode_utf8(text), start)
    &&& is_char_boundary(encode_utf8(text), end)
}

/// The piece of `text` from byte `start` up to byte `end`.
pub open spec fn piece(text: Seq<char>, start: int, end: int) -> Seq<char> {
    decode_utf8(encode_utf8(text).subrange(start, end))
}

/// Pieces are valid UTF-8, and the places between characters in them are those of
/// the whole.
proof fn lemma_piece_boundary(bytes: Seq<u8>, start: int, middle: int, end: int)
    requires
        valid_utf8(bytes),
        0 <= start <= middle <= end <= bytes.len(),
        is_char_boundary(bytes, start),
        is_char_boundary(bytes, middle),
        is_char_boundary(bytes, end),
    ensures
        valid_utf8(bytes.subrange(start, end)),
        is_char_boundary(bytes.subrange(start, end), middle - start),
{
    let head = bytes.subrange(0, end);
    let part = bytes.subrange(start, end);
    valid_utf8_split(bytes, end);
    is_char_boundary_start_end_of_seq(head);
    if start < end {
        is_char_boundary_iff_not_is_continuation_byte(bytes, start);
        is_char_boundary_iff_not_is_continuation_byte(head, start);
        assert(head[start] == bytes[start]);
    }
    assert(is_char_boundary(head, start));
    valid_utf8_split(head, start);
    assert(head.subrange(start, head.len() as int) =~= part);
    is_char_boundary_start_end_of_seq(part);
    if middle < end {
        is_char_boundary_iff_not_is_continuation_byte(bytes, middle);
        is_char_boundary_iff_not_is_continuation_byte(part, middle - start);
        assert(part[middle - start] == bytes[middle]);
    }
}

/// Two pieces of which one starts where the other ends make up one piece.
pub(crate) proof fn lemma_pieces_join(text: Seq<char>, start: int, middle: int, end: int)
    requires
        has_piece(text, start, middle),
        has_piece(text, middle, end),
    ensures
        has_piece(text, start, end),
        piece(text, start, middle) + piece(text, middle, end) == piece(text, start, end),
{
    let bytes = encode_utf8(text);
    encode_utf8_valid_utf8(text);
    lemma_piece_boundary(bytes, start, middle, end);
    let part = bytes.subrange(start, end);
    decode_utf8_split(part, middle - start);
    assert(part.subrange(0, middle - start) =~= bytes.subrange(start, middle));
    assert(part.subrange(middle - start, part.len() as int) =~= bytes.subrange(middle, end));
}

/// All of a text is a piece of it, and so is nothing at its start or its end.
pub(crate) proof fn lemma_whole_piece(text: Seq<char>)
    ensures
        has_piece(text, 0, byte_len(text) as int),
        has_piece(text, 0, 0),
        has_piece(text, byte_len(text) as int, byte_len(text) as int),
        piece(text, 0, byte_len(text) as int) == text,
        piece(text, 0, 0) == Seq::<char>::empty(),
{
    let bytes = encode_utf8(text);
    encode_utf8_valid_utf8(text);
    is_char_boundary_start_end_of_seq(bytes);
    encode_utf8_decode_utf8(text);
    assert(bytes.subrange(0, bytes.len() as int) =~= bytes);
    assert(bytes.subrange(0, 0) =~= Seq::<u8>::empty());
    assert(decode_utf8(Seq::<u8>::empty()) =~= Seq::<char>::empty());
}

/// How many bytes `text` takes.
pub(crate) fn len_of(text: &str) -> (len: usize)
    ensures
        len == byte_len(text@),
{
    text.as_bytes().len()
}

/// The piece of `text` from byte `start` up to byte `end`.
pub(crate) fn piece_of<'a>(text: &'a str, start: usize, end: usize) -> (found: &'a str)
    requires
        has_piece(text@, start as int, end as int),
    ensures
        found@ == piece(text@, start as int, end as int),
{
    let ghost bytes = encode_utf8(text@);
    proof {
        encode_utf8_valid_utf8(text@);
        is_char_boundary_start_end_of_seq(bytes);
        lemma_piece_boundary(bytes, 0, start as int, end as int);
    }
    let (head, _) = text.split_at(end);
    let (_, found) = head.split_at(start);
    proof {
        encode_utf8_decode_utf8(found@);
        assert(bytes.subrange(0, end as int).subrange(start as int, end as int) =~= bytes.subrange(
            start as int,
            end as int,
        ));
    }
    found
}

/// Whether `text` has a piece from byte `start` up to byte `end`.
pub(crate) fn check_piece(text: &str, start: usize, end: usize) -> (found: bool)
    ensures
        found == has_piece(text@, start as int, end as int),
{
    start <= end && end <= len_of(text) && text.is_char_boundary(start) && text.is_char_boundary(
        end,
    )
}

/// Text is encoded piece by piece.
proof fn lemma_encode_joined(first: Seq<char>, second: Seq<char>)
    ensures
        encode_utf8(first + second) == encode_utf8(first) + encode_utf8(second),
    decreases first.len(),
{
    if first.len() == 0 {
        assert(first + second =~= second);
    } else {
        lemma_encode_joined(first.drop_first(), second);
        assert((first + second).drop_first() =~= first.drop_first() + second);
    }
}

/// Where the one text ends and the other starts, no character is cut.
proof fn lemma_joint_is_boundary(first: Seq<char>, second: Seq<char>)
    ensures
        is_char_boundary(encode_utf8(first + second), byte_len(first) as int),
{
    let bytes = encode_utf8(first + second);
    lemma_encode_joined(first, second);
    encode_utf8_valid_utf8(first + second);
    encode_utf8_valid_utf8(second);
    is_char_boundary_start_end_of_seq(bytes);
    is_char_boundary_start_end_of_seq(encode_utf8(second));
    if encode_utf8(second).len() > 0 {
        is_char_boundary_iff_not_is_continuation_byte(encode_utf8(second), 0);
        is_char_boundary_iff_not_is_continuation_byte(bytes, byte_len(first) as int);
        assert(bytes[byte_len(first) as int] == encode_utf8(second)[0]);
    }
}

/// The bytes of two texts add up when they are joined, and a character takes one
/// to four of them, the more the larger it is.
pub proof fn law_bytes_add_up(first: Seq<char>, second: Seq<char>, c: char)
    ensures
        byte_len(first + second) == byte_len(first) + byte_len(second),
        byte_len(Seq::<char>::empty()) == 0,
        byte_len(seq![c]) == (if c as u32 <= 0x7f {
            1nat
        } else if c as u32 <= 0x7ff {
            2nat
        } else if c as u32 <= 0xffff {
            3nat
        } else {
            4nat
        }),
{
    lemma_encode_joined(first, second);
    assert(encode_utf8(seq![c]) =~= encode_scalar(c as u32)) by {
        assert(seq![c].drop_first() =~= Seq::<char>::empty());
        assert(encode_utf8(Seq::<char>::empty()) =~= Seq::<u8>::empty());
    }
}

/// However a text is cut into three, the middle one is the piece of it that starts
/// after the bytes of the first and takes its own bytes.
pub proof fn law_a_cut_is_a_piece(before: Seq<char>, middle: Seq<char>, after: Seq<char>)
    ensures
        has_piece(
            before + middle + after,
            byte_len(before) as int,
            (byte_len(before) + byte_len(middle)) as int,
        ),
        piece(
            before + middle + after,
            byte_len(before) as int,
            (byte_len(before) + byte_len(middle)) as int,
        ) == middle,
{
    let text = before + middle + after;
    let start = byte_len(before) as int;
    let end = start + byte_len(middle);
    lemma_encode_joined(before, middle);
    lemma_encode_joined(before + middle, after);
    lemma_joint_is_boundary(before + middle, after);
    lemma_joint_is_boundary(before, middle + after);
    assert(before + (middle + after) =~= text);
    assert(encode_utf8(text).subrange(start, end) =~= encode_utf8(middle));
    encode_utf8_decode_utf8(middle);
}

/// Every piece of a text is the middle one of three that the text can be cut into.
pub proof fn law_a_piece_is_a_cut(text: Seq<char>, start: int, end: int) -> (around: (
    Seq<char>,
    Seq<char>,
))
    requires
        has_piece(text, start, end),
    ensures
        text == around.0 + piece(text, start, end) + around.1,
        byte_len(around.0) == start,
        byte_len(piece(text, start, end)) == end - start,
{
    let bytes = encode_utf8(text);
    let len = byte_len(text) as int;
    encode_utf8_valid_utf8(text);
    lemma_whole_piece(text);
    lemma_pieces_join(text, 0, start, end);
    lemma_pieces_join(text, 0, end, len);
    lemma_piece_boundary(bytes, 0, start, start);
    lemma_piece_boundary(bytes, start, end, end);
    decode_utf8_encode_utf8(bytes.subrange(0, start));
    decode_utf8_encode_utf8(bytes.subrange(start, end));
    (piece(text, 0, start), piece(text, end, len))
}

} // verus!
