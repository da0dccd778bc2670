//! Small operations on byte strings.

use vstd::prelude::*;
use vstd::utf8::{encode_scalar, encode_utf8};

verus! {

/// Whether two byte strings hold the same bytes.
pub fn bytes_equal(left: &[u8], right: &[u8]) -> (equal: bool)
    ensures
        equal == (left@ == right@),
{
    if left.len() != right.len() {
        return false;
    }
    let mut at: usize = 0;
    while at < left.len()
        invariant
            at <= left@.len(),
            left@.len() == right@.len(),
            forall|i: int| 0 <= i < at ==> left@[i] == right@[i],
        decreases left@.len() - at,
    {
        if left[at] != right[at] {
            return false;
        }
        at = at + 1;
    }
    assert(left@ =~= right@);
    true
}

/// The smaller of two sizes.
pub fn smaller(left: usize, right: usize) -> (least: usize)
    ensures
        least == if left <= right {
            left
        } else {
            right
        },
{
    if left <= right {
        left
    } else {
        right
    }
}

/// The two bytes are the UTF-8 form of a code point from 0x80 to 0xff.
pub open spec fn is_upper_latin1(lead: u8, tail: u8) -> bool {
    (lead == 0xc2 || lead == 0xc3) && 0x80 <= tail <= 0xbf
}

/// UTF-8 text with one byte for each code point below 0x100; any other code
/// point keeps its UTF-8 bytes.
pub open spec fn latin1_bytes(text: Seq<u8>) -> Seq<u8>
    decreases text.len(),
{
    if text.len() == 0 {
        Seq::empty()
    } else if text.len() > 1 && is_upper_latin1(text[0], text[1]) {
        seq![((text[0] - 0xc2) * 0x40 + text[1]) as u8] + latin1_bytes(text.skip(2))
    } else {
        seq![text[0]] + latin1_bytes(text.skip(1))
    }
}

/// Read UTF-8 text as Latin-1: one byte for each code point below 0x100.
pub fn utf8_to_latin1(text: &[u8]) -> (bytes: Vec<u8>)
    ensures
        bytes@ == latin1_bytes(text@),
{
    let mut bytes: Vec<u8> = Vec::new();
    let mut at: usize = 0;
    assert(text@.skip(0) =~= text@);
    assert(bytes@ + latin1_bytes(text@) =~= latin1_bytes(text@));
    while at < text.len()
        invariant
            at <= text@.len(),
            latin1_bytes(text@) == bytes@ + latin1_bytes(text@.skip(at as int)),
        decreases text@.len() - at,
    {
        let ghost rest = text@.skip(at as int);
        let ghost done = bytes@;
        let lead: u8 = text[at];
        assert(rest[0] == lead);
        if text.len() - at > 1 && (lead == 0xc2 || lead == 0xc3) && text[at + 1] >= 0x80 && text[at + 1]
            <= 0xbf {
            assert(rest[1] == text@[at + 1]);
            bytes.push((lead - 0xc2) * 0x40 + text[at + 1]);
            at = at + 2;
            assert(rest.skip(2) =~= text@.skip(at as int));
        } else {
            assert(text@.len() - at > 1 ==> rest[1] == text@[at + 1]);
            bytes.push(lead);
            at = at + 1;
            assert(rest.skip(1) =~= text@.skip(at as int));
        }
        assert(done + latin1_bytes(rest) =~= bytes@ + latin1_bytes(text@.skip(at as int)));
    }
    assert(text@.skip(at as int).len() == 0);
    assert(bytes@ + Seq::<u8>::empty() =~= bytes@);
    bytes
}

/// What reading a code point as Latin-1 gives.
pub open spec fn latin1_of_char(c: char) -> Seq<u8> {
    if (c as u32) < 0x100 {
        seq![(c as u32) as u8]
    } else {
        encode_scalar(c as u32)
    }
}

/// What reading text as Latin-1 gives, code point by code point.
pub open spec fn latin1_of_chars(chars: Seq<char>) -> Seq<u8>
    decreases chars.len(),
{
    if chars.len() == 0 {
        Seq::empty()
    } else {
        latin1_of_char(chars[0]) + latin1_of_chars(chars.drop_first())
    }
}

/// A byte that no two-byte form below 0x100 starts with stays as it is.
proof fn lemma_latin1_keeps(byte: u8, rest: Seq<u8>)
    requires
        byte != 0xc2,
        byte != 0xc3,
    ensures
        latin1_bytes(seq![byte] + rest) == seq![byte] + latin1_bytes(rest),
{
    assert((seq![byte] + rest).skip(1) =~= rest);
}

proof fn lemma_latin1_char(c: char, rest: Seq<u8>)
    ensures
        latin1_bytes(encode_scalar(c as u32) + rest) == latin1_of_char(c) + latin1_bytes(rest),
{
    let v = c as u32;
    let form = encode_scalar(v);
    let low: u8 = 0x80u8 | (v & 0x3F) as u8;
    assert(0x80 <= low <= 0xbf) by (bit_vector)
        requires
            low == 0x80u8 | (v & 0x3F) as u8,
    ;
    if v <= 0x7f {
        assert((v & 0x7F) as u8 == v && (v & 0x7F) as u8 <= 0x7f) by (bit_vector)
            requires
                v <= 0x7f,
        ;
        lemma_latin1_keeps(form[0], rest);
    } else if v <= 0x7ff {
        let lead: u8 = 0xC0u8 | ((v >> 6) & 0x1F) as u8;
        assert(form =~= seq![lead, low]);
        if v < 0x100 {
            assert((lead == 0xc2 || lead == 0xc3) && (lead - 0xc2) * 0x40 + low == v) by (bit_vector)
                requires
                    0x80 <= v < 0x100,
                    lead == 0xC0u8 | ((v >> 6) & 0x1F) as u8,
                    low == 0x80u8 | (v & 0x3F) as u8,
            ;
            let text = form + rest;
            assert(text[0] == lead && text[1] == low);
            assert(text.skip(2) =~= rest);
        } else {
            assert(lead >= 0xc4) by (bit_vector)
                requires
                    0x100 <= v <= 0x7ff,
                    lead == 0xC0u8 | ((v >> 6) & 0x1F) as u8,
            ;
            lemma_latin1_keeps(low, rest);
            lemma_latin1_keeps(lead, seq![low] + rest);
            assert(form + rest =~= seq![lead] + (seq![low] + rest));
            assert(seq![lead] + (seq![low] + latin1_bytes(rest)) =~= form + latin1_bytes(rest));
        }
    } else {
        let second: u8 = 0x80u8 | ((v >> 6) & 0x3F) as u8;
        assert(0x80 <= second <= 0xbf) by (bit_vector)
            requires
                second == 0x80u8 | ((v >> 6) & 0x3F) as u8,
        ;
        lemma_latin1_keeps(low, rest);
        lemma_latin1_keeps(second, seq![low] + rest);
        let back = seq![second] + (seq![low] + rest);
        if v <= 0xffff {
            let lead: u8 = 0xE0u8 | ((v >> 12) & 0x0F) as u8;
            assert(lead >= 0xe0) by (bit_vector)
                requires
                    lead == 0xE0u8 | ((v >> 12) & 0x0F) as u8,
            ;
            vstd::utf8::char_is_scalar(c);
            assert(form =~= seq![lead, second, low]);
            lemma_latin1_keeps(lead, back);
            assert(form + rest =~= seq![lead] + back);
            assert(seq![lead] + (seq![second] + (seq![low] + latin1_bytes(rest))) =~= form
                + latin1_bytes(rest));
        } else {
            let lead: u8 = 0xF0u8 | ((v >> 18) & 0x7) as u8;
            let third: u8 = 0x80u8 | ((v >> 12) & 0x3F) as u8;
            assert(lead >= 0xf0) by (bit_vector)
                requires
                    lead == 0xF0u8 | ((v >> 18) & 0x7) as u8,
            ;
            assert(0x80 <= third <= 0xbf) by (bit_vector)
                requires
                    third == 0x80u8 | ((v >> 12) & 0x3F) as u8,
            ;
            assert(form =~= seq![lead, third, second, low]);
            lemma_latin1_keeps(third, back);
            lemma_latin1_keeps(lead, seq![third] + back);
            assert(form + rest =~= seq![lead] + (seq![third] + back));
            assert(seq![lead] + (seq![third] + (seq![second] + (seq![low] + latin1_bytes(rest))))
                =~= form + latin1_bytes(rest));
        }
    }
}

/// Reading the UTF-8 form of a text as Latin-1 reads its code points one by
/// one.
pub proof fn law_latin1_reads_code_points(chars: Seq<char>)
    ensures
        latin1_bytes(encode_utf8(chars)) == latin1_of_chars(chars),
    decreases chars.len(),
{
    if chars.len() > 0 {
        lemma_latin1_char(chars[0], encode_utf8(chars.drop_first()));
        law_latin1_reads_code_points(chars.drop_first());
    }
}

/// A byte string written as a Latin-1 text reads back as it was, whatever its
/// bytes are.
pub proof fn law_latin1_text_reads_back(bytes: Seq<u8>)
    ensures
        latin1_bytes(encode_utf8(bytes.map_values(|byte: u8| byte as char))) == bytes,
    decreases bytes.len(),
{
    let chars = bytes.map_values(|byte: u8| byte as char);
    if bytes.len() > 0 {
        let rest = bytes.skip(1);
        assert(chars.drop_first() =~= rest.map_values(|byte: u8| byte as char));
        lemma_latin1_char(chars[0], encode_utf8(chars.drop_first()));
        law_latin1_text_reads_back(rest);
        assert(seq![bytes[0]] + rest =~= bytes);
    }
}

/// A code point below 0x100 is read as one byte, and any other as its UTF-8
/// bytes; text is read code point by code point, so that two texts one after
/// the other are read as each of them is.
pub proof fn law_latin1_reads_texts_apart(first: Seq<char>, second: Seq<char>, c: char)
    ensures
        (c as u32) < 0x100 ==> latin1_of_char(c) == seq![(c as u32) as u8],
        (c as u32) >= 0x100 ==> latin1_of_char(c) == encode_scalar(c as u32),
        latin1_of_chars(Seq::empty()).len() == 0,
        latin1_of_chars(seq![c]) == latin1_of_char(c),
        latin1_of_chars(first + second) == latin1_of_chars(first) + latin1_of_chars(second),
    decreases first.len(),
{
    reveal_with_fuel(latin1_of_chars, 2);
    assert(seq![c].drop_first() =~= Seq::empty());
    assert(latin1_of_char(c) + Seq::<u8>::empty() =~= latin1_of_char(c));
    if first.len() == 0 {
        assert(first + second =~= second);
        assert(latin1_of_chars(first) + latin1_of_chars(second) =~= latin1_of_chars(second));
    } else {
        law_latin1_reads_texts_apart(first.drop_first(), second, c);
        assert((first + second).drop_first() =~= first.drop_first() + second);
        assert((first + second)[0] == first[0]);
        assert(latin1_of_chars(first + second) =~= latin1_of_chars(first) + latin1_of_chars(
            second,
        ));
    }
}

} // verus!
