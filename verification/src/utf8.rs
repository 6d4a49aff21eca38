//! Lines of text and lines of its UTF-8 encoding: splitting a text into
//! lines and encoding each line gives the same as encoding the text and
//! splitting the bytes.
use crate::text::{
    find, join, last_n, lemma_find, lemma_find_is, lines, strip_cr, tail,
};
use vstd::prelude::*;
use vstd::utf8::{
    char_is_scalar, char_u32_cast, decode_utf8, decode_utf8_encode_utf8, encode_scalar, encode_utf8,
    encode_utf8_decode_utf8, encode_utf8_valid_utf8, has_width_1_encoding, has_width_2_encoding,
    has_width_3_encoding, is_scalar, last_continuation_byte, leading_byte_width_1,
    leading_byte_width_2, leading_byte_width_3, leading_byte_width_4,
    second_last_continuation_byte, third_last_continuation_byte, valid_utf8,
};

verus! {

/// The byte `b` is the encoding of the character `c`, which is the case for
/// the characters of ASCII only.
pub open spec fn ascii(c: char, b: u8) -> bool {
    b < 0x80 && c as u32 == b as u32
}

/// The encodings of the given texts.
pub open spec fn encoded(texts: Seq<Seq<char>>) -> Seq<Seq<u8>> {
    texts.map_values(|t: Seq<char>| encode_utf8(t))
}

/// A byte is the encoding of one character at most.
pub proof fn lemma_ascii_of_one(a: char, c: char, b: u8)
    requires
        ascii(c, b),
        a != c,
    ensures
        !ascii(a, b),
{
    if ascii(a, b) {
        char_u32_cast(a, b as u32);
        char_u32_cast(c, b as u32);
    }
}

/// The encoding of an ASCII character is its one byte, and the encoding of
/// any other character holds no ASCII byte.
pub proof fn lemma_encode_char(c: char, b: u8)
    requires
        b < 0x80,
    ensures
        encode_scalar(c as u32).len() > 0,
        ascii(c, b) ==> encode_scalar(c as u32) == seq![b],
        !ascii(c, b) ==> forall|i: int|
            0 <= i < encode_scalar(c as u32).len() ==> #[trigger] encode_scalar(c as u32)[i] != b,
{
    let s = c as u32;
    char_is_scalar(c);
    let e = encode_scalar(s);
    if has_width_1_encoding(s) {
        assert(leading_byte_width_1(s) as u32 == s) by (bit_vector)
            requires
                s <= 0x7f,
        ;
        if ascii(c, b) {
            assert(e =~= seq![b]);
        }
    } else {
        assert(leading_byte_width_2(s) >= 0x80) by (bit_vector);
        assert(leading_byte_width_3(s) >= 0x80) by (bit_vector);
        assert(leading_byte_width_4(s) >= 0x80) by (bit_vector);
        assert(last_continuation_byte(s) >= 0x80) by (bit_vector);
        assert(second_last_continuation_byte(s) >= 0x80) by (bit_vector);
        assert(third_last_continuation_byte(s) >= 0x80) by (bit_vector);
    }
}

/// The encoding of two texts put together is their encodings put together.
pub proof fn lemma_encode_concat(a: Seq<char>, b: Seq<char>)
    ensures
        encode_utf8(a + b) == encode_utf8(a) + encode_utf8(b),
    decreases a.len(),
{
    if a.len() == 0 {
        assert(a + b =~= b);
        assert(encode_utf8(a) + encode_utf8(b) =~= encode_utf8(b));
    } else {
        assert((a + b).drop_first() =~= a.drop_first() + b);
        lemma_encode_concat(a.drop_first(), b);
        assert(encode_utf8(a + b) =~= encode_utf8(a) + encode_utf8(b));
    }
}

/// The encoding of one character.
pub proof fn lemma_encode_one(c: char)
    ensures
        encode_utf8(seq![c]) == encode_scalar(c as u32),
{
    assert(seq![c].drop_first() =~= Seq::<char>::empty());
    assert(encode_utf8(seq![c].drop_first()) =~= Seq::<u8>::empty());
    assert(encode_utf8(seq![c]) =~= encode_scalar(c as u32));
}

/// A text has no more characters than its encoding has bytes.
pub proof fn lemma_encode_len(t: Seq<char>)
    ensures
        encode_utf8(t).len() >= t.len(),
    decreases t.len(),
{
    if t.len() > 0 {
        lemma_encode_char(t[0], 0);
        lemma_encode_len(t.drop_first());
    }
}

/// The encoding of a text without an ASCII character holds no byte of that
/// character.
pub proof fn lemma_encode_without(t: Seq<char>, c: char, b: u8)
    requires
        ascii(c, b),
        forall|i: int| 0 <= i < t.len() ==> #[trigger] t[i] != c,
    ensures
        forall|i: int| 0 <= i < encode_utf8(t).len() ==> #[trigger] encode_utf8(t)[i] != b,
    decreases t.len(),
{
    if t.len() > 0 {
        let rest = t.drop_first();
        assert forall|i: int| 0 <= i < rest.len() implies #[trigger] rest[i] != c by {
            assert(rest[i] == t[i + 1]);
        }
        lemma_encode_without(rest, c, b);
        lemma_encode_char(t[0], b);
        lemma_ascii_of_one(t[0], c, b);
        let head = encode_scalar(t[0] as u32);
        let all = encode_utf8(t);
        assert forall|i: int| 0 <= i < all.len() implies #[trigger] all[i] != b by {
            if i < head.len() {
                assert(all[i] == head[i]);
            } else {
                assert(all[i] == encode_utf8(rest)[i - head.len()]);
            }
        }
    }
}

/// The first byte of an ASCII character in the encoding of a text is the
/// encoding of the first such character in the text.
pub proof fn lemma_encode_find(t: Seq<char>, c: char, b: u8)
    requires
        ascii(c, b),
    ensures
        find(encode_utf8(t), b) == encode_utf8(t.take(find(t, c))).len(),
        find(t, c) < t.len() ==> {
            &&& find(encode_utf8(t), b) < encode_utf8(t).len()
            &&& encode_utf8(t).take(find(encode_utf8(t), b)) == encode_utf8(t.take(find(t, c)))
            &&& encode_utf8(t).skip(find(encode_utf8(t), b) + 1) == encode_utf8(
                t.skip(find(t, c) + 1),
            )
        },
        find(t, c) >= t.len() ==> find(encode_utf8(t), b) == encode_utf8(t).len(),
{
    lemma_find(t, c);
    let n = find(t, c);
    let before = t.take(n);
    assert forall|i: int| 0 <= i < before.len() implies #[trigger] before[i] != c by {
        assert(before[i] == t[i]);
    }
    lemma_encode_without(before, c, b);
    let head = encode_utf8(before);
    if n < t.len() {
        let after = t.skip(n + 1);
        assert(t =~= before + (seq![c] + after));
        lemma_encode_concat(before, seq![c] + after);
        lemma_encode_concat(seq![c], after);
        lemma_encode_one(c);
        lemma_encode_char(c, b);
        let all = encode_utf8(t);
        assert(all =~= head + (seq![b] + encode_utf8(after)));
        assert forall|i: int| 0 <= i < head.len() implies #[trigger] all[i] != b by {
            assert(all[i] == head[i]);
        }
        assert(all[head.len() as int] == b);
        lemma_find_is(all, b, head.len() as int);
        assert(all.take(head.len() as int) =~= head);
        assert(all.skip(head.len() as int + 1) =~= encode_utf8(after));
    } else {
        assert(before =~= t);
        lemma_find_is(encode_utf8(t), b, encode_utf8(t).len() as int);
    }
}

/// Dropping the carriage return at the end of a line and encoding the line
/// can be done in either order.
pub proof fn lemma_encode_strip_cr(line: Seq<char>)
    ensures
        strip_cr(encode_utf8(line), 13u8) == encode_utf8(strip_cr(line, '\r')),
{
    if line.len() > 0 {
        let init = line.drop_last();
        let last = line.last();
        assert(line =~= init + seq![last]);
        lemma_encode_concat(init, seq![last]);
        lemma_encode_one(last);
        lemma_encode_char(last, 13u8);
        let tail = encode_scalar(last as u32);
        let all = encode_utf8(line);
        assert(all =~= encode_utf8(init) + tail);
        assert(all.last() == tail[tail.len() - 1]);
        if last == '\r' {
            assert(ascii(last, 13u8));
            assert(all.drop_last() =~= encode_utf8(init));
        } else {
            lemma_ascii_of_one(last, '\r', 13u8);
        }
    }
}

/// The lines of the encoding of a text are the encodings of its lines.
pub proof fn lemma_encode_lines(t: Seq<char>)
    ensures
        lines(encode_utf8(t), 10u8, 13u8) == encoded(lines(t, '\n', '\r')),
    decreases t.len(),
{
    let bytes = encode_utf8(t);
    lemma_find(t, '\n');
    lemma_encode_find(t, '\n', 10u8);
    lemma_encode_len(t);
    let n = find(t, '\n');
    if t.len() == 0 {
        assert(encoded(lines(t, '\n', '\r')) =~= Seq::<Seq<u8>>::empty());
    } else if n < t.len() {
        let first = t.take(n);
        let rest = t.skip(n + 1);
        lemma_encode_strip_cr(first);
        lemma_encode_lines(rest);
        assert(encoded(lines(t, '\n', '\r')) =~= seq![encode_utf8(strip_cr(first, '\r'))]
            + encoded(lines(rest, '\n', '\r')));
    } else {
        assert(encoded(lines(t, '\n', '\r')) =~= seq![bytes]);
    }
}

/// Putting lines together and encoding them can be done in either order.
pub proof fn lemma_encode_join(parts: Seq<Seq<char>>)
    ensures
        join(encoded(parts), 10u8) == encode_utf8(join(parts, '\n')),
    decreases parts.len(),
{
    if parts.len() == 0 {
        assert(encoded(parts) =~= Seq::<Seq<u8>>::empty());
    } else if parts.len() == 1 {
        assert(encoded(parts)[0] == encode_utf8(parts[0]));
    } else {
        let init = parts.drop_last();
        let last = parts.last();
        lemma_encode_join(init);
        assert(encoded(parts).drop_last() =~= encoded(init));
        assert(encoded(parts).last() == encode_utf8(last));
        let joined = join(init, '\n');
        assert(joined.push('\n') =~= joined + seq!['\n']);
        lemma_encode_concat(joined.push('\n'), last);
        lemma_encode_concat(joined, seq!['\n']);
        lemma_encode_one('\n');
        lemma_encode_char('\n', 10u8);
        assert(encode_utf8(joined.push('\n')) =~= encode_utf8(joined).push(10u8));
    }
}

/// The last lines of the encoding of a text, put together, are the encoding
/// of the last lines of the text, put together.
pub proof fn lemma_encode_tail(t: Seq<char>, k: nat)
    ensures
        tail(encode_utf8(t), k, 10u8, 13u8) == encode_utf8(tail(t, k, '\n', '\r')),
{
    lemma_encode_lines(t);
    let ls = lines(t, '\n', '\r');
    assert(last_n(encoded(ls), k) =~= encoded(last_n(ls, k)));
    lemma_encode_join(last_n(ls, k));
}

/// The last lines of a file that is valid UTF-8 are valid UTF-8, and the
/// text of them is what the text of the file gives when it is split into
/// lines and its last lines are put together.
pub proof fn law_tail_decodes(file: Seq<u8>, k: nat)
    requires
        valid_utf8(file),
    ensures
        valid_utf8(tail(file, k, 10u8, 13u8)),
        decode_utf8(tail(file, k, 10u8, 13u8)) == tail(decode_utf8(file), k, '\n', '\r'),
{
    let t = decode_utf8(file);
    decode_utf8_encode_utf8(file);
    lemma_encode_tail(t, k);
    let last = tail(t, k, '\n', '\r');
    encode_utf8_valid_utf8(last);
    encode_utf8_decode_utf8(last);
}

} // verus!
