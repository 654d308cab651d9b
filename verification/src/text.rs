use vstd::prelude::*;
use vstd::string::StringExecFns;
use vstd::utf8::{
    decode_utf8, encode_scalar, encode_utf8, encode_utf8_decode_utf8, encode_utf8_first_scalar,
    encode_utf8_valid_utf8, is_char_boundary, length_of_first_scalar, pop_first_scalar,
};

verus! {

/// Trusted: `String::push` appends the character to the end of the string
/// and changes nothing else of it.
pub assume_specification[ String::push ](s: &mut String, ch: char)
    ensures
        final(s)@ == old(s)@.push(ch),
;

/// The character that stands for a value below ten.
pub open spec fn digit(d: nat) -> char {
    if d == 0 {
        '0'
    } else if d == 1 {
        '1'
    } else if d == 2 {
        '2'
    } else if d == 3 {
        '3'
    } else if d == 4 {
        '4'
    } else if d == 5 {
        '5'
    } else if d == 6 {
        '6'
    } else if d == 7 {
        '7'
    } else if d == 8 {
        '8'
    } else {
        '9'
    }
}

/// The decimal numeral of `n`, without leading zeros.
pub open spec fn decimal(n: nat) -> Seq<char>
    decreases n,
{
    if n < 10 {
        seq![digit(n)]
    } else {
        decimal(n / 10).push(digit(n % 10))
    }
}

fn digit_char(d: u64) -> (c: char)
    requires
        d < 10,
    ensures
        c == digit(d as nat),
{
    if d == 0 {
        '0'
    } else if d == 1 {
        '1'
    } else if d == 2 {
        '2'
    } else if d == 3 {
        '3'
    } else if d == 4 {
        '4'
    } else if d == 5 {
        '5'
    } else if d == 6 {
        '6'
    } else if d == 7 {
        '7'
    } else if d == 8 {
        '8'
    } else {
        '9'
    }
}

/// Appends the decimal numeral of `n` to `out`.
pub fn push_decimal(out: &mut String, n: u64)
    ensures
        final(out)@ == old(out)@ + decimal(n as nat),
    decreases n,
{
    if n >= 10 {
        push_decimal(out, n / 10);
    }
    out.push(digit_char(n % 10));
}

/// The number of bytes that `c` takes in UTF-8.
pub open spec fn width(c: char) -> nat {
    encode_scalar(c as u32).len()
}

/// The number of bytes that `c` takes in UTF-8: one to four.
pub fn utf8_width(c: char) -> (n: usize)
    ensures
        n == width(c),
        1 <= n <= 4,
{
    let u = c as u32;
    if u < 0x80 {
        1
    } else if u < 0x800 {
        2
    } else if u < 0x10000 {
        3
    } else {
        4
    }
}

/// The byte offset at which character `i` of `s` starts in the UTF-8 form
/// of `s`; with `i == s.len()`, the length of that form.
pub open spec fn offset(s: Seq<char>, i: int) -> nat
    decreases i,
{
    if i <= 0 {
        0
    } else {
        offset(s, i - 1) + width(s[i - 1])
    }
}

/// Offsets do not decrease with the index.
pub proof fn lemma_offset_monotonic(s: Seq<char>, i: int, j: int)
    requires
        0 <= i <= j,
    ensures
        offset(s, i) <= offset(s, j),
    decreases j - i,
{
    if i < j {
        lemma_offset_monotonic(s, i, j - 1);
    }
}

/// Encoding distributes over concatenation.
pub proof fn lemma_encode_concat(a: Seq<char>, b: Seq<char>)
    ensures
        encode_utf8(a + b) == encode_utf8(a) + encode_utf8(b),
    decreases a.len(),
{
    if a.len() == 0 {
        assert(a + b =~= b);
        assert(encode_utf8(a) + encode_utf8(b) =~= encode_utf8(b));
    } else {
        assert((a + b).drop_first() =~= a.drop_first() + b);
        lemma_encode_concat(a.drop_first(), b);
        assert(encode_utf8(a + b) =~= encode_utf8(a) + encode_utf8(b));
    }
}

/// The offset of character `i` is the encoded length of the first `i`
/// characters.
pub proof fn lemma_offset_is_encoded_len(s: Seq<char>, i: int)
    requires
        0 <= i <= s.len(),
    ensures
        offset(s, i) == encode_utf8(s.take(i)).len(),
    decreases i,
{
    if i > 0 {
        lemma_offset_is_encoded_len(s, i - 1);
        let one = seq![s[i - 1]];
        assert(s.take(i) =~= s.take(i - 1) + one);
        lemma_encode_concat(s.take(i - 1), one);
        assert(one.drop_first() =~= Seq::<char>::empty());
        assert(encode_utf8(one) =~= encode_scalar(s[i - 1] as u32)) by {
            reveal_with_fuel(encode_utf8, 2);
        }
    } else {
        assert(s.take(0) =~= Seq::<char>::empty());
    }
}

/// The bytes between the offsets of two characters are the encoding of the
/// characters between them.
pub proof fn lemma_encoded_subrange(s: Seq<char>, i: int, j: int)
    requires
        0 <= i <= j <= s.len(),
    ensures
        offset(s, i) <= offset(s, j) <= encode_utf8(s).len(),
        encode_utf8(s).subrange(offset(s, i) as int, offset(s, j) as int) == encode_utf8(
            s.subrange(i, j),
        ),
{
    lemma_offset_is_encoded_len(s, i);
    lemma_offset_is_encoded_len(s, j);
    let a = s.take(i);
    let b = s.subrange(i, j);
    let c = s.skip(j);
    assert(s.take(j) =~= a + b);
    assert(s =~= (a + b) + c);
    lemma_encode_concat(a, b);
    lemma_encode_concat(a + b, c);
    assert(encode_utf8(s).subrange(offset(s, i) as int, offset(s, j) as int) =~= encode_utf8(b));
}

/// Decoding the bytes between the offsets of two characters gives back the
/// characters between them.
pub proof fn lemma_decoded_subrange(s: Seq<char>, i: int, j: int)
    requires
        0 <= i <= j <= s.len(),
    ensures
        decode_utf8(encode_utf8(s).subrange(offset(s, i) as int, offset(s, j) as int))
            == s.subrange(i, j),
{
    lemma_encoded_subrange(s, i, j);
    encode_utf8_decode_utf8(s.subrange(i, j));
}

/// The end of an encoded prefix is a character boundary of the whole.
proof fn lemma_boundary_after_prefix(a: Seq<char>, b: Seq<char>)
    ensures
        is_char_boundary(encode_utf8(a + b), encode_utf8(a).len() as int),
    decreases a.len(),
{
    let whole = a + b;
    encode_utf8_valid_utf8(whole);
    if a.len() == 0 {
    } else {
        encode_utf8_first_scalar(whole);
        encode_utf8_first_scalar(a);
        assert(whole[0] == a[0]);
        assert(whole.drop_first() =~= a.drop_first() + b);
        assert(pop_first_scalar(encode_utf8(whole)) =~= encode_utf8(whole.drop_first()));
        lemma_boundary_after_prefix(a.drop_first(), b);
        lemma_encode_concat(a, b);
        assert(encode_utf8(a).len() == length_of_first_scalar(encode_utf8(whole)) + encode_utf8(
            a.drop_first(),
        ).len());
    }
}

/// The offset of every character, and the end of the text, is a character
/// boundary of the encoded text.
pub proof fn lemma_offset_is_boundary(s: Seq<char>, i: int)
    requires
        0 <= i <= s.len(),
    ensures
        offset(s, i) <= encode_utf8(s).len(),
        is_char_boundary(encode_utf8(s), offset(s, i) as int),
{
    lemma_offset_is_encoded_len(s, i);
    lemma_encoded_subrange(s, i, i);
    assert(s =~= s.take(i) + s.skip(i));
    lemma_boundary_after_prefix(s.take(i), s.skip(i));
}

} // verus!
