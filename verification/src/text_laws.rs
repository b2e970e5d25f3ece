//! What printing, reading, joining and ordering texts comes to.

use crate::text::{
    ascii_lower, bytes_before, contains_text, decimal, is_digit, join, lemma_decimal, numeral_value,
    occurs_at, parse_unsigned, text_before,
};
use vstd::prelude::*;

verus! {

/// A number is printed without leading zeros.
pub proof fn lemma_numbers_have_no_leading_zeros(n: nat)
    ensures
        decimal(n).len() > 0,
        n > 0 ==> decimal(n)[0] != '0',
        n < 10 ==> decimal(n).len() == 1,
    decreases n,
{
    if n >= 10 {
        lemma_numbers_have_no_leading_zeros(n / 10);
        assert(decimal(n)[0] == decimal(n / 10)[0]);
    }
}

/// A number that is printed is read back, with a plus sign or without, as long as it is not
/// too large.
pub proof fn lemma_printed_numbers_are_read_back(n: nat, max: nat)
    ensures
        n <= max ==> parse_unsigned(decimal(n), max) == Some(n),
        n <= max ==> parse_unsigned(seq!['+'] + decimal(n), max) == Some(n),
        n > max ==> parse_unsigned(decimal(n), max) is None,
{
    lemma_decimal(n);
    let signed = seq!['+'] + decimal(n);
    assert(is_digit(decimal(n)[0]));
    assert(signed[0] == '+');
    assert(signed.skip(1) =~= decimal(n));
}

/// What is read as a number has nothing but digits, behind a plus sign or not.
pub proof fn lemma_only_digits_are_read(text: Seq<char>, max: nat, i: int)
    requires
        0 <= i < text.len(),
        parse_unsigned(text, max) is Some,
    ensures
        '0' <= text[i] <= '9' || (i == 0 && text[0] == '+' && text.len() > 1),
        parse_unsigned(text, max)->0 <= max,
{
    if text[0] == '+' {
        if i > 0 {
            assert(text.skip(1)[i - 1] == text[i]);
        }
    }
}

/// Digits behind others weigh a tenth of them.
pub proof fn lemma_digits_weigh_by_their_place(front: Seq<char>, digit: char)
    requires
        is_digit(digit),
    ensures
        numeral_value(front.push(digit)) == numeral_value(front) * 10 + (digit as int - '0' as int),
{
    assert(front.push(digit).drop_last() =~= front);
}

/// In lower case every letter from A to Z is the one from a to z, and any other character
/// stays as it is.
pub proof fn lemma_lower_case(text: Seq<char>, i: int)
    requires
        0 <= i < text.len(),
    ensures
        ascii_lower(text).len() == text.len(),
        'A' <= text[i] <= 'Z' ==> ascii_lower(text)[i] as int - 'a' as int == text[i] as int
            - 'A' as int,
        !('A' <= text[i] <= 'Z') ==> ascii_lower(text)[i] == text[i],
        !('A' <= ascii_lower(text)[i] <= 'Z'),
{
}

/// Texts are joined in their order, with the separator between any two of them and nowhere
/// else.
pub proof fn lemma_joined_texts_keep_their_order(
    a: Seq<Seq<char>>,
    b: Seq<Seq<char>>,
    separator: Seq<char>,
    text: Seq<char>,
)
    requires
        a.len() > 0,
        b.len() > 0,
    ensures
        join(a + b, separator) == join(a, separator) + separator + join(b, separator),
        join(seq![text], separator) == text,
        join(Seq::empty(), separator).len() == 0,
    decreases b.len(),
{
    let front = b.drop_last();
    assert((a + b).drop_last() =~= a + front);
    assert((a + b).last() == b.last());
    if front.len() == 0 {
        assert(a + front =~= a);
        assert(b.last() == b[0]);
        assert(join(a + b, separator) =~= join(a, separator) + separator + join(b, separator));
    } else {
        lemma_joined_texts_keep_their_order(a, front, separator, text);
        assert(join(a + b, separator) =~= join(a, separator) + separator + join(b, separator));
    }
}

/// A text contains whatever stands within it.
pub proof fn lemma_parts_are_contained(front: Seq<char>, part: Seq<char>, rest: Seq<char>)
    ensures
        contains_text(front + part + rest, part),
{
    let text = front + part + rest;
    assert(text.subrange(front.len() as int, front.len() as int + part.len()) =~= part);
    assert(occurs_at(text, part, front.len() as int));
}

/// What a text contains stands within it.
pub proof fn lemma_what_is_contained_is_a_part(text: Seq<char>, part: Seq<char>)
    requires
        contains_text(text, part),
    ensures
        exists|front: Seq<char>, rest: Seq<char>| text == #[trigger] (front + part + rest),
{
    let i = choose|i: int| #[trigger] occurs_at(text, part, i);
    let front = text.take(i);
    let rest = text.skip(i + part.len());
    assert(text =~= front + part + rest);
}

/// Texts are ordered by the first character in which they differ; a text comes before any that
/// goes on from it.
pub proof fn lemma_texts_are_ordered_by_their_first_difference(
    common: Seq<char>,
    a: Seq<char>,
    b: Seq<char>,
)
    ensures
        a.len() > 0 && b.len() > 0 && a[0] < b[0] ==> text_before(common + a, common + b),
        a.len() == 0 && b.len() > 0 ==> text_before(common + a, common + b),
        b.len() == 0 ==> !text_before(common + a, common + b),
        a.len() > 0 && b.len() > 0 && a[0] > b[0] ==> !text_before(common + a, common + b),
    decreases common.len(),
{
    if common.len() == 0 {
        assert(common + a =~= a);
        assert(common + b =~= b);
    } else {
        let rest = common.skip(1);
        lemma_texts_are_ordered_by_their_first_difference(rest, a, b);
        assert((common + a).skip(1) =~= rest + a);
        assert((common + b).skip(1) =~= rest + b);
    }
}

/// Bytes are ordered likewise.
pub proof fn lemma_bytes_are_ordered_by_their_first_difference(
    common: Seq<u8>,
    a: Seq<u8>,
    b: Seq<u8>,
)
    ensures
        a.len() > 0 && b.len() > 0 && a[0] < b[0] ==> bytes_before(common + a, common + b),
        a.len() == 0 && b.len() > 0 ==> bytes_before(common + a, common + b),
        b.len() == 0 ==> !bytes_before(common + a, common + b),
        a.len() > 0 && b.len() > 0 && a[0] > b[0] ==> !bytes_before(common + a, common + b),
    decreases common.len(),
{
    if common.len() == 0 {
        assert(common + a =~= a);
        assert(common + b =~= b);
    } else {
        let rest = common.skip(1);
        lemma_bytes_are_ordered_by_their_first_difference(rest, a, b);
        assert((common + a).skip(1) =~= rest + a);
        assert((common + b).skip(1) =~= rest + b);
    }
}

} // verus!
