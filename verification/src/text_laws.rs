//! What texts are trimmed to, how they are ordered, and what numbers they are written as.

use crate::digest::{hex, hex_digit};
use crate::text::{
    decimal, digit, is_blank, is_white_space, join, lemma_text_less_irreflexive, place_of,
    text_less, trim_end, trim_start, trimmed, Place,
};
use vstd::prelude::*;

verus! {

proof fn lemma_start(s: Seq<char>) -> (k: int)
    ensures
        0 <= k <= s.len(),
        trim_start(s) == s.skip(k),
        forall|i: int| 0 <= i < k ==> is_white_space(#[trigger] s[i]),
        k < s.len() ==> !is_white_space(s[k]),
    decreases s.len(),
{
    if s.len() > 0 && is_white_space(s[0]) {
        let rest = s.drop_first();
        let k = lemma_start(rest) + 1;
        assert(rest.skip(k - 1) =~= s.skip(k));
        assert forall|i: int| 0 <= i < k implies is_white_space(#[trigger] s[i]) by {
            if i > 0 {
                assert(is_white_space(rest[i - 1]));
            }
        }
        if k < s.len() {
            assert(rest[k - 1] == s[k]);
        }
        k
    } else {
        assert(s.skip(0) =~= s);
        0
    }
}

proof fn lemma_end(s: Seq<char>) -> (k: int)
    ensures
        0 <= k <= s.len(),
        trim_end(s) == s.take(k),
        forall|i: int| k <= i < s.len() ==> is_white_space(#[trigger] s[i]),
        k > 0 ==> !is_white_space(s[k - 1]),
    decreases s.len(),
{
    if s.len() > 0 && is_white_space(s.last()) {
        let rest = s.drop_last();
        let k = lemma_end(rest);
        assert(rest.take(k) =~= s.take(k));
        assert forall|i: int| k <= i < s.len() implies is_white_space(#[trigger] s[i]) by {
            if i < rest.len() {
                assert(is_white_space(rest[i]));
            }
        }
        if k > 0 {
            assert(rest[k - 1] == s[k - 1]);
        }
        k
    } else {
        assert(s.take(s.len() as int) =~= s);
        s.len() as int
    }
}

/// What is left of a trimmed text is a part of it that neither begins nor ends with white space, and
/// all around it is white space. Nothing is left exactly of a blank text.
pub proof fn law_only_white_space_is_trimmed(s: Seq<char>)
    ensures
        exists|i: int, j: int|
            0 <= i <= j <= s.len() && trimmed(s) == #[trigger] s.subrange(i, j) && (forall|k: int|
                0 <= k < s.len() && !(i <= k < j) ==> is_white_space(#[trigger] s[k])) && (i < j
                ==> !is_white_space(s[i]) && !is_white_space(s[j - 1])),
        is_blank(s) <==> trimmed(s).len() == 0,
{
    let i = lemma_start(s);
    let rest = s.skip(i);
    let n = lemma_end(rest);
    let j = i + n;
    assert(trimmed(s) =~= s.subrange(i, j));
    assert forall|k: int| 0 <= k < s.len() && !(i <= k < j) implies is_white_space(
        #[trigger] s[k],
    ) by {
        if k >= j {
            assert(rest[k - i] == s[k]);
        }
    }
    if i < j {
        assert(rest[0] == s[i]);
        assert(rest[n - 1] == s[j - 1]);
        assert(!is_white_space(s[i]));
    }
}

/// A text comes before another where it is the beginning of it, or has the smaller character at the
/// first place at which they differ.
pub proof fn law_texts_are_ordered_by_their_first_difference(a: Seq<char>, b: Seq<char>)
    ensures
        text_less(a, b) <==> exists|k: int|
            0 <= k < b.len() && k <= a.len() && #[trigger] a.take(k) == b.take(k) && (k == a.len()
                || a[k] < b[k]),
    decreases a.len(),
{
    if a.len() > 0 && b.len() > 0 && a[0] == b[0] {
        let (x, y) = (a.drop_first(), b.drop_first());
        law_texts_are_ordered_by_their_first_difference(x, y);
        if text_less(a, b) {
            let k = choose|k: int|
                0 <= k < y.len() && k <= x.len() && #[trigger] x.take(k) == y.take(k) && (k
                    == x.len() || x[k] < y[k]);
            assert(a.take(k + 1) =~= seq![a[0]] + x.take(k));
            assert(b.take(k + 1) =~= seq![b[0]] + y.take(k));
            assert(a.take(k + 1) == b.take(k + 1));
        }
        if exists|k: int|
            0 <= k < b.len() && k <= a.len() && #[trigger] a.take(k) == b.take(k) && (k == a.len()
                || a[k] < b[k]) {
            let k = choose|k: int|
                0 <= k < b.len() && k <= a.len() && #[trigger] a.take(k) == b.take(k) && (k
                    == a.len() || a[k] < b[k]);
            assert(k > 0);
            assert(x.take(k - 1) =~= a.take(k).drop_first());
            assert(y.take(k - 1) =~= b.take(k).drop_first());
            assert(x.take(k - 1) == y.take(k - 1));
        }
    } else if b.len() > 0 {
        assert(a.take(0) =~= b.take(0));
        if exists|k: int|
            0 <= k < b.len() && k <= a.len() && #[trigger] a.take(k) == b.take(k) && (k == a.len()
                || a[k] < b[k]) {
            let k = choose|k: int|
                0 <= k < b.len() && k <= a.len() && #[trigger] a.take(k) == b.take(k) && (k
                    == a.len() || a[k] < b[k]);
            if k > 0 {
                assert(a.take(k)[0] == a[0]);
                assert(b.take(k)[0] == b[0]);
            }
        }
    }
}

/// The value of a digit.
pub open spec fn digit_value(c: char) -> nat {
    (c as u32 - '0' as u32) as nat
}

/// The number that digits stand for.
pub open spec fn number_of(digits: Seq<char>) -> nat
    decreases digits.len(),
{
    if digits.len() == 0 {
        0
    } else {
        10 * number_of(digits.drop_last()) + digit_value(digits.last())
    }
}

/// A number is written in digits that stand for it, without zeros in front.
pub proof fn law_digits_stand_for_the_number(n: nat)
    ensures
        number_of(decimal(n)) == n,
        decimal(n).len() > 0,
        decimal(n).len() > 1 ==> decimal(n)[0] != '0',
        forall|i: int| 0 <= i < decimal(n).len() ==> '0' <= #[trigger] decimal(n)[i] <= '9',
    decreases n,
{
    reveal_with_fuel(number_of, 2);
    if n < 10 {
        let digits = decimal(n);
        assert(digits =~= seq![digit(n)]);
        assert(digits.drop_last() =~= Seq::<char>::empty());
        assert(digits.last() == digit(n));
    } else {
        let front = decimal(n / 10);
        law_digits_stand_for_the_number(n / 10);
        let digits = decimal(n);
        assert(digits == front.push(digit(n % 10)));
        assert(digits.drop_last() =~= front);
        assert(digits.last() == digit(n % 10));
        assert(digit_value(digit(n % 10)) == n % 10);
        assert(digits[0] == front[0]);
        if front.len() == 1 {
            assert(front =~= seq![front[0]]);
            if front[0] == '0' {
                assert(number_of(front) == 0) by {
                    assert(front.drop_last() =~= Seq::<char>::empty());
                }
            }
        }
        assert forall|i: int| 0 <= i < digits.len() implies '0' <= #[trigger] digits[i] <= '9' by {
            if i < front.len() {
                assert(digits[i] == front[i]);
            }
        }
    }
}

/// Joined parts stand one after the other, with the separator between each and the next.
pub proof fn law_parts_are_joined_in_order(
    first: Seq<char>,
    rest: Seq<Seq<char>>,
    separator: Seq<char>,
)
    ensures
        join(seq![], separator) == Seq::<char>::empty(),
        join(seq![first] + rest, separator) == if rest.len() == 0 {
            first
        } else {
            first + separator + join(rest, separator)
        },
    decreases rest.len(),
{
    let all = seq![first] + rest;
    if rest.len() == 0 {
        assert(all =~= seq![first]);
    } else {
        let init = rest.drop_last();
        assert(all.drop_last() =~= seq![first] + init);
        assert(all.last() == rest.last());
        law_parts_are_joined_in_order(first, init, separator);
        if init.len() == 0 {
            assert(rest =~= seq![rest.last()]);
            assert(all.drop_last() =~= seq![first]);
        } else {
            assert(join(all, separator) =~= first + separator + join(rest, separator));
        }
    }
}

/// The value of a digit below sixteen.
pub open spec fn hex_value(c: char) -> int {
    if '0' <= c <= '9' {
        c as u32 - '0' as u32
    } else {
        c as u32 - 'a' as u32 + 10
    }
}

proof fn lemma_hex_digit(n: int)
    requires
        0 <= n < 16,
    ensures
        hex_value(hex_digit(n)) == n,
{
    reveal_strlit("0123456789abcdef");
}

/// Bytes are written with two digits each, in their order, the upper half first.
pub proof fn law_two_digits_stand_for_a_byte(bytes: Seq<u8>)
    ensures
        hex(bytes).len() == 2 * bytes.len(),
        forall|i: int|
            #![trigger bytes[i]]
            0 <= i < bytes.len() ==> 16 * hex_value(hex(bytes)[2 * i]) + hex_value(
                hex(bytes)[2 * i + 1],
            ) == bytes[i],
    decreases bytes.len(),
{
    if bytes.len() > 0 {
        let init = bytes.drop_last();
        let n = bytes.len() - 1;
        law_two_digits_stand_for_a_byte(init);
        lemma_hex_digit(bytes[n] as int / 16);
        lemma_hex_digit(bytes[n] as int % 16);
        assert forall|i: int|
            #![trigger bytes[i]]
            0 <= i < bytes.len() implies 16 * hex_value(hex(bytes)[2 * i]) + hex_value(
            hex(bytes)[2 * i + 1],
        ) == bytes[i] by {
            if i < n {
                assert(init[i] == bytes[i]);
                assert(hex(bytes)[2 * i] == hex(init)[2 * i]);
                assert(hex(bytes)[2 * i + 1] == hex(init)[2 * i + 1]);
            }
        }
    }
}

/// Of two texts one comes before the other, or they are the same.
pub proof fn law_texts_have_one_order(a: Seq<char>, b: Seq<char>)
    ensures
        place_of(a, b) == Place::Same <==> a == b,
        place_of(a, b) == Place::Before <==> text_less(a, b),
        place_of(a, b) == Place::After <==> text_less(b, a),
    decreases a.len(),
{
    lemma_text_less_irreflexive(a);
    if a.len() > 0 && b.len() > 0 && a[0] == b[0] {
        law_texts_have_one_order(a.drop_first(), b.drop_first());
        if a.drop_first() == b.drop_first() {
            assert(a =~= seq![a[0]] + a.drop_first());
            assert(b =~= seq![b[0]] + b.drop_first());
        }
    } else if a.len() == 0 && b.len() == 0 {
        assert(a =~= b);
    }
}

} // verus!
