//! Identifiers. An identifier is the 128-bit value of a UUID; this module
//! makes fresh ones and writes them as text.

use vstd::prelude::*;

verus! {

/// Sixteen to the power of `exponent`.
pub open spec fn sixteen_to(exponent: nat) -> nat
    decreases exponent,
{
    if exponent == 0 {
        1
    } else {
        16 * sixteen_to((exponent - 1) as nat)
    }
}

/// The value of the hexadecimal digit of `id` at position `digit`, counted
/// from the most significant of its thirty-two digits.
pub open spec fn digit_value(id: u128, digit: int) -> nat {
    (id as nat / sixteen_to((31 - digit) as nat)) % 16
}

/// The hexadecimal digit of `id` at position `digit`, counted from the most
/// significant of its thirty-two digits.
pub open spec fn hex_digit(id: u128, digit: int) -> char {
    "0123456789abcdef"@[digit_value(id, digit) as int]
}

/// The canonical text of an identifier: its thirty-two hexadecimal digits in
/// lower case, the most significant first, in groups of eight, four, four,
/// four and twelve with a hyphen between the groups.
pub open spec fn id_text(id: u128) -> Seq<char> {
    Seq::new(
        36,
        |i: int|
            if i == 8 || i == 13 || i == 18 || i == 23 {
                '-'
            } else if i < 8 {
                hex_digit(id, i)
            } else if i < 13 {
                hex_digit(id, i - 1)
            } else if i < 18 {
                hex_digit(id, i - 2)
            } else if i < 23 {
                hex_digit(id, i - 3)
            } else {
                hex_digit(id, i - 4)
            },
    )
}

/// Calls `Uuid::new_v4`, which draws a random identifier and marks it as
/// random by setting its version and variant bits. Because of those bits the
/// identifier is never nil; nothing else is known of it.
#[verifier::external_body]
pub(crate) fn fresh_id() -> (id: u128)
    ensures
        id != 0,
{
    uuid::Uuid::new_v4().as_u128()
}

/// Calls `Uuid::to_string` on the UUID with the given value, which writes the
/// canonical text: lower-case hexadecimal digits in five hyphenated groups.
#[verifier::external_body]
pub(crate) fn id_to_text(id: u128) -> (text: String)
    ensures
        text@ == id_text(id),
{
    uuid::Uuid::from_u128(id).to_string()
}

/// Whether an identifier is nil, the identifier of nothing.
pub fn is_nil(id: u128) -> (nil: bool)
    ensures
        nil == (id == 0),
{
    id == 0
}

/// The first of two texts comes before the second in the order of the
/// dictionary: where they first differ, the first has the lower character, or
/// the first ends there and the second goes on.
pub open spec fn text_precedes(first: Seq<char>, second: Seq<char>) -> bool {
    exists|at: int|
        #![trigger second[at]]
        0 <= at <= first.len() && at < second.len() && (forall|before: int|
            0 <= before < at ==> first[before] == second[before]) && (at == first.len() || (
        first[at] as u32) < (second[at] as u32))
}

/// The value of the first `count` digits of an identifier.
spec fn leading(id: u128, count: int) -> nat {
    id as nat / sixteen_to((32 - count) as nat)
}

/// The first position from `from` on at which the digits of two identifiers
/// differ, or thirty-two where they do not.
spec fn first_difference(a: u128, b: u128, from: int) -> int
    decreases 32 - from,
{
    if from >= 32 {
        32
    } else if digit_value(a, from) != digit_value(b, from) {
        from
    } else {
        first_difference(a, b, from + 1)
    }
}

/// The position in the canonical text of the digit at the given position.
spec fn place_of(digit: int) -> int {
    if digit < 8 {
        digit
    } else if digit < 12 {
        digit + 1
    } else if digit < 16 {
        digit + 2
    } else if digit < 20 {
        digit + 3
    } else {
        digit + 4
    }
}

/// The code of the character that stands for a hexadecimal digit.
spec fn code_of(value: int) -> int {
    if value < 10 {
        48 + value
    } else {
        87 + value
    }
}

/// Sixteen to any power is positive.
proof fn lemma_sixteen_to_positive(exponent: nat)
    ensures
        sixteen_to(exponent) > 0,
    decreases exponent,
{
    if exponent > 0 {
        lemma_sixteen_to_positive((exponent - 1) as nat);
    }
}

/// Sixteen to a sum is the product of sixteen to its parts.
proof fn lemma_sixteen_to_sum(a: nat, b: nat)
    ensures
        sixteen_to(a + b) == sixteen_to(a) * sixteen_to(b),
    decreases b,
{
    if b == 0 {
        assert(sixteen_to(a) * 1 == sixteen_to(a));
    } else {
        lemma_sixteen_to_sum(a, (b - 1) as nat);
        let rest = sixteen_to((b - 1) as nat);
        assert(sixteen_to(a + b) == 16 * sixteen_to((a + b - 1) as nat));
        assert(16 * (sixteen_to(a) * rest) == sixteen_to(a) * (16 * rest)) by (nonlinear_arith);
    }
}

/// No identifier has more than thirty-two digits, and the value of all
/// thirty-two is the identifier.
proof fn lemma_leading_ends(id: u128)
    ensures
        leading(id, 0) == 0,
        leading(id, 32) == id,
{
    assert(sixteen_to(4) == 0x1_0000) by {
        reveal_with_fuel(sixteen_to, 5);
    }
    lemma_sixteen_to_sum(4, 4);
    lemma_sixteen_to_sum(8, 8);
    lemma_sixteen_to_sum(16, 16);
    let four = sixteen_to(4);
    let eight = sixteen_to(8);
    let sixteen = sixteen_to(16);
    assert(four * four == 0x1_0000_0000) by (nonlinear_arith)
        requires
            four == 0x1_0000,
    ;
    assert(eight * eight == 0x1_0000_0000_0000_0000) by (nonlinear_arith)
        requires
            eight == 0x1_0000_0000,
    ;
    assert(sixteen * sixteen > 0xFFFF_FFFF_FFFF_FFFF_FFFF_FFFF_FFFF_FFFF) by (nonlinear_arith)
        requires
            sixteen == 0x1_0000_0000_0000_0000,
    ;
    assert(sixteen_to((32 - 32) as nat) == 1);
    assert(id as nat / 1 == id as nat);
    vstd::arithmetic::div_mod::lemma_basic_div(id as int, sixteen_to(32) as int);
}

/// One digit more makes sixteen times the value and the digit.
proof fn lemma_leading_step(id: u128, count: int)
    requires
        0 <= count < 32,
    ensures
        leading(id, count + 1) == 16 * leading(id, count) + digit_value(id, count),
        digit_value(id, count) < 16,
{
    let unit = sixteen_to((31 - count) as nat);
    lemma_sixteen_to_positive((31 - count) as nat);
    assert(sixteen_to((32 - count) as nat) == 16 * unit);
    let value = id as int / unit as int;
    vstd::arithmetic::div_mod::lemma_div_denominator(id as int, unit as int, 16);
    assert(unit as int * 16 == 16 * unit);
    vstd::arithmetic::div_mod::lemma_fundamental_div_mod(value, 16);
    vstd::arithmetic::div_mod::lemma_mod_bound(value, 16);
    vstd::arithmetic::div_mod::lemma_div_pos_is_pos(id as int, unit as int);
}

/// Identifiers whose first digits are the same have the same value in
/// them; where the first digit that differs is lower, the value is lower.
proof fn lemma_leading_order(a: u128, b: u128, count: int)
    requires
        0 <= count <= 32,
    ensures
        first_difference(a, b, 0) >= count ==> leading(a, count) == leading(b, count),
        first_difference(a, b, 0) < count && digit_value(a, first_difference(a, b, 0))
            < digit_value(b, first_difference(a, b, 0)) ==> leading(a, count) < leading(b, count),
    decreases count,
{
    lemma_first_difference(a, b, 0);
    if count == 0 {
        lemma_leading_ends(a);
        lemma_leading_ends(b);
    } else {
        lemma_leading_order(a, b, count - 1);
        lemma_leading_step(a, count - 1);
        lemma_leading_step(b, count - 1);
    }
}

/// Before the first difference the digits are the same, and at the first
/// difference they differ.
proof fn lemma_first_difference(a: u128, b: u128, from: int)
    requires
        0 <= from <= 32,
    ensures
        from <= first_difference(a, b, from) <= 32,
        forall|digit: int|
            from <= digit < first_difference(a, b, from) ==> digit_value(a, digit) == digit_value(
                b,
                digit,
            ),
        first_difference(a, b, from) < 32 ==> digit_value(a, first_difference(a, b, from))
            != digit_value(b, first_difference(a, b, from)),
    decreases 32 - from,
{
    if from < 32 && digit_value(a, from) == digit_value(b, from) {
        lemma_first_difference(a, b, from + 1);
    }
}

/// The characters of the hexadecimal digits stand in the order of the
/// digits.
proof fn lemma_digit_codes(value: int)
    requires
        0 <= value < 16,
    ensures
        "0123456789abcdef"@[value] as u32 == code_of(value),
{
    reveal_strlit("0123456789abcdef");
    let digits = "0123456789abcdef"@;
    if value == 0 {
        assert(digits[0] == '0');
    } else if value == 1 {
        assert(digits[1] == '1');
    } else if value == 2 {
        assert(digits[2] == '2');
    } else if value == 3 {
        assert(digits[3] == '3');
    } else if value == 4 {
        assert(digits[4] == '4');
    } else if value == 5 {
        assert(digits[5] == '5');
    } else if value == 6 {
        assert(digits[6] == '6');
    } else if value == 7 {
        assert(digits[7] == '7');
    } else if value == 8 {
        assert(digits[8] == '8');
    } else if value == 9 {
        assert(digits[9] == '9');
    } else if value == 10 {
        assert(digits[10] == 'a');
    } else if value == 11 {
        assert(digits[11] == 'b');
    } else if value == 12 {
        assert(digits[12] == 'c');
    } else if value == 13 {
        assert(digits[13] == 'd');
    } else if value == 14 {
        assert(digits[14] == 'e');
    } else {
        assert(digits[15] == 'f');
    }
}

/// The character at the place of a digit in the canonical text is the
/// character of that digit, and the places between the groups hold
/// hyphens.
proof fn lemma_id_text_places(id: u128, digit: int)
    requires
        0 <= digit < 32,
    ensures
        id_text(id).len() == 36,
        0 <= place_of(digit) < 36,
        id_text(id)[place_of(digit)] as u32 == code_of(digit_value(id, digit) as int),
        id_text(id)[8] == '-' && id_text(id)[13] == '-' && id_text(id)[18] == '-' && id_text(
            id,
        )[23] == '-',
{
    let unit = sixteen_to((31 - digit) as nat);
    lemma_sixteen_to_positive((31 - digit) as nat);
    vstd::arithmetic::div_mod::lemma_mod_bound(id as int / unit as int, 16);
    lemma_digit_codes(digit_value(id, digit) as int);
}

/// The order of identifiers as numbers is the order of their canonical
/// texts in the dictionary.
pub proof fn lemma_id_order_is_text_order(a: u128, b: u128)
    ensures
        (a < b) == text_precedes(id_text(a), id_text(b)),
{
    let first = id_text(a);
    let second = id_text(b);
    let differ = first_difference(a, b, 0);
    lemma_first_difference(a, b, 0);
    lemma_leading_order(a, b, 32);
    lemma_leading_order(b, a, 32);
    lemma_first_difference(b, a, 0);
    lemma_leading_ends(a);
    lemma_leading_ends(b);
    assert(first_difference(b, a, 0) == differ) by {
        lemma_same_first_difference(a, b, 0);
    }
    assert forall|digit: int| 0 <= digit < 32 implies first.len() == 36 && second.len() == 36
        && #[trigger] first[place_of(digit)] as u32 == code_of(digit_value(a, digit) as int)
        && second[place_of(digit)] as u32 == code_of(digit_value(b, digit) as int) by {
        lemma_id_text_places(a, digit);
        lemma_id_text_places(b, digit);
    }
    lemma_id_text_places(a, 0);
    lemma_id_text_places(b, 0);
    if a < b {
        assert(differ < 32 && digit_value(a, differ) < digit_value(b, differ));
        let at = place_of(differ);
        assert(first[at] as u32 == code_of(digit_value(a, differ) as int));
        assert(second[at] as u32 == code_of(digit_value(b, differ) as int));
        assert forall|before: int| 0 <= before < at implies first[before] == second[before] by {
            lemma_same_before(a, b, differ, before);
        }
        assert(text_precedes(first, second));
    }
    if text_precedes(first, second) {
        let at = choose|at: int|
            #![trigger second[at]]
            0 <= at <= first.len() && at < second.len() && (forall|before: int|
                0 <= before < at ==> first[before] == second[before]) && (at == first.len() || (
            first[at] as u32) < (second[at] as u32));
        if differ == 32 {
            assert forall|place: int| 0 <= place < 36 implies first[place] == second[place] by {
                lemma_same_before(a, b, 32, place);
            }
        } else {
            let place = place_of(differ);
            assert(first[place] as u32 == code_of(digit_value(a, differ) as int));
            assert(second[place] as u32 == code_of(digit_value(b, differ) as int));
            assert(first[place] != second[place]);
            assert forall|before: int| 0 <= before < place implies first[before]
                == second[before] by {
                lemma_same_before(a, b, differ, before);
            }
            assert(at == place);
        }
    }
}

/// The first difference of two identifiers is the same whichever is looked
/// at first.
proof fn lemma_same_first_difference(a: u128, b: u128, from: int)
    requires
        0 <= from <= 32,
    ensures
        first_difference(a, b, from) == first_difference(b, a, from),
    decreases 32 - from,
{
    if from < 32 && digit_value(a, from) == digit_value(b, from) {
        lemma_same_first_difference(a, b, from + 1);
    }
}

/// Before the place of the first digit that differs, the canonical texts
/// of two identifiers are the same.
proof fn lemma_same_before(a: u128, b: u128, differ: int, place: int)
    requires
        0 <= differ <= 32,
        forall|digit: int| 0 <= digit < differ ==> digit_value(a, digit) == digit_value(b, digit),
        0 <= place < 36,
        differ < 32 ==> place < place_of(differ),
    ensures
        id_text(a)[place] == id_text(b)[place],
{
    if place == 8 || place == 13 || place == 18 || place == 23 {
    } else {
        let digit = if place < 8 {
            place
        } else if place < 13 {
            place - 1
        } else if place < 18 {
            place - 2
        } else if place < 23 {
            place - 3
        } else {
            place - 4
        };
        assert(digit_value(a, digit) == digit_value(b, digit));
    }
}

} // verus!
