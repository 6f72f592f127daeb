//! Item identifiers as the host writes them, and the cache paths named after them.

use vstd::prelude::*;
use vstd::string::StringExecFns;

verus! {

/// Whether `c` is one of the ten decimal digits.
pub open spec fn is_digit(c: char) -> bool {
    '0' <= c && c <= '9'
}

/// The value of the decimal digit `c`.
pub open spec fn digit_value(c: char) -> nat
    recommends
        is_digit(c),
{
    (c as int - '0' as int) as nat
}

/// Whether `digits` holds decimal digits only.
pub open spec fn all_digits(digits: Seq<char>) -> bool {
    forall|i: int| 0 <= i < digits.len() ==> is_digit(#[trigger] digits[i])
}

/// The number that `digits` writes in base ten, the empty sequence writing zero.
pub open spec fn decimal_value(digits: Seq<char>) -> nat
    decreases digits.len(),
{
    if digits.len() == 0 {
        0
    } else {
        10 * decimal_value(digits.drop_last()) + digit_value(digits.last())
    }
}

/// `text` without the plus sign that may lead it.
pub open spec fn unsigned_part(text: Seq<char>) -> Seq<char> {
    if text.len() > 0 && text[0] == '+' {
        text.drop_first()
    } else {
        text
    }
}

/// The item identifier that `text` writes, if it writes one.
///
/// An identifier is written as an optional plus sign followed by at least one
/// decimal digit and nothing else; its value is positive and fits in 64 bits.
pub open spec fn item_id_of(text: Seq<char>) -> Option<u64> {
    let digits = unsigned_part(text);
    if digits.len() > 0 && all_digits(digits) && 0 < decimal_value(digits) <= u64::MAX {
        Some(decimal_value(digits) as u64)
    } else {
        None
    }
}

/// A number is never smaller than what any prefix of its digits writes.
proof fn lemma_prefix_value(digits: Seq<char>, n: int)
    requires
        0 <= n <= digits.len(),
    ensures
        decimal_value(digits.take(n)) <= decimal_value(digits),
    decreases digits.len(),
{
    if n == digits.len() {
        assert(digits.take(n) =~= digits);
    } else {
        lemma_prefix_value(digits.drop_last(), n);
        assert(digits.drop_last().take(n) =~= digits.take(n));
    }
}

/// Reading one more character extends the unsigned part by it, but for a leading plus sign.
proof fn lemma_unsigned_part_step(text: Seq<char>, n: int)
    requires
        0 <= n < text.len(),
        !(n == 0 && text[0] == '+'),
    ensures
        unsigned_part(text.take(n + 1)) == unsigned_part(text.take(n)).push(text[n]),
{
    assert(unsigned_part(text.take(n + 1)) =~= unsigned_part(text.take(n)).push(text[n]));
}

/// The unsigned part of a prefix is a prefix of the unsigned part.
proof fn lemma_unsigned_part_prefix(text: Seq<char>, n: int)
    requires
        0 <= n <= text.len(),
    ensures
        unsigned_part(text.take(n)) == unsigned_part(text).take(
            unsigned_part(text.take(n)).len() as int,
        ),
        unsigned_part(text.take(n)).len() <= unsigned_part(text).len(),
{
    let part = unsigned_part(text.take(n));
    assert(part =~= unsigned_part(text).take(part.len() as int));
}

/// Reads an item identifier as the host hands it over.
pub fn parse_item_id(text: &str) -> (id: Option<u64>)
    ensures
        id == item_id_of(text@),
{
    let mut value: u64 = 0;
    let mut any: bool = false;
    let mut first: bool = true;
    for c in it: text.chars()
        invariant
            it.seq() == text@,
            first <==> it.index() == 0,
            any <==> unsigned_part(text@.take(it.index() as int)).len() > 0,
            all_digits(unsigned_part(text@.take(it.index() as int))),
            value == decimal_value(unsigned_part(text@.take(it.index() as int))),
    {
        let ghost n = it.index() as int;
        let ghost before = unsigned_part(text@.take(n));
        if first && c == '+' {
            first = false;
            assert(unsigned_part(text@.take(n + 1)) =~= Seq::<char>::empty());
        } else if '0' <= c && c <= '9' {
            first = false;
            let digit: u64 = (c as u32 - '0' as u32) as u64;
            proof {
                lemma_unsigned_part_step(text@, n);
                assert(before.push(c).drop_last() =~= before);
                lemma_unsigned_part_prefix(text@, n + 1);
                lemma_prefix_value(unsigned_part(text@), before.len() as int + 1);
            }
            let scaled: u64 = match value.checked_mul(10) {
                Some(scaled) => scaled,
                None => {
                    return None;
                },
            };
            value = match scaled.checked_add(digit) {
                Some(sum) => sum,
                None => {
                    return None;
                },
            };
            any = true;
        } else {
            proof {
                lemma_unsigned_part_step(text@, n);
                lemma_unsigned_part_prefix(text@, n + 1);
                let part = unsigned_part(text@.take(n + 1));
                assert(part.last() == c);
                assert(unsigned_part(text@)[part.len() - 1] == c);
            }
            return None;
        }
    }
    assert(text@.take(text@.len() as int) =~= text@);
    if any && value > 0 {
        Some(value)
    } else {
        None
    }
}

/// The character that writes the digit `d`.
pub open spec fn digit_char(d: nat) -> char
    recommends
        d < 10,
{
    if d == 0 {
        '0'
    } else if d == 1 {
        '1'
    } else if d == 2 {
        '2'
    } else if d == 3 {
        '3'
    } else if d == 4 {
        '4'
    } else if d == 5 {
        '5'
    } else if d == 6 {
        '6'
    } else if d == 7 {
        '7'
    } else if d == 8 {
        '8'
    } else {
        '9'
    }
}

/// The digits that write `n` in base ten, without leading zeros.
pub open spec fn decimal(n: nat) -> Seq<char>
    decreases n,
{
    if n < 10 {
        seq![digit_char(n)]
    } else {
        decimal(n / 10).push(digit_char(n % 10))
    }
}

/// What `decimal` writes is read back as the same number.
pub proof fn lemma_decimal_value(n: nat)
    ensures
        decimal(n).len() > 0,
        all_digits(decimal(n)),
        decimal(n)[0] != '+',
        decimal_value(decimal(n)) == n,
    decreases n,
{
    if n < 10 {
        let digits = decimal(n);
        assert(digits.drop_last() =~= Seq::<char>::empty());
        assert(decimal_value(digits.drop_last()) == 0);
    } else {
        lemma_decimal_value(n / 10);
        let digits = decimal(n);
        assert(digits.drop_last() =~= decimal(n / 10));
    }
}

/// An identifier written out in decimal is read back as itself.
pub proof fn lemma_item_id_round_trip(id: u64)
    requires
        id > 0,
    ensures
        item_id_of(decimal(id as nat)) == Some(id),
{
    lemma_decimal_value(id as nat);
}

/// The one-character text of the digit `d`.
fn digit_text(d: u64) -> (text: &'static str)
    requires
        d < 10,
    ensures
        text@ == seq![digit_char(d as nat)],
{
    proof {
        reveal_strlit("0");
        reveal_strlit("1");
        reveal_strlit("2");
        reveal_strlit("3");
        reveal_strlit("4");
        reveal_strlit("5");
        reveal_strlit("6");
        reveal_strlit("7");
        reveal_strlit("8");
        reveal_strlit("9");
    }
    let text: &'static str = if d == 0 {
        "0"
    } else if d == 1 {
        "1"
    } else if d == 2 {
        "2"
    } else if d == 3 {
        "3"
    } else if d == 4 {
        "4"
    } else if d == 5 {
        "5"
    } else if d == 6 {
        "6"
    } else if d == 7 {
        "7"
    } else if d == 8 {
        "8"
    } else {
        "9"
    };
    assert(text@ =~= seq![digit_char(d as nat)]);
    text
}

/// Appends the decimal digits of `n` to `out`.
pub fn push_decimal(n: u64, out: &mut String)
    ensures
        final(out)@ == old(out)@ + decimal(n as nat),
    decreases n,
{
    if n >= 10 {
        push_decimal(n / 10, out);
    }
    out.append(digit_text(n % 10));
    assert(out@ =~= old(out)@ + decimal(n as nat));
}

/// Writes an identifier the way the host reads it: in decimal.
pub fn item_id_string(id: u64) -> (text: String)
    ensures
        text@ == decimal(id as nat),
{
    let mut text = String::new();
    push_decimal(id, &mut text);
    assert(text@ =~= decimal(id as nat));
    text
}

} // verus!
