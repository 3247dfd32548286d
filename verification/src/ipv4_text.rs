//! Dotted-decimal IPv4 address text in both directions.
//!
//! An IPv4 address is a `u32` in host order whose most significant octet comes first in the
//! text. Parsing follows the grammar the Rust standard library accepts for `Ipv4Addr`: exactly
//! four decimal octets separated by `.`, each one to three ASCII digits without a leading zero
//! (a lone `0` is allowed) and at most 255; nothing else, not even whitespace.

use vstd::prelude::*;

use crate::text::{
    chars_of, decimal_digit, decimal_text, delimits, lemma_split_append_piece,
    lemma_split_single_piece, push_char, push_decimal, split_bounds, split_on,
};

verus! {

/// Whether `c` is an ASCII decimal digit.
pub open spec fn is_decimal_digit(c: char) -> bool {
    '0' <= c && c <= '9'
}

/// The value of a decimal digit character.
pub open spec fn decimal_digit_value(c: char) -> nat {
    ((c as u32) - ('0' as u32)) as nat
}

/// The value of a string of decimal digits (zero for the empty string).
pub open spec fn decimal_value(s: Seq<char>) -> nat
    decreases s.len(),
{
    if s.len() == 0 {
        0
    } else {
        decimal_value(s.drop_last()) * 10 + decimal_digit_value(s.last())
    }
}

/// Every character of `s` is an ASCII decimal digit.
pub open spec fn all_decimal_digits(s: Seq<char>) -> bool {
    forall|i: int| 0 <= i < s.len() ==> #[trigger] is_decimal_digit(s[i])
}

/// The octet one dotted-decimal component denotes, when it is well formed.
pub open spec fn ipv4_component_value(component: Seq<char>) -> Option<u8> {
    if 1 <= component.len() <= 3 && all_decimal_digits(component) && !(component.len() > 1
        && component[0] == '0') && decimal_value(component) <= 255 {
        Some(decimal_value(component) as u8)
    } else {
        None
    }
}

/// The address four octets make, most significant first.
pub open spec fn ipv4_from_octets(a: u8, b: u8, c: u8, d: u8) -> u32 {
    (a as int * 0x100_0000 + b as int * 0x1_0000 + c as int * 0x100 + d as int) as u32
}

/// The address dotted-decimal `text` denotes, or `None` when it is not one.
pub open spec fn parse_ipv4_text(text: Seq<char>) -> Option<u32> {
    let components = split_on(text, '.');
    if components.len() != 4 {
        None
    } else {
        match (
            ipv4_component_value(components[0]),
            ipv4_component_value(components[1]),
            ipv4_component_value(components[2]),
            ipv4_component_value(components[3]),
        ) {
            (Some(a), Some(b), Some(c), Some(d)) => Some(ipv4_from_octets(a, b, c, d)),
            _ => None,
        }
    }
}

/// Octet `index` (0 is the most significant) of `address`.
pub open spec fn ipv4_octet(address: u32, index: int) -> nat {
    if index == 0 {
        (address / 0x100_0000) as nat
    } else if index == 1 {
        ((address / 0x1_0000) % 0x100) as nat
    } else if index == 2 {
        ((address / 0x100) % 0x100) as nat
    } else {
        (address % 0x100) as nat
    }
}

/// Dotted-decimal text of `address` (what `Ipv4Addr`'s `Display` prints).
pub open spec fn ipv4_text(address: u32) -> Seq<char> {
    decimal_text(ipv4_octet(address, 0)) + seq!['.'] + decimal_text(ipv4_octet(address, 1))
        + seq!['.'] + decimal_text(ipv4_octet(address, 2)) + seq!['.'] + decimal_text(
        ipv4_octet(address, 3),
    )
}

/// Appends the dotted-decimal text of `address`.
pub fn push_ipv4_text(buffer: &mut String, address: u32)
    ensures
        final(buffer)@ == old(buffer)@ + ipv4_text(address),
{
    push_decimal(buffer, (address / 0x100_0000) as u128);
    push_char(buffer, '.');
    push_decimal(buffer, ((address / 0x1_0000) % 0x100) as u128);
    push_char(buffer, '.');
    push_decimal(buffer, ((address / 0x100) % 0x100) as u128);
    push_char(buffer, '.');
    push_decimal(buffer, (address % 0x100) as u128);
    assert(final(buffer)@ =~= old(buffer)@ + ipv4_text(address));
}

/// Dotted-decimal text of `address` as a new string.
pub fn ipv4_string(address: u32) -> (text: String)
    ensures
        text@ == ipv4_text(address),
{
    let mut text = String::new();
    push_ipv4_text(&mut text, address);
    assert(text@ =~= ipv4_text(address));
    text
}

fn decimal_digit_of(c: char) -> (digit: Option<u32>)
    ensures
        digit is Some <==> is_decimal_digit(c),
        digit matches Some(d) ==> d == decimal_digit_value(c) && d < 10,
{
    if '0' <= c && c <= '9' {
        Some((c as u32) - ('0' as u32))
    } else {
        None
    }
}

/// Ten to the power `n`.
pub open spec fn pow10(n: nat) -> nat
    decreases n,
{
    if n == 0 {
        1
    } else {
        10 * pow10((n - 1) as nat)
    }
}

/// The octet the component `characters[start..end]` denotes, when it is well formed.
fn parse_ipv4_component(characters: &Vec<char>, start: usize, end: usize) -> (value: Option<u8>)
    requires
        start <= end <= characters@.len(),
    ensures
        value == ipv4_component_value(characters@.subrange(start as int, end as int)),
{
    let ghost component = characters@.subrange(start as int, end as int);
    let length = end - start;
    if length < 1 || length > 3 {
        return None;
    }
    if length > 1 && characters[start] == '0' {
        proof {
            assert(component[0] == characters@[start as int]);
        }
        return None;
    }
    let mut value: u32 = 0;
    let mut index = start;
    while index < end
        invariant
            start <= index <= end <= characters@.len(),
            end - start <= 3,
            component == characters@.subrange(start as int, end as int),
            all_decimal_digits(characters@.subrange(start as int, index as int)),
            value == decimal_value(characters@.subrange(start as int, index as int)),
            value < pow10((index - start) as nat),
        decreases end - index,
    {
        let ghost before = characters@.subrange(start as int, index as int);
        let ghost after = characters@.subrange(start as int, index + 1);
        assert(after.drop_last() =~= before);
        let digit = match decimal_digit_of(characters[index]) {
            Some(digit) => digit,
            None => {
                proof {
                    assert(component[index - start] == characters@[index as int]);
                    assert(!all_decimal_digits(component));
                }
                return None;
            },
        };
        proof {
            assert(pow10((index - start) as nat) <= 100) by {
                reveal_with_fuel(pow10, 3);
            }
            assert(pow10((index + 1 - start) as nat) == 10 * pow10((index - start) as nat));
            assert forall|i: int| 0 <= i < after.len() implies #[trigger] is_decimal_digit(after[i]) by {
                if i < before.len() {
                    assert(after[i] == before[i]);
                }
            }
        }
        value = value * 10 + digit;
        index = index + 1;
    }
    assert(characters@.subrange(start as int, end as int) =~= component);
    if value > 255 {
        return None;
    }
    proof {
        if component.len() > 1 {
            assert(component[0] == characters@[start as int]);
        }
    }
    Some(value as u8)
}

/// Parses dotted-decimal IPv4 text (the `FromStr` grammar of `Ipv4Addr`).
pub fn parse_ipv4_address(text: &str) -> (address: Option<u32>)
    ensures
        address == parse_ipv4_text(text@),
{
    let characters = chars_of(text);
    let components = split_bounds(&characters, '.');
    let ghost pieces = split_on(text@, '.');
    if components.len() != 4 {
        return None;
    }
    let (start0, end0) = components[0];
    let (start1, end1) = components[1];
    let (start2, end2) = components[2];
    let (start3, end3) = components[3];
    proof {
        assert(delimits(characters@, components@[0], pieces[0]));
        assert(delimits(characters@, components@[1], pieces[1]));
        assert(delimits(characters@, components@[2], pieces[2]));
        assert(delimits(characters@, components@[3], pieces[3]));
    }
    let a = parse_ipv4_component(&characters, start0, end0);
    let b = parse_ipv4_component(&characters, start1, end1);
    let c = parse_ipv4_component(&characters, start2, end2);
    let d = parse_ipv4_component(&characters, start3, end3);
    match (a, b, c, d) {
        (Some(a), Some(b), Some(c), Some(d)) => Some(
            (a as u32) * 0x100_0000 + (b as u32) * 0x1_0000 + (c as u32) * 0x100 + (d as u32),
        ),
        _ => None,
    }
}

/// The decimal text of `n` is one or more digits, without a leading zero unless `n` is zero, of
/// value `n`, as long as `n` has decimal digits.
proof fn lemma_decimal_text_digits(n: nat)
    ensures
        all_decimal_digits(decimal_text(n)),
        decimal_value(decimal_text(n)) == n,
        decimal_text(n).len() >= 1,
        decimal_text(n)[0] == '0' ==> n == 0,
        n < 10 ==> decimal_text(n).len() == 1,
        n < 100 ==> decimal_text(n).len() <= 2,
        n < 1000 ==> decimal_text(n).len() <= 3,
    decreases n,
{
    if n < 10 {
        assert(decimal_text(n) =~= seq![decimal_digit(n)]);
        assert(decimal_text(n).drop_last() =~= Seq::<char>::empty());
        assert(((n + 48) as u32) as int == n + 48);
        assert(decimal_digit_value(decimal_digit(n)) == n);
        assert(decimal_value(Seq::<char>::empty()) == 0);
        assert(decimal_text(n).last() == decimal_digit(n));
        assert(decimal_value(decimal_text(n)) == decimal_value(decimal_text(n).drop_last()) * 10
            + decimal_digit_value(decimal_text(n).last()));
    } else {
        assert(decimal_digit_value(decimal_digit(n % 10)) == n % 10);
        lemma_decimal_text_digits(n / 10);
        let shorter = decimal_text(n / 10);
        let text = decimal_text(n);
        assert(text == shorter.push(decimal_digit(n % 10)));
        assert(text.drop_last() =~= shorter);
        assert(text[0] == shorter[0]);
        assert forall|i: int| 0 <= i < text.len() implies #[trigger] is_decimal_digit(text[i]) by {
            if i < shorter.len() {
                assert(text[i] == shorter[i]);
                assert(is_decimal_digit(shorter[i]));
            }
        }
        assert(n / 10 * 10 + n % 10 == n);
        assert(text.last() == decimal_digit(n % 10));
        assert(decimal_value(text) == decimal_value(text.drop_last()) * 10 + decimal_digit_value(
            text.last(),
        ));
    }
}

/// The decimal text of an octet is a well-formed dotted-decimal component of that value, and
/// holds no `.`.
proof fn lemma_octet_component(n: nat)
    requires
        n <= 255,
    ensures
        ipv4_component_value(decimal_text(n)) == Some(n as u8),
        !decimal_text(n).contains('.'),
{
    lemma_decimal_text_digits(n);
    let text = decimal_text(n);
    if text.contains('.') {
        let k = choose|k: int| 0 <= k < text.len() && text[k] == '.';
        assert(is_decimal_digit(text[k]));
    }
}

/// The four octets of an address make that address again.
proof fn lemma_octets_make_address(address: u32)
    ensures
        ipv4_from_octets(
            ipv4_octet(address, 0) as u8,
            ipv4_octet(address, 1) as u8,
            ipv4_octet(address, 2) as u8,
            ipv4_octet(address, 3) as u8,
        ) == address,
{
    let a = address;
    assert(a / 0x100_0000 * 0x100_0000 + (a / 0x1_0000) % 0x100 * 0x1_0000 + (a / 0x100) % 0x100
        * 0x100 + a % 0x100 == a) by (bit_vector);
}

/// Printing an address and parsing the text gives the address back: every address, each of its
/// octets from 0 to 255 included, prints as text the parser accepts
/// (`parse_ipv4_address(&ipv4_string(address)) == Some(address)`).
pub proof fn lemma_ipv4_text_round_trip(address: u32)
    ensures
        parse_ipv4_text(ipv4_text(address)) == Some(address),
{
    let p0 = decimal_text(ipv4_octet(address, 0));
    let p1 = decimal_text(ipv4_octet(address, 1));
    let p2 = decimal_text(ipv4_octet(address, 2));
    let p3 = decimal_text(ipv4_octet(address, 3));
    lemma_octet_component(ipv4_octet(address, 0));
    lemma_octet_component(ipv4_octet(address, 1));
    lemma_octet_component(ipv4_octet(address, 2));
    lemma_octet_component(ipv4_octet(address, 3));
    let t1 = p0 + seq!['.'] + p1;
    let t2 = t1 + seq!['.'] + p2;
    let t3 = t2 + seq!['.'] + p3;
    lemma_split_single_piece(p0, '.');
    lemma_split_append_piece(p0, p1, '.');
    lemma_split_append_piece(t1, p2, '.');
    lemma_split_append_piece(t2, p3, '.');
    assert(ipv4_text(address) =~= t3);
    assert(split_on(t3, '.') =~= seq![p0, p1, p2, p3]);
    lemma_octets_make_address(address);
}

} // verus!
