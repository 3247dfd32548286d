//! Ethernet media access control addresses: construction, classification, colon-separated
//! hexadecimal text in both directions.

use vstd::prelude::*;

use crate::text::{
    decimal_text, push_decimal, push_text,
    ascii_digit_char, chars_of, hex_digit_value, is_ascii_hex_digit, push_char, saturating_usize,
    split_bounds, split_on, delimits, utf8_length_of_range, utf8_octets, lemma_split_append_piece,
    lemma_split_single_piece,
    lemma_utf8_octets_push, lemma_encode_scalar_length, lemma_octets_at_least_characters,
};
use crate::mac_vendor_registry::ascii_uppercase;

verus! {

/// The address whose octets are `octets` (meaningful for six octets).
pub open spec fn mac_address_of(octets: Seq<u8>) -> MacAddress {
    choose|address: MacAddress| address@ == octets
}

/// A 48-bit Ethernet hardware address.
#[derive(Debug, Clone, Copy, Eq, Hash, PartialOrd, Ord)]
pub struct MacAddress([u8; 6]);

impl View for MacAddress {
    type V = Seq<u8>;

    closed spec fn view(&self) -> Seq<u8> {
        self.0@
    }
}

impl PartialEq for MacAddress {
    fn eq(&self, other: &Self) -> (equal: bool) {
        let a = self.0;
        let b = other.0;
        let equal = a[0] == b[0] && a[1] == b[1] && a[2] == b[2] && a[3] == b[3] && a[4] == b[4]
            && a[5] == b[5];
        proof {
            if equal {
                assert(self@ =~= other@);
            } else {
                assert(self@ != other@) by {
                    if self@ == other@ {
                        assert(a@[0] == self@[0] && b@[0] == other@[0]);
                    }
                }
            }
        }
        equal
    }
}

impl vstd::std_specs::cmp::PartialEqSpecImpl for MacAddress {
    open spec fn obeys_eq_spec() -> bool {
        true
    }

    open spec fn eq_spec(&self, other: &Self) -> bool {
        self@ == other@
    }
}

} // verus!


verus! {

/// The six octets of the broadcast address.
pub open spec fn broadcast_octets() -> Seq<u8> {
    seq![0xFFu8, 0xFFu8, 0xFFu8, 0xFFu8, 0xFFu8, 0xFFu8]
}

/// The six octets of the all-zero address.
pub open spec fn zero_octets() -> Seq<u8> {
    seq![0u8, 0u8, 0u8, 0u8, 0u8, 0u8]
}

/// Lowercase hexadecimal digit for a value below sixteen.
pub open spec fn lowercase_hex_digit(value: u8) -> char {
    if value < 10 {
        ((value as u32) + ('0' as u32)) as char
    } else {
        ((value as u32) - 10 + ('a' as u32)) as char
    }
}

/// Two lowercase hexadecimal digits for an octet.
pub open spec fn lowercase_hex_octet(octet: u8) -> Seq<char> {
    seq![lowercase_hex_digit(octet / 16), lowercase_hex_digit(octet % 16)]
}

/// `aa:bb:cc:dd:ee:ff` text of six octets.
pub open spec fn colon_hex_text(octets: Seq<u8>) -> Seq<char> {
    lowercase_hex_octet(octets[0]) + seq![':'] + lowercase_hex_octet(octets[1]) + seq![':']
        + lowercase_hex_octet(octets[2]) + seq![':'] + lowercase_hex_octet(octets[3]) + seq![':']
        + lowercase_hex_octet(octets[4]) + seq![':'] + lowercase_hex_octet(octets[5])
}

/// Describes why a string could not be parsed as a [`MacAddress`].
#[derive(Debug, Clone, PartialEq, Eq)]
pub enum MacAddressParseError {
    /// The string did not contain exactly six colon-separated components.
    WrongComponentCount {
        /// Number of components expected (always six for Ethernet).
        expected_component_count: usize,
        /// Number of components observed after splitting on `:`.
        actual_component_count: usize,
    },
    /// A single component was not exactly two hexadecimal digits.
    ComponentWrongLength {
        /// Zero-based index of the offending component.
        component_index: usize,
        /// Observed component length in octets.
        observed_length: usize,
    },
    /// A character in a component was not valid hexadecimal.
    InvalidHexadecimalDigit {
        /// Zero-based index of the component containing the bad character.
        component_index: usize,
        /// The offending character.
        character: char,
    },
}

/// The operator-facing text of a parse error.
pub open spec fn mac_address_parse_error_text(error: MacAddressParseError) -> Seq<char> {
    match error {
        MacAddressParseError::WrongComponentCount { expected_component_count, actual_component_count } =>
            "expected "@ + decimal_text(expected_component_count as nat)
            + " colon-separated components, got "@ + decimal_text(actual_component_count as nat),
        MacAddressParseError::ComponentWrongLength { component_index, observed_length } =>
            "component at index "@ + decimal_text(component_index as nat)
            + " must be exactly two hexadecimal digits, got length "@ + decimal_text(
            observed_length as nat,
        ),
        MacAddressParseError::InvalidHexadecimalDigit { component_index, character } =>
            "invalid hexadecimal digit `"@ + seq![character] + "` in component at index "@
            + decimal_text(component_index as nat),
    }
}

impl MacAddressParseError {
    /// Formats the error for operators (the text `Display` would print).
    pub fn to_string(&self) -> (text: String)
        ensures
            text@ == mac_address_parse_error_text(*self),
    {
        let mut text = String::new();
        match self {
            MacAddressParseError::WrongComponentCount {
                expected_component_count,
                actual_component_count,
            } => {
                push_text(&mut text, "expected ");
                push_decimal(&mut text, *expected_component_count as u128);
                push_text(&mut text, " colon-separated components, got ");
                push_decimal(&mut text, *actual_component_count as u128);
            },
            MacAddressParseError::ComponentWrongLength { component_index, observed_length } => {
                push_text(&mut text, "component at index ");
                push_decimal(&mut text, *component_index as u128);
                push_text(&mut text, " must be exactly two hexadecimal digits, got length ");
                push_decimal(&mut text, *observed_length as u128);
            },
            MacAddressParseError::InvalidHexadecimalDigit { component_index, character } => {
                push_text(&mut text, "invalid hexadecimal digit `");
                push_char(&mut text, *character);
                push_text(&mut text, "` in component at index ");
                push_decimal(&mut text, *component_index as u128);
            },
        }
        assert(text@ =~= mac_address_parse_error_text(*self));
        text
    }
}

/// The first problem in components `index..6` of a colon-split address, if any.
pub open spec fn first_component_problem(components: Seq<Seq<char>>, index: int) -> Option<
    MacAddressParseError,
>
    decreases 6 - index,
{
    if index < 0 || index >= 6 {
        None
    } else {
        let octets = utf8_octets(components[index]);
        if octets.len() != 2 {
            Some(
                MacAddressParseError::ComponentWrongLength {
                    component_index: index as usize,
                    observed_length: saturating_usize(octets.len()),
                },
            )
        } else if !is_ascii_hex_digit(octets[0] as char) {
            Some(
                MacAddressParseError::InvalidHexadecimalDigit {
                    component_index: index as usize,
                    character: octets[0] as char,
                },
            )
        } else if !is_ascii_hex_digit(octets[1] as char) {
            Some(
                MacAddressParseError::InvalidHexadecimalDigit {
                    component_index: index as usize,
                    character: octets[1] as char,
                },
            )
        } else {
            first_component_problem(components, index + 1)
        }
    }
}

/// The octet that a well-formed two-digit component denotes.
pub open spec fn component_octet(component: Seq<char>) -> u8 {
    let octets = utf8_octets(component);
    (hex_digit_value(octets[0] as char) * 16 + hex_digit_value(octets[1] as char)) as u8
}

/// The result of parsing colon-separated hexadecimal text as six octets.
pub open spec fn parse_colon_hex(text: Seq<char>) -> Result<Seq<u8>, MacAddressParseError> {
    let components = split_on(text, ':');
    if components.len() != 6 {
        Err(
            MacAddressParseError::WrongComponentCount {
                expected_component_count: 6,
                actual_component_count: components.len() as usize,
            },
        )
    } else {
        match first_component_problem(components, 0) {
            Some(problem) => Err(problem),
            None => Ok(Seq::new(6, |i: int| component_octet(components[i]))),
        }
    }
}

} // verus!

verus! {

fn hexadecimal_digit_value(c: char) -> (value: Option<u8>)
    ensures
        value is Some <==> is_ascii_hex_digit(c),
        value matches Some(v) ==> v == hex_digit_value(c) && v < 16,
{
    if '0' <= c && c <= '9' {
        Some(((c as u32) - ('0' as u32)) as u8)
    } else if 'a' <= c && c <= 'f' {
        Some(((c as u32) - ('a' as u32) + 10) as u8)
    } else if 'A' <= c && c <= 'F' {
        Some(((c as u32) - ('A' as u32) + 10) as u8)
    } else {
        None
    }
}

/// The two octets of a two-octet UTF-8 text, each read as a character.
fn two_octet_characters(characters: &Vec<char>, low: usize, high: usize) -> (pair: (char, char))
    requires
        low <= high <= characters@.len(),
        utf8_octets(characters@.subrange(low as int, high as int)).len() == 2,
    ensures
        pair.0 == utf8_octets(characters@.subrange(low as int, high as int))[0] as char,
        pair.1 == utf8_octets(characters@.subrange(low as int, high as int))[1] as char,
{
    let ghost s = characters@.subrange(low as int, high as int);
    proof {
        lemma_octets_at_least_characters(s);
    }
    if high - low == 2 {
        let first = characters[low];
        let second = characters[low + 1];
        proof {
            let one = s.drop_last();
            assert(s =~= one.push(second));
            assert(one =~= Seq::<char>::empty().push(first));
            lemma_utf8_octets_push(one, second);
            lemma_utf8_octets_push(Seq::<char>::empty(), first);
            lemma_encode_scalar_length(first);
            lemma_encode_scalar_length(second);
            vstd::utf8::char_u32_cast(first, first as u32);
            vstd::utf8::char_u32_cast(second, second as u32);
            assert(utf8_octets(Seq::<char>::empty()) =~= Seq::<u8>::empty());
        }
        (first, second)
    } else {
        let only = characters[low];
        let leading: u8 = (0xC0u32 | (((only as u32) >> 6) & 0x1F)) as u8;
        proof {
            assert(s =~= Seq::<char>::empty().push(only));
            lemma_utf8_octets_push(Seq::<char>::empty(), only);
            lemma_encode_scalar_length(only);
            assert(utf8_octets(Seq::<char>::empty()) =~= Seq::<u8>::empty());
            let v = only as u32;
            assert(0xC0u8 | ((v >> 6) & 0x1F) as u8 == (0xC0u32 | ((v >> 6) & 0x1F)) as u8)
                by (bit_vector);
        }
        let continuation: u8 = (0x80u32 | ((only as u32) & 0x3F)) as u8;
        proof {
            let v = only as u32;
            assert(0x80u8 | (v & 0x3F) as u8 == (0x80u32 | (v & 0x3F)) as u8) by (bit_vector);
        }
        (leading as char, continuation as char)
    }
}

fn push_lowercase_hex_octet(text: &mut String, octet: u8)
    ensures
        final(text)@ == old(text)@ + lowercase_hex_octet(octet),
{
    push_char(text, ascii_digit_char(octet / 16));
    push_char(text, ascii_digit_char(octet % 16));
    assert(final(text)@ =~= old(text)@ + lowercase_hex_octet(octet));
}

impl MacAddress {
    /// The broadcast destination address (all ones).
    pub fn broadcast() -> (address: MacAddress)
        ensures
            address@ == broadcast_octets(),
    {
        let address = MacAddress([0xFF, 0xFF, 0xFF, 0xFF, 0xFF, 0xFF]);
        assert(address@ =~= broadcast_octets());
        address
    }

    /// The all-zero address (for example the target hardware of an address resolution request).
    pub fn zero() -> (address: MacAddress)
        ensures
            address@ == zero_octets(),
    {
        let address = MacAddress([0, 0, 0, 0, 0, 0]);
        assert(address@ =~= zero_octets());
        address
    }

    /// Wraps six octets as an address.
    pub fn from_octets(octets: [u8; 6]) -> (address: MacAddress)
        ensures
            address@ == octets@,
    {
        MacAddress(octets)
    }

    /// Converts raw octets into an address (same as [`MacAddress::from_octets`]).
    pub fn from(octets: [u8; 6]) -> (address: MacAddress)
        ensures
            address@ == octets@,
    {
        MacAddress(octets)
    }

    /// Returns the six octets of this address.
    pub fn octets(self) -> (octets: [u8; 6])
        ensures
            octets@ == self@,
    {
        self.0
    }

    /// Every address has six octets.
    pub proof fn lemma_six_octets(self)
        ensures
            self@.len() == 6,
    {
    }

    /// Six octets are the octets of the address [`mac_address_of`] names.
    pub proof fn lemma_mac_address_of(octets: Seq<u8>)
        requires
            octets.len() == 6,
        ensures
            mac_address_of(octets)@ == octets,
    {
        let address = MacAddress([octets[0], octets[1], octets[2], octets[3], octets[4], octets[5]]);
        assert(address@ =~= octets);
    }

    /// Two addresses with the same octets are the same address.
    pub proof fn lemma_view_injective(self, other: MacAddress)
        requires
            self@ == other@,
        ensures
            self == other,
    {
        broadcast use vstd::array::axiom_array_ext_equal;

        assert forall|i: int| 0 <= i < 6 implies self.0[i] == other.0[i] by {
            assert(self.0@[i] == other.0@[i]);
        }
        assert(self.0 =~= other.0);
    }

    /// Returns `true` when this address is the Ethernet broadcast address.
    pub fn is_broadcast(self) -> (result: bool)
        ensures
            result == (self@ == broadcast_octets()),
    {
        let o = self.0;
        let result = o[0] == 0xFF && o[1] == 0xFF && o[2] == 0xFF && o[3] == 0xFF && o[4] == 0xFF
            && o[5] == 0xFF;
        if result {
            assert(self@ =~= broadcast_octets());
        } else {
            assert(self@ != broadcast_octets()) by {
                if self@ == broadcast_octets() {
                    assert(o@[0] == self@[0]);
                }
            }
        }
        result
    }

    /// Returns `true` when every octet is zero.
    pub fn is_zero(self) -> (result: bool)
        ensures
            result == (self@ == zero_octets()),
    {
        let o = self.0;
        let result = o[0] == 0 && o[1] == 0 && o[2] == 0 && o[3] == 0 && o[4] == 0 && o[5] == 0;
        if result {
            assert(self@ =~= zero_octets());
        }
        result
    }

    /// Lowercase colon-separated hexadecimal text (`00:1a:2b:3c:4d:5e`).
    pub fn to_string(&self) -> (text: String)
        ensures
            text@ == colon_hex_text(self@),
    {
        let o = self.0;
        let mut text = String::new();
        push_lowercase_hex_octet(&mut text, o[0]);
        push_char(&mut text, ':');
        push_lowercase_hex_octet(&mut text, o[1]);
        push_char(&mut text, ':');
        push_lowercase_hex_octet(&mut text, o[2]);
        push_char(&mut text, ':');
        push_lowercase_hex_octet(&mut text, o[3]);
        push_char(&mut text, ':');
        push_lowercase_hex_octet(&mut text, o[4]);
        push_char(&mut text, ':');
        push_lowercase_hex_octet(&mut text, o[5]);
        assert(text@ =~= colon_hex_text(self@));
        text
    }

    /// Parses colon-separated Ethernet address text: exactly six `:`-separated components of two
    /// hexadecimal digits each, in either letter case.
    pub fn try_from(text: &str) -> (outcome: Result<MacAddress, MacAddressParseError>)
        ensures
            match parse_colon_hex(text@) {
                Ok(octets) => outcome matches Ok(address) && address@ == octets,
                Err(problem) => outcome == Err::<MacAddress, MacAddressParseError>(problem),
            },
    {
        let characters = chars_of(text);
        let components = split_bounds(&characters, ':');
        let ghost pieces = split_on(text@, ':');
        if components.len() != 6 {
            return Err(
                MacAddressParseError::WrongComponentCount {
                    expected_component_count: 6,
                    actual_component_count: components.len(),
                },
            );
        }
        let mut octets = [0u8; 6];
        let mut component_index: usize = 0;
        while component_index < 6
            invariant
                components@.len() == 6,
                pieces == split_on(characters@, ':'),
                pieces.len() == 6,
                characters@ == text@,
                0 <= component_index <= 6,
                forall|i: int| 0 <= i < 6 ==> delimits(characters@, #[trigger] components@[i], pieces[i]),
                first_component_problem(pieces, 0) == first_component_problem(
                    pieces,
                    component_index as int,
                ),
                forall|i: int|
                    0 <= i < component_index ==> octets@[i] == #[trigger] component_octet(
                        pieces[i],
                    ),
            decreases 6 - component_index,
        {
            let (low, high) = components[component_index];
            assert(characters@.subrange(low as int, high as int) == pieces[component_index as int]);
            let length = utf8_length_of_range(&characters, low, high);
            if length != 2 {
                return Err(
                    MacAddressParseError::ComponentWrongLength {
                        component_index,
                        observed_length: length,
                    },
                );
            }
            let (high_digit, low_digit) = two_octet_characters(&characters, low, high);
            let high_value = match hexadecimal_digit_value(high_digit) {
                Some(value) => value,
                None => {
                    return Err(
                        MacAddressParseError::InvalidHexadecimalDigit {
                            component_index,
                            character: high_digit,
                        },
                    );
                },
            };
            let low_value = match hexadecimal_digit_value(low_digit) {
                Some(value) => value,
                None => {
                    return Err(
                        MacAddressParseError::InvalidHexadecimalDigit {
                            component_index,
                            character: low_digit,
                        },
                    );
                },
            };
            octets[component_index] = high_value * 16 + low_value;
            component_index = component_index + 1;
        }
        let address = MacAddress(octets);
        assert(address@ =~= Seq::new(6, |i: int| component_octet(pieces[i])));
        Ok(address)
    }
}

/// `text` with every ASCII lowercase letter raised to uppercase (`str::to_uppercase` on the
/// ASCII text an address prints as).
pub open spec fn ascii_uppercase_text(text: Seq<char>) -> Seq<char> {
    text.map_values(|c: char| ascii_uppercase(c))
}

/// Two hexadecimal digits spelling `octet`, high digit first, in either letter case.
pub open spec fn spells_octet(pair: Seq<char>, octet: u8) -> bool {
    &&& pair.len() == 2
    &&& is_ascii_hex_digit(pair[0])
    &&& is_ascii_hex_digit(pair[1])
    &&& hex_digit_value(pair[0]) * 16 + hex_digit_value(pair[1]) == octet
}

/// A two-digit component parses as the octet it spells.
proof fn lemma_pair_parses(pair: Seq<char>, octet: u8)
    requires
        spells_octet(pair, octet),
    ensures
        !pair.contains(':'),
        utf8_octets(pair).len() == 2,
        utf8_octets(pair)[0] as char == pair[0],
        utf8_octets(pair)[1] as char == pair[1],
        component_octet(pair) == octet,
{
    assert(pair =~= Seq::<char>::empty().push(pair[0]).push(pair[1]));
    lemma_utf8_octets_push(Seq::<char>::empty().push(pair[0]), pair[1]);
    lemma_utf8_octets_push(Seq::<char>::empty(), pair[0]);
    lemma_encode_scalar_length(pair[0]);
    lemma_encode_scalar_length(pair[1]);
    assert(utf8_octets(Seq::<char>::empty()) =~= Seq::<u8>::empty());
    assert(utf8_octets(pair) =~= seq![(pair[0] as u32) as u8, (pair[1] as u32) as u8]);
    if pair.contains(':') {
        let k = choose|k: int| 0 <= k < pair.len() && pair[k] == ':';
        assert(k == 0 || k == 1);
    }
}

/// Six two-digit components joined by colons parse as the six octets they spell.
proof fn lemma_parse_spelled_octets(pairs: Seq<Seq<char>>, octets: Seq<u8>)
    requires
        pairs.len() == 6,
        octets.len() == 6,
        forall|i: int| 0 <= i < 6 ==> #[trigger] spells_octet(pairs[i], octets[i]),
    ensures
        parse_colon_hex(colon_joined(pairs)) == Ok::<Seq<u8>, MacAddressParseError>(octets),
{
    assert(spells_octet(pairs[0], octets[0]));
    assert(spells_octet(pairs[1], octets[1]));
    assert(spells_octet(pairs[2], octets[2]));
    assert(spells_octet(pairs[3], octets[3]));
    assert(spells_octet(pairs[4], octets[4]));
    assert(spells_octet(pairs[5], octets[5]));
    lemma_pair_parses(pairs[0], octets[0]);
    lemma_pair_parses(pairs[1], octets[1]);
    lemma_pair_parses(pairs[2], octets[2]);
    lemma_pair_parses(pairs[3], octets[3]);
    lemma_pair_parses(pairs[4], octets[4]);
    lemma_pair_parses(pairs[5], octets[5]);
    let t0 = pairs[0];
    let t1 = t0 + seq![':'] + pairs[1];
    let t2 = t1 + seq![':'] + pairs[2];
    let t3 = t2 + seq![':'] + pairs[3];
    let t4 = t3 + seq![':'] + pairs[4];
    let t5 = t4 + seq![':'] + pairs[5];
    lemma_split_single_piece(t0, ':');
    lemma_split_append_piece(t0, pairs[1], ':');
    lemma_split_append_piece(t1, pairs[2], ':');
    lemma_split_append_piece(t2, pairs[3], ':');
    lemma_split_append_piece(t3, pairs[4], ':');
    lemma_split_append_piece(t4, pairs[5], ':');
    assert(t5 =~= colon_joined(pairs));
    let components = split_on(t5, ':');
    assert(components =~= pairs);
    assert(first_component_problem(components, 6) is None);
    assert(first_component_problem(components, 5) is None);
    assert(first_component_problem(components, 4) is None);
    assert(first_component_problem(components, 3) is None);
    assert(first_component_problem(components, 2) is None);
    assert(first_component_problem(components, 1) is None);
    assert(first_component_problem(components, 0) is None);
    assert(Seq::new(6, |i: int| component_octet(components[i])) =~= octets);
}

/// The lowercase hexadecimal digit for `value` is a digit with that value.
proof fn lemma_lowercase_hex_digit(value: u8)
    requires
        value < 16,
    ensures
        is_ascii_hex_digit(lowercase_hex_digit(value)),
        hex_digit_value(lowercase_hex_digit(value)) == value,
        is_ascii_hex_digit(ascii_uppercase(lowercase_hex_digit(value))),
        hex_digit_value(ascii_uppercase(lowercase_hex_digit(value))) == value,
{
}

/// Six pieces joined by colons.
pub open spec fn colon_joined(pieces: Seq<Seq<char>>) -> Seq<char> {
    pieces[0] + seq![':'] + pieces[1] + seq![':'] + pieces[2] + seq![':'] + pieces[3] + seq![':']
        + pieces[4] + seq![':'] + pieces[5]
}

/// The lowercase digit pair of each of six octets.
pub open spec fn lowercase_pairs(o: Seq<u8>) -> Seq<Seq<char>> {
    Seq::new(6, |j: int| lowercase_hex_octet(o[j]))
}

/// The uppercase digit pair of each of six octets.
pub open spec fn uppercase_pairs(o: Seq<u8>) -> Seq<Seq<char>> {
    Seq::new(6, |j: int| ascii_uppercase_text(lowercase_hex_octet(o[j])))
}

/// The lowercase digit pairs of six octets, and their uppercase forms, spell those octets.
proof fn lemma_hex_pairs_spell(o: Seq<u8>)
    requires
        o.len() == 6,
    ensures
        forall|i: int|
            0 <= i < 6 ==> #[trigger] spells_octet(
                lowercase_pairs(o)[i],
                o[i],
            ),
        forall|i: int|
            0 <= i < 6 ==> #[trigger] spells_octet(
                uppercase_pairs(o)[i],
                o[i],
            ),
{
    assert forall|i: int| 0 <= i < 6 implies #[trigger] spells_octet(
        lowercase_pairs(o)[i],
        o[i],
    ) by {
        lemma_lowercase_hex_digit(o[i] / 16);
        lemma_lowercase_hex_digit(o[i] % 16);
    }
    assert forall|i: int| 0 <= i < 6 implies #[trigger] spells_octet(
        uppercase_pairs(o)[i],
        o[i],
    ) by {
        lemma_lowercase_hex_digit(o[i] / 16);
        lemma_lowercase_hex_digit(o[i] % 16);
        let pair = ascii_uppercase_text(lowercase_hex_octet(o[i]));
        assert(pair[0] == ascii_uppercase(lowercase_hex_digit(o[i] / 16)));
        assert(pair[1] == ascii_uppercase(lowercase_hex_digit(o[i] % 16)));
    }
}

/// The text of six octets, and its uppercase form, are their digit pairs joined by colons.
proof fn lemma_colon_hex_text_shape(o: Seq<u8>)
    requires
        o.len() == 6,
    ensures
        colon_hex_text(o) == colon_joined(lowercase_pairs(o)),
        ascii_uppercase_text(colon_hex_text(o)) == colon_joined(
            uppercase_pairs(o),
        ),
{
    let lower = lowercase_pairs(o);
    let upper = uppercase_pairs(o);
    assert(colon_hex_text(o) =~= colon_joined(lower));
    let text = colon_hex_text(o);
    let joined = colon_joined(upper);
    assert(text.len() == 17);
    assert forall|k: int| 0 <= k < 17 implies ascii_uppercase_text(text)[k] == joined[k] by {
        assert(text[k] == colon_joined(lower)[k]);
    }
    assert(ascii_uppercase_text(text) =~= joined);
}

/// The text of an address parses back to that address, and so does the same text in upper case:
/// `MacAddress::try_from(&address.to_string())` and `MacAddress::try_from` of its uppercase form
/// both give `address`.
pub proof fn lemma_text_round_trip(address: MacAddress)
    ensures
        parse_colon_hex(colon_hex_text(address@)) == Ok::<Seq<u8>, MacAddressParseError>(address@),
        parse_colon_hex(ascii_uppercase_text(colon_hex_text(address@))) == Ok::<
            Seq<u8>,
            MacAddressParseError,
        >(address@),
{
    address.lemma_six_octets();
    let o = address@;
    let lower = lowercase_pairs(o);
    let upper = uppercase_pairs(o);
    lemma_hex_pairs_spell(o);
    lemma_colon_hex_text_shape(o);
    lemma_parse_spelled_octets(lower, o);
    lemma_parse_spelled_octets(upper, o);
}

} // verus!
