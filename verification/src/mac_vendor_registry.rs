//! IEEE MA-L / MA-M / MA-S (and IAB) MAC prefix to vendor mapping.
//!
//! The text format matches `arp-scan`'s `ieee-oui.txt`: one mapping per line as
//! `<hex-prefix><TAB><vendor>`. Blank lines and `#` comments are ignored. Prefixes may be any
//! number of hexadecimal digits from 2 through 12 (one octet through a full 48-bit address).
//! IEEE MA-L assignments are 6 digits (24 bits), MA-M assignments are 7 digits (28 bits), and
//! MA-S (OUI-36) assignments are 9 digits (36 bits). Lookup uses longest-prefix match, so a MA-S
//! row wins over an overlapping MA-L row.

use vstd::prelude::*;
use vstd::hash_map::StringHashMap;

use crate::mac_address::MacAddress;
use crate::text::{
    chars_of, decimal_text, push_char, push_decimal, push_text, split_bounds, split_on, delimits,
    string_from_range, trim_unicode, trimmed_bounds, is_ascii_hex_digit,
};

verus! {

/// Displayed when a registry is loaded but no prefix matches the address.
pub const UNKNOWN_MAC_VENDOR_NAME: &'static str = "(Unknown)";

/// Default mapping file name searched in the current directory, matching `arp-scan`.
pub const DEFAULT_MAC_VENDOR_FILE_NAME: &'static str = "ieee-oui.txt";

/// Longest-prefix IEEE MAC registry used to annotate scan results with a vendor name.
pub struct MacVendorRegistry {
    /// Uppercase hexadecimal prefix (2..=12 digits) to vendor name.
    prefixes: StringHashMap<String>,
}

/// Why a MAC vendor mapping text could not be parsed.
#[derive(Debug, Clone, PartialEq, Eq)]
pub enum MacVendorRegistryParseError {
    /// A non-comment line did not contain a tab-separated prefix and vendor.
    LineMissingTab {
        /// 1-based line number in the mapping text.
        line_number: usize,
    },
    /// The prefix was shorter than 2 or longer than 12 hexadecimal digits, held a character that
    /// is neither a hexadecimal digit nor a separator (`:`, `-`, `.`), or the vendor was empty.
    InvalidPrefix {
        /// 1-based line number in the mapping text.
        line_number: usize,
        /// Prefix text after dropping its separators, uppercased.
        prefix: String,
    },
}

/// `c` with ASCII lowercase letters raised to uppercase (`char::to_ascii_uppercase`).
pub open spec fn ascii_uppercase(c: char) -> char {
    if 'a' <= c && c <= 'z' {
        ((c as u32) - 32) as char
    } else {
        c
    }
}

/// A character a prefix field may carry between its digits: `:`, `-` or `.`.
pub open spec fn is_prefix_separator(c: char) -> bool {
    c == ':' || c == '-' || c == '.'
}

/// The characters of `field` with its separators dropped, in order and uppercased.
pub open spec fn normalized_prefix(field: Seq<char>) -> Seq<char>
    decreases field.len(),
{
    if field.len() == 0 {
        Seq::empty()
    } else if is_prefix_separator(field.last()) {
        normalized_prefix(field.drop_last())
    } else {
        normalized_prefix(field.drop_last()).push(ascii_uppercase(field.last()))
    }
}

/// Every character of `s` is a hexadecimal digit.
pub open spec fn all_hex_digits(s: Seq<char>) -> bool {
    forall|i: int| 0 <= i < s.len() ==> #[trigger] is_ascii_hex_digit(s[i])
}

/// The position of the first `c` in `s`.
pub open spec fn first_position(s: Seq<char>, c: char) -> Option<nat>
    decreases s.len(),
{
    if s.len() == 0 {
        None
    } else if s[0] == c {
        Some(0)
    } else {
        match first_position(s.drop_first(), c) {
            Some(position) => Some(position + 1),
            None => None,
        }
    }
}

/// What one line of mapping text contributes.
pub enum RegistryLine {
    /// A blank or comment line.
    Skipped,
    /// A line with no tab.
    MissingTab,
    /// A line whose prefix or vendor is unusable, with the normalized prefix.
    InvalidPrefix(Seq<char>),
    /// A mapping from a normalized prefix to a vendor name.
    Mapping(Seq<char>, Seq<char>),
}

/// How the parser reads one line of mapping text: trimmed; blank or `#` lines skipped;
/// otherwise split at the first tab into a prefix (separators dropped, uppercased, 2 to 12
/// hexadecimal digits) and a vendor name (trimmed, not empty).
pub open spec fn registry_line(line: Seq<char>) -> RegistryLine {
    let trimmed = trim_unicode(line);
    if trimmed.len() == 0 || trimmed[0] == '#' {
        RegistryLine::Skipped
    } else {
        match first_position(trimmed, '\t') {
            None => RegistryLine::MissingTab,
            Some(tab) => {
                let prefix = normalized_prefix(trimmed.subrange(0, tab as int));
                let vendor = trim_unicode(trimmed.subrange(tab as int + 1, trimmed.len() as int));
                if prefix.len() < 2 || prefix.len() > 12 || !all_hex_digits(prefix) || vendor.len()
                    == 0 {
                    RegistryLine::InvalidPrefix(prefix)
                } else {
                    RegistryLine::Mapping(prefix, vendor)
                }
            },
        }
    }
}

/// The mappings of the first `count` lines, or the 1-based number of the first line that does
/// not parse with the prefix it was rejected for (`None` for a missing tab). A later line for the
/// same prefix replaces an earlier one.
pub open spec fn registry_after_lines(lines: Seq<Seq<char>>, count: nat) -> Result<
    Map<Seq<char>, Seq<char>>,
    (nat, Option<Seq<char>>),
>
    decreases count,
{
    if count == 0 {
        Ok(Map::empty())
    } else {
        match registry_after_lines(lines, (count - 1) as nat) {
            Err(problem) => Err(problem),
            Ok(mappings) => match registry_line(lines[count - 1]) {
                RegistryLine::Skipped => Ok(mappings),
                RegistryLine::MissingTab => Err((count, None)),
                RegistryLine::InvalidPrefix(prefix) => Err((count, Some(prefix))),
                RegistryLine::Mapping(prefix, vendor) => Ok(mappings.insert(prefix, vendor)),
            },
        }
    }
}

proof fn lemma_first_position(s: Seq<char>, c: char)
    ensures
        first_position(s, c) matches Some(p) ==> p < s.len() && s[p as int] == c && forall|i: int|
            0 <= i < p ==> s[i] != c,
        first_position(s, c) is None ==> forall|i: int| 0 <= i < s.len() ==> s[i] != c,
    decreases s.len(),
{
    if s.len() > 0 {
        lemma_first_position(s.drop_first(), c);
        if s[0] != c {
            assert forall|i: int| 1 <= i < s.len() implies s[i] == s.drop_first()[i - 1] by {}
        }
    }
}

/// Once a line fails to parse, the outcome of every longer prefix of the text is that failure.
proof fn lemma_registry_failure_persists(lines: Seq<Seq<char>>, count: nat, later: nat)
    requires
        count <= later,
        registry_after_lines(lines, count) is Err,
    ensures
        registry_after_lines(lines, later) == registry_after_lines(lines, count),
    decreases later,
{
    if later > count {
        lemma_registry_failure_persists(lines, count, (later - 1) as nat);
    }
}

/// What the parser makes of a whole mapping text, read line by line.
pub open spec fn parse_registry_text(text: Seq<char>) -> Result<
    Map<Seq<char>, Seq<char>>,
    (nat, Option<Seq<char>>),
> {
    let lines = split_on(text, '\n');
    registry_after_lines(lines, lines.len())
}

/// The vendor names of a prefix table, as text.
pub open spec fn vendor_texts(prefixes: Map<Seq<char>, String>) -> Map<Seq<char>, Seq<char>> {
    prefixes.map_values(|vendor: String| vendor@)
}

impl MacVendorRegistry {
    /// The prefix table: normalized uppercase prefix to vendor name.
    pub closed spec fn mappings(&self) -> Map<Seq<char>, Seq<char>> {
        vendor_texts(self.prefixes@)
    }
}

/// The parse outcome of `text` is `outcome`.
pub open spec fn registry_outcome_matches(
    text: Seq<char>,
    outcome: Result<MacVendorRegistry, MacVendorRegistryParseError>,
) -> bool {
    match parse_registry_text(text) {
        Ok(mappings) => outcome matches Ok(registry) && registry.mappings() == mappings,
        Err((line_number, None)) => outcome == Err::<
            MacVendorRegistry,
            MacVendorRegistryParseError,
        >(MacVendorRegistryParseError::LineMissingTab { line_number: line_number as usize }),
        Err((line_number, Some(prefix))) => outcome matches Err(
            MacVendorRegistryParseError::InvalidPrefix { line_number: n, prefix: p },
        ) && n == line_number && p@ == prefix,
    }
}

fn ascii_uppercase_char(c: char) -> (upper: char)
    ensures
        upper == ascii_uppercase(c),
{
    if 'a' <= c && c <= 'z' {
        ((c as u8) - 32) as char
    } else {
        c
    }
}

fn is_hexadecimal_digit(c: char) -> (hexadecimal: bool)
    ensures
        hexadecimal == is_ascii_hex_digit(c),
{
    ('0' <= c && c <= '9') || ('a' <= c && c <= 'f') || ('A' <= c && c <= 'F')
}

/// The normalized prefix of `characters[start..end]`, and whether it holds only hexadecimal
/// digits.
fn normalize_hexadecimal_prefix(characters: &Vec<char>, start: usize, end: usize) -> (normalized: (
    String,
    bool,
))
    requires
        start <= end <= characters@.len(),
    ensures
        normalized.0@ == normalized_prefix(characters@.subrange(start as int, end as int)),
        normalized.1 == all_hex_digits(normalized.0@),
{
    let mut prefix = String::new();
    let mut hexadecimal = true;
    let mut index = start;
    assert(characters@.subrange(start as int, start as int) =~= Seq::<char>::empty());
    while index < end
        invariant
            start <= index <= end <= characters@.len(),
            prefix@ == normalized_prefix(characters@.subrange(start as int, index as int)),
            hexadecimal == all_hex_digits(prefix@),
        decreases end - index,
    {
        let c = characters[index];
        proof {
            let after = characters@.subrange(start as int, index + 1);
            assert(after.drop_last() =~= characters@.subrange(start as int, index as int));
            assert(after.last() == c);
        }
        if !(c == ':' || c == '-' || c == '.') {
            let upper = ascii_uppercase_char(c);
            let ghost before = prefix@;
            let digit = is_hexadecimal_digit(upper);
            push_char(&mut prefix, upper);
            proof {
                assert(prefix@ == before.push(upper));
                if hexadecimal && digit {
                    assert forall|i: int| 0 <= i < prefix@.len() implies #[trigger] is_ascii_hex_digit(
                        prefix@[i],
                    ) by {
                        if i < before.len() {
                            assert(prefix@[i] == before[i]);
                        }
                    }
                } else if !digit {
                    assert(!is_ascii_hex_digit(prefix@[prefix@.len() - 1]));
                } else {
                    let k = choose|k: int| 0 <= k < before.len() && !is_ascii_hex_digit(before[k]);
                    assert(prefix@[k] == before[k]);
                }
            }
            hexadecimal = hexadecimal && digit;
        }
        index = index + 1;
    }
    (prefix, hexadecimal)
}

/// Position of the first `c` in `characters[start..end]`, counted from `start`.
fn find_first(characters: &Vec<char>, start: usize, end: usize, c: char) -> (position: Option<usize>)
    requires
        start <= end <= characters@.len(),
    ensures
        match first_position(characters@.subrange(start as int, end as int), c) {
            Some(p) => position == Some((start + p) as usize),
            None => position is None,
        },
    decreases end - start,
{
    if start == end {
        return None;
    }
    let ghost s = characters@.subrange(start as int, end as int);
    assert(s.drop_first() =~= characters@.subrange(start + 1, end as int));
    if characters[start] == c {
        return Some(start);
    }
    find_first(characters, start + 1, end, c)
}

/// How line `characters[start..end]` is read.
fn read_registry_line(characters: &Vec<char>, start: usize, end: usize) -> (line: Option<
    Result<(String, String), Option<String>>,
>)
    requires
        start <= end <= characters@.len(),
    ensures
        match registry_line(characters@.subrange(start as int, end as int)) {
            RegistryLine::Skipped => line is None,
            RegistryLine::MissingTab => line == Some(Err::<(String, String), Option<String>>(None)),
            RegistryLine::InvalidPrefix(prefix) => line matches Some(Err(Some(p))) && p@ == prefix,
            RegistryLine::Mapping(prefix, vendor) => line matches Some(Ok((p, v))) && p@ == prefix
                && v@ == vendor,
        },
{
    let (low, high) = trimmed_bounds(characters, start, end, false);
    let ghost trimmed = characters@.subrange(low as int, high as int);
    if low == high || characters[low] == '#' {
        return None;
    }
    proof {
        lemma_first_position(trimmed, '\t');
    }
    let tab = match find_first(characters, low, high, '\t') {
        Some(tab) => tab,
        None => {
            return Some(Err(None));
        },
    };
    assert(characters@.subrange(low as int, tab as int) =~= trimmed.subrange(0, tab - low));
    assert(characters@.subrange(tab + 1, high as int) =~= trimmed.subrange(
        tab - low + 1,
        trimmed.len() as int,
    ));
    let (prefix, hexadecimal) = normalize_hexadecimal_prefix(characters, low, tab);
    let (vendor_low, vendor_high) = trimmed_bounds(characters, tab + 1, high, false);
    let prefix_length = prefix.unicode_len();
    if prefix_length < 2 || prefix_length > 12 || !hexadecimal || vendor_low == vendor_high {
        return Some(Err(Some(prefix)));
    }
    let vendor = string_from_range(characters, vendor_low, vendor_high);
    Some(Ok((prefix, vendor)))
}

impl MacVendorRegistry {
    /// Parses `arp-scan` `ieee-oui.txt` text (IEEE MA-L / MA-M / MA-S prefixes).
    ///
    /// Lines are read as `str::lines` yields them and trimmed; blank and `#` lines are skipped.
    /// Returns [`MacVendorRegistryParseError::LineMissingTab`] for the first line without a tab
    /// and [`MacVendorRegistryParseError::InvalidPrefix`] for the first line whose prefix, once its
    /// separators (`:`, `-`, `.`) are dropped, is not 2 to 12 hexadecimal digits, or whose vendor
    /// name is empty.
    pub fn parse_ieee_oui_text(text: &str) -> (outcome: Result<
        MacVendorRegistry,
        MacVendorRegistryParseError,
    >)
        ensures
            registry_outcome_matches(text@, outcome),
    {
        let characters = chars_of(text);
        let lines = split_bounds(&characters, '\n');
        let ghost pieces = split_on(text@, '\n');
        let mut prefixes: StringHashMap<String> = StringHashMap::new();
        let mut index: usize = 0;
        assert(vendor_texts(prefixes@) =~= Map::<Seq<char>, Seq<char>>::empty());
        while index < lines.len()
            invariant
                index <= lines@.len(),
                characters@ == text@,
                pieces == split_on(text@, '\n'),
                lines@.len() == pieces.len(),
                forall|i: int| 0 <= i < lines@.len() ==> delimits(characters@, #[trigger] lines@[i], pieces[i]),
                registry_after_lines(pieces, index as nat) == Ok::<
                    Map<Seq<char>, Seq<char>>,
                    (nat, Option<Seq<char>>),
                >(vendor_texts(prefixes@)),
            decreases lines@.len() - index,
        {
            let (start, end) = lines[index];
            proof {
                assert(delimits(characters@, lines@[index as int], pieces[index as int]));
            }
            match read_registry_line(&characters, start, end) {
                None => {},
                Some(Err(None)) => {
                    proof {
                        lemma_registry_failure_persists(pieces, (index + 1) as nat, pieces.len());
                    }
                    return Err(MacVendorRegistryParseError::LineMissingTab { line_number: index + 1 });
                },
                Some(Err(Some(prefix))) => {
                    proof {
                        lemma_registry_failure_persists(pieces, (index + 1) as nat, pieces.len());
                    }
                    return Err(
                        MacVendorRegistryParseError::InvalidPrefix { line_number: index + 1, prefix },
                    );
                },
                Some(Ok((prefix, vendor))) => {
                    let ghost before = prefixes@;
                    let ghost key = prefix@;
                    let ghost value = vendor@;
                    prefixes.insert(prefix, vendor);
                    assert(vendor_texts(prefixes@) =~= vendor_texts(before).insert(key, value));
                },
            }
            index = index + 1;
        }
        Ok(MacVendorRegistry { prefixes })
    }

    /// Returns how many prefix mappings are stored.
    pub fn mapping_count(&self) -> (count: usize)
        ensures
            count == self.mappings().len(),
    {
        proof {
            assert(self.mappings().dom() =~= self.prefixes@.dom());
        }
        self.prefixes.len()
    }
}


/// The uppercase hexadecimal digit for a value below sixteen.
pub open spec fn uppercase_hex_digit(value: u8) -> char {
    if value < 10 {
        ((value as u32) + ('0' as u32)) as char
    } else {
        ((value as u32) - 10 + ('A' as u32)) as char
    }
}

/// The twelve uppercase hexadecimal digits of six octets.
pub open spec fn uppercase_hex_text(octets: Seq<u8>) -> Seq<char> {
    Seq::new(
        12,
        |i: int|
            if i % 2 == 0 {
                uppercase_hex_digit(octets[i / 2] / 16)
            } else {
                uppercase_hex_digit(octets[i / 2] % 16)
            },
    )
}

/// The vendor of the longest prefix of `hex`, at most `length` and at least 2 digits long, that
/// has a mapping.
pub open spec fn longest_prefix_vendor(
    mappings: Map<Seq<char>, Seq<char>>,
    hex: Seq<char>,
    length: nat,
) -> Option<Seq<char>>
    decreases length,
{
    if length < 2 {
        None
    } else if mappings.contains_key(hex.take(length as int)) {
        Some(mappings[hex.take(length as int)])
    } else {
        longest_prefix_vendor(mappings, hex, (length - 1) as nat)
    }
}

fn uppercase_hex_digit_char(value: u8) -> (c: char)
    requires
        value < 16,
    ensures
        c == uppercase_hex_digit(value),
{
    if value < 10 {
        (value + 48u8) as char
    } else {
        (value - 10 + 65u8) as char
    }
}

impl MacVendorRegistry {
    /// A registry with no mappings.
    pub fn new() -> (registry: MacVendorRegistry)
        ensures
            registry.mappings() == Map::<Seq<char>, Seq<char>>::empty(),
    {
        let registry = MacVendorRegistry { prefixes: StringHashMap::new() };
        assert(registry.mappings() =~= Map::<Seq<char>, Seq<char>>::empty());
        registry
    }

    /// Returns the vendor name for the longest matching prefix (12 down to 2 uppercase
    /// hexadecimal digits of the address), or `None` if nothing matches.
    pub fn vendor_name_for(&self, address: MacAddress) -> (vendor: Option<&str>)
        ensures
            match longest_prefix_vendor(self.mappings(), uppercase_hex_text(address@), 12) {
                Some(name) => vendor matches Some(v) && v@ == name,
                None => vendor is None,
            },
    {
        let octets = address.octets();
        let mut hex: Vec<char> = Vec::new();
        let mut position: usize = 0;
        while position < 6
            invariant
                position <= 6,
                octets@ == address@,
                octets@.len() == 6,
                hex@.len() == 2 * position,
                forall|i: int| 0 <= i < hex@.len() ==> #[trigger] hex@[i] == uppercase_hex_text(
                    address@,
                )[i],
            decreases 6 - position,
        {
            hex.push(uppercase_hex_digit_char(octets[position] / 16));
            hex.push(uppercase_hex_digit_char(octets[position] % 16));
            position = position + 1;
        }
        assert(hex@ =~= uppercase_hex_text(address@));
        let mut length: usize = 12;
        while length >= 2
            invariant
                length <= 12,
                hex@ == uppercase_hex_text(address@),
                longest_prefix_vendor(self.mappings(), hex@, 12) == longest_prefix_vendor(
                    self.mappings(),
                    hex@,
                    length as nat,
                ),
            decreases length,
        {
            let key = string_from_range(&hex, 0, length);
            assert(key@ =~= hex@.take(length as int));
            match self.prefixes.get(key.as_str()) {
                Some(name) => {
                    return Some(name.as_str());
                },
                None => {},
            }
            length = length - 1;
        }
        None
    }
}

impl Default for MacVendorRegistry {
    /// A registry with no mappings.
    fn default() -> (registry: MacVendorRegistry)
        ensures
            registry.mappings() == Map::<Seq<char>, Seq<char>>::empty(),
    {
        MacVendorRegistry::new()
    }
}

impl MacVendorRegistryParseError {
    /// Operator-facing description of the parse failure.
    pub fn to_string(&self) -> (text: String)
        ensures
            text@ == match self {
                MacVendorRegistryParseError::LineMissingTab { line_number } =>
                    "MAC vendor mapping line "@ + decimal_text(*line_number as nat)
                        + " is missing a tab separator"@,
                MacVendorRegistryParseError::InvalidPrefix { line_number, prefix } =>
                    "MAC vendor mapping line "@ + decimal_text(*line_number as nat)
                        + " has an invalid hexadecimal prefix `"@ + prefix@ + "`"@,
            },
    {
        let mut text = String::new();
        match self {
            MacVendorRegistryParseError::LineMissingTab { line_number } => {
                push_text(&mut text, "MAC vendor mapping line ");
                push_decimal(&mut text, *line_number as u128);
                push_text(&mut text, " is missing a tab separator");
            },
            MacVendorRegistryParseError::InvalidPrefix { line_number, prefix } => {
                push_text(&mut text, "MAC vendor mapping line ");
                push_decimal(&mut text, *line_number as u128);
                push_text(&mut text, " has an invalid hexadecimal prefix `");
                push_text(&mut text, prefix.as_str());
                push_text(&mut text, "`");
            },
        }
        text
    }
}


/// Whether line `line` maps `prefix`.
pub open spec fn maps_prefix(line: Seq<char>, prefix: Seq<char>) -> bool {
    registry_line(line) matches RegistryLine::Mapping(p, _) && p == prefix
}

/// The last line naming a prefix wins: when the first `count` lines parse, a prefix that line
/// `index` maps, and that no later line maps, holds the vendor name of line `index`.
pub proof fn lemma_last_mapping_wins(lines: Seq<Seq<char>>, count: nat, index: nat)
    requires
        index < count <= lines.len(),
        registry_after_lines(lines, count) is Ok,
        registry_line(lines[index as int]) is Mapping,
        forall|later: int|
            index < later < count ==> !maps_prefix(
                #[trigger] lines[later],
                registry_line(lines[index as int])->Mapping_0,
            ),
    ensures
        ({
            let prefix = registry_line(lines[index as int])->Mapping_0;
            let vendor = registry_line(lines[index as int])->Mapping_1;
            let mappings = registry_after_lines(lines, count)->Ok_0;
            mappings.contains_key(prefix) && mappings[prefix] == vendor
        }),
    decreases count,
{
    if count > index + 1 {
        let previous = (count - 1) as nat;
        assert(registry_after_lines(lines, previous) is Ok);
        assert(!maps_prefix(lines[previous as int], registry_line(lines[index as int])->Mapping_0));
        lemma_last_mapping_wins(lines, previous, index);
    }
}

/// Some line among the first `count` of `lines` maps `prefix`.
pub open spec fn lines_map_prefix(lines: Seq<Seq<char>>, count: nat, prefix: Seq<char>) -> bool {
    exists|i: int| 0 <= i < count && #[trigger] maps_prefix(lines[i], prefix)
}

/// The prefixes that the lines of `text` map, each counted once.
pub open spec fn text_prefixes(text: Seq<char>) -> Set<Seq<char>> {
    let lines = split_on(text, '\n');
    Set::new(|prefix: Seq<char>| lines_map_prefix(lines, lines.len(), prefix))
}

/// What the first `count` lines parse to, when they parse: a finite table whose prefixes are
/// exactly those the lines map (each 2 to 12 characters long), each holding the vendor of the
/// last line that maps it.
proof fn lemma_registry_table(lines: Seq<Seq<char>>, count: nat)
    requires
        count <= lines.len(),
        registry_after_lines(lines, count) is Ok,
    ensures
        ({
            let table = registry_after_lines(lines, count)->Ok_0;
            &&& table.dom().finite()
            &&& forall|prefix: Seq<char>| #[trigger]
                table.contains_key(prefix) <==> lines_map_prefix(lines, count, prefix)
            &&& forall|prefix: Seq<char>| #[trigger]
                table.contains_key(prefix) ==> 2 <= prefix.len() <= 12
            &&& forall|prefix: Seq<char>| #[trigger]
                table.contains_key(prefix) ==> exists|i: int|
                    {
                        &&& 0 <= i < count
                        &&& #[trigger] registry_line(lines[i]) == RegistryLine::Mapping(
                            prefix,
                            table[prefix],
                        )
                        &&& forall|j: int| i < j < count ==> !#[trigger] maps_prefix(lines[j], prefix)
                    }
        }),
    decreases count,
{
    let table = registry_after_lines(lines, count)->Ok_0;
    if count == 0 {
        assert(table.dom() =~= Set::<Seq<char>>::empty());
    } else {
        let previous = (count - 1) as nat;
        assert(registry_after_lines(lines, previous) is Ok);
        lemma_registry_table(lines, previous);
        let before = registry_after_lines(lines, previous)->Ok_0;
        let last = lines[previous as int];
        assert forall|prefix: Seq<char>| #[trigger]
            table.contains_key(prefix) <==> lines_map_prefix(lines, count, prefix) by {
            if lines_map_prefix(lines, count, prefix) {
                let i = choose|i: int| 0 <= i < count && #[trigger] maps_prefix(lines[i], prefix);
                if i < previous {
                    assert(lines_map_prefix(lines, previous, prefix));
                }
            }
            if lines_map_prefix(lines, previous, prefix) {
                let i = choose|i: int| 0 <= i < previous && #[trigger] maps_prefix(lines[i], prefix);
                assert(maps_prefix(lines[i], prefix));
            }
            if maps_prefix(last, prefix) {
                assert(maps_prefix(lines[previous as int], prefix));
            }
        }
        assert forall|prefix: Seq<char>| #[trigger] table.contains_key(prefix) implies exists|i: int|
            {
                &&& 0 <= i < count
                &&& #[trigger] registry_line(lines[i]) == RegistryLine::Mapping(
                    prefix,
                    table[prefix],
                )
                &&& forall|j: int| i < j < count ==> !#[trigger] maps_prefix(lines[j], prefix)
            } by {
            if maps_prefix(last, prefix) {
                assert(registry_line(lines[previous as int]) == RegistryLine::Mapping(
                    prefix,
                    table[prefix],
                ));
            } else {
                let i = choose|i: int|
                    {
                        &&& 0 <= i < previous
                        &&& #[trigger] registry_line(lines[i]) == RegistryLine::Mapping(
                            prefix,
                            before[prefix],
                        )
                        &&& forall|j: int| i < j < previous ==> !#[trigger] maps_prefix(lines[j], prefix)
                    };
                assert(table[prefix] == before[prefix]);
                assert forall|j: int| i < j < count implies !#[trigger] maps_prefix(lines[j], prefix) by {
                    if j == previous {
                        assert(lines[j] == last);
                    }
                }
                assert(registry_line(lines[i]) == RegistryLine::Mapping(prefix, table[prefix]));
            }
        }
    }
}

/// What the longest-prefix lookup finds over `hex`: nothing exactly when no prefix of 2 to
/// `length` characters is in the table, otherwise the entry of the longest one that is.
proof fn lemma_longest_prefix_vendor(
    table: Map<Seq<char>, Seq<char>>,
    hex: Seq<char>,
    length: nat,
)
    ensures
        longest_prefix_vendor(table, hex, length) is None <==> forall|k: int|
            2 <= k <= length ==> !#[trigger] table.contains_key(hex.take(k)),
        longest_prefix_vendor(table, hex, length) matches Some(vendor) ==> exists|k: int|
            {
                &&& 2 <= k <= length
                &&& #[trigger] table.contains_key(hex.take(k))
                &&& table[hex.take(k)] == vendor
                &&& forall|longer: int|
                    k < longer <= length ==> !#[trigger] table.contains_key(hex.take(longer))
            },
    decreases length,
{
    if length >= 2 {
        lemma_longest_prefix_vendor(table, hex, (length - 1) as nat);
        if table.contains_key(hex.take(length as int)) {
            assert(table.contains_key(hex.take(length as int)));
        }
    }
}

/// Looking up an address in the registry parsed from `text` finds the vendor of the longest
/// prefix the text maps that begins the address's twelve uppercase hexadecimal digits, as the
/// last line mapping that prefix names it, and finds nothing when no mapped prefix begins them:
/// `vendor_name_for` on the registry `parse_ieee_oui_text(text)` returns.
pub proof fn lemma_vendor_lookup_over_text(text: Seq<char>, octets: Seq<u8>)
    requires
        parse_registry_text(text) is Ok,
    ensures
        ({
            let lines = split_on(text, '\n');
            let hex = uppercase_hex_text(octets);
            let found = longest_prefix_vendor(parse_registry_text(text)->Ok_0, hex, 12);
            &&& found is None <==> forall|k: int|
                2 <= k <= 12 ==> !#[trigger] text_prefixes(text).contains(hex.take(k))
            &&& found matches Some(vendor) ==> exists|k: int, i: int|
                {
                    &&& 2 <= k <= 12
                    &&& 0 <= i < lines.len()
                    &&& #[trigger] registry_line(lines[i]) == RegistryLine::Mapping(
                        #[trigger] hex.take(k),
                        vendor,
                    )
                    &&& forall|j: int| i < j < lines.len() ==> !#[trigger] maps_prefix(lines[j], hex.take(k))
                    &&& forall|longer: int|
                        k < longer <= 12 ==> !#[trigger] text_prefixes(text).contains(hex.take(longer))
                }
        }),
{
    let lines = split_on(text, '\n');
    let hex = uppercase_hex_text(octets);
    let table = parse_registry_text(text)->Ok_0;
    lemma_registry_table(lines, lines.len());
    lemma_longest_prefix_vendor(table, hex, 12);
    assert forall|prefix: Seq<char>| #[trigger] text_prefixes(text).contains(prefix)
        == table.contains_key(prefix) by {}
    let found = longest_prefix_vendor(table, hex, 12);
    if found is None {
        assert forall|k: int| 2 <= k <= 12 implies !#[trigger] text_prefixes(text).contains(
            hex.take(k),
        ) by {
            assert(!table.contains_key(hex.take(k)));
        }
    } else {
        let vendor = found->Some_0;
        let k = choose|k: int|
            {
                &&& 2 <= k <= 12
                &&& #[trigger] table.contains_key(hex.take(k))
                &&& table[hex.take(k)] == vendor
                &&& forall|longer: int|
                    k < longer <= 12 ==> !#[trigger] table.contains_key(hex.take(longer))
            };
        let prefix = hex.take(k);
        assert(table.contains_key(prefix));
        let i = choose|i: int|
            {
                &&& 0 <= i < lines.len()
                &&& #[trigger] registry_line(lines[i]) == RegistryLine::Mapping(prefix, table[prefix])
                &&& forall|j: int| i < j < lines.len() ==> !#[trigger] maps_prefix(lines[j], prefix)
            };
        assert forall|longer: int| k < longer <= 12 implies !#[trigger] text_prefixes(text).contains(
            hex.take(longer),
        ) by {
            assert(!table.contains_key(hex.take(longer)));
        }
        assert(registry_line(lines[i]) == RegistryLine::Mapping(hex.take(k), vendor));
    }
    if !(found is None) {
        let k = choose|k: int| 2 <= k <= 12 && #[trigger] table.contains_key(hex.take(k));
        assert(text_prefixes(text).contains(hex.take(k)));
    }
}

/// The registry parsed from `text` holds one mapping per distinct prefix the text maps: blank and
/// comment lines add none, and a prefix mapped on several lines counts once.
pub proof fn lemma_mapping_count_over_text(text: Seq<char>)
    requires
        parse_registry_text(text) is Ok,
    ensures
        text_prefixes(text).finite(),
        parse_registry_text(text)->Ok_0.len() == text_prefixes(text).len(),
{
    let lines = split_on(text, '\n');
    let table = parse_registry_text(text)->Ok_0;
    lemma_registry_table(lines, lines.len());
    assert(table.dom() =~= text_prefixes(text));
}

} // verus!
