//! Character-level helpers shared by the text parsers and formatters of the crate.

use vstd::prelude::*;

verus! {

/// Whitespace as Rust's `char::is_whitespace` defines it (the Unicode `White_Space` property).
pub open spec fn is_unicode_whitespace(c: char) -> bool {
    ||| c == '\t'
    ||| c == '\n'
    ||| c == '\u{0B}'
    ||| c == '\u{0C}'
    ||| c == '\r'
    ||| c == ' '
    ||| c == '\u{85}'
    ||| c == '\u{A0}'
    ||| c == '\u{1680}'
    ||| ('\u{2000}' <= c && c <= '\u{200A}')
    ||| c == '\u{2028}'
    ||| c == '\u{2029}'
    ||| c == '\u{202F}'
    ||| c == '\u{205F}'
    ||| c == '\u{3000}'
}

/// Whitespace as `char::is_ascii_whitespace` defines it.
pub open spec fn is_ascii_whitespace_char(c: char) -> bool {
    c == ' ' || c == '\t' || c == '\n' || c == '\u{0C}' || c == '\r'
}

/// Whitespace that trimming removes: ASCII whitespace only, or all Unicode whitespace.
pub open spec fn is_trim_whitespace(c: char, ascii_only: bool) -> bool {
    if ascii_only {
        is_ascii_whitespace_char(c)
    } else {
        is_unicode_whitespace(c)
    }
}

/// Removes leading whitespace.
pub open spec fn trim_start_by(s: Seq<char>, ascii_only: bool) -> Seq<char>
    decreases s.len(),
{
    if s.len() > 0 && is_trim_whitespace(s[0], ascii_only) {
        trim_start_by(s.drop_first(), ascii_only)
    } else {
        s
    }
}

/// Removes trailing whitespace.
pub open spec fn trim_end_by(s: Seq<char>, ascii_only: bool) -> Seq<char>
    decreases s.len(),
{
    if s.len() > 0 && is_trim_whitespace(s.last(), ascii_only) {
        trim_end_by(s.drop_last(), ascii_only)
    } else {
        s
    }
}

/// What `str::trim` leaves of `s`.
pub open spec fn trim_unicode(s: Seq<char>) -> Seq<char> {
    trim_end_by(trim_start_by(s, false), false)
}

/// What `str::trim_matches(char::is_ascii_whitespace)` leaves of `s`.
pub open spec fn trim_ascii(s: Seq<char>) -> Seq<char> {
    trim_end_by(trim_start_by(s, true), true)
}

/// The pieces of `s` between occurrences of `separator`, as `str::split` yields them.
pub open spec fn split_on(s: Seq<char>, separator: char) -> Seq<Seq<char>>
    decreases s.len(),
{
    if s.len() == 0 {
        seq![Seq::<char>::empty()]
    } else {
        let pieces = split_on(s.drop_last(), separator);
        if s.last() == separator {
            pieces.push(Seq::<char>::empty())
        } else {
            pieces.update(pieces.len() - 1, pieces.last().push(s.last()))
        }
    }
}

/// Appending a separator and then a piece without separators appends that piece to the split.
pub proof fn lemma_split_append_piece(prefix: Seq<char>, piece: Seq<char>, separator: char)
    requires
        !piece.contains(separator),
    ensures
        split_on(prefix + seq![separator] + piece, separator) == split_on(prefix, separator).push(
            piece,
        ),
    decreases piece.len(),
{
    if piece.len() == 0 {
        let s = prefix + seq![separator] + piece;
        assert(s.drop_last() =~= prefix);
        assert(s.last() == separator);
        assert(piece =~= Seq::<char>::empty());
    } else {
        let shorter = piece.drop_last();
        assert(!shorter.contains(separator)) by {
            if shorter.contains(separator) {
                let k = choose|k: int| 0 <= k < shorter.len() && shorter[k] == separator;
                assert(piece[k] == separator);
            }
        }
        lemma_split_append_piece(prefix, shorter, separator);
        let s = prefix + seq![separator] + piece;
        assert(s.drop_last() =~= prefix + seq![separator] + shorter);
        assert(s.last() == piece.last());
        assert(piece.last() != separator) by {
            assert(piece[piece.len() - 1] == piece.last());
        }
        assert(shorter.push(piece.last()) =~= piece);
        assert(split_on(prefix, separator).push(shorter).update(
            split_on(prefix, separator).len() as int,
            shorter.push(piece.last()),
        ) =~= split_on(prefix, separator).push(piece));
    }
}

/// A piece without separators splits into itself alone.
pub proof fn lemma_split_single_piece(piece: Seq<char>, separator: char)
    requires
        !piece.contains(separator),
    ensures
        split_on(piece, separator) == seq![piece],
    decreases piece.len(),
{
    if piece.len() > 0 {
        let shorter = piece.drop_last();
        assert(!shorter.contains(separator)) by {
            if shorter.contains(separator) {
                let k = choose|k: int| 0 <= k < shorter.len() && shorter[k] == separator;
                assert(piece[k] == separator);
            }
        }
        lemma_split_single_piece(shorter, separator);
        assert(piece.last() != separator) by {
            assert(piece[piece.len() - 1] == piece.last());
        }
        assert(shorter.push(piece.last()) =~= piece);
        assert(seq![shorter].update(0, shorter.push(piece.last())) =~= seq![piece]);
    } else {
        assert(piece =~= Seq::<char>::empty());
    }
}

/// The UTF-8 encoding of `s` (what `str::as_bytes` holds).
pub open spec fn utf8_octets(s: Seq<char>) -> Seq<u8> {
    vstd::utf8::encode_utf8(s)
}

/// Number of octets of the UTF-8 encoding of `s` (what `str::len` returns).
pub open spec fn utf8_byte_length(s: Seq<char>) -> nat {
    utf8_octets(s).len()
}

/// Encoding a sequence with one more character appends that character's encoding.
pub proof fn lemma_utf8_octets_push(s: Seq<char>, c: char)
    ensures
        utf8_octets(s.push(c)) == utf8_octets(s) + vstd::utf8::encode_scalar(c as u32),
    decreases s.len(),
{
    if s.len() == 0 {
        assert(s.push(c).drop_first() =~= Seq::<char>::empty());
        assert(vstd::utf8::encode_utf8(s.push(c).drop_first()) =~= Seq::<u8>::empty());
        assert(vstd::utf8::encode_utf8(s) =~= Seq::<u8>::empty());
        assert(utf8_octets(s.push(c)) =~= vstd::utf8::encode_scalar(c as u32));
    } else {
        lemma_utf8_octets_push(s.drop_first(), c);
        assert(s.push(c).drop_first() =~= s.drop_first().push(c));
        assert(s.push(c)[0] == s[0]);
        assert(utf8_octets(s.push(c)) =~= utf8_octets(s) + vstd::utf8::encode_scalar(c as u32));
    }
}

/// Every character takes at least one octet.
pub proof fn lemma_octets_at_least_characters(s: Seq<char>)
    ensures
        utf8_octets(s).len() >= s.len(),
    decreases s.len(),
{
    if s.len() > 0 {
        lemma_octets_at_least_characters(s.drop_first());
        vstd::utf8::char_is_scalar(s[0]);
    }
}

/// The octet count of one character's encoding.
pub proof fn lemma_encode_scalar_length(c: char)
    ensures
        vstd::utf8::encode_scalar(c as u32).len() == (if (c as u32) < 0x80 {
            1nat
        } else if (c as u32) < 0x800 {
            2nat
        } else if (c as u32) < 0x10000 {
            3nat
        } else {
            4nat
        }),
        (c as u32) < 0x80 ==> vstd::utf8::encode_scalar(c as u32) == seq![(c as u32) as u8],
        0x80 <= (c as u32) < 0x800 ==> vstd::utf8::encode_scalar(c as u32)[0]
            == vstd::utf8::leading_byte_width_2(c as u32) && vstd::utf8::encode_scalar(c as u32)[1]
            == vstd::utf8::last_continuation_byte(c as u32),
{
    vstd::utf8::char_is_scalar(c);
    let v = c as u32;
    if v < 0x80 {
        assert((v & 0x7F) as u8 == v as u8) by (bit_vector)
            requires
                v < 0x80,
        ;
    }
}

pub open spec fn is_ascii_hex_digit(c: char) -> bool {
    ('0' <= c && c <= '9') || ('a' <= c && c <= 'f') || ('A' <= c && c <= 'F')
}

/// The value of a hexadecimal digit.
pub open spec fn hex_digit_value(c: char) -> u8 {
    if '0' <= c && c <= '9' {
        (c as u32 - '0' as u32) as u8
    } else if 'a' <= c && c <= 'f' {
        (c as u32 - 'a' as u32 + 10) as u8
    } else {
        (c as u32 - 'A' as u32 + 10) as u8
    }
}

/// Collects the characters of `text`.
pub fn chars_of(text: &str) -> (characters: Vec<char>)
    ensures
        characters@ == text@,
{
    let mut characters: Vec<char> = Vec::new();
    for c in it: text.chars()
        invariant
            characters@ == it.seq().take(it.index() as int),
    {
        characters.push(c);
    }
    characters
}

} // verus!

verus! {

/// Appends one character to a `String` (`String::push`).
///
/// States that the characters after the call are those before it followed by `c`.
#[verifier::external_body]
pub(crate) fn push_char(text: &mut String, c: char)
    ensures
        final(text)@ == old(text)@.push(c),
{
    text.push(c);
}

pub fn ascii_digit_char(value: u8) -> (c: char)
    requires value < 16,
    ensures c == (if value < 10 { ((value as u32) + ('0' as u32)) as char } else { ((value as u32) - 10 + ('a' as u32)) as char }),
{
    if value < 10 {
        (value + 48u8) as char
    } else {
        (value - 10 + 97u8) as char
    }
}

} // verus!

verus! {

/// `char::is_whitespace`.
pub fn char_is_unicode_whitespace(c: char) -> (result: bool)
    ensures
        result == is_unicode_whitespace(c),
{
    c == '\t' || c == '\n' || c == '\u{0B}' || c == '\u{0C}' || c == '\r' || c == ' ' || c
        == '\u{85}' || c == '\u{A0}' || c == '\u{1680}' || ('\u{2000}' <= c && c <= '\u{200A}')
        || c == '\u{2028}' || c == '\u{2029}' || c == '\u{202F}' || c == '\u{205F}' || c
        == '\u{3000}'
}

/// `char::is_ascii_whitespace`.
pub fn char_is_ascii_whitespace(c: char) -> (result: bool)
    ensures
        result == is_ascii_whitespace_char(c),
{
    c == ' ' || c == '\t' || c == '\n' || c == '\u{0C}' || c == '\r'
}

proof fn lemma_trim_start_skip(s: Seq<char>, ws: bool, i: int)
    requires
        0 <= i <= s.len(),
        forall|j: int| 0 <= j < i ==> #[trigger] is_trim_whitespace(s[j], ws),
    ensures
        trim_start_by(s, ws) == trim_start_by(s.subrange(i, s.len() as int), ws),
    decreases i,
{
    if i > 0 {
        lemma_trim_start_skip(s.drop_first(), ws, i - 1);
        assert(s.drop_first().subrange(i - 1, s.drop_first().len() as int) =~= s.subrange(
            i,
            s.len() as int,
        ));
    } else {
        assert(s.subrange(0, s.len() as int) =~= s);
    }
}

proof fn lemma_trim_end_skip(s: Seq<char>, ws: bool, k: int)
    requires
        0 <= k <= s.len(),
        forall|j: int| k <= j < s.len() ==> #[trigger] is_trim_whitespace(s[j], ws),
    ensures
        trim_end_by(s, ws) == trim_end_by(s.subrange(0, k), ws),
    decreases s.len() - k,
{
    if k < s.len() {
        lemma_trim_end_skip(s.drop_last(), ws, k);
        assert(s.drop_last().subrange(0, k) =~= s.subrange(0, k));
    } else {
        assert(s.subrange(0, k) =~= s);
    }
}

fn is_trimmed_character(c: char, ascii_only: bool) -> (result: bool)
    ensures
        result == is_trim_whitespace(c, ascii_only),
{
    if ascii_only {
        char_is_ascii_whitespace(c)
    } else {
        char_is_unicode_whitespace(c)
    }
}

/// Bounds of the part of `characters[start..end]` that `str::trim` (or, with `ascii_only`,
/// trimming ASCII whitespace only) keeps.
pub fn trimmed_bounds(characters: &Vec<char>, start: usize, end: usize, ascii_only: bool) -> (bounds: (
    usize,
    usize,
))
    requires
        start <= end <= characters@.len(),
    ensures
        start <= bounds.0 <= bounds.1 <= end,
        characters@.subrange(bounds.0 as int, bounds.1 as int) == (if ascii_only {
            trim_ascii(characters@.subrange(start as int, end as int))
        } else {
            trim_unicode(characters@.subrange(start as int, end as int))
        }),
{
    let ghost ws = ascii_only;
    let ghost whole = characters@.subrange(start as int, end as int);
    let mut low = start;
    while low < end && is_trimmed_character(characters[low], ascii_only)
        invariant
            start <= low <= end <= characters@.len(),
            ws == ascii_only,
            forall|j: int| start <= j < low ==> #[trigger] is_trim_whitespace(characters@[j], ws),
        decreases end - low,
    {
        low = low + 1;
    }
    proof {
        assert forall|j: int| 0 <= j < low - start implies #[trigger] is_trim_whitespace(whole[j], ws) by {
            assert(whole[j] == characters@[start + j]);
        }
        lemma_trim_start_skip(whole, ws, low - start);
        assert(whole.subrange(low - start, whole.len() as int) =~= characters@.subrange(
            low as int,
            end as int,
        ));
        if low < end {
            assert(!is_trim_whitespace(characters@[low as int], ws));
        }
        let rest = characters@.subrange(low as int, end as int);
        assert(trim_start_by(rest, ws) == rest) by {
            if rest.len() > 0 {
                assert(rest[0] == characters@[low as int]);
            }
        }
    }
    let mut high = end;
    while high > low && is_trimmed_character(characters[high - 1], ascii_only)
        invariant
            start <= low <= high <= end <= characters@.len(),
            ws == ascii_only,
            forall|j: int| high <= j < end ==> #[trigger] is_trim_whitespace(characters@[j], ws),
        decreases high - low,
    {
        high = high - 1;
    }
    proof {
        let rest = characters@.subrange(low as int, end as int);
        assert forall|j: int| high - low <= j < rest.len() implies #[trigger] is_trim_whitespace(rest[j], ws) by {
            assert(rest[j] == characters@[low + j]);
        }
        lemma_trim_end_skip(rest, ws, high - low);
        assert(rest.subrange(0, high - low) =~= characters@.subrange(low as int, high as int));
        let kept = characters@.subrange(low as int, high as int);
        assert(trim_end_by(kept, ws) == kept) by {
            if kept.len() > 0 {
                assert(kept.last() == characters@[high - 1]);
            }
        }
    }
    (low, high)
}

} // verus!

verus! {

/// `bound` delimits `piece` inside `characters`.
pub open spec fn delimits(characters: Seq<char>, bound: (usize, usize), piece: Seq<char>) -> bool {
    &&& bound.0 <= bound.1 <= characters.len()
    &&& characters.subrange(bound.0 as int, bound.1 as int) == piece
}

/// Boundaries `(start, end)` of the pieces of `characters` between separators, in the order
/// `str::split` yields them.
pub fn split_bounds(characters: &Vec<char>, separator: char) -> (pieces: Vec<(usize, usize)>)
    ensures
        pieces@.len() == split_on(characters@, separator).len(),
        forall|i: int|
            0 <= i < pieces@.len() ==> delimits(
                characters@,
                #[trigger] pieces@[i],
                split_on(characters@, separator)[i],
            ),
{
    let mut pieces: Vec<(usize, usize)> = Vec::new();
    let mut current_start: usize = 0;
    let mut index: usize = 0;
    while index < characters.len()
        invariant
            current_start <= index <= characters@.len(),
            pieces@.len() + 1 == split_on(characters@.take(index as int), separator).len(),
            forall|i: int|
                0 <= i < pieces@.len() ==> #[trigger] pieces@[i].1 <= index && delimits(
                    characters@,
                    pieces@[i],
                    split_on(characters@.take(index as int), separator)[i],
                ),
            characters@.subrange(current_start as int, index as int) == split_on(
                characters@.take(index as int),
                separator,
            ).last(),
        decreases characters@.len() - index,
    {
        let ghost before = characters@.take(index as int);
        let ghost after = characters@.take(index + 1);
        let ghost old_pieces = pieces@;
        assert(after.drop_last() =~= before);
        if characters[index] == separator {
            pieces.push((current_start, index));
            current_start = index + 1;
        }
        index = index + 1;
        assert(characters@.subrange(current_start as int, index as int) == split_on(
            after,
            separator,
        ).last()) by {
            if characters@[index - 1] != separator {
                assert(characters@.subrange(current_start as int, index as int) =~= characters@.subrange(
                    current_start as int,
                    index - 1,
                ).push(characters@[index - 1]));
            }
        }
        assert forall|i: int| 0 <= i < pieces@.len() implies #[trigger] pieces@[i].1 <= index
            && delimits(characters@, pieces@[i], split_on(after, separator)[i]) by {
            if i < old_pieces.len() {
                assert(pieces@[i] == old_pieces[i]);
            }
        }
    }
    assert(characters@.take(characters@.len() as int) =~= characters@);
    let ghost before_push = pieces@;
    pieces.push((current_start, index));
    assert forall|i: int| 0 <= i < pieces@.len() implies delimits(
        characters@,
        #[trigger] pieces@[i],
        split_on(characters@, separator)[i],
    ) by {
        assert(split_on(characters@, separator) == split_on(characters@.take(index as int), separator));
        if i < before_push.len() {
            assert(pieces@[i] == before_push[i]);
        } else {
            assert(pieces@[i] == (current_start, index));
        }
    }
    pieces
}

/// `n` as a `usize`, or `usize::MAX` when it does not fit.
pub open spec fn saturating_usize(n: nat) -> usize {
    if n > usize::MAX {
        usize::MAX
    } else {
        n as usize
    }
}

/// Number of octets of the UTF-8 encoding of `characters[start..end]`, saturating at
/// `usize::MAX`.
pub fn utf8_length_of_range(characters: &Vec<char>, start: usize, end: usize) -> (length: usize)
    requires
        start <= end <= characters@.len(),
    ensures
        length == saturating_usize(utf8_byte_length(characters@.subrange(start as int, end as int))),
{
    assert(characters@.subrange(start as int, start as int) =~= Seq::<char>::empty());
    let mut length: usize = 0;
    let mut index = start;
    while index < end
        invariant
            start <= index <= end <= characters@.len(),
            length == saturating_usize(utf8_byte_length(characters@.subrange(start as int, index as int))),
        decreases end - index,
    {
        let c = characters[index];
        let width: usize = if (c as u32) < 0x80 {
            1
        } else if (c as u32) < 0x800 {
            2
        } else if (c as u32) < 0x10000 {
            3
        } else {
            4
        };
        proof {
            assert(characters@.subrange(start as int, index + 1) =~= characters@.subrange(
                start as int,
                index as int,
            ).push(c));
            lemma_utf8_octets_push(characters@.subrange(start as int, index as int), c);
            lemma_encode_scalar_length(c);
        }
        length = length.saturating_add(width);
        index = index + 1;
    }
    length
}

} // verus!

verus! {

/// The decimal digit character for a value below ten.
pub open spec fn decimal_digit(value: nat) -> char {
    ((value + 48) as u32) as char
}

/// Decimal text of `n` without leading zeros (what `Display` prints for an unsigned integer).
pub open spec fn decimal_text(n: nat) -> Seq<char>
    decreases n,
{
    if n < 10 {
        seq![decimal_digit(n)]
    } else {
        decimal_text(n / 10).push(decimal_digit(n % 10))
    }
}

/// The pieces joined with `separator` between consecutive pieces (`[String]::join`).
pub open spec fn joined(pieces: Seq<Seq<char>>, separator: Seq<char>) -> Seq<char>
    decreases pieces.len(),
{
    if pieces.len() == 0 {
        Seq::<char>::empty()
    } else if pieces.len() == 1 {
        pieces[0]
    } else {
        joined(pieces.drop_last(), separator) + separator + pieces.last()
    }
}

/// The character views of a list of strings.
pub open spec fn string_views(strings: Seq<String>) -> Seq<Seq<char>> {
    strings.map_values(|s: String| s@)
}

/// Appends `text` to `buffer`.
pub fn push_text(buffer: &mut String, text: &str)
    ensures
        final(buffer)@ == old(buffer)@ + text@,
{
    buffer.append(text);
}

fn decimal_digit_char(value: u128) -> (c: char)
    requires
        value < 10,
    ensures
        c == decimal_digit(value as nat),
{
    let digit = value as u8 + 48u8;
    digit as char
}

/// Appends the decimal text of `value`.
pub fn push_decimal(buffer: &mut String, value: u128)
    ensures
        final(buffer)@ == old(buffer)@ + decimal_text(value as nat),
    decreases value,
{
    if value < 10 {
        push_char(buffer, decimal_digit_char(value));
        assert(final(buffer)@ =~= old(buffer)@ + decimal_text(value as nat));
    } else {
        push_decimal(buffer, value / 10);
        push_char(buffer, decimal_digit_char(value % 10));
        assert(final(buffer)@ =~= old(buffer)@ + decimal_text(value as nat));
    }
}

/// Decimal text of `value` as a new string.
pub fn decimal_string(value: u128) -> (text: String)
    ensures
        text@ == decimal_text(value as nat),
{
    let mut text = String::new();
    push_decimal(&mut text, value);
    assert(text@ =~= decimal_text(value as nat));
    text
}

/// Appends the strings of `pieces` separated by `separator`.
pub fn push_joined(buffer: &mut String, pieces: &Vec<String>, separator: &str)
    ensures
        final(buffer)@ == old(buffer)@ + joined(string_views(pieces@), separator@),
{
    let ghost start = buffer@;
    let mut index: usize = 0;
    while index < pieces.len()
        invariant
            index <= pieces@.len(),
            buffer@ == start + joined(string_views(pieces@.subrange(0, index as int)), separator@),
        decreases pieces@.len() - index,
    {
        let ghost before = pieces@.subrange(0, index as int);
        let ghost after = pieces@.subrange(0, index + 1);
        assert(after.drop_last() =~= before);
        assert(string_views(after).drop_last() =~= string_views(before));
        if index > 0 {
            push_text(buffer, separator);
        }
        push_text(buffer, pieces[index].as_str());
        index = index + 1;
        proof {
            if index == 1 {
                assert(string_views(after).len() == 1);
                assert(buffer@ =~= start + joined(string_views(after), separator@));
            } else {
                assert(buffer@ =~= start + joined(string_views(after), separator@));
            }
        }
    }
    assert(pieces@.subrange(0, pieces@.len() as int) =~= pieces@);
}

} // verus!

verus! {

/// The characters `characters[start..end]` as a new vector.
pub fn chars_in_range(characters: &Vec<char>, start: usize, end: usize) -> (range: Vec<char>)
    requires
        start <= end <= characters@.len(),
    ensures
        range@ == characters@.subrange(start as int, end as int),
{
    let mut range: Vec<char> = Vec::new();
    let mut index = start;
    while index < end
        invariant
            start <= index <= end <= characters@.len(),
            range@ == characters@.subrange(start as int, index as int),
        decreases end - index,
    {
        range.push(characters[index]);
        index = index + 1;
        assert(range@ =~= characters@.subrange(start as int, index as int));
    }
    range
}

/// The characters `characters[start..end]` as a new string.
pub fn string_from_range(characters: &Vec<char>, start: usize, end: usize) -> (text: String)
    requires
        start <= end <= characters@.len(),
    ensures
        text@ == characters@.subrange(start as int, end as int),
{
    let mut text = String::new();
    let mut index = start;
    assert(text@ =~= characters@.subrange(start as int, start as int));
    while index < end
        invariant
            start <= index <= end <= characters@.len(),
            text@ == characters@.subrange(start as int, index as int),
        decreases end - index,
    {
        push_char(&mut text, characters[index]);
        index = index + 1;
        assert(text@ =~= characters@.subrange(start as int, index as int));
    }
    text
}


/// Whether `first` sorts strictly before `second` in the order `str` comparison uses: character
/// by character by scalar value, a proper prefix first.
pub open spec fn precedes(first: Seq<char>, second: Seq<char>) -> bool
    decreases first.len(),
{
    if first.len() == 0 {
        second.len() > 0
    } else if second.len() == 0 {
        false
    } else if first[0] != second[0] {
        (first[0] as int) < (second[0] as int)
    } else {
        precedes(first.drop_first(), second.drop_first())
    }
}

/// Nothing precedes itself, and of two different texts exactly one precedes the other.
pub proof fn lemma_precedes_total(first: Seq<char>, second: Seq<char>)
    ensures
        !precedes(first, first),
        first != second ==> (precedes(first, second) <==> !precedes(second, first)),
        first == second ==> !precedes(first, second),
    decreases first.len(),
{
    if first.len() > 0 {
        lemma_precedes_total(first.drop_first(), first.drop_first());
        if second.len() > 0 {
            lemma_precedes_total(first.drop_first(), second.drop_first());
            if first[0] == second[0] && first != second {
                assert(first.drop_first() != second.drop_first()) by {
                    if first.drop_first() == second.drop_first() {
                        assert(first =~= seq![first[0]] + first.drop_first());
                        assert(second =~= seq![second[0]] + second.drop_first());
                    }
                }
            }
        }
    } else if second.len() > 0 {
    } else {
        assert(first =~= second);
    }
}

/// The order is transitive.
pub proof fn lemma_precedes_transitive(first: Seq<char>, second: Seq<char>, third: Seq<char>)
    requires
        precedes(first, second),
        precedes(second, third),
    ensures
        precedes(first, third),
    decreases first.len(),
{
    if first.len() > 0 && second.len() > 0 && third.len() > 0 {
        if first[0] == second[0] && second[0] == third[0] {
            lemma_precedes_transitive(first.drop_first(), second.drop_first(), third.drop_first());
        }
    }
}

/// Returns whether `first` sorts strictly before `second` (see [`precedes`]).
pub fn text_precedes(first: &str, second: &str) -> (before: bool)
    ensures
        before == precedes(first@, second@),
{
    let first_characters = chars_of(first);
    let second_characters = chars_of(second);
    let mut index: usize = 0;
    assert(first@.skip(0) =~= first@);
    assert(second@.skip(0) =~= second@);
    while index < first_characters.len() && index < second_characters.len()
        invariant
            first_characters@ == first@,
            second_characters@ == second@,
            index <= first@.len(),
            index <= second@.len(),
            forall|i: int| 0 <= i < index ==> first@[i] == second@[i],
            precedes(first@, second@) == precedes(
                first@.skip(index as int),
                second@.skip(index as int),
            ),
        decreases first@.len() - index,
    {
        let a = first_characters[index];
        let b = second_characters[index];
        if a != b {
            return a < b;
        }
        assert(first@.skip(index as int).drop_first() =~= first@.skip(index + 1));
        assert(second@.skip(index as int).drop_first() =~= second@.skip(index + 1));
        index = index + 1;
    }
    index < second_characters.len()
}

} // verus!
