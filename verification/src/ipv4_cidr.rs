//! IPv4 classless inter-domain routing notation parsing and lazy host address expansion.

use vstd::prelude::*;

use crate::error::AppError;
use crate::ipv4_subnet::{
    broadcast_address, contiguous_ipv4_netmask_from_prefix_length,
    inclusive_host_address_range_excluding_edges, is_contiguous_netmask, netmask_of_prefix,
    network_address, unsupported_prefix_message,
};
use crate::ipv4_text::{
    all_decimal_digits, decimal_digit_value, decimal_value, ipv4_text, is_decimal_digit,
    parse_ipv4_address, parse_ipv4_text,
};
use crate::text::{
    chars_in_range, chars_of, decimal_text, delimits, push_decimal, push_text, split_bounds,
    split_on, string_from_range, trim_ascii, trimmed_bounds,
};

verus! {

/// Parsed IPv4 address plus prefix length (for example `192.168.1.10/24`).
#[derive(Clone, Copy, Debug, PartialEq, Eq, Structural)]
pub struct Ipv4Cidr {
    /// Any IPv4 address inside the subnet (typically the network address or interface address).
    pub ipv4_address: u32,
    /// Prefix length in bits (`0` through `32`, inclusive).
    pub prefix_length: u8,
}

/// The prefix length a prefix segment denotes, or the message it is rejected with.
pub open spec fn parse_prefix_text(raw: Seq<char>) -> Result<u8, Seq<char>> {
    let trimmed = trim_ascii(raw);
    let value = decimal_value(trimmed);
    if trimmed.len() == 0 {
        Err("prefix length segment is empty"@)
    } else if !all_decimal_digits(trimmed) {
        Err("prefix length `"@ + trimmed + "` must contain only ASCII decimal digits"@)
    } else if value > u32::MAX {
        Err("prefix length `"@ + trimmed + "` is not a valid decimal number"@)
    } else if value > 32 {
        Err("prefix length "@ + decimal_text(value) + " is greater than 32"@)
    } else {
        Ok(value as u8)
    }
}

/// What classless inter-domain routing text denotes, `(address, prefix_length)`, or the source
/// text and message it is rejected with.
pub open spec fn parse_cidr_text(value: Seq<char>) -> Result<(u32, u8), (Seq<char>, Seq<char>)> {
    let trimmed = trim_ascii(value);
    let pieces = split_on(trimmed, '/');
    if trimmed.len() == 0 {
        Err((value, "input is empty after trimming leading and trailing ASCII whitespace only"@))
    } else if pieces.len() < 2 {
        Err((trimmed, "expected a '/' separating the IPv4 address and prefix length"@))
    } else if pieces.len() > 2 {
        Err((trimmed, "expected exactly one '/' in the classless inter-domain routing notation"@))
    } else {
        let address_part = trim_ascii(pieces[0]);
        match parse_ipv4_text(address_part) {
            None => Err(
                (trimmed, "could not parse `"@ + address_part + "` as an IPv4 address"@),
            ),
            Some(address) => match parse_prefix_text(pieces[1]) {
                Err(message) => Err((trimmed, message)),
                Ok(prefix_length) => Ok((address, prefix_length)),
            },
        }
    }
}

/// `outcome` is what parsing `value` as classless inter-domain routing text gives.
pub open spec fn cidr_outcome_matches(value: Seq<char>, outcome: Result<Ipv4Cidr, AppError>) -> bool {
    match parse_cidr_text(value) {
        Ok((address, prefix_length)) => outcome == Ok::<Ipv4Cidr, AppError>(
            Ipv4Cidr { ipv4_address: address, prefix_length },
        ),
        Err((source, message)) => outcome matches Err(
            AppError::Ipv4CidrStringInvalid { source: s, message: m },
        ) && s@ == source && m@ == message,
    }
}

fn parse_decimal_prefix_length(characters: &Vec<char>, start: usize, end: usize) -> (prefix:
    Result<u8, String>)
    requires
        start <= end <= characters@.len(),
    ensures
        match parse_prefix_text(characters@.subrange(start as int, end as int)) {
            Ok(value) => prefix == Ok::<u8, String>(value),
            Err(message) => prefix matches Err(m) && m@ == message,
        },
{
    let (low, high) = trimmed_bounds(characters, start, end, true);
    let ghost trimmed = characters@.subrange(low as int, high as int);
    if low == high {
        return Err(String::from_str("prefix length segment is empty"));
    }
    let mut value: u64 = 0;
    let mut overflowed = false;
    let mut index = low;
    assert(characters@.subrange(low as int, low as int) =~= Seq::<char>::empty());
    while index < high
        invariant
            low <= index <= high <= characters@.len(),
            start <= end <= characters@.len(),
            low < high,
            trimmed == characters@.subrange(low as int, high as int),
            trimmed == trim_ascii(characters@.subrange(start as int, end as int)),
            all_decimal_digits(characters@.subrange(low as int, index as int)),
            !overflowed ==> value == decimal_value(characters@.subrange(low as int, index as int)),
            !overflowed ==> value <= u32::MAX,
            overflowed ==> decimal_value(characters@.subrange(low as int, index as int)) > u32::MAX,
        decreases high - index,
    {
        let ghost before = characters@.subrange(low as int, index as int);
        let ghost after = characters@.subrange(low as int, index + 1);
        assert(after.drop_last() =~= before);
        let c = characters[index];
        if !('0' <= c && c <= '9') {
            let mut message = String::new();
            push_text(&mut message, "prefix length `");
            let trimmed_text = string_from_range(characters, low, high);
            push_text(&mut message, trimmed_text.as_str());
            push_text(&mut message, "` must contain only ASCII decimal digits");
            proof {
                assert(trimmed[index - low] == c);
                assert(!is_decimal_digit(trimmed[index - low]));
                assert(!all_decimal_digits(trimmed));
                assert(message@ =~= "prefix length `"@ + trimmed
                    + "` must contain only ASCII decimal digits"@);
            }
            return Err(message);
        }
        let digit = (c as u32 - '0' as u32) as u64;
        proof {
            assert forall|i: int| 0 <= i < after.len() implies #[trigger] is_decimal_digit(after[i]) by {
                if i < before.len() {
                    assert(after[i] == before[i]);
                }
            }
        }
        if !overflowed {
            value = value * 10 + digit;
            if value > 0xFFFF_FFFF {
                overflowed = true;
            }
        }
        index = index + 1;
    }
    assert(characters@.subrange(low as int, high as int) == trimmed);
    if overflowed {
        let mut message = String::new();
        push_text(&mut message, "prefix length `");
        let trimmed_text = string_from_range(characters, low, high);
        push_text(&mut message, trimmed_text.as_str());
        push_text(&mut message, "` is not a valid decimal number");
        assert(message@ =~= "prefix length `"@ + trimmed + "` is not a valid decimal number"@);
        return Err(message);
    }
    if value > 32 {
        let mut message = String::new();
        push_text(&mut message, "prefix length ");
        push_decimal(&mut message, value as u128);
        push_text(&mut message, " is greater than 32");
        assert(message@ =~= "prefix length "@ + decimal_text(value as nat) + " is greater than 32"@);
        return Err(message);
    }
    Ok(value as u8)
}

impl Ipv4Cidr {
    /// Parses `value` as `dotted_decimal_ipv4 '/' decimal_prefix` after trimming leading and
    /// trailing ASCII whitespace only; each side of the slash may carry ASCII whitespace of its
    /// own.
    ///
    /// Returns [`AppError::Ipv4CidrStringInvalid`] when the string is empty, has no slash or more
    /// than one, has an address that is not dotted-decimal IPv4, or has a prefix that is empty,
    /// not decimal, not a `u32`, or greater than 32.
    pub fn try_from(value: &str) -> (outcome: Result<Ipv4Cidr, AppError>)
        ensures
            cidr_outcome_matches(value@, outcome),
    {
        let characters = chars_of(value);
        let (low, high) = trimmed_bounds(&characters, 0, characters.len(), true);
        proof {
            assert(characters@.subrange(0, characters@.len() as int) =~= value@);
        }
        if low == high {
            return Err(
                AppError::Ipv4CidrStringInvalid {
                    source: String::from_str(value),
                    message: String::from_str(
                        "input is empty after trimming leading and trailing ASCII whitespace only",
                    ),
                },
            );
        }
        let trimmed = chars_in_range(&characters, low, high);
        let pieces = split_bounds(&trimmed, '/');
        if pieces.len() < 2 {
            return Err(
                AppError::Ipv4CidrStringInvalid {
                    source: string_from_range(&characters, low, high),
                    message: String::from_str(
                        "expected a '/' separating the IPv4 address and prefix length",
                    ),
                },
            );
        }
        if pieces.len() > 2 {
            return Err(
                AppError::Ipv4CidrStringInvalid {
                    source: string_from_range(&characters, low, high),
                    message: String::from_str(
                        "expected exactly one '/' in the classless inter-domain routing notation",
                    ),
                },
            );
        }
        let ghost split = split_on(trimmed@, '/');
        let (address_start, address_end) = pieces[0];
        let (prefix_start, prefix_end) = pieces[1];
        proof {
            assert(delimits(trimmed@, pieces@[0], split[0]));
            assert(delimits(trimmed@, pieces@[1], split[1]));
        }
        let (address_low, address_high) = trimmed_bounds(&trimmed, address_start, address_end, true);
        let address_text = string_from_range(&trimmed, address_low, address_high);
        let address = match parse_ipv4_address(address_text.as_str()) {
            Some(address) => address,
            None => {
                let mut message = String::new();
                push_text(&mut message, "could not parse `");
                push_text(&mut message, address_text.as_str());
                push_text(&mut message, "` as an IPv4 address");
                return Err(
                    AppError::Ipv4CidrStringInvalid {
                        source: string_from_range(&characters, low, high),
                        message,
                    },
                );
            },
        };
        let prefix_length = match parse_decimal_prefix_length(&trimmed, prefix_start, prefix_end) {
            Ok(prefix_length) => prefix_length,
            Err(message) => {
                return Err(
                    AppError::Ipv4CidrStringInvalid {
                        source: string_from_range(&characters, low, high),
                        message,
                    },
                );
            },
        };
        Ok(Ipv4Cidr { ipv4_address: address, prefix_length })
    }

    /// Parses using the same rules as [`Ipv4Cidr::try_from`] (`FromStr`).
    pub fn from_str(string: &str) -> (outcome: Result<Ipv4Cidr, AppError>)
        ensures
            cidr_outcome_matches(string@, outcome),
    {
        Self::try_from(string)
    }
}


/// The addresses `first..=last` in ascending order.
pub open spec fn address_range(first: u32, last: u32) -> Seq<u32> {
    Seq::new((last - first + 1) as nat, |i: int| (first + i) as u32)
}

/// Iterator over IPv4 host addresses between network and broadcast (exclusive), without
/// allocating the full sequence.
#[derive(Clone, Copy, Debug, PartialEq, Eq)]
pub struct Ipv4HostAddressIterator {
    next_host_bits: Option<u32>,
    last_host_bits: u32,
}

impl Ipv4HostAddressIterator {
    /// A pending address never lies past the last one.
    #[verifier::type_invariant]
    spec fn next_not_past_last(self) -> bool {
        match self.next_host_bits {
            Some(next) => next <= self.last_host_bits,
            None => true,
        }
    }

    /// The addresses still to come, in order.
    pub closed spec fn remaining(self) -> Seq<u32> {
        match self.next_host_bits {
            Some(next) => if next <= self.last_host_bits {
                address_range(next, self.last_host_bits)
            } else {
                Seq::empty()
            },
            None => Seq::empty(),
        }
    }

    /// An iterator over `first_host_bits..=last_host_bits`.
    pub fn from_inclusive_host_range(first_host_bits: u32, last_host_bits: u32) -> (iterator:
        Ipv4HostAddressIterator)
        requires
            first_host_bits <= last_host_bits,
        ensures
            iterator.remaining() == address_range(first_host_bits, last_host_bits),
    {
        Ipv4HostAddressIterator { next_host_bits: Some(first_host_bits), last_host_bits }
    }

    /// Builds an iterator over the interior hosts of the subnet of `ipv4_address` under
    /// `ipv4_netmask`, with the errors of [`inclusive_host_address_range_excluding_edges`].
    pub fn try_from_ipv4_address_on_subnet(ipv4_address: u32, ipv4_netmask: u32) -> (iterator: Result<
        Ipv4HostAddressIterator,
        AppError,
    >)
        ensures
            match iterator {
                Ok(iterator) => {
                    &&& exists|p: nat| p <= 30 && netmask_of_prefix(p) == ipv4_netmask
                    &&& iterator.remaining() == address_range(
                        (network_address(ipv4_address, ipv4_netmask) + 1) as u32,
                        (broadcast_address(ipv4_address, ipv4_netmask) - 1) as u32,
                    )
                },
                Err(AppError::Ipv4NetmaskInvalid { netmask: text }) => !is_contiguous_netmask(
                    ipv4_netmask,
                ) && text@ == ipv4_text(ipv4_netmask),
                Err(AppError::Ipv4SubnetUnsupported { message }) => exists|p: u8|
                    31 <= p <= 32 && netmask_of_prefix(p as nat) == ipv4_netmask && message@
                        == unsupported_prefix_message(p),
                Err(_) => false,
            },
    {
        let (first_host_bits, last_host_bits) = match inclusive_host_address_range_excluding_edges(
            ipv4_address,
            ipv4_netmask,
        ) {
            Ok(range) => range,
            Err(error) => {
                return Err(error);
            },
        };
        Ok(Ipv4HostAddressIterator { next_host_bits: Some(first_host_bits), last_host_bits })
    }

    /// Returns the next host address, or `None` once the range is exhausted (and on every call
    /// after that).
    pub fn next(&mut self) -> (item: Option<u32>)
        ensures
            old(self).remaining().len() == 0 ==> item is None && final(self).remaining().len()
                == 0,
            old(self).remaining().len() > 0 ==> item == Some(old(self).remaining()[0])
                && final(self).remaining() == old(self).remaining().drop_first(),
    {
        proof {
            use_type_invariant(&*self);
        }
        let current_bits = match self.next_host_bits {
            Some(current_bits) => current_bits,
            None => {
                return None;
            },
        };
        if current_bits == self.last_host_bits {
            self.next_host_bits = None;
        } else {
            self.next_host_bits = Some(current_bits + 1);
        }
        proof {
            let before = old(self).remaining();
            assert(final(self).remaining() =~= before.drop_first());
        }
        Some(current_bits)
    }

    /// Returns the exact number of remaining addresses as both bounds, or `(0, None)` when that
    /// number does not fit `usize`.
    pub fn size_hint(&self) -> (hint: (usize, Option<usize>))
        ensures
            self.remaining().len() <= usize::MAX ==> hint == (
                self.remaining().len() as usize,
                Some(self.remaining().len() as usize),
            ),
            self.remaining().len() > usize::MAX ==> hint == (0usize, None::<usize>),
    {
        proof {
            use_type_invariant(self);
        }
        match self.next_host_bits {
            None => (0, Some(0)),
            Some(first_host_bits) => {
                let span: u64 = (self.last_host_bits - first_host_bits) as u64 + 1;
                if span <= usize::MAX as u64 {
                    let count = span as usize;
                    (count, Some(count))
                } else {
                    (0, None)
                }
            },
        }
    }
}

impl Ipv4Cidr {
    /// Returns an iterator over usable host addresses, excluding network and broadcast, using the
    /// same rules as [`inclusive_host_address_range_excluding_edges`] on the netmask of the
    /// prefix length.
    pub fn host_address_iterator(&self) -> (iterator: Result<Ipv4HostAddressIterator, AppError>)
        ensures
            ({
                let netmask = netmask_of_prefix(self.prefix_length as nat);
                match iterator {
                    Ok(iterator) => {
                        &&& self.prefix_length <= 30
                        &&& iterator.remaining() == address_range(
                            (network_address(self.ipv4_address, netmask) + 1) as u32,
                            (broadcast_address(self.ipv4_address, netmask) - 1) as u32,
                        )
                    },
                    Err(AppError::Ipv4SubnetUnsupported { message }) => self.prefix_length >= 31
                        && message@ == unsupported_prefix_message(
                        if self.prefix_length > 32 {
                            32
                        } else {
                            self.prefix_length
                        },
                    ),
                    Err(_) => false,
                }
            }),
    {
        let ipv4_netmask = contiguous_ipv4_netmask_from_prefix_length(self.prefix_length);
        let ghost p: nat = if self.prefix_length > 32 {
            32
        } else {
            self.prefix_length as nat
        };
        proof {
            assert(netmask_of_prefix(p) == ipv4_netmask);
            crate::ipv4_subnet::lemma_prefix_length_of_netmask(p, ipv4_netmask);
        }
        Ipv4HostAddressIterator::try_from_ipv4_address_on_subnet(self.ipv4_address, ipv4_netmask)
    }
}

} // verus!
