//! Validates network interface names before they reach the kernel, and lays them out for
//! interface requests.

use vstd::prelude::*;

use crate::error::AppError;
use crate::text::{decimal_text, push_decimal, push_text, utf8_octets};

verus! {

/// Matches Linux `IFNAMSIZ` from `linux/if.h`.
pub const INTERFACE_NAME_BUFFER_SIZE: usize = 16;

/// Maximum number of non-null bytes in an interface name (excluding the terminator).
pub const INTERFACE_NAME_MAXIMUM_BYTES: usize = 15;

/// Why `name` cannot name an interface, or `None` when it can: it is empty, longer than 15
/// octets in UTF-8, or holds a `/` or a NUL octet, checked in that order.
pub open spec fn interface_name_problem(name: Seq<char>) -> Option<Seq<char>> {
    let octets = utf8_octets(name);
    if name.len() == 0 {
        Some("interface name must not be empty"@)
    } else if octets.len() > INTERFACE_NAME_MAXIMUM_BYTES {
        Some("interface name must be at most 15 bytes, got "@ + decimal_text(octets.len()))
    } else if name.contains('/') {
        Some("interface name must not contain '/'"@)
    } else if octets.contains(0u8) {
        Some("interface name must not contain a NUL byte"@)
    } else {
        None
    }
}

/// Returns [`AppError::InvalidInterfaceName`] when `interface_name` cannot be used with link-layer
/// socket APIs: when the name is empty, longer than 15 octets, or contains a slash or a NUL octet.
pub fn validate_interface_name_for_linux_packet_socket(interface_name: &str) -> (validation: Result<
    (),
    AppError,
>)
    ensures
        match interface_name_problem(interface_name@) {
            None => validation is Ok,
            Some(problem) => validation matches Err(AppError::InvalidInterfaceName { message })
                && message@ == problem,
        },
{
    if interface_name.is_empty() {
        return Err(
            AppError::InvalidInterfaceName {
                message: String::from_str("interface name must not be empty"),
            },
        );
    }
    let octets = interface_name.as_bytes();
    let length = octets.len();
    if length > INTERFACE_NAME_MAXIMUM_BYTES {
        let mut message = String::new();
        push_text(&mut message, "interface name must be at most 15 bytes, got ");
        push_decimal(&mut message, length as u128);
        assert(message@ =~= "interface name must be at most 15 bytes, got "@ + decimal_text(
            utf8_octets(interface_name@).len(),
        ));
        return Err(AppError::InvalidInterfaceName { message });
    }
    let characters = crate::text::chars_of(interface_name);
    let mut index: usize = 0;
    while index < characters.len()
        invariant
            index <= characters@.len(),
            characters@ == interface_name@,
            interface_name@.len() > 0,
            utf8_octets(interface_name@).len() <= INTERFACE_NAME_MAXIMUM_BYTES,
            forall|j: int| 0 <= j < index ==> characters@[j] != '/',
        decreases characters@.len() - index,
    {
        if characters[index] == '/' {
            proof {
                assert(interface_name@.contains('/')) by {
                    assert(interface_name@[index as int] == '/');
                }
            }
            return Err(
                AppError::InvalidInterfaceName {
                    message: String::from_str("interface name must not contain '/'"),
                },
            );
        }
        index = index + 1;
    }
    proof {
        assert(!interface_name@.contains('/')) by {
            if interface_name@.contains('/') {
                let j = choose|j: int| 0 <= j < interface_name@.len() && interface_name@[j] == '/';
                assert(characters@[j] == '/');
            }
        }
    }
    let mut position: usize = 0;
    while position < length
        invariant
            position <= length,
            length == octets@.len(),
            octets@ == utf8_octets(interface_name@),
            interface_name@.len() > 0,
            utf8_octets(interface_name@).len() <= INTERFACE_NAME_MAXIMUM_BYTES,
            !interface_name@.contains('/'),
            forall|j: int| 0 <= j < position ==> octets@[j] != 0u8,
        decreases length - position,
    {
        if octets[position] == 0 {
            proof {
                assert(octets@.contains(0u8)) by {
                    assert(octets@[position as int] == 0u8);
                }
            }
            return Err(
                AppError::InvalidInterfaceName {
                    message: String::from_str("interface name must not contain a NUL byte"),
                },
            );
        }
        position = position + 1;
    }
    proof {
        assert(!octets@.contains(0u8)) by {
            if octets@.contains(0u8) {
                let j = choose|j: int| 0 <= j < octets@.len() && octets@[j] == 0u8;
                assert(octets@[j] != 0u8);
            }
        }
    }
    Ok(())
}

/// The 16 octets of a kernel interface request name: the UTF-8 octets of `interface_name`
/// followed by zeros.
pub open spec fn interface_request_name(name: Seq<char>) -> Seq<u8> {
    utf8_octets(name) + Seq::new(
        (INTERFACE_NAME_BUFFER_SIZE - utf8_octets(name).len()) as nat,
        |i: int| 0u8,
    )
}

/// Lays out `interface_name` as the `ifr_name` field of `struct ifreq` for `ioctl(2)` requests:
/// its octets, then zero padding up to [`INTERFACE_NAME_BUFFER_SIZE`].
///
/// Returns [`AppError::InvalidInterfaceName`] when the name does not leave room for the
/// terminating NUL. Callers that take the name from untrusted input check it with
/// [`validate_interface_name_for_linux_packet_socket`] first.
pub fn interface_request_name_octets(interface_name: &str) -> (name: Result<
    [u8; INTERFACE_NAME_BUFFER_SIZE],
    AppError,
>)
    ensures
        utf8_octets(interface_name@).len() >= INTERFACE_NAME_BUFFER_SIZE ==> (name matches Err(
            AppError::InvalidInterfaceName { message },
        ) && message@ == "interface name must be shorter than 16 bytes"@),
        utf8_octets(interface_name@).len() < INTERFACE_NAME_BUFFER_SIZE ==> (name matches Ok(
            octets,
        ) && octets@ == interface_request_name(interface_name@)),
{
    let octets = interface_name.as_bytes();
    let length = octets.len();
    if length >= INTERFACE_NAME_BUFFER_SIZE {
        return Err(
            AppError::InvalidInterfaceName {
                message: String::from_str("interface name must be shorter than 16 bytes"),
            },
        );
    }
    let mut name = [0u8; INTERFACE_NAME_BUFFER_SIZE];
    let mut index: usize = 0;
    while index < length
        invariant
            index <= length < INTERFACE_NAME_BUFFER_SIZE,
            length == octets@.len(),
            name@.len() == INTERFACE_NAME_BUFFER_SIZE,
            forall|j: int| 0 <= j < index ==> name@[j] == octets@[j],
            forall|j: int| index <= j < INTERFACE_NAME_BUFFER_SIZE ==> name@[j] == 0u8,
        decreases length - index,
    {
        name[index] = octets[index];
        index = index + 1;
    }
    assert(name@ =~= interface_request_name(interface_name@));
    Ok(name)
}

} // verus!
