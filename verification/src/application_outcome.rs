//! Successful outcomes of a command and the operator-facing text the binary prints for them.
//!
//! A scan prints its discovered hosts on standard output and its warnings, then one timing
//! summary line, on standard error. A usable-interface listing prints a plain table on standard
//! output.

use vstd::prelude::*;

use crate::ipv4_text::{ipv4_string, ipv4_text, push_ipv4_text};
use crate::mac_address::{colon_hex_text, MacAddress};
use crate::mac_vendor_registry::{
    longest_prefix_vendor, uppercase_hex_text, MacVendorRegistry, UNKNOWN_MAC_VENDOR_NAME,
};
use crate::scanner::NANOSECONDS_PER_MILLISECOND;
use crate::text::{decimal_string, decimal_text, push_char, push_decimal, push_text};

verus! {

/// Width of the interface name column of the usable-interface table.
pub const USABLE_INTERFACE_TABLE_NAME_WIDTH: usize = 16;

/// Width of the interface index column of the usable-interface table.
pub const USABLE_INTERFACE_TABLE_INDEX_WIDTH: usize = 6;

/// Width of the IPv4 address column of the usable-interface table.
pub const USABLE_INTERFACE_TABLE_IPV4_WIDTH: usize = 15;

/// Width of the netmask column of the usable-interface table.
pub const USABLE_INTERFACE_TABLE_NETMASK_WIDTH: usize = 15;

/// A host observed on the local data-link segment during an address resolution scan.
#[derive(Debug, Clone, Copy, PartialEq, Eq, PartialOrd, Ord)]
pub struct DiscoveredHost {
    /// IPv4 address reported in the address resolution reply.
    pub ipv4_address: u32,
    /// Ethernet media access control address reported in the address resolution reply.
    pub media_access_control_address: MacAddress,
}

/// Wall-clock context of a completed scan, for the operator-facing summary line.
#[derive(Debug, Clone, PartialEq, Eq)]
pub struct ScanTimingSummary {
    /// Interface the scan ran on.
    pub interface_name: String,
    /// Wall-clock time the scan took, in whole milliseconds.
    pub elapsed_milliseconds: u128,
    /// Number of request rounds that ran.
    pub scan_round_count: u64,
    /// Number of hosts discovered.
    pub discovered_host_count: usize,
}

/// Outcome of an address resolution scan (discovered hosts and non-fatal warnings).
#[derive(Debug, Clone, PartialEq, Eq)]
pub struct ScanOutcome {
    /// Hosts discovered during scanning, sorted by IPv4 ascending.
    pub discovered_hosts: Vec<DiscoveredHost>,
    /// Non-fatal warnings (for example malformed frames, per-target send failures, or
    /// conflicting duplicate address resolution replies for the same IPv4).
    pub warnings: Vec<String>,
    /// Timing context, once the scan has been timed.
    pub timing_summary: Option<ScanTimingSummary>,
}

/// One row in the usable-interface listing table.
#[derive(Debug, Clone, PartialEq, Eq)]
pub struct UsableInterfaceListingRow {
    /// Operating system interface name.
    pub interface_name: String,
    /// Operating system interface index.
    pub interface_index: u32,
    /// Primary IPv4 address.
    pub ipv4_address: u32,
    /// IPv4 netmask.
    pub ipv4_netmask: u32,
    /// Ethernet hardware address.
    pub media_access_control_address: MacAddress,
}

/// Outcome of listing interfaces that are usable for ARP scanning.
#[derive(Debug, Clone, PartialEq, Eq)]
pub struct UsableInterfacesListOutcome {
    /// Usable interfaces, sorted by interface index then name.
    pub entries: Vec<UsableInterfaceListingRow>,
}

/// Successful outcome of a command.
#[derive(Debug, Clone, PartialEq, Eq)]
pub enum ApplicationOutcome {
    /// Completed scan.
    Scan(ScanOutcome),
    /// Listed interfaces usable for ARP scanning.
    UsableInterfacesList(UsableInterfacesListOutcome),
}

/// `count` spaces.
pub open spec fn spaces(count: nat) -> Seq<char> {
    Seq::new(count, |i: int| ' ')
}

/// `text` padded with spaces on the right to `width` characters (`{:<width}`).
pub open spec fn padded_right(text: Seq<char>, width: nat) -> Seq<char> {
    if text.len() >= width {
        text
    } else {
        text + spaces((width - text.len()) as nat)
    }
}

/// `text` padded with spaces on the left to `width` characters (`{:>width}`).
pub open spec fn padded_left(text: Seq<char>, width: nat) -> Seq<char> {
    if text.len() >= width {
        text
    } else {
        spaces((width - text.len()) as nat) + text
    }
}

/// The header line of the usable-interface table.
pub open spec fn table_header_line() -> Seq<char> {
    padded_right("NAME"@, 16) + " "@ + padded_left("INDEX"@, 6) + " "@ + padded_right("IPV4"@, 15)
        + " "@ + padded_right("NETMASK"@, 15) + " MAC\n"@
}

/// The table line of one usable interface.
pub open spec fn table_row_line(row: UsableInterfaceListingRow) -> Seq<char> {
    padded_right(row.interface_name@, 16) + " "@ + padded_left(
        decimal_text(row.interface_index as nat),
        6,
    ) + " "@ + padded_right(ipv4_text(row.ipv4_address), 15) + " "@ + padded_right(
        ipv4_text(row.ipv4_netmask),
        15,
    ) + " "@ + colon_hex_text(row.media_access_control_address@) + "\n"@
}

/// The table lines of the first `count` rows.
pub open spec fn table_rows(rows: Seq<UsableInterfaceListingRow>, count: nat) -> Seq<char>
    decreases count,
{
    if count == 0 || count > rows.len() {
        Seq::empty()
    } else {
        table_rows(rows, (count - 1) as nat) + table_row_line(rows[count - 1])
    }
}

/// The whole usable-interface listing: a fixed message when there are no entries, otherwise the
/// header, one line per entry in entry order, and a closing empty line.
pub open spec fn usable_interface_table(rows: Seq<UsableInterfaceListingRow>) -> Seq<char> {
    if rows.len() == 0 {
        "no usable interfaces found\n"@
    } else {
        table_header_line() + table_rows(rows, rows.len()) + "\n"@
    }
}

/// Appends `text` padded with spaces on the right to `width` characters.
fn push_padded_right(buffer: &mut String, text: &str, width: usize)
    ensures
        final(buffer)@ == old(buffer)@ + padded_right(text@, width as nat),
{
    let length = text.unicode_len();
    push_text(buffer, text);
    let mut count = length;
    let ghost start = old(buffer)@ + text@;
    while count < width
        invariant
            length == text@.len(),
            length <= count,
            count == length || count <= width,
            buffer@ == start + spaces((count - length) as nat),
        decreases width - count,
    {
        push_char(buffer, ' ');
        count = count + 1;
        assert(buffer@ =~= start + spaces((count - length) as nat));
    }
    if length >= width {
        assert(spaces((count - length) as nat) =~= Seq::<char>::empty());
    }
    assert(buffer@ =~= old(buffer)@ + padded_right(text@, width as nat));
}

/// Appends `text` padded with spaces on the left to `width` characters.
fn push_padded_left(buffer: &mut String, text: &str, width: usize)
    ensures
        final(buffer)@ == old(buffer)@ + padded_left(text@, width as nat),
{
    let length = text.unicode_len();
    let mut count = length;
    let ghost start = old(buffer)@;
    while count < width
        invariant
            length == text@.len(),
            length <= count,
            count == length || count <= width,
            buffer@ == start + spaces((count - length) as nat),
        decreases width - count,
    {
        push_char(buffer, ' ');
        count = count + 1;
        assert(buffer@ =~= start + spaces((count - length) as nat));
    }
    push_text(buffer, text);
    if length >= width {
        assert(spaces((count - length) as nat) =~= Seq::<char>::empty());
    }
    assert(buffer@ =~= old(buffer)@ + padded_left(text@, width as nat));
}

/// Appends the table line of one usable interface.
fn push_table_row(lines: &mut String, entry: &UsableInterfaceListingRow)
    ensures
        final(lines)@ == old(lines)@ + table_row_line(*entry),
{
    push_padded_right(lines, entry.interface_name.as_str(), USABLE_INTERFACE_TABLE_NAME_WIDTH);
    push_text(lines, " ");
    let index_text = decimal_string(entry.interface_index as u128);
    push_padded_left(lines, index_text.as_str(), USABLE_INTERFACE_TABLE_INDEX_WIDTH);
    push_text(lines, " ");
    let address_text = ipv4_string(entry.ipv4_address);
    push_padded_right(lines, address_text.as_str(), USABLE_INTERFACE_TABLE_IPV4_WIDTH);
    push_text(lines, " ");
    let netmask_text = ipv4_string(entry.ipv4_netmask);
    push_padded_right(lines, netmask_text.as_str(), USABLE_INTERFACE_TABLE_NETMASK_WIDTH);
    push_text(lines, " ");
    let mac_text = entry.media_access_control_address.to_string();
    push_text(lines, mac_text.as_str());
    push_text(lines, "\n");
    assert(lines@ =~= old(lines)@ + table_row_line(*entry));
}

impl UsableInterfacesListOutcome {
    /// Formats a plain-text table with aligned columns, or a single message when there are no
    /// entries. Rows follow the order of `entries`.
    pub fn format_plain_columns_table(&self) -> (table: String)
        ensures
            table@ == usable_interface_table(self.entries@),
    {
        if self.entries.len() == 0 {
            return String::from_str("no usable interfaces found\n");
        }
        let mut lines = String::new();
        push_padded_right(&mut lines, "NAME", USABLE_INTERFACE_TABLE_NAME_WIDTH);
        push_text(&mut lines, " ");
        push_padded_left(&mut lines, "INDEX", USABLE_INTERFACE_TABLE_INDEX_WIDTH);
        push_text(&mut lines, " ");
        push_padded_right(&mut lines, "IPV4", USABLE_INTERFACE_TABLE_IPV4_WIDTH);
        push_text(&mut lines, " ");
        push_padded_right(&mut lines, "NETMASK", USABLE_INTERFACE_TABLE_NETMASK_WIDTH);
        push_text(&mut lines, " MAC\n");
        assert(lines@ =~= table_header_line() + table_rows(self.entries@, 0));
        let mut index: usize = 0;
        while index < self.entries.len()
            invariant
                index <= self.entries@.len(),
                lines@ == table_header_line() + table_rows(self.entries@, index as nat),
            decreases self.entries@.len() - index,
        {
            let ghost before = lines@;
            push_table_row(&mut lines, &self.entries[index]);
            assert(table_rows(self.entries@, (index + 1) as nat) == table_rows(self.entries@, index as nat)
                + table_row_line(self.entries@[index as int]));
            assert(lines@ =~= table_header_line() + table_rows(self.entries@, (index + 1) as nat));
            index = index + 1;
        }
        push_char(&mut lines, '\n');
        proof {
            reveal_strlit("\n");
        }
        assert(lines@ =~= usable_interface_table(self.entries@));
        lines
    }
}


/// The noun `singular` when `count` is one, otherwise `singular` followed by `s`.
pub open spec fn counted_noun(count: nat, singular: Seq<char>) -> Seq<char> {
    if count == 1 {
        singular
    } else {
        singular + "s"@
    }
}

/// The operator-facing timing summary line (without a line terminator):
/// `scan complete: interface <NAME>, <N> host(s), <R> round(s), <MS> ms`.
pub open spec fn timing_summary_line(summary: ScanTimingSummary) -> Seq<char> {
    "scan complete: interface "@ + summary.interface_name@ + ", "@ + decimal_text(
        summary.discovered_host_count as nat,
    ) + " "@ + counted_noun(summary.discovered_host_count as nat, "host"@) + ", "@ + decimal_text(
        summary.scan_round_count as nat,
    ) + " "@ + counted_noun(summary.scan_round_count as nat, "round"@) + ", "@ + decimal_text(
        summary.elapsed_milliseconds as nat,
    ) + " ms"@
}

impl ScanTimingSummary {
    /// Formats the stable operator-facing timing summary line (no trailing newline), with the
    /// singular `host` / `round` when the count is one.
    pub fn format_stderr_timing_summary_line(&self) -> (line: String)
        ensures
            line@ == timing_summary_line(*self),
    {
        let mut line = String::from_str("scan complete: interface ");
        push_text(&mut line, self.interface_name.as_str());
        push_text(&mut line, ", ");
        push_decimal(&mut line, self.discovered_host_count as u128);
        if self.discovered_host_count == 1 {
            push_text(&mut line, " host");
        } else {
            push_text(&mut line, " hosts");
        }
        push_text(&mut line, ", ");
        push_decimal(&mut line, self.scan_round_count as u128);
        if self.scan_round_count == 1 {
            push_text(&mut line, " round");
        } else {
            push_text(&mut line, " rounds");
        }
        push_text(&mut line, ", ");
        push_decimal(&mut line, self.elapsed_milliseconds);
        push_text(&mut line, " ms");
        proof {
            reveal_strlit("scan complete: interface ");
            reveal_strlit(", ");
            reveal_strlit(" host");
            reveal_strlit(" hosts");
            reveal_strlit(" round");
            reveal_strlit(" rounds");
            reveal_strlit(" ");
            reveal_strlit("host");
            reveal_strlit("round");
            reveal_strlit("s");
            reveal_strlit(" ms");
        }
        assert(" host"@ =~= " "@ + counted_noun(1, "host"@));
        assert(" hosts"@ =~= " "@ + counted_noun(2, "host"@));
        assert(" round"@ =~= " "@ + counted_noun(1, "round"@));
        assert(" rounds"@ =~= " "@ + counted_noun(2, "round"@));
        assert(line@ =~= timing_summary_line(*self));
        line
    }
}

impl ScanOutcome {
    /// Attaches the timing summary of a completed scan: the interface it ran on, the wall-clock
    /// time it took (`elapsed_nanoseconds`, reported in whole milliseconds, rounded down), the
    /// number of rounds, and the number of hosts discovered. Hosts and warnings are unchanged.
    pub fn with_scan_timing_summary(
        self,
        interface_name: String,
        elapsed_nanoseconds: u128,
        scan_round_count: u64,
    ) -> (outcome: ScanOutcome)
        ensures
            outcome.discovered_hosts@ == self.discovered_hosts@,
            outcome.warnings@ == self.warnings@,
            outcome.timing_summary == Some(
                ScanTimingSummary {
                    interface_name,
                    elapsed_milliseconds: elapsed_nanoseconds / NANOSECONDS_PER_MILLISECOND,
                    scan_round_count,
                    discovered_host_count: self.discovered_hosts@.len() as usize,
                },
            ),
    {
        let discovered_host_count = self.discovered_hosts.len();
        ScanOutcome {
            discovered_hosts: self.discovered_hosts,
            warnings: self.warnings,
            timing_summary: Some(
                ScanTimingSummary {
                    interface_name,
                    elapsed_milliseconds: elapsed_nanoseconds / NANOSECONDS_PER_MILLISECOND,
                    scan_round_count,
                    discovered_host_count,
                },
            ),
        }
    }
}

/// The vendor mappings of an optional registry.
pub open spec fn registry_mappings(registry: Option<&MacVendorRegistry>) -> Option<
    Map<Seq<char>, Seq<char>>,
> {
    match registry {
        Some(r) => Some(r.mappings()),
        None => None,
    }
}

/// The vendor column of a host line: nothing without a registry, otherwise a space and the vendor
/// of the longest matching prefix, or `(Unknown)`.
pub open spec fn vendor_column(
    vendors: Option<Map<Seq<char>, Seq<char>>>,
    address: MacAddress,
) -> Seq<char> {
    match vendors {
        None => Seq::empty(),
        Some(mappings) => " "@ + match longest_prefix_vendor(
            mappings,
            uppercase_hex_text(address@),
            12,
        ) {
            Some(name) => name,
            None => UNKNOWN_MAC_VENDOR_NAME@,
        },
    }
}

/// The standard output line of one discovered host: `<IPv4> <MAC>[ <vendor>]`.
pub open spec fn host_line(host: DiscoveredHost, vendors: Option<Map<Seq<char>, Seq<char>>>) -> Seq<
    char,
> {
    ipv4_text(host.ipv4_address) + " "@ + colon_hex_text(host.media_access_control_address@)
        + vendor_column(vendors, host.media_access_control_address) + "\n"@
}

/// The host lines of the first `count` hosts.
pub open spec fn host_lines(
    hosts: Seq<DiscoveredHost>,
    vendors: Option<Map<Seq<char>, Seq<char>>>,
    count: nat,
) -> Seq<char>
    decreases count,
{
    if count == 0 || count > hosts.len() {
        Seq::empty()
    } else {
        host_lines(hosts, vendors, (count - 1) as nat) + host_line(hosts[count - 1], vendors)
    }
}

/// The standard error lines of the first `count` warnings, each `warning: <text>`.
pub open spec fn warning_lines(warnings: Seq<String>, count: nat) -> Seq<char>
    decreases count,
{
    if count == 0 || count > warnings.len() {
        Seq::empty()
    } else {
        warning_lines(warnings, (count - 1) as nat) + "warning: "@ + warnings[count - 1]@ + "\n"@
    }
}

/// What a scan prints on standard output: one line per host in host order, or `no hosts found`.
pub open spec fn scan_standard_output(
    hosts: Seq<DiscoveredHost>,
    vendors: Option<Map<Seq<char>, Seq<char>>>,
) -> Seq<char> {
    if hosts.len() == 0 {
        "no hosts found\n"@
    } else {
        host_lines(hosts, vendors, hosts.len())
    }
}

/// What a scan prints on standard error: one line per warning in warning order, then the timing
/// summary line when the scan has been timed.
pub open spec fn scan_standard_error(outcome: ScanOutcome) -> Seq<char> {
    warning_lines(outcome.warnings@, outcome.warnings@.len()) + match outcome.timing_summary {
        Some(summary) => timing_summary_line(summary) + "\n"@,
        None => Seq::empty(),
    }
}

/// What a successful command prints on standard output.
pub open spec fn outcome_standard_output(
    outcome: ApplicationOutcome,
    vendors: Option<Map<Seq<char>, Seq<char>>>,
) -> Seq<char> {
    match outcome {
        ApplicationOutcome::Scan(scan) => scan_standard_output(scan.discovered_hosts@, vendors),
        ApplicationOutcome::UsableInterfacesList(listing) => usable_interface_table(
            listing.entries@,
        ),
    }
}

/// What a successful command prints on standard error.
pub open spec fn outcome_standard_error(outcome: ApplicationOutcome) -> Seq<char> {
    match outcome {
        ApplicationOutcome::Scan(scan) => scan_standard_error(scan),
        ApplicationOutcome::UsableInterfacesList(_) => Seq::empty(),
    }
}

/// Appends the standard output line of one discovered host.
fn push_host_line(text: &mut String, host: &DiscoveredHost, registry: Option<&MacVendorRegistry>)
    ensures
        final(text)@ == old(text)@ + host_line(*host, registry_mappings(registry)),
{
    push_ipv4_text(text, host.ipv4_address);
    push_text(text, " ");
    let mac_text = host.media_access_control_address.to_string();
    push_text(text, mac_text.as_str());
    let ghost before_vendor = text@;
    match registry {
        Some(registry) => {
            push_text(text, " ");
            match registry.vendor_name_for(host.media_access_control_address) {
                Some(name) => push_text(text, name),
                None => push_text(text, UNKNOWN_MAC_VENDOR_NAME),
            }
        },
        None => {},
    }
    assert(text@ =~= before_vendor + vendor_column(
        registry_mappings(registry),
        host.media_access_control_address,
    ));
    push_text(text, "\n");
    assert(text@ =~= old(text)@ + host_line(*host, registry_mappings(registry)));
}

impl ApplicationOutcome {
    /// The text the binary prints on standard output for this outcome. Scan hosts are printed
    /// as `<IPv4> <MAC>` lines in host order, with a vendor column (or `(Unknown)`) when a
    /// vendor registry is given, and `no hosts found` when there are none; an interface listing
    /// is printed as its table.
    pub fn standard_output_text(&self, registry: Option<&MacVendorRegistry>) -> (text: String)
        ensures
            text@ == outcome_standard_output(*self, registry_mappings(registry)),
    {
        match self {
            ApplicationOutcome::Scan(scan) => {
                if scan.discovered_hosts.len() == 0 {
                    return String::from_str("no hosts found\n");
                }
                let mut text = String::new();
                let mut index: usize = 0;
                while index < scan.discovered_hosts.len()
                    invariant
                        index <= scan.discovered_hosts@.len(),
                        text@ == host_lines(
                            scan.discovered_hosts@,
                            registry_mappings(registry),
                            index as nat,
                        ),
                    decreases scan.discovered_hosts@.len() - index,
                {
                    push_host_line(&mut text, &scan.discovered_hosts[index], registry);
                    index = index + 1;
                }
                text
            },
            ApplicationOutcome::UsableInterfacesList(listing) => {
                listing.format_plain_columns_table()
            },
        }
    }

    /// The text the binary prints on standard error for this outcome: for a scan, one
    /// `warning: ...` line per warning in order, then the timing summary line when present;
    /// nothing for an interface listing.
    pub fn standard_error_text(&self) -> (text: String)
        ensures
            text@ == outcome_standard_error(*self),
    {
        let mut text = String::new();
        match self {
            ApplicationOutcome::Scan(scan) => {
                let mut index: usize = 0;
                while index < scan.warnings.len()
                    invariant
                        index <= scan.warnings@.len(),
                        text@ == warning_lines(scan.warnings@, index as nat),
                    decreases scan.warnings@.len() - index,
                {
                    let ghost before = text@;
                    push_text(&mut text, "warning: ");
                    push_text(&mut text, scan.warnings[index].as_str());
                    push_text(&mut text, "\n");
                    assert(text@ =~= warning_lines(scan.warnings@, (index + 1) as nat));
                    index = index + 1;
                }
                match &scan.timing_summary {
                    Some(summary) => {
                        let line = summary.format_stderr_timing_summary_line();
                        push_text(&mut text, line.as_str());
                        push_text(&mut text, "\n");
                    },
                    None => {},
                }
                assert(text@ =~= scan_standard_error(*scan));
            },
            ApplicationOutcome::UsableInterfacesList(_) => {
                assert(text@ =~= Seq::<char>::empty());
            },
        }
        text
    }
}

} // verus!
