//! What the host tells of itself: the output of commands, the addresses of its
//! interfaces and the user that a process runs as.

use vstd::prelude::*;

use crate::address;
use crate::address::IpAddr;
use crate::text;

verus! {

/// What a command left behind.
#[derive(Debug, PartialEq, Eq)]
pub struct CommandOutput {
    pub success: bool,
    pub stdout: String,
    pub stderr: String,
}

/// An address of an interface.
#[derive(Debug, PartialEq, Eq)]
pub struct InterfaceAddress {
    pub interface: String,
    pub address: IpAddr,
}

#[verifier::ext_equal]
pub struct InterfaceAddressView {
    pub interface: Seq<char>,
    pub address: IpAddr,
}

impl View for InterfaceAddress {
    type V = InterfaceAddressView;

    open spec fn view(&self) -> InterfaceAddressView {
        InterfaceAddressView { interface: self.interface@, address: self.address }
    }
}

/// The models of a list of addresses.
pub open spec fn interface_views(v: Seq<InterfaceAddress>) -> Seq<InterfaceAddressView> {
    v.map_values(|a: InterfaceAddress| a@)
}

/// The address that a field starts with, unless it is the unspecified one.
pub open spec fn field_address(field: Seq<char>) -> Option<IpAddr> {
    match address::ip_of(text::pieces(field, '/')[0]) {
        Some(ip) => if ip.spec_unspecified() {
            None
        } else {
            Some(ip)
        },
        None => None,
    }
}

/// The addresses among the first `n` fields of a line behind the interface and its
/// status.
pub open spec fn field_addresses(fields: Seq<Seq<char>>, n: int) -> Seq<InterfaceAddressView>
    decreases n,
{
    if n <= 2 {
        Seq::empty()
    } else {
        let before = field_addresses(fields, n - 1);
        match field_address(fields[n - 1]) {
            Some(ip) => before.push(InterfaceAddressView { interface: fields[0], address: ip }),
            None => before,
        }
    }
}

/// The addresses that a line tells of.
pub open spec fn line_addresses(line: Seq<char>) -> Seq<InterfaceAddressView> {
    let fields = text::words(line);
    field_addresses(fields, fields.len() as int)
}

/// The addresses that the first `n` lines tell of.
pub open spec fn addresses_of(lines: Seq<Seq<char>>, n: int) -> Seq<InterfaceAddressView>
    decreases n,
{
    if n <= 0 {
        Seq::empty()
    } else {
        addresses_of(lines, n - 1) + line_addresses(lines[n - 1])
    }
}

/// The addresses that the output of `ip -brief address` tells of.
pub open spec fn listed_addresses(output: Seq<char>) -> Seq<InterfaceAddressView> {
    let lines = text::pieces(output, '\n');
    addresses_of(lines, lines.len() as int)
}

/// The address that a field starts with, unless it is the unspecified one.
fn read_field(field: &Vec<char>) -> (r: Option<IpAddr>)
    ensures
        r == field_address(field@),
{
    let p = text::split_pieces(field, '/');
    proof {
        text::lemma_pieces_nonempty(field@, '/');
        assert(text::char_views(p@).len() == p@.len());
        assert(text::char_views(p@)[0] == p@[0]@);
    }
    match address::read_ip_chars(&p[0]) {
        Some(ip) => {
            if ip.is_unspecified() {
                None
            } else {
                Some(ip)
            }
        },
        None => None,
    }
}

/// Adds the addresses that a line tells of.
fn read_line(line: &Vec<char>, found: &mut Vec<InterfaceAddress>)
    ensures
        interface_views(final(found)@) == interface_views(old(found)@) + line_addresses(line@),
{
    let fields = text::split_words(line);
    let ghost words = text::words(line@);
    let ghost before = interface_views(found@);
    proof {
        assert(text::char_views(fields@).len() == fields@.len());
        assert(before + field_addresses(words, 2) =~= before);
    }
    if fields.len() < 3 {
        return ;
    }
    let mut i: usize = 2;
    while i < fields.len()
        invariant
            2 <= i <= fields.len(),
            words == text::char_views(fields@),
            interface_views(found@) == before + field_addresses(words, i as int),
        decreases fields.len() - i,
    {
        proof {
            assert(words[i as int] == fields@[i as int]@);
            assert(words[0] == fields@[0]@);
        }
        match read_field(&fields[i]) {
            Some(address) => {
                let ghost held = found@;
                let entry = InterfaceAddress { interface: text::string_of(&fields[0]), address };
                found.push(entry);
                proof {
                    assert(interface_views(found@) =~= interface_views(held).push(entry@));
                    assert(interface_views(found@) =~= before + field_addresses(words, i + 1));
                }
            },
            None => {},
        }
        i = i + 1;
    }
}

/// The addresses that the output of `ip -brief address` tells of.
#[must_use]
pub fn parse_addresses(output: &str) -> (r: Vec<InterfaceAddress>)
    ensures
        interface_views(r@) == listed_addresses(output@),
{
    let lines = text::split_pieces(&text::chars_of(output), '\n');
    let ghost all = text::pieces(output@, '\n');
    let mut found: Vec<InterfaceAddress> = Vec::new();
    let mut i: usize = 0;
    proof {
        assert(text::char_views(lines@).len() == lines@.len());
        assert(interface_views(found@) =~= addresses_of(all, 0));
    }
    while i < lines.len()
        invariant
            i <= lines.len(),
            all == text::char_views(lines@),
            interface_views(found@) == addresses_of(all, i as int),
        decreases lines.len() - i,
    {
        proof {
            assert(all[i as int] == lines@[i as int]@);
        }
        read_line(&lines[i], &mut found);
        i = i + 1;
    }
    found
}

/// The outcome of a command as a text that is trimmed at both ends.
pub fn trimmed(s: &str) -> (r: String)
    ensures
        r@ == text::trim(s@),
{
    text::string_of(&text::trim_chars(text::chars_of(s)))
}

/// Takes the outcome of `ip -brief address`, where a command that could not be run is
/// given by the text of the failure, and returns the addresses of the interfaces.
pub fn local_interface_addresses(outcome: Result<CommandOutput, String>) -> (r: Result<
    Vec<InterfaceAddress>,
    String,
>)
    ensures
        match outcome {
            Err(error) => r matches Err(e) && e@ == "无法执行 ip -brief address: "@ + error@,
            Ok(output) => if output.success {
                r matches Ok(v) && interface_views(v@) == listed_addresses(output.stdout@)
            } else {
                r matches Err(e) && e@ == "ip -brief address 失败："@ + text::trim(
                    output.stderr@,
                )
            },
        },
{
    match outcome {
        Err(error) => Err("无法执行 ip -brief address: ".to_owned().concat(error.as_str())),
        Ok(output) => {
            if output.success {
                Ok(parse_addresses(output.stdout.as_str()))
            } else {
                Err(
                    "ip -brief address 失败：".to_owned().concat(
                        trimmed(output.stderr.as_str()).as_str(),
                    ),
                )
            }
        },
    }
}

/// `s` begins with `prefix`.
pub open spec fn begins_with(s: Seq<char>, prefix: Seq<char>) -> bool {
    prefix.len() <= s.len() && s.take(prefix.len() as int) == prefix
}

/// The first of the lines that begins with `prefix`.
pub open spec fn first_with_prefix(lines: Seq<Seq<char>>, prefix: Seq<char>) -> Option<Seq<char>>
    decreases lines.len(),
{
    if lines.len() == 0 {
        None
    } else if begins_with(lines[0], prefix) {
        Some(lines[0])
    } else {
        first_with_prefix(lines.drop_first(), prefix)
    }
}

/// The process status tells of an effective user that is root: the second number of
/// its first `Uid:` line is 0.
pub open spec fn tells_of_root(status: Seq<char>) -> bool {
    match first_with_prefix(text::pieces(status, '\n'), "Uid:"@) {
        Some(line) => text::words(line).len() > 2 && text::words(line)[2] == "0"@,
        None => false,
    }
}

/// Whether `s` begins with `prefix`.
fn has_prefix(s: &Vec<char>, prefix: &Vec<char>) -> (r: bool)
    ensures
        r == begins_with(s@, prefix@),
{
    if s.len() < prefix.len() {
        return false;
    }
    let front = text::slice_of(s, 0, prefix.len());
    proof {
        assert(front@ =~= s@.take(prefix@.len() as int));
    }
    text::same_chars(&front, prefix)
}

/// Whether the content of `/proc/self/status` tells of an effective user that is
/// root.
#[must_use]
pub fn effective_root(status: &str) -> (r: bool)
    ensures
        r == tells_of_root(status@),
{
    let lines = text::split_pieces(&text::chars_of(status), '\n');
    let prefix = text::chars_of("Uid:");
    let zero = text::chars_of("0");
    let ghost all = text::pieces(status@, '\n');
    let mut i: usize = 0;
    proof {
        assert(text::char_views(lines@).len() == lines@.len());
        assert(all.skip(0) =~= all);
    }
    while i < lines.len()
        invariant
            i <= lines.len(),
            all == text::char_views(lines@),
            all == text::pieces(status@, '\n'),
            prefix@ == "Uid:"@,
            zero@ == "0"@,
            first_with_prefix(all, prefix@) == first_with_prefix(all.skip(i as int), prefix@),
        decreases lines.len() - i,
    {
        proof {
            assert(all.skip(i as int)[0] == lines@[i as int]@);
            assert(all.skip(i as int).drop_first() =~= all.skip(i + 1));
        }
        if has_prefix(&lines[i], &prefix) {
            let fields = text::split_words(&lines[i]);
            proof {
                assert(text::char_views(fields@).len() == fields@.len());
                if fields@.len() > 2 {
                    assert(text::char_views(fields@)[2] == fields@[2]@);
                }
            }
            return fields.len() > 2 && text::same_chars(&fields[2], &zero);
        }
        i = i + 1;
    }
    false
}

} // verus!
