//! Which enumerated serial ports are usable devices.
use vstd::prelude::*;

use crate::text::str_chars;

verus! {

/// How the operating system reports a serial port.
#[derive(Debug, Clone, Copy, PartialEq, Eq, Structural)]
pub enum SerialPortKind {
    /// A USB serial adapter.
    Usb,
    /// A PCI serial card.
    Pci,
    /// A Bluetooth serial link.
    Bluetooth,
    /// A port of unknown type.
    Unknown,
}

/// Operating systems whose port names the filter knows.
#[derive(Debug, Clone, Copy, PartialEq, Eq, Structural)]
pub enum HostPlatform {
    Linux,
    Windows,
    Other,
}

/// One enumerated serial port.
#[derive(Debug, Clone)]
pub struct SerialPortEntry {
    /// Device path or name, such as `/dev/ttyUSB0` or `COM3`.
    pub port_name: String,
    /// Port type.
    pub port_type: SerialPortKind,
}

/// `s` starts with `p`.
pub open spec fn starts_with(s: Seq<char>, p: Seq<char>) -> bool {
    s.len() >= p.len() && s.subrange(0, p.len() as int) == p
}

/// The code of a character upper-cased as ASCII; other characters are kept.
pub open spec fn ascii_upper(c: char) -> u32 {
    if 'a' <= c && c <= 'z' {
        (c as u32 - 32) as u32
    } else {
        c as u32
    }
}

/// The name, upper-cased as ASCII, starts with `COM`.
pub open spec fn is_com_name(s: Seq<char>) -> bool {
    s.len() >= 3 && ascii_upper(s[0]) == 'C' as u32 && ascii_upper(s[1]) == 'O' as u32 && ascii_upper(s[2])
        == 'M' as u32
}

/// A port is kept when its type is known to be USB, PCI or Bluetooth, or
/// when its name is that of a pluggable device: on Linux `/dev/ttyUSB*`,
/// `/dev/ttyACM*` or `/dev/rfcomm*`, on Windows `COM*` in any case.
pub open spec fn usable_port(kind: SerialPortKind, name: Seq<char>, platform: HostPlatform) -> bool {
    match kind {
        SerialPortKind::Usb | SerialPortKind::Pci | SerialPortKind::Bluetooth => true,
        SerialPortKind::Unknown => match platform {
            HostPlatform::Linux => starts_with(name, "/dev/ttyUSB"@) || starts_with(name, "/dev/ttyACM"@)
                || starts_with(name, "/dev/rfcomm"@),
            HostPlatform::Windows => is_com_name(name),
            HostPlatform::Other => false,
        },
    }
}

/// Whether `s` starts with `p`.
fn starts_with_exec(s: &[char], p: &str) -> (r: bool)
    ensures
        r == starts_with(s@, p@),
{
    let pat = str_chars(p);
    if s.len() < pat.len() {
        return false;
    }
    let mut i: usize = 0;
    while i < pat.len()
        invariant
            pat@ == p@,
            pat.len() <= s.len(),
            i <= pat.len(),
            forall|j: int| 0 <= j < i ==> s@[j] == pat@[j],
        decreases pat.len() - i,
    {
        if s[i] != pat[i] {
            assert(s@.subrange(0, pat@.len() as int)[i as int] != pat@[i as int]);
            return false;
        }
        i = i + 1;
    }
    assert(s@.subrange(0, pat@.len() as int) =~= pat@);
    true
}

/// Whether `c` upper-cased as ASCII is the capital letter `upper`, whose
/// small form is `lower`.
fn upper_is(c: char, upper: char, lower: char) -> (r: bool)
    requires
        'A' <= upper <= 'Z',
        lower as u32 == upper as u32 + 32,
    ensures
        r == (ascii_upper(c) == upper as u32),
{
    c == upper || c == lower
}

/// Whether a serial port is a usable device on `platform`.
pub fn is_serial_or_bluetooth_port(port_type: SerialPortKind, port_name: &str, platform: HostPlatform) -> (r: bool)
    ensures
        r == usable_port(port_type, port_name@, platform),
{
    match port_type {
        SerialPortKind::Bluetooth => true,
        SerialPortKind::Usb | SerialPortKind::Pci => true,
        SerialPortKind::Unknown => {
            let name = str_chars(port_name);
            match platform {
                HostPlatform::Linux => starts_with_exec(name.as_slice(), "/dev/ttyUSB") || starts_with_exec(
                    name.as_slice(),
                    "/dev/ttyACM",
                ) || starts_with_exec(name.as_slice(), "/dev/rfcomm"),
                HostPlatform::Windows => name.len() >= 3 && upper_is(name[0], 'C', 'c') && upper_is(name[1], 'O', 'o')
                    && upper_is(name[2], 'M', 'm'),
                HostPlatform::Other => false,
            }
        },
    }
}

/// The ports worth offering on `platform`: on Linux and Windows those that
/// [`is_serial_or_bluetooth_port`] keeps, in order; elsewhere all of them.
pub fn filter_serial_and_bluetooth_ports(ports: Vec<SerialPortEntry>, platform: HostPlatform) -> (r: Vec<
    SerialPortEntry,
>)
    ensures
        platform is Other ==> r@ == ports@,
        !(platform is Other) ==> r@ == ports@.filter(
            |p: SerialPortEntry| usable_port(p.port_type, p.port_name@, platform),
        ),
{
    if let HostPlatform::Other = platform {
        return ports;
    }
    let ghost keep = |p: SerialPortEntry| usable_port(p.port_type, p.port_name@, platform);
    let ghost all = ports@;
    let mut rest = ports;
    let mut kept: Vec<SerialPortEntry> = Vec::new();
    let ghost mut i: int = 0;
    proof {
        reveal(Seq::filter);
        assert(all.subrange(0, 0) =~= Seq::<SerialPortEntry>::empty());
        assert(all.subrange(0, 0).filter(keep) =~= Seq::<SerialPortEntry>::empty());
        assert(all.subrange(0, all.len() as int) =~= all);
    }
    while rest.len() > 0
        invariant
            0 <= i <= all.len(),
            rest@ == all.subrange(i, all.len() as int),
            kept@ == all.subrange(0, i).filter(keep),
            keep == (|p: SerialPortEntry| usable_port(p.port_type, p.port_name@, platform)),
        decreases rest.len(),
    {
        let p = rest.remove(0);
        let usable = is_serial_or_bluetooth_port(p.port_type, p.port_name.as_str(), platform);
        proof {
            reveal(Seq::filter);
            assert(p == all[i]);
            let next = all.subrange(0, i + 1);
            assert(next.drop_last() =~= all.subrange(0, i));
            assert(next.last() == p);
            assert(rest@ =~= all.subrange(i + 1, all.len() as int));
        }
        if usable {
            kept.push(p);
        }
        proof {
            i = i + 1;
        }
    }
    proof {
        assert(all.subrange(0, i) =~= all);
    }
    kept
}

} // verus!
