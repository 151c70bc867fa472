//! The text of the port listing: the heading with the number of enumerated
//! ports and the indented description of each port, exactly as the bridge
//! prints them.
//!
//! The surrounding process enumerates the devices and hands them over as
//! plain values; it prints the returned lines one per row.

use vstd::prelude::*;
use crate::text::dec_chars;
use crate::text::dec_string;
use crate::text::hex4_chars;
use crate::text::hex4_string;

verus! {

/// What kind of port the enumeration reported, with the descriptor fields the
/// listing prints.
pub enum PortKind {
    /// A USB port.
    Usb {
        /// Vendor identifier.
        vid: u16,
        /// Product identifier.
        pid: u16,
        /// Serial number, when the descriptor carries one.
        serial_number: Option<String>,
        /// Manufacturer, when the descriptor carries one.
        manufacturer: Option<String>,
        /// Product name, when the descriptor carries one.
        product: Option<String>,
    },
    /// A Bluetooth port.
    Bluetooth,
    /// A PCI port.
    Pci,
    /// A port whose kind the enumeration could not tell.
    Unknown,
}

/// One enumerated serial port: its device name and its kind.
pub struct PortInfo {
    /// The device name, a path on most systems.
    pub name: String,
    /// What kind of port it is.
    pub kind: PortKind,
}

/// The heading above the port list.
pub open spec fn header_chars(n: nat) -> Seq<char> {
    if n == 0 {
        "No ports found."@
    } else if n == 1 {
        "Found 1 port:"@
    } else {
        "Found "@ + dec_chars(n) + " ports:"@
    }
}

/// The text of an optional descriptor field: the field itself, or nothing.
pub open spec fn opt_chars(o: Option<String>) -> Seq<char> {
    match o {
        Some(s) => s@,
        None => Seq::<char>::empty(),
    }
}

/// The indented lines describing one port's kind.
pub open spec fn kind_lines(k: PortKind) -> Seq<Seq<char>> {
    match k {
        PortKind::Usb { vid, pid, serial_number, manufacturer, product } => seq![
            "    Type: USB"@,
            "    VID:"@ + hex4_chars(vid as nat) + " PID:"@ + hex4_chars(pid as nat),
            "     Serial Number: "@ + opt_chars(serial_number),
            "      Manufacturer: "@ + opt_chars(manufacturer),
            "           Product: "@ + opt_chars(product),
        ],
        PortKind::Bluetooth => seq!["    Type: Bluetooth"@],
        PortKind::Pci => seq!["    Type: PCI"@],
        PortKind::Unknown => seq!["    Type: Unknown"@],
    }
}

/// The lines describing one port: its name, then its kind.
pub open spec fn port_lines(p: PortInfo) -> Seq<Seq<char>> {
    seq!["  "@ + p.name@] + kind_lines(p.kind)
}

/// The lines describing a whole list of ports, in order.
pub open spec fn body_chars(ports: Seq<PortInfo>) -> Seq<Seq<char>>
    decreases ports.len(),
{
    if ports.len() == 0 {
        Seq::<Seq<char>>::empty()
    } else {
        port_lines(ports.first()) + body_chars(ports.drop_first())
    }
}

/// The whole report: the heading, then the lines of each port in order.
pub open spec fn report_chars(ports: Seq<PortInfo>) -> Seq<Seq<char>> {
    seq![header_chars(ports.len())] + body_chars(ports)
}

/// The body of two port lists joined is the two bodies joined.
proof fn lemma_body_chars_append(a: Seq<PortInfo>, b: Seq<PortInfo>)
    ensures
        body_chars(a + b) == body_chars(a) + body_chars(b),
    decreases a.len(),
{
    if a.len() == 0 {
        assert(a + b =~= b);
        assert(body_chars(a) + body_chars(b) =~= body_chars(b));
    } else {
        assert((a + b).drop_first() =~= a.drop_first() + b);
        lemma_body_chars_append(a.drop_first(), b);
        assert(port_lines(a.first()) + (body_chars(a.drop_first()) + body_chars(b))
            =~= body_chars(a) + body_chars(b));
    }
}

/// The heading as a `String`.
pub fn header_line(n: usize) -> (s: String)
    ensures
        s@ == header_chars(n as nat),
{
    if n == 0 {
        String::from_str("No ports found.")
    } else if n == 1 {
        String::from_str("Found 1 port:")
    } else {
        let count = dec_string(n as u64);
        String::from_str("Found ").concat(count.as_str()).concat(" ports:")
    }
}

fn labelled_opt_line(label: &'static str, o: &Option<String>) -> (s: String)
    ensures
        s@ == label@ + opt_chars(*o),
{
    let s = String::from_str(label);
    match o {
        Some(t) => s.concat(t.as_str()),
        None => {
            proof {
                assert(label@ + opt_chars(*o) =~= label@);
            }
            s
        },
    }
}

fn push_line(lines: &mut Vec<String>, line: String)
    ensures
        final(lines).deep_view() == old(lines).deep_view().push(line@),
{
    let ghost l = line@;
    lines.push(line);
    proof {
        assert(lines.deep_view() =~= old(lines).deep_view().push(l));
    }
}

fn append_lines(out: &mut Vec<String>, src: &Vec<String>)
    ensures
        final(out).deep_view() == old(out).deep_view() + src.deep_view(),
{
    let mut i: usize = 0;
    while i < src.len()
        invariant
            i <= src.len(),
            out.deep_view() == old(out).deep_view() + src.deep_view().take(i as int),
        decreases src.len() - i,
    {
        let line = src[i].clone();
        proof {
            assert(line@ == src.deep_view()[i as int]);
        }
        push_line(out, line);
        proof {
            assert(old(out).deep_view() + src.deep_view().take(i + 1 as int) =~= (old(
                out,
            ).deep_view() + src.deep_view().take(i as int)).push(src.deep_view()[i as int]));
        }
        i = i + 1;
    }
    proof {
        assert(src.deep_view().take(src@.len() as int) =~= src.deep_view());
    }
}

fn kind_report(k: &PortKind) -> (lines: Vec<String>)
    ensures
        lines.deep_view() == kind_lines(*k),
{
    let mut lines: Vec<String> = Vec::new();
    match k {
        PortKind::Usb { vid, pid, serial_number, manufacturer, product } => {
            push_line(&mut lines, String::from_str("    Type: USB"));
            let v = hex4_string(*vid);
            let p = hex4_string(*pid);
            let id_line = String::from_str("    VID:").concat(v.as_str()).concat(
                " PID:",
            ).concat(p.as_str());
            push_line(&mut lines, id_line);
            push_line(&mut lines, labelled_opt_line("     Serial Number: ", serial_number));
            push_line(&mut lines, labelled_opt_line("      Manufacturer: ", manufacturer));
            push_line(&mut lines, labelled_opt_line("           Product: ", product));
            proof {
                assert(lines.deep_view() =~= kind_lines(*k));
            }
        },
        PortKind::Bluetooth => {
            push_line(&mut lines, String::from_str("    Type: Bluetooth"));
            proof {
                assert(lines.deep_view() =~= kind_lines(*k));
            }
        },
        PortKind::Pci => {
            push_line(&mut lines, String::from_str("    Type: PCI"));
            proof {
                assert(lines.deep_view() =~= kind_lines(*k));
            }
        },
        PortKind::Unknown => {
            push_line(&mut lines, String::from_str("    Type: Unknown"));
            proof {
                assert(lines.deep_view() =~= kind_lines(*k));
            }
        },
    }
    lines
}

/// The whole port-listing report, one line per entry, exactly as printed.
pub fn port_report(ports: &Vec<PortInfo>) -> (lines: Vec<String>)
    ensures
        lines.deep_view() == report_chars(ports@),
{
    let mut lines: Vec<String> = Vec::new();
    push_line(&mut lines, header_line(ports.len()));
    proof {
        assert(lines.deep_view() =~= seq![header_chars(ports@.len())] + body_chars(
            ports@.take(0),
        ));
    }
    let mut i: usize = 0;
    while i < ports.len()
        invariant
            i <= ports.len(),
            lines.deep_view() == seq![header_chars(ports@.len())] + body_chars(
                ports@.take(i as int),
            ),
        decreases ports.len() - i,
    {
        let ghost prefix = ports@.take(i as int);
        let p = &ports[i];
        let name_line = String::from_str("  ").concat(p.name.as_str());
        push_line(&mut lines, name_line);
        let kl = kind_report(&p.kind);
        append_lines(&mut lines, &kl);
        proof {
            let e = ports@[i as int];
            assert(ports@.take(i + 1 as int) =~= prefix + seq![e]);
            lemma_body_chars_append(prefix, seq![e]);
            assert(body_chars(seq![e]) =~= port_lines(e)) by {
                assert(seq![e].first() == e);
                assert(seq![e].drop_first() =~= Seq::<PortInfo>::empty());
                assert(body_chars(seq![e]) == port_lines(e) + body_chars(
                    Seq::<PortInfo>::empty(),
                ));
                assert(port_lines(e) + Seq::<Seq<char>>::empty() =~= port_lines(e));
            }
            assert(lines.deep_view() =~= seq![header_chars(ports@.len())] + body_chars(
                ports@.take(i + 1 as int),
            ));
        }
        i = i + 1;
    }
    proof {
        assert(ports@.take(ports@.len() as int) =~= ports@);
    }
    lines
}

} // verus!
