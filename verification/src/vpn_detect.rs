use vstd::prelude::*;

use crate::strutil::{
    ascii_lower, chars_eq_str, chars_to_string, chars_vec, contains_sub, push_str_chars, push_u64,
    spec_ascii_lower, spec_contains_sub, spec_dec_nat, spec_find_first, spec_lines,
    spec_parse_octet, spec_split_char, spec_split_ws, spec_trim, split_char, split_lines, split_ws,
    starts_with, starts_with_str, trim, parse_octet, find_char_from,
};

verus! {

broadcast use vstd::seq::group_seq_axioms;

// ---------------------------------------------------------------------------
// Mesh-VPN interface detection
//
// The server binds to the address of a mesh-VPN interface.  Candidates are
// recognised by name prefix; a candidate counts as active only when the
// routing table shows a route over it that is neither its own host route
// nor multicast or broadcast.  The command output to parse is handed in as
// text; running the commands is the caller's work.
// ---------------------------------------------------------------------------

/// Whether an interface name, lowercased, starts with one of the known
/// mesh-VPN prefixes.
pub open spec fn spec_is_vpn_interface(name: Seq<char>) -> bool {
    let l = spec_ascii_lower(name);
    ||| starts_with(l, "nordlynx"@)
    ||| starts_with(l, "tailscale"@)
    ||| starts_with(l, "utun"@)
    ||| starts_with(l, "wg"@)
    ||| starts_with(l, "tun"@)
    ||| starts_with(l, "zt"@)
    ||| starts_with(l, "nebula"@)
}

pub fn is_vpn_interface(name: &str) -> (r: bool)
    ensures
        r == spec_is_vpn_interface(name@),
{
    let lv = ascii_lower(&chars_vec(name));
    starts_with_str(&lv, "nordlynx") || starts_with_str(&lv, "tailscale") || starts_with_str(
        &lv,
        "utun",
    ) || starts_with_str(&lv, "wg") || starts_with_str(&lv, "tun") || starts_with_str(&lv, "zt")
        || starts_with_str(&lv, "nebula")
}

/// True for the private IPv4 ranges 10.0.0.0/8, 172.16.0.0/12 and
/// 192.168.0.0/16.
pub open spec fn spec_is_private_ip(o0: u8, o1: u8) -> bool {
    ||| o0 == 10
    ||| (o0 == 172 && 16 <= o1 <= 31)
    ||| (o0 == 192 && o1 == 168)
}

pub fn is_private_ip(o0: u8, o1: u8) -> (r: bool)
    ensures
        r == spec_is_private_ip(o0, o1),
{
    o0 == 10 || (o0 == 172 && 16 <= o1 && o1 <= 31) || (o0 == 192 && o1 == 168)
}

/// A dotted-quad IPv4 address, as `Ipv4Addr::from_str` reads it: exactly
/// four octets, each a plain decimal with no leading zero.
pub open spec fn spec_parse_ipv4(t: Seq<char>) -> Option<(u8, u8, u8, u8)> {
    let ps = spec_split_char(t, '.');
    if ps.len() != 4 {
        Option::None
    } else {
        match (
            spec_parse_octet(ps[0]),
            spec_parse_octet(ps[1]),
            spec_parse_octet(ps[2]),
            spec_parse_octet(ps[3]),
        ) {
            (Option::Some(a), Option::Some(b), Option::Some(c), Option::Some(d)) => Option::Some(
                (a, b, c, d),
            ),
            _ => Option::None,
        }
    }
}

pub fn parse_ipv4(v: &Vec<char>) -> (r: Option<(u8, u8, u8, u8)>)
    ensures
        r == spec_parse_ipv4(v@),
{
    let parts = split_char(v, '.');
    proof {
        assert(parts@.map_values(|l: Vec<char>| l@).len() == parts@.len());
    }
    if parts.len() != 4 {
        return Option::None;
    }
    proof {
        assert(parts@.map_values(|l: Vec<char>| l@)[0] == parts@[0]@);
        assert(parts@.map_values(|l: Vec<char>| l@)[1] == parts@[1]@);
        assert(parts@.map_values(|l: Vec<char>| l@)[2] == parts@[2]@);
        assert(parts@.map_values(|l: Vec<char>| l@)[3] == parts@[3]@);
    }
    let a = parse_octet(&parts[0]);
    let b = parse_octet(&parts[1]);
    let c = parse_octet(&parts[2]);
    let d = parse_octet(&parts[3]);
    match (a, b, c, d) {
        (Option::Some(a), Option::Some(b), Option::Some(c), Option::Some(d)) => Option::Some(
            (a, b, c, d),
        ),
        _ => Option::None,
    }
}

/// The dotted-quad text of an IPv4 address.
pub open spec fn spec_ipv4_str(o0: u8, o1: u8, o2: u8, o3: u8) -> Seq<char> {
    spec_dec_nat(o0 as nat) + seq!['.'] + spec_dec_nat(o1 as nat) + seq!['.'] + spec_dec_nat(
        o2 as nat,
    ) + seq!['.'] + spec_dec_nat(o3 as nat)
}

pub fn ipv4_to_string(o0: u8, o1: u8, o2: u8, o3: u8) -> (r: String)
    ensures
        r@ == spec_ipv4_str(o0, o1, o2, o3),
{
    let mut out: Vec<char> = Vec::new();
    push_u64(&mut out, o0 as u64);
    out.push('.');
    push_u64(&mut out, o1 as u64);
    out.push('.');
    push_u64(&mut out, o2 as u64);
    out.push('.');
    push_u64(&mut out, o3 as u64);
    assert(out@ =~= spec_ipv4_str(o0, o1, o2, o3));
    chars_to_string(&out)
}

// ---------------------------------------------------------------------------
// Routing-table check
// ---------------------------------------------------------------------------

/// Whether one routing-table line shows an active route over `iface`: its
/// fourth field names the interface, and its destination is neither the
/// interface's own address (plain or `/32`) nor multicast or broadcast.
pub open spec fn spec_route_line_active(
    line: Seq<char>,
    iface: Seq<char>,
    own_ip: Seq<char>,
) -> bool {
    let fields = spec_split_ws(line);
    &&& fields.len() >= 4
    &&& fields[3] == iface
    &&& fields[0] != own_ip
    &&& fields[0] != own_ip + "/32"@
    &&& !starts_with(fields[0], "224."@)
    &&& !starts_with(fields[0], "239."@)
    &&& !starts_with(fields[0], "255."@)
}

/// Whether the routing table holds any active route over the interface.
pub open spec fn spec_routes_active(output: Seq<char>, iface: Seq<char>, own_ip: Seq<char>) -> bool {
    exists|k: int|
        0 <= k < spec_lines(output).len() && spec_route_line_active(
            #[trigger] spec_lines(output)[k],
            iface,
            own_ip,
        )
}

fn route_line_active(line: &Vec<char>, iface: &str, own_ip: &str) -> (r: bool)
    ensures
        r == spec_route_line_active(line@, iface@, own_ip@),
{
    let fields = split_ws(line);
    let ghost fv = spec_split_ws(line@);
    proof {
        assert(fields@.map_values(|l: Vec<char>| l@).len() == fields@.len());
    }
    if fields.len() < 4 {
        return false;
    }
    proof {
        assert(fields@.map_values(|l: Vec<char>| l@)[0] == fields@[0]@);
        assert(fields@.map_values(|l: Vec<char>| l@)[3] == fields@[3]@);
    }
    if !chars_eq_str(&fields[3], iface) {
        return false;
    }
    let mut own32: Vec<char> = chars_vec(own_ip);
    push_str_chars(&mut own32, "/32");
    let dest = &fields[0];
    if chars_eq_str(dest, own_ip) {
        return false;
    }
    if crate::strutil::chars_eq(dest, &own32) {
        return false;
    }
    if starts_with_str(dest, "224.") || starts_with_str(dest, "239.") || starts_with_str(
        dest,
        "255.",
    ) {
        return false;
    }
    true
}

/// Scans routing-table text for an active route over the interface.
pub fn parse_routes_for_interface(netstat_output: &str, iface_name: &str, own_ip: &str) -> (r: bool)
    ensures
        r == spec_routes_active(netstat_output@, iface_name@, own_ip@),
{
    let nv = chars_vec(netstat_output);
    let lines = split_lines(&nv);
    let ghost lv = spec_lines(netstat_output@);
    proof {
        assert(lines@.map_values(|l: Vec<char>| l@).len() == lines@.len());
    }
    let mut i: usize = 0;
    while i < lines.len()
        invariant
            i <= lines@.len(),
            lines@.map_values(|l: Vec<char>| l@) == lv,
            lv == spec_lines(netstat_output@),
            forall|k: int| 0 <= k < i ==> !spec_route_line_active(lv[k], iface_name@, own_ip@),
        decreases lines@.len() - i,
    {
        proof {
            assert(lines@.map_values(|l: Vec<char>| l@)[i as int] == lines@[i as int]@);
        }
        if route_line_active(&lines[i], iface_name, own_ip) {
            return true;
        }
        i = i + 1;
    }
    false
}

// ---------------------------------------------------------------------------
// Interface listing (ifconfig output)
// ---------------------------------------------------------------------------

/// One interface with an IPv4 address, as read from `ifconfig` output.
pub struct IfaceAddr {
    pub name: String,
    pub o0: u8,
    pub o1: u8,
    pub o2: u8,
    pub o3: u8,
}

pub struct IfaceAddrV {
    pub name: Seq<char>,
    pub o0: u8,
    pub o1: u8,
    pub o2: u8,
    pub o3: u8,
}

impl View for IfaceAddr {
    type V = IfaceAddrV;

    open spec fn view(&self) -> IfaceAddrV {
        IfaceAddrV { name: self.name@, o0: self.o0, o1: self.o1, o2: self.o2, o3: self.o3 }
    }
}

/// Whether a line opens a new interface block: it is not indented and holds
/// the marker `": flags="`.
pub open spec fn spec_is_header_line(line: Seq<char>) -> bool {
    !starts_with(line, "\t"@) && !starts_with(line, " "@) && spec_contains_sub(line, ": flags="@)
}

/// The interface name of a header line: everything before the first colon.
pub open spec fn spec_header_name(line: Seq<char>) -> Seq<char> {
    line.take(spec_find_first(line, ':'))
}

/// The address a body line contributes, if it is an `inet` line with a
/// well-formed IPv4 address.
pub open spec fn spec_inet_addr(line: Seq<char>) -> Option<(u8, u8, u8, u8)> {
    let t = spec_trim(line);
    if starts_with(t, "inet "@) {
        let parts = spec_split_ws(t);
        if parts.len() >= 2 {
            spec_parse_ipv4(parts[1])
        } else {
            Option::None
        }
    } else {
        Option::None
    }
}

/// The interfaces named by `ifconfig` output, folded line by line: a header
/// line selects the current interface; an `inet` body line below one adds
/// an address entry for it.
pub open spec fn spec_ifaces(lines: Seq<Seq<char>>, cur: Option<Seq<char>>) -> Seq<IfaceAddrV>
    decreases lines.len(),
{
    if lines.len() == 0 {
        Seq::empty()
    } else {
        let line = lines[0];
        if spec_is_header_line(line) {
            spec_ifaces(lines.skip(1), Option::Some(spec_header_name(line)))
        } else {
            match cur {
                Option::Some(name) => match spec_inet_addr(line) {
                    Option::Some((a, b, c, d)) => seq![
                        IfaceAddrV { name: name, o0: a, o1: b, o2: c, o3: d },
                    ] + spec_ifaces(lines.skip(1), cur),
                    Option::None => spec_ifaces(lines.skip(1), cur),
                },
                Option::None => spec_ifaces(lines.skip(1), cur),
            }
        }
    }
}

/// Reads the interface list out of `ifconfig` output.
pub fn parse_ifconfig_output(output: &str) -> (r: Vec<IfaceAddr>)
    ensures
        r@.map_values(|f: IfaceAddr| f@) == spec_ifaces(spec_lines(output@), Option::None),
{
    let ov = chars_vec(output);
    let lines = split_lines(&ov);
    let mut out: Vec<IfaceAddr> = Vec::new();
    assert(out@.map_values(|f: IfaceAddr| f@) =~= Seq::<IfaceAddrV>::empty());
    ifaces_from(&lines, 0, Option::None, &mut out);
    proof {
        assert(lines@.map_values(|l: Vec<char>| l@).skip(0) =~= spec_lines(output@));
    }
    out
}

pub open spec fn opt_chars_view(o: Option<Vec<char>>) -> Option<Seq<char>> {
    match o {
        Option::Some(v) => Option::Some(v@),
        Option::None => Option::None,
    }
}

fn ifaces_from(lines: &Vec<Vec<char>>, i: usize, cur: Option<Vec<char>>, out: &mut Vec<IfaceAddr>)
    requires
        i <= lines@.len(),
    ensures
        final(out)@.map_values(|f: IfaceAddr| f@) == old(out)@.map_values(|f: IfaceAddr| f@)
            + spec_ifaces(lines@.map_values(|l: Vec<char>| l@).skip(i as int), opt_chars_view(cur)),
    decreases lines@.len() - i,
{
    let ghost lv = lines@.map_values(|l: Vec<char>| l@);
    proof {
        assert(lv.len() == lines@.len());
    }
    if i >= lines.len() {
        assert(lv.skip(i as int).len() == 0);
        assert(final(out)@.map_values(|f: IfaceAddr| f@) =~= old(out)@.map_values(
            |f: IfaceAddr| f@,
        ) + spec_ifaces(lv.skip(i as int), opt_chars_view(cur)));
        return ;
    }
    let line = &lines[i];
    proof {
        assert(lv[i as int] == lines@[i as int]@);
        assert(lv.skip(i as int)[0] == lv[i as int]);
        assert(lv.skip(i as int).skip(1) =~= lv.skip(i as int + 1));
    }
    let header = !starts_with_str(line, "\t") && !starts_with_str(line, " ") && contains_sub(
        line,
        ": flags=",
    );
    if header {
        let e = find_char_from(line, 0, ':');
        proof {
            assert(line@.skip(0) =~= line@);
        }
        let mut name: Vec<char> = Vec::new();
        let mut k: usize = 0;
        while k < e
            invariant
                k <= e <= line@.len(),
                name@ == line@.subrange(0, k as int),
            decreases e - k,
        {
            name.push(line[k]);
            assert(name@ =~= line@.subrange(0, k + 1 as int));
            k = k + 1;
        }
        proof {
            assert(name@ =~= spec_header_name(line@));
        }
        ifaces_from(lines, i + 1, Option::Some(name), out);
        return ;
    }
    match cur {
        Option::Some(name) => {
            let t = trim(line);
            let mut addr: Option<(u8, u8, u8, u8)> = Option::None;
            if starts_with_str(&t, "inet ") {
                let parts = split_ws(&t);
                proof {
                    assert(parts@.map_values(|l: Vec<char>| l@).len() == parts@.len());
                }
                if parts.len() >= 2 {
                    proof {
                        assert(parts@.map_values(|l: Vec<char>| l@)[1] == parts@[1]@);
                    }
                    addr = parse_ipv4(&parts[1]);
                }
            }
            match addr {
                Option::Some((a, b, c, d)) => {
                    let entry = IfaceAddr {
                        name: chars_to_string(&name),
                        o0: a,
                        o1: b,
                        o2: c,
                        o3: d,
                    };
                    assert(entry@ == (IfaceAddrV { name: name@, o0: a, o1: b, o2: c, o3: d }));
                    let ghost mid_old = out@.map_values(|f: IfaceAddr| f@);
                    out.push(entry);
                    assert(out@.map_values(|f: IfaceAddr| f@) =~= mid_old + seq![entry@]);
                    ifaces_from(lines, i + 1, Option::Some(name), out);
                    assert(final(out)@.map_values(|f: IfaceAddr| f@) =~= old(out)@.map_values(
                        |f: IfaceAddr| f@,
                    ) + spec_ifaces(lv.skip(i as int), Option::Some(name@)));
                },
                Option::None => {
                    ifaces_from(lines, i + 1, Option::Some(name), out);
                },
            }
        },
        Option::None => {
            ifaces_from(lines, i + 1, Option::None, out);
        },
    }
}

// ---------------------------------------------------------------------------
// Detection
// ---------------------------------------------------------------------------

/// A detected mesh-VPN interface: its name and its IPv4 address.
#[derive(Debug, Clone)]
pub struct VpnInterface {
    pub name: String,
    pub ip: String,
}

/// An interface offered for binding: mesh-VPN interfaces with active routes,
/// and LAN interfaces with private addresses.
#[derive(Debug, Clone)]
pub struct DetectedInterface {
    pub name: String,
    pub ip: String,
    pub kind: String,
}

/// The first interface in the list with a mesh-VPN name.
pub open spec fn spec_first_vpn(ifs: Seq<IfaceAddrV>) -> Option<IfaceAddrV>
    decreases ifs.len(),
{
    if ifs.len() == 0 {
        Option::None
    } else if spec_is_vpn_interface(ifs[0].name) {
        Option::Some(ifs[0])
    } else {
        spec_first_vpn(ifs.skip(1))
    }
}

/// Detects the mesh-VPN interface: the first candidate by name, accepted
/// only when the routing table shows an active route over it.
pub fn detect_vpn_ip(ifconfig_output: &str, netstat_output: &str) -> (r: Option<VpnInterface>)
    ensures
        match spec_first_vpn(spec_ifaces(spec_lines(ifconfig_output@), Option::None)) {
            Option::None => r is None,
            Option::Some(c) => {
                if spec_routes_active(netstat_output@, c.name, spec_ipv4_str(c.o0, c.o1, c.o2, c.o3)) {
                    (r matches Some(v) && v.name@ == c.name && v.ip@ == spec_ipv4_str(
                        c.o0,
                        c.o1,
                        c.o2,
                        c.o3,
                    ))
                } else {
                    r is None
                }
            },
        },
{
    let ifaces = parse_ifconfig_output(ifconfig_output);
    let ghost iv = spec_ifaces(spec_lines(ifconfig_output@), Option::None);
    proof {
        assert(iv.len() == ifaces@.len());
        assert(iv.skip(0) =~= iv);
    }
    let mut i: usize = 0;
    while i < ifaces.len()
        invariant
            i <= ifaces@.len(),
            iv == spec_ifaces(spec_lines(ifconfig_output@), Option::None),
            ifaces@.map_values(|f: IfaceAddr| f@) == iv,
            forall|k: int| 0 <= k < i ==> !spec_is_vpn_interface((#[trigger] iv[k]).name),
            spec_first_vpn(iv.skip(i as int)) == spec_first_vpn(iv),
        decreases ifaces@.len() - i,
    {
        proof {
            assert(ifaces@.map_values(|f: IfaceAddr| f@)[i as int] == ifaces@[i as int]@);
            assert(iv.skip(i as int)[0] == iv[i as int]);
            assert(iv.skip(i as int).skip(1) =~= iv.skip(i as int + 1));
        }
        let f = &ifaces[i];
        if is_vpn_interface(f.name.as_str()) {
            proof {
                assert(spec_first_vpn(iv.skip(i as int)) == Option::Some(iv[i as int]));
            }
            let ip = ipv4_to_string(f.o0, f.o1, f.o2, f.o3);
            if parse_routes_for_interface(netstat_output, f.name.as_str(), ip.as_str()) {
                return Option::Some(
                    VpnInterface { name: crate::strutil::copy_string(&f.name), ip },
                );
            } else {
                return Option::None;
            }
        }
        i = i + 1;
    }
    proof {
        assert(iv.skip(iv.len() as int).len() == 0);
    }
    Option::None
}

/// The bind candidates: mesh-VPN interfaces with active routes (kind
/// `"vpn"`), then LAN interfaces with private addresses (kind `"lan"`);
/// loopback is skipped.
pub open spec fn spec_detect_all(
    ifs: Seq<IfaceAddrV>,
    netstat: Seq<char>,
) -> Seq<(Seq<char>, Seq<char>, Seq<char>)>
    decreases ifs.len(),
{
    if ifs.len() == 0 {
        Seq::empty()
    } else {
        let f = ifs[0];
        let ip = spec_ipv4_str(f.o0, f.o1, f.o2, f.o3);
        let rest = spec_detect_all(ifs.skip(1), netstat);
        if f.o0 == 127 {
            rest
        } else if spec_is_vpn_interface(f.name) {
            if spec_routes_active(netstat, f.name, ip) {
                seq![(f.name, ip, "vpn"@)] + rest
            } else {
                rest
            }
        } else if spec_is_private_ip(f.o0, f.o1) {
            seq![(f.name, ip, "lan"@)] + rest
        } else {
            rest
        }
    }
}

/// Lists the interfaces a server could bind to, given the text of the
/// interface and routing tables.
pub fn detect_all_interfaces(ifconfig_output: &str, netstat_output: &str) -> (r: Vec<
    DetectedInterface,
>)
    ensures
        r@.map_values(|d: DetectedInterface| (d.name@, d.ip@, d.kind@)) == spec_detect_all(
            spec_ifaces(spec_lines(ifconfig_output@), Option::None),
            netstat_output@,
        ),
{
    let ifaces = parse_ifconfig_output(ifconfig_output);
    let mut out: Vec<DetectedInterface> = Vec::new();
    assert(out@.map_values(|d: DetectedInterface| (d.name@, d.ip@, d.kind@))
        =~= Seq::<(Seq<char>, Seq<char>, Seq<char>)>::empty());
    detect_from(&ifaces, 0, netstat_output, &mut out);
    proof {
        assert(ifaces@.map_values(|f: IfaceAddr| f@).skip(0) =~= spec_ifaces(
            spec_lines(ifconfig_output@),
            Option::None,
        ));
    }
    out
}

fn detect_from(
    ifaces: &Vec<IfaceAddr>,
    i: usize,
    netstat_output: &str,
    out: &mut Vec<DetectedInterface>,
)
    requires
        i <= ifaces@.len(),
    ensures
        final(out)@.map_values(|d: DetectedInterface| (d.name@, d.ip@, d.kind@)) == old(
            out,
        )@.map_values(|d: DetectedInterface| (d.name@, d.ip@, d.kind@)) + spec_detect_all(
            ifaces@.map_values(|f: IfaceAddr| f@).skip(i as int),
            netstat_output@,
        ),
    decreases ifaces@.len() - i,
{
    let ghost iv = ifaces@.map_values(|f: IfaceAddr| f@);
    proof {
        assert(iv.len() == ifaces@.len());
    }
    if i >= ifaces.len() {
        assert(iv.skip(i as int).len() == 0);
        assert(final(out)@.map_values(|d: DetectedInterface| (d.name@, d.ip@, d.kind@)) =~= old(
            out,
        )@.map_values(|d: DetectedInterface| (d.name@, d.ip@, d.kind@)) + spec_detect_all(
            iv.skip(i as int),
            netstat_output@,
        ));
        return ;
    }
    proof {
        assert(iv[i as int] == ifaces@[i as int]@);
        assert(iv.skip(i as int)[0] == iv[i as int]);
        assert(iv.skip(i as int).skip(1) =~= iv.skip(i as int + 1));
    }
    let f = &ifaces[i];
    let ip = ipv4_to_string(f.o0, f.o1, f.o2, f.o3);
    if f.o0 == 127 {
        detect_from(ifaces, i + 1, netstat_output, out);
    } else if is_vpn_interface(f.name.as_str()) {
        if parse_routes_for_interface(netstat_output, f.name.as_str(), ip.as_str()) {
            let entry = DetectedInterface {
                name: crate::strutil::copy_string(&f.name),
                ip,
                kind: "vpn".to_owned(),
            };
            let ghost mid_old = out@.map_values(|d: DetectedInterface| (d.name@, d.ip@, d.kind@));
            out.push(entry);
            assert(out@.map_values(|d: DetectedInterface| (d.name@, d.ip@, d.kind@)) =~= mid_old
                + seq![(iv[i as int].name, spec_ipv4_str(iv[i as int].o0, iv[i as int].o1, iv[i as int].o2, iv[i as int].o3), "vpn"@)]);
            detect_from(ifaces, i + 1, netstat_output, out);
            assert(final(out)@.map_values(|d: DetectedInterface| (d.name@, d.ip@, d.kind@)) =~= old(
                out,
            )@.map_values(|d: DetectedInterface| (d.name@, d.ip@, d.kind@)) + spec_detect_all(
                iv.skip(i as int),
                netstat_output@,
            ));
        } else {
            detect_from(ifaces, i + 1, netstat_output, out);
        }
    } else if is_private_ip(f.o0, f.o1) {
        let entry = DetectedInterface {
            name: crate::strutil::copy_string(&f.name),
            ip,
            kind: "lan".to_owned(),
        };
        let ghost mid_old = out@.map_values(|d: DetectedInterface| (d.name@, d.ip@, d.kind@));
        out.push(entry);
        assert(out@.map_values(|d: DetectedInterface| (d.name@, d.ip@, d.kind@)) =~= mid_old
            + seq![(iv[i as int].name, spec_ipv4_str(iv[i as int].o0, iv[i as int].o1, iv[i as int].o2, iv[i as int].o3), "lan"@)]);
        detect_from(ifaces, i + 1, netstat_output, out);
        assert(final(out)@.map_values(|d: DetectedInterface| (d.name@, d.ip@, d.kind@)) =~= old(
            out,
        )@.map_values(|d: DetectedInterface| (d.name@, d.ip@, d.kind@)) + spec_detect_all(
            iv.skip(i as int),
            netstat_output@,
        ));
    } else {
        detect_from(ifaces, i + 1, netstat_output, out);
    }
}

/// Resolves a configured bind value to an address: `meshnet`/`mesh_vpn`
/// requires a detected mesh-VPN address, `any` is the unspecified address,
/// and anything else must itself be a well-formed IPv4 address.
pub fn resolve_bind_address(bind: &str, detected: &Option<VpnInterface>) -> (r: Result<
    String,
    String,
>)
    ensures
        (bind@ == "meshnet"@ || bind@ == "mesh_vpn"@) ==> (match detected {
            Option::Some(v) => (r matches Ok(ip) && ip@ == v.ip@),
            Option::None => r is Err,
        }),
        bind@ == "any"@ ==> (r matches Ok(ip) && ip@ == "0.0.0.0"@),
        (bind@ != "meshnet"@ && bind@ != "mesh_vpn"@ && bind@ != "any"@) ==> (
        match spec_parse_ipv4(bind@) {
            Option::Some(_) => (r matches Ok(ip) && ip@ == bind@),
            Option::None => r is Err,
        }),
{
    proof {
        reveal_strlit("meshnet");
        reveal_strlit("mesh_vpn");
        reveal_strlit("any");
    }
    let bv = chars_vec(bind);
    if chars_eq_str(&bv, "meshnet") || chars_eq_str(&bv, "mesh_vpn") {
        match detected {
            Option::Some(v) => Result::Ok(crate::strutil::copy_string(&v.ip)),
            Option::None => Result::Err("no mesh VPN was found".to_owned()),
        }
    } else if chars_eq_str(&bv, "any") {
        Result::Ok("0.0.0.0".to_owned())
    } else {
        match parse_ipv4(&bv) {
            Option::Some(_) => Result::Ok(chars_to_string(&bv)),
            Option::None => Result::Err("invalid IP address".to_owned()),
        }
    }
}

} // verus!
