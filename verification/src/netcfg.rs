//! The decisions of the privileged network helper (`eos-netcfg`): what its
//! command line asks for, and which `netcfg:` and `/etc/net` writes carry out a
//! configuration.

use vstd::prelude::*;
use crate::text::{strings_view, trim, from_chars, to_chars, chars_eq, trimmed, lemma_trim_idempotent, lemma_trim_line};
use crate::num::{unsigned_text, parse_unsigned};
use crate::netcore::{ipv4_value, ipv4_text, ipv4_to_string, parse_ipv4_chars, valid_iface, iface_char, iface_ok, prefix_to_netmask, be_bytes, mask_bits, netmask_to_prefix, is_netmask_of, addr_list_value, default_gateway, NetMode, mode_token, law_netmask_prefix_roundtrip, lemma_default_gateway_trimmed};
use crate::num::{dec_text, u64_text};
use crate::sys::{iface_node, netcfg_read, netmask_text, ShimOutcome, static_args, form_iface};

verus! {

/// An IPv4 address as its four octets.
pub type Addr = (u8, u8, u8, u8);

/// A validated static configuration; gateway and DNS are optional (`-` on the
/// command line: left as they are).
#[derive(Debug)]
pub struct Cfg {
    pub iface: String,
    pub ip: Addr,
    pub prefix: u8,
    pub gateway: Option<Addr>,
    pub dns: Option<Addr>,
}

/// What an invocation of the helper should do.
#[derive(Debug)]
pub enum Action {
    /// Pin a fixed address (password required).
    Static(Cfg),
    /// Obtain a lease from a DHCP server (password required).
    Dhcp { iface: String },
    /// Boot-time reconciliation, run as root by init.
    Boot,
}

/// Why the command line is refused.
#[derive(Debug)]
pub enum ArgsError {
    /// Not one of the three command shapes: print the usage text.
    Usage,
    /// A well-shaped command with an invalid field (the message to print).
    Invalid(String),
}

/// The meaning of a command line, over plain values.
pub enum ArgsMeaning {
    Boot,
    Dhcp(Seq<char>),
    Static(Seq<char>, Addr, u8, Option<Addr>, Option<Addr>),
    Usage,
    Invalid(Seq<char>),
}

/// The meaning of the helper's answer to a command line.
pub open spec fn meaning_of(r: Result<Action, ArgsError>) -> ArgsMeaning {
    match r {
        Ok(Action::Boot) => ArgsMeaning::Boot,
        Ok(Action::Dhcp { iface }) => ArgsMeaning::Dhcp(iface@),
        Ok(Action::Static(c)) => ArgsMeaning::Static(c.iface@, c.ip, c.prefix, c.gateway, c.dns),
        Err(ArgsError::Usage) => ArgsMeaning::Usage,
        Err(ArgsError::Invalid(m)) => ArgsMeaning::Invalid(m@),
    }
}

/// An optional address argument: `-` is none; otherwise it must parse.
pub open spec fn opt_addr(s: Seq<char>) -> Option<Option<Addr>> {
    if s == "-"@ {
        Some(None)
    } else {
        match ipv4_value(s) {
            Some(a) => Some(Some(a)),
            None => None,
        }
    }
}

/// What the command line (after the program name) asks for:
/// `boot`, `dhcp <iface>` or `static <iface> <ip> <prefix> <gw|-> <dns|->`,
/// fields checked in that order (the address and prefix untrimmed, the prefix
/// a `u8` of at most 32); anything else is the usage error.
pub open spec fn args_meaning(a: Seq<Seq<char>>) -> ArgsMeaning {
    if a.len() == 1 && a[0] == "boot"@ {
        ArgsMeaning::Boot
    } else if a.len() == 2 && a[0] == "dhcp"@ {
        if iface_ok(a[1]) {
            ArgsMeaning::Dhcp(a[1])
        } else {
            ArgsMeaning::Invalid("nieprawidłowa nazwa interfejsu: "@ + a[1])
        }
    } else if a.len() == 6 && a[0] == "static"@ {
        if !iface_ok(a[1]) {
            ArgsMeaning::Invalid("nieprawidłowa nazwa interfejsu: "@ + a[1])
        } else if ipv4_value(a[2]) is None {
            ArgsMeaning::Invalid("nieprawidłowy adres IP: "@ + a[2])
        } else if !(unsigned_text(a[3], 255) matches Some(p) && p <= 32) {
            ArgsMeaning::Invalid("prefiks poza zakresem 0–32: "@ + a[3])
        } else if opt_addr(a[4]) is None {
            ArgsMeaning::Invalid("nieprawidłowy adres bramy: "@ + a[4])
        } else if opt_addr(a[5]) is None {
            ArgsMeaning::Invalid("nieprawidłowy adres DNS: "@ + a[5])
        } else {
            ArgsMeaning::Static(
                a[1],
                ipv4_value(a[2])->0,
                unsigned_text(a[3], 255)->0 as u8,
                opt_addr(a[4])->0,
                opt_addr(a[5])->0,
            )
        }
    } else {
        ArgsMeaning::Usage
    }
}

/// The refusal `lead` followed by `value`.
fn invalid(lead: &str, value: &String) -> (e: ArgsError)
    ensures
        e matches ArgsError::Invalid(m) && m@ == lead@ + value@,
{
    let mut m = String::from_str(lead);
    m.append(value.as_str());
    ArgsError::Invalid(m)
}

/// Parses an optional address argument.
fn parse_opt_addr(s: &String) -> (r: Option<Option<Addr>>)
    ensures
        r == opt_addr(s@),
{
    let v = to_chars(s.as_str());
    if chars_eq(&v, "-") {
        Some(None)
    } else {
        match parse_ipv4_chars(&v) {
            Some(a) => Some(Some(a)),
            None => None,
        }
    }
}

/// Parse and check the helper's command line (the arguments after the program
/// name). Refusing bad input here gives a clear message and never leaves a
/// half-written configuration.
pub fn parse_args(a: &Vec<String>) -> (r: Result<Action, ArgsError>)
    ensures
        meaning_of(r) == args_meaning(strings_view(a@)),
{
    let ghost av = strings_view(a@);
    let n = a.len();
    if n == 0 {
        return Err(ArgsError::Usage);
    }
    assert(av[0] == a@[0]@);
    let first = to_chars(a[0].as_str());
    if n == 1 && chars_eq(&first, "boot") {
        return Ok(Action::Boot);
    }
    if n == 2 && chars_eq(&first, "dhcp") {
        assert(av[1] == a@[1]@);
        if !valid_iface(a[1].as_str()) {
            return Err(invalid("nieprawidłowa nazwa interfejsu: ", &a[1]));
        }
        return Ok(Action::Dhcp { iface: a[1].clone() });
    }
    if n == 6 && chars_eq(&first, "static") {
        assert(av[1] == a@[1]@);
        assert(av[2] == a@[2]@);
        assert(av[3] == a@[3]@);
        assert(av[4] == a@[4]@);
        assert(av[5] == a@[5]@);
        if !valid_iface(a[1].as_str()) {
            return Err(invalid("nieprawidłowa nazwa interfejsu: ", &a[1]));
        }
        let ipv = to_chars(a[2].as_str());
        let ip = match parse_ipv4_chars(&ipv) {
            Some(ip) => ip,
            None => return Err(invalid("nieprawidłowy adres IP: ", &a[2])),
        };
        let pv = to_chars(a[3].as_str());
        assert(pv@.subrange(0, pv@.len() as int) == pv@);
        let prefix = match parse_unsigned(&pv, 0, pv.len(), 255) {
            Some(p) if p <= 32 => p as u8,
            _ => return Err(invalid("prefiks poza zakresem 0–32: ", &a[3])),
        };
        let gateway = match parse_opt_addr(&a[4]) {
            Some(g) => g,
            None => return Err(invalid("nieprawidłowy adres bramy: ", &a[4])),
        };
        let dns = match parse_opt_addr(&a[5]) {
            Some(d) => d,
            None => return Err(invalid("nieprawidłowy adres DNS: ", &a[5])),
        };
        return Ok(Action::Static(Cfg { iface: a[1].clone(), ip, prefix, gateway, dns }));
    }
    Err(ArgsError::Usage)
}


/// One file write of a configuration step: the path, the text written, and —
/// when a failure must stop the step — the label its error is reported under.
#[derive(Debug)]
pub struct Write {
    pub path: String,
    pub data: String,
    pub fail_label: Option<String>,
}

/// The content of a [`Write`].
pub open spec fn write_view(w: Write) -> (Seq<char>, Seq<char>, Option<Seq<char>>) {
    (w.path@, w.data@, match w.fail_label {
        Some(l) => Some(l@),
        None => None,
    })
}

/// The contents of a sequence of writes.
pub open spec fn writes_view(ws: Seq<Write>) -> Seq<(Seq<char>, Seq<char>, Option<Seq<char>>)> {
    ws.map_values(|w: Write| write_view(w))
}

/// What a failed write means for its step: the step stops with the write's
/// label and the error when the write is required, and goes on (`None`) when
/// it is best effort.
pub fn write_failed(w: &Write, err: &str) -> (r: Option<String>)
    ensures
        r matches Some(m) ==> w.fail_label matches Some(l) && m@ == l@ + ": "@ + err@,
        r is None ==> w.fail_label is None,
{
    match &w.fail_label {
        Some(l) => {
            let mut m = l.clone();
            m.append(": ");
            m.append(err);
            Some(m)
        },
        None => None,
    }
}

/// A write whose failure is reported under `label`.
fn required(path: String, data: String, label: String) -> (w: Write)
    ensures
        write_view(w) == (path@, data@, Some(label@)),
{
    Write { path, data, fail_label: Some(label) }
}

/// A best-effort write whose failure is ignored.
fn best_effort(path: String, data: String) -> (w: Write)
    ensures
        write_view(w) == (path@, data@, None::<Seq<char>>),
{
    Write { path, data, fail_label: None }
}

/// `s` followed by a newline.
fn line_of(s: &String) -> (r: String)
    ensures
        r@ == s@ + "\n"@,
{
    let mut r = s.clone();
    r.append("\n");
    r
}

/// The writes that record the addressing mode.
pub open spec fn mode_write(m: NetMode) -> (Seq<char>, Seq<char>, Option<Seq<char>>) {
    ("/etc/net/mode"@, mode_token(m) + "\n"@, Some("/etc/net/mode"@))
}

fn write_mode(m: NetMode) -> (w: Write)
    ensures
        write_view(w) == mode_write(m),
{
    let tok = String::from_str(m.as_str());
    required(String::from_str("/etc/net/mode"), line_of(&tok), String::from_str("/etc/net/mode"))
}

/// The write that puts `ip/prefix` on interface `iface`.
pub open spec fn addr_write(iface: Seq<char>, ip: Seq<char>, prefix: u8) -> (Seq<char>, Seq<char>, Option<Seq<char>>) {
    let p = "/scheme/netcfg/ifaces/"@ + iface + "/"@ + "addr/set"@;
    (p, ip + "/"@ + dec_text(prefix as nat) + "\n"@, Some(p))
}

fn set_addr(iface: &String, ip: &String, prefix: u8) -> (w: Write)
    ensures
        write_view(w) == addr_write(iface@, ip@, prefix),
{
    let p = iface_node(iface.as_str(), "addr/set");
    let mut d = ip.clone();
    d.append("/");
    d.append(u64_text(prefix as u64).as_str());
    d.append("\n");
    let l = p.clone();
    required(p, d, l)
}

/// The writes that replace the default route with one via `gw`: removing the
/// old one (a missing route is fine), then adding the new.
pub open spec fn route_writes(gw: Seq<char>) -> Seq<(Seq<char>, Seq<char>, Option<Seq<char>>)> {
    seq![
        ("/scheme/netcfg/route/rm"@, "0.0.0.0/0\n"@, None),
        ("/scheme/netcfg/route/add"@, "default via "@ + gw + "\n"@, Some("route/add"@)),
    ]
}

fn push_route(ws: &mut Vec<Write>, gw: &String)
    ensures
        writes_view(final(ws)@) == writes_view(old(ws)@) + route_writes(gw@),
{
    let ghost before = writes_view(ws@);
    ws.push(best_effort(String::from_str("/scheme/netcfg/route/rm"), String::from_str("0.0.0.0/0\n")));
    let mut d = String::from_str("default via ");
    d.append(gw.as_str());
    d.append("\n");
    ws.push(required(String::from_str("/scheme/netcfg/route/add"), d, String::from_str("route/add")));
    assert(writes_view(ws@) =~= before + route_writes(gw@));
}

/// The write that sets the DNS resolver.
pub open spec fn resolver_write(dns: Seq<char>) -> (Seq<char>, Seq<char>, Option<Seq<char>>) {
    ("/scheme/netcfg/resolv/nameserver"@, dns + "\n"@, Some("resolv/nameserver"@))
}

fn set_resolver(dns: &String) -> (w: Write)
    ensures
        write_view(w) == resolver_write(dns@),
{
    required(
        String::from_str("/scheme/netcfg/resolv/nameserver"),
        line_of(dns),
        String::from_str("resolv/nameserver"),
    )
}

/// The best-effort writes of the persistent `/etc/net` files: address and mask
/// always, gateway and DNS when known.
pub open spec fn file_writes(ip: Seq<char>, subnet: Seq<char>, gw: Option<Seq<char>>, dns: Option<Seq<char>>) -> Seq<(Seq<char>, Seq<char>, Option<Seq<char>>)> {
    seq![("/etc/net/ip"@, ip + "\n"@, None), ("/etc/net/ip_subnet"@, subnet + "\n"@, None)]
        + (match gw {
        Some(g) => seq![("/etc/net/ip_router"@, g + "\n"@, None)],
        None => Seq::empty(),
    }) + (match dns {
        Some(d) => seq![("/etc/net/dns"@, d + "\n"@, None)],
        None => Seq::empty(),
    })
}

pub open spec fn opt_view(o: Option<String>) -> Option<Seq<char>> {
    match o {
        Some(s) => Some(s@),
        None => None,
    }
}

fn push_files(ws: &mut Vec<Write>, ip: &String, subnet: &String, gw: &Option<String>, dns: &Option<String>)
    ensures
        writes_view(final(ws)@) == writes_view(old(ws)@) + file_writes(ip@, subnet@, opt_view(*gw), opt_view(*dns)),
{
    let ghost before = writes_view(ws@);
    ws.push(best_effort(String::from_str("/etc/net/ip"), line_of(ip)));
    ws.push(best_effort(String::from_str("/etc/net/ip_subnet"), line_of(subnet)));
    match gw {
        Some(g) => ws.push(best_effort(String::from_str("/etc/net/ip_router"), line_of(g))),
        None => {},
    }
    match dns {
        Some(d) => ws.push(best_effort(String::from_str("/etc/net/dns"), line_of(d))),
        None => {},
    }
    assert(writes_view(ws@) =~= before + file_writes(ip@, subnet@, opt_view(*gw), opt_view(*dns)));
}

/// The writes that apply a static configuration, live stack first, then the
/// persistent files: the mode marker, the address, the default route (when a
/// gateway is given), the resolver (when a DNS server is given), then the
/// files.
pub open spec fn static_writes(iface: Seq<char>, ip: Addr, prefix: u8, gw: Option<Addr>, dns: Option<Addr>) -> Seq<(Seq<char>, Seq<char>, Option<Seq<char>>)> {
    let gwt = match gw { Some(g) => Some(ipv4_text(g)), None => None };
    let dnt = match dns { Some(d) => Some(ipv4_text(d)), None => None };
    seq![mode_write(NetMode::Static), addr_write(iface, ipv4_text(ip), prefix)]
        + (match gwt { Some(g) => route_writes(g), None => Seq::empty() })
        + (match dnt { Some(d) => seq![resolver_write(d)], None => Seq::empty() })
        + file_writes(ipv4_text(ip), ipv4_text(be_bytes(mask_bits(if prefix > 32 { 32u32 } else { prefix as u32 }))), gwt, dnt)
}

fn opt_addr_text(a: Option<Addr>) -> (r: Option<String>)
    ensures
        opt_view(r) == (match a { Some(g) => Some(ipv4_text(g)), None => None::<Seq<char>> }),
{
    match a {
        Some(g) => Some(ipv4_to_string(g)),
        None => None,
    }
}

/// The writes that apply the static configuration `cfg`.
pub fn static_plan(cfg: &Cfg) -> (ws: Vec<Write>)
    ensures
        writes_view(ws@) == static_writes(cfg.iface@, cfg.ip, cfg.prefix, cfg.gateway, cfg.dns),
{
    let mut ws: Vec<Write> = Vec::new();
    ws.push(write_mode(NetMode::Static));
    let ip = ipv4_to_string(cfg.ip);
    ws.push(set_addr(&cfg.iface, &ip, cfg.prefix));
    let gw = opt_addr_text(cfg.gateway);
    let dns = opt_addr_text(cfg.dns);
    let ghost gwt = opt_view(gw);
    let ghost dnt = opt_view(dns);
    let ghost w0 = writes_view(ws@);
    assert(w0 =~= seq![mode_write(NetMode::Static), addr_write(cfg.iface@, ipv4_text(cfg.ip), cfg.prefix)]);
    match &gw {
        Some(g) => push_route(&mut ws, g),
        None => {},
    }
    let ghost w1 = writes_view(ws@);
    assert(w1 =~= w0 + (match gwt { Some(g) => route_writes(g), None => Seq::empty() }));
    match &dns {
        Some(d) => {
            let w = set_resolver(d);
            ws.push(w);
            assert(writes_view(ws@) =~= w1.push(resolver_write(d@)));
        },
        None => {},
    }
    let ghost w2 = writes_view(ws@);
    assert(w2 =~= w1 + (match dnt { Some(d) => seq![resolver_write(d)], None => Seq::empty() }));
    let mask = prefix_to_netmask(cfg.prefix);
    push_files(&mut ws, &ip, &mask, &gw, &dns);
    assert(writes_view(ws@) =~= static_writes(cfg.iface@, cfg.ip, cfg.prefix, cfg.gateway, cfg.dns));
    ws
}


/// `p` is the prefix length a subnet-file text stands for: the length whose
/// netmask it is, or 24 when it is the netmask of no length.
pub open spec fn subnet_prefix(subnet: Seq<char>, p: u8) -> bool {
    ||| is_netmask_of(trim(subnet), p as u32)
    ||| (p == 24 && forall|q: u32| !#[trigger] is_netmask_of(trim(subnet), q))
}

/// The writes that push a persisted static configuration onto the live stack:
/// the address (with the subnet file's prefix), then the default route and the
/// resolver when their files are not empty.
pub open spec fn boot_writes(iface: Seq<char>, ip: Seq<char>, prefix: u8, gw: Seq<char>, dns: Seq<char>) -> Seq<(Seq<char>, Seq<char>, Option<Seq<char>>)> {
    seq![addr_write(iface, ip, prefix)]
        + (if gw.len() > 0 { route_writes(gw) } else { Seq::empty() })
        + (if dns.len() > 0 { seq![resolver_write(dns)] } else { Seq::empty() })
}

/// The boot-time plan for a static configuration, from the contents of
/// `/etc/net/ip`, `ip_subnet`, `ip_router` and `dns` (each trimmed): refused
/// when the address file is empty.
pub fn files_to_scheme(iface: &String, ip_file: &str, subnet_file: &str, router_file: &str, dns_file: &str) -> (r: Result<Vec<Write>, String>)
    ensures
        trim(ip_file@).len() == 0 <==> r is Err,
        r matches Err(m) ==> m@ == "/etc/net/ip jest puste — brak konfiguracji statycznej"@,
        r matches Ok(ws) ==> exists|p: u8| subnet_prefix(subnet_file@, p) && writes_view(ws@) == boot_writes(iface@, trim(ip_file@), p, trim(router_file@), trim(dns_file@)),
{
    let ipc = trimmed(ip_file);
    let ip = from_chars(&ipc);
    if ipc.len() == 0 {
        return Err(String::from_str("/etc/net/ip jest puste — brak konfiguracji statycznej"));
    }
    let subnet = from_chars(&trimmed(subnet_file));
    proof {
        lemma_trim_idempotent(subnet_file@);
    }
    let prefix = match netmask_to_prefix(subnet.as_str()) {
        Some(p) => p,
        None => 24,
    };
    let mut ws: Vec<Write> = Vec::new();
    ws.push(set_addr(iface, &ip, prefix));
    let ghost w0 = writes_view(ws@);
    assert(w0 =~= seq![addr_write(iface@, ip@, prefix)]);
    let gwc = trimmed(router_file);
    let gw = from_chars(&gwc);
    if gwc.len() > 0 {
        push_route(&mut ws, &gw);
    }
    let ghost w1 = writes_view(ws@);
    assert(w1 =~= w0 + (if gw@.len() > 0 { route_writes(gw@) } else { Seq::empty() }));
    let dnc = trimmed(dns_file);
    let dns = from_chars(&dnc);
    if dnc.len() > 0 {
        let w = set_resolver(&dns);
        ws.push(w);
        assert(writes_view(ws@) =~= w1.push(resolver_write(dns@)));
    }
    assert(writes_view(ws@) =~= boot_writes(iface@, ip@, prefix, gw@, dns@));
    assert(subnet_prefix(subnet_file@, prefix));
    Ok(ws)
}

/// What mirroring the live stack into the files gives: nothing when the stack
/// has no valid address; otherwise the address and the file writes of address,
/// mask, default gateway (if the route list has one) and resolver (if set).
pub open spec fn mirror_of(addr: Option<&str>, route: Option<&str>, ns: Option<&str>) -> Option<(Seq<char>, Seq<(Seq<char>, Seq<char>, Option<Seq<char>>)>)> {
    match (match netcfg_read(addr) {
        Some(v) => addr_list_value(v),
        None => None,
    }) {
        Some((ip, p)) => Some((ip, file_writes(ip, netmask_text(p), match netcfg_read(route) {
            Some(v) => default_gateway(v),
            None => None,
        }, netcfg_read(ns)))),
        None => None,
    }
}

/// The plan that copies the live `netcfg:` state (reads of the interface's
/// `addr/list`, the `route/list` and the resolver) into `/etc/net`, with the
/// mirrored address; `None` when the stack has no address yet.
pub fn mirror_plan(addr: Option<&str>, route: Option<&str>, ns: Option<&str>) -> (r: Option<(String, Vec<Write>)>)
    ensures
        r matches Some(x) ==> mirror_of(addr, route, ns) == Some((x.0@, writes_view(x.1@))),
        r is None ==> mirror_of(addr, route, ns) is None,
{
    let parsed = match addr {
        Some(a) => match crate::netcore::netcfg_value(a) {
            Some(v) => crate::netcore::parse_addr_list(v.as_str()),
            None => None,
        },
        None => None,
    };
    let (ip, p) = match parsed {
        Some(x) => x,
        None => return None,
    };
    let gw = match route {
        Some(rt) => match crate::netcore::netcfg_value(rt) {
            Some(v) => crate::netcore::parse_default_gateway(v.as_str()),
            None => None,
        },
        None => None,
    };
    let dns = match ns {
        Some(n) => crate::netcore::netcfg_value(n),
        None => None,
    };
    let mask = prefix_to_netmask(p);
    let mut ws: Vec<Write> = Vec::new();
    push_files(&mut ws, &ip, &mask, &gw, &dns);
    assert(writes_view(ws@) =~= file_writes(ip@, netmask_text(p), opt_view(gw), opt_view(dns)));
    Some((ip, ws))
}

/// The writes before a DHCP lease: record the DHCP mode, and drop the old
/// default route (the DHCP client adds one without removing the old).
pub fn dhcp_prepare() -> (ws: Vec<Write>)
    ensures
        writes_view(ws@) == seq![mode_write(NetMode::Dhcp), ("/scheme/netcfg/route/rm"@, "0.0.0.0/0\n"@, None)],
{
    let mut ws: Vec<Write> = Vec::new();
    ws.push(write_mode(NetMode::Dhcp));
    ws.push(best_effort(String::from_str("/scheme/netcfg/route/rm"), String::from_str("0.0.0.0/0\n")));
    assert(writes_view(ws@) =~= seq![mode_write(NetMode::Dhcp), ("/scheme/netcfg/route/rm"@, "0.0.0.0/0\n"@, None)]);
    ws
}

/// After a lease: the writes that mirror it into the files, or the error that
/// the lease brought no address.
pub fn lease_writes(addr: Option<&str>, route: Option<&str>, ns: Option<&str>) -> (r: Result<Vec<Write>, String>)
    ensures
        r matches Ok(ws) ==> mirror_of(addr, route, ns) matches Some(x) && x.1 == writes_view(ws@),
        r matches Err(m) ==> mirror_of(addr, route, ns) is None && m@ == "DHCP: dzierżawa nie przyniosła adresu"@,
{
    match mirror_plan(addr, route, ns) {
        Some((_, ws)) => Ok(ws),
        None => Err(String::from_str("DHCP: dzierżawa nie przyniosła adresu")),
    }
}

/// What a run of the DHCP client means: success only when it ran and exited
/// successfully (it exits 0 once it has a lease).
pub fn dhcpd_result(outcome: ShimOutcome) -> (r: Result<(), String>)
    ensures
        outcome matches ShimOutcome::Exited(true) <==> r is Ok,
        outcome matches ShimOutcome::Exited(false) ==> r matches Err(m) && m@ == "DHCP: serwer nie odpowiedział (dhcpd)"@,
        outcome matches ShimOutcome::SpawnFailed(e) ==> r matches Err(m) && m@ == "nie można uruchomić dhcpd: "@ + e@,
        outcome matches ShimOutcome::WaitFailed(e) ==> r matches Err(m) && m@ == "dhcpd: "@ + e@,
{
    match outcome {
        ShimOutcome::SpawnFailed(e) => {
            let mut m = String::from_str("nie można uruchomić dhcpd: ");
            m.append(e.as_str());
            Err(m)
        },
        ShimOutcome::Exited(ok) => if ok {
            Ok(())
        } else {
            Err(String::from_str("DHCP: serwer nie odpowiedział (dhcpd)"))
        },
        ShimOutcome::WaitFailed(e) => {
            let mut m = String::from_str("dhcpd: ");
            m.append(e.as_str());
            Err(m)
        },
    }
}

/// Law: an applied static configuration is what the network view shows when
/// only the `/etc/net` files can be read. Each file the apply writes, read back
/// and trimmed as the view reads it, is the applied address, mask, gateway and
/// DNS server.
pub proof fn law_apply_visible(iface: Seq<char>, ip: Addr, prefix: u8, gw: Addr, dns: Addr)
    requires
        prefix <= 32,
    ensures
        ({
            let fw = file_writes(ipv4_text(ip), netmask_text(prefix), Some(ipv4_text(gw)), Some(ipv4_text(dns)));
            &&& fw.len() == 4
            &&& fw[0].0 == "/etc/net/ip"@ && trim(fw[0].1) == ipv4_text(ip)
            &&& fw[1].0 == "/etc/net/ip_subnet"@ && trim(fw[1].1) == netmask_text(prefix)
            &&& fw[2].0 == "/etc/net/ip_router"@ && trim(fw[2].1) == ipv4_text(gw)
            &&& fw[3].0 == "/etc/net/dns"@ && trim(fw[3].1) == ipv4_text(dns)
        }),
{
    crate::netcore::lemma_ipv4_text_trimmed(ip);
    crate::netcore::lemma_ipv4_text_trimmed(gw);
    crate::netcore::lemma_ipv4_text_trimmed(dns);
    crate::netcore::lemma_ipv4_text_trimmed(be_bytes(mask_bits(prefix as u32)));
    lemma_trim_line(ipv4_text(ip));
    lemma_trim_line(ipv4_text(gw));
    lemma_trim_line(ipv4_text(dns));
    lemma_trim_line(netmask_text(prefix));
    let fw = file_writes(ipv4_text(ip), netmask_text(prefix), Some(ipv4_text(gw)), Some(ipv4_text(dns)));
    assert(fw == seq![
        ("/etc/net/ip"@, ipv4_text(ip) + "\n"@, None::<Seq<char>>),
        ("/etc/net/ip_subnet"@, netmask_text(prefix) + "\n"@, None),
        ("/etc/net/ip_router"@, ipv4_text(gw) + "\n"@, None),
        ("/etc/net/dns"@, ipv4_text(dns) + "\n"@, None),
    ]);
}

/// Law: a static configuration survives a reboot. The live writes of an apply
/// (address, default route, resolver) are exactly the writes the boot step
/// replays from the files that apply wrote, and the prefix the boot step reads
/// back from the mask file is the applied one.
pub proof fn law_static_survives_reboot(iface: Seq<char>, ip: Addr, prefix: u8, gw: Addr, dns: Addr, p: u8)
    requires
        prefix <= 32,
        subnet_prefix(netmask_text(prefix) + "\n"@, p),
    ensures
        p == prefix,
        static_writes(iface, ip, prefix, Some(gw), Some(dns)) == seq![mode_write(NetMode::Static)]
            + boot_writes(iface, trim(ipv4_text(ip) + "\n"@), p, trim(ipv4_text(gw) + "\n"@), trim(ipv4_text(dns) + "\n"@))
            + file_writes(ipv4_text(ip), netmask_text(prefix), Some(ipv4_text(gw)), Some(ipv4_text(dns))),
{
    crate::netcore::lemma_ipv4_text_trimmed(ip);
    crate::netcore::lemma_ipv4_text_trimmed(gw);
    crate::netcore::lemma_ipv4_text_trimmed(dns);
    crate::netcore::lemma_ipv4_text_trimmed(be_bytes(mask_bits(prefix as u32)));
    lemma_trim_line(ipv4_text(ip));
    lemma_trim_line(ipv4_text(gw));
    lemma_trim_line(ipv4_text(dns));
    lemma_trim_line(netmask_text(prefix));
    lemma_trim_idempotent(netmask_text(prefix) + "\n"@);
    law_netmask_prefix_roundtrip(prefix);
    crate::netcore::lemma_ipv4_text_trimmed(be_bytes(mask_bits(prefix as u32)));
    assert(is_netmask_of(trim(netmask_text(prefix) + "\n"@), prefix as u32));
    if p != prefix {
        if is_netmask_of(trim(netmask_text(prefix) + "\n"@), p as u32) {
            assert(p as u32 == prefix as u32);
        }
    }
    assert(ipv4_text(gw).len() > 0 && ipv4_text(dns).len() > 0);
    assert(static_writes(iface, ip, prefix, Some(gw), Some(dns)) =~= seq![mode_write(NetMode::Static)]
        + boot_writes(iface, ipv4_text(ip), prefix, ipv4_text(gw), ipv4_text(dns))
        + file_writes(ipv4_text(ip), netmask_text(prefix), Some(ipv4_text(gw)), Some(ipv4_text(dns))));
}

/// Law: once the live state is mirrored into `/etc/net` (what makes a DHCP
/// lease visible to the network view and to name resolution), each file holds
/// its live value on one line, and reading the file back trimmed gives that
/// value: the address, the mask of its prefix, the default gateway and the
/// resolver.
pub proof fn law_mirror_visible(addr: Option<&str>, route: Option<&str>, ns: Option<&str>)
    requires
        mirror_of(addr, route, ns) is Some,
    ensures
        ({
            let (ip, p) = addr_list_value(netcfg_read(addr)->0)->0;
            let gw = match netcfg_read(route) {
                Some(v) => default_gateway(v),
                None => None,
            };
            let dns = netcfg_read(ns);
            &&& mirror_of(addr, route, ns)->0 == (ip, file_writes(ip, netmask_text(p), gw, dns))
            &&& trim(ip + "\n"@) == ip
            &&& trim(netmask_text(p) + "\n"@) == netmask_text(p)
            &&& gw matches Some(g) ==> trim(g + "\n"@) == g
            &&& dns matches Some(d) ==> trim(d + "\n"@) == d
        }),
{
    let (ip, p) = addr_list_value(netcfg_read(addr)->0)->0;
    let t = trim(netcfg_read(addr)->0);
    let k = crate::text::lead_len(t, |c: char| crate::netcore::not_slash(c));
    let o = ipv4_value(trim(t.subrange(0, k as int)))->0;
    assert(ip == ipv4_text(o));
    crate::netcore::lemma_ipv4_text_trimmed(o);
    lemma_trim_line(ip);
    crate::netcore::lemma_ipv4_text_trimmed(be_bytes(mask_bits(p as u32)));
    lemma_trim_line(netmask_text(p));
    match netcfg_read(route) {
        Some(v) => {
            lemma_default_gateway_trimmed(v);
            if default_gateway(v) is Some {
                lemma_trim_line(default_gateway(v)->0);
            }
        },
        None => {},
    }
    match ns {
        Some(n) => {
            lemma_trim_idempotent(n@);
            if netcfg_read(ns) is Some {
                lemma_trim_line(trim(n@));
            }
        },
        None => {},
    }
}

/// Law: an interface name that passes the check holds no `/`, `.`, `:` or
/// whitespace and is 1–15 characters long, so in the node paths built from it
/// (`/scheme/netcfg/ifaces/<iface>/<node>`) the name is one path segment, never
/// `.` or `..`: a crafted name cannot make the helper, which runs as root,
/// write outside that interface's nodes.
pub proof fn law_iface_stays_in_node(s: Seq<char>)
    requires
        iface_ok(s),
    ensures
        1 <= s.len() <= 15,
        forall|i: int| 0 <= i < s.len() ==> #[trigger] s[i] != '/' && s[i] != '.' && s[i] != ':'
            && !crate::text::is_ws(s[i]),
{
    assert forall|i: int| 0 <= i < s.len() implies #[trigger] s[i] != '/' && s[i] != '.' && s[i]
        != ':' && !crate::text::is_ws(s[i]) by {
        assert(iface_char(s[i]));
    }
}

/// An address field of the network form: none when blank, else its address.
pub open spec fn form_addr(s: Seq<char>) -> Option<Addr> {
    if trim(s).len() == 0 {
        None
    } else {
        ipv4_value(trim(s))
    }
}

/// `-` is no address text.
proof fn lemma_dash_no_address()
    ensures
        ipv4_value("-"@) is None,
{
    reveal_strlit("-");
    crate::text::lemma_split_char_none("-"@, '.');
}

/// Law: every static configuration the network form accepts is accepted by the
/// helper as that same configuration. The command line the form builds
/// (`apply_static`) reads, by the helper's own rules (`parse_args`), as the
/// static action on the form's interface, address, prefix, gateway and DNS
/// server, a blank gateway or DNS field meaning "leave it as it is".
pub proof fn law_helper_accepts_form(iface: Seq<char>, ip: Seq<char>, prefix: i32, gateway: Seq<char>, dns: Seq<char>)
    requires
        static_args(iface, ip, prefix, gateway, dns) is Ok,
    ensures
        args_meaning(static_args(iface, ip, prefix, gateway, dns)->Ok_0) == ArgsMeaning::Static(
            form_iface(iface),
            ipv4_value(trim(ip))->0,
            prefix as u8,
            form_addr(gateway),
            form_addr(dns),
        ),
{
    reveal_strlit("static");
    reveal_strlit("boot");
    reveal_strlit("dhcp");
    let a = static_args(iface, ip, prefix, gateway, dns)->Ok_0;
    crate::num::lemma_dec_text(prefix as nat);
    let d = dec_text(prefix as nat);
    assert(a[3] == d);
    assert(crate::num::is_digit(d[0]));
    assert(d[0] != '+');
    assert(unsigned_text(a[3], 255) == Some(prefix as nat));
    lemma_dash_no_address();
    if trim(gateway).len() > 0 {
        assert(a[4] != "-"@);
    }
    if trim(dns).len() > 0 {
        assert(a[5] != "-"@);
    }
    assert(a[0] == "static"@);
    assert(a[0] != "boot"@);
    assert(a[0] != "dhcp"@);
}

} // verus!
