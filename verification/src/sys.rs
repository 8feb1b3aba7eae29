//! System, process, storage, sound, network and power state: the data types of
//! the overview and the decisions made on what the system reports.

use vstd::prelude::*;
use crate::text::{strings_view, trim, trimmed, to_chars, from_chars, lines, split_lines, words, split_words, trim_bounds, sub_vec, views, range_eq};
use crate::num::{signed_text, unsigned_text, int_text, dec_text, i32_text, lemma_dec_text, parse_unsigned};
use crate::netcore::{iface_ok, ipv4_value, ipv4_text, be_bytes, mask_bits, netcfg_value_of, addr_list_value, default_gateway};
use crate::grouping::{mem_total, procs_view};

verus! {

/// A one-glance summary of the machine.
#[derive(Clone, Debug)]
pub struct Overview {
    /// System identity, e.g. `E-OS (Redox 0.9.0) · aarch64`.
    pub system: String,
    /// Logical CPU count.
    pub cpus: u32,
    /// Number of processes.
    pub processes: usize,
    /// Total private memory across all processes, in bytes.
    pub mem_bytes: u64,
    /// Context switches since boot, if available.
    pub context_switches: u64,
    /// Total hardware IRQs served, if available.
    pub irqs: u64,
}

/// One process, with a human label and its capability (open-scheme) set.
#[derive(Clone, Debug)]
pub struct Proc {
    /// Process id.
    pub pid: String,
    /// Process name.
    pub name: String,
    /// A short human explanation of what this process is.
    pub label: String,
    /// Owning user id.
    pub owner: String,
    /// Scheduler status.
    pub status: String,
    /// Accumulated CPU time.
    pub cpu_time: String,
    /// Private memory, a pre-formatted size like `1 MB`.
    pub memory: String,
    /// Private memory in bytes.
    pub mem_bytes: u64,
    /// The schemes this process holds open — its capability profile.
    pub resources: Vec<String>,
}

/// The mathematical content of a [`Proc`].
pub struct ProcView {
    pub pid: Seq<char>,
    pub name: Seq<char>,
    pub label: Seq<char>,
    pub owner: Seq<char>,
    pub status: Seq<char>,
    pub cpu_time: Seq<char>,
    pub memory: Seq<char>,
    pub mem_bytes: u64,
    pub resources: Seq<Seq<char>>,
}

impl View for Proc {
    type V = ProcView;

    open spec fn view(&self) -> ProcView {
        ProcView {
            pid: self.pid@,
            name: self.name@,
            label: self.label@,
            owner: self.owner@,
            status: self.status@,
            cpu_time: self.cpu_time@,
            memory: self.memory@,
            mem_bytes: self.mem_bytes,
            resources: strings_view(self.resources@),
        }
    }
}

/// Network configuration and stack status.
#[derive(Clone, Debug)]
pub struct Net {
    /// Interface name, e.g. `eth0`.
    pub iface: String,
    /// Interface IPv4 address.
    pub ip: String,
    /// Default gateway.
    pub gateway: String,
    /// DNS resolver.
    pub dns: String,
    /// Subnet mask.
    pub subnet: String,
    /// Interface hardware (MAC) address; empty if unavailable.
    pub mac: String,
    /// True when the network stack is running.
    pub stack_up: bool,
}

/// Filesystem usage of the root mount, in bytes; `total_bytes == 0` means the
/// query failed.
#[derive(Clone, Debug)]
pub struct Storage {
    /// Total size of the root filesystem.
    pub total_bytes: u64,
    /// Space still free.
    pub free_bytes: u64,
    /// Space in use (`total - free`).
    pub used_bytes: u64,
}

/// Audio state: the master output level.
#[derive(Clone, Debug)]
pub struct Audio {
    /// True when the volume control could be read — the audio daemon is live.
    pub available: bool,
    /// Master output volume, 0–100 (meaningful only when `available`).
    pub volume: i32,
}

impl Default for Storage {
    fn default() -> (s: Self)
        ensures
            s.total_bytes == 0 && s.free_bytes == 0 && s.used_bytes == 0,
    {
        Storage { total_bytes: 0, free_bytes: 0, used_bytes: 0 }
    }
}

impl Default for Audio {
    fn default() -> (a: Self)
        ensures
            !a.available && a.volume == 0,
    {
        Audio { available: false, volume: 0 }
    }
}

/// `a * b`, saturating at `u64::MAX`.
pub open spec fn sat_mul(a: u64, b: u64) -> u64 {
    if a * b > u64::MAX {
        u64::MAX
    } else {
        (a * b) as u64
    }
}

/// `a - b`, saturating at 0.
pub open spec fn sat_sub(a: u64, b: u64) -> u64 {
    if a < b {
        0
    } else {
        (a - b) as u64
    }
}

/// Assemble a [`Storage`] from raw `statvfs` block figures: total is
/// `blocks * bsize`, free is `bavail * bsize` (both saturating), used is their
/// saturating difference.
pub fn storage_from(f_bsize: u64, f_blocks: u64, f_bavail: u64) -> (s: Storage)
    ensures
        s.total_bytes == sat_mul(f_blocks, f_bsize),
        s.free_bytes == sat_mul(f_bavail, f_bsize),
        s.used_bytes == sat_sub(s.total_bytes, s.free_bytes),
{
    let total = match f_blocks.checked_mul(f_bsize) {
        Some(t) => t,
        None => u64::MAX,
    };
    let free = match f_bavail.checked_mul(f_bsize) {
        Some(f) => f,
        None => u64::MAX,
    };
    let used = if total < free {
        0
    } else {
        total - free
    };
    Storage { total_bytes: total, free_bytes: free, used_bytes: used }
}

/// `v` clamped to `0..=100`.
pub open spec fn clamp_spec(v: int) -> int {
    if v < 0 {
        0
    } else if v > 100 {
        100
    } else {
        v
    }
}

/// Clamp a volume to the daemon's accepted `0–100` range.
pub fn clamp_volume(v: i32) -> (r: i32)
    ensures
        r as int == clamp_spec(v as int),
{
    if v < 0 {
        0
    } else if v > 100 {
        100
    } else {
        v
    }
}

/// The level a volume read means: the trimmed text as an `i32`, clamped.
pub open spec fn volume_of(s: Seq<char>) -> Option<int> {
    match signed_text(trim(s), i32::MIN as int, i32::MAX as int) {
        Some(v) => Some(clamp_spec(v)),
        None => None,
    }
}

/// Parse the decimal string the audio daemon returns into `0–100`. `None` for
/// non-numeric input.
pub fn parse_volume(s: &str) -> (r: Option<i32>)
    ensures
        r matches Some(v) ==> volume_of(s@) == Some(v as int),
        r is None ==> volume_of(s@) is None,
{
    match crate::num::parse_i32_trimmed(s) {
        Some(v) => Some(clamp_volume(v)),
        None => None,
    }
}

/// The audio state a read of the volume control gives: unreadable means the
/// daemon is down; readable but garbled means up with level 0.
pub fn audio_from_read(read: Option<&str>) -> (a: Audio)
    ensures
        read is None ==> !a.available && a.volume == 0,
        read matches Some(s) ==> a.available && a.volume as int == (match volume_of(s@) {
            Some(v) => v,
            None => 0,
        }),
{
    match read {
        Some(s) => Audio {
            available: true,
            volume: match parse_volume(s) {
                Some(v) => v,
                None => 0,
            },
        },
        None => Audio { available: false, volume: 0 },
    }
}

/// The text written to the volume control to set level `v`: the clamped level
/// in decimal.
pub fn volume_payload(v: i32) -> (s: String)
    ensures
        s@ == int_text(clamp_spec(v as int)),
{
    i32_text(clamp_volume(v))
}

/// Law: what a volume write puts in the control reads back as the clamped level.
pub proof fn law_volume_write_read(v: i32)
    ensures
        volume_of(int_text(clamp_spec(v as int))) == Some(clamp_spec(v as int)),
{
    let c = clamp_spec(v as int);
    let t = dec_text(c as nat);
    lemma_dec_text(c as nat);
    assert(int_text(c) == t);
    assert forall|i: int| 0 <= i < t.len() implies !crate::text::is_ws(#[trigger] t[i]) by {
        assert(crate::num::is_digit(t[i]));
    }
    crate::netcore::lemma_no_ws_trim(t);
    assert(crate::num::is_digit(t[0]));
}


/// `s` begins with `p`.
pub open spec fn starts_with(s: Seq<char>, p: Seq<char>) -> bool {
    s.len() >= p.len() && s.subrange(0, p.len() as int) == p
}

/// Whether `v` begins with `lit`.
fn chars_start_with(v: &Vec<char>, lit: &str) -> (r: bool)
    ensures
        r == starts_with(v@, lit@),
{
    let w = to_chars(lit);
    if v.len() < w.len() {
        return false;
    }
    range_eq(v, 0, w.len(), lit)
}

/// The system identity from a `sys:uname` text (`Redox`, version, arch, … one
/// per line): `E-OS (Redox <version>) · <arch>` from the trimmed second and third
/// lines, or plain `E-OS` when both are missing or empty.
pub open spec fn system_of_uname(raw: Seq<char>) -> Seq<char> {
    let ls = lines(raw);
    let ver = if ls.len() > 1 {
        trim(ls[1])
    } else {
        Seq::<char>::empty()
    };
    let arch = if ls.len() > 2 {
        trim(ls[2])
    } else {
        Seq::<char>::empty()
    };
    if ver.len() == 0 && arch.len() == 0 {
        "E-OS"@
    } else {
        "E-OS (Redox "@ + ver + ") · "@ + arch
    }
}

/// The trimmed line `i` of `ls`, or empty.
fn trimmed_line(ls: &Vec<Vec<char>>, i: usize) -> (r: Vec<char>)
    ensures
        r@ == (if i < ls@.len() {
            trim(ls@[i as int]@)
        } else {
            Seq::<char>::empty()
        }),
{
    if i < ls.len() {
        let l = &ls[i];
        let (a, b) = trim_bounds(l, 0, l.len());
        assert(l@.subrange(0, l@.len() as int) == l@);
        sub_vec(l, a, b)
    } else {
        Vec::new()
    }
}

/// The system identity shown on the overview, from a `sys:uname` read.
pub fn system_from_uname(raw: &str) -> (s: String)
    ensures
        s@ == system_of_uname(raw@),
{
    let v = to_chars(raw);
    let ls = split_lines(&v);
    assert(views(ls@).len() == ls@.len());
    proof {
        if ls@.len() > 1 {
            assert(views(ls@)[1] == ls@[1]@);
        }
        if ls@.len() > 2 {
            assert(views(ls@)[2] == ls@[2]@);
        }
    }
    let ver = trimmed_line(&ls, 1);
    let arch = trimmed_line(&ls, 2);
    if ver.len() == 0 && arch.len() == 0 {
        String::from_str("E-OS")
    } else {
        let mut out = String::from_str("E-OS (Redox ");
        out.append(from_chars(&ver).as_str());
        out.append(") · ");
        out.append(from_chars(&arch).as_str());
        out
    }
}

/// The CPU count from a `sys:cpu` text: the first line must read `CPUs:` then a
/// `u32` (surrounding whitespace allowed); anything else counts as 0.
pub open spec fn cpus_of(raw: Seq<char>) -> u32 {
    let ls = lines(raw);
    if ls.len() > 0 && starts_with(ls[0], "CPUs:"@) {
        match unsigned_text(trim(ls[0].subrange(5, ls[0].len() as int)), u32::MAX as nat) {
            Some(n) => n as u32,
            None => 0,
        }
    } else {
        0
    }
}

/// The CPU count from a `sys:cpu` read.
pub fn cpus_from(raw: &str) -> (n: u32)
    ensures
        n == cpus_of(raw@),
{
    let v = to_chars(raw);
    let ls = split_lines(&v);
    if ls.len() == 0 {
        return 0;
    }
    let l = &ls[0];
    assert(views(ls@)[0] == l@);
    proof {
        reveal_strlit("CPUs:");
    }
    if !chars_start_with(l, "CPUs:") {
        return 0;
    }
    let (a, b) = trim_bounds(l, 5, l.len());
    match parse_unsigned(l, a, b, 4294967295) {
        Some(x) => x as u32,
        None => 0,
    }
}

/// The remainder of the first line of `ls` that starts with `key`.
pub open spec fn first_with_prefix(ls: Seq<Seq<char>>, key: Seq<char>) -> Option<Seq<char>>
    decreases ls.len(),
{
    if ls.len() == 0 {
        None
    } else if starts_with(ls[0], key) {
        Some(ls[0].subrange(key.len() as int, ls[0].len() as int))
    } else {
        first_with_prefix(ls.drop_first(), key)
    }
}

/// A `sys:stat` counter: on the first line starting with `key`, the first word
/// after it as a `u64`; 0 when there is no such line or word, or it is not a
/// number.
pub open spec fn stat_value(raw: Seq<char>, key: Seq<char>) -> u64 {
    match first_with_prefix(lines(raw), key) {
        Some(rest) => {
            let ws = words(rest);
            if ws.len() > 0 {
                match unsigned_text(ws[0], u64::MAX as nat) {
                    Some(n) => n as u64,
                    None => 0,
                }
            } else {
                0
            }
        },
        None => 0,
    }
}

/// The counter named `key` in the lines `ls` of a `sys:stat` read.
fn stat_find(ls: &Vec<Vec<char>>, key: &str, raw: Ghost<Seq<char>>) -> (n: u64)
    requires
        views(ls@) == lines(raw@),
    ensures
        n == stat_value(raw@, key@),
{
    let ghost lv = views(ls@);
    let kl = to_chars(key).len();
    assert(lv.subrange(0, lv.len() as int) == lv);
    let mut i: usize = 0;
    while i < ls.len()
        invariant
            i <= ls@.len(),
            lv == views(ls@),
            lv == lines(raw@),
            kl == key@.len(),
            first_with_prefix(lv, key@) == first_with_prefix(lv.subrange(i as int, lv.len() as int), key@),
        decreases ls@.len() - i,
    {
        let l = &ls[i];
        let ghost rest = lv.subrange(i as int, lv.len() as int);
        assert(rest[0] == l@);
        assert(rest.drop_first() == lv.subrange(i + 1, lv.len() as int));
        if chars_start_with(l, key) {
            assert(first_with_prefix(rest, key@) == Some(l@.subrange(kl as int, l@.len() as int)));
            let ws = split_words(l, kl, l.len());
            if ws.len() == 0 {
                return 0;
            }
            let w = &ws[0];
            assert(views(ws@)[0] == w@);
            assert(w@.subrange(0, w@.len() as int) == w@);
            return match parse_unsigned(w, 0, w.len(), 18446744073709551615) {
                Some(x) => x,
                None => 0,
            };
        }
        i = i + 1;
    }
    0
}

/// Context switches and IRQs from a `sys:stat` read: `ctxt`, and the larger of
/// `intr` and `IRQs`.
pub fn stat_counters(raw: &str) -> (r: (u64, u64))
    ensures
        r.0 == stat_value(raw@, "ctxt"@),
        r.1 == (if stat_value(raw@, "intr"@) >= stat_value(raw@, "IRQs"@) {
            stat_value(raw@, "intr"@)
        } else {
            stat_value(raw@, "IRQs"@)
        }),
{
    let v = to_chars(raw);
    let ls = split_lines(&v);
    let cs = stat_find(&ls, "ctxt", Ghost(raw@));
    let intr = stat_find(&ls, "intr", Ghost(raw@));
    let irqs = stat_find(&ls, "IRQs", Ghost(raw@));
    (cs, if intr >= irqs {
        intr
    } else {
        irqs
    })
}

/// Assemble the overview from the system identity, CPU count, process list and
/// counters: the process count is the list's length and the memory figure the
/// sum of the processes' private memory.
pub fn overview_from(system: String, cpus: u32, procs: &Vec<Proc>, context_switches: u64, irqs: u64) -> (o: Overview)
    requires
        mem_total(procs_view(procs@)) <= u64::MAX,
    ensures
        o.system == system,
        o.cpus == cpus,
        o.processes == procs@.len(),
        o.mem_bytes == mem_total(procs_view(procs@)),
        o.context_switches == context_switches,
        o.irqs == irqs,
{
    let ghost pv = procs_view(procs@);
    let mut sum: u64 = 0;
    let n = procs.len();
    for i in 0..n
        invariant
            n == procs@.len(),
            pv == procs_view(procs@),
            mem_total(pv) <= u64::MAX,
            sum == mem_total(pv.take(i as int)),
    {
        assert(pv.take(i + 1).drop_last() == pv.take(i as int));
        assert(pv.take(i + 1).last() == procs@[i as int]@);
        proof {
            crate::grouping::lemma_mem_total_prefix(pv, i + 1);
        }
        sum = sum + procs[i].mem_bytes;
    }
    assert(pv.take(n as int) == pv);
    Overview { system, cpus, processes: n, mem_bytes: sum, context_switches, irqs }
}


/// A run of one of the privileged helper programs: its name, its arguments, and
/// what is written to its stdin (the user's password, on one line).
#[derive(Debug)]
pub struct ShimCommand {
    /// The program to run.
    pub program: String,
    /// Its arguments.
    pub args: Vec<String>,
    /// The text piped to its stdin.
    pub stdin: String,
}

/// How a helper run ended, as the caller saw it.
#[derive(Debug)]
pub enum ShimOutcome {
    /// The program could not be started (the error's text).
    SpawnFailed(String),
    /// It ran and exited, successfully or not.
    Exited(bool),
    /// Waiting for it failed (the error's text).
    WaitFailed(String),
}

/// The text piped to a helper: the password and a newline.
pub open spec fn password_line(password: Seq<char>) -> Seq<char> {
    password + "\n"@
}

fn password_stdin(password: &str) -> (s: String)
    ensures
        s@ == password_line(password@),
{
    let mut s = String::from_str(password);
    s.append("\n");
    s
}

/// The password a helper takes from its stdin: the first line, or empty when
/// nothing was piped (never from its arguments, where it would show in the
/// process list).
pub open spec fn stdin_password_of(input: Seq<char>) -> Seq<char> {
    if lines(input).len() > 0 {
        lines(input)[0]
    } else {
        Seq::empty()
    }
}

/// The password in the text a helper read from its stdin.
pub fn stdin_password(input: &str) -> (p: String)
    ensures
        p@ == stdin_password_of(input@),
{
    let v = to_chars(input);
    let ls = split_lines(&v);
    if ls.len() > 0 {
        assert(views(ls@)[0] == ls@[0]@);
        from_chars(&ls[0])
    } else {
        String::new()
    }
}

/// The power helper's action from its first argument: `reboot` or `shutdown`;
/// anything else (or nothing) is a usage error.
pub fn power_action(arg: Option<&str>) -> (r: Option<&'static str>)
    ensures
        r matches Some(a) ==> arg matches Some(x) && x@ == a@ && (a@ == "reboot"@ || a@ == "shutdown"@),
        r is None ==> !(arg matches Some(x) && (x@ == "reboot"@ || x@ == "shutdown"@)),
{
    match arg {
        Some(x) => {
            let v = to_chars(x);
            if range_eq(&v, 0, v.len(), "reboot") {
                assert(v@.subrange(0, v@.len() as int) == v@);
                Some("reboot")
            } else if range_eq(&v, 0, v.len(), "shutdown") {
                assert(v@.subrange(0, v@.len() as int) == v@);
                Some("shutdown")
            } else {
                assert(v@.subrange(0, v@.len() as int) == v@);
                None
            }
        },
        None => None,
    }
}

/// The `eos-power <action>` run for a power action.
fn power(action: &str, password: &str) -> (c: ShimCommand)
    ensures
        c.program@ == "eos-power"@,
        strings_view(c.args@) == seq![action@],
        c.stdin@ == password_line(password@),
{
    let mut args: Vec<String> = Vec::new();
    args.push(String::from_str(action));
    assert(strings_view(args@) =~= seq![action@]);
    ShimCommand { program: String::from_str("eos-power"), args, stdin: password_stdin(password) }
}

/// Power the machine off: the `eos-power shutdown` run, with the password on
/// its stdin (the helper elevates and writes the kernel stop control).
pub fn shutdown(password: &str) -> (c: ShimCommand)
    ensures
        c.program@ == "eos-power"@,
        strings_view(c.args@) == seq!["shutdown"@],
        c.stdin@ == password_line(password@),
{
    power("shutdown", password)
}

/// Reboot the machine: the `eos-power reboot` run, with the password on its stdin.
pub fn reboot(password: &str) -> (c: ShimCommand)
    ensures
        c.program@ == "eos-power"@,
        strings_view(c.args@) == seq!["reboot"@],
        c.stdin@ == password_line(password@),
{
    power("reboot", password)
}

/// What a helper run means for the action: success only when the helper ran
/// and exited successfully; a failed exit is a wrong password or missing
/// permission.
pub open spec fn shim_result_of(program: Seq<char>, outcome_kind: int, ok: bool, err: Seq<char>) -> Result<(), Seq<char>> {
    if outcome_kind == 0 {
        Err("nie można uruchomić "@ + program + ": "@ + err)
    } else if outcome_kind == 1 {
        if ok {
            Ok(())
        } else {
            Err("błędne hasło lub brak uprawnień"@)
        }
    } else {
        Err(program + ": "@ + err)
    }
}

/// The outcome's kind (spawn failure 0, exit 1, wait failure 2), exit success
/// and error text.
pub open spec fn outcome_parts(o: ShimOutcome) -> (int, bool, Seq<char>) {
    match o {
        ShimOutcome::SpawnFailed(e) => (0, false, e@),
        ShimOutcome::Exited(ok) => (1, ok, Seq::<char>::empty()),
        ShimOutcome::WaitFailed(e) => (2, false, e@),
    }
}

/// The result of a helper action from how the run of `program` ended.
pub fn shim_result(program: &str, outcome: ShimOutcome) -> (r: Result<(), String>)
    ensures
        ({
            let (k, ok, e) = outcome_parts(outcome);
            match r {
                Ok(()) => shim_result_of(program@, k, ok, e) == Ok::<(), Seq<char>>(()),
                Err(m) => shim_result_of(program@, k, ok, e) == Err::<(), Seq<char>>(m@),
            }
        }),
{
    match outcome {
        ShimOutcome::SpawnFailed(e) => {
            let mut m = String::from_str("nie można uruchomić ");
            m.append(program);
            m.append(": ");
            m.append(e.as_str());
            Err(m)
        },
        ShimOutcome::Exited(ok) => if ok {
            Ok(())
        } else {
            Err(String::from_str("błędne hasło lub brak uprawnień"))
        },
        ShimOutcome::WaitFailed(e) => {
            let mut m = String::from_str(program);
            m.append(": ");
            m.append(e.as_str());
            Err(m)
        },
    }
}

/// The interface the network form applies to: its trimmed text, or `eth0`
/// when empty.
pub open spec fn form_iface(iface: Seq<char>) -> Seq<char> {
    if trim(iface).len() == 0 {
        "eth0"@
    } else {
        trim(iface)
    }
}

/// The checked static configuration: why it is refused (the first failing
/// field, in the order IP, prefix, gateway, DNS, interface), or the helper's
/// command line `static <iface> <ip> <prefix> <gateway or -> <dns or ->` with
/// every text field trimmed and an empty interface read as `eth0`.
pub open spec fn static_args(iface: Seq<char>, ip: Seq<char>, prefix: i32, gateway: Seq<char>, dns: Seq<char>) -> Result<Seq<Seq<char>>, Seq<char>> {
    let (ip, gw, dn) = (trim(ip), trim(gateway), trim(dns));
    if ipv4_value(ip) is None {
        Err("nieprawidłowy adres IP: "@ + ip)
    } else if !(0 <= prefix <= 32) {
        Err("prefiks poza zakresem 0–32: "@ + int_text(prefix as int))
    } else if gw.len() > 0 && ipv4_value(gw) is None {
        Err("nieprawidłowy adres bramy: "@ + gw)
    } else if dn.len() > 0 && ipv4_value(dn) is None {
        Err("nieprawidłowy adres DNS: "@ + dn)
    } else if !iface_ok(form_iface(iface)) {
        Err("nieprawidłowa nazwa interfejsu: "@ + form_iface(iface))
    } else {
        Ok(seq![
            "static"@,
            form_iface(iface),
            ip,
            int_text(prefix as int),
            if gw.len() == 0 { "-"@ } else { gw },
            if dn.len() == 0 { "-"@ } else { dn },
        ])
    }
}

/// An error text made of a fixed lead and a value.
fn message(lead: &str, value: &Vec<char>) -> (m: String)
    ensures
        m@ == lead@ + value@,
{
    let mut m = String::from_str(lead);
    m.append(from_chars(value).as_str());
    m
}

/// `v`, or `-` when it is empty.
fn or_dash(v: &Vec<char>) -> (s: String)
    ensures
        s@ == (if v@.len() == 0 { "-"@ } else { v@ }),
{
    if v.len() == 0 {
        String::from_str("-")
    } else {
        from_chars(v)
    }
}

/// Apply a **static** IPv4 configuration: check every field, then give the
/// `eos-netcfg` run that applies it with the user's password on its stdin.
/// Empty gateway or DNS are passed as `-` (left unchanged).
pub fn apply_static(iface: &str, ip: &str, prefix: i32, gateway: &str, dns: &str, password: &str) -> (r: Result<ShimCommand, String>)
    ensures
        r matches Ok(c) ==> c.program@ == "eos-netcfg"@ && static_args(iface@, ip@, prefix, gateway@, dns@) == Ok::<Seq<Seq<char>>, Seq<char>>(strings_view(c.args@))
            && c.stdin@ == password_line(password@),
        r matches Err(m) ==> static_args(iface@, ip@, prefix, gateway@, dns@) == Err::<Seq<Seq<char>>, Seq<char>>(m@),
{
    let ip_t = trimmed(ip);
    let gw = trimmed(gateway);
    let dn = trimmed(dns);
    if crate::netcore::parse_ipv4_chars(&ip_t).is_none() {
        return Err(message("nieprawidłowy adres IP: ", &ip_t));
    }
    if !crate::netcore::valid_prefix(prefix) {
        let mut m = String::from_str("prefiks poza zakresem 0–32: ");
        m.append(i32_text(prefix).as_str());
        return Err(m);
    }
    if gw.len() > 0 && crate::netcore::parse_ipv4_chars(&gw).is_none() {
        return Err(message("nieprawidłowy adres bramy: ", &gw));
    }
    if dn.len() > 0 && crate::netcore::parse_ipv4_chars(&dn).is_none() {
        return Err(message("nieprawidłowy adres DNS: ", &dn));
    }
    let it = trimmed(iface);
    let name = if it.len() == 0 {
        String::from_str("eth0")
    } else {
        from_chars(&it)
    };
    if !crate::netcore::valid_iface(name.as_str()) {
        let mut m = String::from_str("nieprawidłowa nazwa interfejsu: ");
        m.append(name.as_str());
        return Err(m);
    }
    let mut args: Vec<String> = Vec::new();
    args.push(String::from_str("static"));
    args.push(name);
    args.push(from_chars(&ip_t));
    args.push(i32_text(prefix));
    args.push(or_dash(&gw));
    args.push(or_dash(&dn));
    let ghost expect = static_args(iface@, ip@, prefix, gateway@, dns@);
    assert(strings_view(args@) =~= expect->Ok_0);
    Ok(ShimCommand { program: String::from_str("eos-netcfg"), args, stdin: password_stdin(password) })
}


/// The path of node `tail` of interface `iface` in the `netcfg:` scheme.
pub fn iface_node(iface: &str, tail: &str) -> (p: String)
    ensures
        p@ == "/scheme/netcfg/ifaces/"@ + iface@ + "/"@ + tail@,
{
    let mut p = String::from_str("/scheme/netcfg/ifaces/");
    p.append(iface);
    p.append("/");
    p.append(tail);
    p
}

/// What an optional `netcfg:` read means (see [`crate::netcore::netcfg_value`]).
pub open spec fn netcfg_read(read: Option<&str>) -> Option<Seq<char>> {
    match read {
        Some(s) => netcfg_value_of(s@),
        None => None,
    }
}

fn netcfg_opt(read: Option<&str>) -> (r: Option<String>)
    ensures
        r matches Some(x) ==> netcfg_read(read) == Some(x@),
        r is None ==> netcfg_read(read) is None,
{
    match read {
        Some(s) => crate::netcore::netcfg_value(s),
        None => None,
    }
}

/// The interface name from a read of the `ifaces` listing: its first line,
/// trimmed, or `eth0` when unreadable or empty.
pub open spec fn iface_of(read: Option<&str>) -> Seq<char> {
    match netcfg_read(read) {
        Some(v) => {
            let ls = lines(v);
            if ls.len() > 0 && trim(ls[0]).len() > 0 {
                trim(ls[0])
            } else {
                "eth0"@
            }
        },
        None => "eth0"@,
    }
}

/// The interface to show, from a read of the `ifaces` listing.
pub fn net_iface(read: Option<&str>) -> (s: String)
    ensures
        s@ == iface_of(read),
{
    match netcfg_opt(read) {
        Some(v) => {
            let cs = to_chars(v.as_str());
            let ls = split_lines(&cs);
            if ls.len() > 0 {
                assert(views(ls@)[0] == ls@[0]@);
                let l = &ls[0];
                let (a, b) = trim_bounds(l, 0, l.len());
                assert(l@.subrange(0, l@.len() as int) == l@);
                if b > a {
                    let t = sub_vec(l, a, b);
                    return from_chars(&t);
                }
            }
            String::from_str("eth0")
        },
        None => String::from_str("eth0"),
    }
}

/// The trimmed text of a file read.
fn trimmed_string(s: &str) -> (r: String)
    ensures
        r@ == trim(s@),
{
    let t = trimmed(s);
    from_chars(&t)
}

/// The netmask text of a prefix length `p <= 32`.
pub open spec fn netmask_text(p: u8) -> Seq<char> {
    ipv4_text(be_bytes(mask_bits(p as u32)))
}

/// Assemble the network view. The live `netcfg:` reads win; each falls back to
/// its persistent `/etc/net` file (trimmed) when unreadable, a placeholder, or
/// not usable: the address and mask come from a valid `addr/list` (the mask
/// derived from its prefix), the gateway from the default route's `via`, the
/// DNS from the resolver node; the MAC has no fallback.
pub fn net_from(
    iface: String,
    addr_list: Option<&str>,
    route_list: Option<&str>,
    nameserver: Option<&str>,
    mac: Option<&str>,
    file_ip: &str,
    file_subnet: &str,
    file_router: &str,
    file_dns: &str,
    stack_up: bool,
) -> (n: Net)
    ensures
        n.iface == iface,
        n.stack_up == stack_up,
        (match netcfg_read(addr_list) {
            Some(v) => addr_list_value(v),
            None => None,
        }) matches Some(x) ==> n.ip@ == x.0 && n.subnet@ == netmask_text(x.1),
        (match netcfg_read(addr_list) {
            Some(v) => addr_list_value(v),
            None => None,
        }) is None ==> n.ip@ == trim(file_ip@) && n.subnet@ == trim(file_subnet@),
        n.gateway@ == (match netcfg_read(route_list) {
            Some(v) => match default_gateway(v) {
                Some(g) => g,
                None => trim(file_router@),
            },
            None => trim(file_router@),
        }),
        n.dns@ == (match netcfg_read(nameserver) {
            Some(v) => v,
            None => trim(file_dns@),
        }),
        n.mac@ == (match netcfg_read(mac) {
            Some(v) => v,
            None => Seq::<char>::empty(),
        }),
{
    let parsed = match netcfg_opt(addr_list) {
        Some(v) => crate::netcore::parse_addr_list(v.as_str()),
        None => None,
    };
    let (ip, subnet) = match parsed {
        Some((ip, p)) => (ip, crate::netcore::prefix_to_netmask(p)),
        None => (trimmed_string(file_ip), trimmed_string(file_subnet)),
    };
    let gateway = match netcfg_opt(route_list) {
        Some(v) => match crate::netcore::parse_default_gateway(v.as_str()) {
            Some(g) => g,
            None => trimmed_string(file_router),
        },
        None => trimmed_string(file_router),
    };
    let dns = match netcfg_opt(nameserver) {
        Some(v) => v,
        None => trimmed_string(file_dns),
    };
    let mac = match netcfg_opt(mac) {
        Some(v) => v,
        None => String::new(),
    };
    Net { iface, ip, gateway, dns, subnet, mac, stack_up }
}


/// The byte multiplier of a size unit (`KB`/`KiB`, `MB`/`MiB`, `GB`/`GiB`; any
/// other unit, `B` included, counts single bytes).
pub open spec fn unit_multiplier(u: Seq<char>) -> u64 {
    if u == "KB"@ || u == "KiB"@ {
        1024
    } else if u == "MB"@ || u == "MiB"@ {
        1048576
    } else if u == "GB"@ || u == "GiB"@ {
        1073741824
    } else {
        1
    }
}

/// `c != ' '`.
pub open spec fn not_space(c: char) -> bool {
    c != ' '
}

/// The parts of a kernel-formatted size (`1 MB`, `512 KB`, `1024 B`): the
/// number text before the first space of the trimmed text and the multiplier of
/// the (trimmed) unit after it; with no space, the whole text and 1.
pub open spec fn size_parts_of(s: Seq<char>) -> (Seq<char>, u64) {
    let t = trim(s);
    let k = crate::text::lead_len(t, |c: char| not_space(c));
    if k < t.len() {
        (t.subrange(0, k as int), unit_multiplier(trim(t.subrange(k as int + 1, t.len() as int))))
    } else {
        (t, 1)
    }
}

/// Split a kernel-formatted size into its number text and byte multiplier; the
/// number itself (a decimal fraction) is read by the caller.
pub fn size_parts(s: &str) -> (r: (String, u64))
    ensures
        (r.0@, r.1) == size_parts_of(s@),
{
    let t = trimmed(s);
    let n = t.len();
    let mut k: usize = 0;
    while k < n && t[k] != ' '
        invariant
            k <= n == t@.len(),
            forall|i: int| 0 <= i < k ==> not_space(#[trigger] t@[i]),
        decreases n - k,
    {
        k = k + 1;
    }
    proof {
        crate::text::lemma_lead_len(t@, |c: char| not_space(c), k as int);
    }
    if k == n {
        assert(t@.subrange(0, n as int) == t@);
        return (from_chars(&t), 1);
    }
    let num = sub_vec(&t, 0, k);
    let (a, b) = trim_bounds(&t, k + 1, n);
    let u = sub_vec(&t, a, b);
    let m: u64 = if crate::text::chars_eq(&u, "KB") || crate::text::chars_eq(&u, "KiB") {
        1024
    } else if crate::text::chars_eq(&u, "MB") || crate::text::chars_eq(&u, "MiB") {
        1048576
    } else if crate::text::chars_eq(&u, "GB") || crate::text::chars_eq(&u, "GiB") {
        1073741824
    } else {
        1
    };
    (from_chars(&num), m)
}

/// A text whose first and last characters are not whitespace is its own trim.
proof fn lemma_trim_ends(t: Seq<char>)
    requires
        t.len() > 0,
        !crate::text::is_ws(t[0]),
        !crate::text::is_ws(t[t.len() - 1]),
    ensures
        trim(t) == t,
{
    let ws = |c: char| crate::text::is_ws(c);
    crate::text::lemma_lead_len(t, ws, 0);
    assert(crate::text::trim_start(t) =~= t);
    crate::text::lemma_trail_len(t, ws, 0);
    assert(trim(t) =~= t);
}

/// The parts of `n + " " + u` for a number text `n` without whitespace and a
/// unit `u` without whitespace.
proof fn lemma_size_parts_split(n: Seq<char>, u: Seq<char>)
    requires
        n.len() > 0,
        u.len() > 0,
        forall|i: int| 0 <= i < n.len() ==> !crate::text::is_ws(#[trigger] n[i]),
        forall|i: int| 0 <= i < u.len() ==> !crate::text::is_ws(#[trigger] u[i]),
    ensures
        size_parts_of(n + " "@ + u) == (n, unit_multiplier(u)),
{
    reveal_strlit(" ");
    let t = n + " "@ + u;
    assert(t[0] == n[0]);
    assert(t[t.len() - 1] == u[u.len() - 1]);
    lemma_trim_ends(t);
    assert(t[n.len() as int] == ' ');
    crate::text::lemma_lead_len(t, |c: char| not_space(c), n.len() as int);
    assert(t.subrange(0, n.len() as int) =~= n);
    assert(t.subrange(n.len() as int + 1, t.len() as int) =~= u);
    crate::netcore::lemma_no_ws_trim(u);
}

/// Law: a kernel-formatted size `<number> <unit>` is read as its number and
/// the byte multiplier of its unit: 1024 for `KB`/`KiB`, 1024² for `MB`/`MiB`,
/// 1024³ for `GB`/`GiB`, and 1 for `B`, whatever the number text; a bare
/// number counts single bytes.
pub proof fn law_size_units(n: Seq<char>)
    requires
        n.len() > 0,
        forall|i: int| 0 <= i < n.len() ==> !crate::text::is_ws(#[trigger] n[i]),
    ensures
        size_parts_of(n + " "@ + "KB"@) == (n, 1024u64),
        size_parts_of(n + " "@ + "KiB"@) == (n, 1024u64),
        size_parts_of(n + " "@ + "MB"@) == (n, 1048576u64),
        size_parts_of(n + " "@ + "MiB"@) == (n, 1048576u64),
        size_parts_of(n + " "@ + "GB"@) == (n, 1073741824u64),
        size_parts_of(n + " "@ + "GiB"@) == (n, 1073741824u64),
        size_parts_of(n + " "@ + "B"@) == (n, 1u64),
        size_parts_of(n) == (n, 1u64),
{
    crate::netcore::lemma_no_ws_trim(n);
    assert forall|i: int| 0 <= i < n.len() implies not_space(#[trigger] n[i]) by {
        assert(!crate::text::is_ws(n[i]));
    }
    crate::text::lemma_lead_len(n, |c: char| not_space(c), n.len() as int);
    reveal_strlit("KB");
    reveal_strlit("KiB");
    reveal_strlit("MB");
    reveal_strlit("MiB");
    reveal_strlit("GB");
    reveal_strlit("GiB");
    reveal_strlit("B");
    lemma_size_parts_split(n, "KB"@);
    lemma_size_parts_split(n, "KiB"@);
    lemma_size_parts_split(n, "MB"@);
    lemma_size_parts_split(n, "MiB"@);
    lemma_size_parts_split(n, "GB"@);
    lemma_size_parts_split(n, "GiB"@);
    lemma_size_parts_split(n, "B"@);
    assert("KiB"@[0] != "MB"@[0] && "KiB"@[0] != "GB"@[0]);
    assert("MB"@[0] != "KB"@[0] && "MiB"@.len() != "KB"@.len() && "MiB"@.len() != "MB"@.len());
    assert("GB"@[0] != "KB"@[0] && "GB"@[0] != "MB"@[0] && "GiB"@[0] != "KiB"@[0] && "GiB"@[0] != "MiB"@[0]);
    assert("GiB"@.len() != "KB"@.len() && "GiB"@.len() != "MB"@.len() && "GiB"@.len() != "GB"@.len());
    assert("B"@.len() != "KB"@.len() && "B"@.len() != "KiB"@.len());
}

} // verus!
