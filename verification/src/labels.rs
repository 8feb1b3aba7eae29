//! Human-readable descriptions of the processes a user is likely to see, so no
//! row of the process list is a bare cryptic name.

use vstd::prelude::*;
use crate::text::{chars_eq, from_chars, lead_len, trail_len, to_chars, lemma_lead_len, lemma_trail_len};

verus! {

/// `c` separates path components in a process name (`/` or `:`).
pub open spec fn is_path_sep(c: char) -> bool {
    c == '/' || c == ':'
}

/// The basename of a process name: the text after its last `/` or `:`, with
/// leading `[`s and trailing `]`s removed.
pub open spec fn base_name(s: Seq<char>) -> Seq<char> {
    let k = trail_len(s, |c: char| !is_path_sep(c));
    let tail = s.subrange(s.len() - k, s.len() as int);
    let a = lead_len(tail, |c: char| c == '[');
    let u = tail.subrange(a as int, tail.len() as int);
    let b = trail_len(u, |c: char| c == ']');
    u.subrange(0, u.len() - b)
}

/// The description of a basename; empty when unknown.
pub open spec fn description_of(b: Seq<char>) -> Seq<char> {
    if b == "kmain"@ || b == "bootstrap"@ || b == "kernel"@ {
        "kernel — the E-OS microkernel"@
    } else if b == "init"@ || b == "initfs"@ {
        "init — brings up the system"@
    } else if b == "pcid"@ {
        "PCI driver manager — probes devices, binds drivers"@
    } else if b == "orbital"@ {
        "desktop server — compositor + window manager"@
    } else if b == "orblogin"@ {
        "graphical login (greeter)"@
    } else if b == "launcher"@ {
        "desktop taskbar + app launcher"@
    } else if b == "background"@ {
        "desktop wallpaper / background"@
    } else if b == "vesad"@ || b == "fbcond"@ {
        "display / framebuffer console driver"@
    } else if b == "inputd"@ {
        "input router — keyboard/mouse to the active console"@
    } else if b == "nvmed"@ {
        "NVMe storage driver"@
    } else if b == "ahcid"@ {
        "SATA/AHCI storage driver"@
    } else if b == "usbhidd"@ {
        "USB keyboard/mouse (HID) driver"@
    } else if b == "usbscsid"@ {
        "USB mass-storage driver"@
    } else if b == "xhcid"@ {
        "USB xHCI host controller driver"@
    } else if b == "e1000d"@ || b == "rtl8139d"@ || b == "rtl8168d"@ || b == "ixgbed"@ {
        "Ethernet NIC driver"@
    } else if b == "virtio-netd"@ || b == "usbnetd"@ {
        "virtual/USB network driver"@
    } else if b == "smolnetd"@ || b == "netstack"@ {
        "network stack (TCP/IP)"@
    } else if b == "dnsd"@ {
        "DNS resolver"@
    } else if b == "dhcpd"@ {
        "DHCP client — obtains an IP address"@
    } else if b == "randd"@ {
        "random-number daemon (entropy)"@
    } else if b == "rtcd"@ {
        "real-time clock daemon"@
    } else if b == "audiod"@ || b == "ihdad"@ || b == "ac97d"@ {
        "audio driver"@
    } else if b == "logd"@ || b == "ramfs"@ {
        "system log / ramfs service"@
    } else if b == "redoxfs"@ {
        "RedoxFS filesystem daemon"@
    } else if b == "ion"@ || b == "sh"@ {
        "shell"@
    } else if b == "getty"@ || b == "login"@ {
        "login prompt"@
    } else if b == "eos-notes"@ {
        "E-OS Notes"@
    } else if b == "eos-guard"@ {
        "E-OS Guard (integrity monitor)"@
    } else if b == "eos-sysmon"@ || b == "eos-control"@ {
        "E-OS Control (this app)"@
    } else if b == "eos-settings"@ {
        "E-OS Settings"@
    } else {
        ""@
    }
}

/// The description text of a basename.
fn lookup(b: &Vec<char>) -> (d: &'static str)
    ensures
        d@ == description_of(b@),
{
    if chars_eq(b, "kmain") || chars_eq(b, "bootstrap") || chars_eq(b, "kernel") {
        "kernel — the E-OS microkernel"
    } else if chars_eq(b, "init") || chars_eq(b, "initfs") {
        "init — brings up the system"
    } else if chars_eq(b, "pcid") {
        "PCI driver manager — probes devices, binds drivers"
    } else if chars_eq(b, "orbital") {
        "desktop server — compositor + window manager"
    } else if chars_eq(b, "orblogin") {
        "graphical login (greeter)"
    } else if chars_eq(b, "launcher") {
        "desktop taskbar + app launcher"
    } else if chars_eq(b, "background") {
        "desktop wallpaper / background"
    } else if chars_eq(b, "vesad") || chars_eq(b, "fbcond") {
        "display / framebuffer console driver"
    } else if chars_eq(b, "inputd") {
        "input router — keyboard/mouse to the active console"
    } else if chars_eq(b, "nvmed") {
        "NVMe storage driver"
    } else if chars_eq(b, "ahcid") {
        "SATA/AHCI storage driver"
    } else if chars_eq(b, "usbhidd") {
        "USB keyboard/mouse (HID) driver"
    } else if chars_eq(b, "usbscsid") {
        "USB mass-storage driver"
    } else if chars_eq(b, "xhcid") {
        "USB xHCI host controller driver"
    } else if chars_eq(b, "e1000d") || chars_eq(b, "rtl8139d") || chars_eq(b, "rtl8168d") || chars_eq(b, "ixgbed") {
        "Ethernet NIC driver"
    } else if chars_eq(b, "virtio-netd") || chars_eq(b, "usbnetd") {
        "virtual/USB network driver"
    } else if chars_eq(b, "smolnetd") || chars_eq(b, "netstack") {
        "network stack (TCP/IP)"
    } else if chars_eq(b, "dnsd") {
        "DNS resolver"
    } else if chars_eq(b, "dhcpd") {
        "DHCP client — obtains an IP address"
    } else if chars_eq(b, "randd") {
        "random-number daemon (entropy)"
    } else if chars_eq(b, "rtcd") {
        "real-time clock daemon"
    } else if chars_eq(b, "audiod") || chars_eq(b, "ihdad") || chars_eq(b, "ac97d") {
        "audio driver"
    } else if chars_eq(b, "logd") || chars_eq(b, "ramfs") {
        "system log / ramfs service"
    } else if chars_eq(b, "redoxfs") {
        "RedoxFS filesystem daemon"
    } else if chars_eq(b, "ion") || chars_eq(b, "sh") {
        "shell"
    } else if chars_eq(b, "getty") || chars_eq(b, "login") {
        "login prompt"
    } else if chars_eq(b, "eos-notes") {
        "E-OS Notes"
    } else if chars_eq(b, "eos-guard") {
        "E-OS Guard (integrity monitor)"
    } else if chars_eq(b, "eos-sysmon") || chars_eq(b, "eos-control") {
        "E-OS Control (this app)"
    } else if chars_eq(b, "eos-settings") {
        "E-OS Settings"
    } else {
        ""
    }
}

/// The characters of the basename of `name`.
pub fn base_chars(name: &str) -> (r: Vec<char>)
    ensures
        r@ == base_name(name@),
{
    let v = to_chars(name);
    let n = v.len();
    let mut st = n;
    while st > 0 && !(v[st - 1] == '/' || v[st - 1] == ':')
        invariant
            st <= n == v@.len(),
            forall|i: int| st <= i < n ==> !is_path_sep(#[trigger] v@[i]),
        decreases st,
    {
        st = st - 1;
    }
    proof {
        lemma_trail_len(v@, |c: char| !is_path_sep(c), n - st);
    }
    let ghost tail = v@.subrange(st as int, n as int);
    let mut a = st;
    while a < n && v[a] == '['
        invariant
            st <= a <= n == v@.len(),
            tail == v@.subrange(st as int, n as int),
            forall|i: int| 0 <= i < a - st ==> #[trigger] tail[i] == '[',
        decreases n - a,
    {
        a = a + 1;
    }
    proof {
        lemma_lead_len(tail, |c: char| c == '[', a - st);
    }
    let ghost u = v@.subrange(a as int, n as int);
    assert(u == tail.subrange(a - st, tail.len() as int));
    let mut e = n;
    while e > a && v[e - 1] == ']'
        invariant
            a <= e <= n == v@.len(),
            u == v@.subrange(a as int, n as int),
            forall|i: int| u.len() - (n - e) <= i < u.len() ==> #[trigger] u[i] == ']',
        decreases e - a,
    {
        e = e - 1;
    }
    proof {
        lemma_trail_len(u, |c: char| c == ']', n - e);
        assert(v@.subrange(a as int, e as int) == u.subrange(0, u.len() - (n - e)));
    }
    crate::text::sub_vec(&v, a, e)
}

/// A short "what is this" for a process name, matched on its basename
/// (`/scheme/initfs/bin/pcid` → `pcid`). Empty when unknown.
pub fn describe(name: &str) -> (d: String)
    ensures
        d@ == description_of(base_name(name@)),
{
    let b = base_chars(name);
    let s = lookup(&b);
    let w = to_chars(s);
    from_chars(&w)
}

/// Law: the descriptions the process list shows, name by name: each known
/// system process gets its fixed description.
pub proof fn law_descriptions()
    ensures
        description_of("kmain"@) == "kernel — the E-OS microkernel"@,
        description_of("bootstrap"@) == "kernel — the E-OS microkernel"@,
        description_of("kernel"@) == "kernel — the E-OS microkernel"@,
        description_of("init"@) == "init — brings up the system"@,
        description_of("initfs"@) == "init — brings up the system"@,
        description_of("pcid"@) == "PCI driver manager — probes devices, binds drivers"@,
        description_of("orbital"@) == "desktop server — compositor + window manager"@,
        description_of("orblogin"@) == "graphical login (greeter)"@,
        description_of("launcher"@) == "desktop taskbar + app launcher"@,
        description_of("background"@) == "desktop wallpaper / background"@,
        description_of("vesad"@) == "display / framebuffer console driver"@,
        description_of("fbcond"@) == "display / framebuffer console driver"@,
        description_of("inputd"@) == "input router — keyboard/mouse to the active console"@,
        description_of("nvmed"@) == "NVMe storage driver"@,
        description_of("ahcid"@) == "SATA/AHCI storage driver"@,
        description_of("usbhidd"@) == "USB keyboard/mouse (HID) driver"@,
        description_of("usbscsid"@) == "USB mass-storage driver"@,
        description_of("xhcid"@) == "USB xHCI host controller driver"@,
        description_of("e1000d"@) == "Ethernet NIC driver"@,
        description_of("rtl8139d"@) == "Ethernet NIC driver"@,
        description_of("rtl8168d"@) == "Ethernet NIC driver"@,
        description_of("ixgbed"@) == "Ethernet NIC driver"@,
        description_of("virtio-netd"@) == "virtual/USB network driver"@,
        description_of("usbnetd"@) == "virtual/USB network driver"@,
        description_of("smolnetd"@) == "network stack (TCP/IP)"@,
        description_of("netstack"@) == "network stack (TCP/IP)"@,
        description_of("dnsd"@) == "DNS resolver"@,
        description_of("dhcpd"@) == "DHCP client — obtains an IP address"@,
        description_of("randd"@) == "random-number daemon (entropy)"@,
        description_of("rtcd"@) == "real-time clock daemon"@,
        description_of("audiod"@) == "audio driver"@,
        description_of("ihdad"@) == "audio driver"@,
        description_of("ac97d"@) == "audio driver"@,
        description_of("logd"@) == "system log / ramfs service"@,
        description_of("ramfs"@) == "system log / ramfs service"@,
        description_of("redoxfs"@) == "RedoxFS filesystem daemon"@,
        description_of("ion"@) == "shell"@,
        description_of("sh"@) == "shell"@,
        description_of("getty"@) == "login prompt"@,
        description_of("login"@) == "login prompt"@,
        description_of("eos-notes"@) == "E-OS Notes"@,
        description_of("eos-guard"@) == "E-OS Guard (integrity monitor)"@,
        description_of("eos-sysmon"@) == "E-OS Control (this app)"@,
        description_of("eos-control"@) == "E-OS Control (this app)"@,
        description_of("eos-settings"@) == "E-OS Settings"@,
{
    assert(description_of("kmain"@) == "kernel — the E-OS microkernel"@) by {
        reveal_strlit("kmain");
    }
    assert(description_of("bootstrap"@) == "kernel — the E-OS microkernel"@) by {
        reveal_strlit("bootstrap");
        reveal_strlit("kmain");
        assert("bootstrap"@.len() != "kmain"@.len());
    }
    assert(description_of("kernel"@) == "kernel — the E-OS microkernel"@) by {
        reveal_strlit("kernel");
        reveal_strlit("kmain");
        assert("kernel"@.len() != "kmain"@.len());
        reveal_strlit("bootstrap");
        assert("kernel"@.len() != "bootstrap"@.len());
    }
    assert(description_of("init"@) == "init — brings up the system"@) by {
        reveal_strlit("init");
        reveal_strlit("kmain");
        assert("init"@.len() != "kmain"@.len());
        reveal_strlit("bootstrap");
        assert("init"@.len() != "bootstrap"@.len());
        reveal_strlit("kernel");
        assert("init"@.len() != "kernel"@.len());
    }
    assert(description_of("initfs"@) == "init — brings up the system"@) by {
        reveal_strlit("initfs");
        reveal_strlit("kmain");
        assert("initfs"@.len() != "kmain"@.len());
        reveal_strlit("bootstrap");
        assert("initfs"@.len() != "bootstrap"@.len());
        reveal_strlit("kernel");
        assert("initfs"@[0] != "kernel"@[0]);
        reveal_strlit("init");
        assert("initfs"@.len() != "init"@.len());
    }
    assert(description_of("pcid"@) == "PCI driver manager — probes devices, binds drivers"@) by {
        reveal_strlit("pcid");
        reveal_strlit("kmain");
        assert("pcid"@.len() != "kmain"@.len());
        reveal_strlit("bootstrap");
        assert("pcid"@.len() != "bootstrap"@.len());
        reveal_strlit("kernel");
        assert("pcid"@.len() != "kernel"@.len());
        reveal_strlit("init");
        assert("pcid"@[0] != "init"@[0]);
        reveal_strlit("initfs");
        assert("pcid"@.len() != "initfs"@.len());
    }
    assert(description_of("orbital"@) == "desktop server — compositor + window manager"@) by {
        reveal_strlit("orbital");
        reveal_strlit("kmain");
        assert("orbital"@.len() != "kmain"@.len());
        reveal_strlit("bootstrap");
        assert("orbital"@.len() != "bootstrap"@.len());
        reveal_strlit("kernel");
        assert("orbital"@.len() != "kernel"@.len());
        reveal_strlit("init");
        assert("orbital"@.len() != "init"@.len());
        reveal_strlit("initfs");
        assert("orbital"@.len() != "initfs"@.len());
        reveal_strlit("pcid");
        assert("orbital"@.len() != "pcid"@.len());
    }
    assert(description_of("orblogin"@) == "graphical login (greeter)"@) by {
        reveal_strlit("orblogin");
        reveal_strlit("kmain");
        assert("orblogin"@.len() != "kmain"@.len());
        reveal_strlit("bootstrap");
        assert("orblogin"@.len() != "bootstrap"@.len());
        reveal_strlit("kernel");
        assert("orblogin"@.len() != "kernel"@.len());
        reveal_strlit("init");
        assert("orblogin"@.len() != "init"@.len());
        reveal_strlit("initfs");
        assert("orblogin"@.len() != "initfs"@.len());
        reveal_strlit("pcid");
        assert("orblogin"@.len() != "pcid"@.len());
        reveal_strlit("orbital");
        assert("orblogin"@.len() != "orbital"@.len());
    }
    assert(description_of("launcher"@) == "desktop taskbar + app launcher"@) by {
        reveal_strlit("launcher");
        reveal_strlit("kmain");
        assert("launcher"@.len() != "kmain"@.len());
        reveal_strlit("bootstrap");
        assert("launcher"@.len() != "bootstrap"@.len());
        reveal_strlit("kernel");
        assert("launcher"@.len() != "kernel"@.len());
        reveal_strlit("init");
        assert("launcher"@.len() != "init"@.len());
        reveal_strlit("initfs");
        assert("launcher"@.len() != "initfs"@.len());
        reveal_strlit("pcid");
        assert("launcher"@.len() != "pcid"@.len());
        reveal_strlit("orbital");
        assert("launcher"@.len() != "orbital"@.len());
        reveal_strlit("orblogin");
        assert("launcher"@[0] != "orblogin"@[0]);
    }
    assert(description_of("background"@) == "desktop wallpaper / background"@) by {
        reveal_strlit("background");
        reveal_strlit("kmain");
        assert("background"@.len() != "kmain"@.len());
        reveal_strlit("bootstrap");
        assert("background"@.len() != "bootstrap"@.len());
        reveal_strlit("kernel");
        assert("background"@.len() != "kernel"@.len());
        reveal_strlit("init");
        assert("background"@.len() != "init"@.len());
        reveal_strlit("initfs");
        assert("background"@.len() != "initfs"@.len());
        reveal_strlit("pcid");
        assert("background"@.len() != "pcid"@.len());
        reveal_strlit("orbital");
        assert("background"@.len() != "orbital"@.len());
        reveal_strlit("orblogin");
        assert("background"@.len() != "orblogin"@.len());
        reveal_strlit("launcher");
        assert("background"@.len() != "launcher"@.len());
    }
    assert(description_of("vesad"@) == "display / framebuffer console driver"@) by {
        reveal_strlit("vesad");
        reveal_strlit("kmain");
        assert("vesad"@[0] != "kmain"@[0]);
        reveal_strlit("bootstrap");
        assert("vesad"@.len() != "bootstrap"@.len());
        reveal_strlit("kernel");
        assert("vesad"@.len() != "kernel"@.len());
        reveal_strlit("init");
        assert("vesad"@.len() != "init"@.len());
        reveal_strlit("initfs");
        assert("vesad"@.len() != "initfs"@.len());
        reveal_strlit("pcid");
        assert("vesad"@.len() != "pcid"@.len());
        reveal_strlit("orbital");
        assert("vesad"@.len() != "orbital"@.len());
        reveal_strlit("orblogin");
        assert("vesad"@.len() != "orblogin"@.len());
        reveal_strlit("launcher");
        assert("vesad"@.len() != "launcher"@.len());
        reveal_strlit("background");
        assert("vesad"@.len() != "background"@.len());
    }
    assert(description_of("fbcond"@) == "display / framebuffer console driver"@) by {
        reveal_strlit("fbcond");
        reveal_strlit("kmain");
        assert("fbcond"@.len() != "kmain"@.len());
        reveal_strlit("bootstrap");
        assert("fbcond"@.len() != "bootstrap"@.len());
        reveal_strlit("kernel");
        assert("fbcond"@[0] != "kernel"@[0]);
        reveal_strlit("init");
        assert("fbcond"@.len() != "init"@.len());
        reveal_strlit("initfs");
        assert("fbcond"@[0] != "initfs"@[0]);
        reveal_strlit("pcid");
        assert("fbcond"@.len() != "pcid"@.len());
        reveal_strlit("orbital");
        assert("fbcond"@.len() != "orbital"@.len());
        reveal_strlit("orblogin");
        assert("fbcond"@.len() != "orblogin"@.len());
        reveal_strlit("launcher");
        assert("fbcond"@.len() != "launcher"@.len());
        reveal_strlit("background");
        assert("fbcond"@.len() != "background"@.len());
        reveal_strlit("vesad");
        assert("fbcond"@.len() != "vesad"@.len());
    }
    assert(description_of("inputd"@) == "input router — keyboard/mouse to the active console"@) by {
        reveal_strlit("inputd");
        reveal_strlit("kmain");
        assert("inputd"@.len() != "kmain"@.len());
        reveal_strlit("bootstrap");
        assert("inputd"@.len() != "bootstrap"@.len());
        reveal_strlit("kernel");
        assert("inputd"@[0] != "kernel"@[0]);
        reveal_strlit("init");
        assert("inputd"@.len() != "init"@.len());
        reveal_strlit("initfs");
        assert("inputd"@[2] != "initfs"@[2]);
        reveal_strlit("pcid");
        assert("inputd"@.len() != "pcid"@.len());
        reveal_strlit("orbital");
        assert("inputd"@.len() != "orbital"@.len());
        reveal_strlit("orblogin");
        assert("inputd"@.len() != "orblogin"@.len());
        reveal_strlit("launcher");
        assert("inputd"@.len() != "launcher"@.len());
        reveal_strlit("background");
        assert("inputd"@.len() != "background"@.len());
        reveal_strlit("vesad");
        assert("inputd"@.len() != "vesad"@.len());
        reveal_strlit("fbcond");
        assert("inputd"@[0] != "fbcond"@[0]);
    }
    assert(description_of("nvmed"@) == "NVMe storage driver"@) by {
        reveal_strlit("nvmed");
        reveal_strlit("kmain");
        assert("nvmed"@[0] != "kmain"@[0]);
        reveal_strlit("bootstrap");
        assert("nvmed"@.len() != "bootstrap"@.len());
        reveal_strlit("kernel");
        assert("nvmed"@.len() != "kernel"@.len());
        reveal_strlit("init");
        assert("nvmed"@.len() != "init"@.len());
        reveal_strlit("initfs");
        assert("nvmed"@.len() != "initfs"@.len());
        reveal_strlit("pcid");
        assert("nvmed"@.len() != "pcid"@.len());
        reveal_strlit("orbital");
        assert("nvmed"@.len() != "orbital"@.len());
        reveal_strlit("orblogin");
        assert("nvmed"@.len() != "orblogin"@.len());
        reveal_strlit("launcher");
        assert("nvmed"@.len() != "launcher"@.len());
        reveal_strlit("background");
        assert("nvmed"@.len() != "background"@.len());
        reveal_strlit("vesad");
        assert("nvmed"@[0] != "vesad"@[0]);
        reveal_strlit("fbcond");
        assert("nvmed"@.len() != "fbcond"@.len());
        reveal_strlit("inputd");
        assert("nvmed"@.len() != "inputd"@.len());
    }
    assert(description_of("ahcid"@) == "SATA/AHCI storage driver"@) by {
        reveal_strlit("ahcid");
        reveal_strlit("kmain");
        assert("ahcid"@[0] != "kmain"@[0]);
        reveal_strlit("bootstrap");
        assert("ahcid"@.len() != "bootstrap"@.len());
        reveal_strlit("kernel");
        assert("ahcid"@.len() != "kernel"@.len());
        reveal_strlit("init");
        assert("ahcid"@.len() != "init"@.len());
        reveal_strlit("initfs");
        assert("ahcid"@.len() != "initfs"@.len());
        reveal_strlit("pcid");
        assert("ahcid"@.len() != "pcid"@.len());
        reveal_strlit("orbital");
        assert("ahcid"@.len() != "orbital"@.len());
        reveal_strlit("orblogin");
        assert("ahcid"@.len() != "orblogin"@.len());
        reveal_strlit("launcher");
        assert("ahcid"@.len() != "launcher"@.len());
        reveal_strlit("background");
        assert("ahcid"@.len() != "background"@.len());
        reveal_strlit("vesad");
        assert("ahcid"@[0] != "vesad"@[0]);
        reveal_strlit("fbcond");
        assert("ahcid"@.len() != "fbcond"@.len());
        reveal_strlit("inputd");
        assert("ahcid"@.len() != "inputd"@.len());
        reveal_strlit("nvmed");
        assert("ahcid"@[0] != "nvmed"@[0]);
    }
    assert(description_of("usbhidd"@) == "USB keyboard/mouse (HID) driver"@) by {
        reveal_strlit("usbhidd");
        reveal_strlit("kmain");
        assert("usbhidd"@.len() != "kmain"@.len());
        reveal_strlit("bootstrap");
        assert("usbhidd"@.len() != "bootstrap"@.len());
        reveal_strlit("kernel");
        assert("usbhidd"@.len() != "kernel"@.len());
        reveal_strlit("init");
        assert("usbhidd"@.len() != "init"@.len());
        reveal_strlit("initfs");
        assert("usbhidd"@.len() != "initfs"@.len());
        reveal_strlit("pcid");
        assert("usbhidd"@.len() != "pcid"@.len());
        reveal_strlit("orbital");
        assert("usbhidd"@[0] != "orbital"@[0]);
        reveal_strlit("orblogin");
        assert("usbhidd"@.len() != "orblogin"@.len());
        reveal_strlit("launcher");
        assert("usbhidd"@.len() != "launcher"@.len());
        reveal_strlit("background");
        assert("usbhidd"@.len() != "background"@.len());
        reveal_strlit("vesad");
        assert("usbhidd"@.len() != "vesad"@.len());
        reveal_strlit("fbcond");
        assert("usbhidd"@.len() != "fbcond"@.len());
        reveal_strlit("inputd");
        assert("usbhidd"@.len() != "inputd"@.len());
        reveal_strlit("nvmed");
        assert("usbhidd"@.len() != "nvmed"@.len());
        reveal_strlit("ahcid");
        assert("usbhidd"@.len() != "ahcid"@.len());
    }
    assert(description_of("usbscsid"@) == "USB mass-storage driver"@) by {
        reveal_strlit("usbscsid");
        reveal_strlit("kmain");
        assert("usbscsid"@.len() != "kmain"@.len());
        reveal_strlit("bootstrap");
        assert("usbscsid"@.len() != "bootstrap"@.len());
        reveal_strlit("kernel");
        assert("usbscsid"@.len() != "kernel"@.len());
        reveal_strlit("init");
        assert("usbscsid"@.len() != "init"@.len());
        reveal_strlit("initfs");
        assert("usbscsid"@.len() != "initfs"@.len());
        reveal_strlit("pcid");
        assert("usbscsid"@.len() != "pcid"@.len());
        reveal_strlit("orbital");
        assert("usbscsid"@.len() != "orbital"@.len());
        reveal_strlit("orblogin");
        assert("usbscsid"@[0] != "orblogin"@[0]);
        reveal_strlit("launcher");
        assert("usbscsid"@[0] != "launcher"@[0]);
        reveal_strlit("background");
        assert("usbscsid"@.len() != "background"@.len());
        reveal_strlit("vesad");
        assert("usbscsid"@.len() != "vesad"@.len());
        reveal_strlit("fbcond");
        assert("usbscsid"@.len() != "fbcond"@.len());
        reveal_strlit("inputd");
        assert("usbscsid"@.len() != "inputd"@.len());
        reveal_strlit("nvmed");
        assert("usbscsid"@.len() != "nvmed"@.len());
        reveal_strlit("ahcid");
        assert("usbscsid"@.len() != "ahcid"@.len());
        reveal_strlit("usbhidd");
        assert("usbscsid"@.len() != "usbhidd"@.len());
    }
    assert(description_of("xhcid"@) == "USB xHCI host controller driver"@) by {
        reveal_strlit("xhcid");
        reveal_strlit("kmain");
        assert("xhcid"@[0] != "kmain"@[0]);
        reveal_strlit("bootstrap");
        assert("xhcid"@.len() != "bootstrap"@.len());
        reveal_strlit("kernel");
        assert("xhcid"@.len() != "kernel"@.len());
        reveal_strlit("init");
        assert("xhcid"@.len() != "init"@.len());
        reveal_strlit("initfs");
        assert("xhcid"@.len() != "initfs"@.len());
        reveal_strlit("pcid");
        assert("xhcid"@.len() != "pcid"@.len());
        reveal_strlit("orbital");
        assert("xhcid"@.len() != "orbital"@.len());
        reveal_strlit("orblogin");
        assert("xhcid"@.len() != "orblogin"@.len());
        reveal_strlit("launcher");
        assert("xhcid"@.len() != "launcher"@.len());
        reveal_strlit("background");
        assert("xhcid"@.len() != "background"@.len());
        reveal_strlit("vesad");
        assert("xhcid"@[0] != "vesad"@[0]);
        reveal_strlit("fbcond");
        assert("xhcid"@.len() != "fbcond"@.len());
        reveal_strlit("inputd");
        assert("xhcid"@.len() != "inputd"@.len());
        reveal_strlit("nvmed");
        assert("xhcid"@[0] != "nvmed"@[0]);
        reveal_strlit("ahcid");
        assert("xhcid"@[0] != "ahcid"@[0]);
        reveal_strlit("usbhidd");
        assert("xhcid"@.len() != "usbhidd"@.len());
        reveal_strlit("usbscsid");
        assert("xhcid"@.len() != "usbscsid"@.len());
    }
    assert(description_of("e1000d"@) == "Ethernet NIC driver"@) by {
        reveal_strlit("e1000d");
        reveal_strlit("kmain");
        assert("e1000d"@.len() != "kmain"@.len());
        reveal_strlit("bootstrap");
        assert("e1000d"@.len() != "bootstrap"@.len());
        reveal_strlit("kernel");
        assert("e1000d"@[0] != "kernel"@[0]);
        reveal_strlit("init");
        assert("e1000d"@.len() != "init"@.len());
        reveal_strlit("initfs");
        assert("e1000d"@[0] != "initfs"@[0]);
        reveal_strlit("pcid");
        assert("e1000d"@.len() != "pcid"@.len());
        reveal_strlit("orbital");
        assert("e1000d"@.len() != "orbital"@.len());
        reveal_strlit("orblogin");
        assert("e1000d"@.len() != "orblogin"@.len());
        reveal_strlit("launcher");
        assert("e1000d"@.len() != "launcher"@.len());
        reveal_strlit("background");
        assert("e1000d"@.len() != "background"@.len());
        reveal_strlit("vesad");
        assert("e1000d"@.len() != "vesad"@.len());
        reveal_strlit("fbcond");
        assert("e1000d"@[0] != "fbcond"@[0]);
        reveal_strlit("inputd");
        assert("e1000d"@[0] != "inputd"@[0]);
        reveal_strlit("nvmed");
        assert("e1000d"@.len() != "nvmed"@.len());
        reveal_strlit("ahcid");
        assert("e1000d"@.len() != "ahcid"@.len());
        reveal_strlit("usbhidd");
        assert("e1000d"@.len() != "usbhidd"@.len());
        reveal_strlit("usbscsid");
        assert("e1000d"@.len() != "usbscsid"@.len());
        reveal_strlit("xhcid");
        assert("e1000d"@.len() != "xhcid"@.len());
    }
    assert(description_of("rtl8139d"@) == "Ethernet NIC driver"@) by {
        reveal_strlit("rtl8139d");
        reveal_strlit("kmain");
        assert("rtl8139d"@.len() != "kmain"@.len());
        reveal_strlit("bootstrap");
        assert("rtl8139d"@.len() != "bootstrap"@.len());
        reveal_strlit("kernel");
        assert("rtl8139d"@.len() != "kernel"@.len());
        reveal_strlit("init");
        assert("rtl8139d"@.len() != "init"@.len());
        reveal_strlit("initfs");
        assert("rtl8139d"@.len() != "initfs"@.len());
        reveal_strlit("pcid");
        assert("rtl8139d"@.len() != "pcid"@.len());
        reveal_strlit("orbital");
        assert("rtl8139d"@.len() != "orbital"@.len());
        reveal_strlit("orblogin");
        assert("rtl8139d"@[0] != "orblogin"@[0]);
        reveal_strlit("launcher");
        assert("rtl8139d"@[0] != "launcher"@[0]);
        reveal_strlit("background");
        assert("rtl8139d"@.len() != "background"@.len());
        reveal_strlit("vesad");
        assert("rtl8139d"@.len() != "vesad"@.len());
        reveal_strlit("fbcond");
        assert("rtl8139d"@.len() != "fbcond"@.len());
        reveal_strlit("inputd");
        assert("rtl8139d"@.len() != "inputd"@.len());
        reveal_strlit("nvmed");
        assert("rtl8139d"@.len() != "nvmed"@.len());
        reveal_strlit("ahcid");
        assert("rtl8139d"@.len() != "ahcid"@.len());
        reveal_strlit("usbhidd");
        assert("rtl8139d"@.len() != "usbhidd"@.len());
        reveal_strlit("usbscsid");
        assert("rtl8139d"@[0] != "usbscsid"@[0]);
        reveal_strlit("xhcid");
        assert("rtl8139d"@.len() != "xhcid"@.len());
        reveal_strlit("e1000d");
        assert("rtl8139d"@.len() != "e1000d"@.len());
    }
    assert(description_of("rtl8168d"@) == "Ethernet NIC driver"@) by {
        reveal_strlit("rtl8168d");
        reveal_strlit("kmain");
        assert("rtl8168d"@.len() != "kmain"@.len());
        reveal_strlit("bootstrap");
        assert("rtl8168d"@.len() != "bootstrap"@.len());
        reveal_strlit("kernel");
        assert("rtl8168d"@.len() != "kernel"@.len());
        reveal_strlit("init");
        assert("rtl8168d"@.len() != "init"@.len());
        reveal_strlit("initfs");
        assert("rtl8168d"@.len() != "initfs"@.len());
        reveal_strlit("pcid");
        assert("rtl8168d"@.len() != "pcid"@.len());
        reveal_strlit("orbital");
        assert("rtl8168d"@.len() != "orbital"@.len());
        reveal_strlit("orblogin");
        assert("rtl8168d"@[0] != "orblogin"@[0]);
        reveal_strlit("launcher");
        assert("rtl8168d"@[0] != "launcher"@[0]);
        reveal_strlit("background");
        assert("rtl8168d"@.len() != "background"@.len());
        reveal_strlit("vesad");
        assert("rtl8168d"@.len() != "vesad"@.len());
        reveal_strlit("fbcond");
        assert("rtl8168d"@.len() != "fbcond"@.len());
        reveal_strlit("inputd");
        assert("rtl8168d"@.len() != "inputd"@.len());
        reveal_strlit("nvmed");
        assert("rtl8168d"@.len() != "nvmed"@.len());
        reveal_strlit("ahcid");
        assert("rtl8168d"@.len() != "ahcid"@.len());
        reveal_strlit("usbhidd");
        assert("rtl8168d"@.len() != "usbhidd"@.len());
        reveal_strlit("usbscsid");
        assert("rtl8168d"@[0] != "usbscsid"@[0]);
        reveal_strlit("xhcid");
        assert("rtl8168d"@.len() != "xhcid"@.len());
        reveal_strlit("e1000d");
        assert("rtl8168d"@.len() != "e1000d"@.len());
        reveal_strlit("rtl8139d");
        assert("rtl8168d"@[5] != "rtl8139d"@[5]);
    }
    assert(description_of("ixgbed"@) == "Ethernet NIC driver"@) by {
        reveal_strlit("ixgbed");
        reveal_strlit("kmain");
        assert("ixgbed"@.len() != "kmain"@.len());
        reveal_strlit("bootstrap");
        assert("ixgbed"@.len() != "bootstrap"@.len());
        reveal_strlit("kernel");
        assert("ixgbed"@[0] != "kernel"@[0]);
        reveal_strlit("init");
        assert("ixgbed"@.len() != "init"@.len());
        reveal_strlit("initfs");
        assert("ixgbed"@[1] != "initfs"@[1]);
        reveal_strlit("pcid");
        assert("ixgbed"@.len() != "pcid"@.len());
        reveal_strlit("orbital");
        assert("ixgbed"@.len() != "orbital"@.len());
        reveal_strlit("orblogin");
        assert("ixgbed"@.len() != "orblogin"@.len());
        reveal_strlit("launcher");
        assert("ixgbed"@.len() != "launcher"@.len());
        reveal_strlit("background");
        assert("ixgbed"@.len() != "background"@.len());
        reveal_strlit("vesad");
        assert("ixgbed"@.len() != "vesad"@.len());
        reveal_strlit("fbcond");
        assert("ixgbed"@[0] != "fbcond"@[0]);
        reveal_strlit("inputd");
        assert("ixgbed"@[1] != "inputd"@[1]);
        reveal_strlit("nvmed");
        assert("ixgbed"@.len() != "nvmed"@.len());
        reveal_strlit("ahcid");
        assert("ixgbed"@.len() != "ahcid"@.len());
        reveal_strlit("usbhidd");
        assert("ixgbed"@.len() != "usbhidd"@.len());
        reveal_strlit("usbscsid");
        assert("ixgbed"@.len() != "usbscsid"@.len());
        reveal_strlit("xhcid");
        assert("ixgbed"@.len() != "xhcid"@.len());
        reveal_strlit("e1000d");
        assert("ixgbed"@[0] != "e1000d"@[0]);
        reveal_strlit("rtl8139d");
        assert("ixgbed"@.len() != "rtl8139d"@.len());
        reveal_strlit("rtl8168d");
        assert("ixgbed"@.len() != "rtl8168d"@.len());
    }
    assert(description_of("virtio-netd"@) == "virtual/USB network driver"@) by {
        reveal_strlit("virtio-netd");
        reveal_strlit("kmain");
        assert("virtio-netd"@.len() != "kmain"@.len());
        reveal_strlit("bootstrap");
        assert("virtio-netd"@.len() != "bootstrap"@.len());
        reveal_strlit("kernel");
        assert("virtio-netd"@.len() != "kernel"@.len());
        reveal_strlit("init");
        assert("virtio-netd"@.len() != "init"@.len());
        reveal_strlit("initfs");
        assert("virtio-netd"@.len() != "initfs"@.len());
        reveal_strlit("pcid");
        assert("virtio-netd"@.len() != "pcid"@.len());
        reveal_strlit("orbital");
        assert("virtio-netd"@.len() != "orbital"@.len());
        reveal_strlit("orblogin");
        assert("virtio-netd"@.len() != "orblogin"@.len());
        reveal_strlit("launcher");
        assert("virtio-netd"@.len() != "launcher"@.len());
        reveal_strlit("background");
        assert("virtio-netd"@.len() != "background"@.len());
        reveal_strlit("vesad");
        assert("virtio-netd"@.len() != "vesad"@.len());
        reveal_strlit("fbcond");
        assert("virtio-netd"@.len() != "fbcond"@.len());
        reveal_strlit("inputd");
        assert("virtio-netd"@.len() != "inputd"@.len());
        reveal_strlit("nvmed");
        assert("virtio-netd"@.len() != "nvmed"@.len());
        reveal_strlit("ahcid");
        assert("virtio-netd"@.len() != "ahcid"@.len());
        reveal_strlit("usbhidd");
        assert("virtio-netd"@.len() != "usbhidd"@.len());
        reveal_strlit("usbscsid");
        assert("virtio-netd"@.len() != "usbscsid"@.len());
        reveal_strlit("xhcid");
        assert("virtio-netd"@.len() != "xhcid"@.len());
        reveal_strlit("e1000d");
        assert("virtio-netd"@.len() != "e1000d"@.len());
        reveal_strlit("rtl8139d");
        assert("virtio-netd"@.len() != "rtl8139d"@.len());
        reveal_strlit("rtl8168d");
        assert("virtio-netd"@.len() != "rtl8168d"@.len());
        reveal_strlit("ixgbed");
        assert("virtio-netd"@.len() != "ixgbed"@.len());
    }
    assert(description_of("usbnetd"@) == "virtual/USB network driver"@) by {
        reveal_strlit("usbnetd");
        reveal_strlit("kmain");
        assert("usbnetd"@.len() != "kmain"@.len());
        reveal_strlit("bootstrap");
        assert("usbnetd"@.len() != "bootstrap"@.len());
        reveal_strlit("kernel");
        assert("usbnetd"@.len() != "kernel"@.len());
        reveal_strlit("init");
        assert("usbnetd"@.len() != "init"@.len());
        reveal_strlit("initfs");
        assert("usbnetd"@.len() != "initfs"@.len());
        reveal_strlit("pcid");
        assert("usbnetd"@.len() != "pcid"@.len());
        reveal_strlit("orbital");
        assert("usbnetd"@[0] != "orbital"@[0]);
        reveal_strlit("orblogin");
        assert("usbnetd"@.len() != "orblogin"@.len());
        reveal_strlit("launcher");
        assert("usbnetd"@.len() != "launcher"@.len());
        reveal_strlit("background");
        assert("usbnetd"@.len() != "background"@.len());
        reveal_strlit("vesad");
        assert("usbnetd"@.len() != "vesad"@.len());
        reveal_strlit("fbcond");
        assert("usbnetd"@.len() != "fbcond"@.len());
        reveal_strlit("inputd");
        assert("usbnetd"@.len() != "inputd"@.len());
        reveal_strlit("nvmed");
        assert("usbnetd"@.len() != "nvmed"@.len());
        reveal_strlit("ahcid");
        assert("usbnetd"@.len() != "ahcid"@.len());
        reveal_strlit("usbhidd");
        assert("usbnetd"@[3] != "usbhidd"@[3]);
        reveal_strlit("usbscsid");
        assert("usbnetd"@.len() != "usbscsid"@.len());
        reveal_strlit("xhcid");
        assert("usbnetd"@.len() != "xhcid"@.len());
        reveal_strlit("e1000d");
        assert("usbnetd"@.len() != "e1000d"@.len());
        reveal_strlit("rtl8139d");
        assert("usbnetd"@.len() != "rtl8139d"@.len());
        reveal_strlit("rtl8168d");
        assert("usbnetd"@.len() != "rtl8168d"@.len());
        reveal_strlit("ixgbed");
        assert("usbnetd"@.len() != "ixgbed"@.len());
        reveal_strlit("virtio-netd");
        assert("usbnetd"@.len() != "virtio-netd"@.len());
    }
    assert(description_of("smolnetd"@) == "network stack (TCP/IP)"@) by {
        reveal_strlit("smolnetd");
        reveal_strlit("kmain");
        assert("smolnetd"@.len() != "kmain"@.len());
        reveal_strlit("bootstrap");
        assert("smolnetd"@.len() != "bootstrap"@.len());
        reveal_strlit("kernel");
        assert("smolnetd"@.len() != "kernel"@.len());
        reveal_strlit("init");
        assert("smolnetd"@.len() != "init"@.len());
        reveal_strlit("initfs");
        assert("smolnetd"@.len() != "initfs"@.len());
        reveal_strlit("pcid");
        assert("smolnetd"@.len() != "pcid"@.len());
        reveal_strlit("orbital");
        assert("smolnetd"@.len() != "orbital"@.len());
        reveal_strlit("orblogin");
        assert("smolnetd"@[0] != "orblogin"@[0]);
        reveal_strlit("launcher");
        assert("smolnetd"@[0] != "launcher"@[0]);
        reveal_strlit("background");
        assert("smolnetd"@.len() != "background"@.len());
        reveal_strlit("vesad");
        assert("smolnetd"@.len() != "vesad"@.len());
        reveal_strlit("fbcond");
        assert("smolnetd"@.len() != "fbcond"@.len());
        reveal_strlit("inputd");
        assert("smolnetd"@.len() != "inputd"@.len());
        reveal_strlit("nvmed");
        assert("smolnetd"@.len() != "nvmed"@.len());
        reveal_strlit("ahcid");
        assert("smolnetd"@.len() != "ahcid"@.len());
        reveal_strlit("usbhidd");
        assert("smolnetd"@.len() != "usbhidd"@.len());
        reveal_strlit("usbscsid");
        assert("smolnetd"@[0] != "usbscsid"@[0]);
        reveal_strlit("xhcid");
        assert("smolnetd"@.len() != "xhcid"@.len());
        reveal_strlit("e1000d");
        assert("smolnetd"@.len() != "e1000d"@.len());
        reveal_strlit("rtl8139d");
        assert("smolnetd"@[0] != "rtl8139d"@[0]);
        reveal_strlit("rtl8168d");
        assert("smolnetd"@[0] != "rtl8168d"@[0]);
        reveal_strlit("ixgbed");
        assert("smolnetd"@.len() != "ixgbed"@.len());
        reveal_strlit("virtio-netd");
        assert("smolnetd"@.len() != "virtio-netd"@.len());
        reveal_strlit("usbnetd");
        assert("smolnetd"@.len() != "usbnetd"@.len());
    }
    assert(description_of("netstack"@) == "network stack (TCP/IP)"@) by {
        reveal_strlit("netstack");
        reveal_strlit("kmain");
        assert("netstack"@.len() != "kmain"@.len());
        reveal_strlit("bootstrap");
        assert("netstack"@.len() != "bootstrap"@.len());
        reveal_strlit("kernel");
        assert("netstack"@.len() != "kernel"@.len());
        reveal_strlit("init");
        assert("netstack"@.len() != "init"@.len());
        reveal_strlit("initfs");
        assert("netstack"@.len() != "initfs"@.len());
        reveal_strlit("pcid");
        assert("netstack"@.len() != "pcid"@.len());
        reveal_strlit("orbital");
        assert("netstack"@.len() != "orbital"@.len());
        reveal_strlit("orblogin");
        assert("netstack"@[0] != "orblogin"@[0]);
        reveal_strlit("launcher");
        assert("netstack"@[0] != "launcher"@[0]);
        reveal_strlit("background");
        assert("netstack"@.len() != "background"@.len());
        reveal_strlit("vesad");
        assert("netstack"@.len() != "vesad"@.len());
        reveal_strlit("fbcond");
        assert("netstack"@.len() != "fbcond"@.len());
        reveal_strlit("inputd");
        assert("netstack"@.len() != "inputd"@.len());
        reveal_strlit("nvmed");
        assert("netstack"@.len() != "nvmed"@.len());
        reveal_strlit("ahcid");
        assert("netstack"@.len() != "ahcid"@.len());
        reveal_strlit("usbhidd");
        assert("netstack"@.len() != "usbhidd"@.len());
        reveal_strlit("usbscsid");
        assert("netstack"@[0] != "usbscsid"@[0]);
        reveal_strlit("xhcid");
        assert("netstack"@.len() != "xhcid"@.len());
        reveal_strlit("e1000d");
        assert("netstack"@.len() != "e1000d"@.len());
        reveal_strlit("rtl8139d");
        assert("netstack"@[0] != "rtl8139d"@[0]);
        reveal_strlit("rtl8168d");
        assert("netstack"@[0] != "rtl8168d"@[0]);
        reveal_strlit("ixgbed");
        assert("netstack"@.len() != "ixgbed"@.len());
        reveal_strlit("virtio-netd");
        assert("netstack"@.len() != "virtio-netd"@.len());
        reveal_strlit("usbnetd");
        assert("netstack"@.len() != "usbnetd"@.len());
        reveal_strlit("smolnetd");
        assert("netstack"@[0] != "smolnetd"@[0]);
    }
    assert(description_of("dnsd"@) == "DNS resolver"@) by {
        reveal_strlit("dnsd");
        reveal_strlit("kmain");
        assert("dnsd"@.len() != "kmain"@.len());
        reveal_strlit("bootstrap");
        assert("dnsd"@.len() != "bootstrap"@.len());
        reveal_strlit("kernel");
        assert("dnsd"@.len() != "kernel"@.len());
        reveal_strlit("init");
        assert("dnsd"@[0] != "init"@[0]);
        reveal_strlit("initfs");
        assert("dnsd"@.len() != "initfs"@.len());
        reveal_strlit("pcid");
        assert("dnsd"@[0] != "pcid"@[0]);
        reveal_strlit("orbital");
        assert("dnsd"@.len() != "orbital"@.len());
        reveal_strlit("orblogin");
        assert("dnsd"@.len() != "orblogin"@.len());
        reveal_strlit("launcher");
        assert("dnsd"@.len() != "launcher"@.len());
        reveal_strlit("background");
        assert("dnsd"@.len() != "background"@.len());
        reveal_strlit("vesad");
        assert("dnsd"@.len() != "vesad"@.len());
        reveal_strlit("fbcond");
        assert("dnsd"@.len() != "fbcond"@.len());
        reveal_strlit("inputd");
        assert("dnsd"@.len() != "inputd"@.len());
        reveal_strlit("nvmed");
        assert("dnsd"@.len() != "nvmed"@.len());
        reveal_strlit("ahcid");
        assert("dnsd"@.len() != "ahcid"@.len());
        reveal_strlit("usbhidd");
        assert("dnsd"@.len() != "usbhidd"@.len());
        reveal_strlit("usbscsid");
        assert("dnsd"@.len() != "usbscsid"@.len());
        reveal_strlit("xhcid");
        assert("dnsd"@.len() != "xhcid"@.len());
        reveal_strlit("e1000d");
        assert("dnsd"@.len() != "e1000d"@.len());
        reveal_strlit("rtl8139d");
        assert("dnsd"@.len() != "rtl8139d"@.len());
        reveal_strlit("rtl8168d");
        assert("dnsd"@.len() != "rtl8168d"@.len());
        reveal_strlit("ixgbed");
        assert("dnsd"@.len() != "ixgbed"@.len());
        reveal_strlit("virtio-netd");
        assert("dnsd"@.len() != "virtio-netd"@.len());
        reveal_strlit("usbnetd");
        assert("dnsd"@.len() != "usbnetd"@.len());
        reveal_strlit("smolnetd");
        assert("dnsd"@.len() != "smolnetd"@.len());
        reveal_strlit("netstack");
        assert("dnsd"@.len() != "netstack"@.len());
    }
    assert(description_of("dhcpd"@) == "DHCP client — obtains an IP address"@) by {
        reveal_strlit("dhcpd");
        reveal_strlit("kmain");
        assert("dhcpd"@[0] != "kmain"@[0]);
        reveal_strlit("bootstrap");
        assert("dhcpd"@.len() != "bootstrap"@.len());
        reveal_strlit("kernel");
        assert("dhcpd"@.len() != "kernel"@.len());
        reveal_strlit("init");
        assert("dhcpd"@.len() != "init"@.len());
        reveal_strlit("initfs");
        assert("dhcpd"@.len() != "initfs"@.len());
        reveal_strlit("pcid");
        assert("dhcpd"@.len() != "pcid"@.len());
        reveal_strlit("orbital");
        assert("dhcpd"@.len() != "orbital"@.len());
        reveal_strlit("orblogin");
        assert("dhcpd"@.len() != "orblogin"@.len());
        reveal_strlit("launcher");
        assert("dhcpd"@.len() != "launcher"@.len());
        reveal_strlit("background");
        assert("dhcpd"@.len() != "background"@.len());
        reveal_strlit("vesad");
        assert("dhcpd"@[0] != "vesad"@[0]);
        reveal_strlit("fbcond");
        assert("dhcpd"@.len() != "fbcond"@.len());
        reveal_strlit("inputd");
        assert("dhcpd"@.len() != "inputd"@.len());
        reveal_strlit("nvmed");
        assert("dhcpd"@[0] != "nvmed"@[0]);
        reveal_strlit("ahcid");
        assert("dhcpd"@[0] != "ahcid"@[0]);
        reveal_strlit("usbhidd");
        assert("dhcpd"@.len() != "usbhidd"@.len());
        reveal_strlit("usbscsid");
        assert("dhcpd"@.len() != "usbscsid"@.len());
        reveal_strlit("xhcid");
        assert("dhcpd"@[0] != "xhcid"@[0]);
        reveal_strlit("e1000d");
        assert("dhcpd"@.len() != "e1000d"@.len());
        reveal_strlit("rtl8139d");
        assert("dhcpd"@.len() != "rtl8139d"@.len());
        reveal_strlit("rtl8168d");
        assert("dhcpd"@.len() != "rtl8168d"@.len());
        reveal_strlit("ixgbed");
        assert("dhcpd"@.len() != "ixgbed"@.len());
        reveal_strlit("virtio-netd");
        assert("dhcpd"@.len() != "virtio-netd"@.len());
        reveal_strlit("usbnetd");
        assert("dhcpd"@.len() != "usbnetd"@.len());
        reveal_strlit("smolnetd");
        assert("dhcpd"@.len() != "smolnetd"@.len());
        reveal_strlit("netstack");
        assert("dhcpd"@.len() != "netstack"@.len());
        reveal_strlit("dnsd");
        assert("dhcpd"@.len() != "dnsd"@.len());
    }
    assert(description_of("randd"@) == "random-number daemon (entropy)"@) by {
        reveal_strlit("randd");
        reveal_strlit("kmain");
        assert("randd"@[0] != "kmain"@[0]);
        reveal_strlit("bootstrap");
        assert("randd"@.len() != "bootstrap"@.len());
        reveal_strlit("kernel");
        assert("randd"@.len() != "kernel"@.len());
        reveal_strlit("init");
        assert("randd"@.len() != "init"@.len());
        reveal_strlit("initfs");
        assert("randd"@.len() != "initfs"@.len());
        reveal_strlit("pcid");
        assert("randd"@.len() != "pcid"@.len());
        reveal_strlit("orbital");
        assert("randd"@.len() != "orbital"@.len());
        reveal_strlit("orblogin");
        assert("randd"@.len() != "orblogin"@.len());
        reveal_strlit("launcher");
        assert("randd"@.len() != "launcher"@.len());
        reveal_strlit("background");
        assert("randd"@.len() != "background"@.len());
        reveal_strlit("vesad");
        assert("randd"@[0] != "vesad"@[0]);
        reveal_strlit("fbcond");
        assert("randd"@.len() != "fbcond"@.len());
        reveal_strlit("inputd");
        assert("randd"@.len() != "inputd"@.len());
        reveal_strlit("nvmed");
        assert("randd"@[0] != "nvmed"@[0]);
        reveal_strlit("ahcid");
        assert("randd"@[0] != "ahcid"@[0]);
        reveal_strlit("usbhidd");
        assert("randd"@.len() != "usbhidd"@.len());
        reveal_strlit("usbscsid");
        assert("randd"@.len() != "usbscsid"@.len());
        reveal_strlit("xhcid");
        assert("randd"@[0] != "xhcid"@[0]);
        reveal_strlit("e1000d");
        assert("randd"@.len() != "e1000d"@.len());
        reveal_strlit("rtl8139d");
        assert("randd"@.len() != "rtl8139d"@.len());
        reveal_strlit("rtl8168d");
        assert("randd"@.len() != "rtl8168d"@.len());
        reveal_strlit("ixgbed");
        assert("randd"@.len() != "ixgbed"@.len());
        reveal_strlit("virtio-netd");
        assert("randd"@.len() != "virtio-netd"@.len());
        reveal_strlit("usbnetd");
        assert("randd"@.len() != "usbnetd"@.len());
        reveal_strlit("smolnetd");
        assert("randd"@.len() != "smolnetd"@.len());
        reveal_strlit("netstack");
        assert("randd"@.len() != "netstack"@.len());
        reveal_strlit("dnsd");
        assert("randd"@.len() != "dnsd"@.len());
        reveal_strlit("dhcpd");
        assert("randd"@[0] != "dhcpd"@[0]);
    }
    assert(description_of("rtcd"@) == "real-time clock daemon"@) by {
        reveal_strlit("rtcd");
        reveal_strlit("kmain");
        assert("rtcd"@.len() != "kmain"@.len());
        reveal_strlit("bootstrap");
        assert("rtcd"@.len() != "bootstrap"@.len());
        reveal_strlit("kernel");
        assert("rtcd"@.len() != "kernel"@.len());
        reveal_strlit("init");
        assert("rtcd"@[0] != "init"@[0]);
        reveal_strlit("initfs");
        assert("rtcd"@.len() != "initfs"@.len());
        reveal_strlit("pcid");
        assert("rtcd"@[0] != "pcid"@[0]);
        reveal_strlit("orbital");
        assert("rtcd"@.len() != "orbital"@.len());
        reveal_strlit("orblogin");
        assert("rtcd"@.len() != "orblogin"@.len());
        reveal_strlit("launcher");
        assert("rtcd"@.len() != "launcher"@.len());
        reveal_strlit("background");
        assert("rtcd"@.len() != "background"@.len());
        reveal_strlit("vesad");
        assert("rtcd"@.len() != "vesad"@.len());
        reveal_strlit("fbcond");
        assert("rtcd"@.len() != "fbcond"@.len());
        reveal_strlit("inputd");
        assert("rtcd"@.len() != "inputd"@.len());
        reveal_strlit("nvmed");
        assert("rtcd"@.len() != "nvmed"@.len());
        reveal_strlit("ahcid");
        assert("rtcd"@.len() != "ahcid"@.len());
        reveal_strlit("usbhidd");
        assert("rtcd"@.len() != "usbhidd"@.len());
        reveal_strlit("usbscsid");
        assert("rtcd"@.len() != "usbscsid"@.len());
        reveal_strlit("xhcid");
        assert("rtcd"@.len() != "xhcid"@.len());
        reveal_strlit("e1000d");
        assert("rtcd"@.len() != "e1000d"@.len());
        reveal_strlit("rtl8139d");
        assert("rtcd"@.len() != "rtl8139d"@.len());
        reveal_strlit("rtl8168d");
        assert("rtcd"@.len() != "rtl8168d"@.len());
        reveal_strlit("ixgbed");
        assert("rtcd"@.len() != "ixgbed"@.len());
        reveal_strlit("virtio-netd");
        assert("rtcd"@.len() != "virtio-netd"@.len());
        reveal_strlit("usbnetd");
        assert("rtcd"@.len() != "usbnetd"@.len());
        reveal_strlit("smolnetd");
        assert("rtcd"@.len() != "smolnetd"@.len());
        reveal_strlit("netstack");
        assert("rtcd"@.len() != "netstack"@.len());
        reveal_strlit("dnsd");
        assert("rtcd"@[0] != "dnsd"@[0]);
        reveal_strlit("dhcpd");
        assert("rtcd"@.len() != "dhcpd"@.len());
        reveal_strlit("randd");
        assert("rtcd"@.len() != "randd"@.len());
    }
    assert(description_of("audiod"@) == "audio driver"@) by {
        reveal_strlit("audiod");
        reveal_strlit("kmain");
        assert("audiod"@.len() != "kmain"@.len());
        reveal_strlit("bootstrap");
        assert("audiod"@.len() != "bootstrap"@.len());
        reveal_strlit("kernel");
        assert("audiod"@[0] != "kernel"@[0]);
        reveal_strlit("init");
        assert("audiod"@.len() != "init"@.len());
        reveal_strlit("initfs");
        assert("audiod"@[0] != "initfs"@[0]);
        reveal_strlit("pcid");
        assert("audiod"@.len() != "pcid"@.len());
        reveal_strlit("orbital");
        assert("audiod"@.len() != "orbital"@.len());
        reveal_strlit("orblogin");
        assert("audiod"@.len() != "orblogin"@.len());
        reveal_strlit("launcher");
        assert("audiod"@.len() != "launcher"@.len());
        reveal_strlit("background");
        assert("audiod"@.len() != "background"@.len());
        reveal_strlit("vesad");
        assert("audiod"@.len() != "vesad"@.len());
        reveal_strlit("fbcond");
        assert("audiod"@[0] != "fbcond"@[0]);
        reveal_strlit("inputd");
        assert("audiod"@[0] != "inputd"@[0]);
        reveal_strlit("nvmed");
        assert("audiod"@.len() != "nvmed"@.len());
        reveal_strlit("ahcid");
        assert("audiod"@.len() != "ahcid"@.len());
        reveal_strlit("usbhidd");
        assert("audiod"@.len() != "usbhidd"@.len());
        reveal_strlit("usbscsid");
        assert("audiod"@.len() != "usbscsid"@.len());
        reveal_strlit("xhcid");
        assert("audiod"@.len() != "xhcid"@.len());
        reveal_strlit("e1000d");
        assert("audiod"@[0] != "e1000d"@[0]);
        reveal_strlit("rtl8139d");
        assert("audiod"@.len() != "rtl8139d"@.len());
        reveal_strlit("rtl8168d");
        assert("audiod"@.len() != "rtl8168d"@.len());
        reveal_strlit("ixgbed");
        assert("audiod"@[0] != "ixgbed"@[0]);
        reveal_strlit("virtio-netd");
        assert("audiod"@.len() != "virtio-netd"@.len());
        reveal_strlit("usbnetd");
        assert("audiod"@.len() != "usbnetd"@.len());
        reveal_strlit("smolnetd");
        assert("audiod"@.len() != "smolnetd"@.len());
        reveal_strlit("netstack");
        assert("audiod"@.len() != "netstack"@.len());
        reveal_strlit("dnsd");
        assert("audiod"@.len() != "dnsd"@.len());
        reveal_strlit("dhcpd");
        assert("audiod"@.len() != "dhcpd"@.len());
        reveal_strlit("randd");
        assert("audiod"@.len() != "randd"@.len());
        reveal_strlit("rtcd");
        assert("audiod"@.len() != "rtcd"@.len());
    }
    assert(description_of("ihdad"@) == "audio driver"@) by {
        reveal_strlit("ihdad");
        reveal_strlit("kmain");
        assert("ihdad"@[0] != "kmain"@[0]);
        reveal_strlit("bootstrap");
        assert("ihdad"@.len() != "bootstrap"@.len());
        reveal_strlit("kernel");
        assert("ihdad"@.len() != "kernel"@.len());
        reveal_strlit("init");
        assert("ihdad"@.len() != "init"@.len());
        reveal_strlit("initfs");
        assert("ihdad"@.len() != "initfs"@.len());
        reveal_strlit("pcid");
        assert("ihdad"@.len() != "pcid"@.len());
        reveal_strlit("orbital");
        assert("ihdad"@.len() != "orbital"@.len());
        reveal_strlit("orblogin");
        assert("ihdad"@.len() != "orblogin"@.len());
        reveal_strlit("launcher");
        assert("ihdad"@.len() != "launcher"@.len());
        reveal_strlit("background");
        assert("ihdad"@.len() != "background"@.len());
        reveal_strlit("vesad");
        assert("ihdad"@[0] != "vesad"@[0]);
        reveal_strlit("fbcond");
        assert("ihdad"@.len() != "fbcond"@.len());
        reveal_strlit("inputd");
        assert("ihdad"@.len() != "inputd"@.len());
        reveal_strlit("nvmed");
        assert("ihdad"@[0] != "nvmed"@[0]);
        reveal_strlit("ahcid");
        assert("ihdad"@[0] != "ahcid"@[0]);
        reveal_strlit("usbhidd");
        assert("ihdad"@.len() != "usbhidd"@.len());
        reveal_strlit("usbscsid");
        assert("ihdad"@.len() != "usbscsid"@.len());
        reveal_strlit("xhcid");
        assert("ihdad"@[0] != "xhcid"@[0]);
        reveal_strlit("e1000d");
        assert("ihdad"@.len() != "e1000d"@.len());
        reveal_strlit("rtl8139d");
        assert("ihdad"@.len() != "rtl8139d"@.len());
        reveal_strlit("rtl8168d");
        assert("ihdad"@.len() != "rtl8168d"@.len());
        reveal_strlit("ixgbed");
        assert("ihdad"@.len() != "ixgbed"@.len());
        reveal_strlit("virtio-netd");
        assert("ihdad"@.len() != "virtio-netd"@.len());
        reveal_strlit("usbnetd");
        assert("ihdad"@.len() != "usbnetd"@.len());
        reveal_strlit("smolnetd");
        assert("ihdad"@.len() != "smolnetd"@.len());
        reveal_strlit("netstack");
        assert("ihdad"@.len() != "netstack"@.len());
        reveal_strlit("dnsd");
        assert("ihdad"@.len() != "dnsd"@.len());
        reveal_strlit("dhcpd");
        assert("ihdad"@[0] != "dhcpd"@[0]);
        reveal_strlit("randd");
        assert("ihdad"@[0] != "randd"@[0]);
        reveal_strlit("rtcd");
        assert("ihdad"@.len() != "rtcd"@.len());
        reveal_strlit("audiod");
        assert("ihdad"@.len() != "audiod"@.len());
    }
    assert(description_of("ac97d"@) == "audio driver"@) by {
        reveal_strlit("ac97d");
        reveal_strlit("kmain");
        assert("ac97d"@[0] != "kmain"@[0]);
        reveal_strlit("bootstrap");
        assert("ac97d"@.len() != "bootstrap"@.len());
        reveal_strlit("kernel");
        assert("ac97d"@.len() != "kernel"@.len());
        reveal_strlit("init");
        assert("ac97d"@.len() != "init"@.len());
        reveal_strlit("initfs");
        assert("ac97d"@.len() != "initfs"@.len());
        reveal_strlit("pcid");
        assert("ac97d"@.len() != "pcid"@.len());
        reveal_strlit("orbital");
        assert("ac97d"@.len() != "orbital"@.len());
        reveal_strlit("orblogin");
        assert("ac97d"@.len() != "orblogin"@.len());
        reveal_strlit("launcher");
        assert("ac97d"@.len() != "launcher"@.len());
        reveal_strlit("background");
        assert("ac97d"@.len() != "background"@.len());
        reveal_strlit("vesad");
        assert("ac97d"@[0] != "vesad"@[0]);
        reveal_strlit("fbcond");
        assert("ac97d"@.len() != "fbcond"@.len());
        reveal_strlit("inputd");
        assert("ac97d"@.len() != "inputd"@.len());
        reveal_strlit("nvmed");
        assert("ac97d"@[0] != "nvmed"@[0]);
        reveal_strlit("ahcid");
        assert("ac97d"@[1] != "ahcid"@[1]);
        reveal_strlit("usbhidd");
        assert("ac97d"@.len() != "usbhidd"@.len());
        reveal_strlit("usbscsid");
        assert("ac97d"@.len() != "usbscsid"@.len());
        reveal_strlit("xhcid");
        assert("ac97d"@[0] != "xhcid"@[0]);
        reveal_strlit("e1000d");
        assert("ac97d"@.len() != "e1000d"@.len());
        reveal_strlit("rtl8139d");
        assert("ac97d"@.len() != "rtl8139d"@.len());
        reveal_strlit("rtl8168d");
        assert("ac97d"@.len() != "rtl8168d"@.len());
        reveal_strlit("ixgbed");
        assert("ac97d"@.len() != "ixgbed"@.len());
        reveal_strlit("virtio-netd");
        assert("ac97d"@.len() != "virtio-netd"@.len());
        reveal_strlit("usbnetd");
        assert("ac97d"@.len() != "usbnetd"@.len());
        reveal_strlit("smolnetd");
        assert("ac97d"@.len() != "smolnetd"@.len());
        reveal_strlit("netstack");
        assert("ac97d"@.len() != "netstack"@.len());
        reveal_strlit("dnsd");
        assert("ac97d"@.len() != "dnsd"@.len());
        reveal_strlit("dhcpd");
        assert("ac97d"@[0] != "dhcpd"@[0]);
        reveal_strlit("randd");
        assert("ac97d"@[0] != "randd"@[0]);
        reveal_strlit("rtcd");
        assert("ac97d"@.len() != "rtcd"@.len());
        reveal_strlit("audiod");
        assert("ac97d"@.len() != "audiod"@.len());
        reveal_strlit("ihdad");
        assert("ac97d"@[0] != "ihdad"@[0]);
    }
    assert(description_of("logd"@) == "system log / ramfs service"@) by {
        reveal_strlit("logd");
        reveal_strlit("kmain");
        assert("logd"@.len() != "kmain"@.len());
        reveal_strlit("bootstrap");
        assert("logd"@.len() != "bootstrap"@.len());
        reveal_strlit("kernel");
        assert("logd"@.len() != "kernel"@.len());
        reveal_strlit("init");
        assert("logd"@[0] != "init"@[0]);
        reveal_strlit("initfs");
        assert("logd"@.len() != "initfs"@.len());
        reveal_strlit("pcid");
        assert("logd"@[0] != "pcid"@[0]);
        reveal_strlit("orbital");
        assert("logd"@.len() != "orbital"@.len());
        reveal_strlit("orblogin");
        assert("logd"@.len() != "orblogin"@.len());
        reveal_strlit("launcher");
        assert("logd"@.len() != "launcher"@.len());
        reveal_strlit("background");
        assert("logd"@.len() != "background"@.len());
        reveal_strlit("vesad");
        assert("logd"@.len() != "vesad"@.len());
        reveal_strlit("fbcond");
        assert("logd"@.len() != "fbcond"@.len());
        reveal_strlit("inputd");
        assert("logd"@.len() != "inputd"@.len());
        reveal_strlit("nvmed");
        assert("logd"@.len() != "nvmed"@.len());
        reveal_strlit("ahcid");
        assert("logd"@.len() != "ahcid"@.len());
        reveal_strlit("usbhidd");
        assert("logd"@.len() != "usbhidd"@.len());
        reveal_strlit("usbscsid");
        assert("logd"@.len() != "usbscsid"@.len());
        reveal_strlit("xhcid");
        assert("logd"@.len() != "xhcid"@.len());
        reveal_strlit("e1000d");
        assert("logd"@.len() != "e1000d"@.len());
        reveal_strlit("rtl8139d");
        assert("logd"@.len() != "rtl8139d"@.len());
        reveal_strlit("rtl8168d");
        assert("logd"@.len() != "rtl8168d"@.len());
        reveal_strlit("ixgbed");
        assert("logd"@.len() != "ixgbed"@.len());
        reveal_strlit("virtio-netd");
        assert("logd"@.len() != "virtio-netd"@.len());
        reveal_strlit("usbnetd");
        assert("logd"@.len() != "usbnetd"@.len());
        reveal_strlit("smolnetd");
        assert("logd"@.len() != "smolnetd"@.len());
        reveal_strlit("netstack");
        assert("logd"@.len() != "netstack"@.len());
        reveal_strlit("dnsd");
        assert("logd"@[0] != "dnsd"@[0]);
        reveal_strlit("dhcpd");
        assert("logd"@.len() != "dhcpd"@.len());
        reveal_strlit("randd");
        assert("logd"@.len() != "randd"@.len());
        reveal_strlit("rtcd");
        assert("logd"@[0] != "rtcd"@[0]);
        reveal_strlit("audiod");
        assert("logd"@.len() != "audiod"@.len());
        reveal_strlit("ihdad");
        assert("logd"@.len() != "ihdad"@.len());
        reveal_strlit("ac97d");
        assert("logd"@.len() != "ac97d"@.len());
    }
    assert(description_of("ramfs"@) == "system log / ramfs service"@) by {
        reveal_strlit("ramfs");
        reveal_strlit("kmain");
        assert("ramfs"@[0] != "kmain"@[0]);
        reveal_strlit("bootstrap");
        assert("ramfs"@.len() != "bootstrap"@.len());
        reveal_strlit("kernel");
        assert("ramfs"@.len() != "kernel"@.len());
        reveal_strlit("init");
        assert("ramfs"@.len() != "init"@.len());
        reveal_strlit("initfs");
        assert("ramfs"@.len() != "initfs"@.len());
        reveal_strlit("pcid");
        assert("ramfs"@.len() != "pcid"@.len());
        reveal_strlit("orbital");
        assert("ramfs"@.len() != "orbital"@.len());
        reveal_strlit("orblogin");
        assert("ramfs"@.len() != "orblogin"@.len());
        reveal_strlit("launcher");
        assert("ramfs"@.len() != "launcher"@.len());
        reveal_strlit("background");
        assert("ramfs"@.len() != "background"@.len());
        reveal_strlit("vesad");
        assert("ramfs"@[0] != "vesad"@[0]);
        reveal_strlit("fbcond");
        assert("ramfs"@.len() != "fbcond"@.len());
        reveal_strlit("inputd");
        assert("ramfs"@.len() != "inputd"@.len());
        reveal_strlit("nvmed");
        assert("ramfs"@[0] != "nvmed"@[0]);
        reveal_strlit("ahcid");
        assert("ramfs"@[0] != "ahcid"@[0]);
        reveal_strlit("usbhidd");
        assert("ramfs"@.len() != "usbhidd"@.len());
        reveal_strlit("usbscsid");
        assert("ramfs"@.len() != "usbscsid"@.len());
        reveal_strlit("xhcid");
        assert("ramfs"@[0] != "xhcid"@[0]);
        reveal_strlit("e1000d");
        assert("ramfs"@.len() != "e1000d"@.len());
        reveal_strlit("rtl8139d");
        assert("ramfs"@.len() != "rtl8139d"@.len());
        reveal_strlit("rtl8168d");
        assert("ramfs"@.len() != "rtl8168d"@.len());
        reveal_strlit("ixgbed");
        assert("ramfs"@.len() != "ixgbed"@.len());
        reveal_strlit("virtio-netd");
        assert("ramfs"@.len() != "virtio-netd"@.len());
        reveal_strlit("usbnetd");
        assert("ramfs"@.len() != "usbnetd"@.len());
        reveal_strlit("smolnetd");
        assert("ramfs"@.len() != "smolnetd"@.len());
        reveal_strlit("netstack");
        assert("ramfs"@.len() != "netstack"@.len());
        reveal_strlit("dnsd");
        assert("ramfs"@.len() != "dnsd"@.len());
        reveal_strlit("dhcpd");
        assert("ramfs"@[0] != "dhcpd"@[0]);
        reveal_strlit("randd");
        assert("ramfs"@[2] != "randd"@[2]);
        reveal_strlit("rtcd");
        assert("ramfs"@.len() != "rtcd"@.len());
        reveal_strlit("audiod");
        assert("ramfs"@.len() != "audiod"@.len());
        reveal_strlit("ihdad");
        assert("ramfs"@[0] != "ihdad"@[0]);
        reveal_strlit("ac97d");
        assert("ramfs"@[0] != "ac97d"@[0]);
        reveal_strlit("logd");
        assert("ramfs"@.len() != "logd"@.len());
    }
    assert(description_of("redoxfs"@) == "RedoxFS filesystem daemon"@) by {
        reveal_strlit("redoxfs");
        reveal_strlit("kmain");
        assert("redoxfs"@.len() != "kmain"@.len());
        reveal_strlit("bootstrap");
        assert("redoxfs"@.len() != "bootstrap"@.len());
        reveal_strlit("kernel");
        assert("redoxfs"@.len() != "kernel"@.len());
        reveal_strlit("init");
        assert("redoxfs"@.len() != "init"@.len());
        reveal_strlit("initfs");
        assert("redoxfs"@.len() != "initfs"@.len());
        reveal_strlit("pcid");
        assert("redoxfs"@.len() != "pcid"@.len());
        reveal_strlit("orbital");
        assert("redoxfs"@[0] != "orbital"@[0]);
        reveal_strlit("orblogin");
        assert("redoxfs"@.len() != "orblogin"@.len());
        reveal_strlit("launcher");
        assert("redoxfs"@.len() != "launcher"@.len());
        reveal_strlit("background");
        assert("redoxfs"@.len() != "background"@.len());
        reveal_strlit("vesad");
        assert("redoxfs"@.len() != "vesad"@.len());
        reveal_strlit("fbcond");
        assert("redoxfs"@.len() != "fbcond"@.len());
        reveal_strlit("inputd");
        assert("redoxfs"@.len() != "inputd"@.len());
        reveal_strlit("nvmed");
        assert("redoxfs"@.len() != "nvmed"@.len());
        reveal_strlit("ahcid");
        assert("redoxfs"@.len() != "ahcid"@.len());
        reveal_strlit("usbhidd");
        assert("redoxfs"@[0] != "usbhidd"@[0]);
        reveal_strlit("usbscsid");
        assert("redoxfs"@.len() != "usbscsid"@.len());
        reveal_strlit("xhcid");
        assert("redoxfs"@.len() != "xhcid"@.len());
        reveal_strlit("e1000d");
        assert("redoxfs"@.len() != "e1000d"@.len());
        reveal_strlit("rtl8139d");
        assert("redoxfs"@.len() != "rtl8139d"@.len());
        reveal_strlit("rtl8168d");
        assert("redoxfs"@.len() != "rtl8168d"@.len());
        reveal_strlit("ixgbed");
        assert("redoxfs"@.len() != "ixgbed"@.len());
        reveal_strlit("virtio-netd");
        assert("redoxfs"@.len() != "virtio-netd"@.len());
        reveal_strlit("usbnetd");
        assert("redoxfs"@[0] != "usbnetd"@[0]);
        reveal_strlit("smolnetd");
        assert("redoxfs"@.len() != "smolnetd"@.len());
        reveal_strlit("netstack");
        assert("redoxfs"@.len() != "netstack"@.len());
        reveal_strlit("dnsd");
        assert("redoxfs"@.len() != "dnsd"@.len());
        reveal_strlit("dhcpd");
        assert("redoxfs"@.len() != "dhcpd"@.len());
        reveal_strlit("randd");
        assert("redoxfs"@.len() != "randd"@.len());
        reveal_strlit("rtcd");
        assert("redoxfs"@.len() != "rtcd"@.len());
        reveal_strlit("audiod");
        assert("redoxfs"@.len() != "audiod"@.len());
        reveal_strlit("ihdad");
        assert("redoxfs"@.len() != "ihdad"@.len());
        reveal_strlit("ac97d");
        assert("redoxfs"@.len() != "ac97d"@.len());
        reveal_strlit("logd");
        assert("redoxfs"@.len() != "logd"@.len());
        reveal_strlit("ramfs");
        assert("redoxfs"@.len() != "ramfs"@.len());
    }
    assert(description_of("ion"@) == "shell"@) by {
        reveal_strlit("ion");
        reveal_strlit("kmain");
        assert("ion"@.len() != "kmain"@.len());
        reveal_strlit("bootstrap");
        assert("ion"@.len() != "bootstrap"@.len());
        reveal_strlit("kernel");
        assert("ion"@.len() != "kernel"@.len());
        reveal_strlit("init");
        assert("ion"@.len() != "init"@.len());
        reveal_strlit("initfs");
        assert("ion"@.len() != "initfs"@.len());
        reveal_strlit("pcid");
        assert("ion"@.len() != "pcid"@.len());
        reveal_strlit("orbital");
        assert("ion"@.len() != "orbital"@.len());
        reveal_strlit("orblogin");
        assert("ion"@.len() != "orblogin"@.len());
        reveal_strlit("launcher");
        assert("ion"@.len() != "launcher"@.len());
        reveal_strlit("background");
        assert("ion"@.len() != "background"@.len());
        reveal_strlit("vesad");
        assert("ion"@.len() != "vesad"@.len());
        reveal_strlit("fbcond");
        assert("ion"@.len() != "fbcond"@.len());
        reveal_strlit("inputd");
        assert("ion"@.len() != "inputd"@.len());
        reveal_strlit("nvmed");
        assert("ion"@.len() != "nvmed"@.len());
        reveal_strlit("ahcid");
        assert("ion"@.len() != "ahcid"@.len());
        reveal_strlit("usbhidd");
        assert("ion"@.len() != "usbhidd"@.len());
        reveal_strlit("usbscsid");
        assert("ion"@.len() != "usbscsid"@.len());
        reveal_strlit("xhcid");
        assert("ion"@.len() != "xhcid"@.len());
        reveal_strlit("e1000d");
        assert("ion"@.len() != "e1000d"@.len());
        reveal_strlit("rtl8139d");
        assert("ion"@.len() != "rtl8139d"@.len());
        reveal_strlit("rtl8168d");
        assert("ion"@.len() != "rtl8168d"@.len());
        reveal_strlit("ixgbed");
        assert("ion"@.len() != "ixgbed"@.len());
        reveal_strlit("virtio-netd");
        assert("ion"@.len() != "virtio-netd"@.len());
        reveal_strlit("usbnetd");
        assert("ion"@.len() != "usbnetd"@.len());
        reveal_strlit("smolnetd");
        assert("ion"@.len() != "smolnetd"@.len());
        reveal_strlit("netstack");
        assert("ion"@.len() != "netstack"@.len());
        reveal_strlit("dnsd");
        assert("ion"@.len() != "dnsd"@.len());
        reveal_strlit("dhcpd");
        assert("ion"@.len() != "dhcpd"@.len());
        reveal_strlit("randd");
        assert("ion"@.len() != "randd"@.len());
        reveal_strlit("rtcd");
        assert("ion"@.len() != "rtcd"@.len());
        reveal_strlit("audiod");
        assert("ion"@.len() != "audiod"@.len());
        reveal_strlit("ihdad");
        assert("ion"@.len() != "ihdad"@.len());
        reveal_strlit("ac97d");
        assert("ion"@.len() != "ac97d"@.len());
        reveal_strlit("logd");
        assert("ion"@.len() != "logd"@.len());
        reveal_strlit("ramfs");
        assert("ion"@.len() != "ramfs"@.len());
        reveal_strlit("redoxfs");
        assert("ion"@.len() != "redoxfs"@.len());
    }
    assert(description_of("sh"@) == "shell"@) by {
        reveal_strlit("sh");
        reveal_strlit("kmain");
        assert("sh"@.len() != "kmain"@.len());
        reveal_strlit("bootstrap");
        assert("sh"@.len() != "bootstrap"@.len());
        reveal_strlit("kernel");
        assert("sh"@.len() != "kernel"@.len());
        reveal_strlit("init");
        assert("sh"@.len() != "init"@.len());
        reveal_strlit("initfs");
        assert("sh"@.len() != "initfs"@.len());
        reveal_strlit("pcid");
        assert("sh"@.len() != "pcid"@.len());
        reveal_strlit("orbital");
        assert("sh"@.len() != "orbital"@.len());
        reveal_strlit("orblogin");
        assert("sh"@.len() != "orblogin"@.len());
        reveal_strlit("launcher");
        assert("sh"@.len() != "launcher"@.len());
        reveal_strlit("background");
        assert("sh"@.len() != "background"@.len());
        reveal_strlit("vesad");
        assert("sh"@.len() != "vesad"@.len());
        reveal_strlit("fbcond");
        assert("sh"@.len() != "fbcond"@.len());
        reveal_strlit("inputd");
        assert("sh"@.len() != "inputd"@.len());
        reveal_strlit("nvmed");
        assert("sh"@.len() != "nvmed"@.len());
        reveal_strlit("ahcid");
        assert("sh"@.len() != "ahcid"@.len());
        reveal_strlit("usbhidd");
        assert("sh"@.len() != "usbhidd"@.len());
        reveal_strlit("usbscsid");
        assert("sh"@.len() != "usbscsid"@.len());
        reveal_strlit("xhcid");
        assert("sh"@.len() != "xhcid"@.len());
        reveal_strlit("e1000d");
        assert("sh"@.len() != "e1000d"@.len());
        reveal_strlit("rtl8139d");
        assert("sh"@.len() != "rtl8139d"@.len());
        reveal_strlit("rtl8168d");
        assert("sh"@.len() != "rtl8168d"@.len());
        reveal_strlit("ixgbed");
        assert("sh"@.len() != "ixgbed"@.len());
        reveal_strlit("virtio-netd");
        assert("sh"@.len() != "virtio-netd"@.len());
        reveal_strlit("usbnetd");
        assert("sh"@.len() != "usbnetd"@.len());
        reveal_strlit("smolnetd");
        assert("sh"@.len() != "smolnetd"@.len());
        reveal_strlit("netstack");
        assert("sh"@.len() != "netstack"@.len());
        reveal_strlit("dnsd");
        assert("sh"@.len() != "dnsd"@.len());
        reveal_strlit("dhcpd");
        assert("sh"@.len() != "dhcpd"@.len());
        reveal_strlit("randd");
        assert("sh"@.len() != "randd"@.len());
        reveal_strlit("rtcd");
        assert("sh"@.len() != "rtcd"@.len());
        reveal_strlit("audiod");
        assert("sh"@.len() != "audiod"@.len());
        reveal_strlit("ihdad");
        assert("sh"@.len() != "ihdad"@.len());
        reveal_strlit("ac97d");
        assert("sh"@.len() != "ac97d"@.len());
        reveal_strlit("logd");
        assert("sh"@.len() != "logd"@.len());
        reveal_strlit("ramfs");
        assert("sh"@.len() != "ramfs"@.len());
        reveal_strlit("redoxfs");
        assert("sh"@.len() != "redoxfs"@.len());
        reveal_strlit("ion");
        assert("sh"@.len() != "ion"@.len());
    }
    assert(description_of("getty"@) == "login prompt"@) by {
        reveal_strlit("getty");
        reveal_strlit("kmain");
        assert("getty"@[0] != "kmain"@[0]);
        reveal_strlit("bootstrap");
        assert("getty"@.len() != "bootstrap"@.len());
        reveal_strlit("kernel");
        assert("getty"@.len() != "kernel"@.len());
        reveal_strlit("init");
        assert("getty"@.len() != "init"@.len());
        reveal_strlit("initfs");
        assert("getty"@.len() != "initfs"@.len());
        reveal_strlit("pcid");
        assert("getty"@.len() != "pcid"@.len());
        reveal_strlit("orbital");
        assert("getty"@.len() != "orbital"@.len());
        reveal_strlit("orblogin");
        assert("getty"@.len() != "orblogin"@.len());
        reveal_strlit("launcher");
        assert("getty"@.len() != "launcher"@.len());
        reveal_strlit("background");
        assert("getty"@.len() != "background"@.len());
        reveal_strlit("vesad");
        assert("getty"@[0] != "vesad"@[0]);
        reveal_strlit("fbcond");
        assert("getty"@.len() != "fbcond"@.len());
        reveal_strlit("inputd");
        assert("getty"@.len() != "inputd"@.len());
        reveal_strlit("nvmed");
        assert("getty"@[0] != "nvmed"@[0]);
        reveal_strlit("ahcid");
        assert("getty"@[0] != "ahcid"@[0]);
        reveal_strlit("usbhidd");
        assert("getty"@.len() != "usbhidd"@.len());
        reveal_strlit("usbscsid");
        assert("getty"@.len() != "usbscsid"@.len());
        reveal_strlit("xhcid");
        assert("getty"@[0] != "xhcid"@[0]);
        reveal_strlit("e1000d");
        assert("getty"@.len() != "e1000d"@.len());
        reveal_strlit("rtl8139d");
        assert("getty"@.len() != "rtl8139d"@.len());
        reveal_strlit("rtl8168d");
        assert("getty"@.len() != "rtl8168d"@.len());
        reveal_strlit("ixgbed");
        assert("getty"@.len() != "ixgbed"@.len());
        reveal_strlit("virtio-netd");
        assert("getty"@.len() != "virtio-netd"@.len());
        reveal_strlit("usbnetd");
        assert("getty"@.len() != "usbnetd"@.len());
        reveal_strlit("smolnetd");
        assert("getty"@.len() != "smolnetd"@.len());
        reveal_strlit("netstack");
        assert("getty"@.len() != "netstack"@.len());
        reveal_strlit("dnsd");
        assert("getty"@.len() != "dnsd"@.len());
        reveal_strlit("dhcpd");
        assert("getty"@[0] != "dhcpd"@[0]);
        reveal_strlit("randd");
        assert("getty"@[0] != "randd"@[0]);
        reveal_strlit("rtcd");
        assert("getty"@.len() != "rtcd"@.len());
        reveal_strlit("audiod");
        assert("getty"@.len() != "audiod"@.len());
        reveal_strlit("ihdad");
        assert("getty"@[0] != "ihdad"@[0]);
        reveal_strlit("ac97d");
        assert("getty"@[0] != "ac97d"@[0]);
        reveal_strlit("logd");
        assert("getty"@.len() != "logd"@.len());
        reveal_strlit("ramfs");
        assert("getty"@[0] != "ramfs"@[0]);
        reveal_strlit("redoxfs");
        assert("getty"@.len() != "redoxfs"@.len());
        reveal_strlit("ion");
        assert("getty"@.len() != "ion"@.len());
        reveal_strlit("sh");
        assert("getty"@.len() != "sh"@.len());
    }
    assert(description_of("login"@) == "login prompt"@) by {
        reveal_strlit("login");
        reveal_strlit("kmain");
        assert("login"@[0] != "kmain"@[0]);
        reveal_strlit("bootstrap");
        assert("login"@.len() != "bootstrap"@.len());
        reveal_strlit("kernel");
        assert("login"@.len() != "kernel"@.len());
        reveal_strlit("init");
        assert("login"@.len() != "init"@.len());
        reveal_strlit("initfs");
        assert("login"@.len() != "initfs"@.len());
        reveal_strlit("pcid");
        assert("login"@.len() != "pcid"@.len());
        reveal_strlit("orbital");
        assert("login"@.len() != "orbital"@.len());
        reveal_strlit("orblogin");
        assert("login"@.len() != "orblogin"@.len());
        reveal_strlit("launcher");
        assert("login"@.len() != "launcher"@.len());
        reveal_strlit("background");
        assert("login"@.len() != "background"@.len());
        reveal_strlit("vesad");
        assert("login"@[0] != "vesad"@[0]);
        reveal_strlit("fbcond");
        assert("login"@.len() != "fbcond"@.len());
        reveal_strlit("inputd");
        assert("login"@.len() != "inputd"@.len());
        reveal_strlit("nvmed");
        assert("login"@[0] != "nvmed"@[0]);
        reveal_strlit("ahcid");
        assert("login"@[0] != "ahcid"@[0]);
        reveal_strlit("usbhidd");
        assert("login"@.len() != "usbhidd"@.len());
        reveal_strlit("usbscsid");
        assert("login"@.len() != "usbscsid"@.len());
        reveal_strlit("xhcid");
        assert("login"@[0] != "xhcid"@[0]);
        reveal_strlit("e1000d");
        assert("login"@.len() != "e1000d"@.len());
        reveal_strlit("rtl8139d");
        assert("login"@.len() != "rtl8139d"@.len());
        reveal_strlit("rtl8168d");
        assert("login"@.len() != "rtl8168d"@.len());
        reveal_strlit("ixgbed");
        assert("login"@.len() != "ixgbed"@.len());
        reveal_strlit("virtio-netd");
        assert("login"@.len() != "virtio-netd"@.len());
        reveal_strlit("usbnetd");
        assert("login"@.len() != "usbnetd"@.len());
        reveal_strlit("smolnetd");
        assert("login"@.len() != "smolnetd"@.len());
        reveal_strlit("netstack");
        assert("login"@.len() != "netstack"@.len());
        reveal_strlit("dnsd");
        assert("login"@.len() != "dnsd"@.len());
        reveal_strlit("dhcpd");
        assert("login"@[0] != "dhcpd"@[0]);
        reveal_strlit("randd");
        assert("login"@[0] != "randd"@[0]);
        reveal_strlit("rtcd");
        assert("login"@.len() != "rtcd"@.len());
        reveal_strlit("audiod");
        assert("login"@.len() != "audiod"@.len());
        reveal_strlit("ihdad");
        assert("login"@[0] != "ihdad"@[0]);
        reveal_strlit("ac97d");
        assert("login"@[0] != "ac97d"@[0]);
        reveal_strlit("logd");
        assert("login"@.len() != "logd"@.len());
        reveal_strlit("ramfs");
        assert("login"@[0] != "ramfs"@[0]);
        reveal_strlit("redoxfs");
        assert("login"@.len() != "redoxfs"@.len());
        reveal_strlit("ion");
        assert("login"@.len() != "ion"@.len());
        reveal_strlit("sh");
        assert("login"@.len() != "sh"@.len());
        reveal_strlit("getty");
        assert("login"@[0] != "getty"@[0]);
    }
    assert(description_of("eos-notes"@) == "E-OS Notes"@) by {
        reveal_strlit("eos-notes");
        reveal_strlit("kmain");
        assert("eos-notes"@.len() != "kmain"@.len());
        reveal_strlit("bootstrap");
        assert("eos-notes"@[0] != "bootstrap"@[0]);
        reveal_strlit("kernel");
        assert("eos-notes"@.len() != "kernel"@.len());
        reveal_strlit("init");
        assert("eos-notes"@.len() != "init"@.len());
        reveal_strlit("initfs");
        assert("eos-notes"@.len() != "initfs"@.len());
        reveal_strlit("pcid");
        assert("eos-notes"@.len() != "pcid"@.len());
        reveal_strlit("orbital");
        assert("eos-notes"@.len() != "orbital"@.len());
        reveal_strlit("orblogin");
        assert("eos-notes"@.len() != "orblogin"@.len());
        reveal_strlit("launcher");
        assert("eos-notes"@.len() != "launcher"@.len());
        reveal_strlit("background");
        assert("eos-notes"@.len() != "background"@.len());
        reveal_strlit("vesad");
        assert("eos-notes"@.len() != "vesad"@.len());
        reveal_strlit("fbcond");
        assert("eos-notes"@.len() != "fbcond"@.len());
        reveal_strlit("inputd");
        assert("eos-notes"@.len() != "inputd"@.len());
        reveal_strlit("nvmed");
        assert("eos-notes"@.len() != "nvmed"@.len());
        reveal_strlit("ahcid");
        assert("eos-notes"@.len() != "ahcid"@.len());
        reveal_strlit("usbhidd");
        assert("eos-notes"@.len() != "usbhidd"@.len());
        reveal_strlit("usbscsid");
        assert("eos-notes"@.len() != "usbscsid"@.len());
        reveal_strlit("xhcid");
        assert("eos-notes"@.len() != "xhcid"@.len());
        reveal_strlit("e1000d");
        assert("eos-notes"@.len() != "e1000d"@.len());
        reveal_strlit("rtl8139d");
        assert("eos-notes"@.len() != "rtl8139d"@.len());
        reveal_strlit("rtl8168d");
        assert("eos-notes"@.len() != "rtl8168d"@.len());
        reveal_strlit("ixgbed");
        assert("eos-notes"@.len() != "ixgbed"@.len());
        reveal_strlit("virtio-netd");
        assert("eos-notes"@.len() != "virtio-netd"@.len());
        reveal_strlit("usbnetd");
        assert("eos-notes"@.len() != "usbnetd"@.len());
        reveal_strlit("smolnetd");
        assert("eos-notes"@.len() != "smolnetd"@.len());
        reveal_strlit("netstack");
        assert("eos-notes"@.len() != "netstack"@.len());
        reveal_strlit("dnsd");
        assert("eos-notes"@.len() != "dnsd"@.len());
        reveal_strlit("dhcpd");
        assert("eos-notes"@.len() != "dhcpd"@.len());
        reveal_strlit("randd");
        assert("eos-notes"@.len() != "randd"@.len());
        reveal_strlit("rtcd");
        assert("eos-notes"@.len() != "rtcd"@.len());
        reveal_strlit("audiod");
        assert("eos-notes"@.len() != "audiod"@.len());
        reveal_strlit("ihdad");
        assert("eos-notes"@.len() != "ihdad"@.len());
        reveal_strlit("ac97d");
        assert("eos-notes"@.len() != "ac97d"@.len());
        reveal_strlit("logd");
        assert("eos-notes"@.len() != "logd"@.len());
        reveal_strlit("ramfs");
        assert("eos-notes"@.len() != "ramfs"@.len());
        reveal_strlit("redoxfs");
        assert("eos-notes"@.len() != "redoxfs"@.len());
        reveal_strlit("ion");
        assert("eos-notes"@.len() != "ion"@.len());
        reveal_strlit("sh");
        assert("eos-notes"@.len() != "sh"@.len());
        reveal_strlit("getty");
        assert("eos-notes"@.len() != "getty"@.len());
        reveal_strlit("login");
        assert("eos-notes"@.len() != "login"@.len());
    }
    assert(description_of("eos-guard"@) == "E-OS Guard (integrity monitor)"@) by {
        reveal_strlit("eos-guard");
        reveal_strlit("kmain");
        assert("eos-guard"@.len() != "kmain"@.len());
        reveal_strlit("bootstrap");
        assert("eos-guard"@[0] != "bootstrap"@[0]);
        reveal_strlit("kernel");
        assert("eos-guard"@.len() != "kernel"@.len());
        reveal_strlit("init");
        assert("eos-guard"@.len() != "init"@.len());
        reveal_strlit("initfs");
        assert("eos-guard"@.len() != "initfs"@.len());
        reveal_strlit("pcid");
        assert("eos-guard"@.len() != "pcid"@.len());
        reveal_strlit("orbital");
        assert("eos-guard"@.len() != "orbital"@.len());
        reveal_strlit("orblogin");
        assert("eos-guard"@.len() != "orblogin"@.len());
        reveal_strlit("launcher");
        assert("eos-guard"@.len() != "launcher"@.len());
        reveal_strlit("background");
        assert("eos-guard"@.len() != "background"@.len());
        reveal_strlit("vesad");
        assert("eos-guard"@.len() != "vesad"@.len());
        reveal_strlit("fbcond");
        assert("eos-guard"@.len() != "fbcond"@.len());
        reveal_strlit("inputd");
        assert("eos-guard"@.len() != "inputd"@.len());
        reveal_strlit("nvmed");
        assert("eos-guard"@.len() != "nvmed"@.len());
        reveal_strlit("ahcid");
        assert("eos-guard"@.len() != "ahcid"@.len());
        reveal_strlit("usbhidd");
        assert("eos-guard"@.len() != "usbhidd"@.len());
        reveal_strlit("usbscsid");
        assert("eos-guard"@.len() != "usbscsid"@.len());
        reveal_strlit("xhcid");
        assert("eos-guard"@.len() != "xhcid"@.len());
        reveal_strlit("e1000d");
        assert("eos-guard"@.len() != "e1000d"@.len());
        reveal_strlit("rtl8139d");
        assert("eos-guard"@.len() != "rtl8139d"@.len());
        reveal_strlit("rtl8168d");
        assert("eos-guard"@.len() != "rtl8168d"@.len());
        reveal_strlit("ixgbed");
        assert("eos-guard"@.len() != "ixgbed"@.len());
        reveal_strlit("virtio-netd");
        assert("eos-guard"@.len() != "virtio-netd"@.len());
        reveal_strlit("usbnetd");
        assert("eos-guard"@.len() != "usbnetd"@.len());
        reveal_strlit("smolnetd");
        assert("eos-guard"@.len() != "smolnetd"@.len());
        reveal_strlit("netstack");
        assert("eos-guard"@.len() != "netstack"@.len());
        reveal_strlit("dnsd");
        assert("eos-guard"@.len() != "dnsd"@.len());
        reveal_strlit("dhcpd");
        assert("eos-guard"@.len() != "dhcpd"@.len());
        reveal_strlit("randd");
        assert("eos-guard"@.len() != "randd"@.len());
        reveal_strlit("rtcd");
        assert("eos-guard"@.len() != "rtcd"@.len());
        reveal_strlit("audiod");
        assert("eos-guard"@.len() != "audiod"@.len());
        reveal_strlit("ihdad");
        assert("eos-guard"@.len() != "ihdad"@.len());
        reveal_strlit("ac97d");
        assert("eos-guard"@.len() != "ac97d"@.len());
        reveal_strlit("logd");
        assert("eos-guard"@.len() != "logd"@.len());
        reveal_strlit("ramfs");
        assert("eos-guard"@.len() != "ramfs"@.len());
        reveal_strlit("redoxfs");
        assert("eos-guard"@.len() != "redoxfs"@.len());
        reveal_strlit("ion");
        assert("eos-guard"@.len() != "ion"@.len());
        reveal_strlit("sh");
        assert("eos-guard"@.len() != "sh"@.len());
        reveal_strlit("getty");
        assert("eos-guard"@.len() != "getty"@.len());
        reveal_strlit("login");
        assert("eos-guard"@.len() != "login"@.len());
        reveal_strlit("eos-notes");
        assert("eos-guard"@[4] != "eos-notes"@[4]);
    }
    assert(description_of("eos-sysmon"@) == "E-OS Control (this app)"@) by {
        reveal_strlit("eos-sysmon");
        reveal_strlit("kmain");
        assert("eos-sysmon"@.len() != "kmain"@.len());
        reveal_strlit("bootstrap");
        assert("eos-sysmon"@.len() != "bootstrap"@.len());
        reveal_strlit("kernel");
        assert("eos-sysmon"@.len() != "kernel"@.len());
        reveal_strlit("init");
        assert("eos-sysmon"@.len() != "init"@.len());
        reveal_strlit("initfs");
        assert("eos-sysmon"@.len() != "initfs"@.len());
        reveal_strlit("pcid");
        assert("eos-sysmon"@.len() != "pcid"@.len());
        reveal_strlit("orbital");
        assert("eos-sysmon"@.len() != "orbital"@.len());
        reveal_strlit("orblogin");
        assert("eos-sysmon"@.len() != "orblogin"@.len());
        reveal_strlit("launcher");
        assert("eos-sysmon"@.len() != "launcher"@.len());
        reveal_strlit("background");
        assert("eos-sysmon"@[0] != "background"@[0]);
        reveal_strlit("vesad");
        assert("eos-sysmon"@.len() != "vesad"@.len());
        reveal_strlit("fbcond");
        assert("eos-sysmon"@.len() != "fbcond"@.len());
        reveal_strlit("inputd");
        assert("eos-sysmon"@.len() != "inputd"@.len());
        reveal_strlit("nvmed");
        assert("eos-sysmon"@.len() != "nvmed"@.len());
        reveal_strlit("ahcid");
        assert("eos-sysmon"@.len() != "ahcid"@.len());
        reveal_strlit("usbhidd");
        assert("eos-sysmon"@.len() != "usbhidd"@.len());
        reveal_strlit("usbscsid");
        assert("eos-sysmon"@.len() != "usbscsid"@.len());
        reveal_strlit("xhcid");
        assert("eos-sysmon"@.len() != "xhcid"@.len());
        reveal_strlit("e1000d");
        assert("eos-sysmon"@.len() != "e1000d"@.len());
        reveal_strlit("rtl8139d");
        assert("eos-sysmon"@.len() != "rtl8139d"@.len());
        reveal_strlit("rtl8168d");
        assert("eos-sysmon"@.len() != "rtl8168d"@.len());
        reveal_strlit("ixgbed");
        assert("eos-sysmon"@.len() != "ixgbed"@.len());
        reveal_strlit("virtio-netd");
        assert("eos-sysmon"@.len() != "virtio-netd"@.len());
        reveal_strlit("usbnetd");
        assert("eos-sysmon"@.len() != "usbnetd"@.len());
        reveal_strlit("smolnetd");
        assert("eos-sysmon"@.len() != "smolnetd"@.len());
        reveal_strlit("netstack");
        assert("eos-sysmon"@.len() != "netstack"@.len());
        reveal_strlit("dnsd");
        assert("eos-sysmon"@.len() != "dnsd"@.len());
        reveal_strlit("dhcpd");
        assert("eos-sysmon"@.len() != "dhcpd"@.len());
        reveal_strlit("randd");
        assert("eos-sysmon"@.len() != "randd"@.len());
        reveal_strlit("rtcd");
        assert("eos-sysmon"@.len() != "rtcd"@.len());
        reveal_strlit("audiod");
        assert("eos-sysmon"@.len() != "audiod"@.len());
        reveal_strlit("ihdad");
        assert("eos-sysmon"@.len() != "ihdad"@.len());
        reveal_strlit("ac97d");
        assert("eos-sysmon"@.len() != "ac97d"@.len());
        reveal_strlit("logd");
        assert("eos-sysmon"@.len() != "logd"@.len());
        reveal_strlit("ramfs");
        assert("eos-sysmon"@.len() != "ramfs"@.len());
        reveal_strlit("redoxfs");
        assert("eos-sysmon"@.len() != "redoxfs"@.len());
        reveal_strlit("ion");
        assert("eos-sysmon"@.len() != "ion"@.len());
        reveal_strlit("sh");
        assert("eos-sysmon"@.len() != "sh"@.len());
        reveal_strlit("getty");
        assert("eos-sysmon"@.len() != "getty"@.len());
        reveal_strlit("login");
        assert("eos-sysmon"@.len() != "login"@.len());
        reveal_strlit("eos-notes");
        assert("eos-sysmon"@.len() != "eos-notes"@.len());
        reveal_strlit("eos-guard");
        assert("eos-sysmon"@.len() != "eos-guard"@.len());
    }
    assert(description_of("eos-control"@) == "E-OS Control (this app)"@) by {
        reveal_strlit("eos-control");
        reveal_strlit("kmain");
        assert("eos-control"@.len() != "kmain"@.len());
        reveal_strlit("bootstrap");
        assert("eos-control"@.len() != "bootstrap"@.len());
        reveal_strlit("kernel");
        assert("eos-control"@.len() != "kernel"@.len());
        reveal_strlit("init");
        assert("eos-control"@.len() != "init"@.len());
        reveal_strlit("initfs");
        assert("eos-control"@.len() != "initfs"@.len());
        reveal_strlit("pcid");
        assert("eos-control"@.len() != "pcid"@.len());
        reveal_strlit("orbital");
        assert("eos-control"@.len() != "orbital"@.len());
        reveal_strlit("orblogin");
        assert("eos-control"@.len() != "orblogin"@.len());
        reveal_strlit("launcher");
        assert("eos-control"@.len() != "launcher"@.len());
        reveal_strlit("background");
        assert("eos-control"@.len() != "background"@.len());
        reveal_strlit("vesad");
        assert("eos-control"@.len() != "vesad"@.len());
        reveal_strlit("fbcond");
        assert("eos-control"@.len() != "fbcond"@.len());
        reveal_strlit("inputd");
        assert("eos-control"@.len() != "inputd"@.len());
        reveal_strlit("nvmed");
        assert("eos-control"@.len() != "nvmed"@.len());
        reveal_strlit("ahcid");
        assert("eos-control"@.len() != "ahcid"@.len());
        reveal_strlit("usbhidd");
        assert("eos-control"@.len() != "usbhidd"@.len());
        reveal_strlit("usbscsid");
        assert("eos-control"@.len() != "usbscsid"@.len());
        reveal_strlit("xhcid");
        assert("eos-control"@.len() != "xhcid"@.len());
        reveal_strlit("e1000d");
        assert("eos-control"@.len() != "e1000d"@.len());
        reveal_strlit("rtl8139d");
        assert("eos-control"@.len() != "rtl8139d"@.len());
        reveal_strlit("rtl8168d");
        assert("eos-control"@.len() != "rtl8168d"@.len());
        reveal_strlit("ixgbed");
        assert("eos-control"@.len() != "ixgbed"@.len());
        reveal_strlit("virtio-netd");
        assert("eos-control"@[0] != "virtio-netd"@[0]);
        reveal_strlit("usbnetd");
        assert("eos-control"@.len() != "usbnetd"@.len());
        reveal_strlit("smolnetd");
        assert("eos-control"@.len() != "smolnetd"@.len());
        reveal_strlit("netstack");
        assert("eos-control"@.len() != "netstack"@.len());
        reveal_strlit("dnsd");
        assert("eos-control"@.len() != "dnsd"@.len());
        reveal_strlit("dhcpd");
        assert("eos-control"@.len() != "dhcpd"@.len());
        reveal_strlit("randd");
        assert("eos-control"@.len() != "randd"@.len());
        reveal_strlit("rtcd");
        assert("eos-control"@.len() != "rtcd"@.len());
        reveal_strlit("audiod");
        assert("eos-control"@.len() != "audiod"@.len());
        reveal_strlit("ihdad");
        assert("eos-control"@.len() != "ihdad"@.len());
        reveal_strlit("ac97d");
        assert("eos-control"@.len() != "ac97d"@.len());
        reveal_strlit("logd");
        assert("eos-control"@.len() != "logd"@.len());
        reveal_strlit("ramfs");
        assert("eos-control"@.len() != "ramfs"@.len());
        reveal_strlit("redoxfs");
        assert("eos-control"@.len() != "redoxfs"@.len());
        reveal_strlit("ion");
        assert("eos-control"@.len() != "ion"@.len());
        reveal_strlit("sh");
        assert("eos-control"@.len() != "sh"@.len());
        reveal_strlit("getty");
        assert("eos-control"@.len() != "getty"@.len());
        reveal_strlit("login");
        assert("eos-control"@.len() != "login"@.len());
        reveal_strlit("eos-notes");
        assert("eos-control"@.len() != "eos-notes"@.len());
        reveal_strlit("eos-guard");
        assert("eos-control"@.len() != "eos-guard"@.len());
        reveal_strlit("eos-sysmon");
        assert("eos-control"@.len() != "eos-sysmon"@.len());
    }
    assert(description_of("eos-settings"@) == "E-OS Settings"@) by {
        reveal_strlit("eos-settings");
        reveal_strlit("kmain");
        assert("eos-settings"@.len() != "kmain"@.len());
        reveal_strlit("bootstrap");
        assert("eos-settings"@.len() != "bootstrap"@.len());
        reveal_strlit("kernel");
        assert("eos-settings"@.len() != "kernel"@.len());
        reveal_strlit("init");
        assert("eos-settings"@.len() != "init"@.len());
        reveal_strlit("initfs");
        assert("eos-settings"@.len() != "initfs"@.len());
        reveal_strlit("pcid");
        assert("eos-settings"@.len() != "pcid"@.len());
        reveal_strlit("orbital");
        assert("eos-settings"@.len() != "orbital"@.len());
        reveal_strlit("orblogin");
        assert("eos-settings"@.len() != "orblogin"@.len());
        reveal_strlit("launcher");
        assert("eos-settings"@.len() != "launcher"@.len());
        reveal_strlit("background");
        assert("eos-settings"@.len() != "background"@.len());
        reveal_strlit("vesad");
        assert("eos-settings"@.len() != "vesad"@.len());
        reveal_strlit("fbcond");
        assert("eos-settings"@.len() != "fbcond"@.len());
        reveal_strlit("inputd");
        assert("eos-settings"@.len() != "inputd"@.len());
        reveal_strlit("nvmed");
        assert("eos-settings"@.len() != "nvmed"@.len());
        reveal_strlit("ahcid");
        assert("eos-settings"@.len() != "ahcid"@.len());
        reveal_strlit("usbhidd");
        assert("eos-settings"@.len() != "usbhidd"@.len());
        reveal_strlit("usbscsid");
        assert("eos-settings"@.len() != "usbscsid"@.len());
        reveal_strlit("xhcid");
        assert("eos-settings"@.len() != "xhcid"@.len());
        reveal_strlit("e1000d");
        assert("eos-settings"@.len() != "e1000d"@.len());
        reveal_strlit("rtl8139d");
        assert("eos-settings"@.len() != "rtl8139d"@.len());
        reveal_strlit("rtl8168d");
        assert("eos-settings"@.len() != "rtl8168d"@.len());
        reveal_strlit("ixgbed");
        assert("eos-settings"@.len() != "ixgbed"@.len());
        reveal_strlit("virtio-netd");
        assert("eos-settings"@.len() != "virtio-netd"@.len());
        reveal_strlit("usbnetd");
        assert("eos-settings"@.len() != "usbnetd"@.len());
        reveal_strlit("smolnetd");
        assert("eos-settings"@.len() != "smolnetd"@.len());
        reveal_strlit("netstack");
        assert("eos-settings"@.len() != "netstack"@.len());
        reveal_strlit("dnsd");
        assert("eos-settings"@.len() != "dnsd"@.len());
        reveal_strlit("dhcpd");
        assert("eos-settings"@.len() != "dhcpd"@.len());
        reveal_strlit("randd");
        assert("eos-settings"@.len() != "randd"@.len());
        reveal_strlit("rtcd");
        assert("eos-settings"@.len() != "rtcd"@.len());
        reveal_strlit("audiod");
        assert("eos-settings"@.len() != "audiod"@.len());
        reveal_strlit("ihdad");
        assert("eos-settings"@.len() != "ihdad"@.len());
        reveal_strlit("ac97d");
        assert("eos-settings"@.len() != "ac97d"@.len());
        reveal_strlit("logd");
        assert("eos-settings"@.len() != "logd"@.len());
        reveal_strlit("ramfs");
        assert("eos-settings"@.len() != "ramfs"@.len());
        reveal_strlit("redoxfs");
        assert("eos-settings"@.len() != "redoxfs"@.len());
        reveal_strlit("ion");
        assert("eos-settings"@.len() != "ion"@.len());
        reveal_strlit("sh");
        assert("eos-settings"@.len() != "sh"@.len());
        reveal_strlit("getty");
        assert("eos-settings"@.len() != "getty"@.len());
        reveal_strlit("login");
        assert("eos-settings"@.len() != "login"@.len());
        reveal_strlit("eos-notes");
        assert("eos-settings"@.len() != "eos-notes"@.len());
        reveal_strlit("eos-guard");
        assert("eos-settings"@.len() != "eos-guard"@.len());
        reveal_strlit("eos-sysmon");
        assert("eos-settings"@.len() != "eos-sysmon"@.len());
        reveal_strlit("eos-control");
        assert("eos-settings"@.len() != "eos-control"@.len());
    }
}

/// Law: a process is described by its program name wherever it was started
/// from and however the kernel brackets it: for a name `b` with no `/` or `:`
/// that neither starts with `[` nor ends with `]`, the basename of `b`, of
/// `dir/b` for any `dir`, and of `[b]` is `b`.
pub proof fn law_base_name(dir: Seq<char>, b: Seq<char>)
    requires
        b.len() > 0,
        forall|i: int| 0 <= i < b.len() ==> !is_path_sep(#[trigger] b[i]),
        b[0] != '[',
        b[b.len() - 1] != ']',
    ensures
        base_name(b) == b,
        base_name(dir + seq!['/'] + b) == b,
        base_name(seq!['['] + b + seq![']']) == b,
{
    assert(b.subrange(0, b.len() as int) =~= b);
    lemma_base_of_tail(b, b);
    let p = dir + seq!['/'] + b;
    assert forall|i: int| p.len() - b.len() <= i < p.len() implies !is_path_sep(#[trigger] p[i]) by {
        assert(p[i] == b[i - (p.len() - b.len())]);
    }
    assert(p[p.len() - b.len() - 1] == '/');
    lemma_trail_len(p, |c: char| !is_path_sep(c), b.len() as int);
    assert(p.subrange(p.len() - b.len(), p.len() as int) =~= b);
    lemma_base_of_tail(p, b);
    let q = seq!['['] + b + seq![']'];
    assert forall|i: int| 0 <= i < q.len() implies !is_path_sep(#[trigger] q[i]) by {
        if 0 < i < q.len() - 1 {
            assert(q[i] == b[i - 1]);
        }
    }
    lemma_trail_len(q, |c: char| !is_path_sep(c), q.len() as int);
    assert(q.subrange(0, q.len() as int) =~= q);
    lemma_lead_len(q, |c: char| c == '[', 1);
    let u = q.subrange(1, q.len() as int);
    assert(u[u.len() - 2] == b[b.len() - 1]);
    lemma_trail_len(u, |c: char| c == ']', 1);
    assert(u.subrange(0, u.len() - 1) =~= b);
}

/// The basename of a text whose path-free tail is `b` (no brackets at its ends).
proof fn lemma_base_of_tail(s: Seq<char>, b: Seq<char>)
    requires
        b.len() > 0,
        b[0] != '[',
        b[b.len() - 1] != ']',
        trail_len(s, |c: char| !is_path_sep(c)) == b.len() || s == b,
        b.len() <= s.len(),
        s.subrange(s.len() - b.len(), s.len() as int) == b,
        forall|i: int| 0 <= i < b.len() ==> !is_path_sep(#[trigger] b[i]),
    ensures
        base_name(s) == b,
{
    if s == b {
        lemma_trail_len(s, |c: char| !is_path_sep(c), s.len() as int);
    }
    let k = trail_len(s, |c: char| !is_path_sep(c));
    assert(s.subrange(s.len() - k, s.len() as int) == b);
    lemma_lead_len(b, |c: char| c == '[', 0);
    assert(b.subrange(0, b.len() as int) =~= b);
    lemma_trail_len(b, |c: char| c == ']', 0);
    assert(b.subrange(0, b.len() as int) =~= b);
}

/// Law: any other name is unknown and gets no description (the list then
/// shows just the name).
pub proof fn law_unknown_names(b: Seq<char>)
    requires
        b != "kmain"@,
        b != "bootstrap"@,
        b != "kernel"@,
        b != "init"@,
        b != "initfs"@,
        b != "pcid"@,
        b != "orbital"@,
        b != "orblogin"@,
        b != "launcher"@,
        b != "background"@,
        b != "vesad"@,
        b != "fbcond"@,
        b != "inputd"@,
        b != "nvmed"@,
        b != "ahcid"@,
        b != "usbhidd"@,
        b != "usbscsid"@,
        b != "xhcid"@,
        b != "e1000d"@,
        b != "rtl8139d"@,
        b != "rtl8168d"@,
        b != "ixgbed"@,
        b != "virtio-netd"@,
        b != "usbnetd"@,
        b != "smolnetd"@,
        b != "netstack"@,
        b != "dnsd"@,
        b != "dhcpd"@,
        b != "randd"@,
        b != "rtcd"@,
        b != "audiod"@,
        b != "ihdad"@,
        b != "ac97d"@,
        b != "logd"@,
        b != "ramfs"@,
        b != "redoxfs"@,
        b != "ion"@,
        b != "sh"@,
        b != "getty"@,
        b != "login"@,
        b != "eos-notes"@,
        b != "eos-guard"@,
        b != "eos-sysmon"@,
        b != "eos-control"@,
        b != "eos-settings"@,
    ensures
        description_of(b) == ""@,
{
}

} // verus!
