use eos_control::labels::describe;

#[test]
fn describes_known_processes_by_basename() {
    assert_eq!(describe("/scheme/initfs/bin/pcid"), "PCI driver manager — probes devices, binds drivers");
    assert_eq!(describe("/usr/lib/drivers/e1000d"), "Ethernet NIC driver");
    assert_eq!(describe("[kmain]"), "kernel — the E-OS microkernel");
    assert_eq!(describe("initfs:/bin/init"), "init — brings up the system");
    assert_eq!(describe("file:orbital"), "desktop server — compositor + window manager");
    assert_eq!(describe("eos-control"), "E-OS Control (this app)");
    assert_eq!(describe("virtio-netd"), "virtual/USB network driver");
}

#[test]
fn unknown_processes_have_empty_description() {
    assert_eq!(describe("mystery"), "");
    assert_eq!(describe(""), "");
    assert_eq!(describe("/usr/bin/"), "");
    assert_eq!(describe("pcid "), "");
}
