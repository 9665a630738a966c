use telefork::maps::{
    find_map_named, hollow, is_special_kernel_map, should_skip_map,
    should_teleport_kernel_map_anyways, Mapping, JANKY_VDSO_TELEPORT,
};
use telefork::syscall::RemoteCall;
use telefork::PAGE_SIZE;

fn map(name: Option<&str>, perms: &str, addr: u64, size: u64) -> Mapping {
    Mapping {
        name: name.map(|n| n.to_string()),
        readable: perms.contains('r'),
        writeable: perms.contains('w'),
        executable: perms.contains('x'),
        addr,
        size,
    }
}

fn victim() -> Vec<Mapping> {
    vec![
        map(Some("/usr/bin/cat"), "r", 0x5555_0000_0000, 0x2000),
        map(Some("/usr/bin/cat"), "rx", 0x5555_0000_2000, 0x5000),
        map(Some("[heap]"), "rw", 0x5555_0100_0000, 0x21000),
        map(None, "rw", 0x7f00_0000_0000, 0x3000),
        map(None, "", 0x7f00_0000_3000, 0),
        map(Some("[stack]"), "rw", 0x7ffc_0000_0000, 0x21000),
        map(Some("[vvar]"), "r", 0x7ffd_0000_0000, 0x4000),
        map(Some("[vdso]"), "rx", 0x7ffd_0000_4000, 0x2000),
        map(Some("[vsyscall]"), "x", 0xffff_ffff_ff60_0000, 0x1000),
    ]
}

#[test]
fn page_is_4096_bytes() {
    assert_eq!(PAGE_SIZE, 4096);
}

#[test]
fn kernel_maps_are_known_by_name() {
    assert!(is_special_kernel_map(&map(Some("[vdso]"), "rx", 0, 4096)));
    assert!(is_special_kernel_map(&map(Some("[vsyscall]"), "x", 0, 4096)));
    assert!(is_special_kernel_map(&map(Some("[vvar]"), "r", 0, 4096)));
    assert!(!is_special_kernel_map(&map(Some("[heap]"), "rw", 0, 4096)));
    assert!(!is_special_kernel_map(&map(Some("[stack]"), "rw", 0, 4096)));
    assert!(!is_special_kernel_map(&map(Some("[vdso] "), "rx", 0, 4096)));
    assert!(!is_special_kernel_map(&map(Some("vdso"), "rx", 0, 4096)));
    assert!(!is_special_kernel_map(&map(Some(""), "rx", 0, 4096)));
    assert!(!is_special_kernel_map(&map(None, "rw", 0, 4096)));
}

#[test]
fn vdso_is_not_teleported_while_the_toggle_is_off() {
    assert!(!JANKY_VDSO_TELEPORT);
    assert!(!should_teleport_kernel_map_anyways(&map(Some("[vdso]"), "rx", 0, 4096)));
    assert!(!should_teleport_kernel_map_anyways(&map(Some("[vvar]"), "r", 0, 4096)));
    assert!(!should_teleport_kernel_map_anyways(&map(None, "r", 0, 4096)));
}

#[test]
fn unreadable_and_empty_maps_are_skipped() {
    assert!(should_skip_map(&map(Some("/lib/x.so"), "", 0x1000, 4096)));
    assert!(should_skip_map(&map(Some("/lib/x.so"), "wx", 0x1000, 4096)));
    assert!(should_skip_map(&map(Some("/lib/x.so"), "r", 0x1000, 0)));
    assert!(!should_skip_map(&map(Some("/lib/x.so"), "r", 0x1000, 4096)));
    assert!(!should_skip_map(&map(None, "rwx", 0x1000, 1)));
}

#[test]
fn permissions_become_the_bits_of_mmap() {
    assert_eq!(map(None, "", 0, 0).prot(), 0);
    assert_eq!(map(None, "r", 0, 0).prot(), 1);
    assert_eq!(map(None, "w", 0, 0).prot(), 2);
    assert_eq!(map(None, "x", 0, 0).prot(), 4);
    assert_eq!(map(None, "rw", 0, 0).prot(), 3);
    assert_eq!(map(None, "rx", 0, 0).prot(), 5);
    assert_eq!(map(None, "rwx", 0, 0).prot(), 7);
    assert_eq!(
        map(None, "rwx", 0, 0).prot(),
        (libc::PROT_READ | libc::PROT_WRITE | libc::PROT_EXEC) as u64
    );
}

#[test]
fn map_is_found_by_its_whole_name() {
    let m = map(Some("[vdso]"), "rx", 0, 4096);
    assert!(m.is_named("[vdso]"));
    assert!(!m.is_named("[vdso"));
    assert!(!m.is_named("[vdso]]"));
    assert!(!map(None, "rx", 0, 4096).is_named(""));
}

#[test]
fn first_map_of_a_name_is_found() {
    let maps = victim();
    assert_eq!(find_map_named(&maps, "[vdso]"), Some(7));
    assert_eq!(find_map_named(&maps, "/usr/bin/cat"), Some(0));
    assert_eq!(find_map_named(&maps, "[vvar]"), Some(6));
    assert_eq!(find_map_named(&maps, "[nope]"), None);
    assert_eq!(find_map_named(&Vec::new(), "[vdso]"), None);
}

#[test]
fn hollowing_unmaps_all_but_kernel_maps_and_empty_entries() {
    let calls = hollow(&victim());
    assert_eq!(
        calls,
        vec![
            RemoteCall::Munmap { addr: 0x5555_0000_0000, length: 0x2000 },
            RemoteCall::Munmap { addr: 0x5555_0000_2000, length: 0x5000 },
            RemoteCall::Munmap { addr: 0x5555_0100_0000, length: 0x21000 },
            RemoteCall::Munmap { addr: 0x7f00_0000_0000, length: 0x3000 },
            RemoteCall::Munmap { addr: 0x7ffc_0000_0000, length: 0x21000 },
        ]
    );
}

#[test]
fn hollowing_unmaps_unreadable_maps_too() {
    let calls = hollow(&vec![map(Some("/lib/guard"), "", 0x9000, 0x1000)]);
    assert_eq!(calls, vec![RemoteCall::Munmap { addr: 0x9000, length: 0x1000 }]);
}

#[test]
fn hollow_victim_needs_no_further_call() {
    let maps = victim();
    let left: Vec<Mapping> =
        maps.into_iter().filter(|m| is_special_kernel_map(m) || m.size == 0).collect();
    assert_eq!(left.len(), 4);
    assert_eq!(hollow(&left), Vec::new());
    assert_eq!(hollow(&Vec::new()), Vec::new());
}
