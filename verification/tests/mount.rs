use init_stage_1::error::{Error, ErrorClass};
use init_stage_1::mount::{
    mount, to_c_string, umount, MountCall, MountFlags, UmountCall, MNT_DETACH, MS_ALL, MS_DIRSYNC,
    MS_MANDLOCK, MS_MOVE, MS_NOATIME, MS_NODEV, MS_NODIRATIME, MS_NOEXEC, MS_NOSUID, MS_RDONLY,
    MS_RELATIME, MS_REMOUNT, MS_SYNCHRONOUS,
};

#[test]
fn flag_bits_are_those_of_the_kernel_interface() {
    assert_eq!(MS_RDONLY, libc::MS_RDONLY as u64);
    assert_eq!(MS_NOSUID, libc::MS_NOSUID as u64);
    assert_eq!(MS_NODEV, libc::MS_NODEV as u64);
    assert_eq!(MS_NOEXEC, libc::MS_NOEXEC as u64);
    assert_eq!(MS_SYNCHRONOUS, libc::MS_SYNCHRONOUS as u64);
    assert_eq!(MS_REMOUNT, libc::MS_REMOUNT as u64);
    assert_eq!(MS_MANDLOCK, libc::MS_MANDLOCK as u64);
    assert_eq!(MS_DIRSYNC, libc::MS_DIRSYNC as u64);
    assert_eq!(MS_NOATIME, libc::MS_NOATIME as u64);
    assert_eq!(MS_NODIRATIME, libc::MS_NODIRATIME as u64);
    assert_eq!(MS_MOVE, libc::MS_MOVE as u64);
    assert_eq!(MS_RELATIME, libc::MS_RELATIME as u64);
    assert_eq!(MNT_DETACH, libc::MNT_DETACH);
}

#[test]
fn named_flags_carry_their_bits() {
    assert_eq!(MountFlags::RDONLY().bits(), 0x01);
    assert_eq!(MountFlags::NOSUID().bits(), 0x02);
    assert_eq!(MountFlags::NODEV().bits(), 0x04);
    assert_eq!(MountFlags::NOEXEC().bits(), 0x08);
    assert_eq!(MountFlags::SYNCHRONOUS().bits(), 0x10);
    assert_eq!(MountFlags::REMOUNT().bits(), 0x20);
    assert_eq!(MountFlags::MANDLOCK().bits(), 0x40);
    assert_eq!(MountFlags::DIRSYNC().bits(), 0x80);
    assert_eq!(MountFlags::NOATIME().bits(), 0x400);
    assert_eq!(MountFlags::NODIRATIME().bits(), 0x800);
    assert_eq!(MountFlags::MOVE().bits(), 0x2000);
    assert_eq!(MountFlags::RELATIME().bits(), 0x20_0000);
    assert_eq!(MountFlags::empty().bits(), 0);
    assert_eq!(MountFlags::all().bits(), MS_ALL);
}

#[test]
fn all_is_the_union_of_the_named_flags() {
    let all = MountFlags::RDONLY()
        | MountFlags::NOSUID()
        | MountFlags::NODEV()
        | MountFlags::NOEXEC()
        | MountFlags::SYNCHRONOUS()
        | MountFlags::REMOUNT()
        | MountFlags::MANDLOCK()
        | MountFlags::DIRSYNC()
        | MountFlags::NOATIME()
        | MountFlags::NODIRATIME()
        | MountFlags::MOVE()
        | MountFlags::RELATIME();
    assert_eq!(all, MountFlags::all());
    assert_eq!(all.bits(), 0x20_2CFF);
}

#[test]
fn rdonly_nodev_noexec_compose_without_interference() {
    let flags = MountFlags::RDONLY() | MountFlags::NODEV() | MountFlags::NOEXEC();
    assert_eq!(flags.bits(), 13);
    assert!(flags.contains(MountFlags::RDONLY()));
    assert!(flags.contains(MountFlags::NODEV()));
    assert!(flags.contains(MountFlags::NOEXEC()));
    assert!(flags.contains(MountFlags::RDONLY() | MountFlags::NOEXEC()));
    assert!(!flags.contains(MountFlags::NOSUID()));
    assert!(!flags.contains(MountFlags::MOVE()));
    assert!(!flags.contains(MountFlags::RDONLY() | MountFlags::NOSUID()));
    assert_eq!(flags.difference(MountFlags::NODEV()).bits(), 9);
    assert_eq!(flags.intersection(MountFlags::NODEV() | MountFlags::NOSUID()).bits(), 4);
}

#[test]
fn union_does_not_depend_on_the_order() {
    let a = MountFlags::RDONLY();
    let b = MountFlags::NODEV();
    let c = MountFlags::NOEXEC();
    assert_eq!(a | b | c, c | b | a);
    assert_eq!((a | b) | c, a | (b | c));
    assert_eq!(a.union(b), b.union(a));
    assert_eq!(a | a, a);
    assert_eq!(a | MountFlags::empty(), a);
    assert_eq!(a.union(b).bits(), 5);
}

#[test]
fn every_named_flag_is_independent_of_every_other() {
    let named = [
        MountFlags::RDONLY(),
        MountFlags::NOSUID(),
        MountFlags::NODEV(),
        MountFlags::NOEXEC(),
        MountFlags::SYNCHRONOUS(),
        MountFlags::REMOUNT(),
        MountFlags::MANDLOCK(),
        MountFlags::DIRSYNC(),
        MountFlags::NOATIME(),
        MountFlags::NODIRATIME(),
        MountFlags::MOVE(),
        MountFlags::RELATIME(),
    ];
    for (i, a) in named.iter().enumerate() {
        assert_eq!(a.bits().count_ones(), 1);
        for (j, b) in named.iter().enumerate() {
            let both = *a | *b;
            assert!(both.contains(*a) && both.contains(*b));
            assert_eq!(a.contains(*b), i == j);
            for c in named.iter() {
                assert_eq!(both.contains(*c), a.contains(*c) || b.contains(*c));
            }
        }
    }
}

#[test]
fn from_bits_accepts_named_bits_only() {
    assert_eq!(MountFlags::from_bits(0x0D), Some(MountFlags::RDONLY() | MountFlags::NODEV() | MountFlags::NOEXEC()));
    assert_eq!(MountFlags::from_bits(0), Some(MountFlags::empty()));
    assert_eq!(MountFlags::from_bits(MS_ALL), Some(MountFlags::all()));
    assert_eq!(MountFlags::from_bits(0x100), None);
    assert_eq!(MountFlags::from_bits(0x101), None);
    assert_eq!(MountFlags::from_bits(1 << 63), None);
    assert_eq!(MountFlags::from_bits_truncate(0x101).bits(), 0x01);
    assert_eq!(MountFlags::from_bits_truncate(u64::MAX), MountFlags::all());
}

#[test]
fn empty_flags_are_empty() {
    assert!(MountFlags::empty().is_empty());
    assert!(!MountFlags::RDONLY().is_empty());
    assert!(MountFlags::RDONLY().contains(MountFlags::empty()));
    assert!(MountFlags::RDONLY().difference(MountFlags::RDONLY()).is_empty());
}

#[test]
fn c_string_is_the_bytes_and_a_nul() {
    assert_eq!(to_c_string("abc"), Ok(vec![b'a', b'b', b'c', 0]));
    assert_eq!(to_c_string(""), Ok(vec![0]));
    assert_eq!(to_c_string("é"), Ok(vec![0xC3, 0xA9, 0]));
    assert_eq!(to_c_string("/dev/loop0"), Ok(b"/dev/loop0\0".to_vec()));
}

#[test]
fn c_string_rejects_an_interior_nul() {
    assert_eq!(to_c_string("a\0b"), Err(Error::InteriorNul));
    assert_eq!(to_c_string("\0"), Err(Error::InteriorNul));
    assert_eq!(to_c_string("ab\0"), Err(Error::InteriorNul));
    assert_eq!(Error::InteriorNul.class(), ErrorClass::Input);
}

#[test]
fn mount_prepares_the_call_as_given() {
    let call = mount("devtmpfs", "/dev", Some("devtmpfs"), MountFlags::empty()).unwrap();
    assert_eq!(
        call,
        MountCall {
            source: b"devtmpfs\0".to_vec(),
            target: b"/dev\0".to_vec(),
            fstype: Some(b"devtmpfs\0".to_vec()),
            flags: 0,
        }
    );
}

#[test]
fn mount_passes_exactly_the_flags_it_is_given() {
    let flags = MountFlags::RDONLY() | MountFlags::NODEV() | MountFlags::NOEXEC();
    let call = mount("/dev/loop0", "/system", Some("squashfs"), flags).unwrap();
    assert_eq!(call.flags, 13);
    assert_eq!(call.flags, (libc::MS_RDONLY | libc::MS_NODEV | libc::MS_NOEXEC) as u64);
    let next = mount("/dev/loop0", "/system", Some("squashfs"), MountFlags::empty()).unwrap();
    assert_eq!(next.flags, 0);
}

#[test]
fn move_mount_has_no_filesystem_type() {
    let call = mount("/dev", "/system/dev", None, MountFlags::MOVE()).unwrap();
    assert_eq!(call.fstype, None);
    assert_eq!(call.flags, 0x2000);
    assert_eq!(call.source, b"/dev\0".to_vec());
    assert_eq!(call.target, b"/system/dev\0".to_vec());
}

#[test]
fn mount_rejects_nul_in_any_argument() {
    let flags = MountFlags::empty();
    assert_eq!(mount("a\0", "/b", Some("c"), flags), Err(Error::InteriorNul));
    assert_eq!(mount("a", "/\0b", Some("c"), flags), Err(Error::InteriorNul));
    assert_eq!(mount("a", "/b", Some("\0c"), flags), Err(Error::InteriorNul));
    assert_eq!(mount("a\0", "/b", None, flags), Err(Error::InteriorNul));
    assert!(mount("a", "/b", None, flags).is_ok());
}

#[test]
fn umount_detaches() {
    assert_eq!(umount("/dev"), Ok(UmountCall { target: b"/dev\0".to_vec(), flags: 2 }));
    assert_eq!(umount("/de\0v"), Err(Error::InteriorNul));
}
