use horizon::handle::{OwnedHandle, RawHandle};
use horizon::mounts::{AddError, MountDevice, MountTable, MOUNTPOINT_COUNT};

fn fs(h: u32) -> MountDevice<OwnedHandle> {
    MountDevice::IFileSystem(OwnedHandle::new(RawHandle(h)))
}

fn handle_of(d: &MountDevice<horizon::handle::RefHandle<'_>>) -> u32 {
    match d {
        MountDevice::IFileSystem(h) => h.inner().0,
        MountDevice::RomfsIStorage(h) => h.inner().0,
        MountDevice::RomfsIFile(h, _) => h.inner().0,
    }
}

#[test]
fn add_then_find() {
    let mut t = MountTable::new();
    assert_eq!(t.add("sdmc", fs(5)), Ok(()));
    let d = t.find("sdmc").unwrap();
    assert_eq!(handle_of(&d), 5);
    assert!(t.find("romfs").is_none());
}

#[test]
fn add_errors() {
    let mut t = MountTable::new();
    assert_eq!(t.add("", fs(1)), Err(AddError::EmptyName));
    let long = "x".repeat(33);
    assert_eq!(t.add(&long, fs(1)), Err(AddError::NameTooLong));
    assert_eq!(t.add("a", fs(1)), Ok(()));
    assert_eq!(t.add("a", fs(2)), Err(AddError::DuplicateMount));
}

#[test]
fn table_fills_up() {
    let mut t = MountTable::new();
    for i in 0..MOUNTPOINT_COUNT {
        let name = format!("m{}", i);
        assert_eq!(t.add(&name, fs(i as u32 + 1)), Ok(()));
    }
    assert_eq!(t.add("extra", fs(99)), Err(AddError::TooManyMounts));
}

#[test]
fn remove_then_find_and_reuse() {
    let mut t = MountTable::new();
    assert_eq!(t.add("a", fs(1)), Ok(()));
    assert_eq!(t.add("b", fs(2)), Ok(()));
    let removed = t.remove("a").unwrap();
    match removed {
        MountDevice::IFileSystem(h) => assert_eq!(h.leak().0, 1),
        _ => panic!(),
    }
    assert!(t.find("a").is_none());
    assert!(t.remove("a").is_none());
    assert_eq!(t.add("c", fs(3)), Ok(()));
    let (name, dev) = t.get(0).unwrap();
    assert_eq!(name, b"c".to_vec());
    assert_eq!(handle_of(&dev), 3);
}

#[test]
fn full_length_name() {
    let mut t = MountTable::new();
    let name = "y".repeat(32);
    assert_eq!(t.add(&name, MountDevice::RomfsIFile(OwnedHandle::new(RawHandle(4)), 0x100)), Ok(()));
    let (stored, d) = t.get(0).unwrap();
    assert_eq!(stored, name.as_bytes().to_vec());
    assert!(matches!(d, MountDevice::RomfsIFile(_, 0x100)));
    assert!(t.get(1).is_none());
    assert!(t.get(MOUNTPOINT_COUNT).is_none());
}
