use horizon::environment::{EnvironmentType, HorizonVersion};
use horizon::ipcdef::path::{Path, ServiceName};
use horizon::ipcdef::types::{Partition, StorageId};

#[test]
fn path_roundtrip() {
    let p = Path::new(b"/foo/bar");
    assert_eq!(p.as_ref(), b"/foo/bar");
    assert_eq!(p.as_str().unwrap(), "/foo/bar");
    assert_eq!(p.str[8], 0);
    let long = vec![b'a'; 0x300];
    assert!(Path::try_new(&long).is_some());
    let too_long = vec![b'a'; 0x301];
    assert!(Path::try_new(&too_long).is_none());
    let bad = Path::new(&[0xff, 0xfe]);
    assert!(bad.as_str().is_err());
}

#[test]
fn service_names() {
    let n = ServiceName::try_new("fsp-srv").unwrap();
    assert_eq!(&n.name, b"fsp-srv\0");
    assert_eq!(n.len(), 7);
    assert_eq!(n.as_str(), "fsp-srv");
    let n = ServiceName::try_new("csrng").unwrap();
    assert_eq!(n.len(), 5);
    assert_eq!(n.as_str(), "csrng");
    assert!(ServiceName::try_new("toolongname").is_none());
}

#[test]
fn enums_on_the_wire() {
    assert_eq!(Partition::User.to_u32(), 31);
    assert_eq!(Partition::from_u32(20), Some(Partition::UserDataRoot));
    assert_eq!(Partition::from_u32(5), None);
    assert_eq!(StorageId::SdCard.to_u8(), 5);
    assert_eq!(StorageId::from_u8(0), Some(StorageId::NoStorage));
}

#[test]
fn versions() {
    let v = HorizonVersion::new(14, 1, 2);
    assert_eq!((v.major, v.minor, v.micro), (14, 1, 2));
    assert!(HorizonVersion::new(13, 2, 0) < v);
    assert_ne!(EnvironmentType::Nro, EnvironmentType::Nso);
}
