use horizon::handle::{pool_pick, pool_release, OwnedHandle, RawHandle, SharedHandle};
use horizon::ipcdef::fssrv::IFileSystem;
use horizon::ipcdef::sm::IUserInterface;

#[test]
fn shared_handle_keeps_the_raw_handle() {
    let h = SharedHandle::new(RawHandle(0x1234));
    let c = h.clone();
    assert_eq!(h.inner(), RawHandle(0x1234));
    assert_eq!(c.inner(), RawHandle(0x1234));
}

#[test]
fn into_shared_keeps_the_session_handle() {
    let sm = IUserInterface::new(OwnedHandle::new(RawHandle(0x55)));
    let shared = sm.into_shared();
    assert_eq!(shared.handle.inner(), RawHandle(0x55));

    let fs = IFileSystem::new(OwnedHandle::new(RawHandle(0x77)));
    let shared = fs.into_shared();
    assert_eq!(shared.into_inner().inner(), RawHandle(0x77));
}

#[test]
fn pool_pick_takes_the_index_of_the_leading_ones() {
    assert_eq!(pool_pick(0, 16), (0, Some(1)));
    assert_eq!(pool_pick(0x8000_0000, 16), (1, Some(0x8000_0002)));
    assert_eq!(pool_pick(0xC000_0000, 16), (2, Some(0xC000_0004)));
}

#[test]
fn pool_pick_counts_ones_from_the_top_only() {
    // the low bit is already set, yet no leading one is there: index 0 again
    assert_eq!(pool_pick(1, 16), (0, Some(1)));
}

#[test]
fn pool_pick_shares_the_last_handle_when_full() {
    assert_eq!(pool_pick(0xFFFF_0000, 16), (15, None));
    assert_eq!(pool_pick(u32::MAX, 32), (31, None));
    assert_eq!(pool_pick(0xFFFF_FFFE, 32), (31, Some(0xFFFF_FFFE)));
}

#[test]
fn pool_release_clears_only_its_bit() {
    assert_eq!(pool_release(3, 0), 2);
    assert_eq!(pool_release(0xFFFF_FFFF, 31), 0x7FFF_FFFF);
    assert_eq!(pool_release(4, 1), 4);
    let (i, m) = pool_pick(0x8000_0000, 16);
    assert_eq!(pool_release(m.unwrap(), i), 0x8000_0000);
}
