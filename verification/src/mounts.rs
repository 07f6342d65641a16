//! The table of mount points: up to `MOUNTPOINT_COUNT` named devices.
//!
//! A slot whose name starts with a zero byte is empty; names are stored
//! zero-padded in a fixed buffer and end at the first zero byte.

use vstd::prelude::*;
use crate::handle::{OwnedHandle, RefHandle, RawHandle};
use vstd::string::StringSliceAdditionalSpecFns;

verus! {

/// Maximum length of a mount point name in bytes.
pub const NAME_MAX_LEN: usize = 32;

/// Maximum number of mount points.
pub const MOUNTPOINT_COUNT: usize = 32;

/// A device that can be mounted.
#[derive(Clone, Copy, Debug)]
pub enum MountDevice<S> {
    /// An IFileSystem object.
    IFileSystem(S),
    /// An IStorage object that contains a romfs.
    RomfsIStorage(S),
    /// An IFile object that contains a romfs at the given offset.
    RomfsIFile(S, u64),
}

/// A mount device with its handle taken by value.
#[derive(PartialEq, Eq, Structural)]
pub enum DeviceView {
    IFileSystem(u32),
    RomfsIStorage(u32),
    RomfsIFile(u32, u64),
}

impl<S: View<V = u32>> View for MountDevice<S> {
    type V = DeviceView;

    open spec fn view(&self) -> DeviceView {
        match self {
            MountDevice::IFileSystem(h) => DeviceView::IFileSystem(h@),
            MountDevice::RomfsIStorage(h) => DeviceView::RomfsIStorage(h@),
            MountDevice::RomfsIFile(h, o) => DeviceView::RomfsIFile(h@, *o),
        }
    }
}

impl MountDevice<OwnedHandle> {
    /// Borrow an owned mount device.
    pub fn as_ref(&self) -> (r: MountDevice<RefHandle<'_>>)
        ensures
            r@ == self@,
    {
        match self {
            MountDevice::IFileSystem(h) => MountDevice::IFileSystem(h.as_ref()),
            MountDevice::RomfsIStorage(h) => MountDevice::RomfsIStorage(h.as_ref()),
            MountDevice::RomfsIFile(h, offset) => MountDevice::RomfsIFile(h.as_ref(), *offset),
        }
    }
}

/// The index of the first zero byte of `s` at or after `i`, or `s.len()`.
pub open spec fn first_zero_from(s: Seq<u8>, i: int) -> int
    decreases s.len() - i,
{
    if i < 0 || i >= s.len() {
        s.len() as int
    } else if s[i] == 0 {
        i
    } else {
        first_zero_from(s, i + 1)
    }
}

/// The name held in a name buffer: the bytes before the first zero.
pub open spec fn stored_name(buf: Seq<u8>) -> Seq<u8> {
    buf.take(first_zero_from(buf, 0))
}

/// A name zero-padded to a full buffer.
pub open spec fn padded_name(name: Seq<u8>) -> Seq<u8> {
    name + Seq::new((NAME_MAX_LEN - name.len()) as nat, |i: int| 0u8)
}

/// The first slot at or after `i` whose stored name is `name`.
pub open spec fn find_from(e: Seq<(Seq<u8>, DeviceView)>, name: Seq<u8>, i: int) -> Option<int>
    decreases e.len() - i,
{
    if i < 0 || i >= e.len() {
        None
    } else if stored_name(e[i].0) == name {
        Some(i)
    } else {
        find_from(e, name, i + 1)
    }
}

/// What `find_from` finds is a slot with that name, and no earlier slot has it.
pub proof fn lemma_find_from(e: Seq<(Seq<u8>, DeviceView)>, name: Seq<u8>, i: int)
    requires
        0 <= i,
    ensures
        find_from(e, name, i) matches Some(j) ==> i <= j < e.len() && stored_name(e[j].0) == name
            && forall|k: int| i <= k < j ==> stored_name(#[trigger] e[k].0) != name,
        find_from(e, name, i) is None ==> forall|k: int| i <= k < e.len() ==> stored_name(#[trigger] e[k].0) != name,
    decreases e.len() - i,
{
    if i < e.len() && stored_name(e[i].0) != name {
        lemma_find_from(e, name, i + 1);
    }
}

/// What `empty_from` finds is an empty slot, and no earlier slot is empty.
pub proof fn lemma_empty_from(e: Seq<(Seq<u8>, DeviceView)>, i: int)
    requires
        0 <= i,
    ensures
        empty_from(e, i) matches Some(j) ==> i <= j < e.len() && e[j].0[0] == 0
            && forall|k: int| i <= k < j ==> (#[trigger] e[k].0)[0] != 0,
        empty_from(e, i) is None ==> forall|k: int| i <= k < e.len() ==> (#[trigger] e[k].0)[0] != 0,
    decreases e.len() - i,
{
    if i < e.len() && e[i].0[0] != 0 {
        lemma_empty_from(e, i + 1);
    }
}

/// The first empty slot at or after `i`.
pub open spec fn empty_from(e: Seq<(Seq<u8>, DeviceView)>, i: int) -> Option<int>
    decreases e.len() - i,
{
    if i < 0 || i >= e.len() {
        None
    } else if e[i].0[0] == 0 {
        Some(i)
    } else {
        empty_from(e, i + 1)
    }
}

/// The contents of an empty slot.
pub open spec fn empty_entry() -> (Seq<u8>, DeviceView) {
    (Seq::new(NAME_MAX_LEN as nat, |i: int| 0u8), DeviceView::IFileSystem(0))
}

/// An error while adding a mount point.
#[derive(Clone, Copy, PartialEq, Eq, Debug, Structural)]
pub enum AddError {
    /// The name is empty.
    EmptyName,
    /// The name is longer than `NAME_MAX_LEN` bytes.
    NameTooLong,
    /// All `MOUNTPOINT_COUNT` slots are in use.
    TooManyMounts,
    /// A mount point with the same name exists.
    DuplicateMount,
}

/// One slot of the table.
struct Mount {
    name: [u8; 32],
    device: MountDevice<OwnedHandle>,
}

impl Mount {
    spec fn entry(&self) -> (Seq<u8>, DeviceView) {
        (self.name@, self.device@)
    }

    fn empty() -> (r: Self)
        ensures
            r.entry() == empty_entry(),
    {
        let r = Mount { name: [0u8; 32], device: MountDevice::IFileSystem(OwnedHandle::new(RawHandle(0))) };
        assert(r.name@ =~= empty_entry().0);
        r
    }

    fn new(name: &str, contents: MountDevice<OwnedHandle>) -> (r: Option<Self>)
        ensures
            name.spec_bytes().len() > NAME_MAX_LEN ==> r is None,
            name.spec_bytes().len() <= NAME_MAX_LEN ==> (r matches Some(m) && m.entry() == (padded_name(name.spec_bytes()), contents@)),
    {
        let bytes = name.as_bytes();
        if bytes.len() > NAME_MAX_LEN {
            None
        } else {
            let mut name_buf = [0u8; 32];
            let mut i: usize = 0;
            while i < bytes.len()
                invariant
                    bytes@ == name.spec_bytes(),
                    bytes@.len() <= 32,
                    i <= bytes@.len(),
                    name_buf@.len() == 32,
                    forall|j: int| 0 <= j < i ==> name_buf@[j] == bytes@[j],
                    forall|j: int| bytes@.len() <= j < 32 ==> name_buf@[j] == 0,
                decreases bytes@.len() - i,
            {
                name_buf[i] = bytes[i];
                i = i + 1;
            }
            let m = Mount { name: name_buf, device: contents };
            assert(m.name@ =~= padded_name(name.spec_bytes()));
            Some(m)
        }
    }

    fn name_len(&self) -> (r: usize)
        ensures
            r == first_zero_from(self.name@, 0),
    {
        let mut i: usize = 0;
        while i < NAME_MAX_LEN
            invariant
                i <= 32,
                self.name@.len() == 32,
                forall|j: int| 0 <= j < i ==> self.name@[j] != 0,
                first_zero_from(self.name@, 0) == first_zero_from(self.name@, i as int),
            decreases 32 - i,
        {
            if self.name[i] == 0 {
                return i;
            }
            i = i + 1;
        }
        NAME_MAX_LEN
    }

    fn name_bytes(&self) -> (r: Vec<u8>)
        ensures
            r@ == stored_name(self.name@),
    {
        let len = self.name_len();
        proof {
            lemma_first_zero_bound(self.name@, 0);
        }
        let mut r: Vec<u8> = Vec::new();
        let mut i: usize = 0;
        while i < len
            invariant
                len <= 32,
                self.name@.len() == 32,
                i <= len,
                r@ == self.name@.take(i as int),
            decreases len - i,
        {
            r.push(self.name[i]);
            i = i + 1;
            assert(r@ =~= self.name@.take(i as int));
        }
        r
    }

    fn name_matches(&self, name: &[u8]) -> (r: bool)
        ensures
            r == (stored_name(self.name@) == name@),
    {
        let len = self.name_len();
        proof {
            lemma_first_zero_bound(self.name@, 0);
        }
        if len != name.len() {
            return false;
        }
        let mut i: usize = 0;
        while i < len
            invariant
                len <= 32,
                len == name@.len(),
                self.name@.len() == 32,
                len == first_zero_from(self.name@, 0),
                i <= len,
                forall|j: int| 0 <= j < i ==> self.name@[j] == name@[j],
            decreases len - i,
        {
            if self.name[i] != name[i] {
                assert(stored_name(self.name@)[i as int] != name@[i as int]);
                return false;
            }
            i = i + 1;
        }
        assert(stored_name(self.name@) =~= name@);
        true
    }

    fn is_empty(&self) -> (r: bool)
        ensures
            r == (self.name@[0] == 0),
    {
        self.name[0] == 0
    }
}

/// The index of the first zero is within the buffer, the bytes before it are
/// nonzero, and a zero sits at it unless it is the end.
pub proof fn lemma_first_zero_bound(s: Seq<u8>, i: int)
    requires
        0 <= i <= s.len(),
    ensures
        i <= first_zero_from(s, i) <= s.len(),
        forall|j: int| i <= j < first_zero_from(s, i) ==> s[j] != 0,
        first_zero_from(s, i) < s.len() ==> s[first_zero_from(s, i)] == 0,
    decreases s.len() - i,
{
    if i < s.len() && s[i] != 0 {
        lemma_first_zero_bound(s, i + 1);
    }
}

/// The table of mount points.
pub struct MountTable {
    mounts: Vec<Mount>,
}

impl View for MountTable {
    type V = Seq<(Seq<u8>, DeviceView)>;

    closed spec fn view(&self) -> Seq<(Seq<u8>, DeviceView)> {
        Seq::new(self.mounts@.len(), |i: int| self.mounts@[i].entry())
    }
}

impl MountTable {
    /// Every slot has a full name buffer and there are `MOUNTPOINT_COUNT` slots.
    pub open spec fn wf(&self) -> bool {
        &&& self@.len() == MOUNTPOINT_COUNT
        &&& forall|i: int| 0 <= i < self@.len() ==> (#[trigger] self@[i]).0.len() == NAME_MAX_LEN
    }

    /// A table with every slot empty.
    pub fn new() -> (r: Self)
        ensures
            r.wf(),
            r@ == Seq::new(MOUNTPOINT_COUNT as nat, |i: int| empty_entry()),
    {
        let mut mounts: Vec<Mount> = Vec::new();
        let mut i: usize = 0;
        while i < MOUNTPOINT_COUNT
            invariant
                i <= MOUNTPOINT_COUNT,
                mounts@.len() == i,
                forall|j: int| 0 <= j < i ==> (#[trigger] mounts@[j]).entry() == empty_entry(),
            decreases MOUNTPOINT_COUNT - i,
        {
            mounts.push(Mount::empty());
            i = i + 1;
        }
        let r = MountTable { mounts };
        assert(r@ =~= Seq::new(MOUNTPOINT_COUNT as nat, |i: int| empty_entry()));
        r
    }

    /// The first slot whose name is `name`.
    fn find_impl(&self, name: &[u8]) -> (r: Option<usize>)
        ensures
            r matches Some(i) ==> find_from(self@, name@, 0) == Some(i as int) && i < self.mounts@.len(),
            r is None ==> find_from(self@, name@, 0) is None,
    {
        proof {
            lemma_find_from(self@, name@, 0);
        }
        let mut i: usize = 0;
        while i < self.mounts.len()
            invariant
                i <= self.mounts@.len(),
                find_from(self@, name@, 0) == find_from(self@, name@, i as int),
            decreases self.mounts@.len() - i,
        {
            if self.mounts[i].name_matches(name) {
                return Some(i);
            }
            i = i + 1;
        }
        None
    }

    /// The first empty slot.
    fn find_empty_mount(&self) -> (r: Option<usize>)
        requires
            self.wf(),
        ensures
            r matches Some(i) ==> empty_from(self@, 0) == Some(i as int) && i < self.mounts@.len(),
            r is None ==> empty_from(self@, 0) is None,
    {
        proof {
            lemma_empty_from(self@, 0);
        }
        let mut i: usize = 0;
        while i < self.mounts.len()
            invariant
                self.wf(),
                i <= self.mounts@.len(),
                empty_from(self@, 0) == empty_from(self@, i as int),
            decreases self.mounts@.len() - i,
        {
            assert(self@[i as int].0.len() == 32);
            if self.mounts[i].is_empty() {
                return Some(i);
            }
            i = i + 1;
        }
        None
    }

    /// Add a mount point named `name` for `contents`.
    pub fn add(&mut self, name: &str, contents: MountDevice<OwnedHandle>) -> (r: Result<(), AddError>)
        requires
            old(self).wf(),
        ensures
            final(self).wf(),
            name@.len() == 0 ==> r == Err::<(), AddError>(AddError::EmptyName),
            name@.len() != 0 && name.spec_bytes().len() > NAME_MAX_LEN ==> r == Err::<(), AddError>(AddError::NameTooLong),
            name@.len() != 0 && name.spec_bytes().len() <= NAME_MAX_LEN && find_from(old(self)@, name.spec_bytes(), 0) is Some
                ==> r == Err::<(), AddError>(AddError::DuplicateMount),
            name@.len() != 0 && name.spec_bytes().len() <= NAME_MAX_LEN && find_from(old(self)@, name.spec_bytes(), 0) is None
                && empty_from(old(self)@, 0) is None ==> r == Err::<(), AddError>(AddError::TooManyMounts),
            r is Err ==> final(self)@ == old(self)@,
            r is Ok <==> (name@.len() != 0 && name.spec_bytes().len() <= NAME_MAX_LEN
                && find_from(old(self)@, name.spec_bytes(), 0) is None && empty_from(old(self)@, 0) is Some),
            r is Ok ==> final(self)@ == old(self)@.update(
                empty_from(old(self)@, 0)->0,
                (padded_name(name.spec_bytes()), contents@),
            ),
    {
        if name.is_empty() {
            return Err(AddError::EmptyName);
        }
        let mount = match Mount::new(name, contents) {
            Some(m) => m,
            None => {
                return Err(AddError::NameTooLong);
            },
        };
        if self.find_impl(name.as_bytes()).is_some() {
            return Err(AddError::DuplicateMount);
        }
        match self.find_empty_mount() {
            Some(i) => {
                let ghost old_mounts = self.mounts@;
                self.mounts.set(i, mount);
                assert(self@ =~= old(self)@.update(i as int, (padded_name(name.spec_bytes()), contents@)));
                Ok(())
            },
            None => Err(AddError::TooManyMounts),
        }
    }

    /// Remove the mount point named `name`, returning its device.
    pub fn remove(&mut self, name: &str) -> (r: Option<MountDevice<OwnedHandle>>)
        requires
            old(self).wf(),
        ensures
            final(self).wf(),
            match find_from(old(self)@, name.spec_bytes(), 0) {
                None => r is None && final(self)@ == old(self)@,
                Some(i) => r matches Some(d) && d@ == old(self)@[i].1
                    && final(self)@ == old(self)@.update(i, empty_entry()),
            },
    {
        match self.find_impl(name.as_bytes()) {
            Some(p) => {
                let mut old_mount = Mount::empty();
                core::mem::swap(&mut self.mounts[p], &mut old_mount);
                assert(self@ =~= old(self)@.update(p as int, empty_entry()));
                Some(old_mount.device)
            },
            None => None,
        }
    }

    /// The device mounted under `name`.
    pub fn find(&self, name: &str) -> (r: Option<MountDevice<RefHandle<'_>>>)
        ensures
            match find_from(self@, name.spec_bytes(), 0) {
                None => r is None,
                Some(i) => r matches Some(d) && d@ == self@[i].1,
            },
    {
        match self.find_impl(name.as_bytes()) {
            Some(p) => Some(self.mounts[p].device.as_ref()),
            None => None,
        }
    }

    /// The name and device in slot `index`, if that slot is in use.
    pub fn get(&self, index: usize) -> (r: Option<(Vec<u8>, MountDevice<RefHandle<'_>>)>)
        requires
            self.wf(),
        ensures
            (index >= MOUNTPOINT_COUNT || self@[index as int].0[0] == 0) ==> r is None,
            index < MOUNTPOINT_COUNT && self@[index as int].0[0] != 0 ==> (r matches Some((n, d))
                && n@ == stored_name(self@[index as int].0) && d@ == self@[index as int].1),
    {
        if index >= self.mounts.len() {
            return None;
        }
        assert(self@[index as int].0.len() == 32);
        if self.mounts[index].is_empty() {
            None
        } else {
            Some((self.mounts[index].name_bytes(), self.mounts[index].device.as_ref()))
        }
    }
}

/// A name of at most `NAME_MAX_LEN` nonzero bytes is what its padded buffer stores.
pub proof fn lemma_stored_padded(name: Seq<u8>)
    requires
        name.len() <= NAME_MAX_LEN,
        forall|i: int| 0 <= i < name.len() ==> name[i] != 0,
    ensures
        stored_name(padded_name(name)) == name,
{
    let p = padded_name(name);
    lemma_first_zero_bound(p, 0);
    let f = first_zero_from(p, 0);
    if f < name.len() {
        assert(p[f] == name[f]);
    } else if f > name.len() {
        assert(p[name.len() as int] == 0);
    }
    assert(p.take(f) =~= name);
}

/// Adding a device under a new name, and then looking the name up, finds the
/// device in the slot it went to (names without zero bytes).
pub proof fn lemma_add_then_find(e: Seq<(Seq<u8>, DeviceView)>, name: Seq<u8>, c: DeviceView)
    requires
        forall|i: int| 0 <= i < e.len() ==> (#[trigger] e[i]).0.len() == NAME_MAX_LEN,
        0 < name.len() <= NAME_MAX_LEN,
        forall|i: int| 0 <= i < name.len() ==> name[i] != 0,
        find_from(e, name, 0) is None,
        empty_from(e, 0) is Some,
    ensures
        ({
            let k = empty_from(e, 0)->0;
            let e2 = e.update(k, (padded_name(name), c));
            &&& find_from(e2, name, 0) == Some(k)
            &&& e2[k].1 == c
        }),
{
    lemma_empty_from(e, 0);
    lemma_find_from(e, name, 0);
    lemma_stored_padded(name);
    let k = empty_from(e, 0)->0;
    let e2 = e.update(k, (padded_name(name), c));
    lemma_find_from(e2, name, 0);
    match find_from(e2, name, 0) {
        Some(j) => {
            if j < k {
                assert(e2[j] == e[j]);
            } else if j > k {
                assert(stored_name(e2[k].0) == name);
            }
        },
        None => {
            assert(stored_name(e2[k].0) == name);
        },
    }
}

/// Adding a device under a new name and removing that name gives the device
/// back and leaves the table as it was, when the slot that the device took
/// was cleared as removal clears slots.
pub proof fn lemma_add_then_remove(e: Seq<(Seq<u8>, DeviceView)>, name: Seq<u8>, c: DeviceView)
    requires
        forall|i: int| 0 <= i < e.len() ==> (#[trigger] e[i]).0.len() == NAME_MAX_LEN,
        0 < name.len() <= NAME_MAX_LEN,
        forall|i: int| 0 <= i < name.len() ==> name[i] != 0,
        find_from(e, name, 0) is None,
        empty_from(e, 0) is Some,
        e[empty_from(e, 0)->0] == empty_entry(),
    ensures
        ({
            let k = empty_from(e, 0)->0;
            let e2 = e.update(k, (padded_name(name), c));
            &&& find_from(e2, name, 0) == Some(k)
            &&& e2[k].1 == c
            &&& e2.update(k, empty_entry()) == e
        }),
{
    lemma_add_then_find(e, name, c);
    lemma_empty_from(e, 0);
    let k = empty_from(e, 0)->0;
    let e2 = e.update(k, (padded_name(name), c));
    assert(e2.update(k, empty_entry()) =~= e);
}

} // verus!
