//! The plain data of the system services' interfaces: identifiers, enums
//! and structures passed in their commands.

use vstd::prelude::*;

verus! {

/// Whether a directory entry is a directory or a file.
#[derive(Clone, Copy, PartialEq, Eq, Hash, Debug, Structural)]
pub enum DirectoryEntryType {
    Directory,
    File,
}

impl DirectoryEntryType {
    pub open spec fn value_spec(self) -> u8 {
        match self {
            DirectoryEntryType::Directory => 0,
            DirectoryEntryType::File => 1,
        }
    }

    /// The number that stands for the value on the wire.
    pub fn to_u8(&self) -> (r: u8)
        ensures
            r == self.value_spec(),
    {
        match self {
            DirectoryEntryType::Directory => 0,
            DirectoryEntryType::File => 1,
        }
    }

    /// The value that `v` stands for, if any.
    pub fn from_u8(v: u8) -> (r: Option<Self>)
        ensures
            r is Some <==> (v == 0 || v == 1),
            r matches Some(x) ==> x.value_spec() == v,
    {
        match v {
            0 => Some(DirectoryEntryType::Directory),
            1 => Some(DirectoryEntryType::File),
            _ => None,
        }
    }
}

impl Default for DirectoryEntryType {
    fn default() -> (r: Self)
        ensures
            r == DirectoryEntryType::Directory,
    {
        DirectoryEntryType::Directory
    }
}


/// A partition of the built-in storage.
#[derive(Clone, Copy, PartialEq, Eq, Hash, Debug, Structural)]
pub enum Partition {
    BootPartition1Root,
    BootPartition2Root,
    UserDataRoot,
    BootConfigAndPackage2Part1,
    BootConfigAndPackage2Part2,
    BootConfigAndPackage2Part3,
    BootConfigAndPackage2Part4,
    BootConfigAndPackage2Part5,
    BootConfigAndPackage2Part6,
    CalibrationBinary,
    CalibrationFile,
    SafeMode,
    SystemProperEncryption,
    User,
}

impl Partition {
    pub open spec fn value_spec(self) -> u32 {
        match self {
            Partition::BootPartition1Root => 0,
            Partition::BootPartition2Root => 10,
            Partition::UserDataRoot => 20,
            Partition::BootConfigAndPackage2Part1 => 21,
            Partition::BootConfigAndPackage2Part2 => 22,
            Partition::BootConfigAndPackage2Part3 => 23,
            Partition::BootConfigAndPackage2Part4 => 24,
            Partition::BootConfigAndPackage2Part5 => 25,
            Partition::BootConfigAndPackage2Part6 => 26,
            Partition::CalibrationBinary => 27,
            Partition::CalibrationFile => 28,
            Partition::SafeMode => 29,
            Partition::SystemProperEncryption => 30,
            Partition::User => 31,
        }
    }

    /// The number that stands for the value on the wire.
    pub fn to_u32(&self) -> (r: u32)
        ensures
            r == self.value_spec(),
    {
        match self {
            Partition::BootPartition1Root => 0,
            Partition::BootPartition2Root => 10,
            Partition::UserDataRoot => 20,
            Partition::BootConfigAndPackage2Part1 => 21,
            Partition::BootConfigAndPackage2Part2 => 22,
            Partition::BootConfigAndPackage2Part3 => 23,
            Partition::BootConfigAndPackage2Part4 => 24,
            Partition::BootConfigAndPackage2Part5 => 25,
            Partition::BootConfigAndPackage2Part6 => 26,
            Partition::CalibrationBinary => 27,
            Partition::CalibrationFile => 28,
            Partition::SafeMode => 29,
            Partition::SystemProperEncryption => 30,
            Partition::User => 31,
        }
    }

    /// The value that `v` stands for, if any.
    pub fn from_u32(v: u32) -> (r: Option<Self>)
        ensures
            r is Some <==> (v == 0 || v == 10 || v == 20 || v == 21 || v == 22 || v == 23 || v == 24 || v == 25 || v == 26 || v == 27 || v == 28 || v == 29 || v == 30 || v == 31),
            r matches Some(x) ==> x.value_spec() == v,
    {
        match v {
            0 => Some(Partition::BootPartition1Root),
            10 => Some(Partition::BootPartition2Root),
            20 => Some(Partition::UserDataRoot),
            21 => Some(Partition::BootConfigAndPackage2Part1),
            22 => Some(Partition::BootConfigAndPackage2Part2),
            23 => Some(Partition::BootConfigAndPackage2Part3),
            24 => Some(Partition::BootConfigAndPackage2Part4),
            25 => Some(Partition::BootConfigAndPackage2Part5),
            26 => Some(Partition::BootConfigAndPackage2Part6),
            27 => Some(Partition::CalibrationBinary),
            28 => Some(Partition::CalibrationFile),
            29 => Some(Partition::SafeMode),
            30 => Some(Partition::SystemProperEncryption),
            31 => Some(Partition::User),
            _ => None,
        }
    }
}

impl Default for Partition {
    fn default() -> (r: Self)
        ensures
            r == Partition::BootPartition1Root,
    {
        Partition::BootPartition1Root
    }
}


/// The kind of a file system of a content.
#[derive(Clone, Copy, PartialEq, Eq, Hash, Debug, Structural)]
pub enum FileSystemType {
    Invalid,
    Invalid2,
    Logo,
    ContentControl,
    ContentManual,
    ContentMeta,
    ContentData,
    ApplicationPackage,
}

impl FileSystemType {
    pub open spec fn value_spec(self) -> u32 {
        match self {
            FileSystemType::Invalid => 0,
            FileSystemType::Invalid2 => 1,
            FileSystemType::Logo => 2,
            FileSystemType::ContentControl => 3,
            FileSystemType::ContentManual => 4,
            FileSystemType::ContentMeta => 5,
            FileSystemType::ContentData => 6,
            FileSystemType::ApplicationPackage => 7,
        }
    }

    /// The number that stands for the value on the wire.
    pub fn to_u32(&self) -> (r: u32)
        ensures
            r == self.value_spec(),
    {
        match self {
            FileSystemType::Invalid => 0,
            FileSystemType::Invalid2 => 1,
            FileSystemType::Logo => 2,
            FileSystemType::ContentControl => 3,
            FileSystemType::ContentManual => 4,
            FileSystemType::ContentMeta => 5,
            FileSystemType::ContentData => 6,
            FileSystemType::ApplicationPackage => 7,
        }
    }

    /// The value that `v` stands for, if any.
    pub fn from_u32(v: u32) -> (r: Option<Self>)
        ensures
            r is Some <==> (v == 0 || v == 1 || v == 2 || v == 3 || v == 4 || v == 5 || v == 6 || v == 7),
            r matches Some(x) ==> x.value_spec() == v,
    {
        match v {
            0 => Some(FileSystemType::Invalid),
            1 => Some(FileSystemType::Invalid2),
            2 => Some(FileSystemType::Logo),
            3 => Some(FileSystemType::ContentControl),
            4 => Some(FileSystemType::ContentManual),
            5 => Some(FileSystemType::ContentMeta),
            6 => Some(FileSystemType::ContentData),
            7 => Some(FileSystemType::ApplicationPackage),
            _ => None,
        }
    }
}

impl Default for FileSystemType {
    fn default() -> (r: Self)
        ensures
            r == FileSystemType::Invalid,
    {
        FileSystemType::Invalid
    }
}


/// What a query on a file system asks.
#[derive(Clone, Copy, PartialEq, Eq, Hash, Debug, Structural)]
pub enum QueryId {
    SetConcatenationFileAttribute,
    UpdateMac,
    IsSignedSystemPartitionOnSdCardValid,
    QueryUnpreparedFileInformation,
}

impl QueryId {
    pub open spec fn value_spec(self) -> u32 {
        match self {
            QueryId::SetConcatenationFileAttribute => 0,
            QueryId::UpdateMac => 1,
            QueryId::IsSignedSystemPartitionOnSdCardValid => 2,
            QueryId::QueryUnpreparedFileInformation => 3,
        }
    }

    /// The number that stands for the value on the wire.
    pub fn to_u32(&self) -> (r: u32)
        ensures
            r == self.value_spec(),
    {
        match self {
            QueryId::SetConcatenationFileAttribute => 0,
            QueryId::UpdateMac => 1,
            QueryId::IsSignedSystemPartitionOnSdCardValid => 2,
            QueryId::QueryUnpreparedFileInformation => 3,
        }
    }

    /// The value that `v` stands for, if any.
    pub fn from_u32(v: u32) -> (r: Option<Self>)
        ensures
            r is Some <==> (v == 0 || v == 1 || v == 2 || v == 3),
            r matches Some(x) ==> x.value_spec() == v,
    {
        match v {
            0 => Some(QueryId::SetConcatenationFileAttribute),
            1 => Some(QueryId::UpdateMac),
            2 => Some(QueryId::IsSignedSystemPartitionOnSdCardValid),
            3 => Some(QueryId::QueryUnpreparedFileInformation),
            _ => None,
        }
    }
}

impl Default for QueryId {
    fn default() -> (r: Self)
        ensures
            r == QueryId::SetConcatenationFileAttribute,
    {
        QueryId::SetConcatenationFileAttribute
    }
}


/// An operation on a range of a file.
#[derive(Clone, Copy, PartialEq, Eq, Hash, Debug, Structural)]
pub enum OperationId {
    Clear,
    ClearSignature,
    InvalidateCache,
    QueryRange,
}

impl OperationId {
    pub open spec fn value_spec(self) -> u32 {
        match self {
            OperationId::Clear => 0,
            OperationId::ClearSignature => 1,
            OperationId::InvalidateCache => 2,
            OperationId::QueryRange => 3,
        }
    }

    /// The number that stands for the value on the wire.
    pub fn to_u32(&self) -> (r: u32)
        ensures
            r == self.value_spec(),
    {
        match self {
            OperationId::Clear => 0,
            OperationId::ClearSignature => 1,
            OperationId::InvalidateCache => 2,
            OperationId::QueryRange => 3,
        }
    }

    /// The value that `v` stands for, if any.
    pub fn from_u32(v: u32) -> (r: Option<Self>)
        ensures
            r is Some <==> (v == 0 || v == 1 || v == 2 || v == 3),
            r matches Some(x) ==> x.value_spec() == v,
    {
        match v {
            0 => Some(OperationId::Clear),
            1 => Some(OperationId::ClearSignature),
            2 => Some(OperationId::InvalidateCache),
            3 => Some(OperationId::QueryRange),
            _ => None,
        }
    }
}

impl Default for OperationId {
    fn default() -> (r: Self)
        ensures
            r == OperationId::Clear,
    {
        OperationId::Clear
    }
}


/// Where content is stored.
#[derive(Clone, Copy, PartialEq, Eq, Hash, Debug, Structural)]
pub enum StorageId {
    NoStorage,
    Host,
    GameCard,
    BuiltInSystem,
    BuiltInUser,
    SdCard,
    Any,
}

impl StorageId {
    pub open spec fn value_spec(self) -> u8 {
        match self {
            StorageId::NoStorage => 0,
            StorageId::Host => 1,
            StorageId::GameCard => 2,
            StorageId::BuiltInSystem => 3,
            StorageId::BuiltInUser => 4,
            StorageId::SdCard => 5,
            StorageId::Any => 6,
        }
    }

    /// The number that stands for the value on the wire.
    pub fn to_u8(&self) -> (r: u8)
        ensures
            r == self.value_spec(),
    {
        match self {
            StorageId::NoStorage => 0,
            StorageId::Host => 1,
            StorageId::GameCard => 2,
            StorageId::BuiltInSystem => 3,
            StorageId::BuiltInUser => 4,
            StorageId::SdCard => 5,
            StorageId::Any => 6,
        }
    }

    /// The value that `v` stands for, if any.
    pub fn from_u8(v: u8) -> (r: Option<Self>)
        ensures
            r is Some <==> (v == 0 || v == 1 || v == 2 || v == 3 || v == 4 || v == 5 || v == 6),
            r matches Some(x) ==> x.value_spec() == v,
    {
        match v {
            0 => Some(StorageId::NoStorage),
            1 => Some(StorageId::Host),
            2 => Some(StorageId::GameCard),
            3 => Some(StorageId::BuiltInSystem),
            4 => Some(StorageId::BuiltInUser),
            5 => Some(StorageId::SdCard),
            6 => Some(StorageId::Any),
            _ => None,
        }
    }
}


/// A user account id.
#[derive(Clone, Copy, PartialEq, Eq, Debug, Default, Structural)]
pub struct Uid {
    pub uid_part_1: u64,
    pub uid_part_2: u64,
}

/// How a save data is created.
#[derive(Clone, Copy, Debug, Default)]
pub struct FsSaveDataCreationInfo {
    pub save_data_size: i64,
    pub journal_size: i64,
    pub available_size: u64,
    pub owner_id: u64,
    pub flags: u32,
    pub save_data_space_id: u8,
    pub unk: u8,
    pub padding: [u8; 26],
}

/// Which save data is meant.
#[derive(Clone, Copy, Debug, Default)]
pub struct FsSaveDataAttribute {
    pub application_id: u64,
    pub uid: Uid,
    pub system_save_data_id: u64,
    pub save_data_type: u8,
    pub save_data_rank: u8,
    pub save_data_index: u16,
    pub pad_x_24: u32,
    pub unk_x_28: u64,
    pub unk_x_30: u64,
    pub unk_x_38: u64,
}

/// An entry of a directory listing.
#[derive(Clone, Copy, Debug)]
pub struct DirectoryEntry {
    pub path: crate::ipcdef::path::Path,
    pub padding: [u8; 3],
    pub typ: DirectoryEntryType,
    pub _padding_0: [u8; 3],
    pub filesize: u64,
}

/// The signature and hash that code is verified with.
#[derive(Clone, Copy, Debug)]
pub struct CodeVerificationData {
    pub signature: [u8; 256],
    pub target_hash: [u8; 32],
    pub has_data: bool,
    pub reserved: [u8; 3],
}

impl Default for CodeVerificationData {
    fn default() -> (r: Self)
        ensures
            r.signature@ == Seq::new(256, |i: int| 0u8),
            r.target_hash@ == Seq::new(32, |i: int| 0u8),
            !r.has_data,
            r.reserved@ == Seq::new(3, |i: int| 0u8),
    {
        let r = Self { signature: [0u8; 256], target_hash: [0u8; 32], has_data: false, reserved: [0u8; 3] };
        assert(r.signature@ =~= Seq::new(256, |i: int| 0u8));
        assert(r.target_hash@ =~= Seq::new(32, |i: int| 0u8));
        assert(r.reserved@ =~= Seq::new(3, |i: int| 0u8));
        r
    }
}

/// The times of a file.
#[derive(Clone, Copy, Debug, Default)]
pub struct FileTimeStampRaw {
    pub create: i64,
    pub modify: i64,
    pub access: i64,
    pub is_local_time: bool,
    pub pad: [u8; 7],
}

/// What a range query on a file reports.
#[derive(Clone, Copy, Debug)]
pub struct FileQueryRangeInfo {
    pub aes_ctr_key_type: u32,
    pub speed_emulation_type: u32,
    pub reserved: [u8; 56],
}

impl Default for FileQueryRangeInfo {
    fn default() -> (r: Self)
        ensures
            r.aes_ctr_key_type == 0,
            r.speed_emulation_type == 0,
            r.reserved@ == Seq::new(56, |i: int| 0u8),
    {
        let r = Self { aes_ctr_key_type: 0, speed_emulation_type: 0, reserved: [0u8; 56] };
        assert(r.reserved@ =~= Seq::new(56, |i: int| 0u8));
        r
    }
}

/// What the loader knows about a program.
#[derive(Clone, Copy, Debug)]
pub struct ProgramInfo {
    pub main_thread_priority: u8,
    pub default_cpu_id: u8,
    pub flags: u16,
    pub main_thread_stack_size: u32,
    pub program_id: u64,
    pub acid_sac_size: u32,
    pub aci_sac_size: u32,
    pub acid_fac_size: u32,
    pub aci_fah_size: u32,
    pub ac_buffer: [u8; 992],
}

impl Default for ProgramInfo {
    fn default() -> (r: Self)
        ensures
            r.main_thread_priority == 0 && r.default_cpu_id == 0 && r.flags == 0 && r.main_thread_stack_size == 0
                && r.program_id == 0 && r.acid_sac_size == 0 && r.aci_sac_size == 0 && r.acid_fac_size == 0
                && r.aci_fah_size == 0,
            r.ac_buffer@ == Seq::new(992, |i: int| 0u8),
    {
        let r = Self {
            main_thread_priority: 0,
            default_cpu_id: 0,
            flags: 0,
            main_thread_stack_size: 0,
            program_id: 0,
            acid_sac_size: 0,
            aci_sac_size: 0,
            acid_fac_size: 0,
            aci_fah_size: 0,
            ac_buffer: [0u8; 992],
        };
        assert(r.ac_buffer@ =~= Seq::new(992, |i: int| 0u8));
        r
    }
}

/// The id under which a program is pinned.
#[derive(Clone, Copy, PartialEq, Eq, Debug, Default, Structural)]
pub struct PinId {
    pub value: u64,
}

/// A program and where it is stored.
#[derive(Clone, Copy, PartialEq, Eq, Debug)]
pub struct ProgramLocation {
    pub program_id: u64,
    pub storage_id: StorageId,
    pub _padding_0: [u8; 7],
}

} // verus!
