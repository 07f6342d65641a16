//! The result codes of the kernel (module 1).

use vstd::prelude::*;
use crate::error::ErrorCodeModule;

verus! {

/// The errors the kernel reports.
#[derive(Clone, Copy, PartialEq, Eq, Debug, Structural)]
pub enum KernelErrorCode {
    OutOfSessions,
    InvalidArgument,
    NotImplemented,
    StopProcessingException,
    NoSynchronizationObject,
    TerminationRequested,
    NoEvent,
    InvalidSize,
    InvalidAddress,
    OutOfResource,
    OutOfMemory,
    OutOfHandles,
    InvalidCurrentMemory,
    InvalidNewMemoryPermission,
    InvalidMemoryRegion,
    InvalidPriority,
    InvalidCoreId,
    InvalidHandle,
    InvalidPointer,
    InvalidCombination,
    TimedOut,
    Cancelled,
    OutOfRange,
    InvalidEnumValue,
    NotFound,
    Busy,
    SessionClosed,
    NotHandled,
    InvalidState,
    ReservedUsed,
    NotSupported,
    Debug,
    NoThread,
    UnknownThread,
    PortClosed,
    LimitReached,
    InvalidMemoryPool,
    ReceiveListBroken,
    OutOfAddressSpace,
    MessageTooLarge,
    InvalidProcessId,
    InvalidThreadId,
    InvalidId,
    ProcessTerminated,
}

/// Whether `v` is the description of a kernel error.
pub open spec fn kernel_code_known(v: u32) -> bool {
    v == 7 || v == 14 || v == 33 || v == 54 || v == 57 || v == 59 || v == 70 || v == 101 || v == 102 || v == 103 || v == 104 || v == 105 || v == 106 || v == 108 || v == 110 || v == 112 || v == 113 || v == 114 || v == 115 || v == 116 || v == 117 || v == 118 || v == 119 || v == 120 || v == 121 || v == 122 || v == 123 || v == 124 || v == 125 || v == 126 || v == 127 || v == 128 || v == 129 || v == 130 || v == 131 || v == 132 || v == 133 || v == 258 || v == 259 || v == 260 || v == 517 || v == 518 || v == 519 || v == 520
}

impl KernelErrorCode {
    /// The description of the error.
    pub open spec fn value_spec(self) -> u32 {
        match self {
            KernelErrorCode::OutOfSessions => 7,
            KernelErrorCode::InvalidArgument => 14,
            KernelErrorCode::NotImplemented => 33,
            KernelErrorCode::StopProcessingException => 54,
            KernelErrorCode::NoSynchronizationObject => 57,
            KernelErrorCode::TerminationRequested => 59,
            KernelErrorCode::NoEvent => 70,
            KernelErrorCode::InvalidSize => 101,
            KernelErrorCode::InvalidAddress => 102,
            KernelErrorCode::OutOfResource => 103,
            KernelErrorCode::OutOfMemory => 104,
            KernelErrorCode::OutOfHandles => 105,
            KernelErrorCode::InvalidCurrentMemory => 106,
            KernelErrorCode::InvalidNewMemoryPermission => 108,
            KernelErrorCode::InvalidMemoryRegion => 110,
            KernelErrorCode::InvalidPriority => 112,
            KernelErrorCode::InvalidCoreId => 113,
            KernelErrorCode::InvalidHandle => 114,
            KernelErrorCode::InvalidPointer => 115,
            KernelErrorCode::InvalidCombination => 116,
            KernelErrorCode::TimedOut => 117,
            KernelErrorCode::Cancelled => 118,
            KernelErrorCode::OutOfRange => 119,
            KernelErrorCode::InvalidEnumValue => 120,
            KernelErrorCode::NotFound => 121,
            KernelErrorCode::Busy => 122,
            KernelErrorCode::SessionClosed => 123,
            KernelErrorCode::NotHandled => 124,
            KernelErrorCode::InvalidState => 125,
            KernelErrorCode::ReservedUsed => 126,
            KernelErrorCode::NotSupported => 127,
            KernelErrorCode::Debug => 128,
            KernelErrorCode::NoThread => 129,
            KernelErrorCode::UnknownThread => 130,
            KernelErrorCode::PortClosed => 131,
            KernelErrorCode::LimitReached => 132,
            KernelErrorCode::InvalidMemoryPool => 133,
            KernelErrorCode::ReceiveListBroken => 258,
            KernelErrorCode::OutOfAddressSpace => 259,
            KernelErrorCode::MessageTooLarge => 260,
            KernelErrorCode::InvalidProcessId => 517,
            KernelErrorCode::InvalidThreadId => 518,
            KernelErrorCode::InvalidId => 519,
            KernelErrorCode::ProcessTerminated => 520,
        }
    }

    /// The description of the error.
    pub fn to_u32(&self) -> (r: u32)
        ensures
            r == self.value_spec(),
    {
        match self {
            KernelErrorCode::OutOfSessions => 7,
            KernelErrorCode::InvalidArgument => 14,
            KernelErrorCode::NotImplemented => 33,
            KernelErrorCode::StopProcessingException => 54,
            KernelErrorCode::NoSynchronizationObject => 57,
            KernelErrorCode::TerminationRequested => 59,
            KernelErrorCode::NoEvent => 70,
            KernelErrorCode::InvalidSize => 101,
            KernelErrorCode::InvalidAddress => 102,
            KernelErrorCode::OutOfResource => 103,
            KernelErrorCode::OutOfMemory => 104,
            KernelErrorCode::OutOfHandles => 105,
            KernelErrorCode::InvalidCurrentMemory => 106,
            KernelErrorCode::InvalidNewMemoryPermission => 108,
            KernelErrorCode::InvalidMemoryRegion => 110,
            KernelErrorCode::InvalidPriority => 112,
            KernelErrorCode::InvalidCoreId => 113,
            KernelErrorCode::InvalidHandle => 114,
            KernelErrorCode::InvalidPointer => 115,
            KernelErrorCode::InvalidCombination => 116,
            KernelErrorCode::TimedOut => 117,
            KernelErrorCode::Cancelled => 118,
            KernelErrorCode::OutOfRange => 119,
            KernelErrorCode::InvalidEnumValue => 120,
            KernelErrorCode::NotFound => 121,
            KernelErrorCode::Busy => 122,
            KernelErrorCode::SessionClosed => 123,
            KernelErrorCode::NotHandled => 124,
            KernelErrorCode::InvalidState => 125,
            KernelErrorCode::ReservedUsed => 126,
            KernelErrorCode::NotSupported => 127,
            KernelErrorCode::Debug => 128,
            KernelErrorCode::NoThread => 129,
            KernelErrorCode::UnknownThread => 130,
            KernelErrorCode::PortClosed => 131,
            KernelErrorCode::LimitReached => 132,
            KernelErrorCode::InvalidMemoryPool => 133,
            KernelErrorCode::ReceiveListBroken => 258,
            KernelErrorCode::OutOfAddressSpace => 259,
            KernelErrorCode::MessageTooLarge => 260,
            KernelErrorCode::InvalidProcessId => 517,
            KernelErrorCode::InvalidThreadId => 518,
            KernelErrorCode::InvalidId => 519,
            KernelErrorCode::ProcessTerminated => 520,
        }
    }

    /// The error with description `v`, if there is one.
    pub fn try_from_u32(v: u32) -> (r: Result<Self, ()>)
        ensures
            r is Ok <==> kernel_code_known(v),
            r matches Ok(k) ==> k.value_spec() == v,
    {
        match v {
            7 => Ok(KernelErrorCode::OutOfSessions),
            14 => Ok(KernelErrorCode::InvalidArgument),
            33 => Ok(KernelErrorCode::NotImplemented),
            54 => Ok(KernelErrorCode::StopProcessingException),
            57 => Ok(KernelErrorCode::NoSynchronizationObject),
            59 => Ok(KernelErrorCode::TerminationRequested),
            70 => Ok(KernelErrorCode::NoEvent),
            101 => Ok(KernelErrorCode::InvalidSize),
            102 => Ok(KernelErrorCode::InvalidAddress),
            103 => Ok(KernelErrorCode::OutOfResource),
            104 => Ok(KernelErrorCode::OutOfMemory),
            105 => Ok(KernelErrorCode::OutOfHandles),
            106 => Ok(KernelErrorCode::InvalidCurrentMemory),
            108 => Ok(KernelErrorCode::InvalidNewMemoryPermission),
            110 => Ok(KernelErrorCode::InvalidMemoryRegion),
            112 => Ok(KernelErrorCode::InvalidPriority),
            113 => Ok(KernelErrorCode::InvalidCoreId),
            114 => Ok(KernelErrorCode::InvalidHandle),
            115 => Ok(KernelErrorCode::InvalidPointer),
            116 => Ok(KernelErrorCode::InvalidCombination),
            117 => Ok(KernelErrorCode::TimedOut),
            118 => Ok(KernelErrorCode::Cancelled),
            119 => Ok(KernelErrorCode::OutOfRange),
            120 => Ok(KernelErrorCode::InvalidEnumValue),
            121 => Ok(KernelErrorCode::NotFound),
            122 => Ok(KernelErrorCode::Busy),
            123 => Ok(KernelErrorCode::SessionClosed),
            124 => Ok(KernelErrorCode::NotHandled),
            125 => Ok(KernelErrorCode::InvalidState),
            126 => Ok(KernelErrorCode::ReservedUsed),
            127 => Ok(KernelErrorCode::NotSupported),
            128 => Ok(KernelErrorCode::Debug),
            129 => Ok(KernelErrorCode::NoThread),
            130 => Ok(KernelErrorCode::UnknownThread),
            131 => Ok(KernelErrorCode::PortClosed),
            132 => Ok(KernelErrorCode::LimitReached),
            133 => Ok(KernelErrorCode::InvalidMemoryPool),
            258 => Ok(KernelErrorCode::ReceiveListBroken),
            259 => Ok(KernelErrorCode::OutOfAddressSpace),
            260 => Ok(KernelErrorCode::MessageTooLarge),
            517 => Ok(KernelErrorCode::InvalidProcessId),
            518 => Ok(KernelErrorCode::InvalidThreadId),
            519 => Ok(KernelErrorCode::InvalidId),
            520 => Ok(KernelErrorCode::ProcessTerminated),
            _ => Err(()),
        }
    }
}

impl ErrorCodeModule for KernelErrorCode {
    const MODULE: u32 = 1;

    open spec fn knows_desc(desc: u32) -> bool {
        kernel_code_known(desc)
    }

    fn from_desc(desc: u32) -> (r: Self)
        ensures
            r.value_spec() == desc,
    {
        match KernelErrorCode::try_from_u32(desc) {
            Ok(k) => k,
            Err(_) => {
                proof {
                    assert(false);
                }
                KernelErrorCode::NotFound
            },
        }
    }
}

} // verus!
