//! Control of sessions: the request that closes one.

use vstd::prelude::*;
use crate::ipc::cmif::{CMIF_IN_MAGIC, CmifInHeader};
use crate::ipc::hipc::{CommandType, HipcHeader};
use crate::ipc::message::zeros;
use crate::ipc::wire::push_zeros;

verus! {

/// The bytes of the request that closes a session: a `Close` header that
/// announces ten data words, eight bytes of padding, the CMIF header of
/// command 3 and eight more bytes of padding.
pub open spec fn close_request_spec() -> Seq<u8> {
    (HipcHeader { word0: 2, word1: 10 }).bytes() + zeros(8) + (CmifInHeader {
        magic: CMIF_IN_MAGIC,
        version: 1,
        command_id: 3,
        token: 0,
    }).bytes() + zeros(8)
}

/// The request that closes a session; the server answers it with "port
/// dead", so its response is not read.
pub fn close_request() -> (r: Vec<u8>)
    ensures
        r@ == close_request_spec(),
{
    let hipc = HipcHeader::new(CommandType::Close.to_u16(), 0, 0, 0, 0, 10, 0, 0, false);
    let w0 = hipc.word0;
    let w1 = hipc.word1;
    proof {
        assert(0u32 & 0xf == 0 && 10u32 & 0x3ff == 10 && 0u32 & 0x7ff == 0) by (bit_vector);
        assert(w0 == 2 && w1 == 10) by (bit_vector)
            requires
                w0 & 0xffff == 2,
                (w0 >> 16u32) & 0xf == 0,
                (w0 >> 20u32) & 0xf == 0,
                (w0 >> 24u32) & 0xf == 0,
                (w0 >> 28u32) & 0xf == 0,
                w1 & 0x3ff == 10,
                (w1 >> 10u32) & 0xf == 0,
                (w1 >> 14u32) & 0x3f == 0,
                (w1 >> 20u32) & 0x7ff == 0,
                (w1 >> 31u32) & 1 == 0,
        ;
    }
    let mut r: Vec<u8> = Vec::new();
    hipc.write(&mut r);
    push_zeros(&mut r, 8);
    let cmif = CmifInHeader { magic: CMIF_IN_MAGIC, version: 1, command_id: 3, token: 0 };
    cmif.write(&mut r);
    push_zeros(&mut r, 8);
    assert(r@ =~= close_request_spec());
    r
}

} // verus!
