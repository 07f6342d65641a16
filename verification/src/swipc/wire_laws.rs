//! The sizes the code generator gives a command's messages agree with how
//! the IPC runtime lays those messages out: a request that carries the
//! command's process id, handles, descriptors and raw data has its CMIF
//! header where the generator says, and the length the generator says.

use vstd::prelude::*;
use crate::ipc::hipc::{HipcInPointerBufferDescriptor, HipcMapAliasBufferDescriptor, HipcOutPointerBufferDescriptor};
use crate::ipc::message::{Request, align4, concat_map, pad16, response_shape, zeros};
use crate::ipc::wire::le_u32;
use crate::ipc::cmif::{CmifInHeader, CMIF_IN_MAGIC};
use crate::swipc::model::{BufferTransferMode, Direction, HandleTransferType};
use crate::swipc::wire_format::{
    HandleInView, HandleOutView, WireView, buffers_with, handles_by, request_sizes_spec, response_sizes_spec,
    sized_count,
};

verus! {

/// Whether the runtime request `r` carries what the command with wire
/// format `w` sends, with raw data of `raw` bytes: the process id when the
/// command sends it, as many copied and moved handles as it has, one
/// descriptor per incoming pointer, incoming map-alias and outgoing
/// map-alias buffer, none for in-out map-alias buffers, one receive list
/// entry per outgoing pointer buffer.
pub open spec fn request_carries(r: Request, w: WireView, raw: nat) -> bool {
    let n = w.buffers.len() as int;
    let kinds = w.handles_in.map_values(|h: HandleInView| h.transfer_type);
    &&& r.send_pid == w.should_pass_pid
    &&& r.copy_handles@.len() == handles_by(kinds, HandleTransferType::Copy, kinds.len() as int)
    &&& r.move_handles@.len() == handles_by(kinds, HandleTransferType::Move, kinds.len() as int)
    &&& r.in_pointers@.len() == buffers_with(w.buffers, Direction::In, BufferTransferMode::Pointer, n).len()
    &&& r.in_map_aliases@.len() == buffers_with(w.buffers, Direction::In, BufferTransferMode::MapAlias, n).len()
    &&& r.out_map_aliases@.len() == buffers_with(w.buffers, Direction::Out, BufferTransferMode::MapAlias, n).len()
    &&& r.inout_map_aliases@.len() == 0
    &&& r.out_pointers@.len() == buffers_with(w.buffers, Direction::Out, BufferTransferMode::Pointer, n).len()
    &&& r.raw_data@.len() == raw
}

/// The number of outgoing pointer buffers without a fixed size, whose `u16`
/// sizes the generated request carries after its data words.
pub open spec fn unsized_out_pointers(w: WireView) -> nat {
    let ob = buffers_with(w.buffers, Direction::Out, BufferTransferMode::Pointer, w.buffers.len() as int);
    sized_count(ob, ob.len() as int)
}

/// Laid out as the code generator lays it out, a command's request puts its
/// CMIF header right after everything the runtime writes before the data
/// words (the header, special header, process id, handles and descriptors,
/// whatever their bytes); its data section is the runtime's data words plus
/// the `u16` sizes of the unsized outgoing pointer buffers, in whole words;
/// and the whole request is the runtime's request with those words added.
pub proof fn lemma_request_sizes_match_runtime(w: WireView, raw: nat, r: Request)
    requires
        request_carries(r, w, raw),
    ensures
        request_sizes_spec(w, raw).0 == r.prefix_spec().len(),
        request_sizes_spec(w, raw).1 == 4 * r.num_data_words() + 4 * ((unsized_out_pointers(w) + 1) / 2),
        request_sizes_spec(w, raw).2 == r.bytes_spec().len() + 4 * ((unsized_out_pointers(w) + 1) / 2),
{
    let kinds = w.handles_in.map_values(|h: HandleInView| h.transfer_type);
    lemma_handles_split(kinds, kinds.len() as int);
    lemma_concat_len(r.copy_handles@, |h: u32| le_u32(h), 4);
    lemma_concat_len(r.move_handles@, |h: u32| le_u32(h), 4);
    lemma_concat_len(r.in_pointers@, |d: HipcInPointerBufferDescriptor| d.bytes(), 8);
    lemma_concat_len(r.in_map_aliases@, |d: HipcMapAliasBufferDescriptor| d.bytes(), 12);
    lemma_concat_len(r.out_map_aliases@, |d: HipcMapAliasBufferDescriptor| d.bytes(), 12);
    lemma_concat_len(r.inout_map_aliases@, |d: HipcMapAliasBufferDescriptor| d.bytes(), 12);
    lemma_concat_len(r.out_pointers@, |d: HipcOutPointerBufferDescriptor| d.bytes(), 8);
    assert(r.header_spec().bytes().len() == 8);
    assert(r.has_special() == (w.should_pass_pid || w.handles_in.len() > 0));
    let cmif = CmifInHeader { magic: CMIF_IN_MAGIC, version: 1, command_id: r.command_id, token: 0 };
    assert(cmif.bytes().len() == 16);
    let rl = r.raw_data@.len();
    assert(align4(rl) == rl + (4 - rl % 4) % 4) by {
        assert(rl % 4 == 0 || rl % 4 == 1 || rl % 4 == 2 || rl % 4 == 3);
    }
    let s = unsized_out_pointers(w);
    assert(2 * s + (if s % 2 != 0 { 2int } else { 0int }) == 4 * ((s + 1) / 2)) by {
        assert(s % 2 == 0 || s % 2 == 1);
    }
    assert((32 + align4(rl)) % 4 == 0) by {
        assert(align4(rl) == (rl + 3) / 4 * 4);
        assert(((rl + 3) / 4 * 4) % 4 == 0) by (nonlinear_arith);
    }
    assert(4 * r.num_data_words() == 32 + align4(rl));
    assert(pad16(r.prefix_spec().len()) <= 16);
}

/// Whether the headers at the start of `b` describe a response without a
/// process id and with `n_in_pointers` pointer descriptors and no map-alias
/// ones; with a special header exactly when `special`, holding `copies`
/// copied and `moves` moved handles.
pub open spec fn response_headers(b: Seq<u8>, special: bool, copies: nat, moves: nat, n_in_pointers: nat) -> bool {
    let sh = response_shape(b);
    &&& sh.header.has_special_header_spec() == (if special { 1u32 } else { 0u32 })
    &&& sh.pid_at is None
    &&& special ==> sh.num_copy == copies && sh.num_move == moves
    &&& sh.header.num_in_pointers_spec() == n_in_pointers
    &&& sh.header.num_in_map_aliases_spec() == 0
    &&& sh.header.num_out_map_aliases_spec() == 0
    &&& sh.header.num_inout_map_aliases_spec() == 0
}

/// The response the code generator expects has its CMIF header where the
/// runtime reads it: after the headers, handles and pointer descriptors,
/// padded to 16 bytes. A failed call's response, which comes without the
/// special header and handles, has its result 8 bytes into the CMIF header
/// the runtime reads there, which is where the generator reads it.
pub proof fn lemma_response_sizes_match_runtime(w: WireView, raw: nat, b: Seq<u8>, b_failed: Seq<u8>)
    requires
        ({
            let kinds = w.handles_out.map_values(|h: HandleOutView| h.transfer_type);
            let out_ptr = buffers_with(w.buffers, Direction::Out, BufferTransferMode::Pointer, w.buffers.len() as int).len();
            &&& response_headers(
                b,
                w.handles_out.len() > 0,
                handles_by(kinds, HandleTransferType::Copy, kinds.len() as int),
                handles_by(kinds, HandleTransferType::Move, kinds.len() as int),
                out_ptr,
            )
            &&& response_headers(b_failed, false, 0, 0, out_ptr)
        }),
    ensures
        response_sizes_spec(w, raw).0 + pad16(response_sizes_spec(w, raw).0 as nat) == response_shape(b).cmif_at,
        response_sizes_spec(w, raw).3 == response_shape(b_failed).cmif_at + 8,
{
    let kinds = w.handles_out.map_values(|h: HandleOutView| h.transfer_type);
    lemma_handles_split(kinds, kinds.len() as int);
}

/// Each handle is copied or moved: the two counts add up to all of them.
proof fn lemma_handles_split(kinds: Seq<HandleTransferType>, n: int)
    requires
        0 <= n <= kinds.len(),
    ensures
        handles_by(kinds, HandleTransferType::Copy, n) + handles_by(kinds, HandleTransferType::Move, n) == n,
    decreases n,
{
    if n > 0 {
        lemma_handles_split(kinds, n - 1);
    }
}

/// Pieces of `k` bytes each make `k` bytes per element.
proof fn lemma_concat_len<T>(s: Seq<T>, f: spec_fn(T) -> Seq<u8>, k: nat)
    requires
        forall|x: T| #[trigger] f(x).len() == k,
    ensures
        concat_map(s, f).len() == k * s.len(),
    decreases s.len(),
{
    if s.len() > 0 {
        lemma_concat_len(s.drop_last(), f, k);
        assert(k * (s.len() - 1) + k == k * s.len()) by (nonlinear_arith);
    }
}

} // verus!
