//! Protocol-level laws of the reassembly state machine, stated over the
//! functional model [`spec_rx`](crate::rx::spec_rx) and proved once and for
//! all.  Each law's doc comment states it in words.

use crate::codec::{
    lemma_cfp_field_bounds, spec_cfp_remain, spec_cfp_type, spec_conn_tag, CFP1_DATA_OFFSET,
    CFP_ID_CONN_MASK, CSP_BROADCAST_ADDR, CSP_BUFFER_SIZE,
};
use crate::csp_structs::{
    spec_wrap_inc, CfpFrameType, CspError, LayerData, PacketModel, RdpData,
};
use crate::pool::{
    lemma_find_from_first, lemma_find_from_none, lemma_find_from_some, lemma_free_from_some,
    spec_find_from, spec_free_from, spec_fresh_packet, spec_slot_matches,
};
use crate::rx::{
    spec_accum_packet, spec_continue, spec_declared_len, spec_deliver, spec_handle_frame, spec_rx,
    RxState,
};
use vstd::prelude::*;

verus! {

/// Where one incoming frame's buffer binds: the first tracked slot of its
/// stream, or, for a Begin frame whose stream has no tracked buffer, the
/// first free slot.
pub open spec fn spec_bind(s: RxState, id: u32, kind: CfpFrameType) -> Option<int> {
    match spec_find_from(s.slots, id, CFP_ID_CONN_MASK, 0) {
        Some(i) => Some(i),
        None => if kind == CfpFrameType::CfpBegin {
            spec_free_from(s.slots, 0)
        } else {
            None
        },
    }
}

/// An orphan More frame — one whose stream has no tracked buffer — is
/// refused with the invalid-argument error: the frame counter advances and
/// nothing else changes; in particular no buffer is allocated.
pub proof fn lemma_orphan_more_refused(s: RxState, id: u32, data: Seq<u8>)
    requires
        spec_cfp_type(id) == 1,
        spec_find_from(s.slots, id, CFP_ID_CONN_MASK, 0) is None,
    ensures
        spec_rx(s, id, data) == (
            RxState { frame: spec_wrap_inc(s.frame), ..s },
            CspError::Inval,
        ),
{
}

/// Any More frame whose decoded remaining count does not equal the bound
/// buffer's remaining count less one aborts the reassembly: the buffer is
/// hard-freed, the frame counter advances, and the driver is still told no
/// error occurred.
pub proof fn lemma_more_desync_aborts(s: RxState, id: u32, data: Seq<u8>, i: int)
    requires
        spec_cfp_type(id) == 1,
        spec_find_from(s.slots, id, CFP_ID_CONN_MASK, 0) == Some(i),
        s.slots[i].unwrap().layer matches LayerData::RxTx(rx) && spec_cfp_remain(id) + 1
            != rx.remain,
    ensures
        spec_rx(s, id, data) == (
            RxState { frame: spec_wrap_inc(s.frame), slots: s.slots.update(i, None), ..s },
            CspError::NoError,
        ),
{
    lemma_find_from_some(s.slots, id, CFP_ID_CONN_MASK, 0, i);
}

/// A Begin frame too short to hold the identifier header and the length
/// field is rejected: the bound buffer is hard-freed, the frame counter
/// advances, and the driver is still told no error occurred.
pub proof fn lemma_begin_undersized_rejected(s: RxState, id: u32, data: Seq<u8>, i: int)
    requires
        spec_cfp_type(id) == 0,
        data.len() < CFP1_DATA_OFFSET,
        spec_bind(s, id, CfpFrameType::CfpBegin) == Some(i),
    ensures
        spec_rx(s, id, data) == (
            RxState { frame: spec_wrap_inc(s.frame), slots: s.slots.update(i, None), ..s },
            CspError::NoError,
        ),
{
}

/// A Begin frame whose declared total length exceeds the buffer capacity is
/// rejected: the bound buffer is hard-freed and both the frame counter and
/// the receive-error counter advance, while the driver is still told no
/// error occurred.
pub proof fn lemma_begin_oversized_rejected(s: RxState, id: u32, data: Seq<u8>, i: int)
    requires
        spec_cfp_type(id) == 0,
        data.len() >= CFP1_DATA_OFFSET,
        spec_declared_len(data) > CSP_BUFFER_SIZE,
        spec_bind(s, id, CfpFrameType::CfpBegin) == Some(i),
    ensures
        spec_rx(s, id, data) == (
            RxState {
                frame: spec_wrap_inc(s.frame),
                rx_error: spec_wrap_inc(s.rx_error),
                slots: s.slots.update(i, None),
                ..s
            },
            CspError::NoError,
        ),
{
}

/// A Begin frame for a stream with an existing tracked buffer restarts that
/// buffer in place: the prior partial accumulation is discarded, and the
/// buffer's expected length, received count and accumulated bytes afterwards
/// are functions of the new frame alone.
pub proof fn lemma_begin_resets_existing(s: RxState, id: u32, data: Seq<u8>, i: int)
    requires
        spec_cfp_type(id) == 0,
        spec_find_from(s.slots, id, CFP_ID_CONN_MASK, 0) == Some(i),
        s.slots[i].unwrap().layer is RxTx,
        s.slots[i].unwrap().data.len() == CSP_BUFFER_SIZE,
        data.len() >= CFP1_DATA_OFFSET,
        spec_declared_len(data) <= CSP_BUFFER_SIZE,
        // strictly fewer bytes arrive than declared: the reassembly stays open
        data.len() - CFP1_DATA_OFFSET < spec_declared_len(data),
    ensures
        spec_rx(s, id, data).1 == CspError::NoError,
        spec_rx(s, id, data).0.queue == s.queue,
        spec_rx(s, id, data).0.slots[i] is Some,
        ({
            let p2 = spec_rx(s, id, data).0.slots[i].unwrap();
            &&& p2.length == spec_declared_len(data)
            &&& p2.layer matches LayerData::RxTx(rx2) && rx2.rx_count == data.len()
                - CFP1_DATA_OFFSET && rx2.remain == spec_cfp_remain(id)
            &&& forall|t: int|
                0 <= t < data.len() - CFP1_DATA_OFFSET ==> p2.data[t] == data[CFP1_DATA_OFFSET
                    + t]
        }),
{
    lemma_find_from_some(s.slots, id, CFP_ID_CONN_MASK, 0, i);
    lemma_cfp_field_bounds(id);
    let p = s.slots[i].unwrap();
    let s1 = RxState { frame: spec_wrap_inc(s.frame), ..s };
    let p1 = crate::rx::spec_begin_packet(p, id, data);
    let copy = data.len() - CFP1_DATA_OFFSET;
    let p2 = spec_accum_packet(p1, data, CFP1_DATA_OFFSET as int);
    assert(spec_rx(s, id, data).0 == spec_continue(
        s1,
        i,
        p1,
        id,
        data,
        CFP1_DATA_OFFSET as int,
    ));
    assert(spec_rx(s, id, data).0.slots[i] == Some(p2));
    assert forall|t: int| 0 <= t < copy implies p2.data[t] == data[CFP1_DATA_OFFSET + t] by {
        assert(p2.data == p1.data.take(0) + data.skip(CFP1_DATA_OFFSET as int) + p1.data.skip(
            copy as int,
        ));
        assert(p2.data[t] == data.skip(CFP1_DATA_OFFSET as int)[t]);
    }
}

/// The completion handler rewrites a broadcast destination to the local
/// address and passes every other destination through unchanged; every
/// other identifier field, the declared length and the accumulated bytes
/// are untouched, and the bookkeeping becomes the transport layer's with
/// the receive timestamp cleared.
pub proof fn lemma_deliver_destination(p: PacketModel, addr: u8)
    ensures
        p.id.dst == CSP_BROADCAST_ADDR ==> spec_deliver(p, addr).id.dst == addr,
        p.id.dst != CSP_BROADCAST_ADDR ==> spec_deliver(p, addr).id.dst == p.id.dst,
        spec_deliver(p, addr).id.src == p.id.src,
        spec_deliver(p, addr).id.pri == p.id.pri,
        spec_deliver(p, addr).id.flags == p.id.flags,
        spec_deliver(p, addr).id.dport == p.id.dport,
        spec_deliver(p, addr).id.sport == p.id.sport,
        spec_deliver(p, addr).length == p.length,
        spec_deliver(p, addr).data == p.data,
        spec_deliver(p, addr).header == p.header,
        spec_deliver(p, addr).layer == LayerData::Rdp(
            RdpData { rdp_quarantine: 0, timestamp_tx: 0, timestamp_rx: 0, conn: 0 },
        ),
{
}

/// Whatever frame arrives, the delivery queue either stays as it is or
/// grows by exactly one packet, and that packet has passed through the
/// completion handler with the local address of the state.
pub proof fn lemma_rx_delivery_form(s: RxState, id: u32, data: Seq<u8>)
    ensures
        spec_rx(s, id, data).0.queue == s.queue || exists|p: PacketModel|
            spec_rx(s, id, data).0.queue == s.queue.push(spec_deliver(p, s.addr)),
{
    match CfpFrameType::spec_classify(spec_cfp_type(id)) {
        Err(_) => {},
        Ok(kind) => match spec_find_from(s.slots, id, CFP_ID_CONN_MASK, 0) {
            Some(i) => {
                lemma_handle_delivery_form(s, i, s.slots[i].unwrap(), kind, id, data);
            },
            None => {
                if kind == CfpFrameType::CfpBegin {
                    match spec_free_from(s.slots, 0) {
                        Some(j) => {
                            lemma_handle_delivery_form(
                                s,
                                j,
                                crate::pool::spec_fresh_packet(id),
                                kind,
                                id,
                                data,
                            );
                        },
                        None => {},
                    }
                }
            },
        },
    }
}

/// One frame's handling either leaves the queue alone or pushes exactly one
/// delivered packet.
proof fn lemma_handle_delivery_form(
    s: RxState,
    i: int,
    p: PacketModel,
    kind: CfpFrameType,
    id: u32,
    data: Seq<u8>,
)
    ensures
        spec_handle_frame(s, i, p, kind, id, data).queue == s.queue || exists|q: PacketModel|
            spec_handle_frame(s, i, p, kind, id, data).queue == s.queue.push(
                spec_deliver(q, s.addr),
            ),
{
    if kind == CfpFrameType::CfpBegin {
        if data.len() < CFP1_DATA_OFFSET {
        } else {
            let s1 = RxState { frame: spec_wrap_inc(s.frame), ..s };
            if spec_declared_len(data) > CSP_BUFFER_SIZE {
            } else {
                lemma_continue_delivery_form(
                    s1,
                    i,
                    crate::rx::spec_begin_packet(p, id, data),
                    id,
                    data,
                    CFP1_DATA_OFFSET as int,
                );
            }
        }
    } else {
        lemma_continue_delivery_form(s, i, p, id, data, 0);
    }
}

/// The continuation step either leaves the queue alone or pushes exactly
/// one delivered packet.
proof fn lemma_continue_delivery_form(
    s: RxState,
    i: int,
    p: PacketModel,
    id: u32,
    data: Seq<u8>,
    offset: int,
)
    ensures
        spec_continue(s, i, p, id, data, offset).queue == s.queue || exists|q: PacketModel|
            spec_continue(s, i, p, id, data, offset).queue == s.queue.push(
                spec_deliver(q, s.addr),
            ),
{
    match p.layer {
        LayerData::RxTx(rx) => {
            if spec_cfp_remain(id) + 1 != rx.remain {
            } else {
                let copy = data.len() - offset;
                if p.length > CSP_BUFFER_SIZE || rx.rx_count + copy > p.length {
                } else if rx.rx_count + copy < p.length {
                } else {
                    let p2 = spec_accum_packet(p, data, offset);
                    assert(spec_continue(s, i, p, id, data, offset).queue == s.queue.push(
                        spec_deliver(p2, s.addr),
                    ));
                }
            }
        },
        LayerData::Rdp(_) => {},
    }
}

/// The state machine run over a sequence of frames, first to last,
/// discarding the per-frame statuses.
pub open spec fn spec_rx_seq(s: RxState, frames: Seq<(u32, Seq<u8>)>) -> RxState
    decreases frames.len(),
{
    if frames.len() == 0 {
        s
    } else {
        spec_rx_seq(spec_rx(s, frames[0].0, frames[0].1).0, frames.skip(1))
    }
}

/// Concatenation of the payloads of a sequence of More frames, in order.
pub open spec fn spec_more_payloads(frames: Seq<(u32, Seq<u8>)>) -> Seq<u8>
    decreases frames.len(),
{
    if frames.len() == 0 {
        Seq::empty()
    } else {
        frames[0].1 + spec_more_payloads(frames.skip(1))
    }
}

/// Total payload bytes carried by the first `j` frames of a More sequence.
pub open spec fn spec_more_len(frames: Seq<(u32, Seq<u8>)>, j: int) -> int
    decreases j,
{
    if j <= 0 {
        0
    } else {
        spec_more_len(frames, j - 1) + frames[j - 1].1.len()
    }
}

/// Dropping the first frame shifts the prefix sums by that frame's length.
proof fn lemma_more_len_skip(frames: Seq<(u32, Seq<u8>)>, j: int)
    requires
        frames.len() >= 1,
        0 <= j <= frames.len() - 1,
    ensures
        spec_more_len(frames.skip(1), j) == spec_more_len(frames, j + 1) - frames[0].1.len(),
    decreases j,
{
    if j <= 0 {
        assert(spec_more_len(frames.skip(1), 0) == 0);
        assert(spec_more_len(frames, 0) == 0);
        assert(spec_more_len(frames, 1) == frames[0].1.len());
    } else {
        lemma_more_len_skip(frames, j - 1);
        assert(frames.skip(1)[j - 1] == frames[j]);
        assert(spec_more_len(frames, j + 1) == spec_more_len(frames, j) + frames[j].1.len());
        assert(spec_more_len(frames.skip(1), j) == spec_more_len(frames.skip(1), j - 1)
            + frames.skip(1)[j - 1].1.len());
    }
}

/// A well-formed run of More frames for the buffer tracked in slot `i`:
/// every frame is a More frame of the stream of `id0`, the remaining counts
/// step down one by one from the buffer's, the bytes fill the declared
/// length exactly at the last frame and never earlier, and no other slot
/// matches the stream.
proof fn lemma_more_run(s: RxState, i: int, id0: u32, frames: Seq<(u32, Seq<u8>)>, payload: Seq<u8>)
    requires
        0 <= i < s.slots.len(),
        frames.len() >= 1,
        s.slots[i] is Some,
        ({
            let p = s.slots[i].unwrap();
            &&& p.layer matches LayerData::RxTx(rx) && {
                &&& rx.cfpid & CFP_ID_CONN_MASK == id0 & CFP_ID_CONN_MASK
                &&& rx.rx_count < p.length
                &&& forall|j: int|
                    0 <= j < frames.len() ==> spec_cfp_remain(#[trigger] frames[j].0) == rx.remain
                        - 1 - j
                &&& forall|j: int|
                    0 <= j < frames.len() ==> rx.rx_count + spec_more_len(frames, j) + (
                    #[trigger] frames[j].1).len() <= p.length
                &&& forall|j: int|
                    0 <= j < frames.len() - 1 ==> rx.rx_count + #[trigger] spec_more_len(
                        frames,
                        j + 1,
                    ) < p.length
                &&& rx.rx_count + spec_more_len(frames, frames.len() as int) == p.length
                &&& p.data.take(rx.rx_count as int) == payload.take(rx.rx_count as int)
                &&& spec_more_payloads(frames) == payload.skip(rx.rx_count as int)
            }
            &&& p.length <= CSP_BUFFER_SIZE
            &&& p.data.len() == CSP_BUFFER_SIZE
            &&& payload.len() == p.length
        }),
        forall|j: int|
            0 <= j < frames.len() ==> spec_cfp_type(#[trigger] frames[j].0) == 1 && spec_conn_tag(
                frames[j].0,
            ) == spec_conn_tag(id0),
        forall|k: int|
            0 <= k < s.slots.len() && k != i ==> !spec_slot_matches(
                #[trigger] s.slots[k],
                id0,
                CFP_ID_CONN_MASK,
            ),
    ensures
        ({
            let post = spec_rx_seq(s, frames);
            let p = s.slots[i].unwrap();
            &&& post.addr == s.addr
            &&& post.frame == s.frame
            &&& post.rx_error == s.rx_error
            &&& post.slots == s.slots.update(i, None)
            &&& post.queue == s.queue.push(post.queue.last())
            &&& post.queue.len() == s.queue.len() + 1
            &&& ({
                let d = post.queue.last();
                &&& d.length == p.length
                &&& d.data.take(p.length as int) == payload
                &&& d.id.dst == (if p.id.dst == CSP_BROADCAST_ADDR {
                    s.addr
                } else {
                    p.id.dst
                })
                &&& d.layer == LayerData::Rdp(
                    RdpData { rdp_quarantine: 0, timestamp_tx: 0, timestamp_rx: 0, conn: 0 },
                )
            })
        }),
    decreases frames.len(),
{
    let p = s.slots[i].unwrap();
    let rx = p.layer->RxTx_0;
    let id = frames[0].0;
    let data = frames[0].1;
    let acc = rx.rx_count as int;
    let copy = data.len() as int;

    // the frame binds to slot i: it is the only match of the stream
    assert(id & CFP_ID_CONN_MASK == id0 & CFP_ID_CONN_MASK);
    assert(spec_slot_matches(s.slots[i], id, CFP_ID_CONN_MASK));
    assert(forall|k: int|
        0 <= k < s.slots.len() && k != i ==> !spec_slot_matches(
            #[trigger] s.slots[k],
            id,
            CFP_ID_CONN_MASK,
        ));
    lemma_find_from_first(s.slots, id, CFP_ID_CONN_MASK, 0, i);

    // the frame continues the sequence and fits
    assert(spec_more_len(frames, 0) == 0);
    assert(spec_cfp_remain(id) == rx.remain - 1);
    assert(acc + copy <= p.length);
    let p2 = spec_accum_packet(p, data, 0);
    let step = spec_rx(s, id, data).0;
    assert(step == spec_continue(s, i, p, id, data, 0));

    // the accumulated prefix is the payload prefix
    assert(p2.data == p.data.take(acc) + data.skip(0) + p.data.skip(acc + copy));
    assert(data.skip(0) == data);
    assert(p2.data.len() == p.data.len());
    assert(payload.skip(acc).take(copy) == data) by {
        assert(spec_more_payloads(frames) == data + spec_more_payloads(frames.skip(1)));
        assert(payload.skip(acc).take(copy) =~= data);
    }
    assert(p2.data.take(acc + copy) =~= payload.take(acc + copy)) by {
        assert(forall|t: int|
            0 <= t < acc ==> payload.take(acc)[t] == #[trigger] payload[t] && p.data.take(acc)[t]
                == p.data[t]);
        assert(forall|t: int|
            acc <= t < acc + copy ==> #[trigger] payload[t] == payload.skip(acc)[t - acc]
                && payload.skip(acc).take(copy)[t - acc] == payload.skip(acc)[t - acc]);
    }

    if frames.len() == 1 {
        // the last frame completes the packet and hands it off
        assert(acc + copy == p.length);
        let d = spec_deliver(p2, s.addr);
        assert(step.queue == s.queue.push(d));
        assert(spec_rx_seq(s, frames) == spec_rx_seq(step, frames.skip(1)));
        assert(frames.skip(1).len() == 0);
        assert(spec_rx_seq(step, frames.skip(1)) == step);
        assert(d.data.take(p.length as int) == payload) by {
            assert(d.data == p2.data);
            assert(payload.take(acc + copy) =~= payload);
        }
    } else {
        // an intermediate frame: the buffer stays tracked, nothing else moves
        assert(0 <= 0 < frames.len() - 1);
        assert(rx.rx_count + spec_more_len(frames, 1) < p.length);
        assert(spec_more_len(frames, 1) == copy);
        assert(acc + copy < p.length);
        let s2 = RxState { slots: s.slots.update(i, Some(p2)), ..s };
        assert(step == s2);
        assert(spec_rx_seq(s, frames) == spec_rx_seq(s2, frames.skip(1)));

        // re-establish the run conditions for the rest of the frames
        let rx2 = p2.layer->RxTx_0;
        assert(rx2.rx_count == acc + copy && rx2.remain == rx.remain - 1);
        assert(forall|j: int|
            0 <= j < frames.skip(1).len() ==> #[trigger] frames.skip(1)[j] == frames[j + 1]);
        assert forall|j: int| 0 <= j < frames.skip(1).len() implies spec_cfp_remain(
            #[trigger] frames.skip(1)[j].0,
        ) == rx2.remain - 1 - j by {
            assert(frames.skip(1)[j] == frames[j + 1]);
        }
        assert forall|j: int| 0 <= j < frames.skip(1).len() implies rx2.rx_count + spec_more_len(
            frames.skip(1),
            j,
        ) + (#[trigger] frames.skip(1)[j].1).len() <= p2.length by {
            lemma_more_len_skip(frames, j);
            assert(frames.skip(1)[j] == frames[j + 1]);
        }
        assert forall|j: int| 0 <= j < frames.skip(1).len() - 1 implies rx2.rx_count
            + #[trigger] spec_more_len(frames.skip(1), j + 1) < p2.length by {
            lemma_more_len_skip(frames, j + 1);
        }
        assert(rx2.rx_count + spec_more_len(frames.skip(1), frames.skip(1).len() as int)
            == p2.length) by {
            lemma_more_len_skip(frames, frames.len() - 1);
        }
        assert(spec_more_payloads(frames.skip(1)) == payload.skip(acc + copy)) by {
            let rest = spec_more_payloads(frames.skip(1));
            assert(spec_more_payloads(frames) == data + rest);
            assert(spec_more_payloads(frames).len() == payload.len() - acc);
            assert(rest.len() == payload.len() - acc - copy);
            assert forall|t: int| 0 <= t < rest.len() implies rest[t] == payload.skip(acc + copy)[t]
                by {
                assert((data + rest)[copy + t] == rest[t]);
                assert(payload.skip(acc)[copy + t] == payload[acc + copy + t]);
            }
            assert(rest =~= payload.skip(acc + copy));
        }
        assert forall|j: int|
            0 <= j < frames.skip(1).len() implies spec_cfp_type(#[trigger] frames.skip(1)[j].0)
            == 1 && spec_conn_tag(frames.skip(1)[j].0) == spec_conn_tag(id0) by {
            assert(frames.skip(1)[j] == frames[j + 1]);
        }
        assert(forall|k: int|
            0 <= k < s2.slots.len() && k != i ==> s2.slots[k] == s.slots[k]);

        lemma_more_run(s2, i, id0, frames.skip(1), payload);

        let post = spec_rx_seq(s2, frames.skip(1));
        assert(post.slots == s2.slots.update(i, None));
        assert(post.slots =~= s.slots.update(i, None));
    }
}

/// For every valid Begin frame followed by the matching sequence of More
/// frames whose declared length fits the buffer capacity and whose bytes
/// fill it exactly at the last frame, the run delivers exactly one packet,
/// its payload equals the concatenation of the fragment payloads in order,
/// and the accumulated byte count equals the declared length at completion;
/// only the Begin frame advances the frame counter.
pub proof fn lemma_reassembly_concatenates(
    s: RxState,
    i: int,
    id0: u32,
    data0: Seq<u8>,
    mores: Seq<(u32, Seq<u8>)>,
)
    requires
        spec_cfp_type(id0) == 0,
        spec_find_from(s.slots, id0, CFP_ID_CONN_MASK, 0) is None,
        spec_free_from(s.slots, 0) == Some(i),
        data0.len() >= CFP1_DATA_OFFSET,
        spec_declared_len(data0) <= CSP_BUFFER_SIZE,
        ({
            let c0 = data0.len() - CFP1_DATA_OFFSET;
            let total = spec_declared_len(data0) as int;
            &&& (mores.len() >= 1 ==> c0 < total)
            &&& (mores.len() == 0 ==> c0 == total)
            &&& forall|j: int|
                0 <= j < mores.len() ==> c0 + spec_more_len(mores, j) + (
                #[trigger] mores[j].1).len() <= total
            &&& forall|j: int|
                0 <= j < mores.len() - 1 ==> c0 + #[trigger] spec_more_len(mores, j + 1) < total
            &&& c0 + spec_more_len(mores, mores.len() as int) == total
        }),
        forall|j: int|
            0 <= j < mores.len() ==> spec_cfp_type(#[trigger] mores[j].0) == 1 && spec_conn_tag(
                mores[j].0,
            ) == spec_conn_tag(id0),
        forall|j: int|
            0 <= j < mores.len() ==> spec_cfp_remain(#[trigger] mores[j].0) == spec_cfp_remain(
                id0,
            ) - 1 - j,
    ensures
        ({
            let post = spec_rx_seq(s, seq![(id0, data0)] + mores);
            let payload = data0.skip(CFP1_DATA_OFFSET as int) + spec_more_payloads(mores);
            &&& post.addr == s.addr
            &&& post.frame == spec_wrap_inc(s.frame)
            &&& post.rx_error == s.rx_error
            &&& post.queue == s.queue.push(post.queue.last())
            &&& post.queue.len() == s.queue.len() + 1
            &&& ({
                let d = post.queue.last();
                &&& d.length == spec_declared_len(data0)
                &&& payload.len() == d.length
                &&& d.data.take(d.length as int) == payload
                &&& d.layer == LayerData::Rdp(
                    RdpData { rdp_quarantine: 0, timestamp_tx: 0, timestamp_rx: 0, conn: 0 },
                )
            })
        }),
{
    lemma_cfp_field_bounds(id0);
    lemma_free_from_some(s.slots, 0, i);
    lemma_find_from_none(s.slots, id0, CFP_ID_CONN_MASK, 0);
    let frames = seq![(id0, data0)] + mores;
    assert(frames[0] == (id0, data0));
    assert(frames.skip(1) =~= mores);
    let c0 = data0.len() - CFP1_DATA_OFFSET;
    let total = spec_declared_len(data0) as int;
    let payload = data0.skip(CFP1_DATA_OFFSET as int) + spec_more_payloads(mores);

    // the Begin frame allocates the fresh buffer in slot i and accumulates
    // its first bytes
    let p0 = spec_fresh_packet(id0);
    let s1 = RxState { frame: spec_wrap_inc(s.frame), ..s };
    let p1 = crate::rx::spec_begin_packet(p0, id0, data0);
    let step = spec_rx(s, id0, data0).0;
    assert(step == spec_continue(s1, i, p1, id0, data0, CFP1_DATA_OFFSET as int));
    let p2 = spec_accum_packet(p1, data0, CFP1_DATA_OFFSET as int);
    assert(p2.data == p1.data.take(0) + data0.skip(CFP1_DATA_OFFSET as int) + p1.data.skip(c0));
    assert(p2.data.len() == CSP_BUFFER_SIZE);
    let rx2 = p2.layer->RxTx_0;
    assert(rx2.rx_count == c0 && rx2.remain == spec_cfp_remain(id0) && rx2.cfpid == id0);
    assert(p2.data.take(c0) =~= data0.skip(CFP1_DATA_OFFSET as int));

    // the total payload has the declared length
    lemma_more_payloads_len(mores);
    assert(payload.len() == total);

    assert(spec_rx_seq(s, frames) == spec_rx_seq(step, mores)) by {
        assert(spec_rx_seq(s, frames) == spec_rx_seq(spec_rx(s, id0, data0).0, frames.skip(1)));
        assert(frames.skip(1) =~= mores);
    }

    if mores.len() == 0 {
        // the Begin frame alone completes the packet
        assert(c0 == total);
        let d = spec_deliver(p2, s1.addr);
        assert(step.queue == s.queue.push(d));
        assert(spec_rx_seq(step, mores) == step);
        assert(d.data.take(total) =~= payload);
    } else {
        // the buffer stays tracked with the Begin bytes accumulated
        assert(c0 < total);
        assert(step == RxState {
            frame: spec_wrap_inc(s.frame),
            slots: s.slots.update(i, Some(p2)),
            ..s
        });
        assert(payload.take(c0) =~= data0.skip(CFP1_DATA_OFFSET as int));
        assert(p2.data.take(c0) == payload.take(c0));
        assert(spec_more_payloads(mores) =~= payload.skip(c0));
        assert(forall|k: int|
            0 <= k < step.slots.len() && k != i ==> step.slots[k] == s.slots[k]);
        lemma_more_run(step, i, id0, mores, payload);
        let post = spec_rx_seq(step, mores);
        assert(post.slots == step.slots.update(i, None));
    }
}

/// Length of the concatenation of a More sequence's payloads.
proof fn lemma_more_payloads_len(frames: Seq<(u32, Seq<u8>)>)
    ensures
        spec_more_payloads(frames).len() == spec_more_len(frames, frames.len() as int),
    decreases frames.len(),
{
    if frames.len() == 0 {
    } else {
        lemma_more_payloads_len(frames.skip(1));
        lemma_more_len_skip(frames, frames.len() - 1);
    }
}

} // verus!
