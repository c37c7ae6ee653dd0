//! The fragment-reassembly state machine: classifies each incoming frame,
//! binds it to an in-progress packet buffer from the pool, validates and
//! accumulates its payload bytes, and hands a completed packet to the
//! upstream delivery queue.
//!
//! The whole observable effect of one call is pinned down by [`spec_rx`], a
//! functional model of the state machine over the ghost state [`RxState`];
//! the entry point [`csp_can1_rx`] is proved to implement it exactly.

use crate::codec::{
    cfp_remain, cfp_type, lemma_cfp_field_bounds, spec_cfp_remain, spec_cfp_type,
    CAN_FRAME_SIZE, CFP1_CSP_HEADER_SIZE, CFP1_DATA_OFFSET, CFP_ID_CONN_MASK, CSP_BROADCAST_ADDR,
    CSP_BUFFER_SIZE,
};
use crate::csp_structs::{
    csp_id_from_word, spec_id_from_word, spec_id_word, spec_packet_wf, spec_wrap_inc, CfpFrameType,
    CspError, CspId, CspIface, CspPacket, LayerData, PacketModel, RdpData, RxTxData,
};
use crate::pool::{
    lemma_find_from_some, lemma_free_from_some, spec_find_from, spec_free_from, spec_fresh_packet,
    CspPool,
};
use vstd::prelude::*;

verus! {

/// Ghost state of one link: the interface's address and counters, the pool's
/// slots, and the upstream delivery queue.
#[verifier::ext_equal]
pub ghost struct RxState {
    /// Address of the local node on this link.
    pub addr: u8,
    /// Frame counter of the link.
    pub frame: u32,
    /// Receive-error counter of the link.
    pub rx_error: u32,
    /// The pool's slots.
    pub slots: Seq<Option<PacketModel>>,
    /// Packets handed off to the upstream delivery queue, oldest first.
    pub queue: Seq<PacketModel>,
}

/// The ghost state made from the interface, the pool and the queue.
pub open spec fn spec_state(iface: CspIface, pool: CspPool, queue: Seq<CspPacket>) -> RxState {
    RxState {
        addr: iface.addr,
        frame: iface.frame,
        rx_error: iface.rx_error,
        slots: pool@,
        queue: spec_queue_model(queue),
    }
}

/// The models of the packets on the delivery queue, oldest first.
pub open spec fn spec_queue_model(q: Seq<CspPacket>) -> Seq<PacketModel> {
    q.map_values(|p: CspPacket| p@)
}

/// Declared total payload length, read little-endian from the length field
/// of a Begin frame's payload.
pub open spec fn spec_declared_len(data: Seq<u8>) -> u16
    recommends
        data.len() >= CFP1_DATA_OFFSET,
{
    (data[4] as u16) | ((data[5] as u16) << 8)
}

/// The buffer's payload storage after the bytes of `data` from `offset` on
/// have been copied into it starting at position `rx`.
pub open spec fn spec_copy_into(buf: Seq<u8>, rx: int, data: Seq<u8>, offset: int) -> Seq<u8>
    recommends
        0 <= offset <= data.len(),
        0 <= rx,
        rx + (data.len() - offset) <= buf.len(),
{
    buf.take(rx) + data.skip(offset) + buf.skip(rx + (data.len() - offset))
}

/// A packet as it is handed to the upstream queue: a broadcast destination
/// rewritten to the local address, and the bookkeeping reinterpreted as the
/// transport layer's, with the receive timestamp cleared as the marker that
/// the reinterpretation has begun.
pub open spec fn spec_deliver(p: PacketModel, addr: u8) -> PacketModel {
    PacketModel {
        layer: LayerData::Rdp(
            RdpData { rdp_quarantine: 0, timestamp_tx: 0, timestamp_rx: 0, conn: 0 },
        ),
        id: CspId {
            dst: if p.id.dst == CSP_BROADCAST_ADDR {
                addr
            } else {
                p.id.dst
            },
            ..p.id
        },
        ..p
    }
}

/// Outcome of the continuation step shared by an accepted Begin frame and
/// every More frame: the fragment-sequence check, the overflow checks, the
/// payload copy and the completion decision.  The buffer bound to the frame
/// is `p`, held in slot `i`; `offset` is where the payload data starts
/// inside the frame.
pub open spec fn spec_continue(
    s: RxState,
    i: int,
    p: PacketModel,
    id: u32,
    data: Seq<u8>,
    offset: int,
) -> RxState
    recommends
        0 <= i < s.slots.len(),
        0 <= offset <= data.len(),
        p.layer is RxTx,
{
    match p.layer {
        LayerData::RxTx(rx) => {
            if spec_cfp_remain(id) + 1 != rx.remain {
                // fragment-sequence desync: count the frame, hard-free the buffer
                RxState { frame: spec_wrap_inc(s.frame), slots: s.slots.update(i, None), ..s }
            } else {
                let copy = data.len() - offset;
                if p.length > CSP_BUFFER_SIZE || rx.rx_count + copy > p.length {
                    // overflow or length inconsistency: count, hard-free
                    RxState { frame: spec_wrap_inc(s.frame), slots: s.slots.update(i, None), ..s }
                } else {
                    let p2 = spec_accum_packet(p, data, offset);
                    if rx.rx_count + copy < p.length {
                        // more fragments expected: the buffer stays tracked
                        RxState { slots: s.slots.update(i, Some(p2)), ..s }
                    } else {
                        // complete: soft-detach and hand off
                        RxState {
                            slots: s.slots.update(i, None),
                            queue: s.queue.push(spec_deliver(p2, s.addr)),
                            ..s
                        }
                    }
                }
            }
        },
        LayerData::Rdp(_) => s,
    }
}

/// Outcome of one frame once a buffer has been bound to it in slot `i`: the
/// Begin-path validation and setup followed by the continuation step, or the
/// continuation step alone for a More frame.
pub open spec fn spec_handle_frame(
    s: RxState,
    i: int,
    p: PacketModel,
    kind: CfpFrameType,
    id: u32,
    data: Seq<u8>,
) -> RxState
    recommends
        0 <= i < s.slots.len(),
        p.layer is RxTx,
{
    if kind == CfpFrameType::CfpBegin {
        if data.len() < CFP1_DATA_OFFSET {
            // frame too small to hold the identifier and the length field
            RxState { frame: spec_wrap_inc(s.frame), slots: s.slots.update(i, None), ..s }
        } else {
            let s1 = RxState { frame: spec_wrap_inc(s.frame), ..s };
            if spec_declared_len(data) > CSP_BUFFER_SIZE {
                // declared length exceeds the buffer's capacity
                RxState {
                    rx_error: spec_wrap_inc(s1.rx_error),
                    slots: s1.slots.update(i, None),
                    ..s1
                }
            } else {
                spec_continue(s1, i, spec_begin_packet(p, id, data), id, data, CFP1_DATA_OFFSET as int)
            }
        }
    } else {
        spec_continue(s, i, p, id, data, 0)
    }
}

/// Functional model of the reassembly state machine: the state after one
/// frame, and the status reported to the bus driver.  Every validation
/// failure past classification and buffer binding is absorbed: the frame is
/// discarded, counters updated, the buffer freed, and the driver is still
/// told the call succeeded.
pub open spec fn spec_rx(s: RxState, id: u32, data: Seq<u8>) -> (RxState, CspError) {
    match CfpFrameType::spec_classify(spec_cfp_type(id)) {
        Err(_) => (s, CspError::Inval),
        Ok(kind) => match spec_find_from(s.slots, id, CFP_ID_CONN_MASK, 0) {
            Some(i) => (
                spec_handle_frame(s, i, s.slots[i].unwrap(), kind, id, data),
                CspError::NoError,
            ),
            None => {
                if kind == CfpFrameType::CfpBegin {
                    match spec_free_from(s.slots, 0) {
                        Some(j) => (
                            spec_handle_frame(s, j, spec_fresh_packet(id), kind, id, data),
                            CspError::NoError,
                        ),
                        None => (
                            RxState { rx_error: spec_wrap_inc(s.rx_error), ..s },
                            CspError::Nomem,
                        ),
                    }
                } else {
                    (RxState { frame: spec_wrap_inc(s.frame), ..s }, CspError::Inval)
                }
            },
        },
    }
}

/// Handles one incoming CSP 1.x CAN frame.
///
/// Classifies the frame from its arbitration field `id`, binds it to the
/// in-progress buffer of its connection tag (allocating one from the pool
/// for a Begin frame), validates it, accumulates its payload, and on
/// completion pushes the finished packet onto `queue`, setting `task_woken`
/// so the caller can wake the consuming task.  The new state of the
/// interface, the pool and the queue, and the returned status, are exactly
/// those of the functional model [`spec_rx`].
pub fn csp_can1_rx(
    iface: &mut CspIface,
    pool: &mut CspPool,
    queue: &mut Vec<CspPacket>,
    id: u32,
    data: &[u8],
    task_woken: &mut bool,
) -> (r: CspError)
    requires
        data@.len() <= CAN_FRAME_SIZE as int,
        old(pool).wf(),
    ensures
        final(pool).wf(),
        spec_state(*final(iface), *final(pool), final(queue)@) == spec_rx(
            spec_state(*old(iface), *old(pool), old(queue)@),
            id,
            data@,
        ).0,
        r == spec_rx(spec_state(*old(iface), *old(pool), old(queue)@), id, data@).1,
        *final(task_woken) <==> final(queue)@.len() > old(queue)@.len(),
{
    let ghost pre = spec_state(*iface, *pool, queue@);
    *task_woken = false;
    proof {
        lemma_cfp_field_bounds(id);
    }

    // classify the frame
    let kind = match CfpFrameType::classify(cfp_type(id)) {
        Ok(k) => k,
        Err(_) => {
            return CspError::Inval;
        },
    };

    // bind the frame to a packet buffer
    let found = pool.find(id, CFP_ID_CONN_MASK);
    let (idx, mut pkt): (usize, CspPacket) = match found {
        Some(i) => {
            proof {
                lemma_find_from_some(pre.slots, id, CFP_ID_CONN_MASK, 0, i as int);
            }
            let p = pool.take(i);
            (i, p)
        },
        None => {
            if kind == CfpFrameType::CfpBegin {
                match pool.allocate(id) {
                    Some(j) => {
                        proof {
                            lemma_free_from_some(pre.slots, 0, j as int);
                        }
                        let p = pool.take(j);
                        (j, p)
                    },
                    None => {
                        iface.rx_error = iface.rx_error.wrapping_add(1);
                        proof {
                            assert(spec_state(*iface, *pool, queue@) =~~= spec_rx(
                                pre,
                                id,
                                data@,
                            ).0);
                        }
                        return CspError::Nomem;
                    },
                }
            } else {
                // orphan continuation fragment: no buffer exists to free
                iface.frame = iface.frame.wrapping_add(1);
                proof {
                    assert(spec_state(*iface, *pool, queue@) =~~= spec_rx(pre, id, data@).0);
                }
                return CspError::Inval;
            }
        },
    };
    let ghost p0 = pkt@;
    let ghost islot = idx as int;
    proof {
        assert(spec_packet_wf(p0) && p0.layer is RxTx);
        assert(pool@ =~= pre.slots.update(islot, None));
    }

    // handle the frame
    let mut offset: usize = 0;
    if kind == CfpFrameType::CfpBegin {
        // discard the frame if it cannot hold the CSP identifier and the
        // length field
        if data.len() < CFP1_DATA_OFFSET as usize {
            iface.frame = iface.frame.wrapping_add(1);
            proof {
                assert(spec_state(*iface, *pool, queue@) =~~= spec_rx(pre, id, data@).0);
            }
            return CspError::NoError;
        }
        iface.frame = iface.frame.wrapping_add(1);

        // copy the CSP identifier header into the stored header region and
        // decode it
        let mut header: Vec<u8> = Vec::new();
        header.push(data[0]);
        header.push(data[1]);
        header.push(data[2]);
        header.push(data[3]);
        pkt.header = header;
        let word: u32 = ((data[0] as u32) << 24) | ((data[1] as u32) << 16) | ((data[2] as u32)
            << 8) | (data[3] as u32);
        pkt.id = csp_id_from_word(word);

        // read the declared total length of the packet's payload
        let declared: u16 = (data[4] as u16) | ((data[5] as u16) << 8);
        pkt.length = declared;

        // reject a declared length larger than the buffer's capacity
        if declared as usize > CSP_BUFFER_SIZE {
            iface.rx_error = iface.rx_error.wrapping_add(1);
            proof {
                assert(spec_state(*iface, *pool, queue@) =~~= spec_rx(pre, id, data@).0);
            }
            return CspError::NoError;
        }

        // reset the link-layer bookkeeping for the new reassembly
        let rx0 = match pkt.layer {
            LayerData::RxTx(rx) => rx,
            LayerData::Rdp(_) => vstd::pervasive::unreached(),
        };
        pkt.layer = LayerData::RxTx(
            RxTxData {
                rx_count: 0,
                remain: cfp_remain(id) as u16 + 1,
                cfpid: rx0.cfpid,
                last_used: rx0.last_used,
                frame_length: CFP1_CSP_HEADER_SIZE as u16,
            },
        );

        // skip the header and length fields when copying payload bytes
        offset = CFP1_DATA_OFFSET as usize;
        proof {
            assert(pkt@ =~~= spec_begin_packet(p0, id, data@));
        }
    }

    let ghost pc = pkt@;
    proof {
        assert(pc.layer is RxTx && spec_packet_wf(pc));
    }

    let rxd = match pkt.layer {
        LayerData::RxTx(rx) => rx,
        LayerData::Rdp(_) => vstd::pervasive::unreached(),
    };

    // verify that the frame's remaining count continues the sequence
    if cfp_remain(id) + 1 != rxd.remain as u32 {
        iface.frame = iface.frame.wrapping_add(1);
        proof {
            assert(spec_state(*iface, *pool, queue@) =~~= spec_rx(pre, id, data@).0);
        }
        return CspError::NoError;
    }

    // one fragment fewer is now expected
    let rem2: u16 = rxd.remain - 1;

    // bytes of this frame that belong to the payload
    let copy_length: u16 = (data.len() - offset) as u16;

    // re-validate the expected length against the capacity and the copy
    // against the expected length
    if pkt.length as usize > CSP_BUFFER_SIZE || rxd.rx_count + copy_length > pkt.length {
        iface.frame = iface.frame.wrapping_add(1);
        proof {
            assert(spec_state(*iface, *pool, queue@) =~~= spec_rx(pre, id, data@).0);
        }
        return CspError::NoError;
    }

    // copy the payload bytes into the buffer
    let ghost d0 = pkt@.data;
    let mut k: u16 = 0;
    while k < copy_length
        invariant
            k <= copy_length,
            offset <= data@.len(),
            offset + copy_length == data@.len(),
            data@.len() <= CAN_FRAME_SIZE as int,
            rxd.rx_count + copy_length <= pkt@.data.len(),
            pkt@.data.len() == d0.len(),
            d0.len() <= CSP_BUFFER_SIZE,
            pkt@.layer == pc.layer,
            pkt@.length == pc.length,
            pkt@.id == pc.id,
            pkt@.header == pc.header,
            forall|t: int| 0 <= t < rxd.rx_count ==> pkt@.data[t] == d0[t],
            forall|t: int|
                rxd.rx_count <= t < rxd.rx_count + k ==> pkt@.data[t] == data@[offset + (t
                    - rxd.rx_count)],
            forall|t: int|
                rxd.rx_count + k <= t < d0.len() ==> pkt@.data[t] == d0[t],
        decreases copy_length - k,
    {
        let b = data[offset + k as usize];
        pkt.data[(rxd.rx_count + k) as usize] = b;
        k = k + 1;
    }
    proof {
        assert(pkt@.data =~= spec_copy_into(d0, rxd.rx_count as int, data@, offset as int));
    }
    let ghost p2 = spec_accum_packet(pc, data@, offset as int);

    // advance the received count
    let new_rx: u16 = rxd.rx_count + copy_length;
    pkt.layer = LayerData::RxTx(
        RxTxData {
            rx_count: new_rx,
            remain: rem2,
            cfpid: rxd.cfpid,
            last_used: rxd.last_used,
            frame_length: rxd.frame_length,
        },
    );

    // stop here if more fragments are expected: the buffer stays tracked
    if new_rx < pkt.length {
        proof {
            assert(pkt@ =~~= p2);
        }
        pool.put(idx, pkt);
        proof {
            assert(pool@ =~= pre.slots.update(islot, Some(p2)));
            assert(spec_state(*iface, *pool, queue@) =~~= spec_rx(pre, id, data@).0);
        }
        return CspError::NoError;
    }

    // the packet is complete: rewrite an incoming broadcast destination to
    // the local node
    if pkt.id.dst == CSP_BROADCAST_ADDR {
        pkt.id.dst = iface.addr;
    }

    // reinterpret the bookkeeping as the transport layer's, clearing the
    // receive timestamp as the marker, and hand the packet off; the slot
    // stays detached (memory ownership passes upstream)
    pkt.layer = LayerData::Rdp(
        RdpData { rdp_quarantine: 0, timestamp_tx: 0, timestamp_rx: 0, conn: 0 },
    );
    proof {
        assert(pkt@ =~~= spec_deliver(p2, pre.addr));
    }
    queue.push(pkt);
    *task_woken = true;
    proof {
        assert(spec_queue_model(queue@) =~= pre.queue.push(spec_deliver(p2, pre.addr)));
        assert(spec_state(*iface, *pool, queue@) =~~= spec_rx(pre, id, data@).0);
    }
    CspError::NoError
}

/// The buffer after the Begin-path setup on `p` for the frame `(id, data)`.
pub open spec fn spec_begin_packet(p: PacketModel, id: u32, data: Seq<u8>) -> PacketModel
    recommends
        data.len() >= CFP1_DATA_OFFSET,
        p.layer is RxTx,
{
    match p.layer {
        LayerData::RxTx(rx0) => PacketModel {
            layer: LayerData::RxTx(
                RxTxData {
                    rx_count: 0,
                    remain: (spec_cfp_remain(id) + 1) as u16,
                    frame_length: CFP1_CSP_HEADER_SIZE as u16,
                    ..rx0
                },
            ),
            length: spec_declared_len(data),
            id: spec_id_from_word(spec_id_word(data)),
            header: data.take(CFP1_CSP_HEADER_SIZE as int),
            ..p
        },
        LayerData::Rdp(_) => p,
    }
}

/// The buffer after the payload bytes of one accepted fragment have been
/// accumulated: the received count advanced by the copied bytes, the
/// remaining count decremented, and the copy written at the old received
/// count.
pub open spec fn spec_accum_packet(p: PacketModel, data: Seq<u8>, offset: int) -> PacketModel
    recommends
        0 <= offset <= data.len(),
        p.layer is RxTx,
{
    match p.layer {
        LayerData::RxTx(rx) => PacketModel {
            layer: LayerData::RxTx(
                RxTxData {
                    rx_count: (rx.rx_count + (data.len() - offset)) as u16,
                    remain: (rx.remain - 1) as u16,
                    ..rx
                },
            ),
            data: spec_copy_into(p.data, rx.rx_count as int, data, offset),
            ..p
        },
        LayerData::Rdp(_) => p,
    }
}

} // verus!
