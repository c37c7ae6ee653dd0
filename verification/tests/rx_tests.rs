use csp_rs::codec::cfp_make;
use csp_rs::csp_structs::{CspError, CspIface, CspPacket, LayerData};
use csp_rs::pool::CspPool;
use csp_rs::rx::csp_can1_rx;

/// A CSP 1.x identifier word with the given destination, other fields fixed.
fn id_word(dst: u8) -> u32 {
    (1u32 << 30) | (4u32 << 25) | ((dst as u32) << 20) | (12u32 << 14) | (13u32 << 8) | 0x01
}

/// The payload of a Begin frame: four identifier bytes big-endian, the
/// declared length little-endian, then the first data bytes.
fn begin_payload(csp_dst: u8, declared: u16, data: &[u8]) -> Vec<u8> {
    let h = id_word(csp_dst);
    let mut v = vec![
        (h >> 24) as u8,
        (h >> 16) as u8,
        (h >> 8) as u8,
        h as u8,
        declared as u8,
        (declared >> 8) as u8,
    ];
    v.extend_from_slice(data);
    v
}

fn iface(addr: u8) -> CspIface {
    CspIface { addr, frame: 0, rx_error: 0 }
}

fn pool_is_empty(pool: &CspPool) -> bool {
    pool.slots.iter().all(|s| s.is_none())
}

fn rx(
    ifc: &mut CspIface,
    pool: &mut CspPool,
    queue: &mut Vec<CspPacket>,
    id: u32,
    data: &[u8],
) -> (CspError, bool) {
    let mut woken = false;
    let e = csp_can1_rx(ifc, pool, queue, id, data, &mut woken);
    (e, woken)
}

#[test]
fn begin_and_two_more_frames_deliver_one_broadcast_packet() {
    // a Begin frame with remaining = 2, destination broadcast, declared
    // length 10 with 2 data bytes, then two More frames with the other 8
    let mut ifc = iface(7);
    let mut pool = CspPool::new(4);
    let mut queue: Vec<CspPacket> = Vec::new();

    let begin_id = cfp_make(4, 31, 0, 2, 0x42);
    let more1_id = cfp_make(4, 31, 1, 1, 0x42);
    let more2_id = cfp_make(4, 31, 1, 0, 0x42);

    let b = begin_payload(0x1F, 10, &[0xA0, 0xA1]);
    let (e, woken) = rx(&mut ifc, &mut pool, &mut queue, begin_id, &b);
    assert_eq!(e, CspError::NoError);
    assert!(!woken);
    assert_eq!(queue.len(), 0);

    let (e, woken) = rx(
        &mut ifc,
        &mut pool,
        &mut queue,
        more1_id,
        &[0xA2, 0xA3, 0xA4, 0xA5],
    );
    assert_eq!(e, CspError::NoError);
    assert!(!woken);
    assert_eq!(queue.len(), 0);

    let (e, woken) = rx(
        &mut ifc,
        &mut pool,
        &mut queue,
        more2_id,
        &[0xA6, 0xA7, 0xA8, 0xA9],
    );
    assert_eq!(e, CspError::NoError);
    assert!(woken);
    assert_eq!(queue.len(), 1);

    let p = &queue[0];
    assert_eq!(p.length, 10);
    assert_eq!(
        &p.data[..10],
        &[0xA0, 0xA1, 0xA2, 0xA3, 0xA4, 0xA5, 0xA6, 0xA7, 0xA8, 0xA9]
    );
    // the broadcast destination was rewritten to the local address
    assert_eq!(p.id.dst, 7);
    assert_eq!(p.id.src, 4);
    assert_eq!(p.id.pri, 1);
    assert_eq!(p.id.dport, 12);
    assert_eq!(p.id.sport, 13);
    // the bookkeeping was reinterpreted for the transport layer, with the
    // receive timestamp cleared as the marker
    match &p.layer {
        LayerData::Rdp(r) => assert_eq!(r.timestamp_rx, 0),
        LayerData::RxTx(_) => panic!("packet still owned by the link layer"),
    }
    // the buffer was soft-detached: the slot is free again
    assert!(pool_is_empty(&pool));
    // only the Begin frame advances the frame counter
    assert_eq!(ifc.frame, 1);
    assert_eq!(ifc.rx_error, 0);
}

#[test]
fn non_broadcast_destination_passes_through_unchanged() {
    let mut ifc = iface(7);
    let mut pool = CspPool::new(2);
    let mut queue: Vec<CspPacket> = Vec::new();

    let begin_id = cfp_make(4, 9, 0, 0, 0x10);
    let b = begin_payload(9, 2, &[0x11, 0x22]);
    let (e, woken) = rx(&mut ifc, &mut pool, &mut queue, begin_id, &b);
    assert_eq!(e, CspError::NoError);
    assert!(woken);
    assert_eq!(queue.len(), 1);
    assert_eq!(queue[0].id.dst, 9);
    assert_eq!(&queue[0].data[..2], &[0x11, 0x22]);
}

#[test]
fn orphan_more_frame_is_refused_and_allocates_nothing() {
    let mut ifc = iface(7);
    let mut pool = CspPool::new(4);
    let mut queue: Vec<CspPacket> = Vec::new();

    let more_id = cfp_make(4, 31, 1, 1, 0x77);
    let (e, woken) = rx(&mut ifc, &mut pool, &mut queue, more_id, &[1, 2, 3]);
    assert_eq!(e, CspError::Inval);
    assert!(!woken);
    assert_eq!(ifc.frame, 1);
    assert_eq!(ifc.rx_error, 0);
    assert!(pool_is_empty(&pool));
    assert_eq!(queue.len(), 0);
}

#[test]
fn undersized_begin_frame_is_absorbed_and_frees_the_buffer() {
    let mut ifc = iface(7);
    let mut pool = CspPool::new(4);
    let mut queue: Vec<CspPacket> = Vec::new();

    // five bytes cannot hold the four identifier bytes and the two length
    // bytes
    let begin_id = cfp_make(4, 31, 0, 0, 0x42);
    let (e, woken) = rx(&mut ifc, &mut pool, &mut queue, begin_id, &[1, 2, 3, 4, 5]);
    assert_eq!(e, CspError::NoError);
    assert!(!woken);
    assert_eq!(ifc.frame, 1);
    assert_eq!(ifc.rx_error, 0);
    assert!(pool_is_empty(&pool));
    assert_eq!(queue.len(), 0);
}

#[test]
fn oversized_declared_length_is_absorbed_and_counted_as_rx_error() {
    let mut ifc = iface(7);
    let mut pool = CspPool::new(4);
    let mut queue: Vec<CspPacket> = Vec::new();

    let begin_id = cfp_make(4, 31, 0, 1, 0x42);
    let b = begin_payload(0x1F, 300, &[0xA0, 0xA1]);
    let (e, woken) = rx(&mut ifc, &mut pool, &mut queue, begin_id, &b);
    assert_eq!(e, CspError::NoError);
    assert!(!woken);
    assert_eq!(ifc.frame, 1);
    assert_eq!(ifc.rx_error, 1);
    assert!(pool_is_empty(&pool));
    assert_eq!(queue.len(), 0);
}

#[test]
fn more_frame_with_wrong_remaining_count_aborts_the_reassembly() {
    let mut ifc = iface(7);
    let mut pool = CspPool::new(4);
    let mut queue: Vec<CspPacket> = Vec::new();

    let begin_id = cfp_make(4, 31, 0, 2, 0x42);
    let b = begin_payload(0x1F, 10, &[0xA0, 0xA1]);
    let (e, _) = rx(&mut ifc, &mut pool, &mut queue, begin_id, &b);
    assert_eq!(e, CspError::NoError);
    assert!(!pool_is_empty(&pool));

    // the buffer expects remaining = 1 next; 5 is a desynchronized stream
    let bad_more = cfp_make(4, 31, 1, 5, 0x42);
    let (e, woken) = rx(&mut ifc, &mut pool, &mut queue, bad_more, &[0xA2, 0xA3]);
    assert_eq!(e, CspError::NoError);
    assert!(!woken);
    assert_eq!(ifc.frame, 2);
    assert!(pool_is_empty(&pool));
    assert_eq!(queue.len(), 0);

    // with the buffer gone, the next More frame of the stream is an orphan
    let more = cfp_make(4, 31, 1, 1, 0x42);
    let (e, _) = rx(&mut ifc, &mut pool, &mut queue, more, &[0xA2]);
    assert_eq!(e, CspError::Inval);
}

#[test]
fn begin_for_tracked_stream_restarts_the_buffer_in_place() {
    let mut ifc = iface(7);
    let mut pool = CspPool::new(4);
    let mut queue: Vec<CspPacket> = Vec::new();

    // start a reassembly that is never finished
    let begin1 = cfp_make(4, 9, 0, 3, 0x42);
    let b1 = begin_payload(9, 20, &[0x01, 0x02]);
    let (e, _) = rx(&mut ifc, &mut pool, &mut queue, begin1, &b1);
    assert_eq!(e, CspError::NoError);

    // a new Begin frame of the same stream discards the old accumulation
    let begin2 = cfp_make(4, 9, 0, 1, 0x42);
    let b2 = begin_payload(9, 4, &[0xB0, 0xB1]);
    let (e, _) = rx(&mut ifc, &mut pool, &mut queue, begin2, &b2);
    assert_eq!(e, CspError::NoError);
    assert_eq!(queue.len(), 0);

    // no second buffer was allocated for the stream
    assert_eq!(pool.slots.iter().filter(|s| s.is_some()).count(), 1);

    let more = cfp_make(4, 9, 1, 0, 0x42);
    let (e, woken) = rx(&mut ifc, &mut pool, &mut queue, more, &[0xB2, 0xB3]);
    assert_eq!(e, CspError::NoError);
    assert!(woken);
    assert_eq!(queue.len(), 1);
    // the delivered packet carries the new declared length and bytes only
    assert_eq!(queue[0].length, 4);
    assert_eq!(&queue[0].data[..4], &[0xB0, 0xB1, 0xB2, 0xB3]);
}

#[test]
fn payload_overflowing_the_declared_length_is_absorbed() {
    let mut ifc = iface(7);
    let mut pool = CspPool::new(4);
    let mut queue: Vec<CspPacket> = Vec::new();

    // declared length 3, but the Begin frame and one More frame carry 2 + 8
    let begin_id = cfp_make(4, 31, 0, 1, 0x42);
    let b = begin_payload(0x1F, 3, &[0xA0, 0xA1]);
    let (e, _) = rx(&mut ifc, &mut pool, &mut queue, begin_id, &b);
    assert_eq!(e, CspError::NoError);

    let more = cfp_make(4, 31, 1, 0, 0x42);
    let (e, woken) = rx(
        &mut ifc,
        &mut pool,
        &mut queue,
        more,
        &[1, 2, 3, 4, 5, 6, 7, 8],
    );
    assert_eq!(e, CspError::NoError);
    assert!(!woken);
    assert_eq!(ifc.frame, 2);
    assert!(pool_is_empty(&pool));
    assert_eq!(queue.len(), 0);
}

#[test]
fn exhausted_pool_reports_out_of_memory() {
    let mut ifc = iface(7);
    let mut pool = CspPool::new(1);
    let mut queue: Vec<CspPacket> = Vec::new();

    // the only slot goes to the first stream
    let begin1 = cfp_make(4, 9, 0, 3, 0x11);
    let b1 = begin_payload(9, 20, &[0x01, 0x02]);
    let (e, _) = rx(&mut ifc, &mut pool, &mut queue, begin1, &b1);
    assert_eq!(e, CspError::NoError);

    // a Begin frame of a second stream finds no free slot
    let begin2 = cfp_make(5, 9, 0, 3, 0x12);
    let b2 = begin_payload(9, 20, &[0x01, 0x02]);
    let (e, woken) = rx(&mut ifc, &mut pool, &mut queue, begin2, &b2);
    assert_eq!(e, CspError::Nomem);
    assert!(!woken);
    assert_eq!(ifc.rx_error, 1);
    // the frame counter only counted the first Begin
    assert_eq!(ifc.frame, 1);
}

#[test]
fn concurrent_streams_reassemble_independently() {
    let mut ifc = iface(7);
    let mut pool = CspPool::new(4);
    let mut queue: Vec<CspPacket> = Vec::new();

    let begin_a = cfp_make(4, 9, 0, 1, 0x21);
    let begin_b = cfp_make(5, 9, 0, 1, 0x22);
    let more_a = cfp_make(4, 9, 1, 0, 0x21);
    let more_b = cfp_make(5, 9, 1, 0, 0x22);

    let (e, _) = rx(&mut ifc, &mut pool, &mut queue, begin_a, &begin_payload(9, 3, &[0xA0]));
    assert_eq!(e, CspError::NoError);
    let (e, _) = rx(&mut ifc, &mut pool, &mut queue, begin_b, &begin_payload(9, 3, &[0xB0]));
    assert_eq!(e, CspError::NoError);
    let (e, _) = rx(&mut ifc, &mut pool, &mut queue, more_b, &[0xB1, 0xB2]);
    assert_eq!(e, CspError::NoError);
    let (e, _) = rx(&mut ifc, &mut pool, &mut queue, more_a, &[0xA1, 0xA2]);
    assert_eq!(e, CspError::NoError);

    assert_eq!(queue.len(), 2);
    assert_eq!(&queue[0].data[..3], &[0xB0, 0xB1, 0xB2]);
    assert_eq!(&queue[1].data[..3], &[0xA0, 0xA1, 0xA2]);
    assert!(pool_is_empty(&pool));
}

#[test]
fn pool_lookup_allocate_take_and_put() {
    let mut pool = CspPool::new(2);
    assert_eq!(pool.capacity(), 2);
    assert_eq!(pool.find(0x42, u32::MAX), None);

    let i = pool.allocate(0x42).expect("a free slot exists");
    assert_eq!(i, 0);
    assert_eq!(pool.find(0x42, u32::MAX), Some(0));
    // masked lookup matches any frame of the same stream
    assert_eq!(pool.find(0x42 | (1 << 18), 0x3FF), Some(0));
    assert_eq!(pool.find(0x43, u32::MAX), None);

    let p = pool.take(0);
    assert_eq!(p.data.len(), 256);
    assert_eq!(pool.find(0x42, u32::MAX), None);
    pool.put(0, p);
    assert_eq!(pool.find(0x42, u32::MAX), Some(0));
}

#[test]
fn zero_length_packet_completes_at_the_begin_frame() {
    let mut ifc = iface(7);
    let mut pool = CspPool::new(2);
    let mut queue: Vec<CspPacket> = Vec::new();

    // six bytes exactly: identifier, length field, no data
    let begin_id = cfp_make(4, 9, 0, 0, 0x33);
    let b = begin_payload(9, 0, &[]);
    assert_eq!(b.len(), 6);
    let (e, woken) = rx(&mut ifc, &mut pool, &mut queue, begin_id, &b);
    assert_eq!(e, CspError::NoError);
    assert!(woken);
    assert_eq!(queue.len(), 1);
    assert_eq!(queue[0].length, 0);
    assert!(pool_is_empty(&pool));
}

#[test]
fn packet_filling_the_whole_buffer_capacity_is_delivered() {
    let mut ifc = iface(7);
    let mut pool = CspPool::new(2);
    let mut queue: Vec<CspPacket> = Vec::new();

    // 256 bytes: 2 in the Begin frame, then 31 frames of 8 and one of 6
    let begin_id = cfp_make(4, 9, 0, 32, 0x44);
    let b = begin_payload(9, 256, &[0, 1]);
    let (e, _) = rx(&mut ifc, &mut pool, &mut queue, begin_id, &b);
    assert_eq!(e, CspError::NoError);

    let mut sent: u16 = 2;
    let mut remain: u32 = 31;
    while sent < 256 {
        let n: u16 = if 256 - sent >= 8 { 8 } else { 256 - sent };
        let chunk: Vec<u8> = (sent..sent + n).map(|x| x as u8).collect();
        let more_id = cfp_make(4, 9, 1, remain, 0x44);
        let (e, _) = rx(&mut ifc, &mut pool, &mut queue, more_id, &chunk);
        assert_eq!(e, CspError::NoError);
        sent += n;
        remain -= 1;
    }

    assert_eq!(queue.len(), 1);
    assert_eq!(queue[0].length, 256);
    let expected: Vec<u8> = (0u16..256).map(|x| x as u8).collect();
    assert_eq!(&queue[0].data[..], &expected[..]);
    assert!(pool_is_empty(&pool));
    // only the Begin frame was counted
    assert_eq!(ifc.frame, 1);
}
