//! Packet data structures: the error enumeration returned to the bus driver,
//! the fragment-kind classifier, the CSP identifier header, the per-layer
//! bookkeeping of a reassembly buffer, and the packet buffer itself together
//! with its mathematical model.

use crate::codec::{CFP1_CSP_HEADER_SIZE, CSP_BUFFER_SIZE};
use vstd::prelude::*;

verus! {

/// Cubesat Space Protocol error codes, as reported to the bus driver.
#[derive(Copy, Clone, PartialEq, Eq, Structural, Debug)]
pub enum CspError {
    NoError,
    Nomem,
    Inval,
    Timedout,
    Used,
    Notsup,
    Busy,
    Already,
    Reset,
    Nobufs,
    Tx,
    Driver,
    Again,
    Nosys,
    Hmac,
    Crc32,
    Sfp,
}

impl CspError {
    /// The numeric code of this error on the wire-facing C-style interface.
    pub open spec fn spec_code(self) -> i32 {
        match self {
            CspError::NoError => 0i32,
            CspError::Nomem => -1i32,
            CspError::Inval => -2i32,
            CspError::Timedout => -3i32,
            CspError::Used => -4i32,
            CspError::Notsup => -5i32,
            CspError::Busy => -6i32,
            CspError::Already => -7i32,
            CspError::Reset => -8i32,
            CspError::Nobufs => -9i32,
            CspError::Tx => -10i32,
            CspError::Driver => -11i32,
            CspError::Again => -12i32,
            CspError::Nosys => -38i32,
            CspError::Hmac => -100i32,
            CspError::Crc32 => -102i32,
            CspError::Sfp => -103i32,
        }
    }

    /// Returns the numeric code of this error.
    pub fn code(self) -> (r: i32)
        ensures
            r == self.spec_code(),
    {
        match self {
            CspError::NoError => 0i32,
            CspError::Nomem => -1i32,
            CspError::Inval => -2i32,
            CspError::Timedout => -3i32,
            CspError::Used => -4i32,
            CspError::Notsup => -5i32,
            CspError::Busy => -6i32,
            CspError::Already => -7i32,
            CspError::Reset => -8i32,
            CspError::Nobufs => -9i32,
            CspError::Tx => -10i32,
            CspError::Driver => -11i32,
            CspError::Again => -12i32,
            CspError::Nosys => -38i32,
            CspError::Hmac => -100i32,
            CspError::Crc32 => -102i32,
            CspError::Sfp => -103i32,
        }
    }
}

/// CAN Fragmentation Protocol (CFP) fragment kind.
#[derive(Copy, Clone, PartialEq, Eq, Structural, Debug)]
pub enum CfpFrameType {
    /// First CFP fragment of a CSP packet.
    CfpBegin,
    /// Remaining CFP fragment(s) of a CSP packet.
    CfpMore,
}

impl CfpFrameType {
    /// Classification of a raw fragment-kind value: 0 is Begin, 1 is More,
    /// anything else is a hard classification failure.
    pub open spec fn spec_classify(raw: u32) -> Result<CfpFrameType, CspError> {
        if raw == 0 {
            Ok(CfpFrameType::CfpBegin)
        } else if raw == 1 {
            Ok(CfpFrameType::CfpMore)
        } else {
            Err(CspError::Inval)
        }
    }

    /// Maps the fragment-kind subfield to a fragment kind; any value outside
    /// the two recognized ones fails with the invalid-argument error.
    pub fn classify(raw: u32) -> (r: Result<CfpFrameType, CspError>)
        ensures
            r == Self::spec_classify(raw),
    {
        if raw == 0 {
            Ok(CfpFrameType::CfpBegin)
        } else if raw == 1 {
            Ok(CfpFrameType::CfpMore)
        } else {
            Err(CspError::Inval)
        }
    }

    /// The raw subfield value this kind is encoded as.
    pub open spec fn spec_raw(self) -> u32 {
        match self {
            CfpFrameType::CfpBegin => 0,
            CfpFrameType::CfpMore => 1,
        }
    }

    /// Returns the raw subfield value this kind is encoded as.
    pub fn raw(self) -> (r: u32)
        ensures
            r == self.spec_raw(),
    {
        match self {
            CfpFrameType::CfpBegin => 0,
            CfpFrameType::CfpMore => 1,
        }
    }
}

/// Decoded CSP identifier header of a packet.
#[derive(Copy, Clone, PartialEq, Eq, Structural, Debug)]
pub struct CspId {
    /// Priority.
    pub pri: u8,
    /// Header flags.
    pub flags: u8,
    /// Source address.
    pub src: u8,
    /// Destination address.
    pub dst: u8,
    /// Destination port.
    pub dport: u8,
    /// Source port.
    pub sport: u8,
}

/// The 32-bit CSP identifier word read big-endian from the first four bytes
/// of a Begin frame's payload.
pub open spec fn spec_id_word(b: Seq<u8>) -> u32
    recommends
        b.len() >= 4,
{
    (((b[0] as u32) << 24) | ((b[1] as u32) << 16) | ((b[2] as u32) << 8) | (b[3] as u32))
}

/// The CSP identifier fields packed inside a 32-bit identifier word:
/// priority, source, destination, destination port, source port and flags,
/// in order from the most significant bit down.
pub open spec fn spec_id_from_word(h: u32) -> CspId {
    CspId {
        pri: ((h >> 30) & 0x3) as u8,
        src: ((h >> 25) & 0x1F) as u8,
        dst: ((h >> 20) & 0x1F) as u8,
        dport: ((h >> 14) & 0x3F) as u8,
        sport: ((h >> 8) & 0x3F) as u8,
        flags: (h & 0xFF) as u8,
    }
}

/// Decodes the CSP identifier fields from an identifier word.
pub fn csp_id_from_word(h: u32) -> (r: CspId)
    ensures
        r == spec_id_from_word(h),
{
    CspId {
        pri: ((h >> 30) & 0x3) as u8,
        src: ((h >> 25) & 0x1F) as u8,
        dst: ((h >> 20) & 0x1F) as u8,
        dport: ((h >> 14) & 0x3F) as u8,
        sport: ((h >> 8) & 0x3F) as u8,
        flags: (h & 0xFF) as u8,
    }
}

/// Link-layer (RX/TX) bookkeeping of an in-progress reassembly buffer.
#[derive(Copy, Clone, PartialEq, Eq, Structural, Debug)]
pub struct RxTxData {
    /// Payload bytes received so far.
    pub rx_count: u16,
    /// Fragments still expected, counting the one being processed.
    pub remain: u16,
    /// Connection CFP identification: the arbitration field of the Begin
    /// frame that allocated this buffer.
    pub cfpid: u32,
    /// Timestamp of the last use of the buffer.  Buffer staleness is the
    /// pool collaborator's concern; the reassembly core keeps it at zero.
    pub last_used: u32,
    /// Bytes stored so far in the buffer's header region.
    pub frame_length: u16,
}

/// Transport-layer (RDP) bookkeeping of a buffer after handoff.
#[derive(Copy, Clone, PartialEq, Eq, Structural, Debug)]
pub struct RdpData {
    /// EACK quarantine period.
    pub rdp_quarantine: u32,
    /// Time the message was sent.
    pub timestamp_tx: u32,
    /// Time the message was received; cleared to zero at handoff as the
    /// marker that the transport-layer interpretation has begun.
    pub timestamp_rx: u32,
    /// Index of the associated connection in the transport layer's table.
    pub conn: u32,
}

/// Per-layer bookkeeping of a packet buffer.  Exactly one interpretation is
/// valid at any instant: link-layer while reassembly is in progress,
/// transport-layer once the packet has been handed off.
#[derive(Copy, Clone, PartialEq, Eq, Structural, Debug)]
pub enum LayerData {
    /// Link-layer interpretation, valid while fragments are accumulating.
    RxTx(RxTxData),
    /// Transport-layer interpretation, valid after handoff.
    Rdp(RdpData),
}

/// Mathematical model of a packet buffer.
#[verifier::ext_equal]
pub ghost struct PacketModel {
    pub layer: LayerData,
    pub length: u16,
    pub id: CspId,
    pub header: Seq<u8>,
    pub data: Seq<u8>,
}

/// CSP packet buffer: one in-progress (or just-completed) packet.  The
/// payload storage has fixed capacity and is written incrementally, never
/// resized.
pub struct CspPacket {
    /// Per-layer bookkeeping.
    pub layer: LayerData,
    /// Total payload bytes expected, set once at Begin.
    pub length: u16,
    /// Decoded CSP identifier header.
    pub id: CspId,
    /// Stored raw header region: the identifier bytes copied from the Begin
    /// frame, kept so the packet can be forwarded without re-encoding.
    pub header: Vec<u8>,
    /// Fixed-capacity payload storage.
    pub data: Vec<u8>,
}

impl View for CspPacket {
    type V = PacketModel;

    open spec fn view(&self) -> PacketModel {
        PacketModel {
            layer: self.layer,
            length: self.length,
            id: self.id,
            header: self.header@,
            data: self.data@,
        }
    }
}

/// Well-formedness of a packet buffer model: the storage regions have their
/// fixed sizes, the declared length fits the payload capacity, and while the
/// link layer owns the buffer the received count never exceeds the declared
/// length.
pub open spec fn spec_packet_wf(p: PacketModel) -> bool {
    &&& p.data.len() == CSP_BUFFER_SIZE
    &&& p.header.len() == CFP1_CSP_HEADER_SIZE
    &&& p.length <= CSP_BUFFER_SIZE
    &&& match p.layer {
        LayerData::RxTx(rx) => rx.rx_count <= p.length,
        LayerData::Rdp(_) => true,
    }
}

/// Per-link state of one bus interface: its configured address and its
/// frame and error counters.  The counters are monotonic modulo wraparound:
/// they count with wrapping 32-bit arithmetic.
pub struct CspIface {
    /// Address of this node on the bus.
    pub addr: u8,
    /// Frames received on this interface.
    pub frame: u32,
    /// Receive errors observed on this interface.
    pub rx_error: u32,
}

/// A counter advanced by one with 32-bit wraparound.
pub open spec fn spec_wrap_inc(c: u32) -> u32 {
    if c == 0xFFFF_FFFFu32 {
        0u32
    } else {
        (c + 1) as u32
    }
}

} // verus!
