//! Fixed-capacity pool of reassembly buffers.  The pool owns every
//! in-progress packet buffer, keyed by the connection tag recoverable from
//! the buffer's stored arbitration field.  Lookup, allocation and release
//! are bounded scans over a fixed number of slots: the reassembly core never
//! allocates while a frame is being processed beyond taking a free slot.

use crate::codec::{CFP1_CSP_HEADER_SIZE, CSP_BUFFER_SIZE};
use crate::csp_structs::{
    spec_packet_wf, CspId, CspPacket, LayerData, PacketModel, RxTxData,
};
use vstd::prelude::*;

verus! {

/// Whether a slot holds a tracked buffer belonging to the stream that the
/// arbitration field `id` belongs to, under the connection mask `mask`.
pub open spec fn spec_slot_matches(s: Option<PacketModel>, id: u32, mask: u32) -> bool {
    match s {
        Some(p) => match p.layer {
            LayerData::RxTx(rx) => rx.cfpid & mask == id & mask,
            LayerData::Rdp(_) => false,
        },
        None => false,
    }
}

/// Index of the first slot at or after `i` that matches `id` under `mask`.
pub open spec fn spec_find_from(
    slots: Seq<Option<PacketModel>>,
    id: u32,
    mask: u32,
    i: int,
) -> Option<int>
    decreases slots.len() - i,
{
    if i < 0 || i >= slots.len() {
        None
    } else if spec_slot_matches(slots[i], id, mask) {
        Some(i)
    } else {
        spec_find_from(slots, id, mask, i + 1)
    }
}

/// Index of the first free slot at or after `i`.
pub open spec fn spec_free_from(slots: Seq<Option<PacketModel>>, i: int) -> Option<int>
    decreases slots.len() - i,
{
    if i < 0 || i >= slots.len() {
        None
    } else if slots[i] is None {
        Some(i)
    } else {
        spec_free_from(slots, i + 1)
    }
}

/// A successful lookup scan lands on a matching slot.
pub proof fn lemma_find_from_some(
    slots: Seq<Option<PacketModel>>,
    id: u32,
    mask: u32,
    i: int,
    r: int,
)
    requires
        spec_find_from(slots, id, mask, i) == Some(r),
    ensures
        i <= r < slots.len(),
        spec_slot_matches(slots[r], id, mask),
        slots[r] is Some,
    decreases slots.len() - i,
{
    if i < 0 || i >= slots.len() {
    } else if spec_slot_matches(slots[i], id, mask) {
    } else {
        lemma_find_from_some(slots, id, mask, i + 1, r);
    }
}

/// A failed lookup scan means no slot at or after its start matches.
pub proof fn lemma_find_from_none(slots: Seq<Option<PacketModel>>, id: u32, mask: u32, i: int)
    requires
        0 <= i,
        spec_find_from(slots, id, mask, i) is None,
    ensures
        forall|k: int| i <= k < slots.len() ==> !spec_slot_matches(#[trigger] slots[k], id, mask),
    decreases slots.len() - i,
{
    if i < 0 || i >= slots.len() {
    } else if spec_slot_matches(slots[i], id, mask) {
    } else {
        lemma_find_from_none(slots, id, mask, i + 1);
    }
}

/// A scan that passes only non-matching slots before the first matching one
/// returns that one.
pub proof fn lemma_find_from_first(
    slots: Seq<Option<PacketModel>>,
    id: u32,
    mask: u32,
    j: int,
    i: int,
)
    requires
        0 <= j <= i < slots.len(),
        spec_slot_matches(slots[i], id, mask),
        forall|k: int| j <= k < i ==> !spec_slot_matches(#[trigger] slots[k], id, mask),
    ensures
        spec_find_from(slots, id, mask, j) == Some(i),
    decreases i - j,
{
    if j == i {
    } else {
        lemma_find_from_first(slots, id, mask, j + 1, i);
    }
}

/// A successful free-slot scan lands on a free slot.
pub proof fn lemma_free_from_some(slots: Seq<Option<PacketModel>>, i: int, r: int)
    requires
        spec_free_from(slots, i) == Some(r),
    ensures
        i <= r < slots.len(),
        slots[r] is None,
    decreases slots.len() - i,
{
    if i < 0 || i >= slots.len() {
    } else if slots[i] is None {
    } else {
        lemma_free_from_some(slots, i + 1, r);
    }
}

/// The model of a freshly allocated buffer: link-layer bookkeeping zeroed
/// except for the arbitration field that allocated it, zeroed storage, and
/// no payload expected yet.
pub open spec fn spec_fresh_packet(id: u32) -> PacketModel {
    PacketModel {
        layer: LayerData::RxTx(
            RxTxData { rx_count: 0, remain: 0, cfpid: id, last_used: 0, frame_length: 0 },
        ),
        length: 0,
        id: CspId { pri: 0, flags: 0, src: 0, dst: 0, dport: 0, sport: 0 },
        header: Seq::new(CFP1_CSP_HEADER_SIZE as nat, |i: int| 0u8),
        data: Seq::new(CSP_BUFFER_SIZE as nat, |i: int| 0u8),
    }
}

/// The model of one slot: the tracked buffer it holds, if any.
pub open spec fn spec_slot_view(s: Option<CspPacket>) -> Option<PacketModel> {
    match s {
        Some(p) => Some(p@),
        None => None,
    }
}

/// Fixed pool of reassembly buffer slots.
pub struct CspPool {
    /// The slots; the length is the pool's capacity and never changes.
    pub slots: Vec<Option<CspPacket>>,
}

impl View for CspPool {
    type V = Seq<Option<PacketModel>>;

    open spec fn view(&self) -> Seq<Option<PacketModel>> {
        self.slots@.map_values(|s: Option<CspPacket>| spec_slot_view(s))
    }
}

impl CspPool {
    /// Every tracked buffer is well formed and still owned by the link
    /// layer.
    pub open spec fn wf(&self) -> bool {
        forall|i: int|
            0 <= i < self@.len() ==> match #[trigger] self@[i] {
                Some(p) => spec_packet_wf(p) && p.layer is RxTx,
                None => true,
            }
    }

    /// Creates a pool of `n` empty slots.
    pub fn new(n: usize) -> (r: CspPool)
        ensures
            r@.len() == n,
            forall|i: int| 0 <= i < n ==> r@[i] is None,
            r.wf(),
    {
        let mut slots: Vec<Option<CspPacket>> = Vec::new();
        let mut k: usize = 0;
        while k < n
            invariant
                k <= n,
                slots@.len() == k,
                forall|i: int| 0 <= i < k ==> slots@[i] is None,
            decreases n - k,
        {
            slots.push(None);
            k = k + 1;
        }
        let r = CspPool { slots };
        proof {
            assert(forall|i: int| 0 <= i < n ==> r@[i] is None);
        }
        r
    }

    /// Number of slots.
    pub fn capacity(&self) -> (r: usize)
        ensures
            r == self@.len(),
    {
        self.slots.len()
    }

    /// Looks up the first tracked buffer whose stored arbitration field
    /// matches `id` under `mask`.
    pub fn find(&self, id: u32, mask: u32) -> (r: Option<usize>)
        ensures
            match r {
                Some(i) => i < self@.len() && spec_find_from(self@, id, mask, 0) == Some(i as int),
                None => spec_find_from(self@, id, mask, 0) is None,
            },
    {
        let n = self.slots.len();
        let mut j: usize = 0;
        while j < n
            invariant
                j <= n,
                n == self@.len(),
                spec_find_from(self@, id, mask, 0) == spec_find_from(self@, id, mask, j as int),
            decreases n - j,
        {
            let hit = match &self.slots[j] {
                Some(p) => match &p.layer {
                    LayerData::RxTx(rx) => rx.cfpid & mask == id & mask,
                    LayerData::Rdp(_) => false,
                },
                None => false,
            };
            proof {
                assert(self@[j as int] == spec_slot_view(self.slots@[j as int]));
            }
            if hit {
                return Some(j);
            }
            j = j + 1;
        }
        None
    }

    /// Takes the tracked buffer out of slot `i`, leaving the slot free.
    pub fn take(&mut self, i: usize) -> (p: CspPacket)
        requires
            i < old(self)@.len(),
            old(self)@[i as int] is Some,
        ensures
            Some(p@) == old(self)@[i as int],
            final(self)@ == old(self)@.update(i as int, None),
    {
        let s = self.slots.remove(i);
        self.slots.insert(i, None);
        proof {
            assert(final(self)@ =~= old(self)@.update(i as int, None));
        }
        match s {
            Some(p) => p,
            None => vstd::pervasive::unreached(),
        }
    }

    /// Puts a buffer back into the free slot `i`, tracking it again.
    pub fn put(&mut self, i: usize, p: CspPacket)
        requires
            i < old(self)@.len(),
            old(self)@[i as int] is None,
        ensures
            final(self)@ == old(self)@.update(i as int, Some(p@)),
    {
        let freed = self.slots.remove(i);
        self.slots.insert(i, Some(p));
        proof {
            assert(final(self)@ =~= old(self)@.update(i as int, Some(p@)));
        }
    }

    /// Allocates a fresh buffer for the stream of the arbitration field
    /// `id`, in the first free slot; fails when every slot is tracked.
    pub fn allocate(&mut self, id: u32) -> (r: Option<usize>)
        ensures
            match r {
                Some(j) => j < old(self)@.len() && spec_free_from(old(self)@, 0) == Some(j as int)
                    && final(self)@ == old(self)@.update(j as int, Some(spec_fresh_packet(id))),
                None => spec_free_from(old(self)@, 0) is None && final(self)@ == old(self)@,
            },
    {
        let n = self.slots.len();
        let mut j: usize = 0;
        while j < n
            invariant
                j <= n,
                n == self@.len(),
                self@ == old(self)@,
                *self == *old(self),
                spec_free_from(self@, 0) == spec_free_from(self@, j as int),
            decreases n - j,
        {
            let free = match &self.slots[j] {
                Some(_) => false,
                None => true,
            };
            proof {
                assert(self@[j as int] == spec_slot_view(self.slots@[j as int]));
            }
            if free {
                let p = fresh_packet(id);
                let removed = self.slots.remove(j);
                self.slots.insert(j, Some(p));
                proof {
                    assert(final(self)@ =~= old(self)@.update(
                        j as int,
                        Some(spec_fresh_packet(id)),
                    ));
                }
                return Some(j);
            }
            j = j + 1;
        }
        None
    }
}

/// Builds a freshly allocated buffer matching [`spec_fresh_packet`].
fn fresh_packet(id: u32) -> (r: CspPacket)
    ensures
        r@ == spec_fresh_packet(id),
{
    let mut header: Vec<u8> = Vec::new();
    let mut k: usize = 0;
    while k < CFP1_CSP_HEADER_SIZE as usize
        invariant
            k <= CFP1_CSP_HEADER_SIZE as usize,
            header@ == Seq::new(k as nat, |i: int| 0u8),
        decreases CFP1_CSP_HEADER_SIZE as usize - k,
    {
        header.push(0);
        proof {
            assert(header@ =~= Seq::new((k + 1) as nat, |i: int| 0u8));
        }
        k = k + 1;
    }
    let mut data: Vec<u8> = Vec::new();
    let mut m: usize = 0;
    while m < CSP_BUFFER_SIZE
        invariant
            m <= CSP_BUFFER_SIZE,
            data@ == Seq::new(m as nat, |i: int| 0u8),
        decreases CSP_BUFFER_SIZE - m,
    {
        data.push(0);
        proof {
            assert(data@ =~= Seq::new((m + 1) as nat, |i: int| 0u8));
        }
        m = m + 1;
    }
    let r = CspPacket {
        layer: LayerData::RxTx(
            RxTxData { rx_count: 0, remain: 0, cfpid: id, last_used: 0, frame_length: 0 },
        ),
        length: 0,
        id: CspId { pri: 0, flags: 0, src: 0, dst: 0, dport: 0, sport: 0 },
        header,
        data,
    };
    proof {
        assert(r@ =~= spec_fresh_packet(id));
    }
    r
}

} // verus!
