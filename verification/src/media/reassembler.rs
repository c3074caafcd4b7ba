//! Reassembly of encoded frames from their fragments.
use std::collections::HashMap;
use vstd::prelude::*;
use crate::media::encoder::{
    EncodedFrame, EncodedFrameV, MAX_VIDEO_PAYLOAD, fragment, fragment_bytes, fragment_count,
};
use crate::protocol::video::{VideoCodec, VideoPacket, VideoPacketV};
use crate::protocol::wire::put_bytes;

verus! {

broadcast use vstd::std_specs::hash::group_hash_axioms;

/// The fragments received so far of one frame.
struct FrameAssembly {
    timestamp: u64,
    keyframe: bool,
    codec: VideoCodec,
    width: u32,
    height: u32,
    packet_total: u16,
    packets: Vec<Option<Vec<u8>>>,
}

/// The mathematical content of a frame under assembly: the fields taken
/// from its first fragment and one slot per fragment.
pub struct AssemblyV {
    pub timestamp: u64,
    pub keyframe: bool,
    pub codec: VideoCodec,
    pub width: u32,
    pub height: u32,
    pub packet_total: u16,
    pub packets: Seq<Option<Seq<u8>>>,
}

/// The bytes held by each slot.
pub open spec fn slots_view(v: Seq<Option<Vec<u8>>>) -> Seq<Option<Seq<u8>>> {
    v.map_values(
        |o: Option<Vec<u8>>|
            match o {
                Some(d) => Some(d@),
                None => None,
            },
    )
}

impl View for FrameAssembly {
    type V = AssemblyV;

    closed spec fn view(&self) -> AssemblyV {
        AssemblyV {
            timestamp: self.timestamp,
            keyframe: self.keyframe,
            codec: self.codec,
            width: self.width,
            height: self.height,
            packet_total: self.packet_total,
            packets: slots_view(self.packets@),
        }
    }
}

/// Collects fragments per frame id until a frame is complete.
pub struct VideoReassembler {
    frames: HashMap<u64, FrameAssembly>,
}

impl View for VideoReassembler {
    type V = Map<u64, AssemblyV>;

    closed spec fn view(&self) -> Map<u64, AssemblyV> {
        self.frames@.map_values(|a: FrameAssembly| a@)
    }
}

/// The assembly begun by a frame's first fragment: its fields and an empty
/// slot per fragment.
pub open spec fn fresh_assembly(p: VideoPacketV) -> AssemblyV {
    AssemblyV {
        timestamp: p.timestamp,
        keyframe: p.keyframe,
        codec: p.codec,
        width: p.width,
        height: p.height,
        packet_total: p.packet_total,
        packets: Seq::new(p.packet_total as nat, |i: int| None),
    }
}

/// The bytes of all slots, one after the other (a missing slot adds none).
pub open spec fn joined(slots: Seq<Option<Seq<u8>>>) -> Seq<u8>
    decreases slots.len(),
{
    if slots.len() == 0 {
        seq![]
    } else {
        joined(slots.drop_last()) + match slots.last() {
            Some(d) => d,
            None => seq![],
        }
    }
}

/// Whether every slot holds its fragment.
pub open spec fn complete(slots: Seq<Option<Seq<u8>>>) -> bool {
    forall|i: int| 0 <= i < slots.len() ==> #[trigger] slots[i] is Some
}

/// What pushing a fragment does to the frames under assembly, and the frame
/// it completes, if any.
///
/// A fragment whose frame layout (count, dimensions, codec) differs from the
/// frame's first fragment, or whose index lies outside the frame, drops the
/// frame. A fragment already received is ignored. The fragment that fills
/// the last empty slot removes the frame and yields it, its payload the
/// slots in index order.
pub open spec fn push_step(m: Map<u64, AssemblyV>, p: VideoPacketV) -> (
    Map<u64, AssemblyV>,
    Option<EncodedFrameV>,
) {
    let id = p.frame_id;
    let a = if m.contains_key(id) {
        m[id]
    } else {
        fresh_assembly(p)
    };
    if a.packet_total != p.packet_total || a.width != p.width || a.height != p.height || a.codec
        != p.codec {
        (m.remove(id), None)
    } else if p.packet_index >= a.packets.len() {
        (m.remove(id), None)
    } else if a.packets[p.packet_index as int] is Some {
        (m.insert(id, a), None)
    } else {
        let slots = a.packets.update(p.packet_index as int, Some(p.data));
        if !complete(slots) {
            (m.insert(id, AssemblyV { packets: slots, ..a }), None)
        } else {
            (
                m.remove(id),
                Some(
                    EncodedFrameV {
                        sequence: id,
                        timestamp: a.timestamp,
                        keyframe: a.keyframe,
                        codec: a.codec,
                        width: a.width as usize,
                        height: a.height as usize,
                        data: joined(slots),
                    },
                ),
            )
        }
    }
}

/// Whether every frame under assembly has one slot per fragment.
pub open spec fn assemblies_sized(m: Map<u64, AssemblyV>) -> bool {
    forall|id: u64| #[trigger] m.contains_key(id) ==> m[id].packets.len() == m[id].packet_total
}

/// Pushing a fragment keeps one slot per fragment in every frame.
proof fn lemma_push_step_sized(m: Map<u64, AssemblyV>, p: VideoPacketV)
    requires
        assemblies_sized(m),
    ensures
        assemblies_sized(push_step(m, p).0),
{
    let id = p.frame_id;
    let a = if m.contains_key(id) {
        m[id]
    } else {
        fresh_assembly(p)
    };
    assert(a.packets.len() == a.packet_total);
    let m2 = push_step(m, p).0;
    assert forall|k: u64| #[trigger] m2.contains_key(k) implies m2[k].packets.len()
        == m2[k].packet_total by {
        if k != id {
            assert(m.contains_key(k));
        }
    }
}

impl FrameAssembly {
    fn fresh(packet: &VideoPacket) -> (a: FrameAssembly)
        ensures
            a@ == fresh_assembly(packet@),
    {
        let mut packets: Vec<Option<Vec<u8>>> = Vec::new();
        let mut i: u16 = 0;
        while i < packet.packet_total
            invariant
                i <= packet.packet_total,
                packets@.len() == i,
                forall|j: int| 0 <= j < i ==> #[trigger] slots_view(packets@)[j] is None,
            decreases packet.packet_total - i,
        {
            let ghost before = packets@;
            packets.push(None);
            assert(packets@ == before.push(None));
            assert forall|j: int| 0 <= j < packets@.len() implies #[trigger] slots_view(packets@)[j]
                is None by {
                if j < before.len() {
                    assert(packets@[j] == before[j]);
                    assert(slots_view(before)[j] is None);
                }
            }
            i = i + 1;
        }
        assert(slots_view(packets@) =~= Seq::new(packet.packet_total as nat, |j: int| None::<Seq<u8>>));
        FrameAssembly {
            timestamp: packet.timestamp,
            keyframe: packet.keyframe,
            codec: packet.codec,
            width: packet.width,
            height: packet.height,
            packet_total: packet.packet_total,
            packets,
        }
    }
}

/// Whether every slot holds its fragment, computed.
fn all_present(slots: &Vec<Option<Vec<u8>>>) -> (b: bool)
    ensures
        b == complete(slots_view(slots@)),
{
    let mut i: usize = 0;
    while i < slots.len()
        invariant
            i <= slots@.len(),
            forall|j: int| 0 <= j < i ==> #[trigger] slots_view(slots@)[j] is Some,
        decreases slots@.len() - i,
    {
        if slots[i].is_none() {
            assert(slots_view(slots@)[i as int] is None);
            return false;
        }
        i = i + 1;
    }
    true
}

/// The bytes of all slots, one after the other.
fn join_slots(slots: &Vec<Option<Vec<u8>>>) -> (data: Vec<u8>)
    ensures
        data@ == joined(slots_view(slots@)),
{
    let mut data: Vec<u8> = Vec::new();
    let mut i: usize = 0;
    while i < slots.len()
        invariant
            i <= slots@.len(),
            data@ == joined(slots_view(slots@).take(i as int)),
        decreases slots@.len() - i,
    {
        let ghost before = slots_view(slots@).take(i as int);
        assert(slots_view(slots@).take(i + 1).drop_last() =~= before);
        match &slots[i] {
            Some(d) => put_bytes(&mut data, d.as_slice()),
            None => {},
        }
        i = i + 1;
    }
    assert(slots_view(slots@).take(i as int) =~= slots_view(slots@));
    data
}

impl VideoReassembler {
    /// A reassembler with no frame under assembly.
    pub fn new() -> (r: VideoReassembler)
        ensures
            r@ == Map::<u64, AssemblyV>::empty(),
            assemblies_sized(r@),
    {
        let r = VideoReassembler { frames: HashMap::new() };
        assert(r@ =~= Map::<u64, AssemblyV>::empty());
        r
    }

    /// Adds a fragment; returns the frame it completes, as [`push_step`]
    /// says.
    pub fn push(&mut self, packet: VideoPacket) -> (res: Option<EncodedFrame>)
        ensures
            final(self)@ == push_step(old(self)@, packet@).0,
            match push_step(old(self)@, packet@).1 {
                None => res is None,
                Some(f) => res matches Some(e) && e@ == f,
            },
            assemblies_sized(old(self)@) ==> assemblies_sized(final(self)@),
    {
        let ghost m = self@;
        proof {
            if assemblies_sized(m) {
                lemma_push_step_sized(m, packet@);
            }
        }
        let frame_id = packet.frame_id;
        let mut assembly = match self.frames.remove(&frame_id) {
            Some(a) => a,
            None => FrameAssembly::fresh(&packet),
        };
        assert(self@ =~= m.remove(frame_id));
        if assembly.packet_total != packet.packet_total || assembly.width != packet.width
            || assembly.height != packet.height || assembly.codec != packet.codec {
            return None;
        }
        let index = packet.packet_index as usize;
        if index >= assembly.packets.len() {
            return None;
        }
        if assembly.packets[index].is_some() {
            let ghost a = assembly@;
            self.frames.insert(frame_id, assembly);
            assert(self@ =~= m.insert(frame_id, a));
            return None;
        }
        let ghost a = assembly@;
        assembly.packets.set(index, Some(packet.data));
        assert(slots_view(assembly.packets@) =~= a.packets.update(index as int, Some(packet@.data)));
        if !all_present(&assembly.packets) {
            let ghost a2 = assembly@;
            self.frames.insert(frame_id, assembly);
            assert(self@ =~= m.insert(frame_id, a2));
            return None;
        }
        let data = join_slots(&assembly.packets);
        Some(
            EncodedFrame {
                sequence: frame_id,
                timestamp: assembly.timestamp,
                keyframe: assembly.keyframe,
                codec: assembly.codec,
                width: assembly.width as usize,
                height: assembly.height as usize,
                data,
            },
        )
    }
}


/// Pushing fragments one after the other: the frames under assembly at the
/// end and what each push returned.
pub open spec fn push_all(m: Map<u64, AssemblyV>, ps: Seq<VideoPacketV>) -> (
    Map<u64, AssemblyV>,
    Seq<Option<EncodedFrameV>>,
)
    decreases ps.len(),
{
    if ps.len() == 0 {
        (m, seq![])
    } else {
        let (m1, outs) = push_all(m, ps.drop_last());
        let (m2, out) = push_step(m1, ps.last());
        (m2, outs.push(out))
    }
}

proof fn lemma_joined_fragments(data: Seq<u8>, k: nat)
    requires
        k <= fragment_count(data.len()),
    ensures
        joined(Seq::new(k, |j: int| Some(fragment_bytes(data, j)))) == data.take(
            if k * MAX_VIDEO_PAYLOAD < data.len() {
                k * MAX_VIDEO_PAYLOAD
            } else {
                data.len() as int
            },
        ),
    decreases k,
{
    let s = Seq::new(k, |j: int| Some(fragment_bytes(data, j)));
    if k == 0 {
        assert(data.take(0) =~= seq![]);
    } else {
        let prev = Seq::new((k - 1) as nat, |j: int| Some(fragment_bytes(data, j)));
        assert(s.drop_last() =~= prev);
        lemma_joined_fragments(data, (k - 1) as nat);
        assert((k - 1) * MAX_VIDEO_PAYLOAD < data.len()) by (nonlinear_arith)
            requires
                k <= data.len() / 1150 + if data.len() % 1150 != 0 {
                    1nat
                } else {
                    0nat
                },
                k >= 1,
        ;
        assert(k * MAX_VIDEO_PAYLOAD == (k - 1) * MAX_VIDEO_PAYLOAD + MAX_VIDEO_PAYLOAD);
        assert(data.take((k - 1) * MAX_VIDEO_PAYLOAD) + fragment_bytes(data, k - 1) =~= data.take(
            if k * MAX_VIDEO_PAYLOAD < data.len() {
                k * MAX_VIDEO_PAYLOAD
            } else {
                data.len() as int
            },
        ));
    }
}

/// A frame cut into fragments and pushed, fragment after fragment, into a
/// reassembler that holds nothing of it comes back whole at the last
/// fragment; the pushes before return nothing, and the reassembler ends as
/// it began. This holds of frames with at most 65535 fragments and
/// dimensions that fit 32 bits.
pub proof fn reassembly_restores_frame(m: Map<u64, AssemblyV>, uid: u64, f: EncodedFrameV)
    requires
        !m.contains_key(f.sequence),
        f.data.len() > 0,
        fragment_count(f.data.len()) <= u16::MAX,
        f.width <= u32::MAX,
        f.height <= u32::MAX,
    ensures
        ({
            let n = fragment_count(f.data.len());
            push_all(m, Seq::new(n, |i: int| fragment(uid, f, i))) == (
                m,
                Seq::new(
                    n,
                    |i: int|
                        if i == n - 1 {
                            Some(f)
                        } else {
                            None
                        },
                ),
            )
        }),
{
    let n = fragment_count(f.data.len());
    let order = Seq::new(n, |i: int| i);
    assert forall|i: int, j: int| 0 <= i < order.len() && 0 <= j < order.len() && i != j implies order[i]
        != order[j] by {}
    assert(is_order_of(order, n));
    reassembly_in_any_order(m, uid, f, order);
    assert(fragments_in_order(uid, f, order) =~= Seq::new(n, |i: int| fragment(uid, f, i)));
}

/// The assembly of a frame once the fragments whose indices are in `got`
/// have arrived.
spec fn received(f: EncodedFrameV, got: Seq<int>) -> AssemblyV {
    AssemblyV {
        timestamp: f.timestamp,
        keyframe: f.keyframe,
        codec: f.codec,
        width: f.width as u32,
        height: f.height as u32,
        packet_total: fragment_count(f.data.len()) as u16,
        packets: Seq::new(
            fragment_count(f.data.len()),
            |j: int|
                if got.contains(j) {
                    Some(fragment_bytes(f.data, j))
                } else {
                    None
                },
        ),
    }
}

/// The fragments of a frame, taken in the order `order` gives their indices.
pub open spec fn fragments_in_order(uid: u64, f: EncodedFrameV, order: Seq<int>) -> Seq<VideoPacketV> {
    Seq::new(order.len(), |i: int| fragment(uid, f, order[i]))
}

/// Whether `order` names each of the indices `0..n` exactly once.
pub open spec fn is_order_of(order: Seq<int>, n: nat) -> bool {
    &&& order.len() == n
    &&& order.no_duplicates()
    &&& forall|i: int| 0 <= i < order.len() ==> 0 <= #[trigger] order[i] < n
}

/// An order of `0..n` names every index in it.
proof fn lemma_order_names_all(order: Seq<int>, n: nat)
    requires
        is_order_of(order, n),
    ensures
        forall|j: int| 0 <= j < n ==> #[trigger] order.contains(j),
{
    broadcast use vstd::seq_lib::seq_to_set_is_finite;
    order.unique_seq_to_set();
    vstd::set_lib::lemma_int_range(0, n as int);
    let range = vstd::set_lib::set_int_range(0, n as int);
    assert forall|x: int| #[trigger] order.to_set().contains(x) implies range.contains(x) by {
        let i = choose|i: int| 0 <= i < order.len() && #[trigger] order[i] == x;
    }
    vstd::set_lib::lemma_subset_equality(order.to_set(), range);
    assert forall|j: int| 0 <= j < n implies #[trigger] order.contains(j) by {
        assert(range.contains(j));
        assert(order.to_set().contains(j));
    }
}

/// An index named after position `k` of an order is not among its first `k`.
proof fn lemma_order_fresh(order: Seq<int>, k: int, i: int)
    requires
        order.no_duplicates(),
        0 <= k <= i < order.len(),
    ensures
        !order.take(k).contains(order[i]),
{
    if order.take(k).contains(order[i]) {
        let t = order.take(k);
        let j = choose|j: int| 0 <= j < t.len() && #[trigger] t[j] == order[i];
        assert(order[j] == order[i]);
    }
}

proof fn lemma_push_any_prefix(
    m: Map<u64, AssemblyV>,
    uid: u64,
    f: EncodedFrameV,
    order: Seq<int>,
    k: nat,
)
    requires
        !m.contains_key(f.sequence),
        fragment_count(f.data.len()) <= u16::MAX,
        is_order_of(order, fragment_count(f.data.len())),
        1 <= k < fragment_count(f.data.len()),
    ensures
        push_all(m, fragments_in_order(uid, f, order.take(k as int))) == (
            m.insert(f.sequence, received(f, order.take(k as int))),
            Seq::new(k, |i: int| None::<EncodedFrameV>),
        ),
    decreases k,
{
    let n = fragment_count(f.data.len());
    let ps = fragments_in_order(uid, f, order.take(k as int));
    let prev = fragments_in_order(uid, f, order.take(k - 1));
    assert(ps.drop_last() =~= prev);
    let p = fragment(uid, f, order[k - 1]);
    assert(ps.last() == p);
    let m1 = if k == 1 {
        m
    } else {
        m.insert(f.sequence, received(f, order.take(k - 1)))
    };
    if k == 1 {
        assert(prev =~= Seq::<VideoPacketV>::empty());
        assert(fresh_assembly(p).packets =~= received(f, order.take(0)).packets);
        assert(fresh_assembly(p) == received(f, order.take(0)));
    } else {
        lemma_push_any_prefix(m, uid, f, order, (k - 1) as nat);
    }
    let a = received(f, order.take(k - 1));
    assert(push_all(m, prev).0 == m1);
    assert(push_all(m, prev).1 =~= Seq::new((k - 1) as nat, |i: int| None::<EncodedFrameV>));
    let a0 = if m1.contains_key(f.sequence) {
        m1[f.sequence]
    } else {
        fresh_assembly(p)
    };
    assert(a0 == a);
    let idx = order[k - 1];
    assert(0 <= idx < n);
    assert(p.packet_index == idx);
    lemma_order_fresh(order, k - 1, k - 1);
    assert(a.packets[idx] is None);
    let slots = a.packets.update(idx, Some(p.data));
    assert(order.take(k as int) =~= order.take(k - 1).push(idx));
    assert forall|j: int| 0 <= j < n implies #[trigger] slots[j] == received(
        f,
        order.take(k as int),
    ).packets[j] by {
        let before = order.take(k - 1);
        let after = order.take(k as int);
        if j == idx {
            assert(after[k - 1] == j);
        } else if before.contains(j) {
            let i = choose|i: int| 0 <= i < before.len() && #[trigger] before[i] == j;
            assert(after[i] == j);
        } else if after.contains(j) {
            let i = choose|i: int| 0 <= i < after.len() && #[trigger] after[i] == j;
            assert(i != k - 1);
            assert(before[i] == j);
        }
    }
    assert(slots =~= received(f, order.take(k as int)).packets);
    let missing = order[k as int];
    lemma_order_fresh(order, k as int, k as int);
    assert(0 <= missing < n);
    assert(!(slots[missing] is Some));
    assert(!complete(slots));
    assert(AssemblyV { packets: slots, ..a } == received(f, order.take(k as int)));
    let r = push_step(m1, p);
    assert(r.0 =~= m.insert(f.sequence, received(f, order.take(k as int))));
    assert(r.1 is None);
    assert(Seq::new((k - 1) as nat, |i: int| None::<EncodedFrameV>).push(None) =~= Seq::new(
        k,
        |i: int| None::<EncodedFrameV>,
    ));
}

/// A frame cut into fragments whose fragments are pushed in any order, each
/// exactly once, into a reassembler that holds nothing of it comes back
/// whole at the last push; the pushes before return nothing, and the
/// reassembler ends as it began. This holds of frames with at most 65535
/// fragments and dimensions that fit 32 bits.
pub proof fn reassembly_in_any_order(
    m: Map<u64, AssemblyV>,
    uid: u64,
    f: EncodedFrameV,
    order: Seq<int>,
)
    requires
        !m.contains_key(f.sequence),
        f.data.len() > 0,
        fragment_count(f.data.len()) <= u16::MAX,
        f.width <= u32::MAX,
        f.height <= u32::MAX,
        is_order_of(order, fragment_count(f.data.len())),
    ensures
        ({
            let n = fragment_count(f.data.len());
            push_all(m, fragments_in_order(uid, f, order)) == (
                m,
                Seq::new(
                    n,
                    |i: int|
                        if i == n - 1 {
                            Some(f)
                        } else {
                            None
                        },
                ),
            )
        }),
{
    let n = fragment_count(f.data.len());
    assert(n >= 1) by (nonlinear_arith)
        requires
            n == f.data.len() / 1150 + if f.data.len() % 1150 != 0 {
                1nat
            } else {
                0nat
            },
            f.data.len() > 0,
    ;
    let ps = fragments_in_order(uid, f, order);
    let prev = fragments_in_order(uid, f, order.take(n - 1));
    assert(ps.drop_last() =~= prev);
    let p = fragment(uid, f, order[n - 1]);
    assert(ps.last() == p);
    let m1 = if n == 1 {
        m
    } else {
        m.insert(f.sequence, received(f, order.take(n - 1)))
    };
    if n == 1 {
        assert(prev =~= Seq::<VideoPacketV>::empty());
        assert(fresh_assembly(p).packets =~= received(f, order.take(0)).packets);
        assert(fresh_assembly(p) == received(f, order.take(0)));
    } else {
        lemma_push_any_prefix(m, uid, f, order, (n - 1) as nat);
    }
    let a = received(f, order.take(n - 1));
    assert(push_all(m, prev).0 == m1);
    assert(push_all(m, prev).1 =~= Seq::new((n - 1) as nat, |i: int| None::<EncodedFrameV>));
    let a0 = if m1.contains_key(f.sequence) {
        m1[f.sequence]
    } else {
        fresh_assembly(p)
    };
    assert(a0 == a);
    let idx = order[n - 1];
    assert(0 <= idx < n);
    assert(p.packet_index == idx);
    lemma_order_fresh(order, n - 1, n - 1);
    assert(a.packets[idx] is None);
    let slots = a.packets.update(idx, Some(p.data));
    let full = Seq::new(n, |j: int| Some(fragment_bytes(f.data, j)));
    lemma_order_names_all(order, n);
    assert forall|j: int| 0 <= j < n implies #[trigger] slots[j] == full[j] by {
        if j != idx {
            assert(order.contains(j));
            let i = choose|i: int| 0 <= i < order.len() && #[trigger] order[i] == j;
            assert(i != n - 1);
            let before = order.take(n - 1);
            assert(before[i] == j);
            assert(before.contains(j));
        }
    }
    assert(slots =~= full);
    assert(complete(slots));
    lemma_joined_fragments(f.data, n);
    assert(!(n * MAX_VIDEO_PAYLOAD < f.data.len())) by (nonlinear_arith)
        requires
            n == f.data.len() / 1150 + if f.data.len() % 1150 != 0 {
                1nat
            } else {
                0nat
            },
    ;
    assert(f.data.take(f.data.len() as int) =~= f.data);
    assert(m1.remove(f.sequence) =~= m);
    let expected = Seq::new(
        n,
        |i: int|
            if i == n - 1 {
                Some(f)
            } else {
                None
            },
    );
    assert(push_all(m, ps).1 =~= expected);
}

/// A fragment that arrives again, once its slot is filled, is ignored: the
/// frames under assembly stay exactly as they were, and nothing is
/// returned.
pub proof fn repeated_fragment_is_ignored(m: Map<u64, AssemblyV>, p: VideoPacketV)
    requires
        m.contains_key(p.frame_id),
        m[p.frame_id].packet_total == p.packet_total,
        m[p.frame_id].width == p.width,
        m[p.frame_id].height == p.height,
        m[p.frame_id].codec == p.codec,
        p.packet_index < m[p.frame_id].packets.len(),
        m[p.frame_id].packets[p.packet_index as int] is Some,
    ensures
        push_step(m, p) == (m, None::<EncodedFrameV>),
{
    assert(m.insert(p.frame_id, m[p.frame_id]) =~= m);
}

/// Pushing a fragment twice in a row, while its frame is still under
/// assembly after the first push, does the same as pushing it once: the
/// second push changes nothing and returns nothing.
pub proof fn pushing_twice_is_pushing_once(m: Map<u64, AssemblyV>, p: VideoPacketV)
    requires
        push_step(m, p).0.contains_key(p.frame_id),
    ensures
        push_step(push_step(m, p).0, p) == (push_step(m, p).0, None::<EncodedFrameV>),
{
    let m1 = push_step(m, p).0;
    {
        let id = p.frame_id;
        let a = if m.contains_key(id) {
            m[id]
        } else {
            fresh_assembly(p)
        };
        assert(a.packet_total == p.packet_total && a.width == p.width && a.height == p.height
            && a.codec == p.codec);
        assert(p.packet_index < a.packets.len());
        assert(m1[id].packets[p.packet_index as int] is Some);
        repeated_fragment_is_ignored(m1, p);
    }
}

} // verus!
