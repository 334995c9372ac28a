//! The debug overlays, up to where their floating-point geometry begins: which
//! pooled node shows which record of the shared block, and which nodes appear
//! or vanish.
//!
//! A slot of the block holds the bits of an `f32`. Here it stays a `u32`; the
//! bits are moved, never computed with.

use vstd::prelude::*;

use crate::protocol::{CONTACT_STRIDE, JOINT_STRIDE, POSE_STRIDE};

verus! {

/// The bits of three coordinates.
#[derive(Clone, Copy, Debug, PartialEq, Eq, Structural)]
pub struct Vec3Bits {
    pub x: u32,
    pub y: u32,
    pub z: u32,
}

/// The bits of a quaternion.
#[derive(Clone, Copy, Debug, PartialEq, Eq, Structural)]
pub struct QuatBits {
    pub x: u32,
    pub y: u32,
    pub z: u32,
    pub w: u32,
}

/// A body's inertial frame.
#[derive(Clone, Copy, Debug, PartialEq, Eq, Structural)]
pub struct InertiaFrame {
    pub translation: Vec3Bits,
    pub rotation: QuatBits,
}

/// A joint's world anchor and axis.
#[derive(Clone, Copy, Debug, PartialEq, Eq, Structural)]
pub struct JointFrame {
    pub anchor: Vec3Bits,
    pub axis: Vec3Bits,
}

/// A contact's world position, normal and normal force.
#[derive(Clone, Copy, Debug, PartialEq, Eq, Structural)]
pub struct Contact {
    pub position: Vec3Bits,
    pub normal: Vec3Bits,
    pub force: u32,
}

/// Three coordinates at a slot.
pub open spec fn vec3_at(slots: Seq<u32>, at: int) -> Vec3Bits {
    Vec3Bits { x: slots[at], y: slots[at + 1], z: slots[at + 2] }
}

/// Record `b` of the inertia region. The sim writes a quaternion as `w, x, y, z`.
pub open spec fn inertia_record(slots: Seq<u32>, b: int) -> InertiaFrame {
    let at = b * POSE_STRIDE;
    InertiaFrame {
        translation: vec3_at(slots, at),
        rotation: QuatBits {
            w: slots[at + 3],
            x: slots[at + 4],
            y: slots[at + 5],
            z: slots[at + 6],
        },
    }
}

/// Record `j` of the joint region.
pub open spec fn joint_record(slots: Seq<u32>, j: int) -> JointFrame {
    let at = j * JOINT_STRIDE;
    JointFrame { anchor: vec3_at(slots, at), axis: vec3_at(slots, at + 3) }
}

/// Record `i` of the contact region.
pub open spec fn contact_record(slots: Seq<u32>, i: int) -> Contact {
    let at = i * CONTACT_STRIDE;
    Contact {
        position: vec3_at(slots, at),
        normal: vec3_at(slots, at + 3),
        force: slots[at + 6],
    }
}

/// The indices whose flag is set, in rising order.
pub open spec fn marked(flags: Seq<bool>) -> Seq<int>
    decreases flags.len(),
{
    if flags.len() == 0 {
        Seq::empty()
    } else if flags.last() {
        marked(flags.drop_last()).push(flags.len() - 1)
    } else {
        marked(flags.drop_last())
    }
}

/// `marked` lists exactly the set flags, each once and in rising order.
pub proof fn law_marked_lists_the_set_flags(flags: Seq<bool>)
    ensures
        forall|i: int| #[trigger] marked(flags).contains(i) <==> 0 <= i < flags.len() && flags[i],
        forall|k: int, l: int|
            0 <= k < l < marked(flags).len() ==> #[trigger] marked(flags)[k] < #[trigger] marked(
                flags,
            )[l],
    decreases flags.len(),
{
    if flags.len() > 0 {
        let rest = flags.drop_last();
        law_marked_lists_the_set_flags(rest);
        assert forall|k: int| 0 <= k < marked(rest).len() implies 0 <= #[trigger] marked(rest)[k]
            < rest.len() by {
            assert(marked(rest).contains(marked(rest)[k]));
        }
        assert forall|i: int| #[trigger] marked(flags).contains(i) <==> 0 <= i < flags.len()
            && flags[i] by {
            if marked(rest).contains(i) {
                let k = choose|k: int| 0 <= k < marked(rest).len() && marked(rest)[k] == i;
                assert(marked(flags)[k] == i);
                assert(rest[i] == flags[i]);
            }
            if marked(flags).contains(i) {
                let k = choose|k: int| 0 <= k < marked(flags).len() && marked(flags)[k] == i;
                if k < marked(rest).len() {
                    assert(marked(rest)[k] == i);
                    assert(marked(rest).contains(i));
                    assert(rest[i] == flags[i]);
                }
            }
            if 0 <= i < flags.len() && flags[i] {
                if i == flags.len() - 1 {
                    assert(marked(flags).last() == i);
                    assert(marked(flags)[marked(flags).len() - 1] == i);
                } else {
                    assert(rest[i] == flags[i]);
                    assert(marked(rest).contains(i));
                }
            }
        }
    }
}

fn vec3(slots: &Vec<u32>, at: usize) -> (v: Vec3Bits)
    requires
        at + 3 <= slots@.len(),
    ensures
        v == vec3_at(slots@, at as int),
{
    let len: usize = slots.len();
    assert(at + 3 <= len);
    Vec3Bits { x: slots[at], y: slots[at + 1], z: slots[at + 2] }
}

/// A node of an overlay and what it has to show.
#[derive(Debug, PartialEq, Eq)]
pub struct Placed<T> {
    pub index: usize,
    pub frame: T,
}

/// The inertia-box overlay: which bodies have a box. A massless body has none.
pub struct InertiaOverlay {
    pub boxes: Vec<bool>,
}

impl InertiaOverlay {
    /// Where each box goes, given a copy of the inertia region.
    pub fn apply(&self, slots: &Vec<u32>) -> (placed: Vec<Placed<InertiaFrame>>)
        requires
            forall|b: int|
                0 <= b < self.boxes@.len() && #[trigger] self.boxes@[b] ==> (b + 1) * POSE_STRIDE
                    <= slots@.len(),
        ensures
            placed@.len() == marked(self.boxes@).len(),
            forall|k: int|
                0 <= k < placed@.len() ==> (#[trigger] placed@[k]).index == marked(self.boxes@)[k]
                    && placed@[k].frame == inertia_record(slots@, marked(self.boxes@)[k]),
    {
        let mut placed: Vec<Placed<InertiaFrame>> = Vec::new();
        let n: usize = self.boxes.len();
        let len: usize = slots.len();
        let mut b: usize = 0;
        while b < n
            invariant
                b <= n,
                n == self.boxes@.len(),
                len == slots@.len(),
                forall|b: int|
                    0 <= b < self.boxes@.len() && #[trigger] self.boxes@[b] ==> (b + 1)
                        * POSE_STRIDE <= slots@.len(),
                placed@.len() == marked(self.boxes@.take(b as int)).len(),
                forall|k: int|
                    0 <= k < placed@.len() ==> (#[trigger] placed@[k]).index == marked(
                        self.boxes@.take(b as int),
                    )[k] && placed@[k].frame == inertia_record(
                        slots@,
                        marked(self.boxes@.take(b as int))[k],
                    ),
            decreases n - b,
        {
            proof {
                assert(self.boxes@.take(b + 1).drop_last() =~= self.boxes@.take(b as int));
            }
            if self.boxes[b] {
                assert((b + 1) * POSE_STRIDE <= len);
                let at: usize = b * POSE_STRIDE;
                placed.push(
                    Placed {
                        index: b,
                        frame: InertiaFrame {
                            translation: vec3(slots, at),
                            rotation: QuatBits {
                                x: slots[at + 4],
                                y: slots[at + 5],
                                z: slots[at + 6],
                                w: slots[at + 3],
                            },
                        },
                    },
                );
            }
            b = b + 1;
        }
        proof {
            assert(self.boxes@.take(n as int) =~= self.boxes@);
        }
        placed
    }
}

/// The joint-axis overlay: which joints have a bar.
pub struct JointOverlay {
    pub bars: Vec<bool>,
}

impl JointOverlay {
    /// A slide (2) or a hinge (3) turns or moves about one axis. A free joint has
    /// six degrees of freedom and a ball joint three, so neither has one to draw.
    pub open spec fn has_axis(kind: int) -> bool {
        kind == 2 || kind == 3
    }

    /// The overlay for a model's joints, from the sim's joint kinds. A joint whose
    /// kind is missing gets no bar.
    pub fn new(njnt: usize, kinds: &Vec<i32>) -> (overlay: JointOverlay)
        ensures
            overlay.bars@.len() == njnt,
            forall|j: int|
                0 <= j < njnt ==> #[trigger] overlay.bars@[j] == (j < kinds@.len()
                    && JointOverlay::has_axis(kinds@[j] as int)),
    {
        let mut bars: Vec<bool> = Vec::new();
        let mut j: usize = 0;
        while j < njnt
            invariant
                j <= njnt,
                bars@.len() == j,
                forall|k: int|
                    0 <= k < j ==> #[trigger] bars@[k] == (k < kinds@.len()
                        && JointOverlay::has_axis(kinds@[k] as int)),
            decreases njnt - j,
        {
            bars.push(j < kinds.len() && (kinds[j] == 2 || kinds[j] == 3));
            j = j + 1;
        }
        JointOverlay { bars }
    }

    /// Where each bar goes, given a copy of the joint region.
    pub fn apply(&self, slots: &Vec<u32>) -> (placed: Vec<Placed<JointFrame>>)
        requires
            forall|j: int|
                0 <= j < self.bars@.len() && #[trigger] self.bars@[j] ==> (j + 1) * JOINT_STRIDE
                    <= slots@.len(),
        ensures
            placed@.len() == marked(self.bars@).len(),
            forall|k: int|
                0 <= k < placed@.len() ==> (#[trigger] placed@[k]).index == marked(self.bars@)[k]
                    && placed@[k].frame == joint_record(slots@, marked(self.bars@)[k]),
    {
        let mut placed: Vec<Placed<JointFrame>> = Vec::new();
        let n: usize = self.bars.len();
        let len: usize = slots.len();
        let mut j: usize = 0;
        while j < n
            invariant
                j <= n,
                n == self.bars@.len(),
                len == slots@.len(),
                forall|j: int|
                    0 <= j < self.bars@.len() && #[trigger] self.bars@[j] ==> (j + 1)
                        * JOINT_STRIDE <= slots@.len(),
                placed@.len() == marked(self.bars@.take(j as int)).len(),
                forall|k: int|
                    0 <= k < placed@.len() ==> (#[trigger] placed@[k]).index == marked(
                        self.bars@.take(j as int),
                    )[k] && placed@[k].frame == joint_record(
                        slots@,
                        marked(self.bars@.take(j as int))[k],
                    ),
            decreases n - j,
        {
            proof {
                assert(self.bars@.take(j + 1).drop_last() =~= self.bars@.take(j as int));
            }
            if self.bars[j] {
                assert((j + 1) * JOINT_STRIDE <= len);
                let at: usize = j * JOINT_STRIDE;
                placed.push(
                    Placed {
                        index: j,
                        frame: JointFrame { anchor: vec3(slots, at), axis: vec3(slots, at + 3) },
                    },
                );
            }
            j = j + 1;
        }
        proof {
            assert(self.bars@.take(n as int) =~= self.bars@);
        }
        placed
    }
}

/// One frame of the contact overlay.
pub struct ContactFrame {
    /// The live contacts; contact `i` is shown by spike `i`.
    pub live: Vec<Contact>,
    /// The spikes `first .. end` change visibility, and no others.
    pub first: usize,
    pub end: usize,
    /// Whether those spikes are hidden now.
    pub hide: bool,
}

/// The contact overlay: a fixed pool of spikes, of which the first `shown` are
/// visible. Hiding a mesh is costly, so only a change of visibility is reported.
pub struct ContactOverlay {
    pool: usize,
    shown: usize,
}

impl ContactOverlay {
    #[verifier::type_invariant]
    spec fn inv(self) -> bool {
        self.shown <= self.pool
    }

    /// How many spikes there are.
    pub closed spec fn pool(&self) -> nat {
        self.pool as nat
    }

    /// How many spikes are visible.
    pub closed spec fn shown(&self) -> nat {
        self.shown as nat
    }

    /// A pool of which no spike is visible.
    pub fn new(pool: usize) -> (overlay: ContactOverlay)
        ensures
            overlay.pool() == pool,
            overlay.shown() == 0,
    {
        ContactOverlay { pool, shown: 0 }
    }

    /// How many of `ncon` contacts have a spike.
    pub open spec fn live(&self, ncon: nat) -> nat {
        if ncon < self.pool() {
            ncon
        } else {
            self.pool()
        }
    }

    /// Take over a frame with `ncon` contacts, given a copy of the contact region.
    pub fn apply(&mut self, ncon: usize, slots: &Vec<u32>) -> (frame: ContactFrame)
        requires
            old(self).live(ncon as nat) * CONTACT_STRIDE <= slots@.len(),
        ensures
            final(self).pool() == old(self).pool(),
            final(self).shown() == old(self).live(ncon as nat),
            frame.live@.len() == old(self).live(ncon as nat),
            forall|i: int|
                0 <= i < frame.live@.len() ==> #[trigger] frame.live@[i] == contact_record(
                    slots@,
                    i,
                ),
            frame.end <= final(self).pool(),
            edge(
                old(self).shown(),
                final(self).shown(),
                frame.first as nat,
                frame.end as nat,
                frame.hide,
            ),
    {
        proof {
            use_type_invariant(&*self);
        }
        let live: usize = if ncon < self.pool {
            ncon
        } else {
            self.pool
        };
        let len: usize = slots.len();
        let mut contacts: Vec<Contact> = Vec::new();
        let mut i: usize = 0;
        while i < live
            invariant
                i <= live,
                len == slots@.len(),
                live * CONTACT_STRIDE <= len,
                contacts@.len() == i,
                forall|k: int|
                    0 <= k < i ==> #[trigger] contacts@[k] == contact_record(slots@, k),
            decreases live - i,
        {
            let at: usize = i * CONTACT_STRIDE;
            contacts.push(
                Contact {
                    position: vec3(slots, at),
                    normal: vec3(slots, at + 3),
                    force: slots[at + 6],
                },
            );
            i = i + 1;
        }
        let before: usize = self.shown;
        self.shown = live;
        if live < before {
            ContactFrame { live: contacts, first: live, end: before, hide: true }
        } else {
            ContactFrame { live: contacts, first: before, end: live, hide: false }
        }
    }
}

/// The spikes `first .. end` are exactly those whose visibility changes when the
/// number of visible spikes goes from `before` to `after`, and `hide` says which
/// way they go.
pub open spec fn edge(before: nat, after: nat, first: nat, end: nat, hide: bool) -> bool {
    if after < before {
        first == after && end == before && hide
    } else {
        first == before && end == after && !hide
    }
}

/// Visibility follows the contacts, and only its edges are touched. With the
/// first `before` spikes visible, changing just the reported ones leaves exactly
/// the first `after` visible; a spike is reported only if its visibility
/// changes; and a steady count reports none.
pub proof fn law_only_edges_are_touched(
    before: nat,
    after: nat,
    first: nat,
    end: nat,
    hide: bool,
    i: nat,
)
    requires
        edge(before, after, first, end, hide),
    ensures
        (if first <= i < end {
            !hide
        } else {
            i < before
        }) == (i < after),
        first <= i < end <==> (i < before) != (i < after),
        before == after ==> first == end,
{
}

/// The equivalent-box data of one body: the bits of its mass and of its diagonal
/// inertia.
#[derive(Clone, Copy, Debug, PartialEq, Eq, Structural)]
pub struct MassRow {
    pub mass: u64,
    pub ixx: u64,
    pub iyy: u64,
    pub izz: u64,
}

/// The bits at an index of a model array; the bits of zero past its end.
pub open spec fn bits_at(values: Seq<u64>, i: int) -> u64 {
    if i < values.len() {
        values[i]
    } else {
        0
    }
}

fn bits_or_zero(values: &Vec<u64>, i: usize) -> (bits: u64)
    ensures
        bits == bits_at(values@, i as int),
{
    if i < values.len() {
        values[i]
    } else {
        0
    }
}

/// The mass and inertia of every body, out of the model's flat arrays: one mass
/// per body, three inertia values per body. What an array lacks counts as zero.
pub fn mass_rows(nbody: usize, mass: &Vec<u64>, inertia: &Vec<u64>) -> (rows: Vec<MassRow>)
    requires
        nbody * 3 <= usize::MAX,
    ensures
        rows@.len() == nbody,
        forall|b: int|
            0 <= b < nbody ==> #[trigger] rows@[b] == (MassRow {
                mass: bits_at(mass@, b),
                ixx: bits_at(inertia@, b * 3),
                iyy: bits_at(inertia@, b * 3 + 1),
                izz: bits_at(inertia@, b * 3 + 2),
            }),
{
    let mut rows: Vec<MassRow> = Vec::new();
    let mut b: usize = 0;
    while b < nbody
        invariant
            b <= nbody,
            nbody * 3 <= usize::MAX,
            rows@.len() == b,
            forall|k: int|
                0 <= k < b ==> #[trigger] rows@[k] == (MassRow {
                    mass: bits_at(mass@, k),
                    ixx: bits_at(inertia@, k * 3),
                    iyy: bits_at(inertia@, k * 3 + 1),
                    izz: bits_at(inertia@, k * 3 + 2),
                }),
        decreases nbody - b,
    {
        rows.push(
            MassRow {
                mass: bits_or_zero(mass, b),
                ixx: bits_or_zero(inertia, b * 3),
                iyy: bits_or_zero(inertia, b * 3 + 1),
                izz: bits_or_zero(inertia, b * 3 + 2),
            },
        );
        b = b + 1;
    }
    rows
}

/// Every flagged entry is placed, once and in rising order, and no other.
pub open spec fn places_flagged<T>(placed: Seq<Placed<T>>, flags: Seq<bool>) -> bool {
    &&& forall|k: int|
        0 <= k < placed.len() ==> (#[trigger] placed[k]).index < flags.len()
            && flags[placed[k].index as int]
    &&& forall|k: int, l: int|
        0 <= k < l < placed.len() ==> (#[trigger] placed[k]).index < (#[trigger] placed[l]).index
    &&& forall|j: int|
        0 <= j < flags.len() && #[trigger] flags[j] ==> exists|k: int|
            0 <= k < placed.len() && (#[trigger] placed[k]).index == j
}

pub(crate) proof fn lemma_marked_are_placed<T>(placed: Seq<Placed<T>>, flags: Seq<bool>)
    requires
        placed.len() == marked(flags).len(),
        forall|k: int|
            0 <= k < placed.len() ==> (#[trigger] placed[k]).index == marked(flags)[k],
    ensures
        places_flagged(placed, flags),
{
    law_marked_lists_the_set_flags(flags);
    assert forall|k: int| 0 <= k < placed.len() implies (#[trigger] placed[k]).index < flags.len()
        && flags[placed[k].index as int] by {
        assert(marked(flags).contains(marked(flags)[k]));
    }
    assert forall|j: int| 0 <= j < flags.len() && #[trigger] flags[j] implies exists|k: int|
        0 <= k < placed.len() && (#[trigger] placed[k]).index == j by {
        assert(marked(flags).contains(j));
        let k = choose|k: int| 0 <= k < marked(flags).len() && marked(flags)[k] == j;
        assert(placed[k].index == j);
    }
}

/// A joint's bar takes the six slots of its record bit for bit and in order: the
/// anchor's `x, y, z`, then the axis's. Every joint with a bar is placed, and no other.
pub proof fn law_joint_bars_take_their_slots(
    overlay: JointOverlay,
    slots: Vec<u32>,
    placed: Vec<Placed<JointFrame>>,
)
    requires
        call_ensures(JointOverlay::apply, (&overlay, &slots), placed),
    ensures
        places_flagged(placed@, overlay.bars@),
        forall|k: int|
            0 <= k < placed@.len() ==> {
                let p = #[trigger] placed@[k];
                let j = p.index as int;
                &&& p.frame.anchor.x == slots@[6 * j]
                &&& p.frame.anchor.y == slots@[6 * j + 1]
                &&& p.frame.anchor.z == slots@[6 * j + 2]
                &&& p.frame.axis.x == slots@[6 * j + 3]
                &&& p.frame.axis.y == slots@[6 * j + 4]
                &&& p.frame.axis.z == slots@[6 * j + 5]
            },
{
    lemma_marked_are_placed(placed@, overlay.bars@);
}

/// An inertia box takes the seven slots of its body's record bit for bit: the
/// translation's `x, y, z`, then the rotation, written `w, x, y, z`. Every body with a
/// box is placed, and no other.
pub proof fn law_inertia_boxes_take_their_slots(
    overlay: InertiaOverlay,
    slots: Vec<u32>,
    placed: Vec<Placed<InertiaFrame>>,
)
    requires
        call_ensures(InertiaOverlay::apply, (&overlay, &slots), placed),
    ensures
        places_flagged(placed@, overlay.boxes@),
        forall|k: int|
            0 <= k < placed@.len() ==> {
                let p = #[trigger] placed@[k];
                let b = p.index as int;
                &&& p.frame.translation.x == slots@[7 * b]
                &&& p.frame.translation.y == slots@[7 * b + 1]
                &&& p.frame.translation.z == slots@[7 * b + 2]
                &&& p.frame.rotation.w == slots@[7 * b + 3]
                &&& p.frame.rotation.x == slots@[7 * b + 4]
                &&& p.frame.rotation.y == slots@[7 * b + 5]
                &&& p.frame.rotation.z == slots@[7 * b + 6]
            },
{
    lemma_marked_are_placed(placed@, overlay.boxes@);
}

/// A record of any region is the row of its slots, bit for bit.
pub proof fn law_records_are_rows_of_slots(slots: Seq<u32>, i: int)
    ensures
        joint_record(slots, i) == (JointFrame {
            anchor: Vec3Bits { x: slots[6 * i], y: slots[6 * i + 1], z: slots[6 * i + 2] },
            axis: Vec3Bits { x: slots[6 * i + 3], y: slots[6 * i + 4], z: slots[6 * i + 5] },
        }),
        inertia_record(slots, i) == (InertiaFrame {
            translation: Vec3Bits { x: slots[7 * i], y: slots[7 * i + 1], z: slots[7 * i + 2] },
            rotation: QuatBits {
                w: slots[7 * i + 3],
                x: slots[7 * i + 4],
                y: slots[7 * i + 5],
                z: slots[7 * i + 6],
            },
        }),
        contact_record(slots, i) == (Contact {
            position: Vec3Bits { x: slots[7 * i], y: slots[7 * i + 1], z: slots[7 * i + 2] },
            normal: Vec3Bits { x: slots[7 * i + 3], y: slots[7 * i + 4], z: slots[7 * i + 5] },
            force: slots[7 * i + 6],
        }),
{
}

/// A joint has a bar exactly if its kind is known and is a slide or a hinge, however
/// many joints there are.
pub proof fn law_slides_and_hinges_have_bars(
    njnt: usize,
    kinds: Vec<i32>,
    overlay: JointOverlay,
)
    requires
        call_ensures(JointOverlay::new, (njnt, &kinds), overlay),
    ensures
        overlay.bars@.len() == njnt,
        forall|j: int|
            0 <= j < njnt && j < kinds@.len() ==> (#[trigger] overlay.bars@[j] <==> kinds@[j] == 2
                || kinds@[j] == 3),
        forall|j: int| kinds@.len() <= j < njnt ==> !#[trigger] overlay.bars@[j],
{
}

/// A frame shows every live contact that has a spike: as many as the sim reports, or
/// all spikes where it reports more, each with the seven slots of its record bit for
/// bit. Touching just the reported spikes leaves those, and only those, visible.
pub proof fn law_live_contacts_are_shown()
    ensures
        forall|overlay: &mut ContactOverlay, ncon: usize, slots: Vec<u32>, frame: ContactFrame|
            #[trigger] call_ensures(ContactOverlay::apply, (overlay, ncon, &slots), frame) ==> {
                &&& (*final(overlay)).pool() == (*overlay).pool()
                &&& frame.live@.len() <= ncon
                &&& frame.live@.len() <= (*overlay).pool()
                &&& frame.live@.len() == ncon || frame.live@.len() == (*overlay).pool()
                &&& (*final(overlay)).shown() == frame.live@.len()
                &&& forall|i: int|
                    0 <= i < frame.live@.len() ==> {
                        let c = #[trigger] frame.live@[i];
                        &&& c.position.x == slots@[7 * i]
                        &&& c.position.y == slots@[7 * i + 1]
                        &&& c.position.z == slots@[7 * i + 2]
                        &&& c.normal.x == slots@[7 * i + 3]
                        &&& c.normal.y == slots@[7 * i + 4]
                        &&& c.normal.z == slots@[7 * i + 5]
                        &&& c.force == slots@[7 * i + 6]
                    }
                &&& frame.end <= (*overlay).pool()
                &&& forall|i: nat|
                    #[trigger] visible_after(frame, (*overlay).shown(), i) <==> i
                        < frame.live@.len()
                &&& forall|i: nat|
                    #![trigger visible_after(frame, (*overlay).shown(), i)]
                    frame.first <= i < frame.end ==> (i < (*overlay).shown()) != (i
                        < frame.live@.len())
            },
{
}

/// Spike `i` is visible after a frame that found the first `before` visible.
pub open spec fn visible_after(frame: ContactFrame, before: nat, i: nat) -> bool {
    if frame.first <= i < frame.end {
        !frame.hide
    } else {
        i < before
    }
}

/// A pool has the size that it was asked for, and starts with nothing visible.
pub proof fn law_pool_has_the_size_asked_for(pool: usize, overlay: ContactOverlay)
    requires
        call_ensures(ContactOverlay::new, (pool,), overlay),
    ensures
        overlay.pool() == pool,
        overlay.shown() == 0,
{
}

/// Every body has its own mass and its own three inertia values, bit for bit; a body
/// past the end of an array counts as massless, whatever the other array holds.
pub proof fn law_every_body_has_its_row(
    nbody: usize,
    mass: Vec<u64>,
    inertia: Vec<u64>,
    rows: Vec<MassRow>,
)
    requires
        call_ensures(mass_rows, (nbody, &mass, &inertia), rows),
    ensures
        rows@.len() == nbody,
        forall|b: int|
            0 <= b < nbody ==> {
                let row = #[trigger] rows@[b];
                &&& b < mass@.len() ==> row.mass == mass@[b]
                &&& b >= mass@.len() ==> row.mass == 0
                &&& 3 * b < inertia@.len() ==> row.ixx == inertia@[3 * b]
                &&& 3 * b >= inertia@.len() ==> row.ixx == 0
                &&& 3 * b + 1 < inertia@.len() ==> row.iyy == inertia@[3 * b + 1]
                &&& 3 * b + 1 >= inertia@.len() ==> row.iyy == 0
                &&& 3 * b + 2 < inertia@.len() ==> row.izz == inertia@[3 * b + 2]
                &&& 3 * b + 2 >= inertia@.len() ==> row.izz == 0
            },
{
}

} // verus!
