//! One frame of the live link between the sim's block and the scene: two looks
//! at the sequence number round a copy, then what the overlays show of it.

use vstd::prelude::*;

use crate::overlays::{
    contact_record, edge, inertia_record, joint_record, lemma_marked_are_placed, marked,
    places_flagged, visible_after, ContactFrame, ContactOverlay, InertiaFrame, InertiaOverlay,
    JointFrame, JointOverlay, Placed,
};
use crate::protocol::{Counts, Part, CONTACT_STRIDE, JOINT_STRIDE, MAX_CONTACTS, POSE_STRIDE};
use crate::seqlock::{live_contacts, undisturbed, SnapshotReader};

verus! {

/// The copies of the overlay regions that belong to one frame. One whose overlay
/// is not built may be empty.
pub struct OverlayCopies {
    pub contacts: Vec<u32>,
    pub joints: Vec<u32>,
    pub inertia: Vec<u32>,
}

/// What the overlays show of one frame; nothing for an overlay that is not built.
pub struct OverlayFrame {
    pub contacts: Option<ContactFrame>,
    pub joints: Option<Vec<Placed<JointFrame>>>,
    pub inertia: Option<Vec<Placed<InertiaFrame>>>,
}

/// The link, once it is made: the reader's memory and the overlays that were built.
pub struct SimLink {
    pub reader: SnapshotReader,
    pub contacts: Option<ContactOverlay>,
    pub joints: Option<JointOverlay>,
    pub inertia: Option<InertiaOverlay>,
}

impl OverlayCopies {
    /// The copies hold every record that the link's overlays show.
    pub open spec fn suffice(&self, link: SimLink, live: nat) -> bool {
        &&& link.contacts matches Some(o) ==> o.live(live) * CONTACT_STRIDE <= self.contacts@.len()
        &&& link.joints matches Some(o) ==> forall|j: int|
            0 <= j < o.bars@.len() && #[trigger] o.bars@[j] ==> (j + 1) * JOINT_STRIDE
                <= self.joints@.len()
        &&& link.inertia matches Some(o) ==> forall|b: int|
            0 <= b < o.boxes@.len() && #[trigger] o.boxes@[b] ==> (b + 1) * POSE_STRIDE
                <= self.inertia@.len()
    }
}

impl OverlayFrame {
    /// The bars that are drawn are those of the overlay, each at its record.
    pub open spec fn shows_joints(&self, overlay: Option<JointOverlay>, slots: Seq<u32>) -> bool {
        match (overlay, self.joints) {
            (Some(o), Some(placed)) => {
                &&& placed@.len() == marked(o.bars@).len()
                &&& forall|k: int|
                    0 <= k < placed@.len() ==> (#[trigger] placed@[k]).index == marked(o.bars@)[k]
                        && placed@[k].frame == joint_record(slots, marked(o.bars@)[k])
            },
            (None, None) => true,
            _ => false,
        }
    }

    /// The boxes that are drawn are those of the overlay, each at its record.
    pub open spec fn shows_inertia(
        &self,
        overlay: Option<InertiaOverlay>,
        slots: Seq<u32>,
    ) -> bool {
        match (overlay, self.inertia) {
            (Some(o), Some(placed)) => {
                &&& placed@.len() == marked(o.boxes@).len()
                &&& forall|k: int|
                    0 <= k < placed@.len() ==> (#[trigger] placed@[k]).index == marked(o.boxes@)[k]
                        && placed@[k].frame == inertia_record(slots, marked(o.boxes@)[k])
            },
            (None, None) => true,
            _ => false,
        }
    }

    /// The live contacts are drawn, each at its record, and the overlay goes on
    /// from there.
    pub open spec fn shows_contacts(
        &self,
        before: Option<ContactOverlay>,
        after: Option<ContactOverlay>,
        live: nat,
        slots: Seq<u32>,
    ) -> bool {
        match (before, after, self.contacts) {
            (Some(b), Some(a), Some(frame)) => {
                &&& a.pool() == b.pool()
                &&& a.shown() == b.live(live)
                &&& frame.live@.len() == b.live(live)
                &&& forall|i: int|
                    0 <= i < frame.live@.len() ==> #[trigger] frame.live@[i] == contact_record(
                        slots,
                        i,
                    )
                &&& frame.end <= a.pool()
                &&& edge(b.shown(), a.shown(), frame.first as nat, frame.end as nat, frame.hide)
            },
            (None, None, None) => true,
            _ => false,
        }
    }
}

impl SimLink {
    /// A link that has applied nothing, with the overlays that were built.
    pub fn new(
        contacts: Option<ContactOverlay>,
        joints: Option<JointOverlay>,
        inertia: Option<InertiaOverlay>,
    ) -> (link: SimLink)
        ensures
            link.reader@ == 0,
            link.contacts == contacts,
            link.joints == joints,
            link.inertia == inertia,
    {
        SimLink { reader: SnapshotReader::new(), contacts, joints, inertia }
    }

    /// End a frame whose copy began at `start`: take the last look, and if the
    /// copy is whole take it over. A torn copy changes nothing, and the last
    /// frame stays on screen.
    pub fn finish(
        &mut self,
        start: i32,
        look: Option<i32>,
        ncon: Option<i32>,
        copies: &OverlayCopies,
    ) -> (frame: Option<OverlayFrame>)
        requires
            undisturbed(start as int, look) ==> copies.suffice(*old(self), live_contacts(ncon)),
        ensures
            final(self).joints == old(self).joints,
            final(self).inertia == old(self).inertia,
            frame is Some <==> undisturbed(start as int, look),
            match frame {
                Some(f) => {
                    &&& final(self).reader@ == start
                    &&& f.shows_contacts(
                        old(self).contacts,
                        final(self).contacts,
                        live_contacts(ncon),
                        copies.contacts@,
                    )
                    &&& f.shows_joints(old(self).joints, copies.joints@)
                    &&& f.shows_inertia(old(self).inertia, copies.inertia@)
                },
                None => final(self).reader@ == old(self).reader@ && final(self).contacts == old(
                    self,
                ).contacts,
            },
    {
        match self.reader.finish(start, look, ncon) {
            None => None,
            Some(live) => {
                let contacts: Option<ContactFrame> = match &mut self.contacts {
                    Some(overlay) => Some(overlay.apply(live, &copies.contacts)),
                    None => None,
                };
                let joints: Option<Vec<Placed<JointFrame>>> = match &self.joints {
                    Some(overlay) => Some(overlay.apply(&copies.joints)),
                    None => None,
                };
                let inertia: Option<Vec<Placed<InertiaFrame>>> = match &self.inertia {
                    Some(overlay) => Some(overlay.apply(&copies.inertia)),
                    None => None,
                };
                Some(OverlayFrame { contacts, joints, inertia })
            },
        }
    }
}

/// A link over a linked block never lacks a record: with a pool of spikes no
/// larger than the contact region, one bar flag per joint and one box flag per
/// body, copies of the block's regions hold all that the overlays show, however
/// many contacts the sim reports.
pub proof fn law_copies_of_the_regions_suffice(
    link: SimLink,
    copies: OverlayCopies,
    c: Counts,
    live: nat,
)
    requires
        link.contacts matches Some(o) ==> o.pool() <= Part::Contacts.records(c)
            && copies.contacts@.len() == Part::Contacts.end(c) - Part::Contacts.start(c),
        link.joints matches Some(o) ==> o.bars@.len() == Part::Joints.records(c)
            && copies.joints@.len() == Part::Joints.end(c) - Part::Joints.start(c),
        link.inertia matches Some(o) ==> o.boxes@.len() == Part::Inertia.records(c)
            && copies.inertia@.len() == Part::Inertia.end(c) - Part::Inertia.start(c),
    ensures
        copies.suffice(link, live),
{
    if let Some(o) = link.contacts {
        assert(o.live(live) <= MAX_CONTACTS);
        assert(copies.contacts@.len() == MAX_CONTACTS * CONTACT_STRIDE);
    }
    if let Some(o) = link.joints {
        assert(copies.joints@.len() == c.njnt * JOINT_STRIDE);
    }
    if let Some(o) = link.inertia {
        assert(copies.inertia@.len() == c.nbody * POSE_STRIDE);
    }
}

/// A link holds the overlays that it was given, and has applied nothing.
pub proof fn law_link_holds_its_overlays(
    contacts: Option<ContactOverlay>,
    joints: Option<JointOverlay>,
    inertia: Option<InertiaOverlay>,
    link: SimLink,
)
    requires
        call_ensures(SimLink::new, (contacts, joints, inertia), link),
    ensures
        link.reader@ == 0,
        link.contacts == contacts,
        link.joints == joints,
        link.inertia == inertia,
{
}

/// A frame changes something exactly if the number still reads as it did when the copy
/// began. Otherwise the last frame stays: nothing is shown, and the link is as it was.
pub proof fn law_whole_frames_alone_are_shown()
    ensures
        forall|
            link: &mut SimLink,
            start: i32,
            look: Option<i32>,
            ncon: Option<i32>,
            copies: OverlayCopies,
            frame: Option<OverlayFrame>,
        | #[trigger]
            call_ensures(SimLink::finish, (link, start, look, ncon, &copies), frame) && start != -1
                ==> {
                &&& frame is Some <==> look == Some(start)
                &&& (*final(link)).reader@ == (if look == Some(start) {
                    start as int
                } else {
                    (*link).reader@
                })
                &&& look != Some(start) ==> (*final(link)).contacts == (*link).contacts
                &&& (*final(link)).joints == (*link).joints
                &&& (*final(link)).inertia == (*link).inertia
            },
{
}

/// A whole frame reaches every overlay that was built: each joint with a bar and each
/// body with a box takes the slots of its own record, in its own copy, bit for bit.
pub proof fn law_frame_places_bars_and_boxes()
    ensures
        forall|
            link: &mut SimLink,
            start: i32,
            look: Option<i32>,
            ncon: Option<i32>,
            copies: OverlayCopies,
            frame: OverlayFrame,
        | #[trigger]
            call_ensures(SimLink::finish, (link, start, look, ncon, &copies), Some(frame)) ==> {
                &&& frame.joints is Some <==> (*link).joints is Some
                &&& frame.inertia is Some <==> (*link).inertia is Some
                &&& frame.joints matches Some(placed) ==> {
                    &&& places_flagged(placed@, (*link).joints->0.bars@)
                    &&& forall|k: int|
                        0 <= k < placed@.len() ==> {
                            let p = #[trigger] placed@[k];
                            let at = 6 * p.index as int;
                            &&& p.frame.anchor.x == copies.joints@[at]
                            &&& p.frame.anchor.y == copies.joints@[at + 1]
                            &&& p.frame.anchor.z == copies.joints@[at + 2]
                            &&& p.frame.axis.x == copies.joints@[at + 3]
                            &&& p.frame.axis.y == copies.joints@[at + 4]
                            &&& p.frame.axis.z == copies.joints@[at + 5]
                        }
                }
                &&& frame.inertia matches Some(placed) ==> {
                    &&& places_flagged(placed@, (*link).inertia->0.boxes@)
                    &&& forall|k: int|
                        0 <= k < placed@.len() ==> {
                            let p = #[trigger] placed@[k];
                            let at = 7 * p.index as int;
                            &&& p.frame.translation.x == copies.inertia@[at]
                            &&& p.frame.translation.y == copies.inertia@[at + 1]
                            &&& p.frame.translation.z == copies.inertia@[at + 2]
                            &&& p.frame.rotation.w == copies.inertia@[at + 3]
                            &&& p.frame.rotation.x == copies.inertia@[at + 4]
                            &&& p.frame.rotation.y == copies.inertia@[at + 5]
                            &&& p.frame.rotation.z == copies.inertia@[at + 6]
                        }
                }
            },
{
    assert forall|
        link: &mut SimLink,
        start: i32,
        look: Option<i32>,
        ncon: Option<i32>,
        copies: OverlayCopies,
        frame: OverlayFrame,
    | #[trigger]
        call_ensures(SimLink::finish, (link, start, look, ncon, &copies), Some(frame)) implies {
        &&& frame.joints matches Some(placed) ==> places_flagged(placed@, (*link).joints->0.bars@)
        &&& frame.inertia matches Some(placed) ==> places_flagged(
            placed@,
            (*link).inertia->0.boxes@,
        )
    } by {
        if let Some(placed) = frame.joints {
            lemma_marked_are_placed(placed@, (*link).joints->0.bars@);
        }
        if let Some(placed) = frame.inertia {
            lemma_marked_are_placed(placed@, (*link).inertia->0.boxes@);
        }
    }
}

/// A whole frame shows as many contacts as the sim reports, up to the pool, each with
/// the slots of its own record bit for bit; a negative or missing count shows none.
pub proof fn law_frame_shows_the_reported_contacts()
    ensures
        forall|
            link: &mut SimLink,
            start: i32,
            look: Option<i32>,
            ncon: Option<i32>,
            copies: OverlayCopies,
            frame: OverlayFrame,
        | #[trigger]
            call_ensures(SimLink::finish, (link, start, look, ncon, &copies), Some(frame)) ==> {
                &&& frame.contacts is Some <==> (*link).contacts is Some
                &&& (*final(link)).contacts is Some <==> (*link).contacts is Some
                &&& frame.contacts matches Some(shown) ==> {
                    let before = (*link).contacts->0;
                    let after = (*final(link)).contacts->0;
                    let reported: int = match ncon {
                        Some(n) => if n < 0 {
                            0
                        } else {
                            n as int
                        },
                        None => 0,
                    };
                    &&& after.pool() == before.pool()
                    &&& shown.live@.len() == (if reported < before.pool() {
                        reported
                    } else {
                        before.pool() as int
                    })
                    &&& after.shown() == shown.live@.len()
                    &&& forall|i: int|
                        0 <= i < shown.live@.len() ==> {
                            let c = #[trigger] shown.live@[i];
                            &&& c.position.x == copies.contacts@[7 * i]
                            &&& c.position.y == copies.contacts@[7 * i + 1]
                            &&& c.position.z == copies.contacts@[7 * i + 2]
                            &&& c.normal.x == copies.contacts@[7 * i + 3]
                            &&& c.normal.y == copies.contacts@[7 * i + 4]
                            &&& c.normal.z == copies.contacts@[7 * i + 5]
                            &&& c.force == copies.contacts@[7 * i + 6]
                        }
                    &&& shown.end <= before.pool()
                    &&& forall|i: nat|
                        #[trigger] visible_after(shown, before.shown(), i) <==> i
                            < shown.live@.len()
                    &&& forall|i: nat|
                        #![trigger visible_after(shown, before.shown(), i)]
                        shown.first <= i < shown.end ==> (i < before.shown()) != (i
                            < shown.live@.len())
                }
            },
{
}

} // verus!
