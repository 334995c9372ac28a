//! The wire between the main thread, the render worker and the sim worker.
//!
//! The sim worker publishes through one shared block of 32-bit slots:
//!
//! ```text
//! [0]  seq        seqlock: ODD while the writer is inside the block, EVEN otherwise
//! [1]  steps      sim steps published so far
//! [2]  ngeom
//! [3]  ncon       live contacts in the contact region
//! [4 ..]          geom poses      7 slots per geom
//!                 contacts        7 slots per pooled contact (a fixed pool)
//!                 joints          6 slots per joint
//!                 inertia frames  7 slots per body
//!                 body poses      7 slots per body
//! ```
//!
//! The regions follow one another without a gap, so every offset is a sum of
//! the lengths before it.

use vstd::prelude::*;

use crate::text::same_text;

verus! {

/// Slots per pose: a position and a quaternion.
pub const POSE_STRIDE: usize = 7;

/// Slots before the geom poses.
pub const POSE_HEADER: usize = 4;

/// Slots per contact: position, normal and normal force.
pub const CONTACT_STRIDE: usize = 7;

/// Contacts the block has room for.
pub const MAX_CONTACTS: usize = 256;

/// Slots per joint: world anchor and world axis.
pub const JOINT_STRIDE: usize = 6;

/// Header slot of the sequence number.
pub const SEQ_SLOT: u32 = 0;

/// Header slot of the live contact count.
pub const NCON_SLOT: u32 = 3;

/// First slot after the geom poses, where the contacts begin.
pub open spec fn contact_start(ngeom: nat) -> nat {
    POSE_HEADER as nat + ngeom * POSE_STRIDE as nat
}

/// First slot after the contacts, where the joints begin.
pub open spec fn joint_start(ngeom: nat) -> nat {
    contact_start(ngeom) + MAX_CONTACTS as nat * CONTACT_STRIDE as nat
}

/// First slot after the joints, where the inertia frames begin.
pub open spec fn inertia_start(ngeom: nat, njnt: nat) -> nat {
    joint_start(ngeom) + njnt * JOINT_STRIDE as nat
}

/// First slot after the inertia frames, where the body poses begin.
pub open spec fn body_start(ngeom: nat, njnt: nat, nbody: nat) -> nat {
    inertia_start(ngeom, njnt) + nbody * POSE_STRIDE as nat
}

/// Slots in the whole block.
pub open spec fn block_slots(ngeom: nat, njnt: nat, nbody: nat) -> nat {
    body_start(ngeom, njnt, nbody) + nbody * POSE_STRIDE as nat
}

/// The byte length of the whole block can be asked of a shared buffer, whose
/// length is a `u32`.
pub open spec fn block_fits(ngeom: nat, njnt: nat, nbody: nat) -> bool {
    block_slots(ngeom, njnt, nbody) * 4 <= u32::MAX
}

/// Byte size of the pose block for `ngeom` geoms: the header and one pose per geom.
pub fn pose_block_bytes(ngeom: usize) -> (bytes: usize)
    requires
        (POSE_HEADER + ngeom * POSE_STRIDE) * 4 <= usize::MAX,
    ensures
        bytes == (POSE_HEADER + ngeom * POSE_STRIDE) * 4,
{
    (POSE_HEADER + ngeom * POSE_STRIDE) * 4
}

/// Slot at which the contact region begins.
pub fn contact_offset(ngeom: usize) -> (slot: usize)
    requires
        contact_start(ngeom as nat) <= usize::MAX,
    ensures
        slot == contact_start(ngeom as nat),
{
    POSE_HEADER + ngeom * POSE_STRIDE
}

/// Slot at which the joint region begins.
pub fn joint_offset(ngeom: usize) -> (slot: usize)
    requires
        joint_start(ngeom as nat) <= usize::MAX,
    ensures
        slot == joint_start(ngeom as nat),
{
    contact_offset(ngeom) + MAX_CONTACTS * CONTACT_STRIDE
}

/// Slot at which the inertia-frame region begins.
pub fn inertia_offset(ngeom: usize, njnt: usize) -> (slot: usize)
    requires
        inertia_start(ngeom as nat, njnt as nat) <= usize::MAX,
    ensures
        slot == inertia_start(ngeom as nat, njnt as nat),
{
    joint_offset(ngeom) + njnt * JOINT_STRIDE
}

/// Slot at which the body-pose region begins.
pub fn body_offset(ngeom: usize, njnt: usize, nbody: usize) -> (slot: usize)
    requires
        body_start(ngeom as nat, njnt as nat, nbody as nat) <= usize::MAX,
    ensures
        slot == body_start(ngeom as nat, njnt as nat, nbody as nat),
{
    inertia_offset(ngeom, njnt) + nbody * POSE_STRIDE
}

/// The model's geom, joint and body counts, as far as a layout depends on them.
pub struct Counts {
    pub ngeom: nat,
    pub njnt: nat,
    pub nbody: nat,
}

impl Counts {
    /// Slots in the whole block.
    pub open spec fn slots(self) -> nat {
        block_slots(self.ngeom, self.njnt, self.nbody)
    }

    /// See [`block_fits`].
    pub open spec fn fits(self) -> bool {
        block_fits(self.ngeom, self.njnt, self.nbody)
    }
}

/// The counts that a model description carries.
#[derive(Clone, Copy, Debug, PartialEq, Eq, Structural)]
pub struct ModelCounts {
    pub ngeom: usize,
    pub njnt: usize,
    pub nbody: usize,
}

impl View for ModelCounts {
    type V = Counts;

    open spec fn view(&self) -> Counts {
        Counts { ngeom: self.ngeom as nat, njnt: self.njnt as nat, nbody: self.nbody as nat }
    }
}

/// The parts of the block, in the order in which they stand in it.
pub enum Part {
    Header,
    Poses,
    Contacts,
    Joints,
    Inertia,
    Bodies,
}

impl Part {
    /// The part's first slot.
    pub open spec fn start(self, c: Counts) -> nat {
        match self {
            Part::Header => 0,
            Part::Poses => POSE_HEADER as nat,
            Part::Contacts => contact_start(c.ngeom),
            Part::Joints => joint_start(c.ngeom),
            Part::Inertia => inertia_start(c.ngeom, c.njnt),
            Part::Bodies => body_start(c.ngeom, c.njnt, c.nbody),
        }
    }

    /// How many records the part holds.
    pub open spec fn records(self, c: Counts) -> nat {
        match self {
            Part::Header => 1,
            Part::Poses => c.ngeom,
            Part::Contacts => MAX_CONTACTS as nat,
            Part::Joints => c.njnt,
            Part::Inertia => c.nbody,
            Part::Bodies => c.nbody,
        }
    }

    /// How many slots one record takes.
    pub open spec fn stride(self) -> nat {
        match self {
            Part::Header => POSE_HEADER as nat,
            Part::Poses => POSE_STRIDE as nat,
            Part::Contacts => CONTACT_STRIDE as nat,
            Part::Joints => JOINT_STRIDE as nat,
            Part::Inertia => POSE_STRIDE as nat,
            Part::Bodies => POSE_STRIDE as nat,
        }
    }

    /// The slot after the part's last one.
    pub open spec fn end(self, c: Counts) -> nat {
        self.start(c) + self.records(c) * self.stride()
    }

    /// The slot belongs to the part.
    pub open spec fn holds(self, c: Counts, slot: nat) -> bool {
        self.start(c) <= slot < self.end(c)
    }

    /// The slot of field `k` of record `i`.
    pub open spec fn field(self, c: Counts, i: nat, k: nat) -> nat {
        self.start(c) + i * self.stride() + k
    }
}

/// The parts tile the block: each of its slots belongs to exactly one part, and
/// no part reaches past the end.
pub proof fn law_parts_tile_the_block(c: Counts, slot: nat)
    ensures
        slot < c.slots() <==> exists|p: Part| #[trigger] p.holds(c, slot),
        forall|p: Part, q: Part| #[trigger]
            p.holds(c, slot) && #[trigger] q.holds(c, slot) ==> p == q,
{
    if slot < c.slots() {
        assert(Part::Header.holds(c, slot) || Part::Poses.holds(c, slot) || Part::Contacts.holds(
            c,
            slot,
        ) || Part::Joints.holds(c, slot) || Part::Inertia.holds(c, slot) || Part::Bodies.holds(
            c,
            slot,
        ));
    }
}

/// No two fields share a slot: where the slots of two fields coincide, the part,
/// the record and the field do too, and the slot lies in the block.
pub proof fn law_fields_do_not_overlap(
    c: Counts,
    p: Part,
    i: nat,
    k: nat,
    q: Part,
    j: nat,
    l: nat,
)
    requires
        i < p.records(c),
        k < p.stride(),
        j < q.records(c),
        l < q.stride(),
    ensures
        p.field(c, i, k) < c.slots(),
        p.field(c, i, k) == q.field(c, j, l) ==> p == q && i == j && k == l,
{
    lemma_field_in_part(c, p, i, k);
    lemma_field_in_part(c, q, j, l);
    law_parts_tile_the_block(c, p.field(c, i, k));
    if p.field(c, i, k) == q.field(c, j, l) {
        assert(p == q);
        let s = p.stride();
        assert(i == j) by (nonlinear_arith)
            requires
                i * s + k == j * s + l,
                k < s,
                l < s,
        ;
    }
}

proof fn lemma_field_in_part(c: Counts, p: Part, i: nat, k: nat)
    requires
        i < p.records(c),
        k < p.stride(),
    ensures
        p.holds(c, p.field(c, i, k)),
{
    let s = p.stride();
    let n = p.records(c);
    assert(i * s + k < n * s) by (nonlinear_arith)
        requires
            i < n,
            k < s,
    ;
}

/// A copy of a part holds every record whole.
pub proof fn law_copy_of_a_part_holds_its_records(c: Counts, p: Part, i: nat)
    requires
        i < p.records(c),
    ensures
        (i + 1) * p.stride() <= p.end(c) - p.start(c),
{
    let s = p.stride();
    let n = p.records(c);
    assert((i + 1) * s <= n * s) by (nonlinear_arith)
        requires
            i < n,
    ;
}

/// The geom poses open the block: its first `pose_block_bytes` bytes are the
/// header and the geom poses, and the contacts begin right behind them.
pub proof fn law_pose_block_is_a_prefix(c: Counts)
    ensures
        (POSE_HEADER + c.ngeom * POSE_STRIDE) * 4 == Part::Poses.end(c) * 4,
        Part::Poses.end(c) == Part::Contacts.start(c),
        Part::Poses.end(c) <= c.slots(),
{
}

/// A run of slots: `start` belongs to it, `end` does not.
#[derive(Clone, Copy, Debug, PartialEq, Eq, Structural)]
pub struct Region {
    pub start: u32,
    pub end: u32,
}

impl Region {
    /// The region is exactly that part of the block.
    pub open spec fn spans(self, part: Part, c: Counts) -> bool {
        &&& self.start == part.start(c)
        &&& self.end == part.end(c)
    }

    /// How many slots the region has.
    pub fn slots(&self) -> (n: usize)
        requires
            self.start <= self.end,
        ensures
            n == self.end - self.start,
    {
        (self.end - self.start) as usize
    }
}

/// The layout of the shared block for one model. A value exists only for counts
/// whose block is small enough to allocate.
#[derive(Clone, Copy, Debug, PartialEq, Eq, Structural)]
pub struct BlockLayout {
    ngeom: usize,
    njnt: usize,
    nbody: usize,
}

impl View for BlockLayout {
    type V = Counts;

    closed spec fn view(&self) -> Counts {
        Counts { ngeom: self.ngeom as nat, njnt: self.njnt as nat, nbody: self.nbody as nat }
    }
}

impl BlockLayout {
    #[verifier::type_invariant]
    spec fn inv(self) -> bool {
        block_fits(self.ngeom as nat, self.njnt as nat, self.nbody as nat)
    }

    /// The layout for these counts, unless the block would not fit a shared buffer.
    pub fn new(counts: ModelCounts) -> (layout: Option<BlockLayout>)
        ensures
            layout is Some <==> counts@.fits(),
            layout matches Some(l) ==> l@ == counts@,
    {
        let ModelCounts { ngeom, njnt, nbody } = counts;
        // Past this every count is too large alone, and below it no product wraps.
        let most: usize = 0x1000_0000;
        if ngeom > most || njnt > most || nbody > most {
            return None;
        }
        let slots: u64 = POSE_HEADER as u64 + (ngeom * POSE_STRIDE) as u64 + (MAX_CONTACTS
            * CONTACT_STRIDE) as u64 + (njnt * JOINT_STRIDE) as u64 + (nbody * POSE_STRIDE) as u64
            + (nbody * POSE_STRIDE) as u64;
        if slots * 4 <= u32::MAX as u64 {
            Some(BlockLayout { ngeom, njnt, nbody })
        } else {
            None
        }
    }

    /// Byte length of the shared buffer.
    pub fn bytes(&self) -> (n: u32)
        ensures
            n == self@.slots() * 4,
    {
        proof {
            use_type_invariant(self);
        }
        ((body_offset(self.ngeom, self.njnt, self.nbody) + self.nbody * POSE_STRIDE) * 4) as u32
    }

    /// Where the geom poses stand.
    pub fn poses(&self) -> (r: Region)
        ensures
            r.spans(Part::Poses, self@),
    {
        proof {
            use_type_invariant(self);
        }
        Region { start: POSE_HEADER as u32, end: contact_offset(self.ngeom) as u32 }
    }

    /// Where the contacts stand.
    pub fn contacts(&self) -> (r: Region)
        ensures
            r.spans(Part::Contacts, self@),
    {
        proof {
            use_type_invariant(self);
        }
        Region { start: contact_offset(self.ngeom) as u32, end: joint_offset(self.ngeom) as u32 }
    }

    /// Where the joints stand.
    pub fn joints(&self) -> (r: Region)
        ensures
            r.spans(Part::Joints, self@),
    {
        proof {
            use_type_invariant(self);
        }
        Region {
            start: joint_offset(self.ngeom) as u32,
            end: inertia_offset(self.ngeom, self.njnt) as u32,
        }
    }

    /// Where the inertia frames stand.
    pub fn inertia(&self) -> (r: Region)
        ensures
            r.spans(Part::Inertia, self@),
    {
        proof {
            use_type_invariant(self);
        }
        Region {
            start: inertia_offset(self.ngeom, self.njnt) as u32,
            end: body_offset(self.ngeom, self.njnt, self.nbody) as u32,
        }
    }

    /// Where the body poses stand.
    pub fn bodies(&self) -> (r: Region)
        ensures
            r.spans(Part::Bodies, self@),
    {
        proof {
            use_type_invariant(self);
        }
        let start: usize = body_offset(self.ngeom, self.njnt, self.nbody);
        Region { start: start as u32, end: (start + self.nbody * POSE_STRIDE) as u32 }
    }
}

/// Render worker to main: loading progress and lifecycle.
#[derive(Debug, Clone)]
pub enum RenderMsg {
    /// A line for the loading screen.
    Progress { message: String },
    /// The scene bundle is loaded and committed; the worker now listens for the
    /// model description.
    SceneReady,
    /// The first real frames have been presented.
    Ready,
    Error { message: String },
}

/// Main to render worker: a resize of the canvas backing store, in device pixels.
#[derive(Debug, Clone, Copy, PartialEq, Eq, Structural)]
pub enum ResizeMsg {
    Canvas { width: u32, height: u32 },
}

impl ResizeMsg {
    /// What main sends for a measured size.
    pub open spec fn sent(width: u32, height: u32) -> Option<ResizeMsg> {
        if width == 0 || height == 0 {
            None
        } else {
            Some(ResizeMsg::Canvas { width, height })
        }
    }

    /// The size that the render worker gives the canvas.
    pub open spec fn size(self) -> Option<(u32, u32)> {
        match self {
            ResizeMsg::Canvas { width, height } => if width > 0 && height > 0 {
                Some((width, height))
            } else {
                None
            },
        }
    }

    /// The message for a measured canvas size; a canvas without area sends none.
    pub fn measured(width: u32, height: u32) -> (msg: Option<ResizeMsg>)
        ensures
            msg == ResizeMsg::sent(width, height),
    {
        if width == 0 || height == 0 {
            return None;
        }
        Some(ResizeMsg::Canvas { width, height })
    }

    /// The size the canvas takes on receipt; one without area is ignored.
    pub fn accepted(&self) -> (size: Option<(u32, u32)>)
        ensures
            size == self.size(),
    {
        match *self {
            ResizeMsg::Canvas { width, height } => {
                if width > 0 && height > 0 {
                    Some((width, height))
                } else {
                    None
                }
            },
        }
    }
}

/// Every resize that main sends is applied by the render worker, at the size
/// that was measured; only a canvas without area is kept back.
pub proof fn law_sent_resize_is_applied(width: u32, height: u32)
    ensures
        match ResizeMsg::sent(width, height) {
            Some(msg) => msg.size() == Some((width, height)),
            None => width == 0 || height == 0,
        },
{
}

/// The scenes that ship. A scene is a model and the bundle exported from that
/// same model, so one name picks both.
#[derive(Debug, Clone, Copy, PartialEq, Eq, Structural)]
pub enum SceneChoice {
    Humanoid,
    Flag,
}

impl SceneChoice {
    /// The model's path under the media base.
    pub open spec fn model(self) -> Seq<char> {
        match self {
            SceneChoice::Humanoid => "mujoco/humanoid.xml"@,
            SceneChoice::Flag => "mujoco/flag.xml"@,
        }
    }

    /// The bundle's directory under the media base.
    pub open spec fn bundle(self) -> Seq<char> {
        match self {
            SceneChoice::Humanoid => "bundle"@,
            SceneChoice::Flag => "bundle-flag"@,
        }
    }

    /// The scene a page asks for with its `scene` query parameter.
    pub fn from_param(param: Option<&str>) -> (scene: SceneChoice)
        ensures
            scene == (match param {
                Some(p) if p@ == "flag"@ => SceneChoice::Flag,
                _ => SceneChoice::Humanoid,
            }),
    {
        match param {
            Some(p) => if same_text(p, "flag") {
                SceneChoice::Flag
            } else {
                SceneChoice::Humanoid
            },
            None => SceneChoice::Humanoid,
        }
    }

    /// The model's path under the media base.
    pub fn model_path(&self) -> (path: &'static str)
        ensures
            path@ == self.model(),
    {
        match self {
            SceneChoice::Humanoid => "mujoco/humanoid.xml",
            SceneChoice::Flag => "mujoco/flag.xml",
        }
    }

    /// The bundle's directory under the media base.
    pub fn bundle_dir(&self) -> (dir: &'static str)
        ensures
            dir@ == self.bundle(),
    {
        match self {
            SceneChoice::Humanoid => "bundle",
            SceneChoice::Flag => "bundle-flag",
        }
    }
}

/// A model and a bundle that belong together come from one scene: scenes that
/// share either share both.
pub proof fn law_one_name_picks_model_and_bundle(a: SceneChoice, b: SceneChoice)
    ensures
        a.model() == b.model() <==> a == b,
        a.bundle() == b.bundle() <==> a == b,
{
    reveal_strlit("mujoco/humanoid.xml");
    reveal_strlit("mujoco/flag.xml");
    reveal_strlit("bundle");
    reveal_strlit("bundle-flag");
    assert("mujoco/humanoid.xml"@.len() != "mujoco/flag.xml"@.len());
    assert("bundle"@.len() != "bundle-flag"@.len());
}

/// The wire in numbers. Behind four header slots stand seven slots per geom, then 256
/// contacts of seven, six slots per joint, seven per body for its inertia frame and
/// seven per body for its pose, and there the block ends.
pub proof fn law_parts_follow_one_another(c: Counts)
    ensures
        Part::Poses.start(c) == 4,
        Part::Contacts.start(c) - Part::Poses.start(c) == 7 * c.ngeom,
        Part::Joints.start(c) - Part::Contacts.start(c) == 7 * 256,
        Part::Inertia.start(c) - Part::Joints.start(c) == 6 * c.njnt,
        Part::Bodies.start(c) - Part::Inertia.start(c) == 7 * c.nbody,
        c.slots() - Part::Bodies.start(c) == 7 * c.nbody,
        Part::Poses.end(c) == Part::Contacts.start(c),
        Part::Contacts.end(c) == Part::Joints.start(c),
        Part::Joints.end(c) == Part::Inertia.start(c),
        Part::Inertia.end(c) == Part::Bodies.start(c),
        Part::Bodies.end(c) == c.slots(),
        forall|p: Part| #[trigger] p.end(c) <= c.slots(),
        c.fits() <==> 4 * (4 + 7 * c.ngeom + 7 * 256 + 6 * c.njnt + 14 * c.nbody) <= 0xffff_ffff,
{
    assert forall|p: Part| #[trigger] p.end(c) <= c.slots() by {
        match p {
            Part::Header => {},
            Part::Poses => {},
            Part::Contacts => {},
            Part::Joints => {},
            Part::Inertia => {},
            Part::Bodies => {},
        }
    }
}

/// The offset functions agree with the wire in numbers, for any counts.
pub proof fn law_offsets_in_numbers(
    ngeom: usize,
    njnt: usize,
    nbody: usize,
    contacts: usize,
    joints: usize,
    inertia: usize,
    bodies: usize,
    bytes: usize,
)
    requires
        call_ensures(contact_offset, (ngeom,), contacts),
        call_ensures(joint_offset, (ngeom,), joints),
        call_ensures(inertia_offset, (ngeom, njnt), inertia),
        call_ensures(body_offset, (ngeom, njnt, nbody), bodies),
        call_ensures(pose_block_bytes, (ngeom,), bytes),
    ensures
        contacts == 4 + 7 * ngeom,
        joints == contacts + 7 * 256,
        inertia == joints + 6 * njnt,
        bodies == inertia + 7 * nbody,
        bytes == 4 * contacts,
{
}

/// A layout exists exactly for a block whose byte length is a `u32`, and it is the
/// layout of the counts that it was asked for.
pub proof fn law_layout_exists_if_its_block_can(counts: ModelCounts, layout: Option<BlockLayout>)
    requires
        call_ensures(BlockLayout::new, (counts,), layout),
    ensures
        layout is Some <==> 4 * (4 + 7 * counts.ngeom + 7 * 256 + 6 * counts.njnt + 14
            * counts.nbody) <= 0xffff_ffff,
        layout matches Some(l) ==> l@.ngeom == counts.ngeom && l@.njnt == counts.njnt && l@.nbody
            == counts.nbody,
{
}

/// The regions of a layout follow one another without a gap, each as long as its
/// records, and the buffer ends where the last of them does.
pub proof fn law_regions_fill_the_buffer(
    layout: BlockLayout,
    poses: Region,
    contacts: Region,
    joints: Region,
    inertia: Region,
    bodies: Region,
    bytes: u32,
)
    requires
        call_ensures(BlockLayout::poses, (&layout,), poses),
        call_ensures(BlockLayout::contacts, (&layout,), contacts),
        call_ensures(BlockLayout::joints, (&layout,), joints),
        call_ensures(BlockLayout::inertia, (&layout,), inertia),
        call_ensures(BlockLayout::bodies, (&layout,), bodies),
        call_ensures(BlockLayout::bytes, (&layout,), bytes),
    ensures
        poses.start == 4 && poses.end == 4 + 7 * layout@.ngeom,
        contacts.start == poses.end && contacts.end == contacts.start + 7 * 256,
        joints.start == contacts.end && joints.end == joints.start + 6 * layout@.njnt,
        inertia.start == joints.end && inertia.end == inertia.start + 7 * layout@.nbody,
        bodies.start == inertia.end && bodies.end == bodies.start + 7 * layout@.nbody,
        bytes == 4 * bodies.end,
{
}

/// A region has as many slots as lie between its ends.
pub proof fn law_region_has_the_slots_between_its_ends(region: Region, n: usize)
    requires
        call_ensures(Region::slots, (&region,), n),
    ensures
        region.start + n == region.end,
{
}

/// Main sends every size with area, unchanged, and no other.
pub proof fn law_every_size_with_area_is_sent(width: u32, height: u32, msg: Option<ResizeMsg>)
    requires
        call_ensures(ResizeMsg::measured, (width, height), msg),
    ensures
        msg is Some <==> width > 0 && height > 0,
        msg matches Some(ResizeMsg::Canvas { width: w, height: h }) ==> w == width && h == height,
{
}

/// The render worker applies every size with area, unchanged, and no other.
pub proof fn law_every_size_with_area_is_applied(
    width: u32,
    height: u32,
    size: Option<(u32, u32)>,
)
    requires
        call_ensures(ResizeMsg::accepted, (&ResizeMsg::Canvas { width, height },), size),
    ensures
        size is Some <==> width > 0 && height > 0,
        size matches Some((w, h)) ==> w == width && h == height,
{
}

/// The flag is shown to those who ask for it by name; everyone else gets the humanoid.
pub proof fn law_scene_is_picked_by_its_name(param: Option<&str>, scene: SceneChoice)
    requires
        call_ensures(SceneChoice::from_param, (param,), scene),
    ensures
        scene is Flag <==> param is Some && param->0@ == seq!['f', 'l', 'a', 'g'],
        scene is Humanoid <==> !(scene is Flag),
{
    reveal_strlit("flag");
    assert("flag"@ =~= seq!['f', 'l', 'a', 'g']);
}

/// A scene's model and bundle lie where its name says, and the contracts that name
/// them say the same.
pub proof fn law_scene_files_are_named(
    scene: SceneChoice,
    model: &'static str,
    bundle: &'static str,
)
    requires
        call_ensures(SceneChoice::model_path, (&scene,), model),
        call_ensures(SceneChoice::bundle_dir, (&scene,), bundle),
    ensures
        model@ == scene.model(),
        bundle@ == scene.bundle(),
        model@ == (match scene {
            SceneChoice::Humanoid => "mujoco/humanoid.xml"@,
            SceneChoice::Flag => "mujoco/flag.xml"@,
        }),
        bundle@ == (match scene {
            SceneChoice::Humanoid => "bundle"@,
            SceneChoice::Flag => "bundle-flag"@,
        }),
{
}

} // verus!
