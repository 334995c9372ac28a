//! What the render worker decides: which progress it reports, when it is up, and
//! whether and how the sim's block is bound to the scene's sim instance.

use vstd::prelude::*;

use crate::overlays::marked;
use crate::protocol::{
    law_parts_follow_one_another, BlockLayout, Counts, ModelCounts, Part, Region, POSE_STRIDE,
};
use crate::text::{contains, contains_text, decimal, occurs_at, push_decimal, same_text};
use crate::urls::OverlayToggles;

verus! {

/// Thins out a loader's progress lines: a line is reported only when it differs
/// from the one reported last, and never while it counts nothing (`0/0`).
pub struct ProgressFilter {
    last: String,
}

impl View for ProgressFilter {
    type V = Seq<char>;

    closed spec fn view(&self) -> Seq<char> {
        self.last@
    }
}

/// A line is worth reporting after `last` was.
pub open spec fn reportable(last: Seq<char>, line: Seq<char>) -> bool {
    line != last && !contains_text(line, "0/0"@)
}

impl ProgressFilter {
    /// Nothing has been reported.
    pub fn new() -> (filter: ProgressFilter)
        ensures
            filter@ == Seq::<char>::empty(),
    {
        ProgressFilter { last: String::new() }
    }

    /// Whether to report a line.
    pub fn offer(&mut self, line: &str) -> (report: bool)
        ensures
            report == reportable(old(self)@, line@),
            final(self)@ == (if report {
                line@
            } else {
                old(self)@
            }),
    {
        if same_text(line, self.last.as_str()) || contains(line, "0/0") {
            return false;
        }
        self.last = line.to_string();
        true
    }
}

/// The lines that a filter lets through.
pub open spec fn reported(lines: Seq<Seq<char>>) -> Seq<Seq<char>>
    decreases lines.len(),
{
    if lines.len() == 0 {
        Seq::empty()
    } else {
        let before = reported(lines.drop_last());
        if reportable(last_reported(lines.drop_last()), lines.last()) {
            before.push(lines.last())
        } else {
            before
        }
    }
}

/// What a filter has reported last; nothing at first.
pub open spec fn last_reported(lines: Seq<Seq<char>>) -> Seq<char>
    decreases lines.len(),
{
    if lines.len() == 0 {
        Seq::empty()
    } else if reportable(last_reported(lines.drop_last()), lines.last()) {
        lines.last()
    } else {
        last_reported(lines.drop_last())
    }
}

/// No line is reported twice in a row, and none that counts nothing.
pub proof fn law_reports_do_not_repeat(lines: Seq<Seq<char>>)
    ensures
        forall|i: int|
            0 <= i < reported(lines).len() ==> !contains_text(#[trigger] reported(lines)[i], "0/0"@),
        forall|i: int|
            0 <= i && i + 1 < reported(lines).len() ==> #[trigger] reported(lines)[i] != reported(
                lines,
            )[i + 1],
        reported(lines).len() > 0 ==> last_reported(lines) == reported(lines).last(),
    decreases lines.len(),
{
    if lines.len() > 0 {
        law_reports_do_not_repeat(lines.drop_last());
    }
}

/// Counts presented frames. The page is told once the third is out: the first
/// frames may still be empty.
pub struct FrameCounter {
    frames: u32,
}

impl View for FrameCounter {
    type V = nat;

    closed spec fn view(&self) -> nat {
        self.frames as nat
    }
}

/// The count after a frame: one that failed to render was not presented.
pub open spec fn counted(count: nat, rendered: bool) -> nat {
    if rendered {
        (count + 1) % 0x1_0000_0000
    } else {
        count
    }
}

/// The page is told of a frame that leaves this count.
pub open spec fn told(count: nat, rendered: bool) -> bool {
    rendered && count == 3
}

impl FrameCounter {
    /// No frame yet.
    pub fn new() -> (counter: FrameCounter)
        ensures
            counter@ == 0,
    {
        FrameCounter { frames: 0 }
    }

    /// Take the outcome of a frame; true when the page has to be told.
    pub fn frame(&mut self, rendered: bool) -> (ready: bool)
        ensures
            final(self)@ == counted(old(self)@, rendered),
            ready == told(final(self)@, rendered),
    {
        if !rendered {
            return false;
        }
        self.frames = self.frames.wrapping_add(1);
        self.frames == 3
    }
}

/// The count after a series of frames, given which of them rendered.
pub open spec fn frame_count(rendered: Seq<bool>) -> nat
    decreases rendered.len(),
{
    if rendered.len() == 0 {
        0
    } else {
        counted(frame_count(rendered.drop_last()), rendered.last())
    }
}

/// How many of a series of frames rendered.
pub open spec fn presented(rendered: Seq<bool>) -> nat
    decreases rendered.len(),
{
    if rendered.len() == 0 {
        0
    } else {
        presented(rendered.drop_last()) + (if rendered.last() {
            1nat
        } else {
            0
        })
    }
}

/// The count is the number of frames that rendered, until it wraps.
pub proof fn law_count_is_of_presented_frames(rendered: Seq<bool>)
    ensures
        frame_count(rendered) == presented(rendered) % 0x1_0000_0000,
        presented(rendered) <= rendered.len(),
    decreases rendered.len(),
{
    if rendered.len() > 0 {
        law_count_is_of_presented_frames(rendered.drop_last());
    }
}

/// Ready means that real frames are out. Before the count wraps, the last of a
/// series of frames is told exactly if it rendered and is the third to have done
/// so; a page on which no frame rendered is told nothing.
pub proof fn law_ready_at_the_third_presented_frame(rendered: Seq<bool>)
    requires
        rendered.len() > 0,
        presented(rendered) < 0x1_0000_0000,
    ensures
        told(frame_count(rendered), rendered.last()) <==> rendered.last() && presented(rendered)
            == 3,
{
    law_count_is_of_presented_frames(rendered);
}

/// The scene's sim instance, as the loader resolved it out of the bundle.
pub struct SimInstance {
    /// The model file it was imported from.
    pub filename: String,
    /// The content hash of that file.
    pub sha256: String,
    /// The model's own name, where it has one.
    pub model_name: Option<String>,
    /// Per geom of the model: whether a node is bound to it.
    pub geoms: Vec<bool>,
    /// Per body of the model: how many nodes are bound to it.
    pub bodies: Vec<usize>,
    /// Whether the instance's root has a transform to hang overlays from.
    pub has_root: bool,
}

impl SimInstance {
    /// How many geoms have a node.
    pub open spec fn bound_geoms(self) -> nat {
        marked(self.geoms@).len()
    }

    /// Some body has a node: the model has a deformable.
    pub open spec fn binds_bodies(self) -> bool {
        exists|b: int| 0 <= b < self.bodies@.len() && #[trigger] self.bodies@[b] > 0
    }

    /// What the instance is called.
    pub open spec fn name(self) -> Seq<char> {
        match self.model_name {
            Some(name) => name@,
            None => self.filename@,
        }
    }

    /// What the instance is called: the model's name, or else its file's.
    pub fn label(&self) -> (label: &str)
        ensures
            label@ == self.name(),
    {
        match &self.model_name {
            Some(name) => name.as_str(),
            None => self.filename.as_str(),
        }
    }

    /// How many geoms have a node.
    pub fn bound(&self) -> (n: usize)
        ensures
            n == self.bound_geoms(),
            n <= self.geoms@.len(),
    {
        let len: usize = self.geoms.len();
        let mut n: usize = 0;
        let mut g: usize = 0;
        while g < len
            invariant
                g <= len,
                len == self.geoms@.len(),
                n == marked(self.geoms@.take(g as int)).len(),
                n <= g,
            decreases len - g,
        {
            proof {
                assert(self.geoms@.take(g + 1).drop_last() =~= self.geoms@.take(g as int));
            }
            if self.geoms[g] {
                n = n + 1;
            }
            g = g + 1;
        }
        proof {
            assert(self.geoms@.take(len as int) =~= self.geoms@);
        }
        n
    }

    fn has_deformable(&self) -> (yes: bool)
        ensures
            yes == self.binds_bodies(),
    {
        let len: usize = self.bodies.len();
        let mut b: usize = 0;
        while b < len
            invariant
                b <= len,
                len == self.bodies@.len(),
                forall|k: int| 0 <= k < b ==> self.bodies@[k] == 0,
            decreases len - b,
        {
            if self.bodies[b] > 0 {
                return true;
            }
            b = b + 1;
        }
        false
    }
}

/// Why a sim is not bound to the scene's instance.
#[derive(Clone, Copy, Debug, PartialEq, Eq, Structural)]
pub enum LinkError {
    /// The sim's model has another number of geoms.
    Geoms { sim: usize, instance: usize },
    /// The sim's model file has another content hash.
    Fingerprint,
    /// A deformable is bound, and the sim's model has another number of bodies.
    Bodies { sim: usize, instance: usize },
    /// No shared buffer can hold a block for the sim's model.
    TooLarge,
}

/// A count that differs, as it is reported.
pub open spec fn count_message(
    sim: nat,
    instance: nat,
    one: Seq<char>,
    many: Seq<char>,
    filename: Seq<char>,
) -> Seq<char> {
    "the sim is running a "@ + decimal(sim) + "-"@ + one + " model but the scene's instance ("@
        + filename + ") has "@ + decimal(instance) + " "@ + many
        + " — re-export the scene from the same model file"@
}

fn count_error(sim: usize, instance: usize, one: &str, many: &str, filename: &str) -> (message:
    String)
    ensures
        message@ == count_message(sim as nat, instance as nat, one@, many@, filename@),
{
    let mut message: String = "the sim is running a ".to_string();
    push_decimal(&mut message, sim);
    message.append("-");
    message.append(one);
    message.append(" model but the scene's instance (");
    message.append(filename);
    message.append(") has ");
    push_decimal(&mut message, instance);
    message.append(" ");
    message.append(many);
    message.append(" — re-export the scene from the same model file");
    message
}

impl LinkError {
    /// The report for an instance that was imported from `filename`.
    pub open spec fn report(self, filename: Seq<char>) -> Seq<char> {
        match self {
            LinkError::Geoms { sim, instance } => count_message(
                sim as nat,
                instance as nat,
                "geom"@,
                "geoms"@,
                filename,
            ),
            LinkError::Fingerprint => "the sim is running a different model than the scene's instance ("@
                + filename
                + ") was imported from — re-export the scene from the same model file"@,
            LinkError::Bodies { sim, instance } => count_message(
                sim as nat,
                instance as nat,
                "body"@,
                "bodies"@,
                filename,
            ),
            LinkError::TooLarge => "the pose block of the scene's instance ("@ + filename
                + ") is too large to exist"@,
        }
    }

    /// The report for an instance that was imported from `filename`.
    pub fn message(&self, filename: &str) -> (message: String)
        ensures
            message@ == self.report(filename@),
    {
        match *self {
            LinkError::Geoms { sim, instance } => count_error(
                sim,
                instance,
                "geom",
                "geoms",
                filename,
            ),
            LinkError::Fingerprint => {
                let mut message: String =
                    "the sim is running a different model than the scene's instance (".to_string();
                message.append(filename);
                message.append(
                    ") was imported from — re-export the scene from the same model file",
                );
                message
            },
            LinkError::Bodies { sim, instance } => count_error(
                sim,
                instance,
                "body",
                "bodies",
                filename,
            ),
            LinkError::TooLarge => {
                let mut message: String = "the pose block of the scene's instance (".to_string();
                message.append(filename);
                message.append(") is too large to exist");
                message
            },
        }
    }
}

/// Whether a debug overlay is built. None is worth failing the run for.
#[derive(Clone, Copy, Debug, PartialEq, Eq, Structural)]
pub enum OverlayPlan {
    /// The page did not ask for it.
    Off,
    /// There is no root transform to hang it from.
    NoRoot,
    /// It shows this region of the block.
    Build(Region),
}

impl OverlayPlan {
    /// The plan for an overlay that shows `part`.
    pub open spec fn fits(self, asked: bool, has_root: bool, part: Part, c: Counts) -> bool {
        match self {
            OverlayPlan::Off => !asked,
            OverlayPlan::NoRoot => asked && !has_root,
            OverlayPlan::Build(region) => asked && has_root && region.spans(part, c),
        }
    }
}

fn plan_overlay(asked: bool, has_root: bool, region: Region) -> (plan: OverlayPlan)
    ensures
        plan == (if !asked {
            OverlayPlan::Off
        } else if !has_root {
            OverlayPlan::NoRoot
        } else {
            OverlayPlan::Build(region)
        }),
{
    if !asked {
        OverlayPlan::Off
    } else if !has_root {
        OverlayPlan::NoRoot
    } else {
        OverlayPlan::Build(region)
    }
}

/// Which regions of the block the worker reads, and for what.
#[derive(Clone, Copy, Debug, PartialEq, Eq, Structural)]
pub struct LinkPlan {
    /// The geom poses.
    pub poses: Region,
    pub contacts: OverlayPlan,
    pub joints: OverlayPlan,
    pub inertia: OverlayPlan,
    /// The body poses, which only a deformable listens to.
    pub bodies: Option<Region>,
}

/// Why a sim with these counts, and this hash where it is known, must not drive
/// the instance.
pub open spec fn refusal(
    instance: SimInstance,
    sim: ModelCounts,
    sim_sha256: Option<&str>,
) -> Option<LinkError> {
    if sim.ngeom != instance.geoms@.len() {
        Some(LinkError::Geoms { sim: sim.ngeom, instance: instance.geoms@.len() as usize })
    } else if sim_sha256 is Some && sim_sha256->0@ != instance.sha256@ {
        Some(LinkError::Fingerprint)
    } else if instance.binds_bodies() && sim.nbody != instance.bodies@.len() {
        Some(LinkError::Bodies { sim: sim.nbody, instance: instance.bodies@.len() as usize })
    } else if !sim@.fits() {
        Some(LinkError::TooLarge)
    } else {
        None
    }
}

impl LinkPlan {
    /// The plan reads for the instance exactly what it needs of a block with
    /// these counts.
    pub open spec fn serves(
        self,
        instance: SimInstance,
        c: Counts,
        overlays: OverlayToggles,
    ) -> bool {
        &&& self.poses.spans(Part::Poses, c)
        &&& self.contacts.fits(overlays.contacts, instance.has_root, Part::Contacts, c)
        &&& self.joints.fits(overlays.joints, instance.has_root, Part::Joints, c)
        &&& self.inertia.fits(overlays.inertia, instance.has_root, Part::Inertia, c)
        &&& match self.bodies {
            Some(region) => instance.binds_bodies() && region.spans(Part::Bodies, c),
            None => !instance.binds_bodies(),
        }
    }
}

/// Whether a sim may drive the instance, and if not, why.
///
/// A sim that runs another model would publish poses that are each plausible and
/// together nonsense, so a mismatch is refused rather than drawn.
pub fn check_sim(instance: &SimInstance, sim: ModelCounts, sim_sha256: Option<&str>) -> (refused:
    Option<LinkError>)
    ensures
        refused == refusal(*instance, sim, sim_sha256),
{
    if sim.ngeom != instance.geoms.len() {
        return Some(LinkError::Geoms { sim: sim.ngeom, instance: instance.geoms.len() });
    }
    if let Some(sha256) = sim_sha256 {
        if !same_text(sha256, instance.sha256.as_str()) {
            return Some(LinkError::Fingerprint);
        }
    }
    if instance.has_deformable() && sim.nbody != instance.bodies.len() {
        return Some(LinkError::Bodies { sim: sim.nbody, instance: instance.bodies.len() });
    }
    if BlockLayout::new(sim).is_none() {
        return Some(LinkError::TooLarge);
    }
    None
}

/// Bind a sim's block to the instance that the loader resolved.
pub fn link_sim(
    instance: &SimInstance,
    sim: ModelCounts,
    sim_sha256: Option<&str>,
    overlays: OverlayToggles,
) -> (linked: Result<LinkPlan, LinkError>)
    ensures
        match linked {
            Ok(plan) => refusal(*instance, sim, sim_sha256) is None && plan.serves(
                *instance,
                sim@,
                overlays,
            ),
            Err(error) => refusal(*instance, sim, sim_sha256) == Some(error),
        },
{
    if let Some(error) = check_sim(instance, sim, sim_sha256) {
        return Err(error);
    }
    let layout: BlockLayout = BlockLayout::new(sim).unwrap();
    Ok(
        LinkPlan {
            poses: layout.poses(),
            contacts: plan_overlay(overlays.contacts, instance.has_root, layout.contacts()),
            joints: plan_overlay(overlays.joints, instance.has_root, layout.joints()),
            inertia: plan_overlay(overlays.inertia, instance.has_root, layout.inertia()),
            bodies: if instance.has_deformable() {
                Some(layout.bodies())
            } else {
                None
            },
        },
    )
}

/// A frame that is read for the instance has the length that the pose sink takes:
/// one pose for each of its geoms, and for a deformable one for each of its bodies.
pub proof fn law_linked_frames_have_the_sinks_length(
    instance: SimInstance,
    sim: ModelCounts,
    sim_sha256: Option<&str>,
    overlays: OverlayToggles,
    plan: LinkPlan,
)
    requires
        refusal(instance, sim, sim_sha256) is None,
        plan.serves(instance, sim@, overlays),
    ensures
        plan.poses.end - plan.poses.start == instance.geoms@.len() * POSE_STRIDE,
        plan.bodies matches Some(region) ==> region.end - region.start == instance.bodies@.len()
            * POSE_STRIDE,
{
}

/// Only the instance's own model drives it: a sim that is not refused has the
/// instance's geom count, reports no other content hash, has its body count where
/// a deformable listens, and publishes into a block that can exist.
pub proof fn law_only_the_same_model_drives(
    instance: SimInstance,
    sim: ModelCounts,
    sim_sha256: Option<&str>,
)
    ensures
        refusal(instance, sim, sim_sha256) is None <==> {
            &&& sim.ngeom == instance.geoms@.len()
            &&& sim_sha256 matches Some(hash) ==> hash@ == instance.sha256@
            &&& instance.binds_bodies() ==> sim.nbody == instance.bodies@.len()
            &&& sim@.fits()
        },
{
}

/// Overlays never stand in the way: whether a sim is bound, and which poses are
/// read, does not depend on which overlays the page asked for.
pub proof fn law_overlays_do_not_decide(
    instance: SimInstance,
    c: Counts,
    a: OverlayToggles,
    b: OverlayToggles,
    with_a: LinkPlan,
    with_b: LinkPlan,
)
    requires
        with_a.serves(instance, c, a),
        with_b.serves(instance, c, b),
    ensures
        with_a.poses == with_b.poses,
        with_a.bodies == with_b.bodies,
        a.contacts == b.contacts ==> with_a.contacts == with_b.contacts,
        a.joints == b.joints ==> with_a.joints == with_b.joints,
        a.inertia == b.inertia ==> with_a.inertia == with_b.inertia,
{
}

/// What comes of a model description.
#[derive(Debug, PartialEq, Eq)]
pub enum ModelOutcome {
    /// The bundle had no sim instance, or it was used up already.
    NoInstance { message: String },
    /// The sim must not drive the instance.
    Refused { message: String },
    /// The sim is bound; `progress` is for the loading log. Where the sim's content
    /// hash was not known, `fingerprint_compared` is false, and only the counts
    /// speak for its model being the instance's.
    Linked { plan: LinkPlan, progress: String, fingerprint_compared: bool },
}

/// Whether a message to the render worker is the forwarded model description.
pub fn is_model_message(kind: Option<&str>) -> (yes: bool)
    ensures
        yes == (kind is Some && kind->0@ == "mujoco-model"@),
{
    match kind {
        Some(kind) => same_text(kind, "mujoco-model"),
        None => false,
    }
}

/// Holds the sim instance until the sim announces its model.
pub struct PendingInstance {
    instance: Option<SimInstance>,
}

impl View for PendingInstance {
    type V = Option<SimInstance>;

    closed spec fn view(&self) -> Option<SimInstance> {
        self.instance
    }
}

impl PendingInstance {
    /// The instance that the loader resolved, if the bundle has one.
    pub fn new(instance: Option<SimInstance>) -> (pending: PendingInstance)
        ensures
            pending@ == instance,
    {
        PendingInstance { instance }
    }

    /// Take a model description. The instance is used up by it, whatever comes of
    /// it, so no second description is bound.
    pub fn on_model(
        &mut self,
        sim: ModelCounts,
        sim_sha256: Option<&str>,
        overlays: OverlayToggles,
    ) -> (outcome: ModelOutcome)
        ensures
            final(self)@ is None,
            match old(self)@ {
                None => outcome matches ModelOutcome::NoInstance { message } && message@
                    == "the loaded bundle has no MuJoCo sim instance — export a scene with one imported via import_mujoco_from_url"@,
                Some(instance) => match refusal(instance, sim, sim_sha256) {
                    Some(error) => outcome matches ModelOutcome::Refused { message } && message@
                        == error.report(instance.filename@),
                    None => outcome matches ModelOutcome::Linked {
                        plan,
                        progress,
                        fingerprint_compared,
                    } && plan.serves(instance, sim@, overlays) && progress@ == "sim linked ("@
                        + decimal(instance.bound_geoms()) + "/"@ + decimal(instance.geoms@.len())
                        + " geoms) — running"@ && fingerprint_compared == (sim_sha256 is Some),
                },
            },
    {
        match self.instance.take() {
            None => ModelOutcome::NoInstance {
                message: "the loaded bundle has no MuJoCo sim instance — export a scene with one imported via import_mujoco_from_url".to_string(),
            },
            Some(instance) => {
                match link_sim(&instance, sim, sim_sha256, overlays) {
                    Err(error) => ModelOutcome::Refused {
                        message: error.message(instance.filename.as_str()),
                    },
                    Ok(plan) => {
                        let mut progress: String = "sim linked (".to_string();
                        push_decimal(&mut progress, instance.bound());
                        progress.append("/");
                        push_decimal(&mut progress, instance.geoms.len());
                        progress.append(" geoms) — running");
                        ModelOutcome::Linked {
                            plan,
                            progress,
                            fingerprint_compared: sim_sha256.is_some(),
                        }
                    },
                }
            },
        }
    }
}

/// A line counts nothing: `0`, `/` and `0` stand in it in a row.
pub open spec fn counts_nothing(line: Seq<char>) -> bool {
    exists|i: int|
        0 <= i && i + 2 < line.len() && #[trigger] line[i] == '0' && line[i + 1] == '/' && line[i
            + 2] == '0'
}

proof fn lemma_counts_nothing(line: Seq<char>)
    ensures
        contains_text(line, "0/0"@) <==> counts_nothing(line),
{
    reveal_strlit("0/0");
    let needle = "0/0"@;
    if contains_text(line, needle) {
        let at = choose|at: int| occurs_at(line, needle, at);
        let run = line.subrange(at, at + 3);
        assert(run[0] == line[at]);
        assert(run[1] == line[at + 1]);
        assert(run[2] == line[at + 2]);
    }
    if counts_nothing(line) {
        let i = choose|i: int|
            0 <= i && i + 2 < line.len() && #[trigger] line[i] == '0' && line[i + 1] == '/' && line[
                i + 2] == '0';
        assert(line.subrange(i, i + 3) =~= needle);
        assert(occurs_at(line, needle, i));
    }
}

/// Nothing new is kept back: one more line is reported, and becomes the one reported
/// last, unless it repeats that one or counts nothing.
pub proof fn law_new_lines_are_reported(lines: Seq<Seq<char>>, line: Seq<char>)
    ensures
        ({
            let kept_back = line == last_reported(lines) || counts_nothing(line);
            &&& reported(lines.push(line)) == (if kept_back {
                reported(lines)
            } else {
                reported(lines).push(line)
            })
            &&& last_reported(lines.push(line)) == (if kept_back {
                last_reported(lines)
            } else {
                line
            })
        }),
{
    lemma_counts_nothing(line);
    assert(lines.push(line).drop_last() =~= lines);
}

/// [`ProgressFilter::offer`] reports a line exactly if it differs from the one reported
/// last and counts something, and remembers just what it reported.
pub proof fn law_offer_reports_what_is_new()
    ensures
        forall|filter: &mut ProgressFilter, line: &str, report: bool| #[trigger]
            call_ensures(ProgressFilter::offer, (filter, line), report) ==> {
                &&& report <==> line@ != (*filter)@ && !counts_nothing(line@)
                &&& (*final(filter))@ == (if report {
                    line@
                } else {
                    (*filter)@
                })
            },
{
    assert forall|filter: &mut ProgressFilter, line: &str, report: bool| #[trigger]
        call_ensures(ProgressFilter::offer, (filter, line), report) implies report <==> line@ != (
    *filter)@ && !counts_nothing(line@) by {
        lemma_counts_nothing(line@);
    }
}

/// [`FrameCounter::frame`] counts a frame that rendered and no other, and tells the
/// page with the third of them.
pub proof fn law_frame_counts_what_rendered()
    ensures
        forall|counter: &mut FrameCounter, rendered: bool, ready: bool| #[trigger]
            call_ensures(FrameCounter::frame, (counter, rendered), ready) ==> {
                &&& !rendered ==> !ready && (*final(counter))@ == (*counter)@
                &&& rendered && (*counter)@ + 1 < 0x1_0000_0000 ==> (*final(counter))@ == (
                *counter)@ + 1
                &&& rendered && (*counter)@ + 1 < 0x1_0000_0000 ==> (ready <==> (*counter)@ == 2)
            },
{
}

/// An instance goes by its model's name where it has one, and by its file's where not.
pub proof fn law_label_is_the_models_name_first(instance: SimInstance, label: &str)
    requires
        call_ensures(SimInstance::label, (&instance,), label),
    ensures
        instance.model_name matches Some(name) ==> label@ == name@,
        instance.model_name is None ==> label@ == instance.filename@,
{
}

/// Every bound geom counts once: one geom more raises the number by one if it has a
/// node and not otherwise, and without geoms there are none.
pub proof fn law_every_bound_geom_counts(
    fewer: SimInstance,
    more: SimInstance,
    has_node: bool,
    n: usize,
    m: usize,
)
    requires
        call_ensures(SimInstance::bound, (&fewer,), n),
        call_ensures(SimInstance::bound, (&more,), m),
        more.geoms@ == fewer.geoms@.push(has_node),
    ensures
        m == n + (if has_node {
            1int
        } else {
            0
        }),
        fewer.geoms@.len() == 0 ==> n == 0,
{
    assert(more.geoms@.drop_last() =~= fewer.geoms@);
}

/// A deformable is driven through its bodies: as soon as any one body has a node,
/// whichever it is and however many bodies there are, a sim that is not refused has
/// the instance's body count, and the plan reads the whole body part.
pub proof fn law_deformable_reads_its_bodies(
    instance: SimInstance,
    sim: ModelCounts,
    sim_sha256: Option<&str>,
    overlays: OverlayToggles,
    plan: LinkPlan,
    b: int,
)
    requires
        0 <= b < instance.bodies@.len(),
        instance.bodies@[b] > 0,
        refusal(instance, sim, sim_sha256) is None,
        plan.serves(instance, sim@, overlays),
    ensures
        sim.nbody == instance.bodies@.len(),
        plan.bodies is Some,
        plan.bodies->0.start == 4 + 7 * sim.ngeom + 7 * 256 + 6 * sim.njnt + 7 * sim.nbody,
        plan.bodies->0.end == plan.bodies->0.start + 7 * sim.nbody,
{
    assert(instance.binds_bodies());
    law_parts_follow_one_another(sim@);
}

/// A model without a deformable pays for none: where no body has a node, its bodies
/// are neither compared nor read.
pub proof fn law_rigid_model_reads_no_bodies(
    instance: SimInstance,
    sim: ModelCounts,
    sim_sha256: Option<&str>,
    overlays: OverlayToggles,
    plan: LinkPlan,
)
    requires
        forall|b: int| 0 <= b < instance.bodies@.len() ==> #[trigger] instance.bodies@[b] == 0,
        plan.serves(instance, sim@, overlays),
    ensures
        plan.bodies is None,
        !(refusal(instance, sim, sim_sha256) matches Some(LinkError::Bodies { .. })),
{
}

/// The block of a model, in numbers, is no longer than a shared buffer can be.
pub open spec fn block_can_exist(sim: ModelCounts) -> bool {
    4 * (4 + 7 * sim.ngeom + 7 * 256 + 6 * sim.njnt + 14 * sim.nbody) <= 0xffff_ffff
}

/// Some body of the instance has a node.
pub open spec fn some_body_has_a_node(instance: SimInstance) -> bool {
    !forall|b: int| 0 <= b < instance.bodies@.len() ==> #[trigger] instance.bodies@[b] == 0
}

/// What [`check_sim`] refuses, and why. Another geom count comes first, then another
/// content hash, then, for a deformable, another body count, then a block that cannot
/// exist; a sim with none of these may drive the instance.
pub proof fn law_each_refusal_has_its_reason(
    instance: SimInstance,
    sim: ModelCounts,
    sim_sha256: Option<&str>,
    refused: Option<LinkError>,
)
    requires
        call_ensures(check_sim, (&instance, sim, sim_sha256), refused),
    ensures
        ({
            let geoms = sim.ngeom == instance.geoms@.len();
            let hash = sim_sha256 is None || sim_sha256->0@ == instance.sha256@;
            let bodies = some_body_has_a_node(instance) ==> sim.nbody == instance.bodies@.len();
            &&& refused is None <==> geoms && hash && bodies && block_can_exist(sim)
            &&& refused matches Some(LinkError::Geoms { sim: s, instance: i }) ==> !geoms && s
                == sim.ngeom && i == instance.geoms@.len()
            &&& refused matches Some(LinkError::Fingerprint) ==> geoms && !hash
            &&& refused matches Some(LinkError::Bodies { sim: s, instance: i }) ==> geoms && hash
                && !bodies && s == sim.nbody && i == instance.bodies@.len()
            &&& refused matches Some(LinkError::TooLarge) ==> geoms && hash && bodies
                && !block_can_exist(sim)
        }),
{
    assert(instance.geoms.len() == instance.geoms@.len());
    assert(instance.bodies.len() == instance.bodies@.len());
}

/// An overlay is planned as the page asked: off, or without a root to hang from, or
/// over exactly these slots.
pub open spec fn overlay_covers(
    plan: OverlayPlan,
    asked: bool,
    has_root: bool,
    start: int,
    end: int,
) -> bool {
    match plan {
        OverlayPlan::Off => !asked,
        OverlayPlan::NoRoot => asked && !has_root,
        OverlayPlan::Build(region) => asked && has_root && region.start == start && region.end
            == end,
    }
}

/// What [`link_sim`] binds. A sim that may drive the instance is bound, and each thing
/// that is read has its own run of slots on the wire; any other sim is refused.
pub proof fn law_link_reads_the_right_slots(
    instance: SimInstance,
    sim: ModelCounts,
    sim_sha256: Option<&str>,
    overlays: OverlayToggles,
    linked: Result<LinkPlan, LinkError>,
)
    requires
        call_ensures(link_sim, (&instance, sim, sim_sha256, overlays), linked),
    ensures
        linked is Ok <==> sim.ngeom == instance.geoms@.len() && (sim_sha256 is None
            || sim_sha256->0@ == instance.sha256@) && (some_body_has_a_node(instance) ==> sim.nbody
            == instance.bodies@.len()) && block_can_exist(sim),
        linked matches Ok(plan) ==> {
            let contacts = 4 + 7 * sim.ngeom;
            let joints = contacts + 7 * 256;
            let inertia = joints + 6 * sim.njnt;
            let bodies = inertia + 7 * sim.nbody;
            let root = instance.has_root;
            &&& plan.poses.start == 4 && plan.poses.end == contacts
            &&& overlay_covers(plan.contacts, overlays.contacts, root, contacts, joints)
            &&& overlay_covers(plan.joints, overlays.joints, root, joints, inertia)
            &&& overlay_covers(plan.inertia, overlays.inertia, root, inertia, bodies)
            &&& plan.bodies is Some <==> some_body_has_a_node(instance)
            &&& plan.bodies matches Some(region) ==> region.start == bodies && region.end == bodies
                + 7 * sim.nbody
        },
        linked matches Err(error) ==> refusal(instance, sim, sim_sha256) == Some(error),
{
}

/// A report names what the sim has, what the instance has, and the file that the
/// instance was imported from.
pub proof fn law_reports_name_both_sides(error: LinkError, filename: &str, message: String)
    requires
        call_ensures(LinkError::message, (&error, filename), message),
    ensures
        error matches LinkError::Geoms { sim, instance } ==> message@ == "the sim is running a "@
            + decimal(sim as nat) + "-"@ + "geom"@ + " model but the scene's instance ("@
            + filename@ + ") has "@ + decimal(instance as nat) + " "@ + "geoms"@
            + " — re-export the scene from the same model file"@,
        error matches LinkError::Bodies { sim, instance } ==> message@ == "the sim is running a "@
            + decimal(sim as nat) + "-"@ + "body"@ + " model but the scene's instance ("@
            + filename@ + ") has "@ + decimal(instance as nat) + " "@ + "bodies"@
            + " — re-export the scene from the same model file"@,
        error is Fingerprint ==> message@
            == "the sim is running a different model than the scene's instance ("@ + filename@
            + ") was imported from — re-export the scene from the same model file"@,
        error is TooLarge ==> message@ == "the pose block of the scene's instance ("@ + filename@
            + ") is too large to exist"@,
{
}

/// The forwarded model description is told by its kind alone.
pub proof fn law_model_message_is_told_by_its_kind(kind: Option<&str>, yes: bool)
    requires
        call_ensures(is_model_message, (kind,), yes),
    ensures
        kind is None ==> !yes,
        kind matches Some(k) ==> (yes <==> k@ == "mujoco-model"@),
{
}

/// The loader's instance waits as it is.
pub proof fn law_instance_waits_as_it_is(instance: Option<SimInstance>, pending: PendingInstance)
    requires
        call_ensures(PendingInstance::new, (instance,), pending),
    ensures
        pending@ == instance,
{
}

/// One model description uses the instance up, whatever comes of it, and without an
/// instance none is bound.
pub proof fn law_instance_is_bound_once()
    ensures
        forall|
            pending: &mut PendingInstance,
            sim: ModelCounts,
            sim_sha256: Option<&str>,
            overlays: OverlayToggles,
            outcome: ModelOutcome,
        | #[trigger]
            call_ensures(PendingInstance::on_model, (pending, sim, sim_sha256, overlays), outcome)
                ==> {
                &&& (*final(pending))@ is None
                &&& outcome is NoInstance <==> (*pending)@ is None
            },
{
}

/// An instance that waits is bound to a sim exactly if [`check_sim`] lets the sim drive
/// it. The outcome says whether the content hash had a part in that, counts the bound
/// geoms for the loading log, and plans the reads as [`link_sim`] does; a refusal is
/// reported with its reason.
pub proof fn law_model_is_bound_if_it_may_drive(instance: SimInstance, refused: Option<LinkError>)
    ensures
        forall|
            pending: &mut PendingInstance,
            sim: ModelCounts,
            sim_sha256: Option<&str>,
            overlays: OverlayToggles,
            outcome: ModelOutcome,
        | #[trigger]
            call_ensures(PendingInstance::on_model, (pending, sim, sim_sha256, overlays), outcome)
                && (*pending)@ == Some(instance) && call_ensures(
                check_sim,
                (&instance, sim, sim_sha256),
                refused,
            ) ==> {
                &&& outcome is Linked <==> refused is None
                &&& outcome is Refused <==> refused is Some
                &&& outcome matches ModelOutcome::Refused { message } ==> message@
                    == refused->0.report(instance.filename@)
                &&& outcome matches ModelOutcome::Linked { plan, progress, fingerprint_compared }
                    ==> {
                    let contacts = 4 + 7 * sim.ngeom;
                    let joints = contacts + 7 * 256;
                    let inertia = joints + 6 * sim.njnt;
                    let bodies = inertia + 7 * sim.nbody;
                    let root = instance.has_root;
                    &&& fingerprint_compared <==> sim_sha256 is Some
                    &&& progress@ == "sim linked ("@ + decimal(marked(instance.geoms@).len())
                        + "/"@ + decimal(instance.geoms@.len()) + " geoms) — running"@
                    &&& plan.poses.start == 4 && plan.poses.end == contacts
                    &&& overlay_covers(plan.contacts, overlays.contacts, root, contacts, joints)
                    &&& overlay_covers(plan.joints, overlays.joints, root, joints, inertia)
                    &&& overlay_covers(plan.inertia, overlays.inertia, root, inertia, bodies)
                    &&& plan.bodies is Some <==> some_body_has_a_node(instance)
                    &&& plan.bodies matches Some(region) ==> region.start == bodies && region.end
                        == bodies + 7 * sim.nbody
                }
            },
{
}

} // verus!
