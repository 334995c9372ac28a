//! What the main thread decides. It owns the page and both workers, and after
//! the startup handshake it only relays resizes and camera gestures.
//!
//! The handshake is a rendezvous: the sim worker's model description and the
//! render worker's `SceneReady` arrive in either order, and whoever comes second
//! triggers the handoff, in which the shared block is allocated, the sim is
//! started on it, and the render worker gets the model and the block.

use vstd::prelude::*;

use crate::protocol::{
    law_parts_follow_one_another, BlockLayout, Counts, ModelCounts, Part, RenderMsg,
};
use crate::text::{decimal, push_decimal, same_text};

verus! {

/// Something for the page to do.
#[derive(Debug, PartialEq, Eq)]
pub enum MainAction {
    /// Append a line to the loading log.
    Log(String),
    /// Replace the status line.
    Status(String),
    /// Fade the loading screen out.
    DismissLoading,
    /// Allocate a shared block of this many bytes, start the sim on it, and
    /// forward the model description with it to the render worker.
    Handoff { bytes: u32 },
}

/// A [`MainAction`] by what it says.
pub enum ActionView {
    Log(Seq<char>),
    Status(Seq<char>),
    DismissLoading,
    Handoff { bytes: nat },
}

impl View for MainAction {
    type V = ActionView;

    open spec fn view(&self) -> ActionView {
        match self {
            MainAction::Log(line) => ActionView::Log(line@),
            MainAction::Status(line) => ActionView::Status(line@),
            MainAction::DismissLoading => ActionView::DismissLoading,
            MainAction::Handoff { bytes } => ActionView::Handoff { bytes: *bytes as nat },
        }
    }
}

/// A list of actions by what they say.
pub open spec fn views(actions: Seq<MainAction>) -> Seq<ActionView> {
    Seq::new(actions.len(), |i: int| actions[i]@)
}

/// How far the startup handshake is: whether the scene is ready, and the model
/// that waits for it.
pub struct Rendezvous {
    pub scene_ready: bool,
    pub model: Option<Counts>,
}

/// What the handshake goes by: the two messages that it waits for, and being
/// looked at without a new one.
pub enum Arrival {
    SceneReady,
    Model(Counts),
    Nothing,
}

impl Rendezvous {
    /// Nothing has arrived.
    pub open spec fn start() -> Rendezvous {
        Rendezvous { scene_ready: false, model: None }
    }

    /// The message is noted.
    pub open spec fn noted(self, arrival: Arrival) -> Rendezvous {
        match arrival {
            Arrival::SceneReady => Rendezvous { scene_ready: true, ..self },
            Arrival::Model(counts) => Rendezvous { model: Some(counts), ..self },
            Arrival::Nothing => self,
        }
    }

    /// The model to hand over, once both messages are in.
    pub open spec fn handoff(self) -> Option<Counts> {
        if self.scene_ready {
            self.model
        } else {
            None
        }
    }

    /// A model that was handed over waits no longer.
    pub open spec fn settled(self) -> Rendezvous {
        if self.scene_ready {
            Rendezvous { model: None, ..self }
        } else {
            self
        }
    }

    /// The state after a series of messages.
    pub open spec fn after(arrivals: Seq<Arrival>) -> Rendezvous
        decreases arrivals.len(),
    {
        if arrivals.len() == 0 {
            Rendezvous::start()
        } else {
            Rendezvous::after(arrivals.drop_last()).noted(arrivals.last()).settled()
        }
    }

    /// The models handed over in the course of a series of messages. What the page
    /// does for each is in [`handoff_actions`].
    pub open spec fn handed_over(arrivals: Seq<Arrival>) -> Seq<Counts>
        decreases arrivals.len(),
    {
        if arrivals.len() == 0 {
            Seq::empty()
        } else {
            let before = Rendezvous::handed_over(arrivals.drop_last());
            match Rendezvous::after(arrivals.drop_last()).noted(arrivals.last()).handoff() {
                Some(counts) => before.push(counts),
                None => before,
            }
        }
    }
}

/// The render worker has reported its scene ready.
pub open spec fn scene_reported(arrivals: Seq<Arrival>) -> bool {
    exists|i: int| 0 <= i < arrivals.len() && #[trigger] arrivals[i] is SceneReady
}

/// How many model descriptions came.
pub open spec fn models(arrivals: Seq<Arrival>) -> nat
    decreases arrivals.len(),
{
    if arrivals.len() == 0 {
        0
    } else {
        models(arrivals.drop_last()) + (if arrivals.last() is Model {
            1nat
        } else {
            0
        })
    }
}

/// What the page does to hand a model over. A model whose block no shared buffer
/// can hold is reported instead.
pub open spec fn handoff_actions(model: Option<Counts>) -> Seq<ActionView> {
    match model {
        Some(counts) => if counts.fits() {
            seq![
                ActionView::Handoff { bytes: counts.slots() * 4 },
                ActionView::Log("pose block allocated — sim + mirror starting"@),
            ]
        } else {
            seq![
                ActionView::Log("MUJOCO ERROR: "@ + "the pose block is too large to allocate"@),
                ActionView::Status("mujoco error: "@ + "the pose block is too large to allocate"@),
            ]
        },
        None => Seq::empty(),
    }
}

/// What the page does on a message of the render worker.
pub open spec fn render_actions(state: Rendezvous, msg: RenderMsg) -> Seq<ActionView> {
    match msg {
        RenderMsg::Progress { message } => seq![ActionView::Log(message@)],
        RenderMsg::SceneReady => seq![
            ActionView::Log("scene ready — waiting on the MuJoCo model…"@),
        ] + handoff_actions(state.noted(Arrival::SceneReady).handoff()),
        RenderMsg::Ready => seq![
            ActionView::Log("first frames rendered — ready"@),
            ActionView::DismissLoading,
            ActionView::Status("running — drag orbits, wheel zooms"@),
        ],
        RenderMsg::Error { message } => seq![
            ActionView::Log("ERROR: "@ + message@),
            ActionView::Status("render error: "@ + message@),
        ],
    }
}

/// What the page does on a message of the sim worker.
pub open spec fn sim_actions(
    state: Rendezvous,
    kind: Seq<char>,
    message: Seq<char>,
    counts: Counts,
) -> Seq<ActionView> {
    if kind == "progress"@ {
        seq![ActionView::Log(message)]
    } else if kind == "model"@ {
        seq![
            ActionView::Log("MuJoCo model loaded ("@ + decimal(counts.ngeom) + " geoms)"@),
        ] + handoff_actions(state.noted(Arrival::Model(counts)).handoff())
    } else if kind == "error"@ {
        seq![
            ActionView::Log("MUJOCO ERROR: "@ + message),
            ActionView::Status("mujoco error: "@ + message),
        ]
    } else {
        Seq::empty()
    }
}

/// The main thread's part of the startup handshake.
pub struct MainThread {
    scene_ready: bool,
    model: Option<ModelCounts>,
}

impl View for MainThread {
    type V = Rendezvous;

    closed spec fn view(&self) -> Rendezvous {
        Rendezvous {
            scene_ready: self.scene_ready,
            model: match self.model {
                Some(counts) => Some(counts@),
                None => None,
            },
        }
    }
}

fn labelled(label: &str, text: &str) -> (line: String)
    ensures
        line@ == label@ + text@,
{
    let mut line: String = label.to_string();
    line.append(text);
    line
}

impl MainThread {
    /// Nothing has arrived yet.
    pub fn new() -> (main: MainThread)
        ensures
            main@ == Rendezvous::start(),
    {
        MainThread { scene_ready: false, model: None }
    }

    /// Hand the model over if both messages are in. A model is given away with
    /// the handoff, so looking again does nothing.
    pub fn maybe_start(&mut self) -> (actions: Vec<MainAction>)
        ensures
            final(self)@ == old(self)@.noted(Arrival::Nothing).settled(),
            views(actions@) == handoff_actions(old(self)@.noted(Arrival::Nothing).handoff()),
    {
        let mut actions: Vec<MainAction> = Vec::new();
        if self.scene_ready {
            match self.model {
                Some(counts) => {
                    self.model = None;
                    match BlockLayout::new(counts) {
                        Some(layout) => {
                            actions.push(MainAction::Handoff { bytes: layout.bytes() });
                            actions.push(
                                MainAction::Log(
                                    "pose block allocated — sim + mirror starting".to_string(),
                                ),
                            );
                        },
                        None => {
                            let cause = "the pose block is too large to allocate";
                            actions.push(MainAction::Log(labelled("MUJOCO ERROR: ", cause)));
                            actions.push(MainAction::Status(labelled("mujoco error: ", cause)));
                        },
                    }
                },
                None => {},
            }
        }
        assert(views(actions@) =~= handoff_actions(old(self)@.handoff()));
        actions
    }

    /// Take a message of the render worker.
    pub fn on_render(&mut self, msg: RenderMsg) -> (actions: Vec<MainAction>)
        ensures
            views(actions@) == render_actions(old(self)@, msg),
            final(self)@ == (if msg is SceneReady {
                old(self)@.noted(Arrival::SceneReady).settled()
            } else {
                old(self)@
            }),
    {
        let mut actions: Vec<MainAction> = Vec::new();
        match msg {
            RenderMsg::Progress { message } => {
                actions.push(MainAction::Log(message));
            },
            RenderMsg::SceneReady => {
                self.scene_ready = true;
                actions.push(
                    MainAction::Log("scene ready — waiting on the MuJoCo model…".to_string()),
                );
                let mut handoff = self.maybe_start();
                actions.append(&mut handoff);
            },
            RenderMsg::Ready => {
                actions.push(MainAction::Log("first frames rendered — ready".to_string()));
                actions.push(MainAction::DismissLoading);
                actions.push(MainAction::Status("running — drag orbits, wheel zooms".to_string()));
            },
            RenderMsg::Error { message } => {
                actions.push(MainAction::Log(labelled("ERROR: ", message.as_str())));
                actions.push(MainAction::Status(labelled("render error: ", message.as_str())));
            },
        }
        assert(views(actions@) =~= render_actions(old(self)@, msg));
        actions
    }

    /// Take a message of the sim worker: its kind, its text if it has one, and
    /// the counts that a model description carries.
    pub fn on_sim(&mut self, kind: &str, message: Option<&str>, counts: ModelCounts) -> (actions:
        Vec<MainAction>)
        ensures
            views(actions@) == sim_actions(
                old(self)@,
                kind@,
                match message {
                    Some(text) => text@,
                    None => Seq::empty(),
                },
                counts@,
            ),
            final(self)@ == (if kind@ == "model"@ {
                old(self)@.noted(Arrival::Model(counts@)).settled()
            } else {
                old(self)@
            }),
    {
        let mut actions: Vec<MainAction> = Vec::new();
        let text = match message {
            Some(text) => text,
            None => "",
        };
        proof {
            reveal_strlit("");
            assert(""@ =~= Seq::<char>::empty());
            reveal_strlit("progress");
            reveal_strlit("model");
            assert("progress"@.len() != "model"@.len());
        }
        if same_text(kind, "progress") {
            actions.push(MainAction::Log(text.to_string()));
        } else if same_text(kind, "model") {
            let mut line: String = "MuJoCo model loaded (".to_string();
            push_decimal(&mut line, counts.ngeom);
            line.append(" geoms)");
            actions.push(MainAction::Log(line));
            self.model = Some(counts);
            let mut handoff = self.maybe_start();
            actions.append(&mut handoff);
        } else if same_text(kind, "error") {
            actions.push(MainAction::Log(labelled("MUJOCO ERROR: ", text)));
            actions.push(MainAction::Status(labelled("mujoco error: ", text)));
        }
        assert(views(actions@) =~= sim_actions(old(self)@, kind@, text@, counts@));
        actions
    }
}

proof fn lemma_scene_ready(arrivals: Seq<Arrival>)
    ensures
        Rendezvous::after(arrivals).scene_ready == scene_reported(arrivals),
    decreases arrivals.len(),
{
    if arrivals.len() > 0 {
        let rest = arrivals.drop_last();
        lemma_scene_ready(rest);
        if scene_reported(rest) {
            let i = choose|i: int| 0 <= i < rest.len() && #[trigger] rest[i] is SceneReady;
            assert(arrivals[i] is SceneReady);
        }
        if arrivals.last() is SceneReady {
            assert(arrivals[arrivals.len() - 1] is SceneReady);
        }
        if scene_reported(arrivals) {
            let i = choose|i: int| 0 <= i < arrivals.len() && #[trigger] arrivals[i] is SceneReady;
            if i < rest.len() {
                assert(rest[i] is SceneReady);
            }
        }
    }
}

/// Nothing is handed over before both messages are in.
pub proof fn law_handoff_needs_both(arrivals: Seq<Arrival>)
    requires
        !scene_reported(arrivals) || models(arrivals) == 0,
    ensures
        Rendezvous::handed_over(arrivals).len() == 0,
        models(arrivals) == 0 ==> Rendezvous::after(arrivals).model is None,
    decreases arrivals.len(),
{
    lemma_scene_ready(arrivals);
    if arrivals.len() > 0 {
        let rest = arrivals.drop_last();
        lemma_scene_ready(rest);
        law_handoff_needs_both(rest);
    }
}

/// Once the scene is ready no model waits, and a model is handed over at most once.
pub proof fn law_no_model_is_handed_over_twice(arrivals: Seq<Arrival>)
    ensures
        scene_reported(arrivals) ==> Rendezvous::after(arrivals).model is None,
        Rendezvous::handed_over(arrivals).len() + (if Rendezvous::after(arrivals).model is Some {
            1nat
        } else {
            0
        }) <= models(arrivals),
    decreases arrivals.len(),
{
    lemma_scene_ready(arrivals);
    if arrivals.len() > 0 {
        law_no_model_is_handed_over_twice(arrivals.drop_last());
    }
}

/// The order does not matter: a scene that reports ready, however often, and one
/// model description, whichever comes first, give one handoff, of that model,
/// however often the handshake is looked at besides.
pub proof fn law_rendezvous_in_either_order(arrivals: Seq<Arrival>, m: int, counts: Counts)
    requires
        scene_reported(arrivals),
        models(arrivals) == 1,
        0 <= m < arrivals.len(),
        arrivals[m] == Arrival::Model(counts),
    ensures
        Rendezvous::handed_over(arrivals) == seq![counts],
{
    lemma_one_model(arrivals, m, counts);
    lemma_scene_ready(arrivals);
}

/// Whoever comes second triggers the handoff: with one model description at `m`
/// and the first `SceneReady` at `s`, nothing is handed over before the later of
/// the two, and all of it with that one.
pub proof fn law_second_arrival_triggers_the_handoff(
    arrivals: Seq<Arrival>,
    m: int,
    s: int,
    counts: Counts,
)
    requires
        models(arrivals) == 1,
        0 <= m < arrivals.len(),
        arrivals[m] == Arrival::Model(counts),
        0 <= s < arrivals.len(),
        arrivals[s] is SceneReady,
        forall|i: int| 0 <= i < s ==> !(#[trigger] arrivals[i] is SceneReady),
    ensures
        ({
            let second = if m < s {
                s
            } else {
                m
            };
            &&& Rendezvous::handed_over(arrivals.take(second)).len() == 0
            &&& Rendezvous::handed_over(arrivals.take(second + 1)) == seq![counts]
        }),
{
    let second = if m < s {
        s
    } else {
        m
    };
    let before = arrivals.take(second);
    let with = arrivals.take(second + 1);
    assert(with[m] == arrivals[m]);
    assert(with[s] == arrivals[s]);
    assert(with.drop_last() =~= before);
    lemma_model_counted(with, m);
    lemma_models_grow(arrivals, second + 1);
    if m < s {
        assert(forall|i: int|
            0 <= i < before.len() ==> #[trigger] before[i] == arrivals[i]);
    } else {
        assert(models(before) == 0);
    }
    law_handoff_needs_both(before);
    law_rendezvous_in_either_order(with, m, counts);
}

proof fn lemma_models_grow(arrivals: Seq<Arrival>, n: int)
    requires
        0 <= n <= arrivals.len(),
    ensures
        models(arrivals.take(n)) <= models(arrivals),
    decreases arrivals.len() - n,
{
    if n < arrivals.len() {
        assert(arrivals.take(n + 1).drop_last() =~= arrivals.take(n));
        lemma_models_grow(arrivals, n + 1);
    } else {
        assert(arrivals.take(n) =~= arrivals);
    }
}

proof fn lemma_one_model(arrivals: Seq<Arrival>, m: int, counts: Counts)
    requires
        models(arrivals) == 1,
        0 <= m < arrivals.len(),
        arrivals[m] == Arrival::Model(counts),
    ensures
        Rendezvous::after(arrivals).scene_ready ==> Rendezvous::handed_over(arrivals)
            == seq![counts] && Rendezvous::after(arrivals).model is None,
        !Rendezvous::after(arrivals).scene_ready ==> Rendezvous::handed_over(arrivals).len() == 0
            && Rendezvous::after(arrivals).model == Some(counts),
    decreases arrivals.len(),
{
    let rest = arrivals.drop_last();
    lemma_scene_ready(rest);
    if m == arrivals.len() - 1 {
        law_handoff_needs_both(rest);
        assert(Rendezvous::handed_over(rest).push(counts) =~= seq![counts]);
    } else {
        lemma_model_counted(rest, m);
        assert(rest[m] == arrivals[m]);
        lemma_one_model(rest, m, counts);
        assert(Rendezvous::handed_over(rest).len() == 0 ==> Rendezvous::handed_over(rest).push(
            counts,
        ) =~= seq![counts]);
    }
}

proof fn lemma_model_counted(arrivals: Seq<Arrival>, m: int)
    requires
        0 <= m < arrivals.len(),
        arrivals[m] is Model,
    ensures
        models(arrivals) >= 1,
    decreases arrivals.len(),
{
    if m < arrivals.len() - 1 {
        assert(arrivals.drop_last()[m] == arrivals[m]);
        lemma_model_counted(arrivals.drop_last(), m);
    }
}

/// The block that is handed over holds every part of its layout. A handoff allocates
/// just the bytes up to the end of the last part, so that each part lies in it whole;
/// it comes exactly for counts whose block can be allocated, and once.
pub proof fn law_handed_over_block_holds_every_part(c: Counts)
    ensures
        forall|k: int|
            0 <= k < handoff_actions(Some(c)).len() && (#[trigger] handoff_actions(
                Some(c),
            )[k]) is Handoff ==> {
                let bytes = handoff_actions(Some(c))[k]->bytes;
                &&& bytes == 4 * Part::Bodies.end(c)
                &&& bytes == 4 * (4 + 7 * c.ngeom + 7 * 256 + 6 * c.njnt + 14 * c.nbody)
                &&& forall|p: Part| 4 * #[trigger] p.end(c) <= bytes
            },
        4 * (4 + 7 * c.ngeom + 7 * 256 + 6 * c.njnt + 14 * c.nbody) <= 0xffff_ffff
            <==> exists|k: int|
            0 <= k < handoff_actions(Some(c)).len() && (#[trigger] handoff_actions(
                Some(c),
            )[k]) is Handoff,
        forall|k: int, l: int|
            0 <= k < l < handoff_actions(Some(c)).len() ==> !((#[trigger] handoff_actions(
                Some(c),
            )[k]) is Handoff && (#[trigger] handoff_actions(Some(c))[l]) is Handoff),
        handoff_actions(None).len() == 0,
{
    law_parts_follow_one_another(c);
    if c.fits() {
        assert(handoff_actions(Some(c))[0] is Handoff);
    }
}

/// The action logs this line.
pub open spec fn logs(action: MainAction, line: Seq<char>) -> bool {
    action matches MainAction::Log(text) && text@ == line
}

/// The action sets the status line to this.
pub open spec fn sets_status(action: MainAction, line: Seq<char>) -> bool {
    action matches MainAction::Status(text) && text@ == line
}

/// From action `from` on the page hands a model over: it allocates four bytes for each
/// slot of the wire and says so, or, where that is more than a buffer can have, reports
/// the error. Nothing comes after.
pub open spec fn ends_with_handoff(actions: Seq<MainAction>, from: int, c: Counts) -> bool {
    let bytes = 4 * (4 + 7 * c.ngeom + 7 * 256 + 6 * c.njnt + 14 * c.nbody);
    &&& actions.len() == from + 2
    &&& if bytes <= 0xffff_ffff {
        &&& actions[from] matches MainAction::Handoff { bytes: n } && n == bytes
        &&& logs(actions[from + 1], "pose block allocated — sim + mirror starting"@)
    } else {
        &&& logs(actions[from], "MUJOCO ERROR: "@ + "the pose block is too large to allocate"@)
        &&& sets_status(
            actions[from + 1],
            "mujoco error: "@ + "the pose block is too large to allocate"@,
        )
    }
}

proof fn lemma_handoff_views(actions: Seq<MainAction>, from: int, c: Counts)
    requires
        0 <= from <= actions.len(),
        views(actions).skip(from) == handoff_actions(Some(c)),
    ensures
        ends_with_handoff(actions, from, c),
{
    let tail = views(actions).skip(from);
    assert(tail.len() == 2);
    assert(tail[0] == actions[from]@);
    assert(tail[1] == actions[from + 1]@);
    law_parts_follow_one_another(c);
}

/// [`MainThread::maybe_start`] hands over the model that waits as soon as the scene is
/// ready, sized for that model, and then lets it go; in any other state it does nothing.
pub proof fn law_maybe_start_hands_over_what_waits()
    ensures
        forall|main: &mut MainThread, actions: Vec<MainAction>| #[trigger]
            call_ensures(MainThread::maybe_start, (main,), actions) ==> {
                &&& (*final(main))@.scene_ready == (*main)@.scene_ready
                &&& if (*main)@.scene_ready && (*main)@.model is Some {
                    &&& ends_with_handoff(actions@, 0, (*main)@.model->0)
                    &&& (*final(main))@.model is None
                } else {
                    &&& actions@.len() == 0
                    &&& (*final(main))@.model == (*main)@.model
                }
            },
{
    assert forall|main: &mut MainThread, actions: Vec<MainAction>| #[trigger]
        call_ensures(MainThread::maybe_start, (main,), actions) implies {
        if (*main)@.scene_ready && (*main)@.model is Some {
            ends_with_handoff(actions@, 0, (*main)@.model->0)
        } else {
            actions@.len() == 0
        }
    } by {
        assert(views(actions@).len() == actions@.len());
        if (*main)@.scene_ready && (*main)@.model is Some {
            assert(views(actions@).skip(0) =~= views(actions@));
            lemma_handoff_views(actions@, 0, (*main)@.model->0);
        }
    }
}

/// What [`MainThread::on_render`] makes of each message: progress is logged word for
/// word, an error is logged and shown word for word, readiness dismisses the loading
/// screen, and a ready scene gets the model that waits for it, if one does.
pub proof fn law_render_messages_reach_the_page()
    ensures
        forall|main: &mut MainThread, msg: RenderMsg, actions: Vec<MainAction>| #[trigger]
            call_ensures(MainThread::on_render, (main, msg), actions) ==> match msg {
                RenderMsg::Progress { message } => {
                    &&& actions@.len() == 1
                    &&& logs(actions@[0], message@)
                    &&& (*final(main))@ == (*main)@
                },
                RenderMsg::Error { message } => {
                    &&& actions@.len() == 2
                    &&& logs(actions@[0], "ERROR: "@ + message@)
                    &&& sets_status(actions@[1], "render error: "@ + message@)
                    &&& (*final(main))@ == (*main)@
                },
                RenderMsg::Ready => {
                    &&& actions@.len() == 3
                    &&& logs(actions@[0], "first frames rendered — ready"@)
                    &&& actions@[1] is DismissLoading
                    &&& sets_status(actions@[2], "running — drag orbits, wheel zooms"@)
                    &&& (*final(main))@ == (*main)@
                },
                RenderMsg::SceneReady => {
                    &&& actions@.len() > 0
                    &&& logs(actions@[0], "scene ready — waiting on the MuJoCo model…"@)
                    &&& (*main)@.model matches Some(c) ==> ends_with_handoff(actions@, 1, c)
                    &&& (*main)@.model is None ==> actions@.len() == 1
                    &&& (*final(main))@.scene_ready
                    &&& (*final(main))@.model is None
                },
            },
{
    assert forall|main: &mut MainThread, msg: RenderMsg, actions: Vec<MainAction>| #[trigger]
        call_ensures(MainThread::on_render, (main, msg), actions) implies match msg {
        RenderMsg::Progress { message } => {
            &&& actions@.len() == 1
            &&& logs(actions@[0], message@)
        },
        RenderMsg::Error { message } => {
            &&& actions@.len() == 2
            &&& logs(actions@[0], "ERROR: "@ + message@)
            &&& sets_status(actions@[1], "render error: "@ + message@)
        },
        RenderMsg::Ready => {
            &&& actions@.len() == 3
            &&& logs(actions@[0], "first frames rendered — ready"@)
            &&& actions@[1] is DismissLoading
            &&& sets_status(actions@[2], "running — drag orbits, wheel zooms"@)
        },
        RenderMsg::SceneReady => {
            &&& actions@.len() > 0
            &&& logs(actions@[0], "scene ready — waiting on the MuJoCo model…"@)
            &&& (*main)@.model matches Some(c) ==> ends_with_handoff(actions@, 1, c)
            &&& (*main)@.model is None ==> actions@.len() == 1
        },
    } by {
        let seen = views(actions@);
        assert(seen.len() == actions@.len());
        assert(seen.len() > 0 ==> seen[0] == actions@[0]@);
        assert(seen.len() > 1 ==> seen[1] == actions@[1]@);
        assert(seen.len() > 2 ==> seen[2] == actions@[2]@);
        if msg is SceneReady {
            if let Some(c) = (*main)@.model {
                assert(seen.skip(1) =~= handoff_actions(Some(c)));
                lemma_handoff_views(actions@, 1, c);
            }
        }
    }
}

/// What [`MainThread::on_sim`] makes of each message: progress is logged word for word,
/// an error is logged and shown word for word, a model is announced by its geom count
/// and handed over at once if the scene is ready, or else waits in place of any that
/// waited before; any other kind does nothing.
pub proof fn law_sim_messages_reach_the_page()
    ensures
        forall|
            main: &mut MainThread,
            kind: &str,
            message: Option<&str>,
            counts: ModelCounts,
            actions: Vec<MainAction>,
        | #[trigger]
            call_ensures(MainThread::on_sim, (main, kind, message, counts), actions) ==> {
                let text = if message is Some {
                    message->0@
                } else {
                    Seq::empty()
                };
                if kind@ == "model"@ {
                    &&& actions@.len() > 0
                    &&& logs(
                        actions@[0],
                        "MuJoCo model loaded ("@ + decimal(counts.ngeom as nat) + " geoms)"@,
                    )
                    &&& (*final(main))@.scene_ready == (*main)@.scene_ready
                    &&& if (*main)@.scene_ready {
                        &&& ends_with_handoff(actions@, 1, counts@)
                        &&& (*final(main))@.model is None
                    } else {
                        &&& actions@.len() == 1
                        &&& (*final(main))@.model == Some(counts@)
                    }
                } else {
                    &&& (*final(main))@ == (*main)@
                    &&& if kind@ == "progress"@ {
                        &&& actions@.len() == 1
                        &&& logs(actions@[0], text)
                    } else if kind@ == "error"@ {
                        &&& actions@.len() == 2
                        &&& logs(actions@[0], "MUJOCO ERROR: "@ + text)
                        &&& sets_status(actions@[1], "mujoco error: "@ + text)
                    } else {
                        actions@.len() == 0
                    }
                }
            },
{
    reveal_strlit("progress");
    reveal_strlit("model");
    assert("progress"@.len() != "model"@.len());
    assert forall|
        main: &mut MainThread,
        kind: &str,
        message: Option<&str>,
        counts: ModelCounts,
        actions: Vec<MainAction>,
    | #[trigger]
        call_ensures(MainThread::on_sim, (main, kind, message, counts), actions) implies {
        let text = if message is Some {
            message->0@
        } else {
            Seq::empty()
        };
        if kind@ == "model"@ {
            &&& actions@.len() > 0
            &&& logs(
                actions@[0],
                "MuJoCo model loaded ("@ + decimal(counts.ngeom as nat) + " geoms)"@,
            )
            &&& (*main)@.scene_ready ==> ends_with_handoff(actions@, 1, counts@)
            &&& !(*main)@.scene_ready ==> actions@.len() == 1
        } else if kind@ == "progress"@ {
            &&& actions@.len() == 1
            &&& logs(actions@[0], text)
        } else if kind@ == "error"@ {
            &&& actions@.len() == 2
            &&& logs(actions@[0], "MUJOCO ERROR: "@ + text)
            &&& sets_status(actions@[1], "mujoco error: "@ + text)
        } else {
            actions@.len() == 0
        }
    } by {
        let seen = views(actions@);
        assert(seen.len() == actions@.len());
        assert(seen.len() > 0 ==> seen[0] == actions@[0]@);
        assert(seen.len() > 1 ==> seen[1] == actions@[1]@);
        if kind@ == "model"@ && (*main)@.scene_ready {
            assert(seen.skip(1) =~= handoff_actions(Some(counts@)));
            lemma_handoff_views(actions@, 1, counts@);
        }
    }
}

/// Once the scene is ready, every model description is handed over as it comes.
pub proof fn law_model_after_the_scene_is_handed_over(arrivals: Seq<Arrival>, counts: Counts)
    requires
        scene_reported(arrivals),
    ensures
        Rendezvous::handed_over(arrivals.push(Arrival::Model(counts))) == Rendezvous::handed_over(
            arrivals,
        ).push(counts),
{
    lemma_scene_ready(arrivals);
    assert(arrivals.push(Arrival::Model(counts)).drop_last() =~= arrivals);
}

/// The scene gets the latest model: of all descriptions that came before the scene was
/// ready, the last is handed over with it, and it alone.
pub proof fn law_scene_gets_the_latest_model(arrivals: Seq<Arrival>, m: int, counts: Counts)
    requires
        !scene_reported(arrivals),
        0 <= m < arrivals.len(),
        arrivals[m] == Arrival::Model(counts),
        forall|i: int| m < i < arrivals.len() ==> !(#[trigger] arrivals[i] is Model),
    ensures
        Rendezvous::handed_over(arrivals.push(Arrival::SceneReady)) == seq![counts],
{
    assert(arrivals.push(Arrival::SceneReady).drop_last() =~= arrivals);
    law_handoff_needs_both(arrivals);
    lemma_latest_model_waits(arrivals, m, counts);
    assert(Rendezvous::handed_over(arrivals) =~= Seq::<Counts>::empty());
    assert(Seq::<Counts>::empty().push(counts) =~= seq![counts]);
}

proof fn lemma_latest_model_waits(arrivals: Seq<Arrival>, m: int, counts: Counts)
    requires
        !scene_reported(arrivals),
        0 <= m < arrivals.len(),
        arrivals[m] == Arrival::Model(counts),
        forall|i: int| m < i < arrivals.len() ==> !(#[trigger] arrivals[i] is Model),
    ensures
        Rendezvous::after(arrivals).model == Some(counts),
        !Rendezvous::after(arrivals).scene_ready,
    decreases arrivals.len(),
{
    let rest = arrivals.drop_last();
    lemma_scene_ready(arrivals);
    lemma_scene_ready(rest);
    assert(!scene_reported(rest)) by {
        if scene_reported(rest) {
            let i = choose|i: int| 0 <= i < rest.len() && #[trigger] rest[i] is SceneReady;
            assert(arrivals[i] is SceneReady);
        }
    }
    assert(!(arrivals[arrivals.len() - 1] is SceneReady));
    if m < arrivals.len() - 1 {
        assert(!(arrivals[arrivals.len() - 1] is Model));
        lemma_latest_model_waits(rest, m, counts);
    }
}

/// A scene that reports ready again, or a look without a new message, hands nothing
/// over.
pub proof fn law_repeats_hand_nothing_over(arrivals: Seq<Arrival>)
    ensures
        Rendezvous::handed_over(arrivals.push(Arrival::Nothing)) == Rendezvous::handed_over(
            arrivals,
        ),
        scene_reported(arrivals) ==> Rendezvous::handed_over(arrivals.push(Arrival::SceneReady))
            == Rendezvous::handed_over(arrivals),
{
    lemma_scene_ready(arrivals);
    law_no_model_is_handed_over_twice(arrivals);
    assert(arrivals.push(Arrival::Nothing).drop_last() =~= arrivals);
    assert(arrivals.push(Arrival::SceneReady).drop_last() =~= arrivals);
}

/// The main thread is in the rendezvous: it starts where the rendezvous does, and each
/// message takes both on together.
pub proof fn law_main_thread_keeps_the_rendezvous(arrivals: Seq<Arrival>)
    ensures
        forall|main: MainThread| #[trigger]
            call_ensures(MainThread::new, (), main) ==> main@ == Rendezvous::after(Seq::empty()),
        forall|main: &mut MainThread, actions: Vec<MainAction>| #[trigger]
            call_ensures(MainThread::maybe_start, (main,), actions) && (*main)@
                == Rendezvous::after(arrivals) ==> (*final(main))@ == Rendezvous::after(
                arrivals.push(Arrival::Nothing),
            ),
        forall|main: &mut MainThread, actions: Vec<MainAction>| #[trigger]
            call_ensures(MainThread::on_render, (main, RenderMsg::SceneReady), actions) && (*main)@
                == Rendezvous::after(arrivals) ==> (*final(main))@ == Rendezvous::after(
                arrivals.push(Arrival::SceneReady),
            ),
        forall|
            main: &mut MainThread,
            kind: &str,
            message: Option<&str>,
            counts: ModelCounts,
            actions: Vec<MainAction>,
        | #[trigger]
            call_ensures(MainThread::on_sim, (main, kind, message, counts), actions) && kind@
                == "model"@ && (*main)@ == Rendezvous::after(arrivals) ==> (*final(main))@
                == Rendezvous::after(arrivals.push(Arrival::Model(counts@))),
{
    assert(arrivals.push(Arrival::Nothing).drop_last() =~= arrivals);
    assert(arrivals.push(Arrival::SceneReady).drop_last() =~= arrivals);
    assert forall|counts: Counts| #[trigger] arrivals.push(Arrival::Model(counts)).drop_last()
        == arrivals by {
        assert(arrivals.push(Arrival::Model(counts)).drop_last() =~= arrivals);
    }
}

} // verus!
