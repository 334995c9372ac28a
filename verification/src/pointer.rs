//! Pointer drags on the canvas. A drag reports where the pointer went from and
//! to. Coordinates are the bits of an `f32`, moved and never computed with: the
//! difference, which turns the camera, is taken by the caller.

use vstd::prelude::*;

verus! {

/// A pointer position: the bits of its client coordinates.
#[derive(Clone, Copy, Debug, PartialEq, Eq, Structural)]
pub struct Point {
    pub x: u32,
    pub y: u32,
}

/// One step of a drag.
#[derive(Clone, Copy, Debug, PartialEq, Eq, Structural)]
pub struct DragStep {
    pub from: Point,
    pub to: Point,
}

/// What the page remembers of the pointer.
#[derive(Clone, Copy, Debug, PartialEq, Eq, Structural)]
pub struct Drag {
    /// A button is held.
    pub dragging: bool,
    /// The position the next step starts from.
    pub last: Point,
}

impl Drag {
    /// The state after a press at `at`.
    pub open spec fn pressed(self, at: Point) -> Drag {
        Drag { dragging: true, last: at }
    }

    /// The state after a release.
    pub open spec fn released(self) -> Drag {
        Drag { dragging: false, ..self }
    }

    /// The state after a move to `to`: only a drag follows the pointer.
    pub open spec fn dragged(self, to: Point) -> Drag {
        if self.dragging {
            Drag { last: to, ..self }
        } else {
            self
        }
    }

    /// The step that a move to `to` makes.
    pub open spec fn step_to(self, to: Point) -> Option<DragStep> {
        if self.dragging {
            Some(DragStep { from: self.last, to })
        } else {
            None
        }
    }

    /// No button is held.
    pub fn new() -> (drag: Drag)
        ensures
            drag == (Drag { dragging: false, last: Point { x: 0, y: 0 } }),
    {
        Drag { dragging: false, last: Point { x: 0, y: 0 } }
    }

    /// A button goes down.
    pub fn down(&mut self, at: Point)
        ensures
            *final(self) == old(self).pressed(at),
    {
        self.dragging = true;
        self.last = at;
    }

    /// The button goes up, or the pointer is lost.
    pub fn up(&mut self)
        ensures
            *final(self) == old(self).released(),
    {
        self.dragging = false;
    }

    /// The pointer moves.
    pub fn moved(&mut self, to: Point) -> (step: Option<DragStep>)
        ensures
            step == old(self).step_to(to),
            *final(self) == old(self).dragged(to),
    {
        if !self.dragging {
            return None;
        }
        let from = self.last;
        self.last = to;
        Some(DragStep { from, to })
    }
}

/// The state after a series of moves.
pub open spec fn after_moves(drag: Drag, moves: Seq<Point>) -> Drag
    decreases moves.len(),
{
    if moves.len() == 0 {
        drag
    } else {
        after_moves(drag, moves.drop_last()).dragged(moves.last())
    }
}

/// The steps that a series of moves makes.
pub open spec fn steps(drag: Drag, moves: Seq<Point>) -> Seq<DragStep>
    decreases moves.len(),
{
    if moves.len() == 0 {
        Seq::empty()
    } else {
        let before = steps(drag, moves.drop_last());
        match after_moves(drag, moves.drop_last()).step_to(moves.last()) {
            Some(step) => before.push(step),
            None => before,
        }
    }
}

/// The steps of a drag join up: every move makes one, which ends where the pointer
/// is and begins where the last one ended, the first where the button went down.
pub proof fn law_drag_steps_join_up(drag: Drag, at: Point, moves: Seq<Point>)
    ensures
        ({
            let made = steps(drag.pressed(at), moves);
            &&& made.len() == moves.len()
            &&& forall|k: int|
                0 <= k < made.len() ==> (#[trigger] made[k]).to == moves[k] && made[k].from == (
                if k == 0 {
                    at
                } else {
                    moves[k - 1]
                })
        }),
        after_moves(drag.pressed(at), moves) == drag.pressed(
            if moves.len() == 0 {
                at
            } else {
                moves.last()
            },
        ),
    decreases moves.len(),
{
    if moves.len() > 0 {
        law_drag_steps_join_up(drag, at, moves.drop_last());
    }
}

/// Without a button held the pointer moves nothing, and a later press starts afresh.
pub proof fn law_hovering_does_nothing(drag: Drag, at: Point, moves: Seq<Point>)
    ensures
        ({
            let up = drag.released();
            &&& after_moves(up, moves) == up
            &&& steps(up, moves).len() == 0
            &&& after_moves(up, moves).pressed(at) == drag.pressed(at)
        }),
    decreases moves.len(),
{
    if moves.len() > 0 {
        law_hovering_does_nothing(drag, at, moves.drop_last());
    }
}

/// A press is where the next step begins, whatever went before, and a release ends the
/// steps.
pub proof fn law_press_and_release_decide()
    ensures
        forall|drag: &mut Drag, at: Point| #[trigger]
            call_ensures(Drag::down, (drag, at), ()) ==> {
                &&& (*final(drag)).dragging
                &&& (*final(drag)).last == at
            },
        forall|drag: &mut Drag| #[trigger]
            call_ensures(Drag::up, (drag,), ()) ==> {
                &&& !(*final(drag)).dragging
                &&& (*final(drag)).last == (*drag).last
            },
{
}

/// A move makes a step exactly while a button is held: from the position remembered to
/// the new one, bit for bit, which is then remembered. Otherwise it changes nothing.
pub proof fn law_move_steps_from_the_last_position()
    ensures
        forall|drag: &mut Drag, to: Point, step: Option<DragStep>| #[trigger]
            call_ensures(Drag::moved, (drag, to), step) ==> if (*drag).dragging {
                &&& step is Some
                &&& step->0.from.x == (*drag).last.x && step->0.from.y == (*drag).last.y
                &&& step->0.to.x == to.x && step->0.to.y == to.y
                &&& (*final(drag)).dragging
                &&& (*final(drag)).last == to
            } else {
                &&& step is None
                &&& *final(drag) == *drag
            },
{
}

} // verus!
