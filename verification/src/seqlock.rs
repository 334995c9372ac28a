//! Reading the shared block while the sim worker writes it.
//!
//! The block is guarded by a sequence number. The writer makes it odd, writes,
//! and makes it even; the reader copies between two looks at the number and
//! keeps the copy only when both looks agree. A copy that was torn is dropped,
//! and the last good frame stays on screen.

use vstd::prelude::*;

verus! {

/// What a look at the sequence number counts as: a look that failed reads as
/// `fallback`.
pub open spec fn seen(look: Option<i32>, fallback: int) -> int {
    match look {
        Some(seq) => seq as int,
        None => fallback,
    }
}

/// A number that a copy may start from: something was published, the writer is
/// outside the block, and this frame has not been applied yet.
pub open spec fn readable(last: int, seq: int) -> bool {
    &&& seq != 0
    &&& seq % 2 == 0
    &&& seq != last
}

/// A copy that started at `seq` still stands after a further look.
pub open spec fn undisturbed(seq: int, look: Option<i32>) -> bool {
    seen(look, -1) == seq
}

/// The number of live contacts that the header reports.
pub open spec fn live_contacts(raw: Option<i32>) -> nat {
    match raw {
        Some(n) => if n > 0 {
            n as nat
        } else {
            0
        },
        None => 0,
    }
}

/// The reader's memory between frames: the sequence number it applied last.
pub struct SnapshotReader {
    last: i32,
}

impl View for SnapshotReader {
    type V = int;

    closed spec fn view(&self) -> int {
        self.last as int
    }
}

impl SnapshotReader {
    /// A reader that has applied nothing.
    pub fn new() -> (reader: SnapshotReader)
        ensures
            reader@ == 0,
    {
        SnapshotReader { last: 0 }
    }

    /// Decide on the first look of a frame whether to copy, and from which number.
    pub fn begin(&self, look: Option<i32>) -> (start: Option<i32>)
        ensures
            start is Some <==> readable(self@, seen(look, 0)),
            start matches Some(seq) ==> seq == seen(look, 0),
    {
        let seq: i32 = match look {
            Some(seq) => seq,
            None => 0,
        };
        if seq == self.last || seq == 0 || !is_even(seq) {
            return None;
        }
        Some(seq)
    }

    /// Decide on a later look whether the copy so far is still whole.
    pub fn still_whole(&self, start: i32, look: Option<i32>) -> (whole: bool)
        ensures
            whole == undisturbed(start as int, look),
    {
        match look {
            Some(seq) => seq == start,
            None => start == -1,
        }
    }

    /// Decide on the last look of a frame. A whole copy is taken over, and the
    /// number of live contacts in it is returned; a torn one leaves the reader
    /// as it was.
    pub fn finish(&mut self, start: i32, look: Option<i32>, contacts: Option<i32>) -> (live: Option<
        usize,
    >)
        ensures
            undisturbed(start as int, look) ==> final(self)@ == start && live is Some && live->0
                == live_contacts(contacts),
            !undisturbed(start as int, look) ==> final(self)@ == old(self)@ && live is None,
    {
        if !self.still_whole(start, look) {
            return None;
        }
        self.last = start;
        match contacts {
            Some(n) => if n > 0 {
                Some(n as usize)
            } else {
                Some(0)
            },
            None => Some(0),
        }
    }
}

fn is_even(n: i32) -> (even: bool)
    ensures
        even == (n % 2 == 0),
{
    n % 2 == 0
}

/// A history of the block, moment by moment: how often the sequence number has
/// been raised, and what each guarded slot holds.
pub struct History {
    pub raised: spec_fn(nat) -> nat,
    pub slot: spec_fn(nat, int) -> u32,
}

impl History {
    /// No guarded slot changes from moment `t` to the next.
    pub open spec fn slots_kept(self, t: nat) -> bool {
        forall|i: int| #[trigger] (self.slot)(t + 1, i) == (self.slot)(t, i)
    }

    /// The writer's only moves: raise the number by one and touch nothing else,
    /// or, while the number is odd, write into the block.
    pub open spec fn writer_move(self, t: nat) -> bool {
        ||| (self.raised)(t + 1) == (self.raised)(t) + 1 && self.slots_kept(t)
        ||| (self.raised)(t + 1) == (self.raised)(t) && ((self.raised)(t) % 2 == 1
            || self.slots_kept(t))
    }

    /// Every move is one of the single writer's.
    pub open spec fn single_writer(self) -> bool {
        forall|t: nat| #[trigger] self.writer_move(t)
    }
}

/// The sequence number after it was raised that often: it wraps as an `i32` does.
pub open spec fn number(raised: nat) -> int {
    let m = raised as int % 0x1_0000_0000;
    if m < 0x8000_0000 {
        m
    } else {
        m - 0x1_0000_0000
    }
}

proof fn lemma_raised_grows(h: History, t0: nat, t: nat)
    requires
        h.single_writer(),
        t0 <= t,
    ensures
        (h.raised)(t0) <= (h.raised)(t),
    decreases t - t0,
{
    if t0 < t {
        lemma_raised_grows(h, t0, (t - 1) as nat);
        assert(h.writer_move((t - 1) as nat));
    }
}

proof fn lemma_slots_stand_still(h: History, t0: nat, t: nat, t1: nat, i: int)
    requires
        h.single_writer(),
        t0 <= t <= t1,
        (h.raised)(t0) == (h.raised)(t1),
        (h.raised)(t0) % 2 == 0,
    ensures
        (h.slot)(t, i) == (h.slot)(t0, i),
    decreases t - t0,
{
    if t0 < t {
        let before = (t - 1) as nat;
        lemma_slots_stand_still(h, t0, before, t1, i);
        lemma_raised_grows(h, t0, before);
        lemma_raised_grows(h, before, t);
        lemma_raised_grows(h, t, t1);
        assert(h.writer_move(before));
        assert(h.slots_kept(before));
        assert((h.slot)(before + 1, i) == (h.slot)(before, i));
    }
}

/// A copy that is kept is one frame. Whatever the order and the moments in which
/// its slots were copied between the first look and the last, each holds what it
/// held at the first look: the writer was outside the block all the while.
/// (The number has not gone once round in between.)
pub proof fn law_kept_copy_is_one_frame(
    h: History,
    last: int,
    first: nat,
    end: nat,
    start: i32,
    look: Option<i32>,
    copied: spec_fn(int) -> nat,
    i: int,
)
    requires
        h.single_writer(),
        first <= end,
        (h.raised)(end) - (h.raised)(first) < 0x1_0000_0000,
        start == number((h.raised)(first)),
        look matches Some(seq) ==> seq == number((h.raised)(end)),
        readable(last, start as int),
        undisturbed(start as int, look),
        first <= copied(i) <= end,
    ensures
        (h.slot)(copied(i), i) == (h.slot)(first, i),
        (h.slot)(copied(i), i) == (h.slot)(end, i),
        (h.raised)(copied(i)) % 2 == 0,
{
    lemma_raised_grows(h, first, end);
    lemma_raised_grows(h, first, copied(i));
    lemma_raised_grows(h, copied(i), end);
    assert((h.raised)(first) == (h.raised)(end));
    lemma_slots_stand_still(h, first, copied(i), end, i);
    lemma_slots_stand_still(h, first, end, end, i);
}

/// A writer that stays outside the block does not cost a frame: a copy begun and
/// ended on the same number is kept.
pub proof fn law_quiet_copy_is_kept(last: int, start: i32)
    requires
        readable(last, start as int),
    ensures
        undisturbed(start as int, Some(start)),
{
}

/// A copy that the writer disturbed is dropped: once the number was raised, fewer
/// times than it takes to go round, no copy begun before is kept.
pub proof fn law_disturbed_copy_is_dropped(before: nat, after: nat, start: i32, look: i32)
    requires
        before < after < before + 0x1_0000_0000,
        start == number(before),
        look == number(after),
    ensures
        !undisturbed(start as int, Some(look)),
{
}

/// A failed look never passes for an undisturbed block.
pub proof fn law_failed_look_drops_the_copy(last: int, start: i32)
    requires
        readable(last, start as int),
    ensures
        !undisturbed(start as int, None),
{
}

/// A frame is applied once: having applied it, the reader does not start on the
/// same number again; nor does it ever start before the first publication.
pub proof fn law_nothing_is_applied_twice(start: i32)
    ensures
        !readable(start as int, start as int),
        !readable(start as int, number(0)),
{
}

/// The number is the count of raises, kept in 32 bits: it is an `i32`, it differs from
/// the count by whole turns, and it is odd exactly while the count is.
pub proof fn law_number_counts_the_raises(raised: nat)
    ensures
        i32::MIN <= number(raised) <= i32::MAX,
        (raised - number(raised)) % 0x1_0000_0000 == 0,
        number(raised) % 2 == raised as int % 2,
{
}

/// The newest frame is always read: whatever was applied last, and however often the
/// number was raised since, a writer that is outside the block has its frame copied,
/// unless that number was applied last or reads as nothing published.
pub proof fn law_newest_frame_is_read(last: int, raised: nat)
    requires
        raised % 2 == 0,
        number(raised) != 0,
        number(raised) != last,
    ensures
        readable(last, number(raised)),
{
}

/// The reader catches up from any distance: having applied one frame, it reads the
/// frame of any later publication, be it the next or the thousandth, until the number
/// has gone round.
pub proof fn law_reader_catches_up(applied: nat, now: nat)
    requires
        applied < now < applied + 0x1_0000_0000,
        now % 2 == 0,
        number(now) != 0,
    ensures
        readable(number(applied), number(now)),
{
    law_newest_frame_is_read(number(applied), now);
}

/// A writer inside the block is never read.
pub proof fn law_writer_inside_is_not_read(last: int, raised: nat)
    requires
        raised % 2 == 1,
    ensures
        !readable(last, number(raised)),
{
}

/// [`SnapshotReader::begin`] starts on the number that it saw, whichever it is, if that
/// is even, not zero and not the one applied last, and on no other; a failed look
/// starts nothing.
pub proof fn law_begin_starts_on_every_new_even_number(
    reader: SnapshotReader,
    look: Option<i32>,
    start: Option<i32>,
)
    requires
        call_ensures(SnapshotReader::begin, (&reader, look), start),
    ensures
        look is None ==> start is None,
        look matches Some(seq) ==> start == (if seq % 2 != 0 || seq == 0 || seq == reader@ {
            None
        } else {
            Some(seq)
        }),
{
}

/// [`SnapshotReader::still_whole`] keeps a copy exactly if the number still reads as it
/// did when the copy began.
pub proof fn law_copy_is_whole_on_the_same_number_alone(
    reader: SnapshotReader,
    start: i32,
    look: Option<i32>,
    whole: bool,
)
    requires
        call_ensures(SnapshotReader::still_whole, (&reader, start, look), whole),
    ensures
        look matches Some(seq) ==> (whole <==> seq == start),
        look is None && start != -1 ==> !whole,
{
}

/// [`SnapshotReader::finish`] takes a copy over exactly if the number still reads as it
/// did when the copy began: then it remembers that number and hands on the reported
/// contacts, all of them, a negative or missing count as none. Otherwise it changes
/// nothing.
pub proof fn law_finish_takes_over_whole_copies_alone()
    ensures
        forall|
            reader: &mut SnapshotReader,
            start: i32,
            look: Option<i32>,
            contacts: Option<i32>,
            live: Option<usize>,
        | #[trigger]
            call_ensures(SnapshotReader::finish, (reader, start, look, contacts), live) && start
                != -1 ==> if look == Some(start) {
                &&& (*final(reader))@ == start
                &&& live is Some
                &&& contacts matches Some(n) ==> n >= 0 ==> live->0 == n
                &&& contacts matches Some(n) ==> n < 0 ==> live->0 == 0
                &&& contacts is None ==> live->0 == 0
            } else {
                &&& (*final(reader))@ == (*reader)@
                &&& live is None
            },
{
}

} // verus!
