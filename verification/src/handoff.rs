//! The rotation of the one frame buffer between the protocol task and the
//! LED task.
//!
//! Two queues of one slot each carry the buffer: `DISPLAY` from the protocol
//! task to the LED task, together with the number of LEDs to show, and
//! `RETURN` back. A task that finds its queue empty, or the queue it sends to
//! full, waits. At boot the buffer lies in `RETURN`.

use vstd::prelude::*;

verus! {

/// Where the buffer is.
#[derive(Clone, Copy, Debug, PartialEq, Eq, Structural)]
pub struct Rotation {
    /// `RETURN` holds the buffer.
    pub in_return: bool,
    /// `DISPLAY` holds the buffer, with this number of LEDs to show.
    pub in_display: Option<usize>,
    /// The protocol task holds the buffer.
    pub with_protocol: bool,
    /// The LED task holds the buffer.
    pub with_led_task: bool,
}

/// The four moves of the buffer.
#[derive(Clone, Copy, Debug, PartialEq, Eq, Structural)]
pub enum Move {
    /// The protocol task takes the buffer from `RETURN`.
    Acquire,
    /// The protocol task puts the buffer into `DISPLAY`, to show `leds` LEDs.
    Submit { leds: usize },
    /// The LED task takes the buffer from `DISPLAY`.
    Receive,
    /// The LED task puts the buffer into `RETURN`.
    GiveBack,
}

/// One if `b`, else zero.
pub open spec fn count(b: bool) -> int {
    if b {
        1
    } else {
        0
    }
}

impl Rotation {
    /// The rotation at boot: the buffer lies in `RETURN`.
    pub open spec fn spec_boot() -> Rotation {
        Rotation { in_return: true, in_display: None, with_protocol: false, with_led_task: false }
    }

    /// Number of places that hold a buffer.
    pub open spec fn owners(self) -> int {
        count(self.in_return) + count(self.in_display is Some) + count(self.with_protocol) + count(
            self.with_led_task,
        )
    }

    /// Number of buffers that lie in the two queues.
    pub open spec fn queued(self) -> int {
        count(self.in_return) + count(self.in_display is Some)
    }

    /// The buffer is in exactly one place.
    pub open spec fn single_owner(self) -> bool {
        self.owners() == 1
    }

    /// Whether the task that makes the move `m` can go on, or has to wait.
    pub open spec fn enabled(self, m: Move) -> bool {
        match m {
            Move::Acquire => self.in_return,
            Move::Submit { .. } => self.with_protocol && self.in_display is None,
            Move::Receive => self.in_display is Some,
            Move::GiveBack => self.with_led_task && !self.in_return,
        }
    }

    /// The rotation after the move `m`. A move that has to wait changes nothing.
    pub open spec fn spec_step(self, m: Move) -> Rotation {
        if !self.enabled(m) {
            self
        } else {
            match m {
                Move::Acquire => Rotation { in_return: false, with_protocol: true, ..self },
                Move::Submit { leds } => Rotation {
                    with_protocol: false,
                    in_display: Some(leds),
                    ..self
                },
                Move::Receive => Rotation { in_display: None, with_led_task: true, ..self },
                Move::GiveBack => Rotation { with_led_task: false, in_return: true, ..self },
            }
        }
    }

    /// The rotation after the moves `moves`, made in order from boot.
    pub open spec fn spec_run(moves: Seq<Move>) -> Rotation
        decreases moves.len(),
    {
        if moves.len() == 0 {
            Rotation::spec_boot()
        } else {
            Rotation::spec_run(moves.drop_last()).spec_step(moves.last())
        }
    }

    /// Boots the rotation.
    pub fn boot() -> (r: Rotation)
        ensures
            r == Rotation::spec_boot(),
            r.single_owner(),
    {
        Rotation { in_return: true, in_display: None, with_protocol: false, with_led_task: false }
    }

    /// Makes the move `m`, if the task need not wait, and says whether it did.
    pub fn step(&mut self, m: Move) -> (moved: bool)
        ensures
            moved == old(self).enabled(m),
            *final(self) == old(self).spec_step(m),
            old(self).single_owner() ==> final(self).single_owner(),
    {
        match m {
            Move::Acquire => {
                if self.in_return {
                    self.in_return = false;
                    self.with_protocol = true;
                    true
                } else {
                    false
                }
            },
            Move::Submit { leds } => {
                if self.with_protocol && self.in_display.is_none() {
                    self.with_protocol = false;
                    self.in_display = Some(leds);
                    true
                } else {
                    false
                }
            },
            Move::Receive => {
                if self.in_display.is_some() {
                    self.in_display = None;
                    self.with_led_task = true;
                    true
                } else {
                    false
                }
            },
            Move::GiveBack => {
                if self.with_led_task && !self.in_return {
                    self.with_led_task = false;
                    self.in_return = true;
                    true
                } else {
                    false
                }
            },
        }
    }

    /// The number of LEDs that waits in `DISPLAY`.
    pub fn displayed(&self) -> (leds: Option<usize>)
        ensures
            leds == self.in_display,
    {
        self.in_display
    }
}

/// A move hands the one buffer on: it neither makes a second one nor loses
/// the first.
pub proof fn lemma_step_keeps_single_owner(r: Rotation, m: Move)
    requires
        r.single_owner(),
    ensures
        r.spec_step(m).single_owner(),
{
}

/// Whatever the two tasks do, and in whatever order, the buffer is in
/// exactly one place: with one of the tasks or in one of the queues.
pub proof fn lemma_single_owner_always(moves: Seq<Move>)
    ensures
        Rotation::spec_run(moves).single_owner(),
    decreases moves.len(),
{
    if moves.len() > 0 {
        lemma_single_owner_always(moves.drop_last());
        lemma_step_keeps_single_owner(Rotation::spec_run(moves.drop_last()), moves.last());
    }
}

/// Whatever the two tasks do, the two queues never hold a buffer at the same
/// time; and while no task holds the buffer, the queues hold exactly one.
pub proof fn lemma_queues_share_one_buffer(moves: Seq<Move>)
    ensures
        !(Rotation::spec_run(moves).in_return && Rotation::spec_run(moves).in_display is Some),
        Rotation::spec_run(moves).queued() <= 1,
        !Rotation::spec_run(moves).with_protocol && !Rotation::spec_run(moves).with_led_task
            ==> Rotation::spec_run(moves).queued() == 1,
{
    lemma_single_owner_always(moves);
}

/// Frames go one at a time: while a frame waits in `DISPLAY` or is being
/// shown, the protocol task cannot submit the next one.
pub proof fn lemma_one_frame_in_flight(r: Rotation, leds: usize)
    requires
        r.single_owner(),
        r.in_display is Some || r.with_led_task,
    ensures
        !r.enabled(Move::Submit { leds }),
        !r.enabled(Move::Acquire),
{
}

/// From a rotation with one buffer, the moves of one frame can be made one
/// after the other without waiting, and bring the buffer back to `RETURN`.
pub proof fn lemma_frame_cycle(leds: usize)
    ensures
        ({
            let r0 = Rotation::spec_boot();
            let r1 = r0.spec_step(Move::Acquire);
            let r2 = r1.spec_step(Move::Submit { leds });
            let r3 = r2.spec_step(Move::Receive);
            let r4 = r3.spec_step(Move::GiveBack);
            &&& r0.enabled(Move::Acquire)
            &&& r1.enabled(Move::Submit { leds })
            &&& r2.enabled(Move::Receive)
            &&& r2.in_display == Some(leds)
            &&& r3.enabled(Move::GiveBack)
            &&& r4 == r0
        }),
{
}

} // verus!
