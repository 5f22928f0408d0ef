//! Software PWM for three LED lines with one countdown timer.
//!
//! The RGB PWM brightness scale is 100 steps, with each step taking 100 µs:
//! 10 ms per frame, 100 frames per second.

use vstd::prelude::*;

use crate::sort::sort_by_key;
use crate::util::{key_le, permutes, rearranges3, sort3_by_key};

verus! {

pub const FRAME_US: u32 = 10_000;

pub const STEP_US: u32 = FRAME_US / 100;

/// Timer delay while no frame is scheduled.
pub const IDLE_US: u32 = 10;

/// Duty steps in a whole frame.
pub const FRAME_STEPS: u8 = 100;

/// An RGB colour, each channel in `0..=255` (255 is fully on).
#[derive(Copy, Clone, Debug, PartialEq, Eq, Structural)]
pub struct Rgb {
    pub r: u8,
    pub g: u8,
    pub b: u8,
}

/// Duty steps for a channel level: `c * 100 / 255` rounded to the nearest step.
pub open spec fn duty_of(c: u8) -> u8 {
    ((200 * c as int + 255) / 510) as u8
}

/// Rounds a channel level to duty steps.
pub fn duty_steps(c: u8) -> (r: u8)
    ensures
        r == duty_of(c),
        r <= FRAME_STEPS,
        -255 <= 2 * (255 * r - 100 * c) <= 255,
{
    let d = (200 * (c as u32) + 255) / 510;
    assert(d <= 100) by (nonlinear_arith)
        requires
            d == (200 * (c as u32) + 255) / 510,
            c <= 255,
    ;
    assert(-255 <= 2 * (255 * d - 100 * c) <= 255) by (nonlinear_arith)
        requires
            d == (200 * (c as u32) + 255) / 510,
    ;
    d as u8
}

/// The pulse width of a single RGB color channel measured in duty steps:
/// the discrete form of the duty cycle percentage.
#[derive(Copy, Clone, Debug, PartialEq, Eq, Structural)]
pub struct RgbPulse {
    /// Colour line, or `None` for the end of the frame.
    pub channel: Option<usize>,
    /// Duty steps in `0..=100`.
    pub duty_steps: u8,
}

/// The pulse that ends every frame.
pub open spec fn sentinel() -> RgbPulse {
    RgbPulse { channel: None, duty_steps: FRAME_STEPS }
}

/// The three line pulses for `c`, in line order.
pub open spec fn line_pulses(c: Rgb) -> Seq<RgbPulse> {
    seq![
        RgbPulse { channel: Some(0), duty_steps: duty_of(c.r) },
        RgbPulse { channel: Some(1), duty_steps: duty_of(c.g) },
        RgbPulse { channel: Some(2), duty_steps: duty_of(c.b) },
    ]
}

/// Line pulses with their sentinel, as one frame: sorted by duty, each line once.
#[derive(Copy, Clone, Debug)]
pub struct RgbPulseFrame {
    pub items: [RgbPulse; 4],
    /// How many pulses have been handed out.
    pub index: usize,
}

impl RgbPulseFrame {
    /// The pulses are sorted by duty, end in the sentinel, and each line
    /// appears once with at most a whole frame of duty.
    pub open spec fn wf(self) -> bool {
        let s = self.items@;
        &&& self.index <= 4
        &&& s[3] == sentinel()
        &&& forall|i: int, j: int| 0 <= i < j < 4 ==> s[i].duty_steps <= s[j].duty_steps
        &&& forall|i: int| 0 <= i < 3 ==> s[i].channel is Some && s[i].channel->0 < 3
        &&& forall|i: int, j: int| 0 <= i < j < 3 ==> s[i].channel != s[j].channel
        &&& forall|i: int| 0 <= i < 4 ==> s[i].duty_steps <= FRAME_STEPS
    }

    /// `self` is a frame for colour `c` with no pulse handed out: the three
    /// line pulses of `c` sorted by duty, then the sentinel.
    pub open spec fn is_frame_of(self, c: Rgb) -> bool {
        &&& self.wf()
        &&& self.index == 0
        &&& rearranges3(self.items@.take(3), line_pulses(c))
    }

    /// The frame for `c`, with no pulse handed out yet.
    pub fn new(c: Rgb) -> (r: Self)
        ensures
            r.is_frame_of(c),
            r.items@[3] == sentinel(),
            forall|i: int, j: int|
                0 <= i < j < 4 ==> r.items@[i].duty_steps <= r.items@[j].duty_steps,
    {
        let mut three = [
            RgbPulse { channel: Some(0), duty_steps: duty_steps(c.r) },
            RgbPulse { channel: Some(1), duty_steps: duty_steps(c.g) },
            RgbPulse { channel: Some(2), duty_steps: duty_steps(c.b) },
        ];
        let ghost before = three@;
        assert(before =~= line_pulses(c));
        let key = |p: &RgbPulse| -> (k: u64)
            ensures
                k == p.duty_steps as u64,
            { p.duty_steps as u64 };
        sort3_by_key(&mut three, key);
        assert(key_le(key, three@[0], three@[1]));
        assert(key_le(key, three@[1], three@[2]));
        let items = [three[0], three[1], three[2], RgbPulse { channel: None, duty_steps: FRAME_STEPS }];
        proof {
            assert(items@.take(3) =~= three@);
            let (i, j, k) = choose|i: int, j: int, k: int|
                0 <= i < 3 && 0 <= j < 3 && 0 <= k < 3 && i != j && j != k && i != k
                    && three@[0] == before[i] && three@[1] == before[j] && three@[2] == before[k];
            assert(items@[0] == before[i] && items@[1] == before[j] && items@[2] == before[k]);
        }
        RgbPulseFrame { items, index: 0 }
    }

    /// Hands out the next pulse, if any is left.
    pub fn next_pulse(&mut self) -> (r: Option<RgbPulse>)
        requires
            old(self).index <= 4,
        ensures
            final(self).items == old(self).items,
            old(self).index < 4 ==> r == Some(old(self).items@[old(self).index as int])
                && final(self).index == old(self).index + 1,
            old(self).index == 4 ==> r is None && final(self).index == 4,
    {
        if self.index < 4 {
            let item = self.items[self.index];
            self.index += 1;
            Some(item)
        } else {
            None
        }
    }
}

/// A frame for `c` built with the general sort: the three line pulses
/// ordered by duty, then the sentinel.
pub fn new_frame(c: Rgb) -> (r: RgbPulseFrame)
    ensures
        r.index == 0,
        r.items@[3] == sentinel(),
        permutes(r.items@.take(3), line_pulses(c)),
        forall|i: int, j: int|
            0 <= i < j < 4 ==> r.items@[i].duty_steps <= r.items@[j].duty_steps,
{
    let mut three = [
        RgbPulse { channel: Some(0), duty_steps: duty_steps(c.r) },
        RgbPulse { channel: Some(1), duty_steps: duty_steps(c.g) },
        RgbPulse { channel: Some(2), duty_steps: duty_steps(c.b) },
    ];
    let ghost before = three@;
    assert(before =~= line_pulses(c));
    let key = |p: &RgbPulse| -> (k: u64)
        ensures
            k == p.duty_steps as u64,
        { p.duty_steps as u64 };
    sort_by_key(&mut three, key);
    proof {
        assert forall|m: int| 0 <= m < 3 implies (#[trigger] three@[m]).duty_steps
            <= FRAME_STEPS by {
            vstd::seq_lib::to_multiset_contains(three@, three@[m]);
            vstd::seq_lib::to_multiset_contains(before, three@[m]);
            assert(three@.contains(three@[m]));
        }
    }
    assert(key_le(key, three@[0], three@[1]));
    assert(key_le(key, three@[0], three@[2]));
    assert(key_le(key, three@[1], three@[2]));
    let items = [three[0], three[1], three[2], RgbPulse { channel: None, duty_steps: FRAME_STEPS }];
    assert(items@.take(3) =~= three@);
    RgbPulseFrame { items, index: 0 }
}

/// What one scheduler step does to the outputs, in this order: set all
/// three lines high (at a frame start), set one line low, arm the timer.
#[derive(Copy, Clone, Debug, PartialEq, Eq, Structural)]
pub struct Step {
    pub restart: bool,
    pub off: Option<usize>,
    pub timer_us: u32,
}

/// RGB Display and scheduler.
#[derive(Debug)]
pub struct RgbDisplay {
    /// Line switched on by the pulse handed out last, if any.
    pub current_pin: Option<usize>,
    /// Frame being played.
    pub schedule: RgbPulseFrame,
    /// Frame to start at the next frame boundary.
    pub next_schedule: Option<RgbPulseFrame>,
}

impl RgbDisplay {
    pub open spec fn wf(self) -> bool {
        &&& self.schedule.wf()
        &&& self.next_schedule matches Some(f) ==> f.wf() && f.index == 0
        &&& self.current_pin == if self.schedule.index == 0 {
            None
        } else {
            self.schedule.items@[self.schedule.index - 1].channel
        }
    }

    /// Hands out the next pulse of the frame being played: the line of the
    /// previous pulse goes low and the timer is armed for the pulse's duty.
    pub open spec fn hand_out(self, restart: bool) -> (RgbDisplay, Step) {
        let p = self.schedule.items@[self.schedule.index as int];
        (
            RgbDisplay {
                current_pin: p.channel,
                schedule: RgbPulseFrame { index: (self.schedule.index + 1) as usize, ..self.schedule },
                ..self
            },
            Step { restart, off: self.current_pin, timer_us: (p.duty_steps * STEP_US) as u32 },
        )
    }

    /// One scheduler step, as the new state and the action: the next pulse
    /// while the frame has one left; at the end of a frame the scheduled
    /// frame, if any, replaces it with all lines high and hands out its first
    /// pulse; with neither, a short wait and no line change.
    pub open spec fn spec_step(self) -> (RgbDisplay, Step) {
        if self.schedule.index < 4 {
            self.hand_out(false)
        } else {
            match self.next_schedule {
                Some(f) => RgbDisplay { schedule: f, next_schedule: None, ..self }.hand_out(true),
                None => (self, Step { restart: false, off: None, timer_us: IDLE_US }),
            }
        }
    }

    /// A scheduler with nothing to play: its steps only wait.
    pub fn new() -> (r: Self)
        ensures
            r.wf(),
            r.schedule.index == 4,
            r.next_schedule is None,
            r.current_pin is None,
    {
        let mut schedule = RgbPulseFrame::new(Rgb { r: 0, g: 0, b: 0 });
        schedule.index = 4;
        RgbDisplay { current_pin: None, schedule, next_schedule: None }
    }

    /// Set up a new schedule, to be started next frame.
    pub fn set(&mut self, c: Rgb)
        requires
            old(self).wf(),
        ensures
            final(self).wf(),
            final(self).next_schedule matches Some(f) && f.is_frame_of(c),
            final(self).schedule == old(self).schedule,
            final(self).current_pin == old(self).current_pin,
    {
        self.next_schedule = Some(RgbPulseFrame::new(c));
    }

    /// Returns true if the next schedule is set.
    pub fn is_scheduled(&self) -> (r: bool)
        ensures
            r == self.next_schedule is Some,
    {
        self.next_schedule.is_some()
    }

    /// Take the next frame update step. Called at startup
    /// and then from the timer interrupt handler.
    ///
    /// While the frame has pulses left, the next one is handed out: the line
    /// of the previous pulse goes low and the timer is armed for the pulse's
    /// duty. At the end of a frame a scheduled frame replaces it: all lines
    /// go high and its first pulse is handed out. With neither, the timer is
    /// armed for a short wait and no line changes.
    pub fn step(&mut self) -> (r: Step)
        requires
            old(self).wf(),
        ensures
            (*final(self), r) == old(self).spec_step(),
            final(self).wf(),
            r.off matches Some(l) ==> l < 3,
    {
        if self.schedule.index < 4 {
            self.advance(false)
        } else if let Some(schedule) = self.next_schedule.take() {
            self.schedule = schedule;
            self.advance(true)
        } else {
            // no schedule, delay a little
            Step { restart: false, off: None, timer_us: IDLE_US }
        }
    }

    /// Hands out the next pulse of the frame being played.
    fn advance(&mut self, restart: bool) -> (r: Step)
        requires
            old(self).schedule.wf(),
            old(self).schedule.index < 4,
            old(self).next_schedule matches Some(f) ==> f.wf() && f.index == 0,
            old(self).current_pin == if old(self).schedule.index == 0 {
                None
            } else {
                old(self).schedule.items@[old(self).schedule.index - 1].channel
            },
        ensures
            (*final(self), r) == old(self).hand_out(restart),
            final(self).wf(),
    {
        let off = self.current_pin;
        match self.schedule.next_pulse() {
            Some(pulse) => {
                assert(pulse.duty_steps <= FRAME_STEPS);
                self.current_pin = pulse.channel;
                Step { restart, off, timer_us: (pulse.duty_steps as u32) * STEP_US }
            },
            None => Step { restart, off, timer_us: IDLE_US },
        }
    }
}

/// A scheduled frame plays in duty order once the frame before it has
/// ended: four steps set all lines high, then switch the lines off one by one
/// in ascending duty, arming the timer at each line's duty and last at the
/// frame's end; the arms never decrease. After them the frame is over and
/// nothing else is scheduled.
pub proof fn lemma_frame_plays_in_duty_order(d: RgbDisplay)
    requires
        d.wf(),
        d.schedule.index == 4,
        d.next_schedule is Some,
    ensures
        ({
            let f = d.next_schedule->0;
            let (d1, s1) = d.spec_step();
            let (d2, s2) = d1.spec_step();
            let (d3, s3) = d2.spec_step();
            let (d4, s4) = d3.spec_step();
            &&& s1 == (Step { restart: true, off: None, timer_us: (f.items@[0].duty_steps * STEP_US) as u32 })
            &&& s2 == (Step { restart: false, off: f.items@[0].channel, timer_us: (f.items@[1].duty_steps * STEP_US) as u32 })
            &&& s3 == (Step { restart: false, off: f.items@[1].channel, timer_us: (f.items@[2].duty_steps * STEP_US) as u32 })
            &&& s4 == (Step { restart: false, off: f.items@[2].channel, timer_us: FRAME_US })
            &&& s1.timer_us <= s2.timer_us <= s3.timer_us <= s4.timer_us
            &&& d4.schedule.index == 4
            &&& d4.next_schedule is None
            &&& d4.current_pin is None
        }),
{
    let f = d.next_schedule->0;
    assert(f.items@[0].duty_steps <= f.items@[1].duty_steps);
    assert(f.items@[1].duty_steps <= f.items@[2].duty_steps);
    assert(f.items@[2].duty_steps <= f.items@[3].duty_steps);
    assert(f.items@[3].duty_steps <= FRAME_STEPS);
    assert(d.current_pin is None);
}

} // verus!
