//! The HSV colour that the user edits, and which of its channels is being edited.

use vstd::prelude::*;

verus! {

/// The largest channel level: a level `x` stands for the fraction `x / LEVEL_MAX`.
pub const LEVEL_MAX: u16 = 0x3FFF;

/// What color channel is being manipulated.
/// Can convert to a [`Display`].
#[derive(Copy, Clone, Debug, PartialEq, Eq, Structural)]
pub enum State {
    H,
    S,
    V,
}

/// Direction in which the edited channel moves.
#[derive(Copy, Clone, Debug, PartialEq, Eq, Structural)]
pub enum Rotation {
    Prev,
    Next,
}

impl State {
    /// The channel after `self`: H, S, V, then H again.
    pub open spec fn spec_next(self) -> State {
        match self {
            State::H => State::S,
            State::S => State::V,
            State::V => State::H,
        }
    }

    /// The channel before `self`.
    pub open spec fn spec_prev(self) -> State {
        match self {
            State::H => State::V,
            State::S => State::H,
            State::V => State::S,
        }
    }

    /// The channel reached from `self` by one step in direction `dir`.
    pub open spec fn spec_rotate(self, dir: Rotation) -> State {
        match dir {
            Rotation::Prev => self.spec_prev(),
            Rotation::Next => self.spec_next(),
        }
    }

    pub fn next(&self) -> (r: Self)
        ensures
            r == self.spec_next(),
    {
        match self {
            State::H => State::S,
            State::S => State::V,
            State::V => State::H,
        }
    }

    pub fn prev(&self) -> (r: Self)
        ensures
            r == self.spec_prev(),
    {
        match self {
            State::H => State::V,
            State::S => State::H,
            State::V => State::S,
        }
    }
}

impl Default for State {
    fn default() -> (r: Self)
        ensures
            r == State::H,
    {
        State::H
    }
}

/// Three steps in one direction come back to the start, and a step forward
/// followed by a step back changes nothing.
pub proof fn lemma_rotation_cycles(s: State)
    ensures
        s.spec_next().spec_next().spec_next() == s,
        s.spec_prev().spec_prev().spec_prev() == s,
        s.spec_next().spec_prev() == s,
        s.spec_prev().spec_next() == s,
{
}

/// 5x5 display buffer for the BBC Micro:Bit V2.
pub type Display = [[u8; 5]; 5];

pub const DISPLAY_H: Display = [
    [0, 1, 0, 1, 0],
    [0, 1, 0, 1, 0],
    [0, 1, 1, 1, 0],
    [0, 1, 0, 1, 0],
    [0, 1, 0, 1, 0],
];

pub const DISPLAY_S: Display = [
    [0, 1, 1, 1, 0],
    [0, 1, 0, 0, 0],
    [0, 1, 1, 1, 0],
    [0, 0, 0, 1, 0],
    [0, 1, 1, 1, 0],
];

pub const DISPLAY_V: Display = [
    [0, 1, 0, 1, 0],
    [0, 1, 0, 1, 0],
    [0, 1, 0, 1, 0],
    [0, 1, 0, 1, 0],
    [0, 0, 1, 0, 0],
];

/// The pattern shown while channel `s` is being edited.
pub open spec fn display_of(s: State) -> Display {
    match s {
        State::H => DISPLAY_H,
        State::S => DISPLAY_S,
        State::V => DISPLAY_V,
    }
}

impl From<State> for Display {
    fn from(s: State) -> (r: Self) {
        match s {
            State::H => DISPLAY_H,
            State::S => DISPLAY_S,
            State::V => DISPLAY_V,
        }
    }
}

impl vstd::std_specs::convert::FromSpecImpl<State> for Display {
    open spec fn obeys_from_spec() -> bool {
        true
    }

    open spec fn from_spec(s: State) -> Display {
        display_of(s)
    }
}

/// Level of a potentiometer sample: the sample clamped to `0..=LEVEL_MAX`.
pub open spec fn level_of_sample(raw: i16) -> u16 {
    if raw < 0 {
        0
    } else if raw > LEVEL_MAX as i16 {
        LEVEL_MAX
    } else {
        raw as u16
    }
}

/// Clamps a potentiometer sample into `0..=LEVEL_MAX`.
pub fn level_from_sample(raw: i16) -> (r: u16)
    ensures
        r == level_of_sample(raw),
        r <= LEVEL_MAX,
{
    if raw < 0 {
        0
    } else if raw > LEVEL_MAX as i16 {
        LEVEL_MAX
    } else {
        raw as u16
    }
}

/// An HSV colour, each channel a level in `0..=LEVEL_MAX`, and the channel
/// that is being edited.
#[derive(Copy, Clone, Debug, PartialEq, Eq, Structural)]
pub struct HsvColor {
    pub h: u16,
    pub s: u16,
    pub v: u16,
    pub state: State,
}

impl HsvColor {
    /// Every channel is within its range.
    pub open spec fn wf(self) -> bool {
        self.h <= LEVEL_MAX && self.s <= LEVEL_MAX && self.v <= LEVEL_MAX
    }

    /// The level of the channel being edited.
    pub open spec fn current(self) -> u16 {
        match self.state {
            State::H => self.h,
            State::S => self.s,
            State::V => self.v,
        }
    }

    /// `self` with the channel being edited set to `x`.
    pub open spec fn with_current(self, x: u16) -> HsvColor {
        match self.state {
            State::H => HsvColor { h: x, ..self },
            State::S => HsvColor { s: x, ..self },
            State::V => HsvColor { v: x, ..self },
        }
    }

    /// Black, with the hue being edited.
    pub fn new() -> (r: Self)
        ensures
            r == (HsvColor { h: 0, s: 0, v: 0, state: State::H }),
            r.wf(),
    {
        HsvColor { h: 0, s: 0, v: 0, state: State::default() }
    }

    /// The pattern that tells which channel is being edited.
    pub fn to_display(&self) -> (r: Display)
        ensures
            r == display_of(self.state),
    {
        Display::from(self.state)
    }

    /// Sets the channel being edited to `v`.
    pub fn set_current(&mut self, v: u16)
        requires
            old(self).wf(),
            v <= LEVEL_MAX,
        ensures
            *final(self) == old(self).with_current(v),
            final(self).wf(),
    {
        self.with(|x: u16| -> (r: u16)
            ensures
                r == v,
            { v });
    }

    /// Replaces the channel being edited by what `f` makes of it.
    pub fn with<F: Fn(u16) -> u16>(&mut self, f: F)
        requires
            old(self).wf(),
            f.requires((old(self).current(),)),
            forall|x: u16, y: u16| f.ensures((x,), y) ==> y <= LEVEL_MAX,
        ensures
            f.ensures((old(self).current(),), final(self).current()),
            *final(self) == old(self).with_current(final(self).current()),
            final(self).wf(),
    {
        match self.state {
            State::H => self.h = f(self.h),
            State::S => self.s = f(self.s),
            State::V => self.v = f(self.v),
        }
    }

    /// Moves the editing to the next or previous channel.
    pub fn rotate(&mut self, dir: Rotation)
        ensures
            *final(self) == (HsvColor { state: old(self).state.spec_rotate(dir), ..*old(self) }),
    {
        self.state = match dir {
            Rotation::Prev => self.state.prev(),
            Rotation::Next => self.state.next(),
        };
    }
}

impl Default for HsvColor {
    fn default() -> (r: Self)
        ensures
            r == (HsvColor { h: 0, s: 0, v: 0, state: State::H }),
    {
        HsvColor::new()
    }
}

} // verus!
