//! The ramped on / off / fade state machine of one dimmable light.

use vstd::prelude::*;
use crate::channel::TouchState;

verus! {

/// Idle ticks per one-step change of brightness while ramping.
pub const DIM_DIVISOR: u16 = 512;

/// Full brightness.
pub const FULL: u8 = 255;

/// Where the light stands in its ramp.
#[derive(Clone, Copy, PartialEq, Eq, Structural, Debug)]
pub enum LightState {
    On,
    Off,
    Rising,
    Falling,
}

/// The mathematical state of a [`Light`].
pub struct LightView {
    pub state: LightState,
    /// The brightness last sent to the light.
    pub brightness: u8,
    /// Idle ticks counted towards the next ramp step.
    pub sub_count: nat,
    /// The gesture processed on the previous tick.
    pub last: TouchState,
}

impl LightView {
    /// The state of a fresh light: off and dark.
    pub open spec fn initial() -> LightView {
        LightView { state: LightState::Off, brightness: 0, sub_count: 0, last: TouchState::Warmup }
    }

    pub open spec fn wf(self) -> bool {
        self.sub_count < DIM_DIVISOR
    }

    /// One ramp step, on the tick where the sub-tick count reaches the divisor.
    pub open spec fn ramp_step(self) -> LightView {
        match self.state {
            LightState::Rising => {
                let b: u8 = if self.brightness < FULL {
                    (self.brightness + 1) as u8
                } else {
                    FULL
                };
                LightView {
                    state: if b == FULL {
                        LightState::On
                    } else {
                        LightState::Rising
                    },
                    brightness: b,
                    ..self
                }
            },
            LightState::Falling => {
                let b: u8 = if self.brightness > 0 {
                    (self.brightness - 1) as u8
                } else {
                    0
                };
                LightView {
                    state: if b == 0 {
                        LightState::Off
                    } else {
                        LightState::Falling
                    },
                    brightness: b,
                    ..self
                }
            },
            _ => self,
        }
    }

    /// The state after processing gesture `g`, before `g` is recorded as the
    /// last gesture.
    pub open spec fn react(self, g: TouchState) -> LightView {
        match g {
            TouchState::Idle => {
                if self.sub_count + 1 >= DIM_DIVISOR {
                    LightView { sub_count: 0, ..self.ramp_step() }
                } else {
                    LightView { sub_count: self.sub_count + 1, ..self }
                }
            },
            TouchState::Long => {
                if self.last == TouchState::Long {
                    self
                } else if self.state == LightState::Off {
                    LightView { state: LightState::On, brightness: FULL, ..self }
                } else {
                    LightView { state: LightState::Off, brightness: 0, ..self }
                }
            },
            TouchState::Short => {
                match self.state {
                    LightState::Off => LightView {
                        state: LightState::Rising,
                        brightness: 0,
                        sub_count: 0,
                        ..self
                    },
                    LightState::On => LightView {
                        state: LightState::Falling,
                        brightness: FULL,
                        sub_count: 0,
                        ..self
                    },
                    _ => self,
                }
            },
            TouchState::Warmup => self,
        }
    }

    /// The state after processing gesture `g`.
    pub open spec fn next(self, g: TouchState) -> LightView {
        LightView { last: g, ..self.react(g) }
    }

    /// Whether processing `g` sends a brightness to the light.
    pub open spec fn writes(self, g: TouchState) -> bool {
        match g {
            TouchState::Idle => self.sub_count + 1 >= DIM_DIVISOR && (self.state
                == LightState::Rising || self.state == LightState::Falling),
            TouchState::Long => self.last != TouchState::Long,
            TouchState::Short => self.state == LightState::Off || self.state == LightState::On,
            TouchState::Warmup => false,
        }
    }
}

/// Every gesture keeps a light's state well formed, and its brightness within
/// `[0, 255]`. On an `Idle` tick the brightness changes only when the sub-tick
/// count has just reached the divisor while a ramp is under way.
pub proof fn lemma_idle_keeps_brightness(v: LightView, g: TouchState)
    requires
        v.wf(),
    ensures
        v.next(g).wf(),
        0 <= v.next(g).brightness <= FULL,
        (g == TouchState::Idle && v.next(g).brightness != v.brightness) ==> (v.sub_count + 1
            == DIM_DIVISOR && (v.state == LightState::Rising || v.state == LightState::Falling)),
{
}

/// A run of `Long` gestures switches the light once: the second and third
/// leave it as the first did, and from `Off` the first turns it on unless the
/// previous gesture was already `Long`.
pub proof fn lemma_long_toggles_once(v: LightView)
    ensures
        v.next(TouchState::Long).next(TouchState::Long) == v.next(TouchState::Long),
        v.next(TouchState::Long).next(TouchState::Long).next(TouchState::Long) == v.next(
            TouchState::Long,
        ),
        (v.state == LightState::Off && v.last != TouchState::Long) ==> v.next(
            TouchState::Long,
        ).state == LightState::On,
{
}

/// A `Short` during a ramp changes nothing but the recorded last gesture:
/// the ramp is not restarted.
pub proof fn lemma_short_ignored_while_ramping(v: LightView)
    requires
        v.state == LightState::Rising || v.state == LightState::Falling,
    ensures
        v.next(TouchState::Short) == (LightView { last: TouchState::Short, ..v }),
{
}

/// One dimmable light. It does not talk to the fixture itself: each call of
/// [`Light::process`] hands back the brightness to send, if any.
pub struct Light {
    state: LightState,
    light_level: u8,
    sub_count: u16,
    last_touch_state: TouchState,
}

impl View for Light {
    type V = LightView;

    closed spec fn view(&self) -> LightView {
        LightView {
            state: self.state,
            brightness: self.light_level,
            sub_count: self.sub_count as nat,
            last: self.last_touch_state,
        }
    }
}

impl Light {
    pub fn new() -> (r: Light)
        ensures
            r@ == LightView::initial(),
            r@.wf(),
    {
        Light { state: LightState::Off, light_level: 0, sub_count: 0, last_touch_state: TouchState::Warmup }
    }

    fn off(&mut self)
        ensures
            final(self)@ == (LightView { state: LightState::Off, brightness: 0, ..old(self)@ }),
    {
        self.light_level = 0;
        self.state = LightState::Off;
    }

    fn on(&mut self)
        ensures
            final(self)@ == (LightView { state: LightState::On, brightness: FULL, ..old(self)@ }),
    {
        self.light_level = FULL;
        self.state = LightState::On;
    }

    /// Raises the brightness one step, stopping at full; reaching full turns
    /// the light on.
    fn increment(&mut self)
        ensures
            final(self)@.brightness == (if old(self)@.brightness < FULL {
                (old(self)@.brightness + 1) as u8
            } else {
                FULL
            }),
            final(self)@.state == (if final(self)@.brightness == FULL {
                LightState::On
            } else {
                old(self)@.state
            }),
            final(self)@.sub_count == old(self)@.sub_count,
            final(self)@.last == old(self)@.last,
    {
        if self.light_level < FULL {
            self.light_level = self.light_level + 1;
        }
        if self.light_level == FULL {
            self.state = LightState::On;
        }
    }

    /// Lowers the brightness one step, stopping at zero; reaching zero turns
    /// the light off.
    fn decrement(&mut self)
        ensures
            final(self)@.brightness == (if old(self)@.brightness > 0 {
                (old(self)@.brightness - 1) as u8
            } else {
                0
            }),
            final(self)@.state == (if final(self)@.brightness == 0 {
                LightState::Off
            } else {
                old(self)@.state
            }),
            final(self)@.sub_count == old(self)@.sub_count,
            final(self)@.last == old(self)@.last,
    {
        if self.light_level > 0 {
            self.light_level = self.light_level - 1;
        }
        if self.light_level == 0 {
            self.state = LightState::Off;
        }
    }

    /// Processes the gesture of one tick. Returns the brightness to send to
    /// the light, on the ticks where one is sent.
    pub fn process(&mut self, touch_state: TouchState) -> (r: Option<u8>)
        requires
            old(self)@.wf(),
        ensures
            final(self)@ == old(self)@.next(touch_state),
            final(self)@.wf(),
            r == (if old(self)@.writes(touch_state) {
                Some(final(self)@.brightness)
            } else {
                None
            }),
    {
        let mut written = false;
        match touch_state {
            TouchState::Idle => {
                self.sub_count = self.sub_count + 1;
                if self.sub_count >= DIM_DIVISOR {
                    match self.state {
                        LightState::Rising => {
                            self.increment();
                            written = true;
                        },
                        LightState::Falling => {
                            self.decrement();
                            written = true;
                        },
                        LightState::Off | LightState::On => {},
                    }
                    self.sub_count = 0;
                }
            },
            // a long touch switches at once, on its first tick only
            TouchState::Long => {
                if self.last_touch_state != TouchState::Long {
                    match self.state {
                        LightState::Off => self.on(),
                        LightState::On | LightState::Rising | LightState::Falling => self.off(),
                    }
                    written = true;
                }
            },
            // a short touch starts a ramp, unless one is under way
            TouchState::Short => match self.state {
                LightState::Off => {
                    self.light_level = 0;
                    self.sub_count = 0;
                    self.state = LightState::Rising;
                    written = true;
                },
                LightState::On => {
                    self.light_level = FULL;
                    self.sub_count = 0;
                    self.state = LightState::Falling;
                    written = true;
                },
                LightState::Rising | LightState::Falling => {},
            },
            TouchState::Warmup => {},
        }
        self.last_touch_state = touch_state;
        if written {
            Some(self.light_level)
        } else {
            None
        }
    }

    pub fn light_state(&self) -> (r: LightState)
        ensures
            r == self@.state,
    {
        self.state
    }

    pub fn brightness(&self) -> (r: u8)
        ensures
            r == self@.brightness,
    {
        self.light_level
    }

    pub fn sub_count(&self) -> (r: u16)
        ensures
            r == self@.sub_count,
    {
        self.sub_count
    }
}

} // verus!
