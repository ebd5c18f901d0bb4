//! Level normalizer and gesture classifier for one sensing channel.

use vstd::prelude::*;

verus! {

/// Ticks after creation during which samples are ignored.
pub const WARMUP_TICKS: u32 = 100;

/// The calibration window must be wider than this before a level is defined.
pub const MIN_WINDOW: u32 = 64;

/// A held or released phase must last more than this many ticks before a new
/// decision is made.
pub const DEBOUNCE_TICKS: u32 = 100;

/// A hold that lasts more than this many ticks is a long press.
pub const LONG_TICKS: u32 = 2000;

/// The gesture reported for one tick.
#[derive(Clone, Copy, PartialEq, Eq, Structural, Debug)]
pub enum TouchState {
    Warmup,
    Idle,
    Short,
    Long,
}

/// A normalized level, kept exactly: its value is `1 - offset / width`.
#[derive(Clone, Copy, PartialEq, Eq, Structural, Debug)]
pub struct Level {
    pub offset: u32,
    pub width: u32,
}

impl Level {
    pub open spec fn wf(self) -> bool {
        MIN_WINDOW < self.width && self.offset <= self.width
    }

    /// The level lies below one half: `1 - offset / width < 1 / 2`.
    pub open spec fn spec_touched(self) -> bool {
        (self.width as int) < 2 * self.offset
    }

    pub fn touched(&self) -> (r: bool)
        requires
            self.wf(),
        ensures
            r == self.spec_touched(),
    {
        self.width - self.offset < self.offset
    }
}

/// Adds one to a counter that stops at the largest `u32`.
pub open spec fn saturating_inc(n: nat) -> nat {
    if n < u32::MAX {
        n + 1
    } else {
        n
    }
}

/// The mathematical state of a [`Channel`].
pub struct ChannelView {
    /// Ticks of warmup still to come.
    pub warmup: nat,
    /// Smallest sample seen since warmup ended.
    pub level_lo: nat,
    /// Largest sample seen since warmup ended.
    pub level_hi: nat,
    /// Whether the current phase is a held one.
    pub held: bool,
    /// The gesture emitted on the previous tick.
    pub last: TouchState,
    /// Saturating count of ticks in the current phase.
    pub counter: nat,
}

impl ChannelView {
    /// The state of a fresh channel.
    pub open spec fn initial() -> ChannelView {
        ChannelView {
            warmup: WARMUP_TICKS as nat,
            level_lo: u32::MAX as nat,
            level_hi: 0,
            held: false,
            last: TouchState::Idle,
            counter: 0,
        }
    }

    /// What holds of every state a channel can reach.
    pub open spec fn wf(self) -> bool {
        &&& self.warmup <= u32::MAX
        &&& self.level_lo <= u32::MAX
        &&& self.level_hi <= u32::MAX
        &&& self.counter <= u32::MAX
        // while no sample has been taken in, the window is still the widest
        &&& (self.warmup > 0 || self.last == TouchState::Warmup) ==> (self.level_lo
            == u32::MAX && self.level_hi == 0)
        &&& self.last == TouchState::Long ==> self.counter > LONG_TICKS
        &&& self.last == TouchState::Short ==> !self.held
    }

    /// The window's low end once `raw` is taken in.
    pub open spec fn lo_with(self, raw: u32) -> nat {
        if (raw as nat) < self.level_lo {
            raw as nat
        } else {
            self.level_lo
        }
    }

    /// The window's high end once `raw` is taken in.
    pub open spec fn hi_with(self, raw: u32) -> nat {
        if (raw as nat) > self.level_hi {
            raw as nat
        } else {
            self.level_hi
        }
    }

    /// A level is defined for `raw`: the widened window is wide enough.
    pub open spec fn resolves(self, raw: u32) -> bool {
        self.hi_with(raw) - self.lo_with(raw) > MIN_WINDOW
    }

    /// `raw` registers as a touch: `1 - (raw - lo) / (hi - lo) < 1 / 2`.
    pub open spec fn touches(self, raw: u32) -> bool {
        self.hi_with(raw) - self.lo_with(raw) < 2 * (raw - self.lo_with(raw))
    }

    /// The gesture emitted on the tick that reads `raw`.
    pub open spec fn gesture(self, raw: u32) -> TouchState {
        if self.warmup > 0 {
            TouchState::Warmup
        } else if !self.resolves(raw) {
            TouchState::Idle
        } else if self.counter <= DEBOUNCE_TICKS {
            self.last
        } else if self.touches(raw) {
            if self.held && self.counter > LONG_TICKS {
                TouchState::Long
            } else {
                TouchState::Idle
            }
        } else {
            if self.held && self.counter != 0 && self.counter <= LONG_TICKS {
                TouchState::Short
            } else {
                TouchState::Idle
            }
        }
    }

    /// The state after the tick that reads `raw`.
    pub open spec fn next(self, raw: u32) -> ChannelView {
        let g = self.gesture(raw);
        if self.warmup > 0 {
            ChannelView { warmup: (self.warmup - 1) as nat, last: g, ..self }
        } else {
            let lo = self.lo_with(raw);
            let hi = self.hi_with(raw);
            if !self.resolves(raw) {
                ChannelView { level_lo: lo, level_hi: hi, last: g, ..self }
            } else if self.counter <= DEBOUNCE_TICKS {
                ChannelView {
                    level_lo: lo,
                    level_hi: hi,
                    last: g,
                    counter: saturating_inc(self.counter),
                    ..self
                }
            } else {
                let touch = self.touches(raw);
                // a change of phase starts the count again
                let c = if self.held != touch {
                    0
                } else {
                    self.counter
                };
                ChannelView {
                    warmup: 0,
                    level_lo: lo,
                    level_hi: hi,
                    held: touch,
                    last: g,
                    counter: saturating_inc(c),
                }
            }
        }
    }

    /// The gestures emitted while reading `raws` in order.
    pub open spec fn outputs(self, raws: Seq<u32>) -> Seq<TouchState>
        decreases raws.len(),
    {
        if raws.len() == 0 {
            Seq::empty()
        } else {
            seq![self.gesture(raws[0])] + self.next(raws[0]).outputs(raws.drop_first())
        }
    }

    /// The state after reading `raws` in order.
    pub open spec fn after(self, raws: Seq<u32>) -> ChannelView
        decreases raws.len(),
    {
        if raws.len() == 0 {
            self
        } else {
            self.next(raws[0]).after(raws.drop_first())
        }
    }
}

/// Every tick keeps a channel's state well formed.
pub proof fn lemma_next_wf(v: ChannelView, raw: u32)
    requires
        v.wf(),
    ensures
        v.next(raw).wf(),
{
}

/// A well-formed state emits `Warmup` on exactly as many ticks as it has
/// warmup left, and on those first.
proof fn lemma_warmup_outputs(v: ChannelView, raws: Seq<u32>)
    requires
        v.wf(),
    ensures
        v.outputs(raws).len() == raws.len(),
        forall|i: int|
            0 <= i < raws.len() ==> (v.outputs(raws)[i] == TouchState::Warmup <==> i < v.warmup),
    decreases raws.len(),
{
    if raws.len() > 0 {
        let n = v.next(raws[0]);
        let rest = raws.drop_first();
        lemma_next_wf(v, raws[0]);
        lemma_warmup_outputs(n, rest);
        assert(v.warmup == 0 ==> v.gesture(raws[0]) != TouchState::Warmup);
        assert forall|i: int| 1 <= i < raws.len() implies v.outputs(raws)[i] == n.outputs(rest)[i
            - 1] by {}
    }
}

/// A fresh channel emits `Warmup` on the first hundred ticks, whatever it
/// reads, and never again after them.
pub proof fn lemma_warmup_ticks(raws: Seq<u32>)
    ensures
        forall|i: int|
            0 <= i < raws.len() ==> (ChannelView::initial().outputs(raws)[i]
                == TouchState::Warmup <==> i < WARMUP_TICKS),
{
    lemma_warmup_outputs(ChannelView::initial(), raws);
}

/// The calibration window only ever widens: its low end never rises and its
/// high end never falls, whatever is read.
pub proof fn lemma_window_monotonic(v: ChannelView, raws: Seq<u32>)
    ensures
        v.after(raws).level_lo <= v.level_lo,
        v.after(raws).level_hi >= v.level_hi,
    decreases raws.len(),
{
    if raws.len() > 0 {
        lemma_window_monotonic(v.next(raws[0]), raws.drop_first());
    }
}

/// Once warmup is over and the calibration window is wider than the minimum,
/// every later tick has a level, whatever is read before or on it.
pub proof fn lemma_wide_window_stays_resolved(v: ChannelView, raws: Seq<u32>, raw: u32)
    requires
        v.warmup == 0,
        v.level_lo + MIN_WINDOW < v.level_hi,
    ensures
        v.after(raws).warmup == 0,
        v.after(raws).level_lo + MIN_WINDOW < v.after(raws).level_hi,
        v.after(raws).resolves(raw),
    decreases raws.len(),
{
    if raws.len() > 0 {
        lemma_wide_window_stays_resolved(v.next(raws[0]), raws.drop_first(), raw);
    }
}

/// `Short` and `Long` are decided only once the current phase has lasted
/// more than the debounce time. The one exception is the repetition of a
/// `Short` on the ticks right after the release that decided it, when the
/// previous gesture is simply repeated.
pub proof fn lemma_no_gesture_before_debounce(v: ChannelView, raw: u32)
    requires
        v.wf(),
        !(v.last == TouchState::Short && v.counter <= DEBOUNCE_TICKS),
    ensures
        (v.gesture(raw) == TouchState::Short || v.gesture(raw) == TouchState::Long) ==> v.counter
            > DEBOUNCE_TICKS,
{
}

/// While a hold lasts past the long-press time, every tick on which the
/// touch still registers emits `Long`, and the hold goes on.
pub proof fn lemma_long_while_held(v: ChannelView, raw: u32)
    requires
        v.wf(),
        v.warmup == 0,
        v.held,
        v.counter > LONG_TICKS,
        v.resolves(raw),
        v.touches(raw),
    ensures
        v.gesture(raw) == TouchState::Long,
        v.next(raw).held,
        v.next(raw).counter > LONG_TICKS,
{
}

/// A release after a hold of more than the debounce time and at most the
/// long-press time emits `Short` and ends the hold. `Short` is otherwise
/// never decided: on any other tick that emits it, it repeats the previous
/// gesture within the debounce time that follows that release.
pub proof fn lemma_short_on_release(v: ChannelView, raw: u32)
    requires
        v.wf(),
    ensures
        (v.warmup == 0 && v.held && DEBOUNCE_TICKS < v.counter <= LONG_TICKS && v.resolves(raw)
            && !v.touches(raw)) ==> v.gesture(raw) == TouchState::Short,
        v.gesture(raw) == TouchState::Short ==> !v.next(raw).held,
        v.gesture(raw) == TouchState::Short ==> (v.held || (v.last == TouchState::Short
            && v.counter <= DEBOUNCE_TICKS)),
{
}

/// One sensing channel: its calibration window and its debounce state.
pub struct Channel {
    warmup: u32,
    level_lo: u32,
    level_hi: u32,
    last_state: bool,
    last_touch_state: TouchState,
    counter: u32,
}

impl View for Channel {
    type V = ChannelView;

    closed spec fn view(&self) -> ChannelView {
        ChannelView {
            warmup: self.warmup as nat,
            level_lo: self.level_lo as nat,
            level_hi: self.level_hi as nat,
            held: self.last_state,
            last: self.last_touch_state,
            counter: self.counter as nat,
        }
    }
}

impl Channel {
    pub fn new() -> (r: Channel)
        ensures
            r@ == ChannelView::initial(),
            r@.wf(),
    {
        Channel {
            warmup: WARMUP_TICKS,
            level_lo: u32::MAX,
            level_hi: 0,
            last_state: false,
            last_touch_state: TouchState::Idle,
            counter: 0,
        }
    }

    /// Takes `raw` into the calibration window and returns its level, if the
    /// window is wide enough for one.
    fn normalize(&mut self, raw: u32) -> (r: Option<Level>)
        ensures
            final(self)@ == (ChannelView {
                level_lo: old(self)@.lo_with(raw),
                level_hi: old(self)@.hi_with(raw),
                ..old(self)@
            }),
            r.is_some() == old(self)@.resolves(raw),
            r matches Some(l) ==> {
                &&& l.offset == raw - old(self)@.lo_with(raw)
                &&& l.width == old(self)@.hi_with(raw) - old(self)@.lo_with(raw)
                &&& l.wf()
                &&& l.spec_touched() == old(self)@.touches(raw)
            },
    {
        if raw < self.level_lo {
            self.level_lo = raw;
        }
        if raw > self.level_hi {
            self.level_hi = raw;
        }
        let window = self.level_hi - self.level_lo;
        if window > MIN_WINDOW {
            Some(Level { offset: raw - self.level_lo, width: window })
        } else {
            None
        }
    }

    fn count(&mut self)
        ensures
            final(self)@ == (ChannelView {
                counter: saturating_inc(old(self)@.counter),
                ..old(self)@
            }),
    {
        if self.counter < u32::MAX {
            self.counter = self.counter + 1;
        }
    }

    /// Smallest sample seen since warmup ended.
    pub fn level_lo(&self) -> (r: u32)
        ensures
            r == self@.level_lo,
    {
        self.level_lo
    }

    /// Largest sample seen since warmup ended.
    pub fn level_hi(&self) -> (r: u32)
        ensures
            r == self@.level_hi,
    {
        self.level_hi
    }

    /// Whether the current phase is a held one.
    pub fn held(&self) -> (r: bool)
        ensures
            r == self@.held,
    {
        self.last_state
    }

    /// Ticks counted in the current phase.
    pub fn counter(&self) -> (r: u32)
        ensures
            r == self@.counter,
    {
        self.counter
    }

    /// Classifies one raw sample and returns the gesture for this tick.
    pub fn state(&mut self, raw: u32) -> (r: TouchState)
        ensures
            r == old(self)@.gesture(raw),
            final(self)@ == old(self)@.next(raw),
            final(self)@.level_lo <= old(self)@.level_lo,
            final(self)@.level_hi >= old(self)@.level_hi,
            old(self)@.wf() ==> final(self)@.wf(),
    {
        let new_state;
        if self.warmup > 0 {
            self.warmup = self.warmup - 1;
            new_state = TouchState::Warmup;
        } else {
            match self.normalize(raw) {
                Some(level) => {
                    if self.counter > DEBOUNCE_TICKS {
                        if level.touched() {
                            if self.last_state {
                                new_state = if self.counter > LONG_TICKS {
                                    TouchState::Long
                                } else {
                                    TouchState::Idle
                                };
                            } else {
                                // a touch begins: count the hold from here
                                new_state = TouchState::Idle;
                                self.counter = 0;
                            }
                            self.last_state = true;
                            self.count();
                        } else {
                            if self.last_state {
                                // the finger is lifted
                                new_state = if self.counter != 0 && self.counter <= LONG_TICKS {
                                    TouchState::Short
                                } else {
                                    TouchState::Idle
                                };
                                self.counter = 0;
                            } else {
                                new_state = TouchState::Idle;
                            }
                            self.last_state = false;
                            self.count();
                        }
                    } else {
                        self.count();
                        new_state = self.last_touch_state;
                    }
                },
                None => {
                    new_state = TouchState::Idle;
                },
            }
        }
        self.last_touch_state = new_state;
        new_state
    }
}

} // verus!
