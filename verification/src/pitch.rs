//! The pitch-bend seek controller: a bend held off center seeks in its
//! direction, the faster the farther it is held.
use crate::midi::U14_MAX;
use vstd::prelude::*;

verus! {

/// The rest position of the pitch-bend wheel.
pub const U14_MIDDLE: u16 = 8192;

/// The delay, in microseconds, that a delay input of the whole 14-bit range
/// would give: half a second.
pub const FULL_DELAY_MICROS: u64 = 500_000;

/// The direction of a seek.
#[derive(Clone, Copy, Debug, PartialEq, Eq, Structural)]
pub enum Seek {
    Backward,
    Forward,
}

impl Seek {
    /// The name of the key sequence that performs the seek.
    pub open spec fn key_name(self) -> Seq<char> {
        match self {
            Seek::Backward => "Left"@,
            Seek::Forward => "Right"@,
        }
    }

    /// The key sequence that performs the seek.
    pub fn keysequence(self) -> (keysequence: &'static str)
        ensures
            keysequence@ == self.key_name(),
    {
        match self {
            Seek::Backward => "Left",
            Seek::Forward => "Right",
        }
    }
}

/// The side of the center that a bend is on, if any: above it seeks forward,
/// below it backward, and the center itself neither.
pub open spec fn direction(value: nat) -> Option<Seek> {
    if value > U14_MIDDLE {
        Some(Seek::Forward)
    } else if value < U14_MIDDLE {
        Some(Seek::Backward)
    } else {
        None
    }
}

/// How far a bend is from the center, on either side.
pub open spec fn deviation(value: nat) -> nat {
    if value > U14_MIDDLE {
        (value - U14_MIDDLE) as nat
    } else {
        (U14_MIDDLE - value) as nat
    }
}

/// What the delay is computed from: the distance of the bend from the
/// extreme of its side, so that a bend pinned at either end gives zero.
pub open spec fn delay_input(value: nat) -> nat {
    if value > U14_MIDDLE {
        (U14_MAX - value) as nat
    } else {
        value
    }
}

/// The least time between two seeks, in microseconds: half a second, scaled
/// by the delay input over the 14-bit range and rounded down.
pub open spec fn seek_delay_micros(delay_input: nat) -> nat {
    FULL_DELAY_MICROS as nat * delay_input / U14_MAX as nat
}

/// What the controller remembers from cycle to cycle.
pub struct PitchState {
    /// The last pitch bend that was heard.
    pub value: nat,
    /// The time of the last seek, in microseconds on the caller's clock.
    pub last_fire_time: nat,
}

impl PitchState {
    /// The value is a 14-bit quantity.
    pub open spec fn wf(self) -> bool {
        self.value <= U14_MAX
    }

    /// The state after the messages of a cycle: a new bend replaces the
    /// value, and without one the value stays.
    pub open spec fn hear(self, latest: Option<u16>) -> PitchState {
        match latest {
            Some(value) => PitchState { value: value as nat, ..self },
            None => self,
        }
    }

    /// The rate limit: more time than the delay has passed since the last
    /// seek.
    pub open spec fn due(self, delay_input: nat, now: nat) -> bool {
        now - self.last_fire_time > seek_delay_micros(delay_input)
    }

    /// The state after a seek at `now`.
    pub open spec fn fired(self, now: nat) -> PitchState {
        PitchState { last_fire_time: now, ..self }
    }

    /// The seek that the remembered bend asks for at `now`, if the rate
    /// limit lets one through.
    pub open spec fn seek(self, now: nat) -> Option<Seek> {
        if self.due(delay_input(self.value), now) {
            direction(self.value)
        } else {
            None
        }
    }

    /// The state after the rate limit was tried at `now`: only a seek moves the
    /// time of the last one.
    pub open spec fn tick(self, now: nat) -> PitchState {
        if self.seek(now) is Some {
            self.fired(now)
        } else {
            self
        }
    }

    /// The seek that one cycle emits.
    pub open spec fn emits(self, latest: Option<u16>, now: nat) -> Option<Seek> {
        self.hear(latest).seek(now)
    }

    /// The state after one cycle.
    pub open spec fn step(self, latest: Option<u16>, now: nat) -> PitchState {
        self.hear(latest).tick(now)
    }
}

/// Computes the least time between two seeks for a delay input.
pub fn seek_delay(delay_input: u16) -> (micros: u64)
    ensures
        micros == seek_delay_micros(delay_input as nat),
{
    FULL_DELAY_MICROS * (delay_input as u64) / (U14_MAX as u64)
}

/// The controller of the pitch-bend seek.
pub struct PitchSeekController {
    value: u16,
    last_fire_time: u64,
}

impl View for PitchSeekController {
    type V = PitchState;

    closed spec fn view(&self) -> PitchState {
        PitchState { value: self.value as nat, last_fire_time: self.last_fire_time as nat }
    }
}

impl PitchSeekController {
    #[verifier::type_invariant]
    spec fn value_is_u14(self) -> bool {
        self.value <= U14_MAX
    }

    /// A controller at rest: the bend at the center, the last seek at `now`.
    pub fn new(now: u64) -> (controller: PitchSeekController)
        ensures
            controller@ == (PitchState { value: U14_MIDDLE as nat, last_fire_time: now as nat }),
    {
        PitchSeekController { value: U14_MIDDLE, last_fire_time: now }
    }

    /// The last pitch bend that was heard.
    pub fn value(&self) -> (value: u16)
        ensures
            value == self@.value,
            self@.wf(),
    {
        proof {
            use_type_invariant(self);
        }
        self.value
    }

    /// The time of the last seek.
    pub fn last_fire_time(&self) -> (time: u64)
        ensures
            time == self@.last_fire_time,
    {
        self.last_fire_time
    }

    /// Tries the rate limit at `now` for a delay input, and records the seek
    /// if the limit lets it through.
    pub fn should_seek_now(&mut self, seek_delay: u16, now: u64) -> (fire: bool)
        ensures
            fire == old(self)@.due(seek_delay as nat, now as nat),
            final(self)@ == if fire {
                old(self)@.fired(now as nat)
            } else {
                old(self)@
            },
    {
        proof {
            use_type_invariant(&*self);
        }
        let delay: u64 = self::seek_delay(seek_delay);
        if now > self.last_fire_time && now - self.last_fire_time > delay {
            self.last_fire_time = now;
            return true;
        }
        false
    }

    /// Runs one cycle: takes the pitch bend of the cycle, if there was one,
    /// and says which seek to perform now, if any.
    pub fn update(&mut self, latest: Option<u16>, now: u64) -> (seek: Option<Seek>)
        requires
            latest matches Some(value) ==> value <= U14_MAX,
        ensures
            seek == old(self)@.emits(latest, now as nat),
            final(self)@ == old(self)@.step(latest, now as nat),
            final(self)@.wf(),
    {
        proof {
            use_type_invariant(&*self);
        }
        if let Some(value) = latest {
            self.value = value;
        }
        if self.value > U14_MIDDLE && self.should_seek_now(U14_MAX - self.value, now) {
            Some(Seek::Forward)
        } else if self.value < U14_MIDDLE && self.should_seek_now(self.value, now) {
            Some(Seek::Backward)
        } else {
            None
        }
    }
}

/// One cycle as the controller sees it.
pub struct Cycle {
    /// The pitch bend of the cycle, if a message brought one.
    pub latest: Option<u16>,
    /// The time of the cycle.
    pub now: nat,
}

/// The state after consecutive cycles.
pub open spec fn run(state: PitchState, cycles: Seq<Cycle>) -> PitchState
    decreases cycles.len(),
{
    if cycles.len() == 0 {
        state
    } else {
        run(state, cycles.drop_last()).step(cycles.last().latest, cycles.last().now)
    }
}

/// The state in which cycle `i` of a run begins.
pub open spec fn state_before(state: PitchState, cycles: Seq<Cycle>, i: int) -> PitchState {
    run(state, cycles.take(i))
}

/// The seek that cycle `i` of a run emits.
pub open spec fn seek_in(state: PitchState, cycles: Seq<Cycle>, i: int) -> Option<Seek> {
    state_before(state, cycles, i).emits(cycles[i].latest, cycles[i].now)
}

/// No cycle of the run brings a pitch bend.
pub open spec fn quiet(cycles: Seq<Cycle>) -> bool {
    forall|i: int| 0 <= i < cycles.len() ==> (#[trigger] cycles[i]).latest is None
}

/// No cycle of the run brings a pitch bend other than the center.
pub open spec fn centered(cycles: Seq<Cycle>) -> bool {
    forall|i: int|
        0 <= i < cycles.len() ==> {
            ||| (#[trigger] cycles[i]).latest is None
            ||| cycles[i].latest == Some(U14_MIDDLE)
        }
}

/// A run begins each of its cycles in the state that the cycles before it
/// have made, and the first in the state it was given.
proof fn lemma_run_unfolds(state: PitchState, cycles: Seq<Cycle>, i: int)
    requires
        0 <= i < cycles.len(),
    ensures
        state_before(state, cycles, 0) == state,
        state_before(state, cycles, i + 1) == state_before(state, cycles, i).step(
            cycles[i].latest,
            cycles[i].now,
        ),
        state_before(state, cycles, cycles.len() as int) == run(state, cycles),
{
    assert(cycles.take(i + 1).drop_last() == cycles.take(i));
    assert(cycles.take(cycles.len() as int) == cycles);
}

/// Idle at the center: while the bend rests at the center, for however many
/// cycles and whatever their times, no cycle seeks and the state, the time
/// of the last seek with it, stays as it was.
pub proof fn law_center_is_idle(state: PitchState, cycles: Seq<Cycle>)
    requires
        state.value == U14_MIDDLE,
        centered(cycles),
    ensures
        run(state, cycles) == state,
        forall|i: int| 0 <= i < cycles.len() ==> seek_in(state, cycles, i) is None,
    decreases cycles.len(),
{
    if cycles.len() > 0 {
        let earlier = cycles.drop_last();
        assert forall|i: int| 0 <= i < earlier.len() implies {
            ||| (#[trigger] earlier[i]).latest is None
            ||| earlier[i].latest == Some(U14_MIDDLE)
        } by {
            assert(earlier[i] == cycles[i]);
        }
        law_center_is_idle(state, earlier);
        let last = cycles.last();
        assert(last == cycles[cycles.len() - 1]);
        assert forall|i: int| 0 <= i < cycles.len() implies seek_in(state, cycles, i) is None by {
            if i < earlier.len() {
                assert(cycles.take(i) == earlier.take(i));
                assert(seek_in(state, earlier, i) is None);
            } else {
                assert(cycles.take(i) == earlier);
            }
        }
    }
}

/// Farther is faster: of two bends on the same side of the center, the one
/// farther from the center waits no longer between two seeks.
pub proof fn law_farther_is_faster(near: nat, far: nat)
    requires
        near <= U14_MAX,
        far <= U14_MAX,
        direction(near) is Some,
        direction(near) == direction(far),
        deviation(near) <= deviation(far),
    ensures
        seek_delay_micros(delay_input(far)) <= seek_delay_micros(delay_input(near)),
{
}

/// Only a seek moves the clock of the controller: a cycle that emits a seek
/// leaves its own time as that of the last seek, and a cycle that emits none
/// leaves the time that it found. Either way the value is the bend of the
/// cycle, or the one before it where the cycle brought none.
pub proof fn law_only_a_seek_is_recorded(state: PitchState, latest: Option<u16>, now: nat)
    ensures
        state.emits(latest, now) is Some ==> state.step(latest, now).last_fire_time == now,
        state.emits(latest, now) is None ==> state.step(latest, now).last_fire_time
            == state.last_fire_time,
        state.step(latest, now).value == state.hear(latest).value,
        state.emits(latest, now) is Some ==> state.emits(latest, now) == direction(
            state.hear(latest).value,
        ),
{
}

/// The delay grows with the delay input, from none at a pinned wheel to
/// just under a quarter of a second one step beside the center.
pub proof fn law_delay_range(value: nat, other: nat)
    requires
        value <= U14_MAX,
        other <= U14_MAX,
        direction(value) is Some,
    ensures
        delay_input(value) < U14_MIDDLE,
        seek_delay_micros(delay_input(value)) < FULL_DELAY_MICROS / 2,
        value == 0 || value == U14_MAX ==> seek_delay_micros(delay_input(value)) == 0,
        delay_input(value) <= delay_input(other) ==> seek_delay_micros(delay_input(value))
            <= seek_delay_micros(delay_input(other)),
{
}

/// Sticky hold: while no cycle brings a pitch bend, the bend that was heard
/// last stays, and every cycle that comes later than its delay after the
/// last seek seeks in its direction. A bend off the center has a direction,
/// so it goes on seeking for as long as the clock goes on.
pub proof fn law_bend_is_held(state: PitchState, cycles: Seq<Cycle>)
    requires
        quiet(cycles),
    ensures
        run(state, cycles).value == state.value,
        state.value != U14_MIDDLE ==> direction(state.value) is Some,
        forall|i: int|
            0 <= i < cycles.len() ==> (#[trigger] state_before(state, cycles, i)).value
                == state.value,
        forall|i: int|
            0 <= i < cycles.len() ==> #[trigger] seek_in(state, cycles, i) == if state_before(
                state,
                cycles,
                i,
            ).due(delay_input(state.value), cycles[i].now) {
                direction(state.value)
            } else {
                None
            },
    decreases cycles.len(),
{
    if cycles.len() > 0 {
        let earlier = cycles.drop_last();
        assert forall|i: int| 0 <= i < earlier.len() implies (#[trigger] earlier[i]).latest is None by {
            assert(earlier[i] == cycles[i]);
        }
        law_bend_is_held(state, earlier);
        assert(cycles.last() == cycles[cycles.len() - 1]);
        assert forall|i: int| 0 <= i < cycles.len() implies (#[trigger] state_before(
            state,
            cycles,
            i,
        )).value == state.value by {
            if i < earlier.len() {
                assert(cycles.take(i) == earlier.take(i));
                assert(state_before(state, earlier, i).value == state.value);
            } else {
                assert(cycles.take(i) == earlier);
            }
        }
    }
}

} // verus!
