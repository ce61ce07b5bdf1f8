//! The key-mapping table: one latch per binding, one key press per rising edge.
use crate::control::{is_pressed, lemma_pressed_patterns, pressed, ControlValues, Signal, HALF_BITS};
use vstd::prelude::*;

verus! {

/// What a key binding is, as a value to reason about.
pub struct BindingState {
    /// The control input that the binding listens to.
    pub source: Signal,
    /// The name of the key sequence that the binding emits.
    pub keysequence: Seq<char>,
    /// True while the source has stayed above the threshold since it last
    /// rose above it.
    pub latched: bool,
}

impl BindingState {
    /// The binding emits its key sequence on this sample: the sample is above
    /// the threshold and the one before it was not.
    pub open spec fn fires(self, bits: u32) -> bool {
        pressed(bits) && !self.latched
    }

    /// The binding after it has seen the sample: latched exactly when the
    /// sample is above the threshold.
    pub open spec fn observe(self, bits: u32) -> BindingState {
        BindingState { latched: pressed(bits), ..self }
    }
}

/// One entry of the key-mapping table.
#[derive(Clone, Copy, Debug)]
pub struct KeyBinding {
    source: Signal,
    keysequence: &'static str,
    latched: bool,
}

impl View for KeyBinding {
    type V = BindingState;

    closed spec fn view(&self) -> BindingState {
        BindingState { source: self.source, keysequence: self.keysequence@, latched: self.latched }
    }
}

/// Binds a control input to a key sequence. The binding starts unlatched.
pub fn make_key_mapping(source: Signal, keysequence: &'static str) -> (binding: KeyBinding)
    ensures
        binding@ == unlatched(source, keysequence@),
{
    KeyBinding { source, keysequence, latched: false }
}

impl KeyBinding {
    /// The control input that the binding listens to.
    pub fn source(&self) -> (source: Signal)
        ensures
            source == self@.source,
    {
        self.source
    }

    /// The name of the key sequence that the binding emits.
    pub fn keysequence(&self) -> (keysequence: &'static str)
        ensures
            keysequence@ == self@.keysequence,
    {
        self.keysequence
    }

    /// Whether the binding has already fired for the current excursion.
    pub fn is_latched(&self) -> (latched: bool)
        ensures
            latched == self@.latched,
    {
        self.latched
    }

    /// Shows the binding the sample of its source for this cycle and says
    /// whether its key sequence is to be emitted.
    pub fn observe(&mut self, bits: u32) -> (fired: bool)
        ensures
            fired == old(self)@.fires(bits),
            final(self)@ == old(self)@.observe(bits),
    {
        if is_pressed(bits) {
            if !self.latched {
                self.latched = true;
                return true;
            }
        } else {
            if self.latched {
                self.latched = false;
            }
        }
        false
    }
}

/// The names that a list of key sequences spells.
pub open spec fn key_names(keys: Seq<&'static str>) -> Seq<Seq<char>> {
    Seq::new(keys.len(), |i: int| keys[i]@)
}

/// The bindings of a table after one cycle: each has seen the sample of its
/// own source, whatever the others saw.
pub open spec fn scan_states(bindings: Seq<BindingState>, values: ControlValues) -> Seq<BindingState> {
    Seq::new(bindings.len(), |i: int| bindings[i].observe(values.bits_of(bindings[i].source)))
}

/// The key sequences that one cycle emits: those of the bindings that fire,
/// in the order of the table.
pub open spec fn scan_keys(bindings: Seq<BindingState>, values: ControlValues) -> Seq<Seq<char>>
    decreases bindings.len(),
{
    if bindings.len() == 0 {
        Seq::empty()
    } else {
        let earlier = scan_keys(bindings.drop_last(), values);
        let binding = bindings.last();
        if binding.fires(values.bits_of(binding.source)) {
            earlier.push(binding.keysequence)
        } else {
            earlier
        }
    }
}

/// A fixed list of key bindings, each with its latch.
pub struct KeyMappingTable {
    bindings: Vec<KeyBinding>,
}

impl View for KeyMappingTable {
    type V = Seq<BindingState>;

    closed spec fn view(&self) -> Seq<BindingState> {
        Seq::new(self.bindings@.len(), |i: int| self.bindings@[i]@)
    }
}

impl KeyMappingTable {
    /// Makes a table of the given bindings, in their order.
    pub fn new(bindings: Vec<KeyBinding>) -> (table: KeyMappingTable)
        ensures
            table@ == Seq::new(bindings@.len(), |i: int| bindings@[i]@),
    {
        KeyMappingTable { bindings }
    }

    /// The number of bindings in the table.
    pub fn len(&self) -> (len: usize)
        ensures
            len == self@.len(),
    {
        self.bindings.len()
    }

    /// The binding at a position, or `None` past the end of the table.
    pub fn binding(&self, index: usize) -> (binding: Option<KeyBinding>)
        ensures
            index < self@.len() ==> binding.is_some() && binding.unwrap()@ == self@[index as int],
            index >= self@.len() ==> binding.is_none(),
    {
        if index < self.bindings.len() {
            Some(self.bindings[index])
        } else {
            None
        }
    }

    /// Runs one cycle over the table: every binding sees the sample of its
    /// source, and the key sequences of those that fire are handed back in
    /// the order of the table, for the caller to inject.
    pub fn scan(&mut self, values: &ControlValues) -> (fired: Vec<&'static str>)
        ensures
            final(self)@ == scan_states(old(self)@, *values),
            key_names(fired@) == scan_keys(old(self)@, *values),
    {
        let ghost before = self@;
        let mut fired: Vec<&'static str> = Vec::new();
        let mut i: usize = 0;
        while i < self.bindings.len()
            invariant
                i <= self.bindings@.len(),
                self@.len() == before.len(),
                forall|j: int| 0 <= j < i ==> self@[j] == before[j].observe(values.bits_of(before[j].source)),
                forall|j: int| i <= j < before.len() ==> self@[j] == before[j],
                key_names(fired@) == scan_keys(before.take(i as int), *values),
            decreases self.bindings@.len() - i,
        {
            let mut binding = self.bindings[i];
            let ghost keys = key_names(fired@);
            assert(binding@ == before[i as int]);
            if binding.observe(values.get(binding.source())) {
                fired.push(binding.keysequence());
                assert(key_names(fired@) == keys.push(before[i as int].keysequence));
            }
            let ghost seen = self@;
            self.bindings.set(i, binding);
            assert(self@ == seen.update(i as int, binding@));
            assert(before.take(i + 1).drop_last() == before.take(i as int));
            i += 1;
        }
        assert(before.take(i as int) == before);
        fired
    }
}

/// A binding that has not fired yet.
pub open spec fn unlatched(source: Signal, keysequence: Seq<char>) -> BindingState {
    BindingState { source, keysequence, latched: false }
}

/// The full configuration: each control input bound to the media key of its
/// name.
pub open spec fn default_bindings() -> Seq<BindingState> {
    seq![
        unlatched(Signal::Play, "XF86AudioPlay"@),
        unlatched(Signal::Pause, "XF86AudioPause"@),
        unlatched(Signal::Stop, "XF86AudioStop"@),
        unlatched(Signal::Record, "XF86AudioRecord"@),
        unlatched(Signal::Previous, "XF86AudioPrev"@),
        unlatched(Signal::Next, "XF86AudioNext"@),
        unlatched(Signal::Rewind, "XF86AudioRewind"@),
        unlatched(Signal::Forward, "XF86AudioForward"@),
        unlatched(Signal::Repeat, "XF86AudioRepeat"@),
        unlatched(Signal::LowerVolume, "XF86AudioLowerVolume"@),
        unlatched(Signal::RaiseVolume, "XF86AudioRaiseVolume"@),
        unlatched(Signal::Mute, "XF86AudioMute"@),
        unlatched(Signal::Media, "XF86AudioMedia"@),
    ]
}

/// Builds the table of the full configuration, every binding unlatched.
pub fn default_key_mappings() -> (table: KeyMappingTable)
    ensures
        table@ == default_bindings(),
{
    let mut bindings: Vec<KeyBinding> = Vec::new();
    bindings.push(make_key_mapping(Signal::Play, "XF86AudioPlay"));
    bindings.push(make_key_mapping(Signal::Pause, "XF86AudioPause"));
    bindings.push(make_key_mapping(Signal::Stop, "XF86AudioStop"));
    bindings.push(make_key_mapping(Signal::Record, "XF86AudioRecord"));
    bindings.push(make_key_mapping(Signal::Previous, "XF86AudioPrev"));
    bindings.push(make_key_mapping(Signal::Next, "XF86AudioNext"));
    bindings.push(make_key_mapping(Signal::Rewind, "XF86AudioRewind"));
    bindings.push(make_key_mapping(Signal::Forward, "XF86AudioForward"));
    bindings.push(make_key_mapping(Signal::Repeat, "XF86AudioRepeat"));
    bindings.push(make_key_mapping(Signal::LowerVolume, "XF86AudioLowerVolume"));
    bindings.push(make_key_mapping(Signal::RaiseVolume, "XF86AudioRaiseVolume"));
    bindings.push(make_key_mapping(Signal::Mute, "XF86AudioMute"));
    bindings.push(make_key_mapping(Signal::Media, "XF86AudioMedia"));
    KeyMappingTable::new(bindings)
}

/// The number of key presses that a binding emits over consecutive cycles
/// in which its source gives these samples.
pub open spec fn presses(binding: BindingState, samples: Seq<u32>) -> nat
    decreases samples.len(),
{
    if samples.len() == 0 {
        0
    } else {
        let first: nat = if binding.fires(samples.first()) { 1 } else { 0 };
        first + presses(binding.observe(samples.first()), samples.drop_first())
    }
}

/// The binding after consecutive cycles in which its source gives these
/// samples.
pub open spec fn observe_all(binding: BindingState, samples: Seq<u32>) -> BindingState
    decreases samples.len(),
{
    if samples.len() == 0 {
        binding
    } else {
        observe_all(binding.observe(samples.first()), samples.drop_first())
    }
}

/// Every sample of the run is above the threshold.
pub open spec fn all_pressed(samples: Seq<u32>) -> bool {
    forall|i: int| 0 <= i < samples.len() ==> pressed(#[trigger] samples[i])
}

/// No sample of the run is above the threshold.
pub open spec fn none_pressed(samples: Seq<u32>) -> bool {
    forall|i: int| 0 <= i < samples.len() ==> !pressed(#[trigger] samples[i])
}

/// A run of cycles followed by another counts the presses of both, the
/// second from the state that the first leaves.
proof fn lemma_presses_split(binding: BindingState, head: Seq<u32>, tail: Seq<u32>)
    ensures
        presses(binding, head + tail) == presses(binding, head) + presses(
            observe_all(binding, head),
            tail,
        ),
        observe_all(binding, head + tail) == observe_all(observe_all(binding, head), tail),
    decreases head.len(),
{
    if head.len() == 0 {
        assert(head + tail == tail);
    } else {
        assert((head + tail).first() == head.first());
        assert((head + tail).drop_first() == head.drop_first() + tail);
        lemma_presses_split(binding.observe(head.first()), head.drop_first(), tail);
    }
}

/// While the source stays above the threshold the binding fires at most on
/// the first cycle, and only if it was not latched yet.
proof fn lemma_held_above(binding: BindingState, samples: Seq<u32>)
    requires
        all_pressed(samples),
        samples.len() > 0,
    ensures
        presses(binding, samples) == if binding.latched { 0nat } else { 1nat },
        observe_all(binding, samples).latched,
    decreases samples.len(),
{
    let rest = samples.drop_first();
    assert(pressed(samples[0]));
    assert forall|i: int| 0 <= i < rest.len() implies pressed(#[trigger] rest[i]) by {
        assert(rest[i] == samples[i + 1]);
    }
    let seen = binding.observe(samples.first());
    if rest.len() > 0 {
        lemma_held_above(seen, rest);
    } else {
        assert(presses(seen, rest) == 0);
        assert(observe_all(seen, rest) == seen);
    }
}

/// While the source stays at the threshold or below, the binding never
/// fires, and it is unlatched from the first such cycle on.
proof fn lemma_held_below(binding: BindingState, samples: Seq<u32>)
    requires
        none_pressed(samples),
    ensures
        presses(binding, samples) == 0,
        samples.len() > 0 || !binding.latched ==> !observe_all(binding, samples).latched,
    decreases samples.len(),
{
    if samples.len() > 0 {
        let rest = samples.drop_first();
        assert(!pressed(samples[0]));
        assert forall|i: int| 0 <= i < rest.len() implies !pressed(#[trigger] rest[i]) by {
            assert(rest[i] == samples[i + 1]);
        }
        lemma_held_below(binding.observe(samples.first()), rest);
    }
}

/// A rising edge fires once: a binding that is not latched emits exactly
/// one key press when its source rises above the threshold, however many
/// cycles the source then stays there, and it emits it on the first of them.
pub proof fn law_rising_edge_fires_once(binding: BindingState, above: Seq<u32>)
    requires
        !binding.latched,
        above.len() > 0,
        all_pressed(above),
    ensures
        presses(binding, above) == 1,
        binding.fires(above.first()),
        observe_all(binding, above).latched,
{
    lemma_held_above(binding, above);
    assert(pressed(above[0]));
}

/// A source held at exactly one half never latches its binding and never
/// fires it, for any number of cycles.
pub proof fn law_half_never_fires(binding: BindingState, cycles: nat)
    ensures
        !pressed(HALF_BITS),
        presses(binding, Seq::new(cycles, |i: int| HALF_BITS)) == 0,
        cycles > 0 || !binding.latched ==> !observe_all(
            binding,
            Seq::new(cycles, |i: int| HALF_BITS),
        ).latched,
{
    lemma_pressed_patterns(HALF_BITS);
    lemma_held_below(binding, Seq::new(cycles, |i: int| HALF_BITS));
}

/// A binding is armed again by a fall: whatever it did before, once its
/// source has been at the threshold or below and then rises above it, the
/// rise emits exactly one key press.
pub proof fn law_fall_rearms(binding: BindingState, below: Seq<u32>, above: Seq<u32>)
    requires
        below.len() > 0,
        none_pressed(below),
        above.len() > 0,
        all_pressed(above),
    ensures
        presses(binding, below + above) == 1,
        presses(binding, below) == 0,
        presses(observe_all(binding, below), above) == 1,
{
    lemma_presses_split(binding, below, above);
    lemma_held_below(binding, below);
    law_rising_edge_fires_once(observe_all(binding, below), above);
}

/// Two excursions above the threshold, parted by a fall, emit two key
/// presses: one each.
pub proof fn law_two_excursions_fire_twice(
    binding: BindingState,
    first: Seq<u32>,
    below: Seq<u32>,
    second: Seq<u32>,
)
    requires
        !binding.latched,
        first.len() > 0,
        all_pressed(first),
        below.len() > 0,
        none_pressed(below),
        second.len() > 0,
        all_pressed(second),
    ensures
        presses(binding, first + (below + second)) == 2,
{
    lemma_presses_split(binding, first, below + second);
    law_rising_edge_fires_once(binding, first);
    law_fall_rearms(observe_all(binding, first), below, second);
}

/// The samples that one source gives over consecutive cycles.
pub open spec fn samples_of(cycles: Seq<ControlValues>, source: Signal) -> Seq<u32> {
    Seq::new(cycles.len(), |i: int| cycles[i].bits_of(source))
}

/// The bindings of a table after consecutive cycles.
pub open spec fn scan_all(bindings: Seq<BindingState>, cycles: Seq<ControlValues>) -> Seq<
    BindingState,
>
    decreases cycles.len(),
{
    if cycles.len() == 0 {
        bindings
    } else {
        scan_all(scan_states(bindings, cycles.first()), cycles.drop_first())
    }
}

/// The bindings of a table do not depend on each other, nor on their order:
/// over any run of cycles each ends as it would alone, on the samples of its
/// own source.
pub proof fn law_bindings_are_independent(
    bindings: Seq<BindingState>,
    cycles: Seq<ControlValues>,
    i: int,
)
    requires
        0 <= i < bindings.len(),
    ensures
        scan_all(bindings, cycles).len() == bindings.len(),
        scan_all(bindings, cycles)[i] == observe_all(
            bindings[i],
            samples_of(cycles, bindings[i].source),
        ),
    decreases cycles.len(),
{
    let samples = samples_of(cycles, bindings[i].source);
    if cycles.len() > 0 {
        let next = scan_states(bindings, cycles.first());
        law_bindings_are_independent(next, cycles.drop_first(), i);
        assert(samples.drop_first() == samples_of(cycles.drop_first(), next[i].source));
    }
}

/// What one cycle emits is the key sequence of every binding that fires,
/// and of no other, in the order of the table.
pub proof fn law_scan_emits_what_fires(bindings: Seq<BindingState>, values: ControlValues)
    ensures
        scan_keys(bindings, values) == bindings.filter(
            |b: BindingState| b.fires(values.bits_of(b.source)),
        ).map_values(|b: BindingState| b.keysequence),
    decreases bindings.len(),
{
    let fires = |b: BindingState| b.fires(values.bits_of(b.source));
    let name = |b: BindingState| b.keysequence;
    reveal(Seq::filter);
    if bindings.len() > 0 {
        let earlier = bindings.drop_last();
        law_scan_emits_what_fires(earlier, values);
        if fires(bindings.last()) {
            assert(earlier.filter(fires).push(bindings.last()).map_values(name) == earlier.filter(
                fires,
            ).map_values(name).push(bindings.last().keysequence));
        }
    }
}

} // verus!
