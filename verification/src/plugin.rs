//! The per-cycle entry point: the key-mapping table first, then, where the
//! seek switch is on, the pitch-bend seek.
use crate::control::{is_pressed, pressed, ControlValues};
use crate::keymap::{
    default_bindings, default_key_mappings, key_names, scan_keys, scan_states, BindingState,
    KeyMappingTable,
};
use crate::midi::{find_pitch_bend, first_pitch_bend, message_bytes};
use crate::pitch::{PitchSeekController, PitchState, U14_MIDDLE};
use vstd::prelude::*;

verus! {

/// Everything that one plugin instance remembers between two cycles.
pub struct PluginState {
    /// The bindings of the key-mapping table, with their latches.
    pub bindings: Seq<BindingState>,
    /// The state of the pitch-bend seek.
    pub pitch: PitchState,
}

impl PluginState {
    /// The seek of the cycle, as the key sequences to emit for it: none where
    /// the seek is switched off, and else at most the one that the controller
    /// asks for.
    pub open spec fn seek_keys(self, values: ControlValues, messages: Seq<Seq<u8>>, now: nat) -> Seq<
        Seq<char>,
    > {
        if pressed(values.enable_pitch_to_seek) {
            match self.pitch.emits(first_pitch_bend(messages), now) {
                Some(seek) => seq![seek.key_name()],
                None => Seq::empty(),
            }
        } else {
            Seq::empty()
        }
    }

    /// The key sequences that one cycle emits, in the order in which they
    /// are to be injected: those of the table, then that of the seek.
    pub open spec fn keys(self, values: ControlValues, messages: Seq<Seq<u8>>, now: nat) -> Seq<
        Seq<char>,
    > {
        scan_keys(self.bindings, values) + self.seek_keys(values, messages, now)
    }

    /// The state after one cycle. With the seek switched off the messages are not
    /// even looked at, and the pitch state is frozen as it is.
    pub open spec fn step(self, values: ControlValues, messages: Seq<Seq<u8>>, now: nat) -> PluginState {
        PluginState {
            bindings: scan_states(self.bindings, values),
            pitch: if pressed(values.enable_pitch_to_seek) {
                self.pitch.step(first_pitch_bend(messages), now)
            } else {
                self.pitch
            },
        }
    }
}

/// One plugin instance: its key-mapping table and its seek controller.
pub struct PluginCore {
    key_mappings: KeyMappingTable,
    pitch: PitchSeekController,
}

impl View for PluginCore {
    type V = PluginState;

    closed spec fn view(&self) -> PluginState {
        PluginState { bindings: self.key_mappings@, pitch: self.pitch@ }
    }
}

impl PluginCore {
    /// An instance with the full table, nothing latched, the bend at the
    /// center and the last seek at `now`.
    pub fn new(now: u64) -> (core: PluginCore)
        ensures
            core@ == (PluginState {
                bindings: default_bindings(),
                pitch: PitchState { value: U14_MIDDLE as nat, last_fire_time: now as nat },
            }),
    {
        PluginCore { key_mappings: default_key_mappings(), pitch: PitchSeekController::new(now) }
    }

    /// An instance with a table of the caller's choice.
    pub fn with_key_mappings(key_mappings: KeyMappingTable, now: u64) -> (core: PluginCore)
        ensures
            core@ == (PluginState {
                bindings: key_mappings@,
                pitch: PitchState { value: U14_MIDDLE as nat, last_fire_time: now as nat },
            }),
    {
        PluginCore { key_mappings, pitch: PitchSeekController::new(now) }
    }

    /// The key-mapping table.
    pub fn key_mappings(&self) -> (table: &KeyMappingTable)
        ensures
            table@ == self@.bindings,
    {
        &self.key_mappings
    }

    /// The seek controller.
    pub fn pitch(&self) -> (controller: &PitchSeekController)
        ensures
            controller@ == self@.pitch,
    {
        &self.pitch
    }

    /// Runs one cycle on the control inputs, the MIDI messages and the time
    /// of the cycle, and hands back the key sequences to inject, in order.
    /// Whether an injection then succeeds is nothing the state depends on.
    pub fn run(&mut self, values: &ControlValues, messages: &[&[u8]], now: u64) -> (keys: Vec<
        &'static str,
    >)
        ensures
            final(self)@ == old(self)@.step(*values, message_bytes(messages@), now as nat),
            key_names(keys@) == old(self)@.keys(*values, message_bytes(messages@), now as nat),
    {
        let mut keys = self.key_mappings.scan(values);
        if is_pressed(values.enable_pitch_to_seek) {
            let latest = find_pitch_bend(messages);
            if let Some(seek) = self.pitch.update(latest, now) {
                let ghost table_keys = key_names(keys@);
                keys.push(seek.keysequence());
                assert(key_names(keys@) == table_keys.push(seek.key_name()));
            }
        }
        keys
    }
}

} // verus!
