//! The MIDI side: which messages of a cycle carry a pitch bend, and which
//! of them counts.
//!
//! Decoding is left to `wmidi`. Of a decoded message the library reads
//! one thing only, the 14-bit payload of a pitch-bend change.
use vstd::prelude::*;

verus! {

/// The largest value of a 14-bit quantity.
pub const U14_MAX: u16 = 16383;

/// The payload of a message that is a pitch-bend change: a status byte
/// `0xE0` to `0xEF`, then the low and the high seven bits of the value, each
/// in a data byte. Any other message has none.
pub open spec fn pitch_bend_payload(bytes: Seq<u8>) -> Option<u16> {
    if bytes.len() >= 3 && 0xE0 <= bytes[0] <= 0xEF && bytes[1] < 0x80 && bytes[2] < 0x80 {
        Some((bytes[1] + 128 * bytes[2]) as u16)
    } else {
        None
    }
}

/// A payload is a 14-bit value.
pub proof fn lemma_payload_is_u14(bytes: Seq<u8>)
    ensures
        pitch_bend_payload(bytes) matches Some(value) ==> value <= U14_MAX && value == bytes[1]
            + 128 * bytes[2],
{
}

/// Calls `wmidi::MidiMessage::try_from` on the bytes of one message and,
/// where the result is a `PitchBendChange`, hands its value out as a `u16`
/// through `wmidi::U14::data_to_slice`.
///
/// Trusted: for a pitch-bend status byte followed by two data bytes `wmidi`
/// returns the value `low + 128 * high`; for every other input that starts
/// with a status byte it returns another message or an error, which both
/// give `None` here. On a first byte below `0x80` it panics, so such input is
/// kept away from it.
#[verifier::external_body]
fn decode_pitch_bend(bytes: &[u8]) -> (payload: Option<u16>)
    requires
        bytes@.len() > 0 ==> bytes@[0] >= 0x80,
    ensures
        payload == pitch_bend_payload(bytes@),
{
    match wmidi::MidiMessage::try_from(bytes) {
        Ok(wmidi::MidiMessage::PitchBendChange(_, bend)) => Some(wmidi::U14::data_to_slice(&[bend])[0]),
        _ => None,
    }
}

/// Reads the pitch-bend value of one MIDI message, if it is a pitch-bend
/// change. Bytes that do not start with a status byte are no message at all
/// and are passed over like any other kind.
pub fn pitch_bend_of(bytes: &[u8]) -> (payload: Option<u16>)
    ensures
        payload == pitch_bend_payload(bytes@),
        payload matches Some(value) ==> value <= U14_MAX,
{
    if bytes.len() == 0 || bytes[0] < 0x80 {
        None
    } else {
        decode_pitch_bend(bytes)
    }
}

/// The byte sequences that a list of messages holds.
pub open spec fn message_bytes(messages: Seq<&[u8]>) -> Seq<Seq<u8>> {
    Seq::new(messages.len(), |i: int| messages[i]@)
}

/// The pitch bend that a cycle takes from its messages: the payload of the
/// first pitch-bend change among them. Later ones are ignored.
pub open spec fn first_pitch_bend(messages: Seq<Seq<u8>>) -> Option<u16>
    decreases messages.len(),
{
    if messages.len() == 0 {
        None
    } else if pitch_bend_payload(messages.first()) is Some {
        pitch_bend_payload(messages.first())
    } else {
        first_pitch_bend(messages.drop_first())
    }
}

/// Finds the pitch bend of a cycle among its messages, in their order.
pub fn find_pitch_bend(messages: &[&[u8]]) -> (latest: Option<u16>)
    ensures
        latest == first_pitch_bend(message_bytes(messages@)),
        latest matches Some(value) ==> value <= U14_MAX,
{
    let ghost all = message_bytes(messages@);
    let mut i: usize = 0;
    assert(all.skip(0) == all);
    while i < messages.len()
        invariant
            i <= messages@.len(),
            all == message_bytes(messages@),
            first_pitch_bend(all) == first_pitch_bend(all.skip(i as int)),
        decreases messages@.len() - i,
    {
        let payload = pitch_bend_of(messages[i]);
        assert(all.skip(i as int).first() == messages@[i as int]@);
        if payload.is_some() {
            return payload;
        }
        assert(all.skip(i as int).drop_first() == all.skip(i + 1));
        i += 1;
    }
    assert(all.skip(i as int).len() == 0);
    None
}

} // verus!
