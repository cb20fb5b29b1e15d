//! Reading MIDI input: which messages start a note, and which note events
//! fall due before a given sample.

use vstd::prelude::*;

verus! {

/// What a raw MIDI message asks of the synthesizer.
#[derive(PartialEq, Eq, Structural, Debug, Clone, Copy)]
pub enum MidiMessage {
    /// Note On with a non-zero velocity: pluck.
    NoteOn { note: u8, velocity: u8 },
    /// Note Off, or Note On with velocity zero: the string is left to ring.
    NoteOff { note: u8 },
    /// Anything else, including messages shorter than three bytes.
    Other,
}

/// The command nibble of a status byte (0x8 Note Off, 0x9 Note On, ...).
pub open spec fn command(status: u8) -> int {
    status as int / 16
}

/// What a message of the given bytes means.
pub open spec fn spec_parse_midi(message: Seq<u8>) -> MidiMessage {
    if message.len() < 3 {
        MidiMessage::Other
    } else if command(message[0]) == 9 && message[2] > 0 {
        MidiMessage::NoteOn { note: message[1], velocity: message[2] }
    } else if command(message[0]) == 8 || (command(message[0]) == 9 && message[2] == 0) {
        MidiMessage::NoteOff { note: message[1] }
    } else {
        MidiMessage::Other
    }
}

/// Note On law: a message starts a note exactly when it has at least three
/// bytes, its status byte is a Note On (0x90 to 0x9F, any channel) and its
/// velocity is not zero; the note and velocity are its second and third bytes.
pub proof fn lemma_note_on_exactly(message: Seq<u8>)
    ensures
        (spec_parse_midi(message) is NoteOn) <==> (message.len() >= 3 && 0x90 <= message[0]
            <= 0x9F && message[2] != 0),
        spec_parse_midi(message) matches MidiMessage::NoteOn { note, velocity }
            ==> note == message[1] && velocity == message[2],
{
}

/// Note Off law: a message ends a note exactly when it has at least three
/// bytes and its status byte is a Note Off (0x80 to 0x8F), or a Note On
/// (0x90 to 0x9F) with velocity zero; the note is its second byte.
pub proof fn lemma_note_off_exactly(message: Seq<u8>)
    ensures
        (spec_parse_midi(message) is NoteOff) <==> (message.len() >= 3 && (0x80 <= message[0]
            <= 0x8F || (0x90 <= message[0] <= 0x9F && message[2] == 0))),
        spec_parse_midi(message) matches MidiMessage::NoteOff { note } ==> note == message[1],
{
}

/// Other messages law: a message shorter than three bytes, or one whose
/// status byte is neither Note Off nor Note On (outside 0x80 to 0x9F: control
/// change, aftertouch, program change, system messages, data bytes), means
/// nothing to the synthesizer, whatever its data bytes hold.
pub proof fn lemma_other_messages_ignored(message: Seq<u8>)
    requires
        message.len() < 3 || message[0] < 0x80 || message[0] > 0x9F,
    ensures
        spec_parse_midi(message) == MidiMessage::Other,
{
}

/// Classifies a raw MIDI message by its first three bytes.
pub fn parse_midi(message: &[u8]) -> (m: MidiMessage)
    ensures
        m == spec_parse_midi(message@),
        (m is NoteOn) <==> (message@.len() >= 3 && 0x90 <= message@[0] <= 0x9F && message@[2] != 0),
        (m is NoteOff) <==> (message@.len() >= 3 && (0x80 <= message@[0] <= 0x8F || (0x90
            <= message@[0] <= 0x9F && message@[2] == 0))),
        m matches MidiMessage::NoteOn { note, velocity } ==> note == message@[1] && velocity
            == message@[2],
        m matches MidiMessage::NoteOff { note } ==> note == message@[1],
{
    if message.len() < 3 {
        return MidiMessage::Other;
    }
    let status = message[0];
    let note = message[1];
    let vel = message[2];
    let kind = status & 0xF0;
    assert(kind == 0x90 <==> status / 16 == 9) by (bit_vector)
        requires kind == status & 0xF0;
    assert(kind == 0x80 <==> status / 16 == 8) by (bit_vector)
        requires kind == status & 0xF0;
    if kind == 0x90 && vel > 0 {
        MidiMessage::NoteOn { note, velocity: vel }
    } else if kind == 0x80 || (kind == 0x90 && vel == 0) {
        MidiMessage::NoteOff { note }
    } else {
        MidiMessage::Other
    }
}

/// The number of events, counted from `from`, that fall due at or before
/// sample `sample`: the events are taken in order and the first one timed
/// after `sample` stops the count.
pub fn due_until(timings: &[u32], from: usize, sample: usize) -> (end: usize)
    requires
        from <= timings@.len(),
    ensures
        from <= end <= timings@.len(),
        forall|k: int| from <= k < end ==> #[trigger] timings@[k] <= sample,
        end < timings@.len() ==> timings@[end as int] > sample,
{
    let mut k = from;
    while k < timings.len()
        invariant
            from <= k <= timings@.len(),
            forall|j: int| from <= j < k ==> #[trigger] timings@[j] <= sample,
        decreases timings@.len() - k,
    {
        if timings[k] as usize > sample {
            return k;
        }
        k += 1;
    }
    k
}

} // verus!
