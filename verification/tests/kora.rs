use kora_synth::delay::{body_delay, string_length, DelayLine};
use kora_synth::midi::{due_until, parse_midi, MidiMessage};
use kora_synth::sequencer::NoteSequencer;
use kora_synth::strings::KoraStrings;
use kora_synth::tuning::{closest_string, kora_tuning};

fn millihertz(freq: f32) -> u64 {
    (freq as f64 * 1000.0).round() as u64
}

fn midi_frequency(note: u8) -> f32 {
    440.0 * 2.0_f32.powf((note as f32 - 69.0) / 12.0)
}

#[test]
fn delay_line_reads_back_a_write_one_period_later() {
    let mut line = DelayLine::new(vec![0u32; 4]);
    line.write_advance(7);
    for v in [1, 2, 3] {
        line.write_advance(v);
    }
    assert_eq!(line.position(), 0);
    assert_eq!(line.taps(), Some((7, 1)));
    assert_eq!(line.tap(4), 7);
    assert_eq!(line.tap(0), 7);
    assert_eq!(line.tap(1), 3);
    assert_eq!(line.tap(3), 1);
}

#[test]
fn delay_line_cursor_wraps() {
    let mut line = DelayLine::new(vec![10i32, 20, 30]);
    assert_eq!(line.taps(), Some((10, 20)));
    line.write_advance(-1);
    assert_eq!(line.position(), 1);
    assert_eq!(line.taps(), Some((20, 30)));
    line.write_advance(-2);
    assert_eq!(line.taps(), Some((30, -1)));
    line.write_advance(-3);
    assert_eq!(line.position(), 0);
    assert_eq!(line.taps(), Some((-1, -2)));
}

#[test]
fn delay_line_of_one_cell_taps_itself() {
    let mut line = DelayLine::new(vec![5u8]);
    assert_eq!(line.taps(), Some((5, 5)));
    line.write_advance(9);
    assert_eq!(line.position(), 0);
    assert_eq!(line.taps(), Some((9, 9)));
}

#[test]
fn empty_delay_line_has_no_taps() {
    let line: DelayLine<u8> = DelayLine::new(Vec::new());
    assert_eq!(line.taps(), None);
    assert_eq!(line.len(), 0);
    assert_eq!(line.position(), 0);
}

#[test]
fn excite_replaces_samples_and_rewinds() {
    let mut line = DelayLine::new(vec![1u16, 2, 3]);
    line.write_advance(4);
    line.excite(vec![7, 8, 9]);
    assert_eq!(line.position(), 0);
    assert_eq!(line.taps(), Some((7, 8)));
}

#[test]
fn string_length_has_a_floor() {
    assert_eq!(string_length(0, 2), 2);
    assert_eq!(string_length(1, 2), 2);
    assert_eq!(string_length(505, 2), 505);
    assert_eq!(string_length(0, 1), 1);
    // 44100 Hz over the lowest kora string, 87.31 Hz.
    assert_eq!(string_length((44100.0f32 / 87.31f32) as usize, 2), 505);
    // NaN casts to 0 and the floor applies, as with the float maximum.
    assert_eq!(string_length(f32::NAN as usize, 2), 2);
}

#[test]
fn body_delay_is_clamped() {
    assert_eq!(body_delay(0, 1103), 2);
    assert_eq!(body_delay(1, 1103), 2);
    assert_eq!(body_delay(400, 1103), 400);
    assert_eq!(body_delay(5000, 1103), 1102);
    assert_eq!(body_delay(usize::MAX, 3), 2);
    // 44100 Hz over the default gourd resonance of 110 Hz.
    assert_eq!(body_delay((44100.0f32 / 110.0f32) as usize, 1103), 400);
}

#[test]
fn gourd_reads_the_sample_written_delay_steps_ago() {
    let mut line = DelayLine::new(vec![0i64; 8]);
    for v in 1..=11 {
        line.write_advance(v);
    }
    let d = body_delay(3, line.len());
    assert_eq!(line.tap(d), 9);
    assert_eq!(line.tap(body_delay(0, line.len())), 10);
    assert_eq!(line.tap(body_delay(100, line.len())), 5);
}

#[test]
fn kora_tuning_table() {
    let t = kora_tuning();
    assert_eq!(t.len(), 21);
    assert_eq!(t[0], 87310);
    assert_eq!(t[16], 440000);
    assert_eq!(t[20], 659250);
    assert!(t.windows(2).all(|w| w[0] < w[1]));
}

#[test]
fn midi_notes_pluck_nearest_string() {
    let t = kora_tuning();
    // A4 lands on the 440 Hz string.
    assert_eq!(closest_string(&t, millihertz(midi_frequency(69))), 16);
    // Middle C on the C4 string.
    assert_eq!(closest_string(&t, millihertz(midi_frequency(60))), 11);
    // F2 on the lowest string, and everything below it too.
    assert_eq!(closest_string(&t, millihertz(midi_frequency(41))), 0);
    assert_eq!(closest_string(&t, millihertz(midi_frequency(0))), 0);
    // Far above the top string: the highest.
    assert_eq!(closest_string(&t, millihertz(midi_frequency(127))), 20);
    // C#4 (277.18 Hz) is nearer C4 (261.63) than D4 (293.66).
    assert_eq!(closest_string(&t, millihertz(midi_frequency(61))), 11);
}

#[test]
fn closest_string_breaks_ties_low() {
    let t = vec![100u64, 200, 300];
    assert_eq!(closest_string(&t, 150), 0);
    assert_eq!(closest_string(&t, 151), 1);
    assert_eq!(closest_string(&t, 250), 1);
    assert_eq!(closest_string(&t, 300), 2);
    assert_eq!(closest_string(&[], 300), 0);
}

#[test]
fn lower_notes_never_pluck_higher_strings() {
    let t = kora_tuning();
    let mut last = 0;
    for note in 0..=127u8 {
        let i = closest_string(&t, millihertz(midi_frequency(note)));
        assert!(i >= last);
        last = i;
    }
    assert_eq!(last, 20);
}

#[test]
fn each_tuned_pitch_plucks_its_own_string() {
    let t = kora_tuning();
    for (i, &f) in t.iter().enumerate() {
        assert_eq!(closest_string(&t, f), i);
    }
}

#[test]
fn parse_note_on() {
    assert_eq!(parse_midi(&[0x90, 60, 100]), MidiMessage::NoteOn { note: 60, velocity: 100 });
    assert_eq!(parse_midi(&[0x9F, 61, 1]), MidiMessage::NoteOn { note: 61, velocity: 1 });
}

#[test]
fn parse_note_off() {
    assert_eq!(parse_midi(&[0x80, 60, 64]), MidiMessage::NoteOff { note: 60 });
    assert_eq!(parse_midi(&[0x83, 62, 0]), MidiMessage::NoteOff { note: 62 });
    // Note On with velocity zero is a Note Off.
    assert_eq!(parse_midi(&[0x95, 60, 0]), MidiMessage::NoteOff { note: 60 });
}

#[test]
fn parse_other_messages() {
    assert_eq!(parse_midi(&[0xB0, 7, 100]), MidiMessage::Other);
    assert_eq!(parse_midi(&[0x90, 60]), MidiMessage::Other);
    assert_eq!(parse_midi(&[]), MidiMessage::Other);
    assert_eq!(parse_midi(&[0xF8]), MidiMessage::Other);
    assert_eq!(parse_midi(&[0x90, 60, 100, 5]), MidiMessage::NoteOn { note: 60, velocity: 100 });
}

#[test]
fn events_fall_due_in_order() {
    let timings = [0u32, 0, 3, 5, 5];
    assert_eq!(due_until(&timings, 0, 0), 2);
    assert_eq!(due_until(&timings, 2, 1), 2);
    assert_eq!(due_until(&timings, 2, 3), 3);
    assert_eq!(due_until(&timings, 3, 4), 3);
    assert_eq!(due_until(&timings, 3, 5), 5);
    assert_eq!(due_until(&timings, 5, 9), 5);
    // A late event holds back the ones queued after it.
    let unsorted = [4u32, 1];
    assert_eq!(due_until(&unsorted, 0, 2), 0);
    assert_eq!(due_until(&unsorted, 0, 4), 2);
}

#[test]
fn sequencer_plays_every_period() {
    let mut seq = NoteSequencer::new(vec![0, 4, 7], 3);
    let mut played = Vec::new();
    for t in 1..=20usize {
        if let Some(n) = seq.tick() {
            played.push((t, n));
        }
    }
    assert_eq!(played, vec![(3, 0), (6, 4), (9, 7), (12, 0), (15, 4), (18, 7)]);
    assert_eq!(seq.notes_played(), 6);
}

#[test]
fn sequencer_demo_pattern() {
    let spn = (44100.0f32 * 0.35) as usize;
    assert_eq!(spn, 15435);
    let mut seq = NoteSequencer::new(vec![0, 4, 7, 9, 5, 2, 7, 4, 0, 9], spn);
    let mut notes = Vec::new();
    for t in 1..=(spn * 12) {
        if let Some(n) = seq.tick() {
            assert_eq!(t % spn, 0);
            notes.push(n);
        }
    }
    assert_eq!(notes, vec![0, 4, 7, 9, 5, 2, 7, 4, 0, 9, 0, 4]);
}

#[test]
fn sequencer_with_zero_period_plays_every_sample() {
    let mut seq = NoteSequencer::new(vec![3, 1], 0);
    assert_eq!(seq.tick(), Some(3));
    assert_eq!(seq.tick(), Some(1));
    assert_eq!(seq.tick(), Some(3));
}

#[test]
fn play_note_replaces_one_string_only() {
    let mut bank = KoraStrings::new(vec![
        DelayLine::new(vec![1i32, 2]),
        DelayLine::new(vec![3i32, 4, 5]),
    ]);
    bank.write_string(1, 9);
    assert_eq!(bank.string_len(1), Some(3));
    assert!(bank.play_note(1, vec![6, 7, 8]));
    assert_eq!(bank.string_taps(1), Some((6, 7)));
    assert_eq!(bank.string_taps(0), Some((1, 2)));
    // Past the last string: ignored.
    assert_eq!(bank.string_len(2), None);
    assert!(!bank.play_note(2, Vec::new()));
    assert_eq!(bank.count(), 2);
}

#[test]
fn string_bank_steps_each_string() {
    let mut bank = KoraStrings::new(vec![DelayLine::new(vec![1u8, 2, 3]), DelayLine::new(Vec::new())]);
    bank.write_string(0, 10);
    assert_eq!(bank.string_taps(0), Some((2, 3)));
    bank.write_string(0, 11);
    bank.write_string(0, 12);
    assert_eq!(bank.string_taps(0), Some((10, 11)));
    assert_eq!(bank.string_taps(1), None);
}
