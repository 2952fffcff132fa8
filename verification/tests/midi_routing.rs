use poly_router::midi::{
    mpe_configuration_messages, pitch_bend_message, process_midi, MidiOutcome, MidiState,
    NotePitch, Voice,
};

fn sent(outcome: MidiOutcome) -> Vec<Vec<u8>> {
    match outcome {
        MidiOutcome::Send(v) => v,
        MidiOutcome::PitchNeeded { .. } => panic!("expected messages, got a pitch request"),
        MidiOutcome::Rebend => panic!("expected messages, got a rebend"),
    }
}

#[test]
fn new_router_starts_multitimbral_with_every_channel() {
    let s = MidiState::new();
    assert!(!s.is_mpe());
    assert_eq!(s.pitch_bend_range(), 12);
    assert_eq!(s.synth_ref_note(), 69);
    assert_eq!(s.input_pitch_bend(), 8192);
    assert_eq!(s.enabled_channel_numbers(), (1..=16).collect::<Vec<usize>>());
    assert!(s.sounding_voices().is_empty());
}

#[test]
fn note_on_asks_for_its_pitch() {
    let mut s = MidiState::new();
    match process_midi(&[0x90, 60, 100], &mut s) {
        MidiOutcome::PitchNeeded { input_note, velocity } => {
            assert_eq!(input_note, 60);
            assert_eq!(velocity, 100);
        }
        _ => panic!("expected a pitch request"),
    }
    assert_eq!(s.input_flash(), 5);
    assert_eq!(s.voice(60), None);
}

#[test]
fn note_on_takes_the_first_free_channel_round_robin() {
    let mut s = MidiState::new();
    let first = s.note_on(60, 100, Some(NotePitch { note: 61, bend: 8192 })).unwrap();
    assert_eq!(first, vec![vec![0x91, 61, 100], vec![0xE1, 0, 64]]);
    assert_eq!(s.voice(60), Some(Voice { channel: 1, sent_note: 61 }));
    assert!(s.channel_busy(1));
    assert_eq!(s.output_flash(1), 5);
    let second = s.note_on(62, 90, Some(NotePitch { note: 62, bend: 100 })).unwrap();
    assert_eq!(second, vec![vec![0x92, 62, 90], vec![0xE2, 100, 0]]);
    assert_eq!(s.last_allocated(), 2);
    assert_eq!(
        s.sounding_voices(),
        vec![(60, Voice { channel: 1, sent_note: 61 }), (62, Voice { channel: 2, sent_note: 62 })]
    );
}

#[test]
fn round_robin_starts_after_the_last_channel() {
    let mut s = MidiState::new();
    s.note_on(60, 1, Some(NotePitch { note: 60, bend: 8192 })).unwrap();
    process_midi(&[0x80, 60, 0], &mut s);
    assert_eq!(s.last_allocated(), 1);
    let out = s.note_on(61, 1, Some(NotePitch { note: 61, bend: 8192 })).unwrap();
    assert_eq!(out[0], vec![0x92, 61, 1]);
    s.set_enabled_channels(&[1, 2]);
    let out = s.note_on(62, 1, Some(NotePitch { note: 62, bend: 8192 })).unwrap();
    assert_eq!(out[0], vec![0x90, 62, 1]);
    let out = s.note_on(63, 1, Some(NotePitch { note: 63, bend: 8192 })).unwrap();
    assert_eq!(out[0], vec![0x91, 63, 1]);
}

#[test]
fn silent_note_gets_no_voice() {
    let mut s = MidiState::new();
    assert_eq!(s.note_on(60, 100, None), None);
    assert_eq!(s.voice(60), None);
    assert!(!s.channel_busy(0));
}

#[test]
fn note_on_without_free_channel_is_dropped() {
    let mut s = MidiState::new();
    s.set_enabled_channels(&[3]);
    assert!(s.note_on(10, 1, Some(NotePitch { note: 10, bend: 8192 })).is_some());
    assert_eq!(s.voice(10), Some(Voice { channel: 2, sent_note: 10 }));
    assert_eq!(s.note_on(11, 1, Some(NotePitch { note: 11, bend: 8192 })), None);
    assert_eq!(s.voice(11), None);
}

#[test]
fn note_off_releases_the_voice_on_its_channel() {
    let mut s = MidiState::new();
    s.note_on(60, 100, Some(NotePitch { note: 58, bend: 9000 })).unwrap();
    let out = sent(process_midi(&[0x80, 60, 40], &mut s));
    assert_eq!(out, vec![vec![0x81, 58, 40]]);
    assert_eq!(s.voice(60), None);
    assert!(!s.channel_busy(1));
}

#[test]
fn note_on_with_zero_velocity_is_a_note_off() {
    let mut s = MidiState::new();
    s.note_on(60, 100, Some(NotePitch { note: 60, bend: 8192 })).unwrap();
    s.note_on(64, 100, Some(NotePitch { note: 64, bend: 8192 })).unwrap();
    let out = sent(process_midi(&[0x90, 64, 0], &mut s));
    assert_eq!(out, vec![vec![0x92, 64, 0]]);
    assert_eq!(s.voice(64), None);
}

#[test]
fn note_off_of_a_silent_note_sends_nothing() {
    let mut s = MidiState::new();
    assert!(sent(process_midi(&[0x80, 70, 0], &mut s)).is_empty());
}

#[test]
fn note_off_undoes_note_on() {
    let mut s = MidiState::new();
    s.note_on(60, 100, Some(NotePitch { note: 60, bend: 8192 })).unwrap();
    process_midi(&[0x80, 60, 0], &mut s);
    for c in 0..16 {
        assert!(!s.channel_busy(c));
    }
    assert!(s.sounding_voices().is_empty());
}

#[test]
fn empty_message_sends_nothing() {
    let mut s = MidiState::new();
    assert!(sent(process_midi(&[], &mut s)).is_empty());
    assert_eq!(s.input_flash(), 0);
}

#[test]
fn system_messages_pass_unchanged() {
    let mut s = MidiState::new();
    assert_eq!(sent(process_midi(&[0xF8], &mut s)), vec![vec![0xF8]]);
    assert_eq!(sent(process_midi(&[0xF0, 1, 2, 0xF7], &mut s)), vec![vec![0xF0, 1, 2, 0xF7]]);
}

#[test]
fn multitimbral_channel_message_goes_to_every_enabled_channel() {
    let mut s = MidiState::new();
    s.set_enabled_channels(&[1, 2, 16]);
    let out = sent(process_midi(&[0xB5, 7, 100], &mut s));
    assert_eq!(out, vec![vec![0xB0, 7, 100], vec![0xB1, 7, 100], vec![0xBF, 7, 100]]);
    assert_eq!(s.output_flash(0), 5);
    assert_eq!(s.output_flash(15), 5);
    assert_eq!(s.output_flash(2), 0);
}

#[test]
fn multitimbral_pitch_wheel_asks_to_rebend() {
    let mut s = MidiState::new();
    assert!(matches!(process_midi(&[0xE0, 0x7F, 0x7F], &mut s), MidiOutcome::Rebend));
    assert_eq!(s.input_pitch_bend(), 16383);
    assert!(matches!(process_midi(&[0xE3, 0, 64], &mut s), MidiOutcome::Rebend));
    assert_eq!(s.input_pitch_bend(), 8192);
}

#[test]
fn mpe_channel_messages_go_to_the_master_channel() {
    let mut s = MidiState::new();
    assert!(s.toggle_output_mode());
    let out = sent(process_midi(&[0xB3, 1, 2], &mut s));
    assert_eq!(out, vec![vec![0xB0, 1, 2]]);
    assert_eq!(s.output_flash(0), 5);
    let out = sent(process_midi(&[0xE5, 0, 64], &mut s));
    assert_eq!(out, vec![vec![0xE0, 0, 64]]);
}

#[test]
fn mpe_notes_use_member_channels() {
    let mut s = MidiState::new();
    s.toggle_output_mode();
    let first = s.note_on(60, 100, Some(NotePitch { note: 60, bend: 8192 })).unwrap();
    assert_eq!(first[0], vec![0x92, 60, 100]);
    let second = s.note_on(61, 100, Some(NotePitch { note: 61, bend: 8192 })).unwrap();
    assert_eq!(second[0], vec![0x93, 61, 100]);
    assert!(!s.channel_busy(0));
}

#[test]
fn output_mode_fixes_the_bend_range() {
    let mut s = MidiState::new();
    assert!(s.toggle_output_mode());
    assert!(s.is_mpe());
    assert_eq!(s.pitch_bend_range(), 48);
    assert!(!s.toggle_output_mode());
    assert_eq!(s.pitch_bend_range(), 12);
}

#[test]
fn mpe_master_channel_cannot_be_disabled() {
    let mut s = MidiState::new();
    s.toggle_output_mode();
    assert!(!s.toggle_channel(0));
    assert!(s.channel_enabled(0));
    assert!(s.toggle_channel(3));
    assert!(!s.channel_enabled(3));
    assert!(s.toggle_channel(3));
    assert!(s.channel_enabled(3));
}

#[test]
fn enabled_channels_round_trip() {
    let mut s = MidiState::new();
    s.set_enabled_channels(&[2, 5, 16, 40]);
    assert_eq!(s.enabled_channel_numbers(), vec![2, 5, 16]);
}

#[test]
fn flash_decays_by_one() {
    let mut s = MidiState::new();
    process_midi(&[0xF8], &mut s);
    s.note_on(1, 1, Some(NotePitch { note: 1, bend: 0 })).unwrap();
    s.decay_flash();
    assert_eq!(s.input_flash(), 4);
    assert_eq!(s.output_flash(1), 4);
    assert_eq!(s.output_flash(0), 0);
}

#[test]
fn pitch_bend_message_splits_fourteen_bits() {
    assert_eq!(pitch_bend_message(3, 8192), vec![0xE3, 0, 64]);
    assert_eq!(pitch_bend_message(0, 16383), vec![0xE0, 0x7F, 0x7F]);
    let m = pitch_bend_message(15, 1234);
    assert_eq!((m[1] as u16) | ((m[2] as u16) << 7), 1234);
}

#[test]
fn mpe_configuration_sets_the_member_count() {
    assert_eq!(
        mpe_configuration_messages(15),
        vec![vec![0xB0, 101, 0], vec![0xB0, 100, 6], vec![0xB0, 6, 15], vec![0xB0, 38, 0]]
    );
}
