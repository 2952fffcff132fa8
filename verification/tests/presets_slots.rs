use poly_router::midi::MidiState;
use poly_router::presets::{Preset, PresetEqualDivision, PresetFile, PresetGuitarGrid};
use poly_router::ui::{UiAction, UiState};

fn strings(v: &[&str]) -> Vec<String> {
    v.iter().map(|s| s.to_string()).collect()
}

#[test]
fn saving_takes_the_current_settings() {
    let mut ui = UiState::default();
    let mut midi = MidiState::new();
    ui.in_ports = strings(&["Keys In", "Pads In"]);
    ui.selected_in = 1;
    midi.set_enabled_channels(&[1, 3]);
    let p = ui.save_preset(&midi, "scl text".to_string(), "kbm text".to_string());
    assert_eq!(p.input_device, "Pads In");
    assert_eq!(p.output_device, "");
    assert_eq!(p.output_type, "Multi-timbral");
    assert_eq!(p.pb_range, 12);
    assert_eq!(p.channels_out, vec![1, 3]);
    assert_eq!(p.active, "equal_division");
    assert_eq!(p.equal_division.divisions, "12");
    assert_eq!(p.equal_division.interval_to_divide, "2/1");
    assert_eq!(p.guitar_grid.edo, "41");
    assert_eq!(p.guitar_grid.open_strings, ui.grid_open);
    assert_eq!(p.guitar_grid.unequal_frets, ui.grid_unequal);
    assert_eq!(p.file.scl, "scl text");
    assert_eq!(p.file.kbm, "kbm text");
    midi.toggle_output_mode();
    assert_eq!(ui.save_preset(&midi, String::new(), String::new()).output_type, "MPE");
}

#[test]
fn saved_preset_loads_back() {
    let mut ui = UiState::default();
    let mut midi = MidiState::new();
    ui.in_ports = strings(&["Keys In"]);
    ui.out_ports = strings(&["Synth A", "Synth B"]);
    ui.selected_out = 1;
    ui.grid_edo = "31".to_string();
    midi.toggle_output_mode();
    midi.set_enabled_channels(&[1, 2, 4]);
    let p = ui.save_preset(&midi, String::new(), String::new());

    let mut ui2 = UiState::default();
    ui2.in_ports = ui.in_ports.clone();
    ui2.out_ports = ui.out_ports.clone();
    let mut midi2 = MidiState::new();
    let action = ui2.load_preset(&mut midi2, Some(&p), "preset1");
    assert_eq!(action, Some(UiAction::ChangeBoth(0, 1)));
    assert_eq!(ui2.selected_out, 1);
    assert_eq!(ui2.grid_edo, "31");
    assert_eq!(ui2.pb_input, "48");
    assert!(midi2.is_mpe());
    assert_eq!(midi2.pitch_bend_range(), 48);
    assert_eq!(midi2.enabled_channel_numbers(), vec![1, 2, 4]);
    assert_eq!(ui2.logs.last().unwrap(), "Loaded preset1");
    assert_eq!(ui2.load_preset(&mut midi2, Some(&p), "preset1"), None);
}

#[test]
fn loading_takes_the_first_port_that_names_the_device() {
    let mut ui = UiState::default();
    let mut midi = MidiState::new();
    ui.in_ports = strings(&["USB MIDI 1", "USB MIDI"]);
    ui.selected_in = 1;
    let p = Preset {
        input_device: "USB MIDI".to_string(),
        output_device: "nowhere".to_string(),
        output_type: "Roli mPe".to_string(),
        pb_range: 24,
        channels_out: vec![2, 5],
        active: "guitar_grid".to_string(),
        equal_division: PresetEqualDivision {
            divisions: "19".to_string(),
            interval_to_divide: "3/1".to_string(),
        },
        guitar_grid: PresetGuitarGrid {
            is_ji: true,
            edo: "53".to_string(),
            ref_midi: "60".to_string(),
            ref_hz: "261.6".to_string(),
            horiz_step: "1".to_string(),
            capo: "2".to_string(),
            octave: "-1".to_string(),
            unequal_frets_on: true,
            unequal_frets: strings(&["9/8", "16/15", "10/9"]),
            open_strings: strings(&["1/1"]),
        },
        file: PresetFile { scl: "s".to_string(), kbm: "k".to_string() },
    };
    assert_eq!(ui.load_preset(&mut midi, Some(&p), "preset7"), Some(UiAction::ChangeBoth(0, 0)));
    assert_eq!(ui.selected_in, 0);
    assert!(midi.is_mpe());
    assert_eq!(midi.pitch_bend_range(), 24);
    assert_eq!(midi.enabled_channel_numbers(), vec![2, 5]);
    assert_eq!(ui.active_tuning_mode, "guitar_grid");
    assert_eq!(ui.divisions_input, "19");
    assert!(ui.grid_is_ji);
    assert!(ui.grid_unequal_toggle);
    assert_eq!(ui.grid_unequal[0..3].to_vec(), strings(&["9/8", "16/15", "10/9"]));
    assert_eq!(ui.grid_unequal[3], "2");
    assert_eq!(ui.grid_unequal.len(), 9);
    assert_eq!(ui.grid_open[0], "1/1");
    assert_eq!(ui.grid_open[1], "0");
    assert_eq!(ui.pb_input, "24");
}

#[test]
fn missing_slot_is_logged() {
    let mut ui = UiState::default();
    let mut midi = MidiState::new();
    assert_eq!(ui.load_preset(&mut midi, None, "preset4"), None);
    assert_eq!(ui.logs.last().unwrap(), "preset4 not found.");
    assert_eq!(midi.pitch_bend_range(), 12);
}

#[test]
fn save_outcome_is_logged() {
    let mut ui = UiState::default();
    ui.preset_saved("preset2", Ok(()));
    assert_eq!(ui.logs.last().unwrap(), "Saved preset2");
    ui.preset_saved("preset2", Err("disk full".to_string()));
    assert_eq!(ui.logs.last().unwrap(), "Save failed: disk full");
}

#[test]
fn retuning_outcome_is_logged() {
    let mut ui = UiState::default();
    ui.log_outcome(Ok("fine".to_string()), "Cleared SCL. ", "Parse Error: ");
    assert_eq!(ui.logs.last().unwrap(), "Cleared SCL. fine");
    ui.log_outcome(Err("bad".to_string()), "", "Grid Error: ");
    assert_eq!(ui.logs.last().unwrap(), "Grid Error: bad");
    ui.log_line("plain");
    assert_eq!(ui.logs.last().unwrap(), "plain");
}
