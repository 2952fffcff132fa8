use poly_router::midi::{MidiState, NotePitch, Voice};
use poly_router::tuning::{builtin_tuning, BuiltinTuning};
use poly_router::ui::{
    menu_choice, move_focus, tuning_panel, Direction, Focus, Key, KeyEffect, MenuAction, MenuOp, TuningPanel,
    UiAction, UiState,
};

fn press(ui: &mut UiState, midi: &mut MidiState, keys: &[Key]) -> KeyEffect {
    let mut last = KeyEffect::Handled;
    for k in keys {
        last = ui.handle_key(midi, *k);
    }
    last
}

fn type_text(ui: &mut UiState, midi: &mut MidiState, text: &str) {
    for c in text.chars() {
        ui.handle_key(midi, Key::Char(c));
    }
}

fn last_log(ui: &UiState) -> &str {
    ui.logs.last().unwrap()
}

#[test]
fn start_up_state() {
    let ui = UiState::default();
    assert_eq!(ui.focus, Focus::CommandInput);
    assert_eq!(ui.divisions_input, "12");
    assert_eq!(ui.interval_input, "2/1");
    assert_eq!(ui.grid_edo, "41");
    assert_eq!(ui.grid_ref_pitch, "260.89");
    assert_eq!(ui.grid_open[7], "-82");
    assert_eq!(ui.grid_unequal.len(), 9);
    assert_eq!(ui.logs.len(), 2);
    assert_eq!(ui.active_tuning_mode, "equal_division");
}

#[test]
fn preset_key_then_digit_loads_that_slot() {
    let mut ui = UiState::default();
    let mut midi = MidiState::new();
    assert_eq!(ui.handle_key(&mut midi, Key::Char('P')), KeyEffect::Handled);
    assert_eq!(ui.pending_action, Some('P'));
    assert_eq!(last_log(&ui), "Press 1-9 to LOAD, or any other key to cancel.");
    assert_eq!(ui.handle_key(&mut midi, Key::Char('3')), KeyEffect::LoadPreset('3'));
    assert_eq!(ui.pending_action, None);
    assert_eq!(press(&mut ui, &mut midi, &[Key::Char('S'), Key::Char('9')]), KeyEffect::SavePreset('9'));
}

#[test]
fn preset_command_is_cancelled_by_other_keys() {
    let mut ui = UiState::default();
    let mut midi = MidiState::new();
    press(&mut ui, &mut midi, &[Key::Char('S'), Key::Char('0')]);
    assert_eq!(last_log(&ui), "Cancelled.");
    assert_eq!(ui.pending_action, None);
    press(&mut ui, &mut midi, &[Key::Char('P'), Key::Esc]);
    assert_eq!(last_log(&ui), "Cancelled.");
    assert_eq!(ui.pending_action, None);
    for k in [Key::Tab, Key::Enter, Key::Up, Key::Backspace, Key::Other] {
        let focus = ui.focus;
        let logged = ui.logs.len();
        ui.handle_key(&mut midi, Key::Char('P'));
        assert_eq!(ui.handle_key(&mut midi, k), KeyEffect::Handled);
        assert_eq!(ui.pending_action, None);
        assert_eq!(last_log(&ui), "Cancelled.");
        assert_eq!(ui.logs.len(), logged + 2);
        assert_eq!(ui.focus, focus);
    }
}

#[test]
fn letter_commands_for_files() {
    let mut ui = UiState::default();
    let mut midi = MidiState::new();
    assert_eq!(ui.handle_key(&mut midi, Key::Char('K')), KeyEffect::ResetKbm);
    assert_eq!(ui.active_file_tab, 1);
    assert_eq!(ui.active_tuning_mode, "file");
    assert_eq!(ui.handle_key(&mut midi, Key::Char('C')), KeyEffect::ResetScl);
    assert_eq!(ui.active_file_tab, 0);
    assert_eq!(ui.handle_key(&mut midi, Key::Char('L')), KeyEffect::LoadFiles);
}

#[test]
fn hotkeys_move_the_focus() {
    let mut ui = UiState::default();
    let mut midi = MidiState::new();
    press(&mut ui, &mut midi, &[Key::Char('a')]);
    assert_eq!(ui.focus, Focus::GridCapo);
    press(&mut ui, &mut midi, &[Key::Char('s')]);
    assert_eq!(ui.focus, Focus::GridOpen(0));
    press(&mut ui, &mut midi, &[Key::Char('q')]);
    assert_eq!(ui.focus, Focus::CommandInput);
    press(&mut ui, &mut midi, &[Key::Char('q')]);
    assert_eq!(ui.focus, Focus::CommandInput);
    assert_eq!(ui.input, "q");
}

#[test]
fn edo_hotkey_is_off_in_ji_mode() {
    let mut ui = UiState::default();
    let mut midi = MidiState::new();
    ui.grid_is_ji = true;
    press(&mut ui, &mut midi, &[Key::Char('r'), Key::Char('e')]);
    assert_eq!(ui.focus, Focus::GridRefMidi);
}

#[test]
fn pitch_bend_range_is_edited_and_clamped() {
    let mut ui = UiState::default();
    let mut midi = MidiState::new();
    press(&mut ui, &mut midi, &[Key::Char('p'), Key::Enter]);
    assert!(ui.is_editing_pb);
    assert_eq!(ui.pb_input, "12");
    type_text(&mut ui, &mut midi, "48");
    assert_eq!(ui.pb_input, "48");
    ui.handle_key(&mut midi, Key::Enter);
    assert!(!ui.is_editing_pb);
    assert_eq!(midi.pitch_bend_range(), 48);
    assert_eq!(last_log(&ui), "Pitch bend range updated to 48");

    press(&mut ui, &mut midi, &[Key::Enter]);
    type_text(&mut ui, &mut midi, "2001");
    assert_eq!(ui.pb_input, "200");
    ui.handle_key(&mut midi, Key::Enter);
    assert_eq!(midi.pitch_bend_range(), 96);

    press(&mut ui, &mut midi, &[Key::Enter, Key::Char('0'), Key::Enter]);
    assert_eq!(midi.pitch_bend_range(), 1);
    assert_eq!(last_log(&ui), "Pitch bend range updated to 1");

    press(&mut ui, &mut midi, &[Key::Enter, Key::Char('3'), Key::Char('0'), Key::Char('0'), Key::Enter]);
    assert_eq!(midi.pitch_bend_range(), 1);
    assert!(!ui.is_editing_pb);

    press(&mut ui, &mut midi, &[Key::Enter, Key::Char('x'), Key::Backspace, Key::Esc]);
    assert_eq!(ui.pb_input, "");
    assert!(!ui.is_editing_pb);
}

#[test]
fn divisions_are_replaced_then_applied() {
    let mut ui = UiState::default();
    let mut midi = MidiState::new();
    press(&mut ui, &mut midi, &[Key::Char('d'), Key::Enter]);
    assert!(ui.is_editing_divisions);
    type_text(&mut ui, &mut midi, "19");
    assert_eq!(ui.divisions_input, "19");
    ui.handle_key(&mut midi, Key::Backspace);
    assert_eq!(ui.divisions_input, "1");
    ui.active_tuning_mode = "file".to_string();
    assert_eq!(ui.handle_key(&mut midi, Key::Enter), KeyEffect::ApplyEqualDivision);
    assert!(!ui.is_editing_divisions);
    assert_eq!(ui.active_tuning_mode, "equal_division");

    press(&mut ui, &mut midi, &[Key::Char('n'), Key::Enter]);
    type_text(&mut ui, &mut midi, "3/2");
    assert_eq!(ui.interval_input, "3/2");
    ui.handle_key(&mut midi, Key::Esc);
    assert!(!ui.is_editing_interval);
}

#[test]
fn grid_entry_advances_through_the_open_strings() {
    let mut ui = UiState::default();
    let mut midi = MidiState::new();
    press(&mut ui, &mut midi, &[Key::Char('s'), Key::Enter]);
    assert!(ui.is_editing_grid);
    type_text(&mut ui, &mut midi, "5");
    assert_eq!(ui.grid_open[0], "5");
    assert_eq!(ui.handle_key(&mut midi, Key::Enter), KeyEffect::ApplyGrid);
    assert_eq!(ui.focus, Focus::GridOpen(1));
    assert!(ui.clear_grid);
    assert_eq!(ui.active_tuning_mode, "guitar_grid");
    type_text(&mut ui, &mut midi, "-7");
    assert_eq!(ui.grid_open[1], "-7");
    ui.handle_key(&mut midi, Key::Backspace);
    assert_eq!(ui.grid_open[1], "-");
    ui.focus = Focus::GridOpen(7);
    ui.handle_key(&mut midi, Key::Enter);
    assert!(!ui.is_editing_grid);
    assert_eq!(ui.focus, Focus::GridOpen(7));
}

#[test]
fn grid_switches_flip_and_retune() {
    let mut ui = UiState::default();
    let mut midi = MidiState::new();
    assert_eq!(press(&mut ui, &mut midi, &[Key::Char('m'), Key::Enter]), KeyEffect::ApplyGrid);
    assert!(ui.grid_is_ji);
    assert_eq!(press(&mut ui, &mut midi, &[Key::Char('u'), Key::Enter]), KeyEffect::ApplyGrid);
    assert!(ui.grid_unequal_toggle);
    press(&mut ui, &mut midi, &[Key::Down, Key::Enter, Key::Char('3')]);
    assert_eq!(ui.focus, Focus::GridUnequal(0));
    assert_eq!(ui.grid_unequal[0], "3");
}

#[test]
fn output_type_switches_with_its_range() {
    let mut ui = UiState::default();
    let mut midi = MidiState::new();
    assert_eq!(press(&mut ui, &mut midi, &[Key::Char('t'), Key::Enter]), KeyEffect::SendMpeConfiguration);
    assert!(midi.is_mpe());
    assert_eq!(midi.pitch_bend_range(), 48);
    assert_eq!(last_log(&ui), "Switched to MPE. Pitch bend range locked to 48.");
    assert_eq!(ui.handle_key(&mut midi, Key::Enter), KeyEffect::Handled);
    assert!(!midi.is_mpe());
    assert_eq!(midi.pitch_bend_range(), 12);
    assert_eq!(last_log(&ui), "Switched to Multi-timbral. Pitch bend range reset to 12.");
}

#[test]
fn channels_toggle_but_the_mpe_master_stays() {
    let mut ui = UiState::default();
    let mut midi = MidiState::new();
    midi.toggle_output_mode();
    press(&mut ui, &mut midi, &[Key::Char('c'), Key::Enter]);
    assert_eq!(last_log(&ui), "Channel 1 is MPE Master (cannot disable).");
    assert!(midi.channel_enabled(0));
    press(&mut ui, &mut midi, &[Key::Right, Key::Enter]);
    assert_eq!(ui.focus, Focus::Channel(1));
    assert!(!midi.channel_enabled(1));
}

#[test]
fn command_line_commands() {
    let mut ui = UiState::default();
    let mut midi = MidiState::new();
    type_text(&mut ui, &mut midi, "1");
    assert_eq!(ui.handle_key(&mut midi, Key::Enter), KeyEffect::ApplyBuiltinTuning(BuiltinTuning::Edo(12)));
    assert_eq!(last_log(&ui), "Preset 1 loaded.");
    assert_eq!(ui.input, "");
    type_text(&mut ui, &mut midi, "0x");
    assert_eq!(ui.handle_key(&mut midi, Key::Enter), KeyEffect::Handled);
    assert_eq!(last_log(&ui), "Unknown command: 0x");
    ui.input = "  q ".to_string();
    assert_eq!(ui.handle_key(&mut midi, Key::Enter), KeyEffect::Quit);
    assert_eq!(ui.input, "");
}

#[test]
fn builtin_tunings_by_first_character() {
    assert_eq!(builtin_tuning("1"), Some(BuiltinTuning::Edo(12)));
    assert_eq!(builtin_tuning("2"), Some(BuiltinTuning::Edo(24)));
    assert_eq!(builtin_tuning("3"), Some(BuiltinTuning::JustIntonation));
    assert_eq!(builtin_tuning("9x"), Some(BuiltinTuning::Edo(53)));
    assert_eq!(builtin_tuning(""), None);
    assert_eq!(builtin_tuning("q"), None);
}

#[test]
fn notepad_takes_the_keys_while_typing() {
    let mut ui = UiState::default();
    let mut midi = MidiState::new();
    press(&mut ui, &mut midi, &[Key::Char('f'), Key::Enter]);
    assert!(ui.is_typing_in_notepad);
    assert_eq!(ui.handle_key(&mut midi, Key::Char('P')), KeyEffect::NotepadInput);
    assert_eq!(ui.pending_action, None);
    assert_eq!(ui.handle_key(&mut midi, Key::Tab), KeyEffect::Handled);
    assert_eq!(ui.active_file_tab, 1);
    assert_eq!(ui.handle_key(&mut midi, Key::Enter), KeyEffect::NotepadEnter);
    assert_eq!(ui.active_tuning_mode, "file");
    ui.handle_key(&mut midi, Key::Esc);
    assert!(!ui.is_typing_in_notepad);
    assert_eq!(last_log(&ui), "Exited Notepad.");
}

#[test]
fn device_menu_picks_by_digit() {
    let mut ui = UiState::default();
    let mut midi = MidiState::new();
    ui.in_ports = vec!["A".to_string(), "B".to_string()];
    assert_eq!(press(&mut ui, &mut midi, &[Key::Char('i'), Key::Enter]), KeyEffect::OpenMenu);
    assert!(ui.is_menu_active);
    assert_eq!(ui.handle_key(&mut midi, Key::Char('9')), KeyEffect::Menu(MenuOp::Nothing));
    assert_eq!(ui.handle_key(&mut midi, Key::Down), KeyEffect::Menu(MenuOp::Down));
    assert_eq!(ui.handle_key(&mut midi, Key::Char('2')), KeyEffect::MenuChoice(UiAction::ChangeInput(1)));
    assert!(!ui.is_menu_active);
    press(&mut ui, &mut midi, &[Key::Char('o'), Key::Enter]);
    assert_eq!(ui.handle_key(&mut midi, Key::Char('1')), KeyEffect::Menu(MenuOp::Nothing));
    assert_eq!(ui.handle_key(&mut midi, Key::Esc), KeyEffect::Menu(MenuOp::Reset));
    assert!(!ui.is_menu_active);
}

#[test]
fn arrows_follow_the_panel_layout() {
    assert_eq!(move_focus(Focus::CommandInput, Direction::Up, false, false), Focus::GridOpen(7));
    assert_eq!(move_focus(Focus::GridOpen(1), Direction::Right, false, false), Focus::GridHoriz);
    assert_eq!(move_focus(Focus::GridOpen(1), Direction::Right, false, true), Focus::GridCapo);
    assert_eq!(move_focus(Focus::GridModeToggle, Direction::Right, true, false), Focus::GridRefMidi);
    assert_eq!(move_focus(Focus::Channel(15), Direction::Right, false, false), Focus::Channel(15));
    assert_eq!(move_focus(Focus::Channel(0), Direction::Left, false, false), Focus::PitchBend);
    assert_eq!(move_focus(Focus::GridUnequal(8), Direction::Right, false, true), Focus::Notepad);
    assert_eq!(move_focus(Focus::GridOpen(4), Direction::Right, false, true), Focus::GridEdo);
    assert_eq!(move_focus(Focus::GridOpen(5), Direction::Right, false, true), Focus::GridUnequalToggle);
    assert_eq!(move_focus(Focus::Notepad, Direction::Down, false, false), Focus::CommandInput);
}

#[test]
fn arrow_keys_never_leave_the_layout() {
    let mut ui = UiState::default();
    let mut midi = MidiState::new();
    let keys = [Key::Up, Key::Right, Key::Right, Key::Down, Key::Left, Key::Up, Key::Up, Key::Right];
    for _ in 0..20 {
        for k in keys {
            ui.handle_key(&mut midi, k);
            match ui.focus {
                Focus::Channel(i) => assert!(i < 16),
                Focus::GridUnequal(i) => assert!(i < 9),
                Focus::GridOpen(i) => assert!(i < 8),
                _ => {}
            }
        }
    }
}

#[test]
fn menu_entries_stand_for_device_changes() {
    assert_eq!(menu_choice(MenuAction::SelectInput(2)), UiAction::ChangeInput(2));
    assert_eq!(menu_choice(MenuAction::SelectOutput(0)), UiAction::ChangeOutput(0));
}

#[test]
fn active_tuning_names_select_a_panel() {
    assert_eq!(tuning_panel("equal_division"), Some(TuningPanel::EqualDivision));
    assert_eq!(tuning_panel("guitar_grid"), Some(TuningPanel::GuitarGrid));
    assert_eq!(tuning_panel("file"), Some(TuningPanel::File));
    assert_eq!(tuning_panel("files"), None);
    assert_eq!(tuning_panel(""), None);
}

#[test]
fn grid_steps_follow_the_unequal_switch() {
    let mut ui = UiState::default();
    ui.grid_horiz = "3".to_string();
    assert_eq!(ui.horiz_steps(), vec!["3".to_string()]);
    ui.grid_unequal_toggle = true;
    ui.grid_unequal[1] = "5".to_string();
    let steps = ui.horiz_steps();
    assert_eq!(steps.len(), 9);
    assert_eq!(steps[0], "2");
    assert_eq!(steps[1], "5");
}

#[test]
fn keys_leave_sounding_voices_alone() {
    let mut ui = UiState::default();
    let mut midi = MidiState::new();
    midi.note_on(60, 100, Some(NotePitch { note: 60, bend: 8192 })).unwrap();
    press(&mut ui, &mut midi, &[Key::Char('t'), Key::Enter, Key::Char('c'), Key::Right, Key::Enter, Key::Char('p'), Key::Enter, Key::Char('2'), Key::Enter]);
    assert_eq!(midi.voice(60), Some(Voice { channel: 1, sent_note: 60 }));
    assert!(midi.channel_busy(1));
    assert_eq!(midi.last_allocated(), 1);
    assert_eq!(midi.pitch_bend_range(), 2);
}

#[test]
fn the_log_only_grows() {
    let mut ui = UiState::default();
    let mut midi = MidiState::new();
    let mut seen = ui.logs.clone();
    for k in [Key::Char('P'), Key::Char('x'), Key::Char('t'), Key::Enter, Key::Esc, Key::Char('f'), Key::Enter, Key::Esc] {
        ui.handle_key(&mut midi, k);
        assert!(ui.logs.len() >= seen.len());
        assert_eq!(ui.logs[..seen.len()].to_vec(), seen);
        seen = ui.logs.clone();
    }
    assert!(seen.len() > 2);
}
