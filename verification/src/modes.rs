//! The key handlers of the interface's modes: a pending preset command, the
//! letter commands, the open device menu, the fields being edited and the
//! text editors, and the elements that react to Enter. Each handler is held
//! to the step function of `ui` that describes it.
use vstd::prelude::*;
use vstd::string::{StrSliceExecFns, StringExecFns};
use crate::midi::MidiState;
use crate::text::{decimal_u8, is_digit, parse_u8, pop_char, push_char, trim};
use crate::tuning::builtin_tuning;
use crate::ui;
use crate::ui::{
    command_step, enter_field_step, enter_router_step, enter_toggle_step,
    apply_edit, division_char_step, division_edit_step, division_step, edit_grid_field, grid_char_step, grid_enter_step,
    grid_advance, grid_step, next_entry_field, global_step, hotkey, lemma_strings_ext, lemma_strings_len,
    lemma_strings, log, menu_step, notepad_step, pb_digit_step, pb_edit_step, pb_enter_step, pb_step,
    pending_step, pop_spec, same, strings, EditOp, Focus, Key, KeyEffect, MenuOp, UiAction, UiState, UiView,
};

verus! {

/// The grid field after `f` in spreadsheet entry.
pub(crate) fn next_entry(f: Focus) -> (r: Option<Focus>)
    requires
        f.valid(),
    ensures
        r == next_entry_field(f),
        r matches Some(g) ==> g.valid(),
{
    match f {
        Focus::GridOpen(i) => if i < 7 {
            Some(Focus::GridOpen(i + 1))
        } else {
            None
        },
        Focus::GridUnequal(i) => if i < 7 {
            Some(Focus::GridUnequal(i + 1))
        } else {
            None
        },
        _ => None,
    }
}

/// The answer to a command other than `q`.
pub(crate) fn command_reply(cmd: &str) -> (r: (String, KeyEffect))
    ensures
        (r.0@, r.1) == ui::command_reply(cmd@),
{
    match builtin_tuning(cmd) {
        Some(t) => {
            let mut msg = "Preset ".to_string();
            msg.append(cmd);
            msg.append(" loaded.");
            (msg, KeyEffect::ApplyBuiltinTuning(t))
        },
        None => {
            let mut msg = "Unknown command: ".to_string();
            msg.append(cmd);
            (msg, KeyEffect::Handled)
        },
    }
}

/// The slot a key names after `P` or `S`.
pub(crate) fn slot_digit(key: Key) -> (d: Option<char>)
    ensures
        d == ui::slot_digit(key),
{
    match key {
        Key::Char(c) => if is_ascii_digit(c) && c != '0' {
            Some(c)
        } else {
            None
        },
        _ => None,
    }
}

/// A text field edited in place.
pub(crate) fn edit_text(s: &mut String, op: EditOp)
    ensures
        final(s)@ == apply_edit(old(s)@, op),
{
    match op {
        EditOp::Clear => {
            *s = String::new();
        },
        EditOp::Push(c) => {
            push_char(s, c);
        },
        EditOp::Pop => {
            pop_char(s);
        },
    }
}

/// Entry `i` of a list of text fields edited in place.
pub(crate) fn edit_list(v: &mut Vec<String>, i: usize, op: EditOp)
    requires
        i < old(v)@.len(),
    ensures
        strings(*final(v)) == strings(*old(v)).update(
            i as int,
            apply_edit(strings(*old(v))[i as int], op),
        ),
{
    proof {
        lemma_strings(*v);
    }
    let ghost before = *v;
    let mut t = v[i].clone();
    edit_text(&mut t, op);
    let ghost tv = t@;
    v.set(i, t);
    proof {
        lemma_strings_ext(*v, strings(before).update(i as int, tv));
    }
}

pub(crate) fn is_ascii_digit(c: char) -> (b: bool)
    ensures
        b == is_digit(c),
{
    let u = c as u32;
    48 <= u && u <= 57
}

impl UiState {
    /// Appends a line to the log.
    pub fn log_line(&mut self, msg: &str)
        ensures
            final(self)@ == log(old(self)@, msg@),
    {
        let ghost before = self.logs;
        self.logs.push(msg.to_string());
        proof {
            lemma_strings(before);
            lemma_strings_ext(self.logs, strings(before).push(msg@));
        }
    }

    pub(crate) fn log_string(&mut self, msg: String)
        ensures
            final(self)@ == log(old(self)@, msg@),
    {
        let ghost before = self.logs;
        let ghost m = msg@;
        self.logs.push(msg);
        proof {
            lemma_strings(before);
            lemma_strings_ext(self.logs, strings(before).push(m));
        }
    }

    /// Logs the outcome of a retuning: its message after `ok_prefix`, or
    /// its error after `err_prefix`.
    pub fn log_outcome(&mut self, outcome: Result<String, String>, ok_prefix: &str, err_prefix: &str)
        ensures
            final(self)@ == log(
                old(self)@,
                match outcome {
                    Ok(msg) => ok_prefix@ + msg@,
                    Err(e) => err_prefix@ + e@,
                },
            ),
    {
        let mut line = match outcome {
            Ok(_) => ok_prefix.to_string(),
            Err(_) => err_prefix.to_string(),
        };
        match outcome {
            Ok(msg) => line.append(msg.as_str()),
            Err(e) => line.append(e.as_str()),
        }
        self.log_string(line);
    }

    pub(crate) fn set_mode(&mut self, mode: &str)
        ensures
            final(self)@ == (UiView { active_tuning_mode: mode@, ..old(self)@ }),
    {
        self.active_tuning_mode = mode.to_string();
    }

    pub(crate) fn pending_key(&mut self, action: char, key: Key) -> (e: KeyEffect)
        requires
            old(self).wf(),
        ensures
            final(self).wf(),
            same((final(self)@, e), pending_step(old(self)@, action, key)),
    {
        let ghost u0 = self@;
        self.pending_action = None;
        let ghost u1 = self@;
        assert(u1 == UiView { pending_action: None, ..u0 });
        match slot_digit(key) {
            Some(c) => if action == 'P' {
                KeyEffect::LoadPreset(c)
            } else if action == 'S' {
                KeyEffect::SavePreset(c)
            } else {
                KeyEffect::Handled
            },
            None => {
                self.log_line("Cancelled.");
                assert(self@ == log(u1, "Cancelled."@));
                KeyEffect::Handled
            },
        }
    }

    pub(crate) fn hotkey_focus(&self, c: char) -> (f: Option<Focus>)
        ensures
            f == hotkey(c, self.grid_is_ji, self.focus),
            f matches Some(g) ==> g.valid(),
    {
        reveal(hotkey);
        match c {
            'i' => Some(Focus::Input),
            'o' => Some(Focus::Output),
            't' => Some(Focus::Mode),
            'p' => Some(Focus::PitchBend),
            'c' => Some(Focus::Channel(0)),
            'd' => Some(Focus::Divisions),
            'n' => Some(Focus::Interval),
            'm' => Some(Focus::GridModeToggle),
            'e' => if self.grid_is_ji {
                None
            } else {
                Some(Focus::GridEdo)
            },
            'r' => Some(Focus::GridRefMidi),
            'z' => Some(Focus::GridRefPitch),
            'h' => Some(Focus::GridHoriz),
            'a' => Some(Focus::GridCapo),
            'v' => Some(Focus::GridOctave),
            'u' => Some(Focus::GridUnequalToggle),
            's' => Some(Focus::GridOpen(0)),
            'f' => Some(Focus::Notepad),
            'q' => if self.focus != Focus::CommandInput {
                Some(Focus::CommandInput)
            } else {
                None
            },
            _ => None,
        }
    }

    pub(crate) fn letter_command(&mut self, c: char) -> (r: Option<KeyEffect>)
        requires
            old(self).wf(),
        ensures
            final(self).wf(),
            match r {
                Some(e) => global_step(old(self)@, c) == Some((final(self)@, e)),
                None => c != 'P' && c != 'S' && c != 'L' && c != 'C' && c != 'K' && final(self)@ == old(self)@,
            },
    {
        let ghost u0 = self@;
        if c == 'P' || c == 'S' {
            self.pending_action = Some(c);
            let ghost u1 = self@;
            assert(u1 == UiView { pending_action: Some(c), ..u0 });
            if c == 'P' {
                self.log_line("Press 1-9 to LOAD, or any other key to cancel.");
            } else {
                self.log_line("Press 1-9 to SAVE, or any other key to cancel.");
            }
            assert(global_step(u0, c) == Some((self@, KeyEffect::Handled))) by {
                reveal(global_step);
            }
            return Some(KeyEffect::Handled);
        }
        if c == 'L' || c == 'C' || c == 'K' {
            if c == 'C' {
                self.active_file_tab = 0;
            } else if c == 'K' {
                self.active_file_tab = 1;
            }
            self.active_tuning_mode = "file".to_string();
            let e = if c == 'L' {
                KeyEffect::LoadFiles
            } else if c == 'C' {
                KeyEffect::ResetScl
            } else {
                KeyEffect::ResetKbm
            };
            assert(global_step(u0, c) == Some((self@, e))) by {
                reveal(global_step);
            }
            return Some(e);
        }
        None
    }

    pub(crate) fn global_key(&mut self, c: char) -> (r: Option<KeyEffect>)
        requires
            old(self).wf(),
        ensures
            final(self).wf(),
            match r {
                Some(e) => global_step(old(self)@, c) == Some((final(self)@, e)),
                None => global_step(old(self)@, c) is None && final(self)@ == old(self)@,
            },
    {
        let ghost u0 = self@;
        match self.letter_command(c) {
            Some(e) => Some(e),
            None => match self.hotkey_focus(c) {
                Some(f) => {
                    self.focus = f;
                    assert(global_step(u0, c) == Some((self@, KeyEffect::Handled))) by {
                        reveal(global_step);
                    }
                    Some(KeyEffect::Handled)
                },
                None => {
                    assert(global_step(u0, c) is None) by {
                        reveal(global_step);
                    }
                    None
                },
            },
        }
    }

    pub(crate) fn menu_digit(&mut self, c: char) -> (e: KeyEffect)
        requires
            old(self).wf(),
        ensures
            final(self).wf(),
            same((final(self)@, e), menu_step(old(self)@, Key::Char(c))),
    {
        let ghost u0 = self@;
        proof {
            lemma_strings_len(self.in_ports);
            lemma_strings_len(self.out_ports);
        }
        let mut choice: Option<UiAction> = None;
        if is_ascii_digit(c) && c != '0' {
            let idx = (c as u32 - 49) as usize;
            if self.focus == Focus::Input && idx < self.in_ports.len() {
                choice = Some(UiAction::ChangeInput(idx));
            } else if self.focus == Focus::Output && idx < self.out_ports.len() {
                choice = Some(UiAction::ChangeOutput(idx));
            }
        }
        assert(match choice {
            Some(a) => menu_step(u0, Key::Char(c)) == (UiView { is_menu_active: false, ..u0 }, KeyEffect::MenuChoice(a)),
            None => menu_step(u0, Key::Char(c)) == (u0, KeyEffect::Menu(MenuOp::Nothing)),
        }) by {
            reveal(menu_step);
        }
        match choice {
            Some(a) => {
                self.is_menu_active = false;
                KeyEffect::MenuChoice(a)
            },
            None => KeyEffect::Menu(MenuOp::Nothing),
        }
    }

    pub(crate) fn menu_key(&mut self, key: Key) -> (e: KeyEffect)
        requires
            old(self).wf(),
        ensures
            final(self).wf(),
            same((final(self)@, e), menu_step(old(self)@, key)),
    {
        let ghost u0 = self@;
        if let Key::Char(c) = key {
            return self.menu_digit(c);
        }
        if key == Key::Esc {
            self.is_menu_active = false;
            assert(menu_step(u0, key) == (self@, KeyEffect::Menu(MenuOp::Reset))) by {
                reveal(menu_step);
            }
            return KeyEffect::Menu(MenuOp::Reset);
        }
        let op = match key {
            Key::Up => MenuOp::Up,
            Key::Down => MenuOp::Down,
            Key::Left => MenuOp::Left,
            Key::Right => MenuOp::Right,
            Key::Enter => MenuOp::Select,
            _ => MenuOp::Nothing,
        };
        assert(menu_step(u0, key) == (u0, KeyEffect::Menu(op))) by {
            reveal(menu_step);
        }
        KeyEffect::Menu(op)
    }

    pub(crate) fn pb_digit(&mut self, c: char)
        requires
            old(self).wf(),
        ensures
            final(self).wf(),
            final(self)@ == pb_digit_step(old(self)@, c),
    {
        reveal(pb_digit_step);
        if is_ascii_digit(c) {
            let mut text = if self.clear_pb {
                String::new()
            } else {
                self.pb_input.clone()
            };
            if text.as_str().len() < 3 {
                push_char(&mut text, c);
            }
            self.pb_input = text;
            self.clear_pb = false;
        }
    }

    pub(crate) fn pb_enter(&mut self, midi: &mut MidiState)
        requires
            old(self).wf(),
            old(midi).wf(),
        ensures
            final(self).wf(),
            final(midi).wf(),
            (final(self)@, final(midi)@) == pb_enter_step(old(self)@, old(midi)@),
    {
        reveal(pb_enter_step);
        let ghost u0 = self@;
        let parsed = parse_u8(self.pb_input.as_str());
        self.is_editing_pb = false;
        assert(self@ == UiView { is_editing_pb: false, ..u0 });
        if let Some(v) = parsed {
            let r = if v < 1 {
                1
            } else if v > 96 {
                96
            } else {
                v
            };
            midi.set_pitch_bend_range(r);
            let mut msg = "Pitch bend range updated to ".to_string();
            let digits = decimal_u8(r);
            msg.append(digits.as_str());
            self.log_string(msg);
        }
    }

    pub(crate) fn pb_edit(&mut self, key: Key)
        requires
            old(self).wf(),
        ensures
            final(self).wf(),
            final(self)@ == pb_edit_step(old(self)@, key),
    {
        let ghost u0 = self@;
        match key {
            Key::Char(c) => self.pb_digit(c),
            Key::Backspace => {
                self.clear_pb = false;
                pop_char(&mut self.pb_input);
                assert(self@ == UiView { clear_pb: false, pb_input: pop_spec(u0.pb_input), ..u0 });
            },
            Key::Esc => {
                self.is_editing_pb = false;
            },
            _ => {},
        }
    }

    pub(crate) fn pb_key(&mut self, midi: &mut MidiState, key: Key) -> (e: KeyEffect)
        requires
            old(self).wf(),
            old(midi).wf(),
        ensures
            final(self).wf(),
            final(midi).wf(),
            (final(self)@, final(midi)@, e) == pb_step(old(self)@, old(midi)@, key),
    {
        if key == Key::Enter {
            self.pb_enter(midi);
        } else {
            self.pb_edit(key);
        }
        KeyEffect::Handled
    }

    pub(crate) fn division_char(&mut self, c: char)
        ensures
            final(self)@ == division_char_step(old(self)@, c),
    {
        if self.is_editing_divisions {
            if self.clear_divisions {
                self.divisions_input = String::new();
            }
            self.clear_divisions = false;
            push_char(&mut self.divisions_input, c);
        } else {
            if self.clear_interval {
                self.interval_input = String::new();
            }
            self.clear_interval = false;
            push_char(&mut self.interval_input, c);
        }
    }

    pub(crate) fn division_edit(&mut self, key: Key)
        requires
            old(self).wf(),
        ensures
            final(self).wf(),
            final(self)@ == division_edit_step(old(self)@, key),
    {
        match key {
            Key::Char(c) => self.division_char(c),
            Key::Backspace => if self.is_editing_divisions {
                pop_char(&mut self.divisions_input);
            } else {
                pop_char(&mut self.interval_input);
            },
            Key::Esc => {
                self.is_editing_divisions = false;
                self.is_editing_interval = false;
            },
            _ => {},
        }
    }

    pub(crate) fn division_key(&mut self, key: Key) -> (e: KeyEffect)
        requires
            old(self).wf(),
        ensures
            final(self).wf(),
            same((final(self)@, e), division_step(old(self)@, key)),
    {
        if key == Key::Enter {
            self.is_editing_divisions = false;
            self.is_editing_interval = false;
            self.active_tuning_mode = "equal_division".to_string();
            KeyEffect::ApplyEqualDivision
        } else {
            self.division_edit(key);
            KeyEffect::Handled
        }
    }

    #[verifier::rlimit(30)]
    pub(crate) fn edit_grid(&mut self, op: EditOp)
        requires
            old(self).wf(),
        ensures
            final(self).wf(),
            final(self)@ == edit_grid_field(old(self)@, op),
    {
        proof {
            lemma_strings_len(self.grid_open);
            lemma_strings_len(self.grid_unequal);
        }
        match self.focus {
            Focus::GridEdo => edit_text(&mut self.grid_edo, op),
            Focus::GridRefMidi => edit_text(&mut self.grid_ref_midi, op),
            Focus::GridRefPitch => edit_text(&mut self.grid_ref_pitch, op),
            Focus::GridHoriz => edit_text(&mut self.grid_horiz, op),
            Focus::GridCapo => edit_text(&mut self.grid_capo, op),
            Focus::GridOctave => edit_text(&mut self.grid_octave, op),
            Focus::GridOpen(i) => {
                edit_list(&mut self.grid_open, i, op);
                proof {
                    lemma_strings_len(self.grid_open);
                }
            },
            Focus::GridUnequal(i) => {
                edit_list(&mut self.grid_unequal, i, op);
                proof {
                    lemma_strings_len(self.grid_unequal);
                }
            },
            _ => {},
        }
    }

    pub(crate) fn grid_char(&mut self, c: char)
        requires
            old(self).wf(),
        ensures
            final(self).wf(),
            final(self)@ == grid_char_step(old(self)@, c),
    {
        if self.clear_grid {
            self.edit_grid(EditOp::Clear);
            self.clear_grid = false;
        }
        self.edit_grid(EditOp::Push(c));
    }

    pub(crate) fn grid_advance(&mut self)
        requires
            old(self).wf(),
        ensures
            final(self).wf(),
            final(self)@ == grid_advance(old(self)@),
    {
        match next_entry(self.focus) {
            Some(f) => {
                self.focus = f;
                self.clear_grid = true;
            },
            None => {
                self.is_editing_grid = false;
            },
        }
    }

    pub(crate) fn grid_enter(&mut self)
        requires
            old(self).wf(),
        ensures
            final(self).wf(),
            final(self)@ == grid_enter_step(old(self)@),
    {
        self.active_tuning_mode = "guitar_grid".to_string();
        self.grid_advance();
    }

    pub(crate) fn grid_key(&mut self, key: Key) -> (e: KeyEffect)
        requires
            old(self).wf(),
        ensures
            final(self).wf(),
            same((final(self)@, e), grid_step(old(self)@, key)),
    {
        match key {
            Key::Char(c) => {
                self.grid_char(c);
                KeyEffect::Handled
            },
            Key::Backspace => {
                self.edit_grid(EditOp::Pop);
                KeyEffect::Handled
            },
            Key::Enter => {
                self.grid_enter();
                KeyEffect::ApplyGrid
            },
            Key::Esc => {
                self.is_editing_grid = false;
                KeyEffect::Handled
            },
            _ => KeyEffect::Handled,
        }
    }

    pub(crate) fn enter_pitch_bend(&mut self, midi: &MidiState)
        requires
            old(self).focus == Focus::PitchBend,
        ensures
            (final(self)@, midi@, KeyEffect::Handled) == enter_router_step(old(self)@, midi@),
    {
        self.pb_input = decimal_u8(midi.pitch_bend_range());
        self.is_editing_pb = true;
        self.clear_pb = true;
    }

    pub(crate) fn enter_mode(&mut self, midi: &mut MidiState) -> (e: KeyEffect)
        requires
            old(self).focus == Focus::Mode,
            old(midi).wf(),
        ensures
            final(midi).wf(),
            (final(self)@, final(midi)@, e) == enter_router_step(old(self)@, old(midi)@),
    {
        if midi.toggle_output_mode() {
            self.log_line("Switched to MPE. Pitch bend range locked to 48.");
            KeyEffect::SendMpeConfiguration
        } else {
            self.log_line("Switched to Multi-timbral. Pitch bend range reset to 12.");
            KeyEffect::Handled
        }
    }

    pub(crate) fn enter_channel(&mut self, midi: &mut MidiState, i: usize)
        requires
            old(self).focus == Focus::Channel(i),
            i < 16,
            old(midi).wf(),
        ensures
            final(midi).wf(),
            (final(self)@, final(midi)@, KeyEffect::Handled) == enter_router_step(
                old(self)@,
                old(midi)@,
            ),
    {
        if !midi.toggle_channel(i) {
            self.log_line("Channel 1 is MPE Master (cannot disable).");
        }
    }

    pub(crate) fn enter_toggle(&mut self)
        ensures
            final(self)@ == enter_toggle_step(old(self)@),
    {
        if self.focus == Focus::GridModeToggle {
            self.grid_is_ji = !self.grid_is_ji;
        } else {
            self.grid_unequal_toggle = !self.grid_unequal_toggle;
        }
        self.active_tuning_mode = "guitar_grid".to_string();
    }

    pub(crate) fn enter_field(&mut self)
        ensures
            final(self)@ == enter_field_step(old(self)@),
    {
        let focus = self.focus;
        if focus == Focus::Divisions {
            self.is_editing_divisions = true;
            self.clear_divisions = true;
        } else if focus == Focus::Interval {
            self.is_editing_interval = true;
            self.clear_interval = true;
        } else {
            self.is_editing_grid = true;
            self.clear_grid = true;
        }
    }

    pub(crate) fn command(&mut self) -> (e: KeyEffect)
        ensures
            same((final(self)@, e), command_step(old(self)@)),
    {
        let ghost u0 = self@;
        let cmd = String::from_str(trim(self.input.as_str()));
        let is_quit = cmd.as_str().unicode_len() == 1 && cmd.as_str().get_char(0) == 'q';
        assert(is_quit == (cmd@ == seq!['q'])) by {
            if is_quit {
                assert(cmd@ =~= seq!['q']);
            }
        }
        if is_quit {
            self.input = String::new();
            KeyEffect::Quit
        } else {
            let (msg, e) = command_reply(cmd.as_str());
            assert(command_step(u0) == (log(UiView { input: seq![], ..u0 }, msg@), e));
            self.input = String::new();
            self.log_string(msg);
            e
        }
    }

    pub(crate) fn notepad_key(&mut self, key: Key) -> (e: KeyEffect)
        requires
            old(self).wf(),
        ensures
            final(self).wf(),
            (final(self)@, e) == notepad_step(old(self)@, key),
    {
        match key {
            Key::Esc => {
                self.is_typing_in_notepad = false;
                self.log_line("Exited Notepad.");
                KeyEffect::Handled
            },
            Key::Tab => {
                self.active_file_tab = if self.active_file_tab == 0 {
                    1
                } else {
                    0
                };
                KeyEffect::Handled
            },
            Key::Enter => {
                self.set_mode("file");
                KeyEffect::NotepadEnter
            },
            _ => KeyEffect::NotepadInput,
        }
    }

}

} // verus!
