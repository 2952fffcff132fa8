//! The interface's reaction to one key press.
//!
//! `UiState::handle_key` hands the key to a pending preset command, the
//! letter commands, the open menu, the field being edited or the text
//! editors, or else moves the focus or acts on the focused element. Its
//! contract is the interface's step function `ui::key_step`.
use vstd::prelude::*;
use crate::midi::MidiState;
use crate::text::{pop_char, push_char};
use crate::ui;
use crate::ui::{
    enter_step, key_step, law_focus_stays_valid, mode_step, move_focus, nav_step, next_focus, prompt_step,
    Direction, Focus, Key, KeyEffect, UiState, UiView,
};

verus! {

/// The direction of an arrow key.
fn arrow_direction(key: Key) -> (d: Option<Direction>)
    ensures
        d == ui::arrow_direction(key),
{
    match key {
        Key::Up => Some(Direction::Up),
        Key::Down => Some(Direction::Down),
        Key::Left => Some(Direction::Left),
        Key::Right => Some(Direction::Right),
        _ => None,
    }
}

impl UiState {
    /// Some field is being edited, or a menu or text editor has the keys.
    pub fn is_editing(&self) -> (b: bool)
        ensures
            b == crate::ui::editing(self@),
    {
        self.is_editing_grid || self.is_editing_divisions || self.is_editing_interval
            || self.is_menu_active || self.is_editing_pb || self.is_typing_in_notepad
    }

    fn arrow(&mut self, direction: Direction)
        requires
            old(self).wf(),
        ensures
            final(self).wf(),
            final(self)@ == (UiView {
                focus: next_focus(
                    old(self)@.focus,
                    direction,
                    old(self)@.grid_is_ji,
                    old(self)@.grid_unequal_toggle,
                ),
                ..old(self)@
            }),
    {
        let f = move_focus(self.focus, direction, self.grid_is_ji, self.grid_unequal_toggle);
        proof {
            law_focus_stays_valid(self.focus, direction, self.grid_is_ji, self.grid_unequal_toggle);
        }
        self.focus = f;
    }

    fn enter_key(&mut self, midi: &mut MidiState) -> (e: KeyEffect)
        requires
            old(self).wf(),
            old(midi).wf(),
        ensures
            final(self).wf(),
            final(midi).wf(),
            (final(self)@, final(midi)@, e) == enter_step(old(self)@, old(midi)@),
    {
        let focus = self.focus;
        match focus {
            Focus::Input | Focus::Output => {
                self.is_menu_active = true;
                KeyEffect::OpenMenu
            },
            Focus::PitchBend => {
                self.enter_pitch_bend(midi);
                KeyEffect::Handled
            },
            Focus::Mode => self.enter_mode(midi),
            Focus::Channel(i) => {
                self.enter_channel(midi, i);
                KeyEffect::Handled
            },
            Focus::GridModeToggle | Focus::GridUnequalToggle => {
                self.enter_toggle();
                KeyEffect::ApplyGrid
            },
            Focus::Notepad => {
                self.is_typing_in_notepad = true;
                self.log_line("Entered Notepad. Press Esc to exit. Press Tab to switch files.");
                KeyEffect::Handled
            },
            Focus::CommandInput => self.command(),
            _ => {
                self.enter_field();
                KeyEffect::Handled
            },
        }
    }

    fn prompt_key(&mut self, key: Key)
        ensures
            final(self)@ == prompt_step(old(self)@, key),
    {
        if self.focus == Focus::CommandInput {
            let mut text = self.input.clone();
            match key {
                Key::Char(c) => push_char(&mut text, c),
                Key::Backspace => pop_char(&mut text),
                _ => {},
            }
            self.input = text;
        }
    }

    fn nav_key(&mut self, midi: &mut MidiState, key: Key) -> (e: KeyEffect)
        requires
            old(self).wf(),
            old(midi).wf(),
        ensures
            final(self).wf(),
            final(midi).wf(),
            (final(self)@, final(midi)@, e) == nav_step(old(self)@, old(midi)@, key),
    {
        match arrow_direction(key) {
            Some(d) => {
                self.arrow(d);
                KeyEffect::Handled
            },
            None => if key == Key::Enter {
                self.enter_key(midi)
            } else {
                self.prompt_key(key);
                KeyEffect::Handled
            },
        }
    }

    fn mode_key(&mut self, midi: &mut MidiState, key: Key) -> (e: KeyEffect)
        requires
            old(self).wf(),
            old(midi).wf(),
        ensures
            final(self).wf(),
            final(midi).wf(),
            (final(self)@, final(midi)@, e) == mode_step(old(self)@, old(midi)@, key),
    {
        if self.is_menu_active {
            self.menu_key(key)
        } else if self.is_editing_pb {
            self.pb_key(midi, key)
        } else if self.is_editing_divisions || self.is_editing_interval {
            self.division_key(key)
        } else if self.is_typing_in_notepad {
            self.notepad_key(key)
        } else if self.is_editing_grid {
            self.grid_key(key)
        } else {
            self.nav_key(midi, key)
        }
    }

    /// The interface's reaction to one key press. Returns what is left for
    /// the application to do: the device menu, the text editors, the files,
    /// the tuning arithmetic and the MIDI output are outside this state.
    pub fn handle_key(&mut self, midi: &mut MidiState, key: Key) -> (e: KeyEffect)
        requires
            old(self).wf(),
            old(midi).wf(),
        ensures
            final(self).wf(),
            final(midi).wf(),
            (final(self)@, final(midi)@, e) == key_step(old(self)@, old(midi)@, key),
    {
        match self.pending_action {
            Some(a) => self.pending_key(a, key),
            None => match key {
                Key::Char(c) => if !self.is_editing() {
                    match self.global_key(c) {
                        Some(e) => e,
                        None => self.mode_key(midi, key),
                    }
                } else {
                    self.mode_key(midi, key)
                },
                _ => self.mode_key(midi, key),
            },
        }
    }
}


} // verus!
