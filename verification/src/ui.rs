//! The terminal interface's state, and the step functions that say how it
//! reacts to a key press.
//!
//! `UiState` holds what the interface shows and edits; `key_step` is its
//! reaction to one key press, which `UiState::handle_key` (module `keys`)
//! carries out. What needs the terminal, the menus, the text editors, the
//! files or floating-point tuning is returned as a `KeyEffect` for the
//! application to carry out.
use vstd::prelude::*;
use crate::midi::RouterView;
use crate::text::{decimal, is_digit, parse_u8_spec, same_text, trim_spec};
use crate::tuning::{builtin_tuning_spec, BuiltinTuning};

verus! {

/// A choice in the device menus.
#[derive(Clone, Copy, Debug, PartialEq, Eq, Structural)]
pub enum MenuAction {
    SelectInput(usize),
    SelectOutput(usize),
}

/// The interface element that has the focus.
#[derive(PartialEq, Eq, Structural, Clone, Copy, Debug)]
pub enum Focus {
    Input,
    Output,
    Mode,
    PitchBend,
    Channel(usize),
    Divisions,
    Interval,
    GridModeToggle,
    GridEdo,
    GridRefMidi,
    GridRefPitch,
    GridHoriz,
    GridCapo,
    GridOctave,
    GridUnequalToggle,
    GridUnequal(usize),
    GridOpen(usize),
    CommandInput,
    Notepad,
}

impl Focus {
    /// Indexed elements stay within their rows: 16 channels, 9 unequal
    /// frets, 8 open strings.
    pub open spec fn valid(self) -> bool {
        match self {
            Focus::Channel(i) => i < 16,
            Focus::GridUnequal(i) => i < 9,
            Focus::GridOpen(i) => i < 8,
            _ => true,
        }
    }
}

/// What the interface asks of the application's main loop.
#[derive(Clone, Copy, Debug, PartialEq, Eq, Structural)]
pub enum UiAction {
    Quit,
    ChangeInput(usize),
    ChangeOutput(usize),
    ChangeBoth(usize, usize),
}

/// An arrow key.
#[derive(PartialEq, Eq, Structural, Clone, Copy, Debug)]
pub enum Direction {
    Up,
    Down,
    Left,
    Right,
}

/// The element an arrow key moves the focus to, on the panel layout (the
/// grid panel's layout depends on its JI and unequal-frets switches).
pub open spec fn next_focus(current: Focus, direction: Direction, ji: bool, unequal: bool) -> Focus {
    match direction {
        Direction::Right => match current {
            Focus::Input => Focus::Output,
            Focus::Output => Focus::Mode,
            Focus::Mode => Focus::PitchBend,
            Focus::PitchBend => Focus::Channel(0),
            Focus::Channel(i) => if i < 15 {
                Focus::Channel((i + 1) as usize)
            } else {
                current
            },
            Focus::GridOctave | Focus::GridRefPitch | Focus::GridUnequalToggle | Focus::Interval => {
                Focus::Notepad
            },
            Focus::GridUnequal(i) => if i == 8 {
                Focus::Notepad
            } else if i < 8 {
                Focus::GridUnequal((i + 1) as usize)
            } else {
                current
            },
            Focus::Divisions => Focus::Interval,
            Focus::GridModeToggle => if ji {
                Focus::GridRefMidi
            } else {
                Focus::GridEdo
            },
            Focus::GridEdo => Focus::GridRefMidi,
            Focus::GridRefMidi => Focus::GridRefPitch,
            Focus::GridHoriz => Focus::GridCapo,
            Focus::GridCapo => Focus::GridOctave,
            Focus::GridOpen(i) => if i == 0 {
                Focus::GridModeToggle
            } else if i == 1 {
                if unequal {
                    Focus::GridCapo
                } else {
                    Focus::GridHoriz
                }
            } else if i == 3 {
                Focus::GridUnequalToggle
            } else if i == 4 && unequal {
                if ji {
                    Focus::GridModeToggle
                } else {
                    Focus::GridEdo
                }
            } else if i > 3 {
                Focus::GridUnequalToggle
            } else {
                current
            },
            _ => current,
        },
        Direction::Left => match current {
            Focus::Output => Focus::Input,
            Focus::Mode => Focus::Output,
            Focus::PitchBend => Focus::Mode,
            Focus::Channel(i) => if i == 0 {
                Focus::PitchBend
            } else {
                Focus::Channel((i - 1) as usize)
            },
            Focus::Notepad => Focus::Divisions,
            Focus::Interval => Focus::Divisions,
            Focus::GridRefMidi => if ji {
                Focus::GridModeToggle
            } else {
                Focus::GridEdo
            },
            Focus::GridEdo => Focus::GridModeToggle,
            Focus::GridModeToggle => Focus::GridOpen(0),
            Focus::GridRefPitch => Focus::GridRefMidi,
            Focus::GridHoriz => Focus::GridOpen(1),
            Focus::GridCapo => if unequal {
                Focus::GridOpen(1)
            } else {
                Focus::GridHoriz
            },
            Focus::GridOctave => Focus::GridCapo,
            Focus::GridUnequal(i) => if i == 0 {
                Focus::GridUnequalToggle
            } else {
                Focus::GridUnequal((i - 1) as usize)
            },
            Focus::GridUnequalToggle => Focus::GridOpen(3),
            _ => current,
        },
        Direction::Up => match current {
            Focus::Divisions | Focus::Interval => Focus::Channel(0),
            Focus::GridModeToggle => Focus::Divisions,
            Focus::GridEdo => Focus::Divisions,
            Focus::GridRefMidi => Focus::Interval,
            Focus::GridRefPitch => Focus::Interval,
            Focus::GridCapo => if unequal {
                Focus::GridOpen(1)
            } else {
                Focus::GridRefMidi
            },
            Focus::GridOctave => Focus::GridRefPitch,
            Focus::Channel(_) => Focus::Input,
            Focus::CommandInput => Focus::GridOpen(7),
            Focus::GridOpen(i) => if i > 0 {
                Focus::GridOpen((i - 1) as usize)
            } else {
                Focus::Divisions
            },
            Focus::GridUnequal(_) => Focus::GridUnequalToggle,
            Focus::GridUnequalToggle => if unequal {
                if ji {
                    Focus::GridModeToggle
                } else {
                    Focus::GridEdo
                }
            } else {
                Focus::GridHoriz
            },
            Focus::Notepad => Focus::Channel(0),
            _ => current,
        },
        Direction::Down => match current {
            Focus::Input | Focus::Output | Focus::Mode | Focus::PitchBend | Focus::Channel(_) => {
                Focus::Divisions
            },
            Focus::Notepad => Focus::CommandInput,
            Focus::GridModeToggle => if unequal {
                Focus::GridUnequalToggle
            } else {
                Focus::GridHoriz
            },
            Focus::GridEdo => if unequal {
                Focus::GridUnequalToggle
            } else {
                Focus::GridHoriz
            },
            Focus::GridOpen(i) => if i < 7 {
                Focus::GridOpen((i + 1) as usize)
            } else if i == 7 {
                Focus::CommandInput
            } else {
                current
            },
            Focus::GridHoriz => Focus::GridUnequalToggle,
            Focus::GridCapo => Focus::GridUnequalToggle,
            Focus::GridOctave => Focus::GridUnequalToggle,
            Focus::Divisions => Focus::GridOpen(0),
            Focus::Interval => Focus::GridRefMidi,
            Focus::GridRefMidi => Focus::GridCapo,
            Focus::GridRefPitch => Focus::GridOctave,
            Focus::GridUnequalToggle => if unequal {
                Focus::GridUnequal(0)
            } else {
                Focus::CommandInput
            },
            Focus::GridUnequal(_) => Focus::CommandInput,
            _ => current,
        },
    }
}

/// Moving the focus never leaves the panel layout: from a valid element an
/// arrow key always reaches a valid element.
pub proof fn law_focus_stays_valid(current: Focus, direction: Direction, ji: bool, unequal: bool)
    requires
        current.valid(),
    ensures
        next_focus(current, direction, ji, unequal).valid(),
{
}

/// The element an arrow key moves the focus to.
pub fn move_focus(current: Focus, direction: Direction, ji: bool, unequal: bool) -> (f: Focus)
    ensures
        f == next_focus(current, direction, ji, unequal),
{
    match direction {
        Direction::Right => match current {
            Focus::Input => Focus::Output,
            Focus::Output => Focus::Mode,
            Focus::Mode => Focus::PitchBend,
            Focus::PitchBend => Focus::Channel(0),
            Focus::Channel(i) if i < 15 => Focus::Channel(i + 1),
            Focus::GridUnequal(8) | Focus::GridOctave | Focus::GridRefPitch
            | Focus::GridUnequalToggle | Focus::Interval => Focus::Notepad,
            Focus::Divisions => Focus::Interval,
            Focus::GridOpen(0) => Focus::GridModeToggle,
            Focus::GridModeToggle => if ji {
                Focus::GridRefMidi
            } else {
                Focus::GridEdo
            },
            Focus::GridEdo => Focus::GridRefMidi,
            Focus::GridRefMidi => Focus::GridRefPitch,
            Focus::GridHoriz => Focus::GridCapo,
            Focus::GridCapo => Focus::GridOctave,
            Focus::GridUnequal(i) if i < 8 => Focus::GridUnequal(i + 1),
            Focus::GridOpen(1) => if unequal {
                Focus::GridCapo
            } else {
                Focus::GridHoriz
            },
            Focus::GridOpen(3) => Focus::GridUnequalToggle,
            Focus::GridOpen(4) if unequal => if ji {
                Focus::GridModeToggle
            } else {
                Focus::GridEdo
            },
            Focus::GridOpen(i) if i > 3 => Focus::GridUnequalToggle,
            _ => current,
        },
        Direction::Left => match current {
            Focus::Output => Focus::Input,
            Focus::Mode => Focus::Output,
            Focus::PitchBend => Focus::Mode,
            Focus::Channel(0) => Focus::PitchBend,
            Focus::Channel(i) if i > 0 => Focus::Channel(i - 1),
            Focus::Notepad => Focus::Divisions,
            Focus::Interval => Focus::Divisions,
            Focus::GridRefMidi => if ji {
                Focus::GridModeToggle
            } else {
                Focus::GridEdo
            },
            Focus::GridEdo => Focus::GridModeToggle,
            Focus::GridModeToggle => Focus::GridOpen(0),
            Focus::GridRefPitch => Focus::GridRefMidi,
            Focus::GridHoriz => Focus::GridOpen(1),
            Focus::GridCapo => if unequal {
                Focus::GridOpen(1)
            } else {
                Focus::GridHoriz
            },
            Focus::GridOctave => Focus::GridCapo,
            Focus::GridUnequal(0) => Focus::GridUnequalToggle,
            Focus::GridUnequal(i) if i > 0 => Focus::GridUnequal(i - 1),
            Focus::GridUnequalToggle => Focus::GridOpen(3),
            _ => current,
        },
        Direction::Up => match current {
            Focus::Divisions | Focus::Interval => Focus::Channel(0),
            Focus::GridModeToggle => Focus::Divisions,
            Focus::GridEdo => Focus::Divisions,
            Focus::GridRefMidi => Focus::Interval,
            Focus::GridRefPitch => Focus::Interval,
            Focus::GridCapo => if unequal {
                Focus::GridOpen(1)
            } else {
                Focus::GridRefMidi
            },
            Focus::GridOctave => Focus::GridRefPitch,
            Focus::Channel(_) => Focus::Input,
            Focus::CommandInput => Focus::GridOpen(7),
            Focus::GridOpen(i) if i > 0 => Focus::GridOpen(i - 1),
            Focus::GridOpen(0) => Focus::Divisions,
            Focus::GridUnequal(_) => Focus::GridUnequalToggle,
            Focus::GridUnequalToggle => if unequal {
                if ji {
                    Focus::GridModeToggle
                } else {
                    Focus::GridEdo
                }
            } else {
                Focus::GridHoriz
            },
            Focus::Notepad => Focus::Channel(0),
            _ => current,
        },
        Direction::Down => match current {
            Focus::Input | Focus::Output | Focus::Mode | Focus::PitchBend | Focus::Channel(_) => {
                Focus::Divisions
            },
            Focus::Notepad => Focus::CommandInput,
            Focus::GridModeToggle => if unequal {
                Focus::GridUnequalToggle
            } else {
                Focus::GridHoriz
            },
            Focus::GridEdo => if unequal {
                Focus::GridUnequalToggle
            } else {
                Focus::GridHoriz
            },
            Focus::GridOpen(i) if i < 7 => Focus::GridOpen(i + 1),
            Focus::GridOpen(7) => Focus::CommandInput,
            Focus::GridHoriz => Focus::GridUnequalToggle,
            Focus::GridCapo => Focus::GridUnequalToggle,
            Focus::GridOctave => Focus::GridUnequalToggle,
            Focus::Divisions => Focus::GridOpen(0),
            Focus::Interval => Focus::GridRefMidi,
            Focus::GridRefMidi => Focus::GridCapo,
            Focus::GridRefPitch => Focus::GridOctave,
            Focus::GridUnequalToggle => if unequal {
                Focus::GridUnequal(0)
            } else {
                Focus::CommandInput
            },
            Focus::GridUnequal(_) => Focus::CommandInput,
            _ => current,
        },
    }
}


/// The action a device-menu entry stands for.
pub fn menu_choice(a: MenuAction) -> (r: UiAction)
    ensures
        r == match a {
            MenuAction::SelectInput(i) => UiAction::ChangeInput(i),
            MenuAction::SelectOutput(i) => UiAction::ChangeOutput(i),
        },
{
    match a {
        MenuAction::SelectInput(i) => UiAction::ChangeInput(i),
        MenuAction::SelectOutput(i) => UiAction::ChangeOutput(i),
    }
}

/// The tuning panel whose settings retune the router.
#[derive(Clone, Copy, Debug, PartialEq, Eq, Structural)]
pub enum TuningPanel {
    EqualDivision,
    GuitarGrid,
    File,
}

/// The panel an active-tuning name selects: `equal_division`,
/// `guitar_grid` or `file`; none for any other name.
pub open spec fn tuning_panel_spec(mode: Seq<char>) -> Option<TuningPanel> {
    if mode == "equal_division"@ {
        Some(TuningPanel::EqualDivision)
    } else if mode == "guitar_grid"@ {
        Some(TuningPanel::GuitarGrid)
    } else if mode == "file"@ {
        Some(TuningPanel::File)
    } else {
        None
    }
}

/// The panel an active-tuning name selects.
pub fn tuning_panel(mode: &str) -> (p: Option<TuningPanel>)
    ensures
        p == tuning_panel_spec(mode@),
{
    if same_text(mode, "equal_division") {
        Some(TuningPanel::EqualDivision)
    } else if same_text(mode, "guitar_grid") {
        Some(TuningPanel::GuitarGrid)
    } else if same_text(mode, "file") {
        Some(TuningPanel::File)
    } else {
        None
    }
}

impl UiState {
    /// The horizontal steps the grid uses: the nine unequal frets when they
    /// are switched on, else the single horizontal step.
    pub fn horiz_steps(&self) -> (v: Vec<String>)
        ensures
            strings(v) == if self.grid_unequal_toggle {
                strings(self.grid_unequal)
            } else {
                seq![self.grid_horiz@]
            },
    {
        proof {
            lemma_strings(self.grid_unequal);
        }
        let mut v: Vec<String> = Vec::new();
        if self.grid_unequal_toggle {
            let mut i: usize = 0;
            while i < self.grid_unequal.len()
                invariant
                    i <= self.grid_unequal@.len(),
                    v@.len() == i,
                    forall|k: int| 0 <= k < i ==> #[trigger] v@[k]@ == self.grid_unequal@[k]@,
                decreases self.grid_unequal@.len() - i,
            {
                v.push(self.grid_unequal[i].clone());
                i = i + 1;
            }
            proof {
                lemma_strings_ext(v, strings(self.grid_unequal));
            }
        } else {
            v.push(self.grid_horiz.clone());
            proof {
                lemma_strings_ext(v, seq![self.grid_horiz@]);
            }
        }
        v
    }
}

/// The interface state that is not the terminal's: focus, edit buffers
/// and flags, device lists, command line, log, file tab and tuning mode.
pub struct UiState {
    pub focus: Focus,
    pub is_menu_active: bool,
    pub is_editing_pb: bool,
    pub clear_pb: bool,
    pub pb_input: String,
    pub is_editing_divisions: bool,
    pub clear_divisions: bool,
    pub divisions_input: String,
    pub is_editing_interval: bool,
    pub clear_interval: bool,
    pub interval_input: String,
    pub grid_is_ji: bool,
    pub grid_edo: String,
    pub grid_ref_midi: String,
    pub grid_ref_pitch: String,
    pub grid_horiz: String,
    pub grid_capo: String,
    pub grid_octave: String,
    pub grid_open: Vec<String>,
    pub grid_unequal: Vec<String>,
    pub grid_unequal_toggle: bool,
    pub is_editing_grid: bool,
    pub clear_grid: bool,
    pub in_ports: Vec<String>,
    pub out_ports: Vec<String>,
    pub selected_in: usize,
    pub selected_out: usize,
    pub input: String,
    pub logs: Vec<String>,
    pub active_file_tab: usize,
    pub is_typing_in_notepad: bool,
    pub pending_action: Option<char>,
    pub active_tuning_mode: String,
}

/// What the interface state holds, as values: texts as character
/// sequences, lists of texts as sequences of them.
pub struct UiView {
    pub focus: Focus,
    pub is_menu_active: bool,
    pub is_editing_pb: bool,
    pub clear_pb: bool,
    pub pb_input: Seq<char>,
    pub is_editing_divisions: bool,
    pub clear_divisions: bool,
    pub divisions_input: Seq<char>,
    pub is_editing_interval: bool,
    pub clear_interval: bool,
    pub interval_input: Seq<char>,
    pub grid_is_ji: bool,
    pub grid_edo: Seq<char>,
    pub grid_ref_midi: Seq<char>,
    pub grid_ref_pitch: Seq<char>,
    pub grid_horiz: Seq<char>,
    pub grid_capo: Seq<char>,
    pub grid_octave: Seq<char>,
    pub grid_open: Seq<Seq<char>>,
    pub grid_unequal: Seq<Seq<char>>,
    pub grid_unequal_toggle: bool,
    pub is_editing_grid: bool,
    pub clear_grid: bool,
    pub in_ports: Seq<Seq<char>>,
    pub out_ports: Seq<Seq<char>>,
    pub selected_in: usize,
    pub selected_out: usize,
    pub input: Seq<char>,
    pub logs: Seq<Seq<char>>,
    pub active_file_tab: usize,
    pub is_typing_in_notepad: bool,
    pub pending_action: Option<char>,
    pub active_tuning_mode: Seq<char>,
}

/// The texts of a list of strings.
#[verifier::opaque]
pub open spec fn strings(v: Vec<String>) -> Seq<Seq<char>> {
    v@.map_values(|s: String| s@)
}

pub(crate) proof fn lemma_strings(v: Vec<String>)
    ensures
        strings(v).len() == v@.len(),
        forall|i: int| 0 <= i < v@.len() ==> #[trigger] strings(v)[i] == v@[i]@,
{
    reveal(strings);
}

pub(crate) proof fn lemma_strings_len(v: Vec<String>)
    ensures
        strings(v).len() == v@.len(),
{
    reveal(strings);
}

pub(crate) proof fn lemma_strings_ext(v: Vec<String>, s: Seq<Seq<char>>)
    requires
        s.len() == v@.len(),
        forall|i: int| 0 <= i < v@.len() ==> #[trigger] s[i] == v@[i]@,
    ensures
        strings(v) == s,
{
    reveal(strings);
    assert(strings(v) =~= s);
}

impl View for UiState {
    type V = UiView;

    open spec fn view(&self) -> UiView {
        UiView {
            focus: self.focus,
            is_menu_active: self.is_menu_active,
            is_editing_pb: self.is_editing_pb,
            clear_pb: self.clear_pb,
            pb_input: self.pb_input@,
            is_editing_divisions: self.is_editing_divisions,
            clear_divisions: self.clear_divisions,
            divisions_input: self.divisions_input@,
            is_editing_interval: self.is_editing_interval,
            clear_interval: self.clear_interval,
            interval_input: self.interval_input@,
            grid_is_ji: self.grid_is_ji,
            grid_edo: self.grid_edo@,
            grid_ref_midi: self.grid_ref_midi@,
            grid_ref_pitch: self.grid_ref_pitch@,
            grid_horiz: self.grid_horiz@,
            grid_capo: self.grid_capo@,
            grid_octave: self.grid_octave@,
            grid_open: strings(self.grid_open),
            grid_unequal: strings(self.grid_unequal),
            grid_unequal_toggle: self.grid_unequal_toggle,
            is_editing_grid: self.is_editing_grid,
            clear_grid: self.clear_grid,
            in_ports: strings(self.in_ports),
            out_ports: strings(self.out_ports),
            selected_in: self.selected_in,
            selected_out: self.selected_out,
            input: self.input@,
            logs: strings(self.logs),
            active_file_tab: self.active_file_tab,
            is_typing_in_notepad: self.is_typing_in_notepad,
            pending_action: self.pending_action,
            active_tuning_mode: self.active_tuning_mode@,
        }
    }
}

impl UiView {
    /// Eight open strings, nine unequal frets, and a focus on the layout.
    pub open spec fn wf(self) -> bool {
        &&& self.grid_open.len() == 8
        &&& self.grid_unequal.len() == 9
        &&& self.focus.valid()
    }
}

impl UiState {
    pub open spec fn wf(&self) -> bool {
        self@.wf()
    }
}

impl Default for UiState {
    /// The interface at start-up: focus on the command line, an empty log
    /// but for the greeting, 12 divisions of 2/1, and a 41-EDO grid.
    fn default() -> (u: UiState)
        ensures
            u.wf(),
            u@.focus == Focus::CommandInput,
            !u@.is_menu_active && !u@.is_editing_pb && !u@.clear_pb,
            !u@.is_editing_divisions && !u@.clear_divisions,
            !u@.is_editing_interval && !u@.clear_interval,
            !u@.grid_is_ji && !u@.grid_unequal_toggle && !u@.is_editing_grid && !u@.clear_grid,
            u@.pb_input == Seq::<char>::empty(),
            u@.divisions_input == "12"@,
            u@.interval_input == "2/1"@,
            u@.grid_edo == "41"@,
            u@.grid_ref_midi == "48"@,
            u@.grid_ref_pitch == "260.89"@,
            u@.grid_horiz == "2"@,
            u@.grid_capo == "0"@,
            u@.grid_octave == "0"@,
            u@.grid_open == seq![
                "13"@,
                "0"@,
                "-17"@,
                "-28"@,
                "-41"@,
                "-52"@,
                "-65"@,
                "-82"@,
            ],
            u@.grid_unequal == Seq::new(9, |i: int| "2"@),
            u@.in_ports.len() == 0,
            u@.out_ports.len() == 0,
            u@.selected_in == 0,
            u@.selected_out == 0,
            u@.input == Seq::<char>::empty(),
            u@.logs == seq![
                "Welcome to Retune for All!"@,
                "Navigate to Settings with Arrow Keys to Configure."@,
            ],
            u@.active_file_tab == 0,
            !u@.is_typing_in_notepad,
            u@.pending_action is None,
            u@.active_tuning_mode == "equal_division"@,
    {
        let grid_open = vec![
            "13".to_string(),
            "0".to_string(),
            "-17".to_string(),
            "-28".to_string(),
            "-41".to_string(),
            "-52".to_string(),
            "-65".to_string(),
            "-82".to_string(),
        ];
        let mut grid_unequal: Vec<String> = Vec::new();
        let mut i: usize = 0;
        while i < 9
            invariant
                i <= 9,
                grid_unequal@.len() == i,
                forall|k: int| 0 <= k < i ==> #[trigger] grid_unequal@[k]@ == "2"@,
            decreases 9 - i,
        {
            grid_unequal.push("2".to_string());
            i = i + 1;
        }
        let logs = vec![
            "Welcome to Retune for All!".to_string(),
            "Navigate to Settings with Arrow Keys to Configure.".to_string(),
        ];
        let u = UiState {
            focus: Focus::CommandInput,
            is_menu_active: false,
            is_editing_pb: false,
            clear_pb: false,
            pb_input: String::new(),
            is_editing_divisions: false,
            clear_divisions: false,
            divisions_input: "12".to_string(),
            is_editing_interval: false,
            clear_interval: false,
            interval_input: "2/1".to_string(),
            grid_is_ji: false,
            grid_edo: "41".to_string(),
            grid_ref_midi: "48".to_string(),
            grid_ref_pitch: "260.89".to_string(),
            grid_horiz: "2".to_string(),
            grid_capo: "0".to_string(),
            grid_octave: "0".to_string(),
            grid_open,
            grid_unequal,
            grid_unequal_toggle: false,
            is_editing_grid: false,
            clear_grid: false,
            in_ports: Vec::new(),
            out_ports: Vec::new(),
            selected_in: 0,
            selected_out: 0,
            input: String::new(),
            logs,
            active_file_tab: 0,
            is_typing_in_notepad: false,
            pending_action: None,
            active_tuning_mode: "equal_division".to_string(),
        };
        proof {
            lemma_strings_ext(
                u.grid_open,
                seq!["13"@, "0"@, "-17"@, "-28"@, "-41"@, "-52"@, "-65"@, "-82"@],
            );
            lemma_strings_ext(u.grid_unequal, Seq::new(9, |i: int| "2"@));
            lemma_strings_ext(
                u.logs,
                seq![
                    "Welcome to Retune for All!"@,
                    "Navigate to Settings with Arrow Keys to Configure."@,
                ],
            );
            lemma_strings_ext(u.in_ports, Seq::<Seq<char>>::empty());
            lemma_strings_ext(u.out_ports, Seq::<Seq<char>>::empty());
        }
        u
    }
}


/// A key press, as far as the interface tells keys apart.
#[derive(PartialEq, Eq, Structural, Clone, Copy, Debug)]
pub enum Key {
    Char(char),
    Enter,
    Esc,
    Backspace,
    Tab,
    Up,
    Down,
    Left,
    Right,
    Other,
}

/// An operation on the open device menu.
#[derive(PartialEq, Eq, Structural, Clone, Copy, Debug)]
pub enum MenuOp {
    Up,
    Down,
    Left,
    Right,
    Select,
    Reset,
    Nothing,
}

/// What a key press asks of the application, besides the changes it made
/// to the interface state and the router.
#[derive(PartialEq, Eq, Structural, Clone, Copy, Debug)]
pub enum KeyEffect {
    /// Nothing more to do.
    Handled,
    /// Leave the interface.
    Quit,
    /// A device was chosen in the menu: reset the menu and return the action.
    MenuChoice(UiAction),
    /// Apply the operation to the device menu, then collect its selections.
    Menu(MenuOp),
    /// Open the device menu of the focused device field.
    OpenMenu,
    /// Load preset slot `preset<digit>`.
    LoadPreset(char),
    /// Save preset slot `preset<digit>`.
    SavePreset(char),
    /// Ask for scale and mapping files and load them.
    LoadFiles,
    /// Put the default 12-EDO scale text in the scale editor and retune.
    ResetScl,
    /// Put the default mapping text in the mapping editor and retune.
    ResetKbm,
    /// Retune by equal division from the division fields.
    ApplyEqualDivision,
    /// Retune from the grid fields.
    ApplyGrid,
    /// Hand the key to the active text editor.
    NotepadInput,
    /// Hand the key to the active text editor, then retune from the editors.
    NotepadEnter,
    /// Send the MPE configuration messages.
    SendMpeConfiguration,
    /// Retune with a built-in tuning.
    ApplyBuiltinTuning(BuiltinTuning),
}

pub open spec fn log(u: UiView, msg: Seq<char>) -> UiView {
    UiView { logs: u.logs.push(msg), ..u }
}

/// Some field is being edited, or a menu or text editor has the keys.
pub open spec fn editing(u: UiView) -> bool {
    ||| u.is_editing_grid
    ||| u.is_editing_divisions
    ||| u.is_editing_interval
    ||| u.is_menu_active
    ||| u.is_editing_pb
    ||| u.is_typing_in_notepad
}

/// The element a letter key jumps to.
#[verifier::opaque]
pub open spec fn hotkey(c: char, ji: bool, focus: Focus) -> Option<Focus> {
    if c == 'i' {
        Some(Focus::Input)
    } else if c == 'o' {
        Some(Focus::Output)
    } else if c == 't' {
        Some(Focus::Mode)
    } else if c == 'p' {
        Some(Focus::PitchBend)
    } else if c == 'c' {
        Some(Focus::Channel(0))
    } else if c == 'd' {
        Some(Focus::Divisions)
    } else if c == 'n' {
        Some(Focus::Interval)
    } else if c == 'm' {
        Some(Focus::GridModeToggle)
    } else if c == 'e' {
        if ji {
            None
        } else {
            Some(Focus::GridEdo)
        }
    } else if c == 'r' {
        Some(Focus::GridRefMidi)
    } else if c == 'z' {
        Some(Focus::GridRefPitch)
    } else if c == 'h' {
        Some(Focus::GridHoriz)
    } else if c == 'a' {
        Some(Focus::GridCapo)
    } else if c == 'v' {
        Some(Focus::GridOctave)
    } else if c == 'u' {
        Some(Focus::GridUnequalToggle)
    } else if c == 's' {
        Some(Focus::GridOpen(0))
    } else if c == 'f' {
        Some(Focus::Notepad)
    } else if c == 'q' && focus != Focus::CommandInput {
        Some(Focus::CommandInput)
    } else {
        None
    }
}

/// The slot a key names after `P` or `S`: a digit from 1 to 9.
pub open spec fn slot_digit(key: Key) -> Option<char> {
    match key {
        Key::Char(c) => if is_digit(c) && c != '0' {
            Some(c)
        } else {
            None
        },
        _ => None,
    }
}

/// A key after `P` or `S`: a digit from 1 to 9 loads or saves that slot,
/// any other key cancels.
pub open spec fn pending_step(u: UiView, action: char, key: Key) -> (UiView, KeyEffect) {
    let u1 = UiView { pending_action: None, ..u };
    match slot_digit(key) {
        Some(c) => if action == 'P' {
            (u1, KeyEffect::LoadPreset(c))
        } else if action == 'S' {
            (u1, KeyEffect::SavePreset(c))
        } else {
            (u1, KeyEffect::Handled)
        },
        None => (log(u1, "Cancelled."@), KeyEffect::Handled),
    }
}

/// The letter commands available while nothing is being edited.
#[verifier::opaque]
pub open spec fn global_step(u: UiView, c: char) -> Option<(UiView, KeyEffect)> {
    if c == 'P' {
        Some(
            (
                log(
                    UiView { pending_action: Some('P'), ..u },
                    "Press 1-9 to LOAD, or any other key to cancel."@,
                ),
                KeyEffect::Handled,
            ),
        )
    } else if c == 'S' {
        Some(
            (
                log(
                    UiView { pending_action: Some('S'), ..u },
                    "Press 1-9 to SAVE, or any other key to cancel."@,
                ),
                KeyEffect::Handled,
            ),
        )
    } else if c == 'L' {
        Some((UiView { active_tuning_mode: "file"@, ..u }, KeyEffect::LoadFiles))
    } else if c == 'C' {
        Some((UiView { active_file_tab: 0, active_tuning_mode: "file"@, ..u }, KeyEffect::ResetScl))
    } else if c == 'K' {
        Some((UiView { active_file_tab: 1, active_tuning_mode: "file"@, ..u }, KeyEffect::ResetKbm))
    } else {
        match hotkey(c, u.grid_is_ji, u.focus) {
            Some(f) => Some((UiView { focus: f, ..u }, KeyEffect::Handled)),
            None => None,
        }
    }
}

/// Keys while a device menu is open: a digit picks that entry of the
/// focused device list, arrows and Enter go to the menu, Esc closes it.
#[verifier::opaque]
pub open spec fn menu_step(u: UiView, key: Key) -> (UiView, KeyEffect) {
    match key {
        Key::Char(c) => if is_digit(c) && c != '0' {
            let idx = ((c as u32) - 49) as usize;
            let closed = UiView { is_menu_active: false, ..u };
            if u.focus == Focus::Input && idx < u.in_ports.len() {
                (closed, KeyEffect::MenuChoice(UiAction::ChangeInput(idx)))
            } else if u.focus == Focus::Output && idx < u.out_ports.len() {
                (closed, KeyEffect::MenuChoice(UiAction::ChangeOutput(idx)))
            } else {
                (u, KeyEffect::Menu(MenuOp::Nothing))
            }
        } else {
            (u, KeyEffect::Menu(MenuOp::Nothing))
        },
        Key::Up => (u, KeyEffect::Menu(MenuOp::Up)),
        Key::Down => (u, KeyEffect::Menu(MenuOp::Down)),
        Key::Left => (u, KeyEffect::Menu(MenuOp::Left)),
        Key::Right => (u, KeyEffect::Menu(MenuOp::Right)),
        Key::Enter => (u, KeyEffect::Menu(MenuOp::Select)),
        Key::Esc => (UiView { is_menu_active: false, ..u }, KeyEffect::Menu(MenuOp::Reset)),
        _ => (u, KeyEffect::Menu(MenuOp::Nothing)),
    }
}

/// The bytes of a text's UTF-8 encoding (`str::len`).
pub open spec fn byte_len(s: Seq<char>) -> usize {
    vstd::utf8::encode_utf8(s).len() as usize
}

/// `v.clamp(1, 96)`.
pub open spec fn clamp_range(v: u8) -> u8 {
    if v < 1 {
        1
    } else if v > 96 {
        96
    } else {
        v
    }
}

/// A character typed into the pitch-bend field: the first digit replaces
/// the old value, at most three bytes are kept, other characters are
/// ignored.
#[verifier::opaque]
pub open spec fn pb_digit_step(u: UiView, c: char) -> UiView {
    if is_digit(c) {
        let base = if u.clear_pb {
            seq![]
        } else {
            u.pb_input
        };
        let text = if byte_len(base) < 3 {
            base.push(c)
        } else {
            base
        };
        UiView { pb_input: text, clear_pb: false, ..u }
    } else {
        u
    }
}

/// Enter in the pitch-bend field: a value that parses as a byte sets the
/// range, clamped to 1..=96, and is logged; editing stops either way.
#[verifier::opaque]
pub open spec fn pb_enter_step(u: UiView, m: RouterView) -> (UiView, RouterView) {
    let u1 = UiView { is_editing_pb: false, ..u };
    match parse_u8_spec(u.pb_input) {
        Some(v) => (
            log(u1, "Pitch bend range updated to "@ + decimal(clamp_range(v) as nat)),
            RouterView { pitch_bend_range: clamp_range(v), ..m },
        ),
        None => (u1, m),
    }
}

/// Keys other than Enter while the pitch-bend range is edited: digits,
/// Backspace, and Esc, which stops editing.
pub open spec fn pb_edit_step(u: UiView, key: Key) -> UiView {
    match key {
        Key::Char(c) => pb_digit_step(u, c),
        Key::Backspace => UiView { clear_pb: false, pb_input: pop_spec(u.pb_input), ..u },
        Key::Esc => UiView { is_editing_pb: false, ..u },
        _ => u,
    }
}

/// Keys while the pitch-bend range is edited: up to three digits, Enter
/// sets a range from 1 to 96 semitones, Esc leaves.
pub open spec fn pb_step(u: UiView, m: RouterView, key: Key) -> (UiView, RouterView, KeyEffect) {
    if key == Key::Enter {
        let (u1, m1) = pb_enter_step(u, m);
        (u1, m1, KeyEffect::Handled)
    } else {
        (pb_edit_step(u, key), m, KeyEffect::Handled)
    }
}

/// A character typed while the division count (or else the interval) is
/// edited: the first one replaces the old text, later ones are appended.
pub open spec fn division_char_step(u: UiView, c: char) -> UiView {
    if u.is_editing_divisions {
        let old_text = if u.clear_divisions {
            seq![]
        } else {
            u.divisions_input
        };
        UiView { divisions_input: old_text.push(c), clear_divisions: false, ..u }
    } else {
        let old_text = if u.clear_interval {
            seq![]
        } else {
            u.interval_input
        };
        UiView { interval_input: old_text.push(c), clear_interval: false, ..u }
    }
}

/// Keys other than Enter while the division count or the interval is
/// edited: characters, Backspace, and Esc, which stops editing.
pub open spec fn division_edit_step(u: UiView, key: Key) -> UiView {
    match key {
        Key::Char(c) => division_char_step(u, c),
        Key::Backspace => if u.is_editing_divisions {
            UiView { divisions_input: pop_spec(u.divisions_input), ..u }
        } else {
            UiView { interval_input: pop_spec(u.interval_input), ..u }
        },
        Key::Esc => UiView { is_editing_divisions: false, is_editing_interval: false, ..u },
        _ => u,
    }
}

/// Keys while the division count or the interval is edited: the first
/// character typed replaces the old text, Enter retunes, Esc leaves.
pub open spec fn division_step(u: UiView, key: Key) -> (UiView, KeyEffect) {
    if key == Key::Enter {
        (
            UiView {
                is_editing_divisions: false,
                is_editing_interval: false,
                active_tuning_mode: "equal_division"@,
                ..u
            },
            KeyEffect::ApplyEqualDivision,
        )
    } else {
        (division_edit_step(u, key), KeyEffect::Handled)
    }
}

/// `String::pop` on a text.
pub open spec fn pop_spec(s: Seq<char>) -> Seq<char> {
    if s.len() > 0 {
        s.drop_last()
    } else {
        s
    }
}

/// Keys while typing in the scale or mapping editor: Esc leaves, Tab
/// switches editors, Enter goes to the editor and retunes, anything else
/// goes to the editor.
pub open spec fn notepad_step(u: UiView, key: Key) -> (UiView, KeyEffect) {
    match key {
        Key::Esc => (log(UiView { is_typing_in_notepad: false, ..u }, "Exited Notepad."@), KeyEffect::Handled),
        Key::Tab => (
            UiView {
                active_file_tab: if u.active_file_tab == 0 {
                    1
                } else {
                    0
                },
                ..u
            },
            KeyEffect::Handled,
        ),
        Key::Enter => (UiView { active_tuning_mode: "file"@, ..u }, KeyEffect::NotepadEnter),
        _ => (u, KeyEffect::NotepadInput),
    }
}

/// An edit of a text field.
#[derive(PartialEq, Eq, Structural, Clone, Copy, Debug)]
pub enum EditOp {
    Clear,
    Push(char),
    Pop,
}

pub open spec fn apply_edit(s: Seq<char>, op: EditOp) -> Seq<char> {
    match op {
        EditOp::Clear => seq![],
        EditOp::Push(c) => s.push(c),
        EditOp::Pop => pop_spec(s),
    }
}

/// The grid field that has the focus, edited; nothing when the focus is
/// not on a grid field.
pub open spec fn edit_grid_field(u: UiView, op: EditOp) -> UiView {
    match u.focus {
        Focus::GridEdo => UiView { grid_edo: apply_edit(u.grid_edo, op), ..u },
        Focus::GridRefMidi => UiView { grid_ref_midi: apply_edit(u.grid_ref_midi, op), ..u },
        Focus::GridRefPitch => UiView { grid_ref_pitch: apply_edit(u.grid_ref_pitch, op), ..u },
        Focus::GridHoriz => UiView { grid_horiz: apply_edit(u.grid_horiz, op), ..u },
        Focus::GridCapo => UiView { grid_capo: apply_edit(u.grid_capo, op), ..u },
        Focus::GridOctave => UiView { grid_octave: apply_edit(u.grid_octave, op), ..u },
        Focus::GridOpen(i) => UiView {
            grid_open: u.grid_open.update(i as int, apply_edit(u.grid_open[i as int], op)),
            ..u
        },
        Focus::GridUnequal(i) => UiView {
            grid_unequal: u.grid_unequal.update(i as int, apply_edit(u.grid_unequal[i as int], op)),
            ..u
        },
        _ => u,
    }
}

/// A character typed into the focused grid field: the first one replaces
/// the old text, later ones are appended.
pub open spec fn grid_char_step(u: UiView, c: char) -> UiView {
    let u1 = if u.clear_grid {
        UiView { clear_grid: false, ..edit_grid_field(u, EditOp::Clear) }
    } else {
        u
    };
    edit_grid_field(u1, EditOp::Push(c))
}

/// The grid field after `f` in spreadsheet entry: the next open string or
/// unequal fret, up to the eighth; none after that or elsewhere.
pub open spec fn next_entry_field(f: Focus) -> Option<Focus> {
    match f {
        Focus::GridOpen(i) => if i < 7 {
            Some(Focus::GridOpen((i + 1) as usize))
        } else {
            None
        },
        Focus::GridUnequal(i) => if i < 7 {
            Some(Focus::GridUnequal((i + 1) as usize))
        } else {
            None
        },
        _ => None,
    }
}

/// After Enter in a grid field: the focus moves on to the next entry field
/// with its text to be replaced, or editing stops.
pub open spec fn grid_advance(u: UiView) -> UiView {
    match next_entry_field(u.focus) {
        Some(f) => UiView { focus: f, clear_grid: true, ..u },
        None => UiView { is_editing_grid: false, ..u },
    }
}

/// Enter in a grid field: the grid panel becomes the active tuning and the
/// focus moves on.
pub open spec fn grid_enter_step(u: UiView) -> UiView {
    grid_advance(UiView { active_tuning_mode: "guitar_grid"@, ..u })
}

/// Keys while a grid field is edited: characters and Backspace edit it,
/// Enter retunes from the grid and moves on, Esc stops editing.
pub open spec fn grid_step(u: UiView, key: Key) -> (UiView, KeyEffect) {
    match key {
        Key::Char(c) => (grid_char_step(u, c), KeyEffect::Handled),
        Key::Backspace => (edit_grid_field(u, EditOp::Pop), KeyEffect::Handled),
        Key::Enter => (grid_enter_step(u), KeyEffect::ApplyGrid),
        Key::Esc => (UiView { is_editing_grid: false, ..u }, KeyEffect::Handled),
        _ => (u, KeyEffect::Handled),
    }
}

/// The log line and effect of a command other than `q`: one that names a
/// built-in tuning selects it; anything else is reported unknown.
pub open spec fn command_reply(cmd: Seq<char>) -> (Seq<char>, KeyEffect) {
    match builtin_tuning_spec(cmd) {
        Some(t) => ("Preset "@ + cmd + " loaded."@, KeyEffect::ApplyBuiltinTuning(t)),
        None => ("Unknown command: "@ + cmd, KeyEffect::Handled),
    }
}

/// The line typed at the command prompt, taken (without surrounding
/// whitespace): `q` quits, anything else is answered in the log. The
/// prompt is emptied either way.
pub open spec fn command_step(u: UiView) -> (UiView, KeyEffect) {
    let cmd = trim_spec(u.input);
    let u1 = UiView { input: seq![], ..u };
    if cmd == seq!['q'] {
        (u1, KeyEffect::Quit)
    } else {
        let (msg, e) = command_reply(cmd);
        (log(u1, msg), e)
    }
}

/// Enter on an element of the output settings: the pitch-bend field starts
/// editing from the current range; the output type switches between MPE
/// (range 48, configuration sent) and multi-timbral (range 12); a channel
/// is switched on or off, but for the MPE master channel.
pub open spec fn enter_router_step(u: UiView, m: RouterView) -> (UiView, RouterView, KeyEffect) {
    match u.focus {
        Focus::PitchBend => (
            UiView {
                pb_input: decimal(m.pitch_bend_range as nat),
                is_editing_pb: true,
                clear_pb: true,
                ..u
            },
            m,
            KeyEffect::Handled,
        ),
        Focus::Mode => if !m.is_mpe {
            (
                log(u, "Switched to MPE. Pitch bend range locked to 48."@),
                RouterView { is_mpe: true, pitch_bend_range: 48, ..m },
                KeyEffect::SendMpeConfiguration,
            )
        } else {
            (
                log(u, "Switched to Multi-timbral. Pitch bend range reset to 12."@),
                RouterView { is_mpe: false, pitch_bend_range: 12, ..m },
                KeyEffect::Handled,
            )
        },
        Focus::Channel(i) => if m.is_mpe && i == 0 {
            (log(u, "Channel 1 is MPE Master (cannot disable)."@), m, KeyEffect::Handled)
        } else {
            (
                u,
                RouterView { enabled: m.enabled.update(i as int, !m.enabled[i as int]), ..m },
                KeyEffect::Handled,
            )
        },
        _ => (u, m, KeyEffect::Handled),
    }
}

/// Enter on a switch of the grid panel: it flips, and the grid retunes.
pub open spec fn enter_toggle_step(u: UiView) -> UiView {
    if u.focus == Focus::GridModeToggle {
        UiView { grid_is_ji: !u.grid_is_ji, active_tuning_mode: "guitar_grid"@, ..u }
    } else {
        UiView {
            grid_unequal_toggle: !u.grid_unequal_toggle,
            active_tuning_mode: "guitar_grid"@,
            ..u
        }
    }
}

/// Enter on a text field: editing starts, and the first character typed
/// will replace the text.
pub open spec fn enter_field_step(u: UiView) -> UiView {
    match u.focus {
        Focus::Divisions => UiView { is_editing_divisions: true, clear_divisions: true, ..u },
        Focus::Interval => UiView { is_editing_interval: true, clear_interval: true, ..u },
        _ => UiView { is_editing_grid: true, clear_grid: true, ..u },
    }
}

/// The focused element's reaction to Enter.
pub open spec fn enter_step(u: UiView, m: RouterView) -> (UiView, RouterView, KeyEffect) {
    match u.focus {
        Focus::Input | Focus::Output => (UiView { is_menu_active: true, ..u }, m, KeyEffect::OpenMenu),
        Focus::PitchBend | Focus::Mode | Focus::Channel(_) => enter_router_step(u, m),
        Focus::GridModeToggle | Focus::GridUnequalToggle => (
            enter_toggle_step(u),
            m,
            KeyEffect::ApplyGrid,
        ),
        Focus::Notepad => (
            log(
                UiView { is_typing_in_notepad: true, ..u },
                "Entered Notepad. Press Esc to exit. Press Tab to switch files."@,
            ),
            m,
            KeyEffect::Handled,
        ),
        Focus::CommandInput => {
            let (u1, e) = command_step(u);
            (u1, m, e)
        },
        _ => (enter_field_step(u), m, KeyEffect::Handled),
    }
}

/// The direction of an arrow key.
pub open spec fn arrow_direction(key: Key) -> Option<Direction> {
    match key {
        Key::Up => Some(Direction::Up),
        Key::Down => Some(Direction::Down),
        Key::Left => Some(Direction::Left),
        Key::Right => Some(Direction::Right),
        _ => None,
    }
}

/// Typing while nothing is being edited: the command prompt, when it has
/// the focus, takes characters and Backspace; other keys do nothing.
pub open spec fn prompt_step(u: UiView, key: Key) -> UiView {
    if u.focus == Focus::CommandInput {
        match key {
            Key::Char(c) => UiView { input: u.input.push(c), ..u },
            Key::Backspace => UiView { input: pop_spec(u.input), ..u },
            _ => u,
        }
    } else {
        u
    }
}

/// Keys while nothing is being edited: arrows move the focus, Enter acts on
/// the focused element, and the command prompt takes typing.
pub open spec fn nav_step(u: UiView, m: RouterView, key: Key) -> (UiView, RouterView, KeyEffect) {
    match arrow_direction(key) {
        Some(d) => (
            UiView { focus: next_focus(u.focus, d, u.grid_is_ji, u.grid_unequal_toggle), ..u },
            m,
            KeyEffect::Handled,
        ),
        None => if key == Key::Enter {
            enter_step(u, m)
        } else {
            (prompt_step(u, key), m, KeyEffect::Handled)
        },
    }
}

/// Keys that reach the editing modes: the open menu, then whichever field
/// or editor is being edited, otherwise navigation.
pub open spec fn mode_step(u: UiView, m: RouterView, key: Key) -> (UiView, RouterView, KeyEffect) {
    if u.is_menu_active {
        let (u1, e) = menu_step(u, key);
        (u1, m, e)
    } else if u.is_editing_pb {
        pb_step(u, m, key)
    } else if u.is_editing_divisions || u.is_editing_interval {
        let (u1, e) = division_step(u, key);
        (u1, m, e)
    } else if u.is_typing_in_notepad {
        let (u1, e) = notepad_step(u, key);
        (u1, m, e)
    } else if u.is_editing_grid {
        let (u1, e) = grid_step(u, key);
        (u1, m, e)
    } else {
        nav_step(u, m, key)
    }
}

/// The interface's reaction to one key press: a pending preset command
/// takes the next key (a slot digit, or anything else to cancel);
/// otherwise, while nothing is edited, the letter commands and hotkeys come
/// first; every other key goes to the editing modes.
pub open spec fn key_step(u: UiView, m: RouterView, key: Key) -> (UiView, RouterView, KeyEffect) {
    match u.pending_action {
        Some(a) => {
            let (u1, e) = pending_step(u, a, key);
            (u1, m, e)
        },
        None => match key {
            Key::Char(c) => if !editing(u) {
                match global_step(u, c) {
                    Some((u1, e)) => (u1, m, e),
                    None => mode_step(u, m, key),
                }
            } else {
                mode_step(u, m, key)
            },
            _ => mode_step(u, m, key),
        },
    }
}


/// Two outcomes of a key press agree: the same interface state and the
/// same effect.
pub open spec fn same(a: (UiView, KeyEffect), b: (UiView, KeyEffect)) -> bool {
    a == b
}

proof fn lemma_mode_step_voices(u: UiView, m: RouterView, key: Key)
    ensures
        ({
            let m1 = mode_step(u, m, key).1;
            m1 == RouterView {
                pitch_bend_range: m1.pitch_bend_range,
                is_mpe: m1.is_mpe,
                enabled: m1.enabled,
                ..m
            }
        }),
{
    reveal(pb_enter_step);
}

/// Key presses never touch the voices: whatever is pressed, the sounding
/// notes, their channels, the busy channels and the allocation order stay as
/// they were; only the pitch-bend range, the output mode and the enabled
/// channels can change.
pub proof fn law_keys_leave_voices_alone(u: UiView, m: RouterView, key: Key)
    ensures
        ({
            let m1 = key_step(u, m, key).1;
            m1 == RouterView {
                pitch_bend_range: m1.pitch_bend_range,
                is_mpe: m1.is_mpe,
                enabled: m1.enabled,
                ..m
            }
        }),
{
    if u.pending_action is None {
        lemma_mode_step_voices(u, m, key);
        if let Key::Char(c) = key {
            if !editing(u) && global_step(u, c) is Some {
                assert(key_step(u, m, key).1 == m);
            }
        }
    }
}

/// `a` starts with `b`.
spec fn extends(a: Seq<Seq<char>>, b: Seq<Seq<char>>) -> bool {
    b.len() <= a.len() && a.subrange(0, b.len() as int) == b
}

proof fn lemma_push_extends(b: Seq<Seq<char>>, x: Seq<char>)
    ensures
        extends(b.push(x), b),
        extends(b, b),
{
    assert(b.push(x).subrange(0, b.len() as int) =~= b);
    assert(b.subrange(0, b.len() as int) =~= b);
}

proof fn lemma_mode_step_logs(u: UiView, m: RouterView, key: Key)
    ensures
        mode_step(u, m, key).0.logs == u.logs || exists|x: Seq<char>|
            mode_step(u, m, key).0.logs == #[trigger] u.logs.push(x),
{
    reveal(pb_enter_step);
    reveal(pb_digit_step);
    reveal(menu_step);
}

/// The log only grows: a key press keeps every line logged so far and can
/// only add lines after them.
pub proof fn law_log_only_grows(u: UiView, m: RouterView, key: Key)
    ensures
        ({
            let logs = key_step(u, m, key).0.logs;
            &&& u.logs.len() <= logs.len()
            &&& logs.subrange(0, u.logs.len() as int) == u.logs
        }),
{
    let logs = key_step(u, m, key).0.logs;
    lemma_push_extends(u.logs, "Cancelled."@);
    if u.pending_action is None {
        lemma_mode_step_logs(u, m, key);
        if logs != u.logs && logs == mode_step(u, m, key).0.logs {
            let x = choose|x: Seq<char>| logs == #[trigger] u.logs.push(x);
            lemma_push_extends(u.logs, x);
        }
        if let Key::Char(c) = key {
            if !editing(u) && global_step(u, c) is Some {
                reveal(global_step);
                lemma_push_extends(u.logs, "Press 1-9 to LOAD, or any other key to cancel."@);
                lemma_push_extends(u.logs, "Press 1-9 to SAVE, or any other key to cancel."@);
            }
        }
    }
    assert(extends(logs, u.logs));
}

} // verus!
