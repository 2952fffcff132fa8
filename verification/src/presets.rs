//! Saved presets: the interface settings a preset slot holds, how the
//! interface takes them up on loading and what it gives on saving.
use vstd::prelude::*;
use vstd::string::{StrSliceExecFns, StringExecFns};
use crate::midi::{enabled_numbers, MidiState, RouterView};
use crate::text::{
    ascii_lower, contains_ignore_case, contains_mpe, contains_seq, contains_str, decimal, decimal_u8,
    eq_ignore_case, occurs_at,
};
use crate::ui::{lemma_strings, lemma_strings_ext, lemma_strings_len, log, strings, UiAction, UiState, UiView};

verus! {

/// The equal-division panel of a preset.
#[derive(Clone, Debug, Default, PartialEq, Eq)]
pub struct PresetEqualDivision {
    pub divisions: String,
    pub interval_to_divide: String,
}

/// The guitar-grid panel of a preset.
#[derive(Clone, Debug, Default, PartialEq, Eq)]
pub struct PresetGuitarGrid {
    pub is_ji: bool,
    pub edo: String,
    pub ref_midi: String,
    pub ref_hz: String,
    pub horiz_step: String,
    pub capo: String,
    pub octave: String,
    pub unequal_frets_on: bool,
    pub unequal_frets: Vec<String>,
    pub open_strings: Vec<String>,
}

/// The scale and keyboard-mapping texts of a preset.
#[derive(Clone, Debug, Default, PartialEq, Eq)]
pub struct PresetFile {
    pub scl: String,
    pub kbm: String,
}

/// A preset: devices, output mode, pitch-bend range, enabled channels
/// (1-based), the active tuning panel and the contents of every panel.
#[derive(Clone, Debug, Default, PartialEq, Eq)]
pub struct Preset {
    pub input_device: String,
    pub output_device: String,
    pub output_type: String,
    pub pb_range: u8,
    pub channels_out: Vec<usize>,
    pub active: String,
    pub equal_division: PresetEqualDivision,
    pub guitar_grid: PresetGuitarGrid,
    pub file: PresetFile,
}

/// What a preset holds, as texts and numbers.
pub struct PresetView {
    pub input_device: Seq<char>,
    pub output_device: Seq<char>,
    pub output_type: Seq<char>,
    pub pb_range: u8,
    pub channels_out: Seq<usize>,
    pub active: Seq<char>,
    pub divisions: Seq<char>,
    pub interval_to_divide: Seq<char>,
    pub is_ji: bool,
    pub edo: Seq<char>,
    pub ref_midi: Seq<char>,
    pub ref_hz: Seq<char>,
    pub horiz_step: Seq<char>,
    pub capo: Seq<char>,
    pub octave: Seq<char>,
    pub unequal_frets_on: bool,
    pub unequal_frets: Seq<Seq<char>>,
    pub open_strings: Seq<Seq<char>>,
    pub scl: Seq<char>,
    pub kbm: Seq<char>,
}

impl View for Preset {
    type V = PresetView;

    open spec fn view(&self) -> PresetView {
        PresetView {
            input_device: self.input_device@,
            output_device: self.output_device@,
            output_type: self.output_type@,
            pb_range: self.pb_range,
            channels_out: self.channels_out@,
            active: self.active@,
            divisions: self.equal_division.divisions@,
            interval_to_divide: self.equal_division.interval_to_divide@,
            is_ji: self.guitar_grid.is_ji,
            edo: self.guitar_grid.edo@,
            ref_midi: self.guitar_grid.ref_midi@,
            ref_hz: self.guitar_grid.ref_hz@,
            horiz_step: self.guitar_grid.horiz_step@,
            capo: self.guitar_grid.capo@,
            octave: self.guitar_grid.octave@,
            unequal_frets_on: self.guitar_grid.unequal_frets_on,
            unequal_frets: strings(self.guitar_grid.unequal_frets),
            open_strings: strings(self.guitar_grid.open_strings),
            scl: self.file.scl@,
            kbm: self.file.kbm@,
        }
    }
}

/// The first port, from position `i` on, whose name contains `device`.
pub open spec fn first_port_from(ports: Seq<Seq<char>>, device: Seq<char>, i: int) -> Option<usize>
    decreases ports.len() - i,
{
    if i < 0 || i >= ports.len() {
        None
    } else if contains_seq(ports[i], device) {
        Some(i as usize)
    } else {
        first_port_from(ports, device, i + 1)
    }
}

/// The first port whose name contains `device`.
pub open spec fn first_port(ports: Seq<Seq<char>>, device: Seq<char>) -> Option<usize> {
    first_port_from(ports, device, 0)
}

/// `fields` with its first entries replaced by those of `values`, as far
/// as both reach.
pub open spec fn overlay(fields: Seq<Seq<char>>, values: Seq<Seq<char>>) -> Seq<Seq<char>> {
    Seq::new(fields.len(), |i: int| if i < values.len() { values[i] } else { fields[i] })
}

/// The port a preset selects: the first whose name contains the preset's
/// device, or the current one.
pub open spec fn selected_port(ports: Seq<Seq<char>>, device: Seq<char>, current: usize) -> usize {
    match first_port(ports, device) {
        Some(i) => i,
        None => current,
    }
}

/// The interface after loading preset `p` from slot `key`: the panels take
/// the preset's contents, the device fields select the first port that
/// names the preset's device, the preset's panel becomes the active tuning,
/// and the log says so.
pub open spec fn loaded_ui(u: UiView, p: PresetView, key: Seq<char>) -> UiView {
    UiView {
        pb_input: decimal(p.pb_range as nat),
        divisions_input: p.divisions,
        interval_input: p.interval_to_divide,
        grid_is_ji: p.is_ji,
        grid_edo: p.edo,
        grid_ref_midi: p.ref_midi,
        grid_ref_pitch: p.ref_hz,
        grid_horiz: p.horiz_step,
        grid_capo: p.capo,
        grid_octave: p.octave,
        grid_unequal_toggle: p.unequal_frets_on,
        grid_unequal: overlay(u.grid_unequal, p.unequal_frets),
        grid_open: overlay(u.grid_open, p.open_strings),
        selected_in: selected_port(u.in_ports, p.input_device, u.selected_in),
        selected_out: selected_port(u.out_ports, p.output_device, u.selected_out),
        active_tuning_mode: p.active,
        logs: u.logs.push("Loaded "@ + key),
        ..u
    }
}

/// The router after loading preset `p`: its pitch-bend range, MPE when
/// the output type names MPE in any case, and exactly its channels.
pub open spec fn loaded_router(m: RouterView, p: PresetView) -> RouterView {
    RouterView {
        pitch_bend_range: p.pb_range,
        is_mpe: contains_ignore_case(p.output_type, seq!['m', 'p', 'e']),
        enabled: Seq::new(16, |i: int| p.channels_out.contains((i + 1) as usize)),
        ..m
    }
}

/// What loading preset `p` asks of the application: to reopen both
/// devices when either selection changed.
pub open spec fn load_action(u: UiView, p: PresetView) -> Option<UiAction> {
    let new_in = selected_port(u.in_ports, p.input_device, u.selected_in);
    let new_out = selected_port(u.out_ports, p.output_device, u.selected_out);
    if new_in != u.selected_in || new_out != u.selected_out {
        Some(UiAction::ChangeBoth(new_in, new_out))
    } else {
        None
    }
}

/// The device name at `index`, or the empty name.
pub open spec fn port_name(ports: Seq<Seq<char>>, index: usize) -> Seq<char> {
    if index < ports.len() {
        ports[index as int]
    } else {
        seq![]
    }
}

/// The preset that saving takes from the interface and the router, with
/// the scale and mapping texts of the editors.
pub open spec fn saved_preset(u: UiView, m: RouterView, scl: Seq<char>, kbm: Seq<char>) -> PresetView {
    PresetView {
        input_device: port_name(u.in_ports, u.selected_in),
        output_device: port_name(u.out_ports, u.selected_out),
        output_type: if m.is_mpe {
            "MPE"@
        } else {
            "Multi-timbral"@
        },
        pb_range: m.pitch_bend_range,
        channels_out: enabled_numbers(m.enabled, 16),
        active: u.active_tuning_mode,
        divisions: u.divisions_input,
        interval_to_divide: u.interval_input,
        is_ji: u.grid_is_ji,
        edo: u.grid_edo,
        ref_midi: u.grid_ref_midi,
        ref_hz: u.grid_ref_pitch,
        horiz_step: u.grid_horiz,
        capo: u.grid_capo,
        octave: u.grid_octave,
        unequal_frets_on: u.grid_unequal_toggle,
        unequal_frets: u.grid_unequal,
        open_strings: u.grid_open,
        scl,
        kbm,
    }
}

/// A channel number is among the enabled numbers up to `upto` exactly when
/// its channel is enabled.
proof fn lemma_enabled_numbers(enabled: Seq<bool>, upto: int, k: usize)
    requires
        0 <= upto <= enabled.len() <= 16,
    ensures
        enabled_numbers(enabled, upto).contains(k) <==> (1 <= k <= upto && enabled[k - 1]),
    decreases upto,
{
    if upto > 0 {
        lemma_enabled_numbers(enabled, upto - 1, k);
        let prev = enabled_numbers(enabled, upto - 1);
        let last = if enabled[upto - 1] {
            seq![upto as usize]
        } else {
            seq![]
        };
        let all = prev + last;
        assert(all == enabled_numbers(enabled, upto));
        if all.contains(k) {
            let j = choose|j: int| 0 <= j < all.len() && all[j] == k;
            if j < prev.len() {
                assert(prev[j] == all[j]);
                assert(prev.contains(k));
            }
        }
        if 1 <= k <= upto && enabled[k - 1] {
            if k == upto {
                assert(all[prev.len() as int] == k);
            } else {
                let j = choose|j: int| 0 <= j < prev.len() && prev[j] == k;
                assert(all[j] == k);
            }
        }
        if prev.contains(k) {
            let j = choose|j: int| 0 <= j < prev.len() && prev[j] == k;
            assert(all[j] == k);
        }
    }
}

/// A port whose name no earlier port contains is the first match for its
/// own name.
proof fn lemma_first_port_own(ports: Seq<Seq<char>>, s: int, i: int)
    requires
        0 <= i <= s < ports.len(),
        forall|j: int| 0 <= j < s ==> !contains_seq(#[trigger] ports[j], ports[s]),
    ensures
        first_port_from(ports, ports[s], i) == Some(s as usize),
    decreases s - i,
{
    if i == s {
        assert(occurs_at(ports[s], ports[s], 0)) by {
            assert(ports[s].subrange(0, ports[s].len() as int) =~= ports[s]);
        }
    } else {
        lemma_first_port_own(ports, s, i + 1);
    }
}

/// Saving a preset and loading it back gives the router back unchanged
/// (range, output mode and channels); restores every panel of the
/// interface, the active tuning, and the pitch-bend field from the range;
/// and keeps each selected device whose name no earlier port contains.
pub proof fn law_preset_round_trip(u: UiView, m: RouterView, scl: Seq<char>, kbm: Seq<char>, key: Seq<char>)
    requires
        u.wf(),
        m.wf(),
    ensures
        ({
            let p = saved_preset(u, m, scl, kbm);
            let v = loaded_ui(u, p, key);
            &&& loaded_router(m, p) == m
            &&& v.pb_input == decimal(m.pitch_bend_range as nat)
            &&& v.divisions_input == u.divisions_input
            &&& v.interval_input == u.interval_input
            &&& v.grid_is_ji == u.grid_is_ji
            &&& v.grid_edo == u.grid_edo
            &&& v.grid_ref_midi == u.grid_ref_midi
            &&& v.grid_ref_pitch == u.grid_ref_pitch
            &&& v.grid_horiz == u.grid_horiz
            &&& v.grid_capo == u.grid_capo
            &&& v.grid_octave == u.grid_octave
            &&& v.grid_unequal_toggle == u.grid_unequal_toggle
            &&& v.grid_unequal == u.grid_unequal
            &&& v.grid_open == u.grid_open
            &&& v.active_tuning_mode == u.active_tuning_mode
            &&& (u.selected_in < u.in_ports.len() && (forall|j: int|
                0 <= j < u.selected_in ==> !contains_seq(#[trigger] u.in_ports[j], u.in_ports[u.selected_in as int])))
                ==> v.selected_in == u.selected_in
            &&& (u.selected_out < u.out_ports.len() && (forall|j: int|
                0 <= j < u.selected_out ==> !contains_seq(#[trigger] u.out_ports[j], u.out_ports[u.selected_out as int])))
                ==> v.selected_out == u.selected_out
        }),
{
    let p = saved_preset(u, m, scl, kbm);
    let word = seq!['m', 'p', 'e'];
    if m.is_mpe {
        reveal_strlit("MPE");
        let t = p.output_type;
        assert(eq_ignore_case(t.subrange(0, 0 + word.len() as int), word));
    } else {
        reveal_strlit("Multi-timbral");
        let t = p.output_type;
        assert forall|i: int| 0 <= i && i + word.len() <= t.len() implies !eq_ignore_case(
            #[trigger] t.subrange(i, i + word.len()),
            word,
        ) by {
            let w = t.subrange(i, i + word.len());
            assert(w[0] == t[i]);
            assert(w[1] == t[i + 1]);
            if ascii_lower(w[0]) == 'm' {
                assert(i == 0 || i == 8);
            }
        }
    }
    assert(Seq::new(16, |i: int| p.channels_out.contains((i + 1) as usize)) =~= m.enabled) by {
        assert forall|i: int| 0 <= i < 16 implies p.channels_out.contains((i + 1) as usize) == m.enabled[i] by {
            lemma_enabled_numbers(m.enabled, 16, (i + 1) as usize);
        }
    }
    assert(overlay(u.grid_unequal, u.grid_unequal) =~= u.grid_unequal);
    assert(overlay(u.grid_open, u.grid_open) =~= u.grid_open);
    if u.selected_in < u.in_ports.len() && (forall|j: int|
        0 <= j < u.selected_in ==> !contains_seq(#[trigger] u.in_ports[j], u.in_ports[u.selected_in as int])) {
        lemma_first_port_own(u.in_ports, u.selected_in as int, 0);
    }
    if u.selected_out < u.out_ports.len() && (forall|j: int|
        0 <= j < u.selected_out ==> !contains_seq(#[trigger] u.out_ports[j], u.out_ports[u.selected_out as int])) {
        lemma_first_port_own(u.out_ports, u.selected_out as int, 0);
    }
}

/// The first port whose name contains `device`.
fn find_port(ports: &Vec<String>, device: &str) -> (r: Option<usize>)
    ensures
        r == first_port(strings(*ports), device@),
{
    proof {
        lemma_strings(*ports);
    }
    let ghost names = strings(*ports);
    let mut i: usize = 0;
    while i < ports.len()
        invariant
            i <= ports@.len(),
            names == strings(*ports),
            names.len() == ports@.len(),
            forall|k: int| 0 <= k < ports@.len() ==> #[trigger] names[k] == ports@[k]@,
            first_port(names, device@) == first_port_from(names, device@, i as int),
        decreases ports@.len() - i,
    {
        if contains_str(ports[i].as_str(), device) {
            return Some(i);
        }
        i = i + 1;
    }
    None
}

/// Copies `values` over the first entries of `fields`.
fn overlay_list(fields: &mut Vec<String>, values: &Vec<String>)
    ensures
        strings(*final(fields)) == overlay(strings(*old(fields)), strings(*values)),
{
    proof {
        lemma_strings(*fields);
        lemma_strings(*values);
    }
    let ghost before = strings(*fields);
    let n = if fields.len() < values.len() {
        fields.len()
    } else {
        values.len()
    };
    let mut i: usize = 0;
    while i < n
        invariant
            n <= fields@.len(),
            n <= values@.len(),
            i <= n,
            fields@.len() == before.len(),
            strings(*values).len() == values@.len(),
            forall|k: int| 0 <= k < values@.len() ==> #[trigger] strings(*values)[k] == values@[k]@,
            forall|k: int| 0 <= k < i ==> #[trigger] fields@[k]@ == values@[k]@,
            forall|k: int| i <= k < fields@.len() ==> #[trigger] fields@[k]@ == before[k],
        decreases n - i,
    {
        let v = values[i].clone();
        fields.set(i, v);
        i = i + 1;
    }
    proof {
        lemma_strings_ext(*fields, overlay(before, strings(*values)));
    }
}

/// A copy of a list of texts.
fn copy_strings(v: &Vec<String>) -> (r: Vec<String>)
    ensures
        strings(r) == strings(*v),
{
    proof {
        lemma_strings(*v);
    }
    let mut r: Vec<String> = Vec::new();
    let mut i: usize = 0;
    while i < v.len()
        invariant
            i <= v@.len(),
            r@.len() == i,
            forall|k: int| 0 <= k < i ==> #[trigger] r@[k]@ == v@[k]@,
        decreases v@.len() - i,
    {
        r.push(v[i].clone());
        i = i + 1;
    }
    proof {
        lemma_strings_ext(r, strings(*v));
    }
    r
}

/// The name of the port at `index`, or the empty name.
fn port_at(ports: &Vec<String>, index: usize) -> (s: String)
    ensures
        s@ == port_name(strings(*ports), index),
{
    proof {
        lemma_strings(*ports);
    }
    if index < ports.len() {
        ports[index].clone()
    } else {
        String::new()
    }
}

impl UiState {
    /// Takes up preset `preset` of slot `preset_key` (`None`: the slot is
    /// empty, which is logged). Returns the device change the application
    /// has to make, if the preset selects other ports.
    pub fn load_preset(
        &mut self,
        midi: &mut MidiState,
        preset: Option<&Preset>,
        preset_key: &str,
    ) -> (r: Option<UiAction>)
        requires
            old(self).wf(),
            old(midi).wf(),
        ensures
            final(self).wf(),
            final(midi).wf(),
            match preset {
                Some(p) => {
                    &&& final(self)@ == loaded_ui(old(self)@, p@, preset_key@)
                    &&& final(midi)@ == loaded_router(old(midi)@, p@)
                    &&& r == load_action(old(self)@, p@)
                },
                None => {
                    &&& final(self)@ == log(old(self)@, preset_key@ + " not found."@)
                    &&& final(midi)@ == old(midi)@
                    &&& r is None
                },
            },
    {
        match preset {
            Some(p) => {
                self.take_preset(midi, p, preset_key)
            },
            None => {
                let mut msg = preset_key.to_string();
                msg.append(" not found.");
                self.log_string(msg);
                None
            },
        }
    }

    fn take_preset(&mut self, midi: &mut MidiState, p: &Preset, preset_key: &str) -> (r: Option<UiAction>)
        requires
            old(self).wf(),
            old(midi).wf(),
        ensures
            final(self).wf(),
            final(midi).wf(),
            final(self)@ == loaded_ui(old(self)@, p@, preset_key@),
            final(midi)@ == loaded_router(old(midi)@, p@),
            r == load_action(old(self)@, p@),
    {
        proof {
            lemma_strings_len(self.grid_open);
            lemma_strings_len(self.grid_unequal);
        }
        let new_in = match find_port(&self.in_ports, p.input_device.as_str()) {
            Some(i) => i,
            None => self.selected_in,
        };
        let new_out = match find_port(&self.out_ports, p.output_device.as_str()) {
            Some(i) => i,
            None => self.selected_out,
        };
        let changed = new_in != self.selected_in || new_out != self.selected_out;
        self.pb_input = decimal_u8(p.pb_range);
        self.divisions_input = p.equal_division.divisions.clone();
        self.interval_input = p.equal_division.interval_to_divide.clone();
        self.grid_is_ji = p.guitar_grid.is_ji;
        self.grid_edo = p.guitar_grid.edo.clone();
        self.grid_ref_midi = p.guitar_grid.ref_midi.clone();
        self.grid_ref_pitch = p.guitar_grid.ref_hz.clone();
        self.grid_horiz = p.guitar_grid.horiz_step.clone();
        self.grid_capo = p.guitar_grid.capo.clone();
        self.grid_octave = p.guitar_grid.octave.clone();
        self.grid_unequal_toggle = p.guitar_grid.unequal_frets_on;
        overlay_list(&mut self.grid_unequal, &p.guitar_grid.unequal_frets);
        overlay_list(&mut self.grid_open, &p.guitar_grid.open_strings);
        self.selected_in = new_in;
        self.selected_out = new_out;
        midi.set_pitch_bend_range(p.pb_range);
        midi.set_mpe(contains_mpe(p.output_type.as_str()));
        midi.set_enabled_channels(p.channels_out.as_slice());
        self.active_tuning_mode = p.active.clone();
        let mut msg = "Loaded ".to_string();
        msg.append(preset_key);
        self.log_string(msg);
        proof {
            lemma_strings_len(self.grid_open);
            lemma_strings_len(self.grid_unequal);
        }
        if changed {
            Some(UiAction::ChangeBoth(new_in, new_out))
        } else {
            None
        }
    }

    /// The preset that saving a slot stores: the selected devices, the
    /// output mode, range and channels of the router, the active tuning
    /// panel, the contents of the panels, and the scale and mapping texts
    /// `scl` and `kbm` of the editors.
    pub fn save_preset(&self, midi: &MidiState, scl: String, kbm: String) -> (p: Preset)
        requires
            midi.wf(),
        ensures
            p@ == saved_preset(self@, midi@, scl@, kbm@),
    {
        let output_type = if midi.is_mpe() {
            "MPE".to_string()
        } else {
            "Multi-timbral".to_string()
        };
        Preset {
            input_device: port_at(&self.in_ports, self.selected_in),
            output_device: port_at(&self.out_ports, self.selected_out),
            output_type,
            pb_range: midi.pitch_bend_range(),
            channels_out: midi.enabled_channel_numbers(),
            active: self.active_tuning_mode.clone(),
            equal_division: PresetEqualDivision {
                divisions: self.divisions_input.clone(),
                interval_to_divide: self.interval_input.clone(),
            },
            guitar_grid: PresetGuitarGrid {
                is_ji: self.grid_is_ji,
                edo: self.grid_edo.clone(),
                ref_midi: self.grid_ref_midi.clone(),
                ref_hz: self.grid_ref_pitch.clone(),
                horiz_step: self.grid_horiz.clone(),
                capo: self.grid_capo.clone(),
                octave: self.grid_octave.clone(),
                unequal_frets_on: self.grid_unequal_toggle,
                unequal_frets: copy_strings(&self.grid_unequal),
                open_strings: copy_strings(&self.grid_open),
            },
            file: PresetFile { scl, kbm },
        }
    }

    /// Logs how storing slot `preset_key` went: `Saved <slot>`, or the
    /// error.
    pub fn preset_saved(&mut self, preset_key: &str, outcome: Result<(), String>)
        ensures
            final(self)@ == log(
                old(self)@,
                match outcome {
                    Ok(_) => "Saved "@ + preset_key@,
                    Err(e) => "Save failed: "@ + e@,
                },
            ),
    {
        let msg = match outcome {
            Ok(_) => {
                let mut m = "Saved ".to_string();
                m.append(preset_key);
                m
            },
            Err(e) => {
                let mut m = "Save failed: ".to_string();
                m.append(e.as_str());
                m
            },
        };
        self.log_string(msg);
    }
}

/// Each setting is saved into, and loaded from, its own field of a preset:
/// the panels' texts and switches, the active tuning, the pitch-bend range
/// and the editors' texts.
pub proof fn law_preset_fields(
    u: UiView,
    m: RouterView,
    scl: Seq<char>,
    kbm: Seq<char>,
    p: PresetView,
    key: Seq<char>,
)
    ensures
        ({
            let s = saved_preset(u, m, scl, kbm);
            &&& s.divisions == u.divisions_input
            &&& s.interval_to_divide == u.interval_input
            &&& s.is_ji == u.grid_is_ji
            &&& s.edo == u.grid_edo
            &&& s.ref_midi == u.grid_ref_midi
            &&& s.ref_hz == u.grid_ref_pitch
            &&& s.horiz_step == u.grid_horiz
            &&& s.capo == u.grid_capo
            &&& s.octave == u.grid_octave
            &&& s.unequal_frets_on == u.grid_unequal_toggle
            &&& s.unequal_frets == u.grid_unequal
            &&& s.open_strings == u.grid_open
            &&& s.active == u.active_tuning_mode
            &&& s.pb_range == m.pitch_bend_range
            &&& s.scl == scl
            &&& s.kbm == kbm
        }),
        ({
            let v = loaded_ui(u, p, key);
            &&& v.divisions_input == p.divisions
            &&& v.interval_input == p.interval_to_divide
            &&& v.grid_is_ji == p.is_ji
            &&& v.grid_edo == p.edo
            &&& v.grid_ref_midi == p.ref_midi
            &&& v.grid_ref_pitch == p.ref_hz
            &&& v.grid_horiz == p.horiz_step
            &&& v.grid_capo == p.capo
            &&& v.grid_octave == p.octave
            &&& v.grid_unequal_toggle == p.unequal_frets_on
            &&& v.active_tuning_mode == p.active
            &&& loaded_router(m, p).pitch_bend_range == p.pb_range
        }),
{
}

} // verus!
