//! Voice allocation and MIDI message routing.
//!
//! Incoming MIDI messages are routed in one of two modes. In multi-timbral
//! mode every note gets a channel of its own (round robin over the 16
//! channels), so that each voice can carry its own pitch bend; channel-wide
//! messages are copied to every enabled channel. In MPE mode channel 1 is the
//! master channel and notes are spread over the member channels 2 to 16.
use vstd::prelude::*;

verus! {

/// Number of MIDI channels.
pub const NUM_CHANNELS: usize = 16;

/// Number of MIDI notes.
pub const NUM_NOTES: usize = 128;

/// Value the activity indicators are set to when a message passes.
pub const FLASH: u8 = 5;

/// Centre of the 14-bit pitch-bend range.
pub const BEND_CENTER: u16 = 8192;

/// Largest 14-bit pitch-bend value.
pub const BEND_MAX: u16 = 16383;

/// An allocated voice: the output channel (0-based) and the note sent on it.
#[derive(Clone, Copy, Debug, PartialEq, Eq)]
pub struct Voice {
    pub channel: u8,
    pub sent_note: u8,
}

/// The output pitch of a note-on, computed from the tuning: the nearest
/// output note and the 14-bit pitch bend that moves it onto the target pitch.
#[derive(Clone, Copy, Debug, PartialEq, Eq)]
pub struct NotePitch {
    pub note: u8,
    pub bend: u16,
}

impl NotePitch {
    pub open spec fn valid(self) -> bool {
        self.note < 128 && self.bend <= BEND_MAX
    }
}

/// The abstract state of the router.
#[verifier::ext_equal]
pub struct RouterView {
    /// For each input note, the voice that sounds it.
    pub voices: Seq<Option<Voice>>,
    /// Which output channels hold a sounding voice.
    pub busy: Seq<bool>,
    /// Which output channels the user lets the router use.
    pub enabled: Seq<bool>,
    pub last_allocated: u8,
    pub pitch_bend_range: u8,
    pub synth_ref_note: u8,
    pub input_pitch_bend: u16,
    pub is_mpe: bool,
    pub input_flash: u8,
    pub output_flash: Seq<u8>,
}

impl RouterView {
    /// Well-formedness: table sizes, and every sounding voice owns a busy
    /// channel that no other voice shares.
    pub open spec fn wf(self) -> bool {
        &&& self.voices.len() == 128
        &&& self.busy.len() == 16
        &&& self.enabled.len() == 16
        &&& self.output_flash.len() == 16
        &&& self.last_allocated < 16
        &&& forall|n: int|
            0 <= n < 128 && (#[trigger] self.voices[n]) is Some ==> {
                let v = self.voices[n]->0;
                &&& v.channel < 16
                &&& v.sent_note < 128
                &&& self.busy[v.channel as int]
            }
        &&& forall|n1: int, n2: int|
            0 <= n1 < 128 && 0 <= n2 < 128 && n1 != n2 && (#[trigger] self.voices[n1]) is Some
                && (#[trigger] self.voices[n2]) is Some ==> self.voices[n1]->0.channel
                != self.voices[n2]->0.channel
    }

    /// A channel that can take a new voice.
    pub open spec fn free(self, c: int) -> bool {
        !self.busy[c] && self.enabled[c]
    }

    /// Number of channels that take voices: the 15 member channels in MPE
    /// mode, all 16 channels otherwise.
    pub open spec fn slots(self) -> int {
        if self.is_mpe {
            15
        } else {
            16
        }
    }

    /// The channel tried at step `i` of the round robin: the search starts
    /// just after the last allocated channel (member channels 2 to 16 in MPE
    /// mode, all 16 otherwise) and tries that channel last.
    pub open spec fn candidate(self, i: int) -> int {
        if self.is_mpe {
            let offset: int = if self.last_allocated > 0 {
                self.last_allocated - 1
            } else {
                0
            };
            1 + (offset + i + 1) % 15
        } else {
            (self.last_allocated + 1 + i) % 16
        }
    }

    /// The first free channel among the round-robin candidates from step `i` on.
    pub open spec fn pick_from(self, i: int) -> Option<u8>
        decreases self.slots() - i,
    {
        if i >= self.slots() || i < 0 {
            None
        } else if self.free(self.candidate(i)) {
            Some(self.candidate(i) as u8)
        } else {
            self.pick_from(i + 1)
        }
    }

    /// The channel a new note-on gets, if any.
    pub open spec fn pick_channel(self) -> Option<u8> {
        self.pick_from(0)
    }
}

/// The kind of a status byte: its upper nibble.
pub open spec fn kind_of(status: u8) -> int {
    (status / 16) * 16
}

/// A note message: at least three bytes, of kind note-on or note-off.
pub open spec fn is_note_message(msg: Seq<u8>) -> bool {
    msg.len() >= 3 && (kind_of(msg[0]) == 0x90 || kind_of(msg[0]) == 0x80)
}

/// A note message that starts a note: a note-on with non-zero velocity.
pub open spec fn is_note_start(msg: Seq<u8>) -> bool {
    is_note_message(msg) && kind_of(msg[0]) == 0x90 && msg[2] > 0
}

/// The 14-bit value of a pitch-bend message's two data bytes.
pub open spec fn decode_bend(lsb: u8, msb: u8) -> u16 {
    (lsb as u16) | ((msb as u16) << 7u16)
}

/// A pitch-bend message for `channel`.
pub open spec fn bend_message(channel: int, bend: int) -> Seq<u8> {
    seq![(0xE0 + channel) as u8, (bend % 128) as u8, (bend / 128) as u8]
}

/// The message with its status byte replaced by `kind + channel`.
pub open spec fn on_channel(msg: Seq<u8>, channel: int) -> Seq<u8> {
    msg.update(0, (kind_of(msg[0]) + channel) as u8)
}

/// Copies of a channel message for each enabled channel below `upto`, in
/// channel order.
pub open spec fn broadcast(m: RouterView, msg: Seq<u8>, upto: int) -> Seq<Seq<u8>>
    decreases upto,
{
    if upto <= 0 {
        seq![]
    } else {
        broadcast(m, msg, upto - 1) + if m.enabled[upto - 1] {
            seq![on_channel(msg, upto - 1)]
        } else {
            seq![]
        }
    }
}

/// The messages of a list, as byte sequences.
pub open spec fn messages_view(v: Vec<Vec<u8>>) -> Seq<Seq<u8>> {
    v@.map_values(|m: Vec<u8>| m@)
}

/// What routing one incoming message asks of the caller.
pub enum RouteSpec {
    /// Send these messages, in this order.
    Send(Seq<Seq<u8>>),
    /// A note-on that needs its output pitch.
    PitchNeeded { input_note: u8, velocity: u8 },
    /// The pitch wheel moved: every sounding voice needs a new pitch bend.
    Rebend,
}

/// Routing of one incoming message: the next state and what to do.
pub open spec fn route(m: RouterView, msg: Seq<u8>) -> (RouterView, RouteSpec) {
    if msg.len() == 0 {
        (m, RouteSpec::Send(seq![]))
    } else {
        let m1 = RouterView { input_flash: FLASH, ..m };
        let status = msg[0];
        let kind = kind_of(status);
        if is_note_message(msg) {
            let n = msg[1] as int;
            if is_note_start(msg) {
                (m1, RouteSpec::PitchNeeded { input_note: msg[1], velocity: msg[2] })
            } else {
                match m1.voices[n] {
                    Some(v) => (
                        RouterView {
                            voices: m1.voices.update(n, None),
                            busy: m1.busy.update(v.channel as int, false),
                            ..m1
                        },
                        RouteSpec::Send(
                            seq![seq![(kind + v.channel) as u8, v.sent_note, msg[2]]],
                        ),
                    ),
                    None => (m1, RouteSpec::Send(seq![])),
                }
            }
        } else if m.is_mpe {
            if status >= 0xF0 {
                (m1, RouteSpec::Send(seq![msg]))
            } else {
                (
                    RouterView { output_flash: m1.output_flash.update(0, FLASH), ..m1 },
                    RouteSpec::Send(seq![on_channel(msg, 0)]),
                )
            }
        } else if kind == 0xE0 && msg.len() >= 3 {
            (RouterView { input_pitch_bend: decode_bend(msg[1], msg[2]), ..m1 }, RouteSpec::Rebend)
        } else if status >= 0xF0 {
            (m1, RouteSpec::Send(seq![msg]))
        } else {
            (
                RouterView {
                    output_flash: Seq::new(
                        16,
                        |c: int|
                            if m1.enabled[c] {
                                FLASH
                            } else {
                                m1.output_flash[c]
                            },
                    ),
                    ..m1
                },
                RouteSpec::Send(broadcast(m1, msg, 16)),
            )
        }
    }
}

/// Starting a note: the next state, and the messages to send when a channel
/// was found.
pub open spec fn start_note(m: RouterView, input_note: u8, velocity: u8, pitch: Option<NotePitch>) -> (
    RouterView,
    Option<Seq<Seq<u8>>>,
) {
    match pitch {
        None => (m, None),
        Some(p) => match m.pick_channel() {
            None => (m, None),
            Some(c) => (
                RouterView {
                    busy: m.busy.update(c as int, true),
                    voices: m.voices.update(input_note as int, Some(Voice { channel: c, sent_note: p.note })),
                    last_allocated: c,
                    output_flash: m.output_flash.update(c as int, FLASH),
                    ..m
                },
                Some(seq![seq![(0x90 + c) as u8, p.note, velocity], bend_message(c as int, p.bend as int)]),
            ),
        },
    }
}

/// The sounding voices below `upto`, in input-note order.
pub open spec fn sounding(voices: Seq<Option<Voice>>, upto: int) -> Seq<(u8, Voice)>
    decreases upto,
{
    if upto <= 0 {
        seq![]
    } else {
        sounding(voices, upto - 1) + match voices[upto - 1] {
            Some(v) => seq![((upto - 1) as u8, v)],
            None => seq![],
        }
    }
}

/// The router's state.
pub struct MidiState {
    note_to_channel: Vec<Option<Voice>>,
    channel_busy: Vec<bool>,
    channel_enabled: Vec<bool>,
    last_allocated: u8,
    pitch_bend_range: u8,
    synth_ref_note: u8,
    input_pitch_bend: u16,
    is_mpe: bool,
    input_flash: u8,
    output_flash: Vec<u8>,
}

impl View for MidiState {
    type V = RouterView;

    closed spec fn view(&self) -> RouterView {
        RouterView {
            voices: self.note_to_channel@,
            busy: self.channel_busy@,
            enabled: self.channel_enabled@,
            last_allocated: self.last_allocated,
            pitch_bend_range: self.pitch_bend_range,
            synth_ref_note: self.synth_ref_note,
            input_pitch_bend: self.input_pitch_bend,
            is_mpe: self.is_mpe,
            input_flash: self.input_flash,
            output_flash: self.output_flash@,
        }
    }
}

/// The outcome of routing one incoming message.
#[derive(Debug)]
pub enum MidiOutcome {
    /// Send these messages, in this order.
    Send(Vec<Vec<u8>>),
    /// A note-on that needs its output pitch: compute it from the tuning and
    /// hand it to `MidiState::note_on`.
    PitchNeeded { input_note: u8, velocity: u8 },
    /// The pitch wheel moved: send every voice of `MidiState::sounding_voices`
    /// a new pitch bend.
    Rebend,
}

impl View for MidiOutcome {
    type V = RouteSpec;

    open spec fn view(&self) -> RouteSpec {
        match self {
            MidiOutcome::Send(v) => RouteSpec::Send(messages_view(*v)),
            MidiOutcome::PitchNeeded { input_note, velocity } => RouteSpec::PitchNeeded {
                input_note: *input_note,
                velocity: *velocity,
            },
            MidiOutcome::Rebend => RouteSpec::Rebend,
        }
    }
}

/// Copy of `msg` with its first byte replaced by `status`.
fn with_status(msg: &[u8], status: u8) -> (out: Vec<u8>)
    requires
        msg@.len() > 0,
    ensures
        out@ == msg@.update(0, status),
{
    let mut out: Vec<u8> = Vec::new();
    let mut i: usize = 0;
    while i < msg.len()
        invariant
            i <= msg@.len(),
            out@ == msg@.subrange(0, i as int),
        decreases msg@.len() - i,
    {
        out.push(msg[i]);
        i = i + 1;
    }
    out[0] = status;
    assert(out@ =~= msg@.update(0, status));
    out
}

/// A 14-bit pitch-bend message for `channel`: status, low seven bits, high
/// seven bits.
pub fn pitch_bend_message(channel: u8, bend: u16) -> (out: Vec<u8>)
    requires
        channel < 16,
        bend <= BEND_MAX,
    ensures
        out@ == bend_message(channel as int, bend as int),
{
    let lsb = bend & 0x7F;
    let msb = bend >> 7u16;
    assert(lsb == bend % 128 && msb == bend / 128) by (bit_vector)
        requires
            lsb == bend & 0x7F,
            msb == bend >> 7u16,
    ;
    let out = vec![0xE0u8 + channel, lsb as u8, msb as u8];
    assert(out@ =~= bend_message(channel as int, bend as int));
    out
}

/// The four controller messages that configure an MPE lower zone with
/// `member_channels` member channels (registered parameter 6, data entry).
pub fn mpe_configuration_messages(member_channels: u8) -> (out: Vec<Vec<u8>>)
    ensures
        messages_view(out) == seq![
            seq![0xB0u8, 101u8, 0u8],
            seq![0xB0u8, 100u8, 6u8],
            seq![0xB0u8, 6u8, member_channels],
            seq![0xB0u8, 38u8, 0u8],
        ],
{
    let out = vec![
        vec![0xB0u8, 101u8, 0u8],
        vec![0xB0u8, 100u8, 6u8],
        vec![0xB0u8, 6u8, member_channels],
        vec![0xB0u8, 38u8, 0u8],
    ];
    assert(messages_view(out) =~= seq![
        seq![0xB0u8, 101u8, 0u8],
        seq![0xB0u8, 100u8, 6u8],
        seq![0xB0u8, 6u8, member_channels],
        seq![0xB0u8, 38u8, 0u8],
    ]);
    out
}


impl MidiState {
    pub closed spec fn wf(&self) -> bool {
        self@.wf()
    }

    /// A well-formed router has a well-formed view: its tables have their
    /// sizes, and every sounding voice owns a busy channel of its own.
    pub proof fn lemma_wf_view(&self)
        requires
            self.wf(),
        ensures
            self@.wf(),
    {
    }

    /// The router at start-up: no voices, every channel enabled, multi-timbral
    /// mode, a pitch-bend range of 12 semitones, reference note 69, the pitch
    /// wheel centred.
    pub fn new() -> (s: MidiState)
        ensures
            s.wf(),
            s@.voices == Seq::new(128, |i: int| None::<Voice>),
            s@.busy == Seq::new(16, |i: int| false),
            s@.enabled == Seq::new(16, |i: int| true),
            s@.output_flash == Seq::new(16, |i: int| 0u8),
            s@.last_allocated == 0,
            s@.pitch_bend_range == 12,
            s@.synth_ref_note == 69,
            s@.input_pitch_bend == BEND_CENTER,
            !s@.is_mpe,
            s@.input_flash == 0,
    {
        let s = MidiState {
            note_to_channel: vec![None; NUM_NOTES],
            channel_busy: vec![false; NUM_CHANNELS],
            channel_enabled: vec![true; NUM_CHANNELS],
            last_allocated: 0,
            pitch_bend_range: 12,
            synth_ref_note: 69,
            input_pitch_bend: BEND_CENTER,
            is_mpe: false,
            input_flash: 0,
            output_flash: vec![0u8; NUM_CHANNELS],
        };
        assert(s@.voices =~= Seq::new(128, |i: int| None::<Voice>));
        assert(s@.busy =~= Seq::new(16, |i: int| false));
        assert(s@.enabled =~= Seq::new(16, |i: int| true));
        assert(s@.output_flash =~= Seq::new(16, |i: int| 0u8));
        s
    }

}

/// Routes one incoming MIDI message.
///
/// Note-offs (and note-ons of velocity 0) release the voice of their note
/// and are sent on its channel; a note-on asks for its pitch
/// (`PitchNeeded`) and is completed by `note_on`. System messages pass
/// unchanged. In MPE mode every other message goes to the master channel;
/// in multi-timbral mode a pitch-wheel message moves every voice
/// (`Rebend`) and any other channel message is copied to every enabled
/// channel.
pub fn process_midi(message: &[u8], state: &mut MidiState) -> (out: MidiOutcome)
    requires
        old(state).wf(),
        is_note_message(message@) ==> message@[1] < 128,
    ensures
        final(state).wf(),
        (final(state)@, out@) == route(old(state)@, message@),
{
    let ghost m0 = state@;
    if message.len() == 0 {
        let out: Vec<Vec<u8>> = Vec::new();
        assert(messages_view(out) =~= seq![]);
        return MidiOutcome::Send(out);
    }
    let status = message[0];
    let kind: u8 = (status / 16) * 16;
    state.input_flash = FLASH;
    let ghost m1 = state@;
    assert(m1 == RouterView { input_flash: FLASH, ..m0 });
    if message.len() >= 3 && (kind == 0x90 || kind == 0x80) {
        let input_note = message[1];
        if kind == 0x90 && message[2] > 0 {
            return MidiOutcome::PitchNeeded { input_note, velocity: message[2] };
        }
        match state.note_to_channel[input_note as usize] {
            Some(v) => {
                assert(m1.voices[input_note as int] is Some);
                state.channel_busy[v.channel as usize] = false;
                state.note_to_channel[input_note as usize] = None;
                let out = vec![vec![kind + v.channel, v.sent_note, message[2]]];
                proof {
                    let m2 = state@;
                    assert(m2.voices =~= m1.voices.update(input_note as int, None));
                    assert(m2.busy =~= m1.busy.update(v.channel as int, false));
                    assert forall|n: int|
                        0 <= n < 128 && (#[trigger] m2.voices[n]) is Some implies {
                            let w = m2.voices[n]->0;
                            &&& w.channel < 16
                            &&& w.sent_note < 128
                            &&& m2.busy[w.channel as int]
                        } by {
                        assert(n != input_note);
                        assert(m1.voices[n] is Some);
                    }
                    assert(messages_view(out) =~= seq![
                        seq![(kind_of(status) + v.channel) as u8, v.sent_note, message@[2]],
                    ]);
                }
                return MidiOutcome::Send(out);
            },
            None => {
                let out: Vec<Vec<u8>> = Vec::new();
                assert(messages_view(out) =~= seq![]);
                return MidiOutcome::Send(out);
            },
        }
    }
    if state.is_mpe {
        if status >= 0xF0 {
            let out = vec![with_status(message, status)];
            assert(message@.update(0, status) =~= message@);
            assert(messages_view(out) =~= seq![message@]);
            return MidiOutcome::Send(out);
        }
        let out = vec![with_status(message, kind)];
        state.output_flash[0] = FLASH;
        assert(messages_view(out) =~= seq![on_channel(message@, 0)]);
        assert(state@.output_flash =~= m1.output_flash.update(0, FLASH));
        return MidiOutcome::Send(out);
    }
    if kind == 0xE0 && message.len() >= 3 {
        let bend: u16 = (message[1] as u16) | ((message[2] as u16) << 7u16);
        state.input_pitch_bend = bend;
        return MidiOutcome::Rebend;
    }
    if status >= 0xF0 {
        let out = vec![with_status(message, status)];
        assert(message@.update(0, status) =~= message@);
        assert(messages_view(out) =~= seq![message@]);
        return MidiOutcome::Send(out);
    }
    let mut out: Vec<Vec<u8>> = Vec::new();
    let mut chan: usize = 0;
    while chan < NUM_CHANNELS
        invariant
            m1.wf(),
            0 <= chan <= 16,
            kind == kind_of(status),
            status == message@[0],
            status < 0xF0,
            message@.len() > 0,
            state@ == (RouterView {
                output_flash: Seq::new(
                    16,
                    |c: int|
                        if c < chan && m1.enabled[c] {
                            FLASH
                        } else {
                            m1.output_flash[c]
                        },
                ),
                ..m1
            }),
            messages_view(out) == broadcast(m1, message@, chan as int),
        decreases 16 - chan,
    {
        if state.channel_enabled[chan] {
            let msg = with_status(message, kind + chan as u8);
            let ghost before = out;
            out.push(msg);
            state.output_flash[chan] = FLASH;
            assert(messages_view(out) =~= messages_view(before) + seq![
                on_channel(message@, chan as int),
            ]);
        } else {
            assert(seq![] + messages_view(out) =~= messages_view(out));
            assert(messages_view(out) =~= messages_view(out) + seq![]);
        }
        chan = chan + 1;
        assert(state@.output_flash =~= Seq::new(
            16,
            |c: int|
                if c < chan && m1.enabled[c] {
                    FLASH
                } else {
                    m1.output_flash[c]
                },
        ));
    }
    assert(state@.output_flash =~= Seq::new(
        16,
        |c: int|
            if m1.enabled[c] {
                FLASH
            } else {
                m1.output_flash[c]
            },
    ));
    MidiOutcome::Send(out)
}


impl MidiState {
    /// The next free enabled channel in round-robin order after the last
    /// allocated one (member channels 2 to 16 in MPE mode).
    fn find_channel(&self) -> (c: Option<u8>)
        requires
            self.wf(),
        ensures
            c == self@.pick_channel(),
    {
        let ghost m = self@;
        let slots: u8 = if self.is_mpe {
            15
        } else {
            16
        };
        let mut i: u8 = 0;
        while i < slots
            invariant
                m == self@,
                m.wf(),
                slots == m.slots(),
                0 <= i <= slots,
                m.pick_from(0) == m.pick_from(i as int),
            decreases slots - i,
        {
            let chan: u8 = if self.is_mpe {
                let last_offset: u8 = if self.last_allocated > 0 {
                    self.last_allocated - 1
                } else {
                    0
                };
                1 + (last_offset + i + 1) % 15
            } else {
                (self.last_allocated + 1 + i) % 16
            };
            assert(chan as int == m.candidate(i as int));
            if !self.channel_busy[chan as usize] && self.channel_enabled[chan as usize] {
                return Some(chan);
            }
            i = i + 1;
        }
        None
    }

    /// Completes a note-on with the output pitch the tuning gives its note
    /// (`None` when the tuning leaves the note silent). When a channel is
    /// free the note gets a voice on it and the result holds the note-on
    /// and then the pitch bend to send on that channel; otherwise nothing
    /// changes and the result is `None`.
    pub fn note_on(&mut self, input_note: u8, velocity: u8, pitch: Option<NotePitch>) -> (out: Option<
        Vec<Vec<u8>>,
    >)
        requires
            old(self).wf(),
            input_note < 128,
            pitch matches Some(p) ==> p.valid(),
        ensures
            final(self).wf(),
            (final(self)@, match out {
                Some(v) => Some(messages_view(v)),
                None => None,
            }) == start_note(old(self)@, input_note, velocity, pitch),
    {
        let ghost m = self@;
        let p = match pitch {
            Some(p) => p,
            None => {
                return None;
            },
        };
        let chan = match self.find_channel() {
            Some(c) => c,
            None => {
                return None;
            },
        };
        proof {
            lemma_pick_from_free(m, 0);
        }
        self.channel_busy[chan as usize] = true;
        self.note_to_channel[input_note as usize] = Some(Voice { channel: chan, sent_note: p.note });
        self.last_allocated = chan;
        self.output_flash[chan as usize] = FLASH;
        let out = vec![vec![0x90u8 + chan, p.note, velocity], pitch_bend_message(chan, p.bend)];
        proof {
            let m2 = self@;
            assert(m2.voices =~= m.voices.update(
                input_note as int,
                Some(Voice { channel: chan, sent_note: p.note }),
            ));
            assert(m2.busy =~= m.busy.update(chan as int, true));
            assert(m2.output_flash =~= m.output_flash.update(chan as int, FLASH));
            assert forall|n: int|
                0 <= n < 128 && (#[trigger] m2.voices[n]) is Some implies {
                    let w = m2.voices[n]->0;
                    &&& w.channel < 16
                    &&& w.sent_note < 128
                    &&& m2.busy[w.channel as int]
                } by {
                if n != input_note {
                    assert(m.voices[n] is Some);
                }
            }
            assert forall|n1: int, n2: int|
                0 <= n1 < 128 && 0 <= n2 < 128 && n1 != n2 && (#[trigger] m2.voices[n1]) is Some
                    && (#[trigger] m2.voices[n2]) is Some implies m2.voices[n1]->0.channel
                != m2.voices[n2]->0.channel by {
                if n1 != input_note && n2 != input_note {
                    assert(m.voices[n1] is Some && m.voices[n2] is Some);
                } else if n1 == input_note {
                    assert(m.voices[n2] is Some);
                } else {
                    assert(m.voices[n1] is Some);
                }
            }
            assert(messages_view(out) =~= seq![
                seq![(0x90 + chan) as u8, p.note, velocity],
                bend_message(chan as int, p.bend as int),
            ]);
        }
        Some(out)
    }

    /// The sounding voices, by input note in ascending order.
    pub fn sounding_voices(&self) -> (out: Vec<(u8, Voice)>)
        requires
            self.wf(),
        ensures
            out@ == sounding(self@.voices, 128),
    {
        let mut out: Vec<(u8, Voice)> = Vec::new();
        let mut n: usize = 0;
        while n < NUM_NOTES
            invariant
                self.wf(),
                n <= 128,
                out@ == sounding(self@.voices, n as int),
            decreases 128 - n,
        {
            match self.note_to_channel[n] {
                Some(v) => {
                    out.push((n as u8, v));
                },
                None => {
                    assert(out@ =~= out@ + seq![]);
                },
            }
            n = n + 1;
        }
        out
    }
}

/// A channel the round robin picks is free, enabled, and in MPE mode a
/// member channel.
proof fn lemma_pick_from_free(m: RouterView, i: int)
    requires
        m.wf(),
    ensures
        m.pick_from(i) matches Some(c) ==> {
            &&& c < 16
            &&& m.free(c as int)
            &&& m.is_mpe ==> 1 <= c
        },
    decreases m.slots() - i,
{
    if i >= m.slots() || i < 0 {
    } else if m.free(m.candidate(i)) {
    } else {
        lemma_pick_from_free(m, i + 1);
    }
}


impl MidiState {
    pub fn is_mpe(&self) -> (b: bool)
        ensures
            b == self@.is_mpe,
    {
        self.is_mpe
    }

    pub fn pitch_bend_range(&self) -> (r: u8)
        ensures
            r == self@.pitch_bend_range,
    {
        self.pitch_bend_range
    }

    pub fn synth_ref_note(&self) -> (r: u8)
        ensures
            r == self@.synth_ref_note,
    {
        self.synth_ref_note
    }

    pub fn input_pitch_bend(&self) -> (r: u16)
        ensures
            r == self@.input_pitch_bend,
    {
        self.input_pitch_bend
    }

    pub fn input_flash(&self) -> (r: u8)
        ensures
            r == self@.input_flash,
    {
        self.input_flash
    }

    pub fn last_allocated(&self) -> (r: u8)
        ensures
            r == self@.last_allocated,
    {
        self.last_allocated
    }

    pub fn output_flash(&self, channel: usize) -> (r: u8)
        requires
            self.wf(),
            channel < 16,
        ensures
            r == self@.output_flash[channel as int],
    {
        self.output_flash[channel]
    }

    pub fn channel_enabled(&self, channel: usize) -> (b: bool)
        requires
            self.wf(),
            channel < 16,
        ensures
            b == self@.enabled[channel as int],
    {
        self.channel_enabled[channel]
    }

    pub fn channel_busy(&self, channel: usize) -> (b: bool)
        requires
            self.wf(),
            channel < 16,
        ensures
            b == self@.busy[channel as int],
    {
        self.channel_busy[channel]
    }

    /// The voice sounding input note `note`, if any.
    pub fn voice(&self, note: usize) -> (v: Option<Voice>)
        requires
            self.wf(),
            note < 128,
        ensures
            v == self@.voices[note as int],
    {
        self.note_to_channel[note]
    }

    pub fn set_pitch_bend_range(&mut self, range: u8)
        requires
            old(self).wf(),
        ensures
            final(self).wf(),
            final(self)@ == (RouterView { pitch_bend_range: range, ..old(self)@ }),
    {
        self.pitch_bend_range = range;
    }

    pub fn set_mpe(&mut self, mpe: bool)
        requires
            old(self).wf(),
        ensures
            final(self).wf(),
            final(self)@ == (RouterView { is_mpe: mpe, ..old(self)@ }),
    {
        self.is_mpe = mpe;
    }

    /// Switches between MPE and multi-timbral output. MPE fixes the
    /// pitch-bend range at 48 semitones; multi-timbral resets it to 12.
    /// Returns whether the router is now in MPE mode.
    pub fn toggle_output_mode(&mut self) -> (mpe: bool)
        requires
            old(self).wf(),
        ensures
            final(self).wf(),
            mpe == !old(self)@.is_mpe,
            final(self)@ == (RouterView {
                is_mpe: mpe,
                pitch_bend_range: if mpe {
                    48
                } else {
                    12
                },
                ..old(self)@
            }),
    {
        self.is_mpe = !self.is_mpe;
        if self.is_mpe {
            self.pitch_bend_range = 48;
        } else {
            self.pitch_bend_range = 12;
        }
        self.is_mpe
    }

    /// Turns output channel `channel` on or off. In MPE mode channel 1 (index
    /// 0) is the master channel and stays on: the request is refused and
    /// `false` returned.
    pub fn toggle_channel(&mut self, channel: usize) -> (done: bool)
        requires
            old(self).wf(),
            channel < 16,
        ensures
            final(self).wf(),
            done == !(old(self)@.is_mpe && channel == 0),
            final(self)@ == if done {
                RouterView {
                    enabled: old(self)@.enabled.update(
                        channel as int,
                        !old(self)@.enabled[channel as int],
                    ),
                    ..old(self)@
                }
            } else {
                old(self)@
            },
    {
        if self.is_mpe && channel == 0 {
            return false;
        }
        let e = self.channel_enabled[channel];
        self.channel_enabled[channel] = !e;
        true
    }

    /// Enables exactly the channels whose 1-based numbers appear in `numbers`.
    pub fn set_enabled_channels(&mut self, numbers: &[usize])
        requires
            old(self).wf(),
        ensures
            final(self).wf(),
            final(self)@ == (RouterView {
                enabled: Seq::new(16, |i: int| numbers@.contains((i + 1) as usize)),
                ..old(self)@
            }),
    {
        let ghost m = self@;
        let mut i: usize = 0;
        while i < NUM_CHANNELS
            invariant
                m.wf(),
                i <= 16,
                self@ == (RouterView {
                    enabled: Seq::new(
                        16,
                        |c: int|
                            if c < i {
                                numbers@.contains((c + 1) as usize)
                            } else {
                                m.enabled[c]
                            },
                    ),
                    ..m
                }),
            decreases 16 - i,
        {
            let mut found = false;
            let mut j: usize = 0;
            while j < numbers.len()
                invariant
                    i < 16,
                    j <= numbers@.len(),
                    found == exists|k: int| 0 <= k < j && numbers@[k] == i + 1,
                decreases numbers@.len() - j,
            {
                if numbers[j] == i + 1 {
                    found = true;
                }
                j = j + 1;
            }
            assert(found == numbers@.contains((i + 1) as usize));
            self.channel_enabled[i] = found;
            i = i + 1;
            assert(self@.enabled =~= Seq::new(
                16,
                |c: int|
                    if c < i {
                        numbers@.contains((c + 1) as usize)
                    } else {
                        m.enabled[c]
                    },
            ));
        }
        assert(self@.enabled =~= Seq::new(16, |i: int| numbers@.contains((i + 1) as usize)));
    }

    /// The 1-based numbers of the enabled channels, in ascending order.
    pub fn enabled_channel_numbers(&self) -> (out: Vec<usize>)
        requires
            self.wf(),
        ensures
            out@ == enabled_numbers(self@.enabled, 16),
    {
        let mut out: Vec<usize> = Vec::new();
        let mut i: usize = 0;
        while i < NUM_CHANNELS
            invariant
                self.wf(),
                i <= 16,
                out@ == enabled_numbers(self@.enabled, i as int),
            decreases 16 - i,
        {
            if self.channel_enabled[i] {
                out.push(i + 1);
            } else {
                assert(out@ =~= out@ + seq![]);
            }
            i = i + 1;
        }
        out
    }

    /// One tick of the activity indicators: each that is lit dims by one.
    pub fn decay_flash(&mut self)
        requires
            old(self).wf(),
        ensures
            final(self).wf(),
            final(self)@ == (RouterView {
                input_flash: dim(old(self)@.input_flash),
                output_flash: Seq::new(16, |c: int| dim(old(self)@.output_flash[c])),
                ..old(self)@
            }),
    {
        let ghost m = self@;
        if self.input_flash > 0 {
            self.input_flash = self.input_flash - 1;
        }
        let mut c: usize = 0;
        while c < NUM_CHANNELS
            invariant
                m.wf(),
                c <= 16,
                self@ == (RouterView {
                    input_flash: dim(m.input_flash),
                    output_flash: Seq::new(
                        16,
                        |k: int|
                            if k < c {
                                dim(m.output_flash[k])
                            } else {
                                m.output_flash[k]
                            },
                    ),
                    ..m
                }),
            decreases 16 - c,
        {
            let f = self.output_flash[c];
            if f > 0 {
                self.output_flash[c] = f - 1;
            }
            c = c + 1;
            assert(self@.output_flash =~= Seq::new(
                16,
                |k: int|
                    if k < c {
                        dim(m.output_flash[k])
                    } else {
                        m.output_flash[k]
                    },
            ));
        }
        assert(self@.output_flash =~= Seq::new(16, |k: int| dim(m.output_flash[k])));
    }
}

/// An activity indicator one tick later.
pub open spec fn dim(f: u8) -> u8 {
    if f > 0 {
        (f - 1) as u8
    } else {
        0
    }
}

/// The 1-based numbers of the enabled channels below `upto`, ascending.
pub open spec fn enabled_numbers(enabled: Seq<bool>, upto: int) -> Seq<usize>
    decreases upto,
{
    if upto <= 0 {
        seq![]
    } else {
        enabled_numbers(enabled, upto - 1) + if enabled[upto - 1] {
            seq![upto as usize]
        } else {
            seq![]
        }
    }
}


/// A note that the round robin gives a channel gets a free, enabled channel,
/// and in MPE mode never the master channel 1.
pub proof fn law_allocated_channel_is_free(m: RouterView)
    requires
        m.wf(),
    ensures
        m.pick_channel() matches Some(c) ==> {
            &&& c < 16
            &&& !m.busy[c as int]
            &&& m.enabled[c as int]
            &&& m.is_mpe ==> c != 0
        },
{
    lemma_pick_from_free(m, 0);
}

proof fn lemma_pick_from_none(m: RouterView, i: int, j: int)
    requires
        0 <= i <= j < m.slots(),
        m.pick_from(i) is None,
    ensures
        !m.free(m.candidate(j)),
    decreases j - i,
{
    if i < j {
        lemma_pick_from_none(m, i + 1, j);
    }
}

/// A note-on finds a channel whenever some channel that takes voices is
/// free and enabled: channels 2 to 16 in MPE mode, any channel otherwise.
pub proof fn law_free_channel_is_found(m: RouterView, c: int)
    requires
        m.wf(),
        0 <= c < 16,
        m.is_mpe ==> c != 0,
        !m.busy[c],
        m.enabled[c],
    ensures
        m.pick_channel() is Some,
{
    if m.pick_channel() is None {
        if m.is_mpe {
            let offset: int = if m.last_allocated > 0 {
                m.last_allocated - 1
            } else {
                0
            };
            let j = ((c - 1) - offset - 1 + 30) % 15;
            assert(m.candidate(j) == c);
            lemma_pick_from_none(m, 0, j);
        } else {
            let j = (c - m.last_allocated - 1 + 32) % 16;
            assert(m.candidate(j) == c);
            lemma_pick_from_none(m, 0, j);
        }
    }
}

/// A pitch bend sent as a message reads back as the same 14-bit value.
pub proof fn law_bend_round_trip(channel: u8, bend: u16)
    requires
        channel < 16,
        bend <= BEND_MAX,
    ensures
        bend_message(channel as int, bend as int)[0] == 0xE0 + channel,
        decode_bend(
            bend_message(channel as int, bend as int)[1],
            bend_message(channel as int, bend as int)[2],
        ) == bend,
{
    let lo = (bend % 128) as u8;
    let hi = (bend / 128) as u8;
    assert((lo as u16) | ((hi as u16) << 7u16) == bend) by (bit_vector)
        requires
            bend <= 16383,
            lo == bend % 128,
            hi == bend / 128,
    ;
}

/// System messages (status 0xF0 and above) are forwarded once and
/// unchanged, in either mode, and leave every voice as it was.
pub proof fn law_system_messages_pass_unchanged(m: RouterView, msg: Seq<u8>)
    requires
        msg.len() > 0,
        msg[0] >= 0xF0,
    ensures
        route(m, msg).1 == RouteSpec::Send(seq![msg]),
        route(m, msg).0.voices == m.voices,
        route(m, msg).0.busy == m.busy,
{
}

/// In MPE mode every channel message other than a note goes to the master
/// channel (channel 1) only.
pub proof fn law_mpe_controls_go_to_master(m: RouterView, msg: Seq<u8>)
    requires
        m.is_mpe,
        msg.len() > 0,
        msg[0] < 0xF0,
        !is_note_message(msg),
    ensures
        route(m, msg).1 == RouteSpec::Send(seq![on_channel(msg, 0)]),
        route(m, msg).0.voices == m.voices,
{
}

proof fn lemma_broadcast_contains(m: RouterView, msg: Seq<u8>, upto: int, c: int)
    requires
        m.enabled.len() == 16,
        0 <= upto <= 16,
        0 <= c < 16,
        msg.len() > 0,
        msg[0] < 0xF0,
    ensures
        broadcast(m, msg, upto).contains(on_channel(msg, c)) <==> (c < upto && m.enabled[c]),
        forall|k: int|
            0 <= k < broadcast(m, msg, upto).len() ==> {
                let d = #[trigger] broadcast(m, msg, upto)[k][0] - kind_of(msg[0]);
                &&& 0 <= d < upto
                &&& m.enabled[d]
                &&& broadcast(m, msg, upto)[k] == on_channel(msg, d)
            },
    decreases upto,
{
    if upto > 0 {
        lemma_broadcast_contains(m, msg, upto - 1, c);
        let prev = broadcast(m, msg, upto - 1);
        let last = if m.enabled[upto - 1] {
            seq![on_channel(msg, upto - 1)]
        } else {
            seq![]
        };
        let all = prev + last;
        assert(all == broadcast(m, msg, upto));
        assert(on_channel(msg, c)[0] == (kind_of(msg[0]) + c) as u8);
        assert(on_channel(msg, upto - 1)[0] == (kind_of(msg[0]) + upto - 1) as u8);
        if all.contains(on_channel(msg, c)) {
            let j = choose|j: int| 0 <= j < all.len() && all[j] == on_channel(msg, c);
            if j < prev.len() {
                assert(prev[j] == all[j]);
            } else {
                assert(all[j] == on_channel(msg, upto - 1));
            }
        }
        if c < upto && m.enabled[c] {
            if c == upto - 1 {
                assert(all[prev.len() as int] == on_channel(msg, c));
            } else {
                let j = choose|j: int| 0 <= j < prev.len() && prev[j] == on_channel(msg, c);
                assert(all[j] == on_channel(msg, c));
            }
        }
        assert forall|k: int| 0 <= k < all.len() implies {
            let d = #[trigger] all[k][0] - kind_of(msg[0]);
            &&& 0 <= d < upto
            &&& m.enabled[d]
            &&& all[k] == on_channel(msg, d)
        } by {
            if k < prev.len() {
                assert(all[k] == prev[k]);
                assert(prev[k][0] == prev[k][0]);
            } else {
                assert(all[k] == on_channel(msg, upto - 1));
                assert(on_channel(msg, upto - 1)[0] == (kind_of(msg[0]) + upto - 1) as u8);
            }
        }
    }
}

proof fn lemma_broadcast_enabled(m: RouterView, m2: RouterView, msg: Seq<u8>, upto: int)
    requires
        m.enabled == m2.enabled,
    ensures
        broadcast(m, msg, upto) == broadcast(m2, msg, upto),
    decreases upto,
{
    if upto > 0 {
        lemma_broadcast_enabled(m, m2, msg, upto - 1);
    }
}

/// In multi-timbral mode a channel message other than a note or the pitch
/// wheel is copied to every enabled channel, and to no other channel.
pub proof fn law_controls_reach_enabled_channels(m: RouterView, msg: Seq<u8>)
    requires
        m.wf(),
        !m.is_mpe,
        msg.len() > 0,
        msg[0] < 0xF0,
        !is_note_message(msg),
        !(kind_of(msg[0]) == 0xE0 && msg.len() >= 3),
    ensures
        route(m, msg).1 == RouteSpec::Send(broadcast(m, msg, 16)),
        forall|c: int| 0 <= c < 16 ==> (broadcast(m, msg, 16).contains(on_channel(msg, c)) <==> m.enabled[c]),
        forall|k: int|
            0 <= k < broadcast(m, msg, 16).len() ==> {
                let c = #[trigger] broadcast(m, msg, 16)[k][0] - kind_of(msg[0]);
                &&& 0 <= c < 16
                &&& m.enabled[c]
                &&& broadcast(m, msg, 16)[k] == on_channel(msg, c)
            },
        route(m, msg).0.voices == m.voices,
{
    lemma_broadcast_enabled(m, RouterView { input_flash: FLASH, ..m }, msg, 16);
    assert forall|c: int| 0 <= c < 16 implies (broadcast(m, msg, 16).contains(on_channel(msg, c)) <==> m.enabled[c]) by {
        lemma_broadcast_contains(m, msg, 16, c);
    }
    lemma_broadcast_contains(m, msg, 16, 0);
}

/// Releasing a note undoes starting it: when a silent note is started and
/// then released, the voice table and the busy channels are as before, and
/// the note-off goes to the channel and output note that the note-on used.
pub proof fn law_note_off_undoes_note_on(
    m: RouterView,
    note: u8,
    velocity: u8,
    pitch: NotePitch,
    off: Seq<u8>,
)
    requires
        m.wf(),
        note < 128,
        pitch.valid(),
        m.voices[note as int] is None,
        is_note_message(off),
        !is_note_start(off),
        off[1] == note,
    ensures
        ({
            let (m1, sent) = start_note(m, note, velocity, Some(pitch));
            let (m2, out) = route(m1, off);
            &&& m2.voices == m.voices
            &&& m2.busy == m.busy
            &&& sent matches Some(on) ==> out == RouteSpec::Send(
                seq![
                    seq![
                        (kind_of(off[0]) + (on[0][0] - 0x90)) as u8,
                        on[0][1],
                        off[2],
                    ],
                ],
            )
        }),
{
    let (m1, sent) = start_note(m, note, velocity, Some(pitch));
    let (m2, out) = route(m1, off);
    match m.pick_channel() {
        None => {},
        Some(c) => {
            law_allocated_channel_is_free(m);
            assert(m1.voices[note as int] == Some(Voice { channel: c, sent_note: pitch.note }));
            assert(m2.voices =~= m.voices);
            assert(m2.busy =~= m.busy);
        },
    }
}

} // verus!
