//! The drum machine: its state, the tick that advances the pattern against
//! the clock, and the dispatcher that applies requests and reports what
//! changed.
//!
//! Time is counted in microseconds since the machine was started, tempo in
//! thousandths of a beat per minute.

use vstd::prelude::*;
use crate::rhythm::Rhythm;
use crate::voices::{VoiceView, Voices, VoicesView};

verus! {

/// Microseconds in a minute, times one thousand: the period of a slot is this
/// number divided by the tempo in thousandths of a beat per minute and by the
/// divisions of a beat.
pub const PERIOD_NUMERATOR: u64 = 60_000_000_000;

/// The tempo of a new machine: 120 beats per minute.
pub const DEFAULT_TEMPO: u32 = 120_000;

/// One event for the renderer: a note of an instrument, struck with
/// `velocity`, or released where `velocity` is zero.
#[derive(Clone, Copy, Debug, PartialEq, Eq, Structural)]
pub struct ControlMessage {
    pub instrument_id: usize,
    pub channel: u8,
    pub note: u8,
    pub velocity: u8,
}

/// What a preset file holds: the voices, the rhythm and the tempo.
#[derive(Debug, PartialEq)]
pub struct Preset {
    pub voices: Voices,
    pub rhythm: Rhythm,
    pub tempo_bpm: u32,
}

/// What a preset is.
pub struct PresetView {
    pub voices: VoicesView,
    pub rhythm: Rhythm,
    pub tempo_bpm: u32,
}

impl View for Preset {
    type V = PresetView;

    open spec fn view(&self) -> PresetView {
        PresetView { voices: self.voices@, rhythm: self.rhythm, tempo_bpm: self.tempo_bpm }
    }
}

impl Preset {
    /// The voices fit their grid, the rhythm has no empty dimension and the
    /// tempo is positive.
    pub open spec fn wf(&self) -> bool {
        self.voices.wf() && self.rhythm.wf() && self.tempo_bpm > 0
    }
}

/// A request to the machine. The two preset requests arrive after the host
/// has been to its storage, and carry what came of that.
#[derive(Debug, PartialEq)]
pub enum RequestKind {
    SetName(String),
    SetEnabled(bool),
    AddVoice,
    RemoveVoice(usize),
    ClearVoices,
    SetVoiceName(usize, String),
    SetVoiceInstrument(usize, Option<usize>),
    SetVoiceNote(usize, u8),
    SetVoiceVelocity(usize, u8),
    SetSlot(usize, usize, bool),
    SetRhythm(Rhythm),
    /// The new tempo, in thousandths of a beat per minute.
    SetTempoBpm(u32),
    /// The preset that the host read, or nothing where it could not find,
    /// read or understand the file.
    LoadPreset(Option<Preset>),
    /// Whether the host could store the preset that `serialize_preset` gave.
    SavePreset(bool),
}

impl RequestKind {
    /// The values that the request carries are well formed.
    pub open spec fn wf(&self) -> bool {
        match self {
            RequestKind::SetRhythm(r) => r.wf(),
            RequestKind::LoadPreset(Some(p)) => p.wf(),
            _ => true,
        }
    }
}

/// One field of the machine with its new value, as clients are told of it.
#[derive(Debug, PartialEq)]
pub enum Field {
    Name(String),
    Enabled(bool),
    Voices(Voices),
    Rhythm(Rhythm),
    TempoBpm(u32),
}

/// What a reported field is.
pub enum FieldView {
    Name(Seq<char>),
    Enabled(bool),
    Voices(VoicesView),
    Rhythm(Rhythm),
    TempoBpm(u32),
}

impl View for Field {
    type V = FieldView;

    open spec fn view(&self) -> FieldView {
        match self {
            Field::Name(s) => FieldView::Name(s@),
            Field::Enabled(b) => FieldView::Enabled(*b),
            Field::Voices(v) => FieldView::Voices(v@),
            Field::Rhythm(r) => FieldView::Rhythm(*r),
            Field::TempoBpm(t) => FieldView::TempoBpm(*t),
        }
    }
}

impl Field {
    /// The name under which clients know the field.
    pub fn key(&self) -> (key: &'static str)
        ensures
            key@ == match self@ {
                FieldView::Name(_) => "name"@,
                FieldView::Enabled(_) => "enabled"@,
                FieldView::Voices(_) => "voices"@,
                FieldView::Rhythm(_) => "rhythm"@,
                FieldView::TempoBpm(_) => "tempo_bpm"@,
            },
    {
        match self {
            Field::Name(_) => "name",
            Field::Enabled(_) => "enabled",
            Field::Voices(_) => "voices",
            Field::Rhythm(_) => "rhythm",
            Field::TempoBpm(_) => "tempo_bpm",
        }
    }
}

/// The answer to a request.
#[derive(Debug, PartialEq)]
pub enum Update {
    /// Carried out, with nothing for clients to merge.
    Done,
    /// Carried out; these fields changed.
    Fields(Vec<Field>),
    /// Rejected; the machine is as it was.
    Failed,
}

/// What an answer is.
pub enum UpdateView {
    Done,
    Fields(Seq<FieldView>),
    Failed,
}

impl View for Update {
    type V = UpdateView;

    open spec fn view(&self) -> UpdateView {
        match self {
            Update::Done => UpdateView::Done,
            Update::Fields(fields) => UpdateView::Fields(
                Seq::new(fields@.len(), |i: int| fields@[i]@),
            ),
            Update::Failed => UpdateView::Failed,
        }
    }
}

impl Update {
    /// Whether the request was rejected.
    pub fn is_failed(&self) -> (r: bool)
        ensures
            r == (self@ is Failed),
    {
        match self {
            Update::Failed => true,
            _ => false,
        }
    }
}

/// The two events that a voice sends when its slot triggers: the note struck
/// with the voice's velocity, then the same note released.
pub open spec fn trigger_pair(voice: VoiceView, instrument_id: usize) -> Seq<ControlMessage> {
    seq![
        ControlMessage {
            instrument_id,
            channel: voice.channel,
            note: voice.note,
            velocity: voice.velocity,
        },
        ControlMessage { instrument_id, channel: voice.channel, note: voice.note, velocity: 0 },
    ]
}

/// What one voice sends at slot `slot`: a trigger pair where it is bound to
/// an instrument and has that slot set, else nothing.
pub open spec fn voice_events(voice: VoiceView, slot: nat) -> Seq<ControlMessage> {
    match voice.instrument_index {
        Some(instrument_id) if slot < voice.slots.len() && voice.slots[slot as int] => trigger_pair(
            voice,
            instrument_id,
        ),
        _ => Seq::empty(),
    }
}

/// What the voices send at slot `slot`, voice by voice in their order.
pub open spec fn slot_events(voices: Seq<VoiceView>, slot: nat) -> Seq<ControlMessage>
    decreases voices.len(),
{
    if voices.len() == 0 {
        Seq::empty()
    } else {
        slot_events(voices.drop_last(), slot) + voice_events(voices.last(), slot)
    }
}

/// What the machine is.
pub struct NodeView {
    pub name: Seq<char>,
    pub enabled: bool,
    pub voices: VoicesView,
    pub rhythm: Option<Rhythm>,
    pub tempo_bpm: u32,
    pub current_beat: u8,
    pub current_div: u8,
    pub last_time: u64,
}

impl NodeView {
    /// The machine at its start: named "Drum Machine", enabled, without
    /// rhythm or voices, at the default tempo, its cursor at the start.
    pub open spec fn initial() -> NodeView {
        NodeView {
            name: "Drum Machine"@,
            enabled: true,
            voices: VoicesView { num_slots: 0, voices: Seq::empty() },
            rhythm: None,
            tempo_bpm: DEFAULT_TEMPO,
            current_beat: 0,
            current_div: 0,
            last_time: 0,
        }
    }

    /// The voices fit their grid, the rhythm, where there is one, has no
    /// empty dimension, and the tempo is positive.
    pub open spec fn wf(self) -> bool {
        &&& self.voices.wf()
        &&& self.tempo_bpm > 0
        &&& self.rhythm matches Some(r) ==> r.wf()
    }

    /// The time from one slot to the next, in microseconds, under `rhythm`:
    /// sixty seconds divided by the tempo and by the divisions of a beat,
    /// rounded down.
    pub open spec fn period(self, rhythm: Rhythm) -> nat {
        (PERIOD_NUMERATOR as nat) / ((self.tempo_bpm as nat) * (rhythm.num_divs as nat))
    }

    /// Whether a tick at `now` plays a slot: the machine is enabled, has a
    /// rhythm, and a period or more has passed since the last slot.
    pub open spec fn due(self, now: u64) -> bool {
        &&& self.enabled
        &&& self.rhythm matches Some(r) && now - self.last_time >= self.period(r)
    }

    /// The slot under the cursor.
    pub open spec fn slot_index(self, rhythm: Rhythm) -> nat {
        (self.current_beat as nat) * (rhythm.num_divs as nat) + (self.current_div as nat)
    }

    /// The division after the current one, wrapping at the end of the beat.
    pub open spec fn next_div(self, rhythm: Rhythm) -> u8 {
        ((self.current_div + 1) % (rhythm.num_divs as int)) as u8
    }

    /// The beat after the current one, wrapping at the end of the bar.
    pub open spec fn next_beat(self, rhythm: Rhythm) -> u8 {
        ((self.current_beat + 1) % (rhythm.num_beats as int)) as u8
    }

    /// The machine after it has played a slot: the cursor moves on by one
    /// division, and by one beat where the division wraps; the time of the
    /// last slot moves on by one period, whatever the clock said.
    pub open spec fn advanced(self, rhythm: Rhythm) -> NodeView {
        NodeView {
            current_div: self.next_div(rhythm),
            current_beat: if self.next_div(rhythm) == 0 {
                self.next_beat(rhythm)
            } else {
                self.current_beat
            },
            last_time: (self.last_time + self.period(rhythm)) as u64,
            ..self
        }
    }

    /// The machine after a wake at `now`: advanced where a slot is due, else
    /// as it was.
    pub open spec fn stepped(self, now: u64) -> NodeView {
        match self.rhythm {
            Some(r) if self.due(now) => self.advanced(r),
            _ => self,
        }
    }

    /// The events of a wake at `now`: those of the slot under the cursor
    /// where a slot is due, else none.
    pub open spec fn step_events(self, now: u64) -> Seq<ControlMessage> {
        match self.rhythm {
            Some(r) if self.due(now) => slot_events(self.voices.voices, self.slot_index(r)),
            _ => Seq::empty(),
        }
    }

    /// The machine with its cursor at the start and its last slot at `now`.
    pub open spec fn reset(self, now: u64) -> NodeView {
        NodeView { current_beat: 0, current_div: 0, last_time: now, ..self }
    }

    /// The machine with its voices replaced.
    pub open spec fn with_voices(self, voices: VoicesView) -> NodeView {
        NodeView { voices, ..self }
    }

    /// The preset that saving writes: nothing while there is no rhythm.
    pub open spec fn preset(self) -> Option<PresetView> {
        match self.rhythm {
            Some(rhythm) => Some(
                PresetView { voices: self.voices, rhythm, tempo_bpm: self.tempo_bpm },
            ),
            None => None,
        }
    }

    /// The machine with voices, rhythm and tempo taken from `preset`.
    pub open spec fn with_preset(self, preset: PresetView) -> NodeView {
        NodeView {
            voices: preset.voices,
            rhythm: Some(preset.rhythm),
            tempo_bpm: preset.tempo_bpm,
            ..self
        }
    }

    /// Whether the machine has a voice at `index`.
    pub open spec fn has_voice(self, index: usize) -> bool {
        index < self.voices.voices.len()
    }

    /// Whether the request is carried out. A request that names a voice or a
    /// slot that is not there is rejected, and so are a tempo of zero, a
    /// preset that could not be read, and a preset that cannot be written
    /// for want of a rhythm or could not be stored.
    pub open spec fn accepts(self, kind: RequestKind) -> bool {
        match kind {
            RequestKind::RemoveVoice(i) => self.has_voice(i),
            RequestKind::SetVoiceName(i, _) => self.has_voice(i),
            RequestKind::SetVoiceInstrument(i, _) => self.has_voice(i),
            RequestKind::SetVoiceNote(i, _) => self.has_voice(i),
            RequestKind::SetVoiceVelocity(i, _) => self.has_voice(i),
            RequestKind::SetSlot(v, s, _) => self.has_voice(v) && s
                < self.voices.voices[v as int].slots.len(),
            RequestKind::SetTempoBpm(tempo) => tempo > 0,
            RequestKind::LoadPreset(file) => file is Some,
            RequestKind::SavePreset(stored) => stored && self.rhythm is Some,
            _ => true,
        }
    }

    /// The machine after a request that is carried out.
    pub open spec fn applied(self, kind: RequestKind, now: u64) -> NodeView {
        let voices = self.voices;
        match kind {
            RequestKind::SetName(name) => NodeView { name: name@, ..self },
            RequestKind::SetEnabled(enabled) => NodeView { enabled, ..self },
            RequestKind::AddVoice => self.with_voices(
                VoicesView {
                    num_slots: voices.num_slots,
                    voices: voices.voices.push(VoiceView::fresh(voices.num_slots)),
                },
            ),
            RequestKind::RemoveVoice(i) => self.with_voices(
                VoicesView { num_slots: voices.num_slots, voices: voices.voices.remove(i as int) },
            ),
            RequestKind::ClearVoices => self.with_voices(
                VoicesView { num_slots: voices.num_slots, voices: Seq::empty() },
            ),
            RequestKind::SetVoiceName(i, name) => self.with_voices(
                voices.with_voice(i as int, VoiceView { name: name@, ..voices.voices[i as int] }),
            ),
            RequestKind::SetVoiceInstrument(i, instrument_index) => self.with_voices(
                voices.with_voice(
                    i as int,
                    VoiceView { instrument_index, ..voices.voices[i as int] },
                ),
            ),
            RequestKind::SetVoiceNote(i, note) => self.with_voices(
                voices.with_voice(i as int, VoiceView { note, ..voices.voices[i as int] }),
            ),
            RequestKind::SetVoiceVelocity(i, velocity) => self.with_voices(
                voices.with_voice(i as int, VoiceView { velocity, ..voices.voices[i as int] }),
            ),
            RequestKind::SetSlot(v, s, enabled) => self.with_voices(
                voices.with_voice(
                    v as int,
                    VoiceView {
                        slots: voices.voices[v as int].slots.update(s as int, enabled),
                        ..voices.voices[v as int]
                    },
                ),
            ),
            RequestKind::SetRhythm(rhythm) => NodeView {
                rhythm: Some(rhythm),
                voices: voices.resized(rhythm.slots()),
                ..self
            },
            RequestKind::SetTempoBpm(tempo_bpm) => NodeView { tempo_bpm, ..self },
            RequestKind::LoadPreset(file) => self.with_preset(file.unwrap()@).reset(now),
            RequestKind::SavePreset(_) => self,
        }
    }

    /// The answer to a request that was carried out and left the machine as
    /// `self`: the fields that the request changes, with the values they now
    /// have.
    pub open spec fn reply(self, kind: RequestKind) -> UpdateView {
        match kind {
            RequestKind::SetName(_) => UpdateView::Fields(seq![FieldView::Name(self.name)]),
            RequestKind::SetEnabled(_) => UpdateView::Fields(
                seq![FieldView::Enabled(self.enabled)],
            ),
            RequestKind::SetRhythm(rhythm) => UpdateView::Fields(
                seq![FieldView::Rhythm(rhythm), FieldView::Voices(self.voices)],
            ),
            RequestKind::SetTempoBpm(_) => UpdateView::Fields(
                seq![FieldView::TempoBpm(self.tempo_bpm)],
            ),
            RequestKind::LoadPreset(file) => UpdateView::Fields(
                seq![
                    FieldView::Rhythm(file.unwrap().rhythm),
                    FieldView::Voices(self.voices),
                    FieldView::TempoBpm(self.tempo_bpm),
                ],
            ),
            RequestKind::SavePreset(_) => UpdateView::Done,
            _ => UpdateView::Fields(seq![FieldView::Voices(self.voices)]),
        }
    }

    /// The machine after a request: changed as asked where the request is
    /// carried out, untouched where it is rejected.
    pub open spec fn after(self, kind: RequestKind, now: u64) -> NodeView {
        if self.accepts(kind) {
            self.applied(kind, now)
        } else {
            self
        }
    }

    /// The answer to a request.
    pub open spec fn answer(self, kind: RequestKind, now: u64) -> UpdateView {
        if self.accepts(kind) {
            self.applied(kind, now).reply(kind)
        } else {
            UpdateView::Failed
        }
    }

    /// The machine after the requests `kinds`, taken in their order.
    pub open spec fn after_all(self, kinds: Seq<RequestKind>, now: u64) -> NodeView
        decreases kinds.len(),
    {
        if kinds.len() == 0 {
            self
        } else {
            self.after_all(kinds.drop_last(), now).after(kinds.last(), now)
        }
    }
}

/// The drum machine.
#[derive(Debug)]
pub struct Node {
    name: String,
    enabled: bool,
    voices: Voices,
    rhythm: Option<Rhythm>,
    tempo_bpm: u32,
    current_beat: u8,
    current_div: u8,
    last_time: u64,
}

impl View for Node {
    type V = NodeView;

    closed spec fn view(&self) -> NodeView {
        NodeView {
            name: self.name@,
            enabled: self.enabled,
            voices: self.voices@,
            rhythm: self.rhythm,
            tempo_bpm: self.tempo_bpm,
            current_beat: self.current_beat,
            current_div: self.current_div,
            last_time: self.last_time,
        }
    }
}

impl Node {
    /// The state is well formed.
    pub open spec fn wf(&self) -> bool {
        self@.wf()
    }

    /// The machine at its start.
    pub fn new() -> (node: Node)
        ensures
            node.wf(),
            node@ == NodeView::initial(),
    {
        Node {
            name: "Drum Machine".to_owned(),
            enabled: true,
            voices: Voices::new(),
            rhythm: None,
            tempo_bpm: DEFAULT_TEMPO,
            current_beat: 0,
            current_div: 0,
            last_time: 0,
        }
    }

    /// The name of the machine.
    pub fn name(&self) -> (r: &String)
        ensures
            r@ == self@.name,
    {
        &self.name
    }

    /// Whether the sequencer plays.
    pub fn enabled(&self) -> (r: bool)
        ensures
            r == self@.enabled,
    {
        self.enabled
    }

    /// The voices.
    pub fn voices(&self) -> (r: &Voices)
        ensures
            r@ == self@.voices,
    {
        &self.voices
    }

    /// The rhythm, if one is set.
    pub fn rhythm(&self) -> (r: Option<Rhythm>)
        ensures
            r == self@.rhythm,
    {
        self.rhythm
    }

    /// The tempo, in thousandths of a beat per minute.
    pub fn tempo_bpm(&self) -> (r: u32)
        ensures
            r == self@.tempo_bpm,
    {
        self.tempo_bpm
    }

    /// The beat under the cursor.
    pub fn current_beat(&self) -> (r: u8)
        ensures
            r == self@.current_beat,
    {
        self.current_beat
    }

    /// The division under the cursor.
    pub fn current_div(&self) -> (r: u8)
        ensures
            r == self@.current_div,
    {
        self.current_div
    }

    /// The time of the last slot, in microseconds.
    pub fn last_time(&self) -> (r: u64)
        ensures
            r == self@.last_time,
    {
        self.last_time
    }

    /// The time from one slot to the next in microseconds, or nothing while
    /// the machine has no rhythm.
    pub fn period(&self) -> (period: Option<u64>)
        requires
            self.wf(),
        ensures
            match self@.rhythm {
                Some(r) => period == Some(self@.period(r) as u64) && self@.period(r)
                    <= PERIOD_NUMERATOR,
                None => period.is_none(),
            },
    {
        match self.rhythm {
            Some(r) => {
                assert((self.tempo_bpm as nat) * (r.num_divs as nat) <= 0xffff_ffff * 255)
                    by (nonlinear_arith)
                    requires
                        self.tempo_bpm <= 0xffff_ffff,
                        r.num_divs <= 255,
                ;
                let divisor: u64 = (self.tempo_bpm as u64) * (r.num_divs as u64);
                assert(divisor >= 1) by (nonlinear_arith)
                    requires
                        divisor == (self.tempo_bpm as nat) * (r.num_divs as nat),
                        self.tempo_bpm >= 1,
                        r.num_divs >= 1,
                ;
                assert((PERIOD_NUMERATOR as nat) / (divisor as nat) <= PERIOD_NUMERATOR) by {
                    vstd::arithmetic::div_mod::lemma_div_is_ordered_by_denominator(
                        PERIOD_NUMERATOR as int,
                        1,
                        divisor as int,
                    );
                }
                Some(PERIOD_NUMERATOR / divisor)
            },
            None => None,
        }
    }

    /// The slot under the cursor, under `rhythm`.
    fn slot_index(&self, rhythm: Rhythm) -> (index: usize)
        ensures
            index == self@.slot_index(rhythm),
    {
        assert((self.current_beat as nat) * (rhythm.num_divs as nat) <= 255 * 255)
            by (nonlinear_arith)
            requires
                self.current_beat <= 255,
                rhythm.num_divs <= 255,
        ;
        (self.current_beat as usize) * (rhythm.num_divs as usize) + (self.current_div as usize)
    }

    /// Moves the cursor on by one beat, wrapping at the end of the bar.
    fn advance_beat(&mut self, rhythm: Rhythm)
        requires
            rhythm.wf(),
        ensures
            final(self)@ == (NodeView {
                current_beat: old(self)@.next_beat(rhythm),
                ..old(self)@
            }),
    {
        let next: u16 = (self.current_beat as u16 + 1) % (rhythm.num_beats as u16);
        self.current_beat = next as u8;
    }

    /// Moves the cursor on by one division, and by one beat where the
    /// division wraps.
    fn advance_div(&mut self, rhythm: Rhythm)
        requires
            rhythm.wf(),
        ensures
            final(self)@ == (NodeView {
                current_div: old(self)@.next_div(rhythm),
                current_beat: if old(self)@.next_div(rhythm) == 0 {
                    old(self)@.next_beat(rhythm)
                } else {
                    old(self)@.current_beat
                },
                ..old(self)@
            }),
    {
        let next: u16 = (self.current_div as u16 + 1) % (rhythm.num_divs as u16);
        self.current_div = next as u8;
        if self.current_div == 0 {
            self.advance_beat(rhythm);
        }
    }

    /// The events of the slot at beat `beat_num`, division `div_num`: a
    /// trigger pair for every voice that is bound to an instrument and has
    /// the slot set, in the order of the voices. None while the machine has
    /// no rhythm.
    pub fn beat_tick(&self, beat_num: u8, div_num: u8) -> (events: Vec<ControlMessage>)
        ensures
            match self@.rhythm {
                Some(r) => events@ == slot_events(
                    self@.voices.voices,
                    (beat_num as nat) * (r.num_divs as nat) + (div_num as nat),
                ),
                None => events@ == Seq::<ControlMessage>::empty(),
            },
    {
        let mut events: Vec<ControlMessage> = Vec::new();
        let rhythm = match self.rhythm {
            Some(r) => r,
            None => {
                return events;
            },
        };
        assert((beat_num as nat) * (rhythm.num_divs as nat) <= 255 * 255) by (nonlinear_arith)
            requires
                beat_num <= 255,
                rhythm.num_divs <= 255,
        ;
        let slot_index: usize = (beat_num as usize) * (rhythm.num_divs as usize) + (
        div_num as usize);
        let count = self.voices.len();
        let mut i: usize = 0;
        assert(self@.voices.voices.take(0) =~= Seq::empty());
        while i < count
            invariant
                i <= count,
                count == self@.voices.voices.len(),
                events@ == slot_events(self@.voices.voices.take(i as int), slot_index as nat),
            decreases count - i,
        {
            let voice = self.voices.voice(i).unwrap();
            let ghost before = events@;
            match voice.instrument_index() {
                Some(instrument_id) => {
                    let slots = voice.slots();
                    if slot_index < slots.len() && slots[slot_index] {
                        produce_noise(
                            &mut events,
                            instrument_id,
                            voice.channel(),
                            voice.note(),
                            voice.velocity(),
                        );
                    }
                },
                None => {},
            }
            proof {
                let upto = self@.voices.voices.take(i + 1);
                assert(upto.drop_last() =~= self@.voices.voices.take(i as int));
                assert(upto.last() == self@.voices.voices[i as int]);
                assert(events@ =~= before + voice_events(upto.last(), slot_index as nat));
            }
            i += 1;
        }
        assert(self@.voices.voices.take(count as int) =~= self@.voices.voices);
        events
    }

    /// One wake of the sequencer at time `now`, after the requests are
    /// done. Where a slot is due, its events are handed back, the cursor
    /// moves on and the time of the last slot moves on by one period;
    /// otherwise nothing is sent and nothing changes. At most one slot is
    /// played per wake.
    pub fn step(&mut self, now: u64) -> (events: Vec<ControlMessage>)
        requires
            old(self).wf(),
        ensures
            final(self).wf(),
            events@ == old(self)@.step_events(now),
            final(self)@ == old(self)@.stepped(now),
    {
        if self.enabled {
            match self.rhythm {
                Some(rhythm) => {
                    let period = self.period().unwrap();
                    if now >= self.last_time && now - self.last_time >= period {
                        let events = self.beat_tick(self.current_beat, self.current_div);
                        self.advance_div(rhythm);
                        self.last_time = self.last_time + period;
                        return events;
                    }
                },
                None => {},
            }
        }
        Vec::new()
    }

    /// Puts the cursor at the start and lets the next period begin at `now`.
    pub fn reset(&mut self, now: u64)
        ensures
            final(self)@ == old(self)@.reset(now),
    {
        self.current_beat = 0;
        self.current_div = 0;
        self.last_time = now;
    }
}

impl Node {
    /// The answer that tells clients of the voices as they now are.
    fn voices_changed(&self) -> (update: Update)
        ensures
            update@ == UpdateView::Fields(seq![FieldView::Voices(self@.voices)]),
    {
        let mut fields: Vec<Field> = Vec::new();
        fields.push(Field::Voices(self.voices.clone()));
        assert(Seq::new(fields@.len(), |i: int| fields@[i]@) =~= seq![
            FieldView::Voices(self@.voices),
        ]);
        Update::Fields(fields)
    }

    /// Renames the machine and reports the name.
    pub fn set_name(&mut self, name: String) -> (update: Update)
        requires
            old(self).wf(),
        ensures
            final(self).wf(),
            final(self)@ == (NodeView { name: name@, ..old(self)@ }),
            update@ == UpdateView::Fields(seq![FieldView::Name(name@)]),
    {
        self.name = name.clone();
        let mut fields: Vec<Field> = Vec::new();
        fields.push(Field::Name(name));
        assert(Seq::new(fields@.len(), |i: int| fields@[i]@) =~= seq![FieldView::Name(name@)]);
        Update::Fields(fields)
    }

    /// Switches the sequencer on or off and reports the switch.
    pub fn set_enabled(&mut self, flag: bool) -> (update: Update)
        requires
            old(self).wf(),
        ensures
            final(self).wf(),
            final(self)@ == (NodeView { enabled: flag, ..old(self)@ }),
            update@ == UpdateView::Fields(seq![FieldView::Enabled(flag)]),
    {
        self.enabled = flag;
        let mut fields: Vec<Field> = Vec::new();
        fields.push(Field::Enabled(flag));
        assert(Seq::new(fields@.len(), |i: int| fields@[i]@) =~= seq![FieldView::Enabled(flag)]);
        Update::Fields(fields)
    }

    /// Appends a fresh voice and reports the voices.
    pub fn add_voice(&mut self) -> (update: Update)
        requires
            old(self).wf(),
        ensures
            final(self).wf(),
            final(self)@ == old(self)@.after(RequestKind::AddVoice, 0),
            update@ == old(self)@.answer(RequestKind::AddVoice, 0),
    {
        self.voices.add_voice();
        self.voices_changed()
    }

    /// Removes the voice at `index` and reports the voices; fails where there
    /// is no such voice.
    pub fn remove_voice(&mut self, index: usize) -> (update: Update)
        requires
            old(self).wf(),
        ensures
            final(self).wf(),
            final(self)@ == old(self)@.after(RequestKind::RemoveVoice(index), 0),
            update@ == old(self)@.answer(RequestKind::RemoveVoice(index), 0),
    {
        if self.voices.remove_voice(index).is_ok() {
            self.voices_changed()
        } else {
            Update::Failed
        }
    }

    /// Removes every voice and reports the voices.
    pub fn clear_voices(&mut self) -> (update: Update)
        requires
            old(self).wf(),
        ensures
            final(self).wf(),
            final(self)@ == old(self)@.after(RequestKind::ClearVoices, 0),
            update@ == old(self)@.answer(RequestKind::ClearVoices, 0),
    {
        self.voices.clear();
        self.voices_changed()
    }

    /// Names the voice at `voice_index` and reports the voices; fails where
    /// there is no such voice.
    pub fn set_voice_name(&mut self, voice_index: usize, name: String) -> (update: Update)
        requires
            old(self).wf(),
        ensures
            final(self).wf(),
            final(self)@ == old(self)@.after(RequestKind::SetVoiceName(voice_index, name), 0),
            update@ == old(self)@.answer(RequestKind::SetVoiceName(voice_index, name), 0),
    {
        let res = self.voices.set_voice_name(voice_index, name).is_ok();
        if res {
            self.voices_changed()
        } else {
            Update::Failed
        }
    }

    /// Binds the voice at `voice_index` to an instrument, or to none, and
    /// reports the voices; fails where there is no such voice.
    pub fn set_voice_instrument(
        &mut self,
        voice_index: usize,
        instrument_index: Option<usize>,
    ) -> (update: Update)
        requires
            old(self).wf(),
        ensures
            final(self).wf(),
            final(self)@ == old(self)@.after(
                RequestKind::SetVoiceInstrument(voice_index, instrument_index),
                0,
            ),
            update@ == old(self)@.answer(
                RequestKind::SetVoiceInstrument(voice_index, instrument_index),
                0,
            ),
    {
        let res = self.voices.set_voice_instrument(voice_index, instrument_index).is_ok();
        if res {
            self.voices_changed()
        } else {
            Update::Failed
        }
    }

    /// Sets the note of the voice at `voice_index` and reports the voices;
    /// fails where there is no such voice.
    pub fn set_voice_note(&mut self, voice_index: usize, note: u8) -> (update: Update)
        requires
            old(self).wf(),
        ensures
            final(self).wf(),
            final(self)@ == old(self)@.after(RequestKind::SetVoiceNote(voice_index, note), 0),
            update@ == old(self)@.answer(RequestKind::SetVoiceNote(voice_index, note), 0),
    {
        if self.voices.set_voice_note(voice_index, note).is_ok() {
            self.voices_changed()
        } else {
            Update::Failed
        }
    }

    /// Sets the velocity of the voice at `voice_index` and reports the
    /// voices; fails where there is no such voice.
    pub fn set_voice_velocity(&mut self, voice_index: usize, velocity: u8) -> (update: Update)
        requires
            old(self).wf(),
        ensures
            final(self).wf(),
            final(self)@ == old(self)@.after(
                RequestKind::SetVoiceVelocity(voice_index, velocity),
                0,
            ),
            update@ == old(self)@.answer(RequestKind::SetVoiceVelocity(voice_index, velocity), 0),
    {
        if self.voices.set_voice_velocity(voice_index, velocity).is_ok() {
            self.voices_changed()
        } else {
            Update::Failed
        }
    }

    /// Sets or clears one trigger and reports the voices; fails where there
    /// is no such voice or no such slot.
    pub fn set_slot(&mut self, voice_index: usize, slot_index: usize, enabled: bool) -> (update:
        Update)
        requires
            old(self).wf(),
        ensures
            final(self).wf(),
            final(self)@ == old(self)@.after(
                RequestKind::SetSlot(voice_index, slot_index, enabled),
                0,
            ),
            update@ == old(self)@.answer(
                RequestKind::SetSlot(voice_index, slot_index, enabled),
                0,
            ),
    {
        let res = self.voices.set_slot(voice_index, slot_index, enabled).is_ok();
        if res {
            self.voices_changed()
        } else {
            Update::Failed
        }
    }

    /// Replaces the rhythm, brings every voice to the new grid by the resize
    /// rule, and reports rhythm and voices.
    pub fn set_rhythm(&mut self, rhythm: Rhythm) -> (update: Update)
        requires
            old(self).wf(),
            rhythm.wf(),
        ensures
            final(self).wf(),
            final(self)@ == (NodeView {
                rhythm: Some(rhythm),
                voices: old(self)@.voices.resized(rhythm.slots()),
                ..old(self)@
            }),
            update@ == UpdateView::Fields(
                seq![FieldView::Rhythm(rhythm), FieldView::Voices(final(self)@.voices)],
            ),
    {
        self.rhythm = Some(rhythm);
        self.voices.set_num_slots(rhythm.num_slots());
        let mut fields: Vec<Field> = Vec::new();
        fields.push(Field::Rhythm(rhythm));
        fields.push(Field::Voices(self.voices.clone()));
        assert(Seq::new(fields@.len(), |i: int| fields@[i]@) =~= seq![
            FieldView::Rhythm(rhythm),
            FieldView::Voices(self@.voices),
        ]);
        Update::Fields(fields)
    }

    /// Changes the tempo, given in thousandths of a beat per minute, and
    /// reports it; fails, changing nothing, on a tempo of zero.
    pub fn set_tempo_bpm(&mut self, tempo_bpm: u32) -> (update: Update)
        requires
            old(self).wf(),
        ensures
            final(self).wf(),
            tempo_bpm > 0 ==> final(self)@ == (NodeView { tempo_bpm, ..old(self)@ }) && update@
                == UpdateView::Fields(seq![FieldView::TempoBpm(tempo_bpm)]),
            tempo_bpm == 0 ==> final(self)@ == old(self)@ && update@ is Failed,
    {
        if tempo_bpm == 0 {
            return Update::Failed;
        }
        self.tempo_bpm = tempo_bpm;
        let mut fields: Vec<Field> = Vec::new();
        fields.push(Field::TempoBpm(tempo_bpm));
        assert(Seq::new(fields@.len(), |i: int| fields@[i]@) =~= seq![
            FieldView::TempoBpm(tempo_bpm),
        ]);
        Update::Fields(fields)
    }

    /// The preset of the machine as it is: voices, rhythm and tempo. Nothing
    /// while the machine has no rhythm.
    pub fn serialize_preset(&self) -> (preset: Option<Preset>)
        requires
            self.wf(),
        ensures
            match preset {
                Some(p) => self@.preset() == Some(p@) && p.wf(),
                None => self@.preset().is_none(),
            },
    {
        match self.rhythm {
            Some(rhythm) => Some(
                Preset { voices: self.voices.clone(), rhythm, tempo_bpm: self.tempo_bpm },
            ),
            None => None,
        }
    }

    /// Takes voices, rhythm and tempo from `preset`; the rest of the machine
    /// stays as it is.
    pub fn deserialize_preset(&mut self, preset: Preset)
        requires
            old(self).wf(),
            preset.wf(),
        ensures
            final(self).wf(),
            final(self)@ == old(self)@.with_preset(preset@),
    {
        self.voices = preset.voices;
        self.rhythm = Some(preset.rhythm);
        self.tempo_bpm = preset.tempo_bpm;
    }

    /// Takes over the parts of a stored state that are there: whether the
    /// machine is enabled, and its voices. A part that is absent stays as it
    /// is.
    pub fn deserialize(&mut self, enabled: Option<bool>, voices: Option<Voices>)
        requires
            old(self).wf(),
            voices matches Some(v) ==> v.wf(),
        ensures
            final(self).wf(),
            final(self)@ == (NodeView {
                enabled: match enabled {
                    Some(flag) => flag,
                    None => old(self)@.enabled,
                },
                voices: match voices {
                    Some(v) => v@,
                    None => old(self)@.voices,
                },
                ..old(self)@
            }),
    {
        match enabled {
            Some(flag) => {
                self.enabled = flag;
            },
            None => {},
        }
        match voices {
            Some(v) => {
                self.voices = v;
            },
            None => {},
        }
    }

    /// Finishes the loading of a preset. With the preset that the host read,
    /// the machine takes it over, starts again at `now` and reports rhythm,
    /// voices and tempo. With nothing, the load fails and the machine is as
    /// it was.
    pub fn load_preset_from_file(&mut self, file: Option<Preset>, now: u64) -> (update: Update)
        requires
            old(self).wf(),
            file matches Some(p) ==> p.wf(),
        ensures
            final(self).wf(),
            final(self)@ == old(self)@.after(RequestKind::LoadPreset(file), now),
            update@ == old(self)@.answer(RequestKind::LoadPreset(file), now),
    {
        match file {
            Some(preset) => {
                let rhythm = preset.rhythm;
                self.deserialize_preset(preset);
                self.reset(now);
                let mut fields: Vec<Field> = Vec::new();
                fields.push(Field::Rhythm(rhythm));
                fields.push(Field::Voices(self.voices.clone()));
                fields.push(Field::TempoBpm(self.tempo_bpm));
                assert(Seq::new(fields@.len(), |i: int| fields@[i]@) =~= seq![
                    FieldView::Rhythm(rhythm),
                    FieldView::Voices(self@.voices),
                    FieldView::TempoBpm(self@.tempo_bpm),
                ]);
                Update::Fields(fields)
            },
            None => Update::Failed,
        }
    }

    /// Finishes the saving of a preset: done where the machine has a rhythm,
    /// so that there was a preset to write, and the host stored it; failed
    /// otherwise. The machine is not changed.
    pub fn save_preset_to_file(&self, stored: bool) -> (update: Update)
        ensures
            update@ == self@.answer(RequestKind::SavePreset(stored), 0),
    {
        if stored && self.rhythm.is_some() {
            Update::Done
        } else {
            Update::Failed
        }
    }

    /// Carries out one request and answers it. A request that is rejected
    /// leaves the machine as it was and is answered with `Failed`; no other
    /// request is. `now` is the time at which a loaded preset starts to play.
    pub fn process_request(&mut self, kind: RequestKind, now: u64) -> (update: Update)
        requires
            old(self).wf(),
            kind.wf(),
        ensures
            final(self).wf(),
            final(self)@ == old(self)@.after(kind, now),
            update@ == old(self)@.answer(kind, now),
            update@ is Failed <==> !old(self)@.accepts(kind),
            update@ is Failed ==> final(self)@ == old(self)@,
    {
        match kind {
            RequestKind::SetName(name) => self.set_name(name),
            RequestKind::SetEnabled(flag) => self.set_enabled(flag),
            RequestKind::AddVoice => self.add_voice(),
            RequestKind::RemoveVoice(index) => self.remove_voice(index),
            RequestKind::ClearVoices => self.clear_voices(),
            RequestKind::SetVoiceName(index, name) => self.set_voice_name(index, name),
            RequestKind::SetVoiceInstrument(index, ins) => self.set_voice_instrument(index, ins),
            RequestKind::SetVoiceNote(index, note) => self.set_voice_note(index, note),
            RequestKind::SetVoiceVelocity(index, veloc) => self.set_voice_velocity(index, veloc),
            RequestKind::SetSlot(vi, si, slot) => self.set_slot(vi, si, slot),
            RequestKind::SetRhythm(rhythm) => self.set_rhythm(rhythm),
            RequestKind::SetTempoBpm(tempo_bpm) => self.set_tempo_bpm(tempo_bpm),
            RequestKind::LoadPreset(file) => self.load_preset_from_file(file, now),
            RequestKind::SavePreset(stored) => self.save_preset_to_file(stored),
        }
    }

    /// Carries out the requests of a queue, first in, first out, and gives
    /// the answers in the same order: each request meets the machine as the
    /// requests before it left it.
    pub fn receive_requests(&mut self, requests: Vec<RequestKind>, now: u64) -> (updates: Vec<
        Update,
    >)
        requires
            old(self).wf(),
            forall|i: int| 0 <= i < requests@.len() ==> (#[trigger] requests@[i]).wf(),
        ensures
            final(self).wf(),
            final(self)@ == old(self)@.after_all(requests@, now),
            updates@.len() == requests@.len(),
            forall|i: int|
                0 <= i < requests@.len() ==> (#[trigger] updates@[i])@ == old(self)@.after_all(
                    requests@.take(i),
                    now,
                ).answer(requests@[i], now),
    {
        let mut rest = requests;
        let mut updates: Vec<Update> = Vec::new();
        let ghost mut done: int = 0;
        assert(requests@.take(0) =~= Seq::empty());
        while rest.len() > 0
            invariant
                0 <= done <= requests@.len(),
                rest@ == requests@.skip(done),
                self.wf(),
                self@ == old(self)@.after_all(requests@.take(done), now),
                updates@.len() == done,
                forall|i: int| 0 <= i < requests@.len() ==> (#[trigger] requests@[i]).wf(),
                forall|i: int|
                    0 <= i < done ==> (#[trigger] updates@[i])@ == old(self)@.after_all(
                        requests@.take(i),
                        now,
                    ).answer(requests@[i], now),
            decreases rest@.len(),
        {
            let kind = rest.remove(0);
            assert(kind == requests@[done]);
            let update = self.process_request(kind, now);
            updates.push(update);
            proof {
                assert(requests@.take(done + 1).drop_last() =~= requests@.take(done));
                assert(requests@.take(done + 1).last() == requests@[done]);
                assert(rest@ =~= requests@.skip(done + 1));
                done = done + 1;
            }
        }
        assert(requests@.take(done) =~= requests@);
        updates
    }

    /// One tick at time `now`: first the waiting requests are carried out,
    /// in their order, then the sequencer wakes. The answers and the events
    /// of the slot that was played, if one was due, are handed back.
    pub fn tick(&mut self, requests: Vec<RequestKind>, now: u64) -> (r: (
        Vec<Update>,
        Vec<ControlMessage>,
    ))
        requires
            old(self).wf(),
            forall|i: int| 0 <= i < requests@.len() ==> (#[trigger] requests@[i]).wf(),
        ensures
            final(self).wf(),
            final(self)@ == old(self)@.after_all(requests@, now).stepped(now),
            r.0@.len() == requests@.len(),
            forall|i: int|
                0 <= i < requests@.len() ==> (#[trigger] r.0@[i])@ == old(self)@.after_all(
                    requests@.take(i),
                    now,
                ).answer(requests@[i], now),
            r.1@ == old(self)@.after_all(requests@, now).step_events(now),
    {
        let updates = self.receive_requests(requests, now);
        let events = self.step(now);
        (updates, events)
    }
}

impl Default for Node {
    /// The machine as `new` makes it.
    fn default() -> (node: Node)
        ensures
            node.wf(),
            node@ == NodeView::initial(),
    {
        Node::new()
    }
}

impl Clone for Node {
    /// A copy of the machine, equal to it in every part of the state.
    fn clone(&self) -> (copy: Node)
        ensures
            copy@ == self@,
    {
        Node {
            name: self.name.clone(),
            enabled: self.enabled,
            voices: self.voices.clone(),
            rhythm: self.rhythm,
            tempo_bpm: self.tempo_bpm,
            current_beat: self.current_beat,
            current_div: self.current_div,
            last_time: self.last_time,
        }
    }
}

/// A request that is answered with `Failed` leaves the machine as it was, and
/// a request that is carried out is never answered with `Failed`.
pub proof fn lemma_failed_changes_nothing(node: NodeView, kind: RequestKind, now: u64)
    ensures
        node.answer(kind, now) is Failed <==> !node.accepts(kind),
        node.answer(kind, now) is Failed ==> node.after(kind, now) == node,
{
}

/// Every request keeps the machine well formed: in particular every voice
/// has as many slots as the grid, whatever the request and its outcome.
pub proof fn lemma_request_keeps_wf(node: NodeView, kind: RequestKind, now: u64)
    requires
        node.wf(),
        kind.wf(),
    ensures
        node.after(kind, now).wf(),
{
    match kind {
        RequestKind::SetRhythm(rhythm) => {
            crate::voices::lemma_resized_wf(node.voices, rhythm.slots());
        },
        _ => {},
    }
}

/// After any sequence of requests the machine is well formed: every voice
/// has as many slots as the grid.
pub proof fn lemma_requests_keep_wf(node: NodeView, kinds: Seq<RequestKind>, now: u64)
    requires
        node.wf(),
        forall|i: int| 0 <= i < kinds.len() ==> (#[trigger] kinds[i]).wf(),
    ensures
        node.after_all(kinds, now).wf(),
    decreases kinds.len(),
{
    if kinds.len() > 0 {
        lemma_requests_keep_wf(node, kinds.drop_last(), now);
        lemma_request_keeps_wf(node.after_all(kinds.drop_last(), now), kinds.last(), now);
    }
}

/// Setting the same rhythm twice leaves the machine as setting it once does:
/// the second request finds every voice at the length of the grid and keeps
/// it as it is.
pub proof fn lemma_set_rhythm_idempotent(node: NodeView, rhythm: Rhythm, now: u64)
    requires
        node.wf(),
        rhythm.wf(),
    ensures
        node.after(RequestKind::SetRhythm(rhythm), now).after(RequestKind::SetRhythm(rhythm), now)
            == node.after(RequestKind::SetRhythm(rhythm), now),
{
    crate::voices::lemma_set_num_slots_idempotent(node.voices, rhythm.slots());
}

/// A preset that is saved and loaded again gives back the rhythm, the voices
/// and the tempo that the machine had when it was saved, whatever became of
/// the machine in between; and the loaded machine starts at the top of the
/// bar.
pub proof fn lemma_preset_round_trip(saved: NodeView, later: NodeView, file: Preset, now: u64)
    requires
        saved.preset() == Some(file@),
    ensures
        later.accepts(RequestKind::LoadPreset(Some(file))),
        later.after(RequestKind::LoadPreset(Some(file)), now).rhythm == saved.rhythm,
        later.after(RequestKind::LoadPreset(Some(file)), now).voices == saved.voices,
        later.after(RequestKind::LoadPreset(Some(file)), now).tempo_bpm == saved.tempo_bpm,
        later.after(RequestKind::LoadPreset(Some(file)), now).current_beat == 0,
        later.after(RequestKind::LoadPreset(Some(file)), now).current_div == 0,
        later.after(RequestKind::LoadPreset(Some(file)), now).preset() == saved.preset(),
{
}

/// Appends one trigger pair to `events`: the note struck, then released.
fn produce_noise(
    events: &mut Vec<ControlMessage>,
    instrument_id: usize,
    channel: u8,
    note: u8,
    velocity: u8,
)
    ensures
        final(events)@ == old(events)@ + seq![
            ControlMessage { instrument_id, channel, note, velocity },
            ControlMessage { instrument_id, channel, note, velocity: 0 },
        ],
{
    events.push(ControlMessage { instrument_id, channel, note, velocity });
    events.push(ControlMessage { instrument_id, channel, note, velocity: 0 });
    assert(final(events)@ =~= old(events)@ + seq![
        ControlMessage { instrument_id, channel, note, velocity },
        ControlMessage { instrument_id, channel, note, velocity: 0 },
    ]);
}

} // verus!
