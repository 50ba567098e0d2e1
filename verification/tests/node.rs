use drum_machine::node::{ControlMessage, Field, Node, Preset, RequestKind, Update};
use drum_machine::rhythm::Rhythm;
use drum_machine::voices::Voices;

fn hits(node: &Node, voice: usize) -> Vec<usize> {
    let mut out = Vec::new();
    for (i, slot) in node.voices().voice(voice).unwrap().slots().iter().enumerate() {
        if *slot {
            out.push(i);
        }
    }
    out
}

fn state_one() -> Node {
    let mut node = Node::new();
    let requests = vec![
        RequestKind::SetRhythm(Rhythm::new(4, 4).unwrap()),
        RequestKind::AddVoice,
        RequestKind::SetVoiceInstrument(0, Some(0)),
        RequestKind::SetSlot(0, 0, true),
        RequestKind::SetSlot(0, 8, true),
        RequestKind::SetTempoBpm(120_000),
        RequestKind::SetEnabled(true),
    ];
    for update in node.receive_requests(requests, 0) {
        assert!(!update.is_failed());
    }
    node
}

fn pair(instrument_id: usize, channel: u8, note: u8, velocity: u8) -> Vec<ControlMessage> {
    vec![
        ControlMessage { instrument_id, channel, note, velocity },
        ControlMessage { instrument_id, channel, note, velocity: 0 },
    ]
}

#[test]
fn new_machine_has_defaults() {
    let node = Node::new();
    assert_eq!(node.name(), "Drum Machine");
    assert!(node.enabled());
    assert_eq!(node.rhythm(), None);
    assert_eq!(node.voices().len(), 0);
    assert_eq!(node.voices().num_slots(), 0);
    assert_eq!(node.tempo_bpm(), 120_000);
    assert_eq!(node.current_beat(), 0);
    assert_eq!(node.current_div(), 0);
    assert_eq!(node.last_time(), 0);
    assert_eq!(node.period(), None);
    let other = Node::default();
    assert_eq!(other.name(), "Drum Machine");
    assert!(*other.voices() == *node.voices());
}

#[test]
fn pattern_plays_against_the_clock() {
    let mut node = state_one();
    assert_eq!(node.period(), Some(125_000));
    let mut events = Vec::new();
    let mut now = 0u64;
    while now <= 2_000_000 {
        let (updates, mut sent) = node.tick(Vec::new(), now);
        assert!(updates.is_empty());
        assert!(sent.len() == 0 || sent.len() == 2);
        events.append(&mut sent);
        now += 1_000;
    }
    let mut expected = pair(0, 9, 0, 127);
    expected.extend(pair(0, 9, 0, 127));
    assert_eq!(events, expected);
    assert_eq!(node.current_beat(), 0);
    assert_eq!(node.current_div(), 0);
    assert_eq!(node.last_time(), 2_000_000);
}

#[test]
fn doubling_the_divisions_interpolates() {
    let mut node = state_one();
    let rhythm = Rhythm::new(4, 8).unwrap();
    let update = node.process_request(RequestKind::SetRhythm(rhythm), 0);
    assert_eq!(node.voices().num_slots(), 32);
    assert_eq!(hits(&node, 0), vec![0, 16]);
    assert_eq!(
        update,
        Update::Fields(vec![Field::Rhythm(rhythm), Field::Voices(node.voices().clone())])
    );
}

#[test]
fn halving_the_divisions_recovers_the_pattern() {
    let mut node = state_one();
    let before = node.voices().clone();
    node.process_request(RequestKind::SetRhythm(Rhythm::new(4, 8).unwrap()), 0);
    node.process_request(RequestKind::SetRhythm(Rhythm::new(4, 4).unwrap()), 0);
    assert_eq!(hits(&node, 0), vec![0, 8]);
    assert!(*node.voices() == before);
}

#[test]
fn odd_rhythm_truncates() {
    let mut node = state_one();
    node.process_request(RequestKind::SetRhythm(Rhythm::new(3, 5).unwrap()), 0);
    assert_eq!(node.voices().num_slots(), 15);
    assert_eq!(node.voices().voice(0).unwrap().slots().len(), 15);
    assert_eq!(hits(&node, 0), vec![0, 8]);
}

#[test]
fn slot_of_missing_voice_fails_without_change() {
    let mut node = state_one();
    let before = node.clone();
    let update = node.process_request(RequestKind::SetSlot(5, 0, true), 0);
    assert_eq!(update, Update::Failed);
    assert!(*node.voices() == *before.voices());
    assert_eq!(node.name(), before.name());
    assert_eq!(node.rhythm(), before.rhythm());
    assert_eq!(node.tempo_bpm(), before.tempo_bpm());
    assert_eq!(node.enabled(), before.enabled());
    assert_eq!(node.serialize_preset(), before.serialize_preset());
}

#[test]
fn preset_saves_and_loads() {
    let mut node = state_one();
    let mut now = 0u64;
    while now < 400_000 {
        node.tick(Vec::new(), now);
        now += 1_000;
    }
    assert_eq!(node.current_div(), 3);
    let saved = node.serialize_preset().unwrap();
    assert_eq!(node.process_request(RequestKind::SavePreset(true), now), Update::Done);
    let rhythm = node.rhythm().unwrap();
    let voices = node.voices().clone();
    let tempo = node.tempo_bpm();

    node.process_request(RequestKind::ClearVoices, now);
    node.process_request(RequestKind::SetTempoBpm(90_000), now);
    node.process_request(RequestKind::SetRhythm(Rhythm::new(2, 2).unwrap()), now);

    let update = node.process_request(RequestKind::LoadPreset(Some(saved)), 777);
    assert_eq!(
        update,
        Update::Fields(vec![
            Field::Rhythm(rhythm),
            Field::Voices(voices.clone()),
            Field::TempoBpm(tempo),
        ])
    );
    assert_eq!(node.rhythm(), Some(rhythm));
    assert!(*node.voices() == voices);
    assert_eq!(node.tempo_bpm(), tempo);
    assert_eq!(node.current_beat(), 0);
    assert_eq!(node.current_div(), 0);
    assert_eq!(node.last_time(), 777);
}

#[test]
fn preset_holds_the_three_fields() {
    let node = state_one();
    let preset = node.serialize_preset().unwrap();
    assert!(preset.voices == *node.voices());
    assert_eq!(preset.rhythm, Rhythm::new(4, 4).unwrap());
    assert_eq!(preset.tempo_bpm, 120_000);
    let mut other = Node::new();
    other.process_request(RequestKind::SetName(String::from("other")), 0);
    other.deserialize_preset(preset);
    assert_eq!(other.name(), "other");
    assert_eq!(other.serialize_preset(), node.serialize_preset());
}

#[test]
fn saving_needs_a_rhythm_and_a_store() {
    let mut node = Node::new();
    assert_eq!(node.serialize_preset(), None);
    assert_eq!(node.process_request(RequestKind::SavePreset(true), 0), Update::Failed);
    assert_eq!(node.save_preset_to_file(true), Update::Failed);
    let node = state_one();
    assert_eq!(node.save_preset_to_file(false), Update::Failed);
    assert_eq!(node.save_preset_to_file(true), Update::Done);
}

#[test]
fn unreadable_preset_fails_without_change() {
    let mut node = state_one();
    node.tick(Vec::new(), 125_000);
    let before = node.clone();
    assert_eq!(node.process_request(RequestKind::LoadPreset(None), 999), Update::Failed);
    assert_eq!(node.serialize_preset(), before.serialize_preset());
    assert_eq!(node.current_div(), 1);
    assert_eq!(node.last_time(), 125_000);
}

#[test]
fn zero_tempo_is_rejected() {
    let mut node = Node::new();
    assert_eq!(node.process_request(RequestKind::SetTempoBpm(0), 0), Update::Failed);
    assert_eq!(node.tempo_bpm(), 120_000);
    assert_eq!(
        node.process_request(RequestKind::SetTempoBpm(1_000), 0),
        Update::Fields(vec![Field::TempoBpm(1_000)])
    );
    assert_eq!(node.tempo_bpm(), 1_000);
}

#[test]
fn period_at_the_tempo_bounds() {
    let mut node = Node::new();
    node.set_rhythm(Rhythm::new(4, 4).unwrap());
    node.set_tempo_bpm(1_000);
    assert_eq!(node.period(), Some(15_000_000));
    node.set_tempo_bpm(999_000);
    assert_eq!(node.period(), Some(15_015));
    node.set_rhythm(Rhythm::new(1, 1).unwrap());
    node.set_tempo_bpm(60_000);
    assert_eq!(node.period(), Some(1_000_000));
}

#[test]
fn requests_report_the_fields_they_change() {
    let mut node = Node::new();
    assert_eq!(
        node.process_request(RequestKind::SetName(String::from("drums")), 0),
        Update::Fields(vec![Field::Name(String::from("drums"))])
    );
    assert_eq!(node.name(), "drums");
    assert_eq!(
        node.process_request(RequestKind::SetEnabled(false), 0),
        Update::Fields(vec![Field::Enabled(false)])
    );
    assert!(!node.enabled());
    let update = node.process_request(RequestKind::AddVoice, 0);
    assert_eq!(update, Update::Fields(vec![Field::Voices(node.voices().clone())]));
    assert_eq!(node.voices().len(), 1);
    let update = node.process_request(RequestKind::SetVoiceName(0, String::from("hat")), 0);
    assert_eq!(update, Update::Fields(vec![Field::Voices(node.voices().clone())]));
    assert_eq!(node.voices().voice(0).unwrap().name(), "hat");
    let update = node.process_request(RequestKind::SetVoiceNote(0, 42), 0);
    assert_eq!(update, Update::Fields(vec![Field::Voices(node.voices().clone())]));
    let update = node.process_request(RequestKind::SetVoiceVelocity(0, 80), 0);
    assert_eq!(update, Update::Fields(vec![Field::Voices(node.voices().clone())]));
    assert_eq!(node.voices().voice(0).unwrap().note(), 42);
    assert_eq!(node.voices().voice(0).unwrap().velocity(), 80);
    let update = node.process_request(RequestKind::RemoveVoice(0), 0);
    assert_eq!(update, Update::Fields(vec![Field::Voices(Voices::new())]));
    let update = node.process_request(RequestKind::ClearVoices, 0);
    assert_eq!(update, Update::Fields(vec![Field::Voices(Voices::new())]));
}

#[test]
fn field_keys() {
    assert_eq!(Field::Name(String::new()).key(), "name");
    assert_eq!(Field::Enabled(true).key(), "enabled");
    assert_eq!(Field::Voices(Voices::new()).key(), "voices");
    assert_eq!(Field::Rhythm(Rhythm::new(1, 1).unwrap()).key(), "rhythm");
    assert_eq!(Field::TempoBpm(1).key(), "tempo_bpm");
}

#[test]
fn rejected_requests_change_nothing() {
    let rejected = vec![
        RequestKind::RemoveVoice(1),
        RequestKind::SetVoiceName(1, String::from("x")),
        RequestKind::SetVoiceInstrument(1, Some(1)),
        RequestKind::SetVoiceNote(1, 1),
        RequestKind::SetVoiceVelocity(1, 1),
        RequestKind::SetSlot(1, 0, true),
        RequestKind::SetSlot(0, 16, true),
        RequestKind::SetTempoBpm(0),
        RequestKind::LoadPreset(None),
        RequestKind::SavePreset(false),
    ];
    let mut node = state_one();
    let before = node.clone();
    for update in node.receive_requests(rejected, 5) {
        assert_eq!(update, Update::Failed);
    }
    assert_eq!(node.serialize_preset(), before.serialize_preset());
    assert_eq!(node.name(), before.name());
    assert_eq!(node.enabled(), before.enabled());
    assert_eq!(node.last_time(), before.last_time());
}

#[test]
fn requests_are_answered_in_order() {
    let mut node = Node::new();
    let updates = node.receive_requests(
        vec![
            RequestKind::SetSlot(0, 0, true),
            RequestKind::SetRhythm(Rhythm::new(1, 2).unwrap()),
            RequestKind::AddVoice,
            RequestKind::SetSlot(0, 1, true),
            RequestKind::RemoveVoice(0),
            RequestKind::SetSlot(0, 1, true),
        ],
        0,
    );
    assert_eq!(updates.len(), 6);
    assert_eq!(updates[0], Update::Failed);
    assert!(!updates[1].is_failed());
    assert!(!updates[2].is_failed());
    let mut grid = Voices::new();
    grid.set_num_slots(2);
    grid.add_voice();
    grid.set_slot(0, 1, true).unwrap();
    assert_eq!(updates[3], Update::Fields(vec![Field::Voices(grid)]));
    assert!(!updates[4].is_failed());
    assert_eq!(updates[5], Update::Failed);
    assert_eq!(node.voices().len(), 0);
}

#[test]
fn every_request_keeps_voices_on_the_grid() {
    let mut node = state_one();
    let requests = vec![
        RequestKind::AddVoice,
        RequestKind::SetRhythm(Rhythm::new(3, 7).unwrap()),
        RequestKind::AddVoice,
        RequestKind::SetRhythm(Rhythm::new(6, 7).unwrap()),
        RequestKind::RemoveVoice(0),
        RequestKind::SetRhythm(Rhythm::new(1, 1).unwrap()),
        RequestKind::AddVoice,
    ];
    for request in requests {
        node.process_request(request, 0);
        let n = node.voices().num_slots();
        assert_eq!(n, node.rhythm().unwrap().num_slots());
        for i in 0..node.voices().len() {
            assert_eq!(node.voices().voice(i).unwrap().slots().len(), n);
        }
    }
}

#[test]
fn same_rhythm_twice_is_same_as_once() {
    let mut node = state_one();
    let rhythm = Rhythm::new(5, 3).unwrap();
    node.process_request(RequestKind::SetRhythm(rhythm), 0);
    let once = node.voices().clone();
    node.process_request(RequestKind::SetRhythm(rhythm), 0);
    assert!(*node.voices() == once);
}

#[test]
fn events_come_in_voice_order_as_pairs() {
    let mut node = Node::new();
    let requests = vec![
        RequestKind::SetRhythm(Rhythm::new(2, 2).unwrap()),
        RequestKind::AddVoice,
        RequestKind::AddVoice,
        RequestKind::AddVoice,
        RequestKind::SetVoiceInstrument(0, Some(7)),
        RequestKind::SetVoiceNote(0, 36),
        RequestKind::SetVoiceVelocity(0, 100),
        RequestKind::SetSlot(0, 3, true),
        RequestKind::SetSlot(1, 3, true),
        RequestKind::SetVoiceInstrument(2, Some(2)),
        RequestKind::SetVoiceNote(2, 40),
        RequestKind::SetSlot(2, 3, true),
        RequestKind::SetSlot(2, 0, true),
    ];
    node.receive_requests(requests, 0);
    let mut expected = pair(7, 9, 36, 100);
    expected.extend(pair(2, 9, 40, 127));
    assert_eq!(node.beat_tick(1, 1), expected);
    assert_eq!(node.beat_tick(0, 0), pair(2, 9, 40, 127));
    assert_eq!(node.beat_tick(0, 1), Vec::new());
    assert_eq!(node.beat_tick(9, 9), Vec::new());
    assert_eq!(Node::new().beat_tick(0, 0), Vec::new());
}

#[test]
fn cursor_wraps_and_time_accumulates() {
    let mut node = Node::new();
    node.set_rhythm(Rhythm::new(2, 3).unwrap());
    node.set_tempo_bpm(60_000);
    let period = node.period().unwrap();
    assert_eq!(period, 333_333);
    let mut seen = Vec::new();
    let late = 10 * period;
    for _ in 0..7 {
        node.step(late);
        seen.push((node.current_beat(), node.current_div(), node.last_time()));
    }
    assert_eq!(
        seen,
        vec![
            (0, 1, period),
            (0, 2, 2 * period),
            (1, 0, 3 * period),
            (1, 1, 4 * period),
            (1, 2, 5 * period),
            (0, 0, 6 * period),
            (0, 1, 7 * period),
        ]
    );
}

#[test]
fn nothing_plays_before_the_period_or_when_disabled() {
    let mut node = state_one();
    assert_eq!(node.step(124_999), Vec::new());
    assert_eq!(node.current_div(), 0);
    assert_eq!(node.last_time(), 0);
    node.set_enabled(false);
    assert_eq!(node.step(1_000_000), Vec::new());
    assert_eq!(node.current_div(), 0);
    node.set_enabled(true);
    assert_eq!(node.step(125_000), pair(0, 9, 0, 127));
    assert_eq!(node.current_div(), 1);
    assert_eq!(node.last_time(), 125_000);
    assert_eq!(node.step(100_000), Vec::new());
    let mut idle = Node::new();
    assert_eq!(idle.step(u64::MAX), Vec::new());
    assert_eq!(idle.last_time(), 0);
}

#[test]
fn requests_are_done_before_the_slot_plays() {
    let mut node = state_one();
    let (updates, events) = node.tick(vec![RequestKind::SetVoiceNote(0, 50)], 125_000);
    assert_eq!(updates.len(), 1);
    assert!(!updates[0].is_failed());
    assert_eq!(events, pair(0, 9, 50, 127));
}

#[test]
fn reset_restarts_the_bar() {
    let mut node = state_one();
    node.step(125_000);
    node.step(250_000);
    assert_eq!(node.current_div(), 2);
    node.reset(300_000);
    assert_eq!(node.current_beat(), 0);
    assert_eq!(node.current_div(), 0);
    assert_eq!(node.last_time(), 300_000);
    assert_eq!(node.step(424_999), Vec::new());
    assert_eq!(node.step(425_000), pair(0, 9, 0, 127));
}

#[test]
fn loaded_preset_replaces_rhythm_voices_and_tempo() {
    let mut voices = Voices::new();
    voices.set_num_slots(2);
    voices.add_voice();
    let preset = Preset { voices: voices.clone(), rhythm: Rhythm::new(1, 2).unwrap(), tempo_bpm: 90_000 };
    let mut node = state_one();
    let update = node.load_preset_from_file(Some(preset), 42);
    assert!(!update.is_failed());
    assert!(*node.voices() == voices);
    assert_eq!(node.rhythm(), Rhythm::new(1, 2));
    assert_eq!(node.tempo_bpm(), 90_000);
    assert_eq!(node.name(), "Drum Machine");
}

#[test]
fn stored_state_replaces_what_it_holds() {
    let mut node = state_one();
    let before = node.voices().clone();
    node.deserialize(Some(false), None);
    assert!(!node.enabled());
    assert!(*node.voices() == before);
    let mut voices = Voices::new();
    voices.set_num_slots(3);
    voices.add_voice();
    node.deserialize(None, Some(voices.clone()));
    assert!(!node.enabled());
    assert!(*node.voices() == voices);
    assert_eq!(node.rhythm(), Rhythm::new(4, 4));
}
