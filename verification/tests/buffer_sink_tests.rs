use voice_receive::buffer_sink::BufferSink;
use voice_receive::events::{EventHandler, EventKind, SystemEvent, VoiceEvent};
use voice_receive::key::VoiceKey;
use voice_receive::raw::VoiceData;
use voice_receive::resolver::SsrcManager;

fn tick_event(ssrc: u32, pcm: Vec<i16>) -> VoiceEvent {
    VoiceEvent::Tick(voice_receive::raw::VoiceTick {
        speaking: vec![(ssrc, VoiceData { packet: None, decoded_voice: Some(pcm) })],
        silent: vec![],
    })
}

#[test]
fn buffer_fifo_order() {
    let (mut sink, _base) = BufferSink::new(None);
    assert!(sink.act(&tick_event(42, vec![1])).is_none());
    assert!(sink.act(&tick_event(42, vec![2])).is_none());
    assert!(sink.act(&tick_event(42, vec![3])).is_none());
    assert_eq!(sink.buffered_len(), 3);
    let t1 = sink.pop_tick().unwrap();
    let t2 = sink.pop_tick().unwrap();
    let t3 = sink.pop_tick().unwrap();
    assert_eq!(t1.get(&VoiceKey::Unknown(42)), Some(&vec![1]));
    assert_eq!(t2.get(&VoiceKey::Unknown(42)), Some(&vec![2]));
    assert_eq!(t3.get(&VoiceKey::Unknown(42)), Some(&vec![3]));
    assert!(sink.pop_tick().is_none());
}

#[test]
fn buffer_eviction_keeps_most_recent_window() {
    // One second of retention is fifty ticks.
    let (mut sink, _base) = BufferSink::new(Some(1));
    for i in 0..55i16 {
        sink.act(&tick_event(42, vec![i]));
    }
    assert_eq!(sink.buffered_len(), 50);
    for i in 5..55i16 {
        let t = sink.pop_tick().unwrap();
        assert_eq!(t.get(&VoiceKey::Unknown(42)), Some(&vec![i]));
    }
    assert!(sink.pop_tick().is_none());
}

#[test]
fn buffer_zero_retention_keeps_nothing() {
    let (mut sink, _base) = BufferSink::new(Some(0));
    sink.act(&tick_event(42, vec![1]));
    sink.act(&tick_event(42, vec![2]));
    assert_eq!(sink.buffered_len(), 0);
    assert!(sink.pop_tick().is_none());
}

#[test]
fn buffer_stop_discards_later_ticks() {
    let (mut sink, _base) = BufferSink::new(None);
    sink.act(&tick_event(42, vec![1]));
    assert!(!sink.is_stopped());
    sink.stop();
    assert!(sink.is_stopped());
    sink.act(&tick_event(42, vec![2]));
    assert_eq!(sink.buffered_len(), 1);
    let t = sink.pop_tick().unwrap();
    assert_eq!(t.get(&VoiceKey::Unknown(42)), Some(&vec![1]));
}

#[test]
fn buffer_speaking_update_changes_resolution() {
    let (mut sink, _base) = BufferSink::new(None);
    sink.act(&tick_event(42, vec![1]));
    sink.act(&VoiceEvent::SpeakingStateUpdate { ssrc: 42, user_id: Some(7) });
    assert_eq!(sink.get_user_id(42), Some(7));
    sink.act(&tick_event(42, vec![2]));
    let before = sink.pop_tick().unwrap();
    let after = sink.pop_tick().unwrap();
    assert_eq!(before.get(&VoiceKey::Unknown(42)), Some(&vec![1]));
    assert_eq!(after.get(&VoiceKey::User(7)), Some(&vec![2]));
    assert_eq!(after.get(&VoiceKey::Unknown(42)), None);
}

#[test]
fn buffer_speaking_update_without_user_is_ignored() {
    let (mut sink, _base) = BufferSink::new(None);
    sink.act(&VoiceEvent::SpeakingStateUpdate { ssrc: 42, user_id: None });
    assert_eq!(sink.get_user_id(42), None);
}

#[test]
fn buffer_ignores_disconnect_events() {
    let (mut sink, _base) = BufferSink::new(None);
    sink.act(&VoiceEvent::SpeakingStateUpdate { ssrc: 42, user_id: Some(7) });
    sink.act(&VoiceEvent::ClientDisconnect { user_id: 7 });
    assert_eq!(sink.get_user_id(42), Some(7));
}

#[test]
fn buffer_pop_for_key_projects_single_key() {
    let (mut sink, _base) = BufferSink::new(None);
    sink.act(&tick_event(42, vec![1, 2]));
    sink.act(&VoiceEvent::Tick(voice_receive::raw::VoiceTick {
        speaking: vec![],
        silent: vec![42],
    }));
    let key = VoiceKey::Unknown(42);
    assert_eq!(sink.pop_for_key(&key), Some(Some(vec![1, 2])));
    assert_eq!(sink.pop_for_key(&key), Some(None));
    assert_eq!(sink.pop_for_key(&key), None);
    assert_eq!(sink.buffered_len(), 0);
}

#[test]
fn buffer_registration_asks_for_tick_and_speaking_events() {
    let (_sink, base) = BufferSink::new(None);
    assert!(base.wants(EventKind::VoiceTick));
    assert!(base.wants(EventKind::SpeakingStateUpdate));
    assert!(!base.wants(EventKind::ClientDisconnect));
    assert_eq!(
        base.receive_events,
        vec![EventKind::VoiceTick, EventKind::SpeakingStateUpdate]
    );
}

#[test]
fn system_events_drive_a_resolver() {
    let mut r = SsrcManager::new();
    voice_receive::events::apply_system_event(
        &mut r,
        &SystemEvent::SpeakingStateUpdate { ssrc: 42, user_id: Some(7) },
    );
    assert_eq!(r.get_user(&42), Some(&7));
    voice_receive::events::apply_system_event(
        &mut r,
        &SystemEvent::SpeakingStateUpdate { ssrc: 43, user_id: None },
    );
    assert_eq!(r.get_user(&43), None);
    voice_receive::events::apply_system_event(
        &mut r,
        &SystemEvent::ClientDisconnect { user_id: 7 },
    );
    assert_eq!(r.get_user(&42), None);
}

#[test]
fn buffer_exactly_at_capacity_keeps_everything() {
    let (mut sink, _base) = BufferSink::new(Some(1));
    for i in 0..50i16 {
        sink.act(&tick_event(42, vec![i]));
    }
    assert_eq!(sink.buffered_len(), 50);
    let first = sink.pop_tick().unwrap();
    assert_eq!(first.get(&VoiceKey::Unknown(42)), Some(&vec![0]));
}
