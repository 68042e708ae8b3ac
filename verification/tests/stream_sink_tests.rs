use voice_receive::events::{EventHandler, EventKind, VoiceEvent};
use voice_receive::key::VoiceKey;
use voice_receive::raw::VoiceData;
use voice_receive::stream_sink::{KeyedPoll, RecvPoll, StreamError, StreamSink};

fn stream_tick(ssrc: u32, pcm: Vec<i16>) -> VoiceEvent {
    VoiceEvent::Tick(voice_receive::raw::VoiceTick {
        speaking: vec![(ssrc, VoiceData { packet: None, decoded_voice: Some(pcm) })],
        silent: vec![],
    })
}

#[test]
fn permit_ceiling_enforced() {
    let (mut sink, _base) = StreamSink::new(false, 1, 2);
    let mut h1 = sink.stream();
    let mut h2 = sink.stream();
    let mut h3 = sink.stream();
    assert_eq!(sink.available_permits(), 2);
    assert_eq!(h1.enter(&mut sink), Ok(()));
    assert_eq!(h2.enter(&mut sink), Ok(()));
    assert_eq!(sink.available_permits(), 0);
    assert_eq!(h3.enter(&mut sink), Err(StreamError::AdmissionDenied));
    h1.close(&mut sink);
    assert_eq!(sink.available_permits(), 1);
    assert_eq!(h3.enter(&mut sink), Ok(()));
    let mut h4 = sink.stream();
    assert_eq!(h4.enter(&mut sink), Err(StreamError::AdmissionDenied));
}

#[test]
fn entering_twice_fails() {
    let (mut sink, _base) = StreamSink::new(false, 1, 2);
    let mut h = sink.stream();
    assert_eq!(h.enter(&mut sink), Ok(()));
    assert_eq!(h.enter(&mut sink), Err(StreamError::AlreadyEntered));
}

#[test]
fn closing_a_handle_is_idempotent() {
    let (mut sink, _base) = StreamSink::new(false, 1, 2);
    let mut h = sink.stream();
    h.enter(&mut sink).unwrap();
    assert_eq!(sink.available_permits(), 1);
    h.close(&mut sink);
    h.close(&mut sink);
    assert_eq!(sink.available_permits(), 2);
}

#[test]
fn idle_ticks_become_dropped_markers() {
    let (mut sink, _base) = StreamSink::new(false, 1, 4);
    let mut h = sink.stream();
    h.enter(&mut sink).unwrap();
    let mut sub = h.subscribe(&sink).unwrap();
    // Release the only permit: the sink is idle again.
    h.close(&mut sink);
    sink.act(&stream_tick(42, vec![1]));
    assert!(matches!(sink.recv(&mut sub), RecvPoll::Dropped));
    assert!(matches!(sink.recv(&mut sub), RecvPoll::Pending));
}

#[test]
fn retain_publishes_even_when_idle() {
    let (mut sink, _base) = StreamSink::new(true, 1, 4);
    let mut h = sink.stream();
    h.enter(&mut sink).unwrap();
    let mut sub = h.subscribe(&sink).unwrap();
    h.close(&mut sink);
    sink.act(&stream_tick(42, vec![9]));
    match sink.recv(&mut sub) {
        RecvPoll::Tick(t) => {
            assert_eq!(t.get(&VoiceKey::Unknown(42)), Some(&vec![9]));
        }
        other => panic!("expected a tick, got {:?}", other),
    }
}

#[test]
fn late_subscriber_sees_only_later_ticks() {
    let (mut sink, _base) = StreamSink::new(false, 1, 4);
    sink.act(&stream_tick(42, vec![1]));
    sink.act(&stream_tick(42, vec![2]));
    let mut h = sink.stream();
    h.enter(&mut sink).unwrap();
    let mut sub = h.subscribe(&sink).unwrap();
    assert!(matches!(sink.recv(&mut sub), RecvPoll::Pending));
    sink.act(&stream_tick(42, vec![3]));
    match sink.recv(&mut sub) {
        RecvPoll::Tick(t) => {
            assert_eq!(t.get(&VoiceKey::Unknown(42)), Some(&vec![3]));
        }
        other => panic!("expected a tick, got {:?}", other),
    }
}

#[test]
fn slow_consumer_lags_past_retention_depth() {
    // One second of retention: fifty broadcast slots.
    let (mut sink, _base) = StreamSink::new(true, 1, 4);
    let mut h = sink.stream();
    h.enter(&mut sink).unwrap();
    let mut sub = h.subscribe(&sink).unwrap();
    for i in 0..55i16 {
        sink.act(&stream_tick(42, vec![i]));
    }
    assert!(matches!(sink.recv(&mut sub), RecvPoll::Lagged));
    match sink.recv(&mut sub) {
        RecvPoll::Tick(t) => {
            assert_eq!(t.get(&VoiceKey::Unknown(42)), Some(&vec![5]));
        }
        other => panic!("expected a tick, got {:?}", other),
    }
}

#[test]
fn closed_sink_is_terminal_for_handles() {
    let (mut sink, _base) = StreamSink::new(true, 1, 4);
    let mut h = sink.stream();
    h.enter(&mut sink).unwrap();
    let mut sub = h.subscribe(&sink).unwrap();
    sink.act(&stream_tick(42, vec![1]));
    sink.close();
    // The already-buffered message can still be drained, then the end is
    // reported; nothing further is published.
    assert!(matches!(sink.recv(&mut sub), RecvPoll::Tick(_)));
    assert!(matches!(sink.recv(&mut sub), RecvPoll::Closed));
    sink.act(&stream_tick(42, vec![2]));
    assert!(matches!(sink.recv(&mut sub), RecvPoll::Closed));
    assert_eq!(h.subscribe(&sink), Err(StreamError::Closed));
}

#[test]
fn subscribe_requires_a_permit() {
    let (mut sink, _base) = StreamSink::new(false, 1, 2);
    let h = sink.stream();
    assert_eq!(h.subscribe(&sink), Err(StreamError::Closed));
    let mut h2 = sink.stream();
    h2.enter(&mut sink).unwrap();
    assert!(h2.subscribe(&sink).is_ok());
    h2.close(&mut sink);
    assert_eq!(h2.subscribe(&sink), Err(StreamError::Closed));
}

#[test]
fn keyed_stream_distinguishes_loss_from_silence() {
    let (mut sink, _base) = StreamSink::new(false, 1, 4);
    let mut h = sink.stream();
    h.enter(&mut sink).unwrap();
    let mut sub = h.subscribe(&sink).unwrap();
    let key = VoiceKey::Unknown(42);
    // Speaking tick for the key.
    sink.act(&stream_tick(42, vec![1, 2]));
    // Tick where the key is marked silent.
    sink.act(&VoiceEvent::Tick(voice_receive::raw::VoiceTick {
        speaking: vec![],
        silent: vec![42],
    }));
    // Idle tick: close the handle first, so only a marker is published.
    h.close(&mut sink);
    sink.act(&stream_tick(42, vec![3]));
    match sink.recv_key(&mut sub, &key) {
        KeyedPoll::Speaking(pcm) => assert_eq!(pcm, vec![1, 2]),
        other => panic!("expected samples, got {:?}", other),
    }
    assert!(matches!(sink.recv_key(&mut sub, &key), KeyedPoll::Silent));
    assert!(matches!(sink.recv_key(&mut sub, &key), KeyedPoll::Dropped));
    assert!(matches!(sink.recv_key(&mut sub, &key), KeyedPoll::Pending));
}

#[test]
fn stream_resolver_follows_speaking_and_disconnect() {
    let (mut sink, _base) = StreamSink::new(true, 1, 4);
    sink.act(&VoiceEvent::SpeakingStateUpdate { ssrc: 42, user_id: Some(7) });
    assert_eq!(sink.get_user_id(42), Some(7));
    let mut h = sink.stream();
    h.enter(&mut sink).unwrap();
    let mut sub = h.subscribe(&sink).unwrap();
    sink.act(&stream_tick(42, vec![1]));
    match sink.recv(&mut sub) {
        RecvPoll::Tick(t) => {
            assert_eq!(t.get(&VoiceKey::User(7)), Some(&vec![1]));
        }
        other => panic!("expected a tick, got {:?}", other),
    }
    sink.act(&VoiceEvent::ClientDisconnect { user_id: 7 });
    assert_eq!(sink.get_user_id(42), None);
}

#[test]
fn stream_registration_asks_for_three_event_kinds() {
    let (_sink, base) = StreamSink::new(false, 15, 50);
    assert!(base.wants(EventKind::VoiceTick));
    assert!(base.wants(EventKind::SpeakingStateUpdate));
    assert!(base.wants(EventKind::ClientDisconnect));
}

#[test]
fn zero_concurrency_always_denies_admission() {
    let (mut sink, _base) = StreamSink::new(false, 1, 0);
    let mut h = sink.stream();
    assert_eq!(h.enter(&mut sink), Err(StreamError::AdmissionDenied));
    assert_eq!(sink.available_permits(), 0);
}
