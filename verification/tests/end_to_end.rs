use voice_receive::buffer_sink::BufferSink;
use voice_receive::events::{EventHandler, VoiceEvent};
use voice_receive::key::VoiceKey;
use voice_receive::player_input::{PyInputBase, SupportedCodec};
use voice_receive::raw::VoiceData;

fn numbered_tick(ssrc: u32, n: i16) -> VoiceEvent {
    VoiceEvent::Tick(voice_receive::raw::VoiceTick {
        speaking: vec![(ssrc, VoiceData { packet: None, decoded_voice: Some(vec![n]) })],
        silent: vec![],
    })
}

#[test]
fn one_second_window_evicts_and_resolves_in_order() {
    // One second of retention: capacity of fifty ticks at fifty ticks per
    // second. Feed 75 ticks of ssrc 42; before tick 10 the engine announces
    // that ssrc 42 belongs to participant 7.
    let (mut sink, _base) = BufferSink::new(Some(1));
    for n in 1..=75i16 {
        if n == 10 {
            sink.act(&VoiceEvent::SpeakingStateUpdate { ssrc: 42, user_id: Some(7) });
        }
        sink.act(&numbered_tick(42, n));
    }
    // The first 25 ticks were evicted; the remaining 50 come out in order,
    // all constructed after the speaking update, so keyed by the participant.
    assert_eq!(sink.buffered_len(), 50);
    for n in 26..=75i16 {
        let t = sink.pop_tick().unwrap();
        assert_eq!(t.get(&VoiceKey::User(7)), Some(&vec![n]));
        assert_eq!(t.get(&VoiceKey::Unknown(42)), None);
    }
    assert!(sink.pop_tick().is_none());
}

#[test]
fn ticks_before_resolution_stay_unknown() {
    let (mut sink, _base) = BufferSink::new(Some(1));
    for n in 1..=9i16 {
        sink.act(&numbered_tick(42, n));
    }
    for n in 1..=9i16 {
        let t = sink.pop_tick().unwrap();
        assert_eq!(t.get(&VoiceKey::Unknown(42)), Some(&vec![n]));
        assert_eq!(t.get(&VoiceKey::User(7)), None);
    }
    sink.act(&VoiceEvent::SpeakingStateUpdate { ssrc: 42, user_id: Some(7) });
    sink.act(&numbered_tick(42, 10));
    let t = sink.pop_tick().unwrap();
    assert_eq!(t.get(&VoiceKey::User(7)), Some(&vec![10]));
}

#[test]
fn player_input_descriptors() {
    let _base = PyInputBase::new();
    assert_eq!(SupportedCodec::PCM, SupportedCodec::PCM);
    assert_ne!(SupportedCodec::MP3, SupportedCodec::FLAC);
    let codec = SupportedCodec::WAVE;
    let copy = codec;
    assert_eq!(copy, SupportedCodec::WAVE);
}
