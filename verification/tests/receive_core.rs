use voice_receive::key::VoiceKey;
use voice_receive::raw::{RtpData, VoiceData};
use voice_receive::resolver::SsrcManager;
use voice_receive::tick::VoiceTick;

fn raw_tick_of(
    speaking: Vec<(u32, Option<Vec<i16>>)>,
    silent: Vec<u32>,
) -> voice_receive::raw::VoiceTick {
    voice_receive::raw::VoiceTick {
        speaking: speaking
            .into_iter()
            .map(|(ssrc, decoded_voice)| {
                (ssrc, VoiceData { packet: None, decoded_voice })
            })
            .collect(),
        silent,
    }
}

#[test]
fn resolver_insert_and_lookup() {
    let mut r = SsrcManager::new();
    assert_eq!(r.get_user(&42), None);
    r.insert(7, 42);
    assert_eq!(r.get_user(&42), Some(&7));
    assert_eq!(r.get_ssrc(&7), Some(&42));
    assert_eq!(r.get_user(&43), None);
    assert_eq!(r.get_ssrc(&8), None);
}

#[test]
fn resolver_insert_overwrites_both_directions() {
    let mut r = SsrcManager::new();
    r.insert(1, 10);
    r.insert(1, 20);
    assert_eq!(r.get_user(&10), None);
    assert_eq!(r.get_user(&20), Some(&1));
    assert_eq!(r.get_ssrc(&1), Some(&20));
    r.insert(2, 20);
    assert_eq!(r.get_user(&20), Some(&2));
    assert_eq!(r.get_ssrc(&2), Some(&20));
    assert_eq!(r.get_ssrc(&1), None);
}

#[test]
fn resolver_insert_same_pair_is_idempotent() {
    let mut r = SsrcManager::new();
    r.insert(3, 30);
    r.insert(3, 30);
    assert_eq!(r.get_user(&30), Some(&3));
    assert_eq!(r.get_ssrc(&3), Some(&30));
}

#[test]
fn resolver_remove_by_user() {
    let mut r = SsrcManager::new();
    r.insert(5, 50);
    r.remove_by_user(&5);
    assert_eq!(r.get_user(&50), None);
    assert_eq!(r.get_ssrc(&5), None);
    r.remove_by_user(&5);
    assert_eq!(r.get_ssrc(&5), None);
}

#[test]
fn voice_key_predicates() {
    let u = VoiceKey::User(1234);
    let s = VoiceKey::Unknown(42);
    assert!(u.is_user());
    assert!(!u.is_unknown());
    assert!(s.is_unknown());
    assert!(!s.is_user());
    assert_eq!(u.id(), 1234);
    assert_eq!(s.id(), 42);
    assert_eq!(u, VoiceKey::User(1234));
    assert_ne!(u, VoiceKey::User(1235));
    assert_ne!(u, VoiceKey::Unknown(1234));
}

#[test]
fn voice_key_repr() {
    assert_eq!(VoiceKey::User(1234).__repr__(), "VoiceKey.User(1234)");
    assert_eq!(VoiceKey::Unknown(42).__repr__(), "VoiceKey.Unknown(42)");
    assert_eq!(VoiceKey::User(0).__repr__(), "VoiceKey.User(0)");
    assert_eq!(
        VoiceKey::User(u64::MAX).__repr__(),
        "VoiceKey.User(18446744073709551615)"
    );
}

#[test]
fn rtp_payload_window() {
    let packet: Vec<u8> = vec![10, 11, 12, 13, 14, 15];
    let r = RtpData::from_packet(9, 1000, packet.clone(), 2, 1);
    assert_eq!(r.sequence, 9);
    assert_eq!(r.timestamp, 1000);
    assert_eq!(r.packet, packet);
    assert_eq!(r.payload, vec![12, 13, 14]);
    let degenerate = RtpData::from_packet(0, 0, packet.clone(), 5, 2);
    assert_eq!(degenerate.payload, Vec::<u8>::new());
    let pad_too_large = RtpData::from_packet(0, 0, packet, 0, 7);
    assert_eq!(pad_too_large.payload, Vec::<u8>::new());
}

#[test]
fn decoded_voice_bytes_little_endian() {
    let d = VoiceData { packet: None, decoded_voice: Some(vec![1, -1, 256]) };
    assert_eq!(
        d.decoded_voice_bytes(),
        Some(vec![1, 0, 255, 255, 0, 1])
    );
    let none = VoiceData { packet: None, decoded_voice: None };
    assert_eq!(none.decoded_voice_bytes(), None);
}

#[test]
fn snapshot_resolves_known_and_unknown_sources() {
    let mut r = SsrcManager::new();
    r.insert(7, 42);
    let raw = raw_tick_of(
        vec![(42, Some(vec![1, 2])), (43, Some(vec![3]))],
        vec![44],
    );
    let t = VoiceTick::from_parts(&raw, &r);
    assert_eq!(t.get(&VoiceKey::User(7)), Some(&vec![1, 2]));
    assert_eq!(t.get(&VoiceKey::Unknown(43)), Some(&vec![3]));
    assert_eq!(t.get(&VoiceKey::Unknown(42)), None);
    assert!(t.is_silent(&VoiceKey::Unknown(44)));
    assert!(!t.is_silent(&VoiceKey::User(7)));
}

#[test]
fn snapshot_speaking_wins_over_silent() {
    let r = SsrcManager::new();
    let raw = raw_tick_of(vec![(42, Some(vec![5]))], vec![42]);
    let t = VoiceTick::from_parts(&raw, &r);
    assert_eq!(t.get(&VoiceKey::Unknown(42)), Some(&vec![5]));
    assert!(!t.is_silent(&VoiceKey::Unknown(42)));
    assert_eq!(t.silent_keys(), Vec::<VoiceKey>::new());
}

#[test]
fn snapshot_undecodable_frame_counts_as_silence() {
    let r = SsrcManager::new();
    let raw = raw_tick_of(vec![(42, None)], vec![]);
    let t = VoiceTick::from_parts(&raw, &r);
    assert_eq!(t.get(&VoiceKey::Unknown(42)), None);
    assert!(t.is_silent(&VoiceKey::Unknown(42)));
}

#[test]
fn snapshot_duplicate_speaking_source_last_wins() {
    let r = SsrcManager::new();
    let raw = raw_tick_of(vec![(42, Some(vec![1])), (42, Some(vec![2, 3]))], vec![]);
    let t = VoiceTick::from_parts(&raw, &r);
    assert_eq!(t.get(&VoiceKey::Unknown(42)), Some(&vec![2, 3]));
    assert_eq!(t.speaking_keys(), vec![VoiceKey::Unknown(42)]);
}

#[test]
fn snapshot_key_listings() {
    let mut r = SsrcManager::new();
    r.insert(7, 42);
    let raw = raw_tick_of(vec![(42, Some(vec![1]))], vec![44, 45, 44]);
    let t = VoiceTick::from_parts(&raw, &r);
    assert_eq!(t.speaking_keys(), vec![VoiceKey::User(7)]);
    assert_eq!(
        t.silent_keys(),
        vec![VoiceKey::Unknown(44), VoiceKey::Unknown(45)]
    );
    assert_eq!(
        t.all_keys(),
        vec![
            VoiceKey::User(7),
            VoiceKey::Unknown(44),
            VoiceKey::Unknown(45)
        ]
    );
}

#[test]
fn snapshot_clone_preserves_contents() {
    let r = SsrcManager::new();
    let raw = raw_tick_of(vec![(42, Some(vec![1, 2]))], vec![43]);
    let t = VoiceTick::from_parts(&raw, &r);
    let c = t.clone();
    assert_eq!(c.get(&VoiceKey::Unknown(42)), Some(&vec![1, 2]));
    assert!(c.is_silent(&VoiceKey::Unknown(43)));
}
