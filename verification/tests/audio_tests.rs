use chronos_engine::audio::{AudioError, MusicState, SoundBuffer};

#[test]
fn music_state_transitions_are_distinct() {
    assert_ne!(MusicState::Idle, MusicState::Playing);
    assert_ne!(MusicState::Playing, MusicState::Fading);
    assert_ne!(MusicState::Idle, MusicState::Fading);

    let state = MusicState::Playing;
    let copy = state;
    assert_eq!(state, copy);
}

#[test]
fn sound_buffer_caches_and_retrieves() {
    let mut buf = SoundBuffer::new();
    let key = "/tmp/chronos_test_audio_buffer.bin";
    buf.insert(key, b"fake audio data".to_vec());
    assert!(buf.contains(key));
    assert_eq!(buf.len(), 1);
    assert_eq!(buf.get(key).unwrap().as_slice(), b"fake audio data");
    buf.insert(key, b"other".to_vec());
    assert_eq!(buf.len(), 1);
    assert_eq!(buf.get(key).unwrap().as_slice(), b"other");
    buf.remove(key);
    assert!(!buf.contains(key));
    assert!(buf.is_empty());
    assert!(buf.get("nonexistent.wav").is_none());
}

#[test]
fn audio_error_messages() {
    assert_eq!(AudioError::NoDeviceAvailable("none".into()).to_string(), "no audio device: none");
    assert_eq!(AudioError::DecodeFailed("bad".into()).to_string(), "decode failed: bad");
    let e = AudioError::FileError(std::io::Error::new(std::io::ErrorKind::NotFound, "gone"));
    assert_eq!(e.to_string(), "file error: gone");
}

#[test]
fn sound_buffer_membership_follows_inserts_and_removes() {
    let mut buf = SoundBuffer::new();
    assert!(!buf.contains("a.wav"));
    buf.insert("a.wav", vec![1]);
    buf.insert("b.wav", vec![2]);
    buf.remove("a.wav");
    assert!(!buf.contains("a.wav"));
    buf.insert("a.wav", vec![3]);
    assert_eq!(buf.get("a.wav"), Some(&vec![3]));
    assert_eq!(buf.get("b.wav"), Some(&vec![2]));
    assert_eq!(buf.len(), 2);
}
