use hypervolume::audio_boost::{
    AudioBoostManager, AudioDeviceError, AudioProcessor, BoostSettings, VirtualAudioDevice,
};
use hypervolume::audio_manager::{
    enumerate_audio_sessions, set_session_volume, toggle_session_mute, AudioSession, BoostError,
    SessionControl,
};

fn session(process_id: u32, name: &str, volume: u32, muted: bool) -> SessionControl {
    SessionControl { process_id, display_name: name.to_string(), volume, muted }
}

#[test]
fn test_boost_manager_creation() {
    let _manager = AudioBoostManager::new();
    assert!(true);
}

#[test]
fn test_audio_processor_boost() {
    let processor = AudioProcessor::new();
    let mut samples: Vec<i64> = vec![500, -300, 800, -100];

    processor.process_samples(&mut samples, 2000);

    // Doubled, with magnitude above 950 compressed 10:1 beyond it.
    assert_eq!(samples, vec![955, -600, 1015, -200]);
}

#[test]
fn test_audio_processor_limiting() {
    let processor = AudioProcessor::new();
    let mut samples: Vec<i64> = vec![1500, -1800, 500];

    processor.process_samples(&mut samples, 1000);

    // Excess above the 950 threshold is shrunk to a tenth; the limiter
    // alone guarantees no hard ceiling at full scale.
    assert_eq!(samples, vec![1005, -1035, 500]);
}

#[test]
fn test_soft_clipping() {
    let processor = AudioProcessor::new();

    let clipped_positive = processor.soft_clip(1500);
    let clipped_negative = processor.soft_clip(-1500);

    assert!(clipped_positive < 1000);
    assert!(clipped_negative > -1000);
    assert!(clipped_positive > 0);
    assert!(clipped_negative < 0);
}

#[test]
fn test_boost_settings() {
    let manager = AudioBoostManager::new();
    let process_id = 1234;

    assert_eq!(manager.get_boost(process_id), 1000);
}

#[test]
fn limiter_documented_overshoot() {
    // A full-scale sample doubled: raw 2.0, excess 1.05 over the 0.95
    // threshold, compressed to 0.105, so 1.055 comes out — above full
    // scale, which is why a caller wanting a hard ceiling must clamp.
    let processor = AudioProcessor::new();
    let mut samples: Vec<i64> = vec![1000];
    processor.process_samples(&mut samples, 2000);
    assert_eq!(samples, vec![1055]);
}

#[test]
fn limiter_unity_gain_below_threshold_is_identity() {
    let processor = AudioProcessor::new();
    let mut samples: Vec<i64> = vec![950, -950, 0, 123, -1];
    processor.process_samples(&mut samples, 1000);
    assert_eq!(samples, vec![950, -950, 0, 123, -1]);
}

#[test]
fn soft_clip_is_identity_within_full_scale() {
    let processor = AudioProcessor::new();
    assert_eq!(processor.soft_clip(0), 0);
    assert_eq!(processor.soft_clip(1000), 1000);
    assert_eq!(processor.soft_clip(-1000), -1000);
    assert_eq!(processor.soft_clip(437), 437);
}

#[test]
fn soft_clip_saturates_out_of_scale_samples() {
    let processor = AudioProcessor::new();
    let high = processor.soft_clip(2000);
    assert!(0 < high && high < 1000);
    let low = processor.soft_clip(-2000);
    assert!(-1000 < low && low < 0);
}

#[test]
fn boost_is_stored_even_without_a_matching_session() {
    let mut manager = AudioBoostManager::new();
    let mut sessions: Vec<SessionControl> = Vec::new();

    let r = manager.set_boost(&mut sessions, 7, 2500);
    assert_eq!(r, Err(BoostError::SessionNotFound(7)));
    assert_eq!(manager.get_boost(7), 2500);
}

#[test]
fn set_then_get_returns_the_factor() {
    let mut manager = AudioBoostManager::new();
    let mut sessions = vec![session(7, "app", 500, false)];

    assert_eq!(manager.set_boost(&mut sessions, 7, 3500), Ok(()));
    assert_eq!(manager.get_boost(7), 3500);
}

#[test]
fn remove_then_get_returns_unity() {
    let mut manager = AudioBoostManager::new();
    let mut sessions: Vec<SessionControl> = Vec::new();

    let _ = manager.set_boost(&mut sessions, 9, 4000);
    let r = manager.remove_boost(&mut sessions, 9);
    assert_eq!(r, Err(BoostError::SessionNotFound(9)));
    assert_eq!(manager.get_boost(9), 1000);

    // Removing a boost that was never set is just as safe.
    let _ = manager.remove_boost(&mut sessions, 11);
    assert_eq!(manager.get_boost(11), 1000);
}

#[test]
fn negative_factor_is_rejected_and_changes_nothing() {
    let mut manager = AudioBoostManager::new();
    let mut sessions = vec![session(7, "app", 500, false)];

    assert_eq!(manager.set_boost(&mut sessions, 7, 2000), Ok(()));
    let before = manager.get_boost(7);

    let r = manager.set_boost(&mut sessions, 7, -1000);
    assert_eq!(r, Err(BoostError::InvalidFactor));
    assert_eq!(manager.get_boost(7), before);
    assert_eq!(sessions[0].volume, 1000);
}

#[test]
fn distinct_processes_keep_their_own_boosts() {
    let mut manager = AudioBoostManager::new();
    let mut sessions: Vec<SessionControl> = Vec::new();

    let _ = manager.set_boost(&mut sessions, 1, 1500);
    let _ = manager.set_boost(&mut sessions, 2, 2500);
    let _ = manager.set_boost(&mut sessions, 1, 1750);

    assert_eq!(manager.get_boost(1), 1750);
    assert_eq!(manager.get_boost(2), 2500);
}

#[test]
fn boost_multiplies_current_volume_and_clamps() {
    // A session at 0.4: boosting by 2.0 writes 0.8; removing the boost
    // re-applies unity against the current 0.8 and leaves it there.
    let mut manager = AudioBoostManager::new();
    let mut sessions = vec![session(42, "player", 400, false)];

    assert_eq!(manager.set_boost(&mut sessions, 42, 2000), Ok(()));
    assert_eq!(sessions[0].volume, 800);

    assert_eq!(manager.remove_boost(&mut sessions, 42), Ok(()));
    assert_eq!(sessions[0].volume, 800);
    assert_eq!(manager.get_boost(42), 1000);

    // A second doubling saturates at the control surface's ceiling.
    assert_eq!(manager.set_boost(&mut sessions, 42, 2000), Ok(()));
    assert_eq!(sessions[0].volume, 1000);
}

#[test]
fn boost_binds_to_the_first_matching_session() {
    let mut manager = AudioBoostManager::new();
    let mut sessions = vec![
        session(5, "other", 300, false),
        session(42, "first", 400, false),
        session(42, "second", 600, false),
    ];

    assert_eq!(manager.set_boost(&mut sessions, 42, 2000), Ok(()));
    assert_eq!(sessions[0].volume, 300);
    assert_eq!(sessions[1].volume, 800);
    assert_eq!(sessions[2].volume, 600);
}

#[test]
fn boost_settings_fields_are_as_stored() {
    let settings = BoostSettings { boost_factor: 7770, enabled: true };
    assert_eq!(settings.boost_factor, 7770);
    assert!(settings.enabled);
}

#[test]
fn provider_error_carries_its_detail() {
    let e = BoostError::ProviderError("device unavailable".to_string());
    match e {
        BoostError::ProviderError(detail) => assert_eq!(detail, "device unavailable"),
        _ => panic!("wrong variant"),
    }
}

#[test]
fn enumerate_projects_every_session() {
    let sessions = vec![
        session(1234, "Music", 500, false),
        session(77, "Calls", 250, true),
    ];
    let list = enumerate_audio_sessions(&sessions);
    assert_eq!(list.len(), 2);
    assert_eq!(list[0].id, "1234");
    assert_eq!(list[0].display_name, "Music");
    assert_eq!(list[0].volume, 500);
    assert!(!list[0].muted);
    assert_eq!(list[0].process_id, 1234);
    assert_eq!(list[1].id, "77");
    assert!(list[1].muted);
}

#[test]
fn enumerate_tolerates_no_sessions() {
    let sessions: Vec<SessionControl> = Vec::new();
    let list = enumerate_audio_sessions(&sessions);
    assert!(list.is_empty());
}

#[test]
fn session_descriptor_id_is_the_decimal_process_id() {
    let d = AudioSession::new(0, "zero".to_string(), 10, false);
    assert_eq!(d.id, "0");
    let d = AudioSession::new(4_294_967_295, "max".to_string(), 10, false);
    assert_eq!(d.id, "4294967295");
}

#[test]
fn set_session_volume_touches_only_the_first_match() {
    let mut sessions = vec![
        session(8, "a", 100, false),
        session(9, "b", 200, false),
        session(9, "c", 300, false),
    ];
    assert_eq!(set_session_volume(&mut sessions, 9, 750), Ok(()));
    assert_eq!(sessions[0].volume, 100);
    assert_eq!(sessions[1].volume, 750);
    assert_eq!(sessions[2].volume, 300);

    assert_eq!(
        set_session_volume(&mut sessions, 10, 500),
        Err(BoostError::SessionNotFound(10))
    );
}

#[test]
fn toggle_session_mute_flips_the_first_match() {
    let mut sessions = vec![session(3, "a", 100, false), session(3, "b", 100, true)];
    assert_eq!(toggle_session_mute(&mut sessions, 3), Ok(()));
    assert!(sessions[0].muted);
    assert!(sessions[1].muted);
    assert_eq!(toggle_session_mute(&mut sessions, 3), Ok(()));
    assert!(!sessions[0].muted);

    assert_eq!(
        toggle_session_mute(&mut sessions, 4),
        Err(BoostError::SessionNotFound(4))
    );
}

#[test]
fn virtual_device_paths_are_not_implemented() {
    let device = VirtualAudioDevice::new("HyperVolume Virtual Output");
    assert_eq!(device.initialize(), Err(AudioDeviceError::NotImplemented));

    let input: Vec<i64> = vec![100, 200];
    let mut output: Vec<i64> = vec![1, 2];
    let r = device.process_audio_stream(&input, &mut output, 2000);
    assert_eq!(r, Err(AudioDeviceError::NotImplemented));
    assert_eq!(output, vec![1, 2]);
}
