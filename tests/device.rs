use pluely::{
    choose_device, score_device_name, score_lowercase_name, select_system_audio_device,
    CaptureError, DeviceChoice, Platform,
};

#[test]
fn windows_keyword_scores() {
    assert_eq!(score_device_name("Stereo Mix (Realtek Audio)", Platform::Windows), 100);
    assert_eq!(score_device_name("CABLE Output (VB-Audio Virtual Cable)", Platform::Windows), 90);
    assert_eq!(score_device_name("VoiceMeeter Output", Platform::Windows), 85);
    assert_eq!(score_device_name("Some Virtual Device", Platform::Windows), 70);
    assert_eq!(score_device_name("Microphone Array", Platform::Windows), 10);
}

#[test]
fn macos_keyword_scores() {
    assert_eq!(score_device_name("BlackHole 2ch", Platform::MacOs), 100);
    assert_eq!(score_device_name("Loopback Audio", Platform::MacOs), 95);
    assert_eq!(score_device_name("Soundflower (2ch)", Platform::MacOs), 90);
    assert_eq!(score_device_name("Multi-Output Device", Platform::MacOs), 85);
    assert_eq!(score_device_name("Aggregate Device", Platform::MacOs), 80);
    assert_eq!(score_device_name("MacBook Pro Microphone", Platform::MacOs), 10);
}

#[test]
fn linux_and_other_scores() {
    assert_eq!(score_device_name("Monitor of Built-in Audio", Platform::Linux), 100);
    assert_eq!(score_device_name("Loopback PCM", Platform::Linux), 80);
    assert_eq!(score_device_name("HDA Intel PCH", Platform::Linux), 10);
    assert_eq!(score_device_name("BlackHole", Platform::Other), 10);
    assert_eq!(score_lowercase_name("MONITOR", Platform::Linux), 10);
}

#[test]
fn first_best_usable_device_wins() {
    assert_eq!(choose_device(&[10, 90, 100, 100], false), Ok(DeviceChoice::Enumerated(2)));
    assert_eq!(choose_device(&[70], false), Ok(DeviceChoice::Enumerated(0)));
}

#[test]
fn fallback_to_default_then_setup_required() {
    assert_eq!(choose_device(&[10, 69], true), Ok(DeviceChoice::DefaultInput));
    assert_eq!(choose_device(&[], true), Ok(DeviceChoice::DefaultInput));
    assert_eq!(choose_device(&[10], false), Err(CaptureError::SetupRequired));
}

#[test]
fn select_scores_names() {
    let names = vec!["Built-in Microphone".to_string(), "BlackHole 16ch".to_string()];
    assert_eq!(select_system_audio_device(&names, true, Platform::MacOs), Ok(DeviceChoice::Enumerated(1)));
    assert_eq!(select_system_audio_device(&names, true, Platform::Windows), Ok(DeviceChoice::DefaultInput));
}
