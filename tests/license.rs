use pluely::{
    activation_request, audio_request, get_stored_credentials, mask_license_key_cmd,
    monitor_source_name, secure_storage_get, secure_storage_remove, secure_storage_save,
    CaptureError, SecureStorage, SpeakerInput, StorageError, StorageItem, WindowVisibility,
};

fn item(k: &str, v: &str) -> StorageItem {
    StorageItem { key: k.to_string(), value: v.to_string() }
}

#[test]
fn masks_license_keys() {
    assert_eq!(mask_license_key_cmd("ABCD1234EFGH"), "ABCD****EFGH");
    assert_eq!(mask_license_key_cmd("12345678"), "********");
    assert_eq!(mask_license_key_cmd(""), "");
}

#[test]
fn storage_save_and_remove() {
    let mut st = SecureStorage::default();
    let items = vec![item("pluely_license_key", "KEY"), item("pluely_instance_id", "ID")];
    assert_eq!(secure_storage_save(&mut st, &items), Ok(()));
    let got = secure_storage_get(&st);
    assert_eq!(got.license_key.as_deref(), Some("KEY"));
    assert_eq!(got.instance_id.as_deref(), Some("ID"));
    assert_eq!(get_stored_credentials(&st), Some(("KEY".to_string(), "ID".to_string())));
    assert_eq!(secure_storage_remove(&mut st, &vec!["pluely_instance_id".to_string()]), Ok(()));
    assert_eq!(st.instance_id, None);
    assert_eq!(get_stored_credentials(&st), None);
}

#[test]
fn unknown_storage_key_changes_nothing() {
    let mut st = SecureStorage::default();
    let items = vec![item("pluely_license_key", "KEY"), item("other", "x")];
    assert_eq!(
        secure_storage_save(&mut st, &items),
        Err(StorageError::InvalidStorageKey("other".to_string()))
    );
    assert_eq!(st.license_key, None);
    assert_eq!(
        secure_storage_remove(&mut st, &vec!["nope".to_string()]),
        Err(StorageError::InvalidStorageKey("nope".to_string()))
    );
}

#[test]
fn request_bodies_and_sources() {
    let a = activation_request("K".to_string(), "I".to_string());
    assert_eq!((a.license_key.as_str(), a.instance_name.as_str()), ("K", "I"));
    assert_eq!(audio_request("UklG".to_string()).audio_base64, "UklG");
    assert!(SpeakerInput::new().unwrap().server_name.is_none());
    assert_eq!(
        monitor_source_name(Some("alsa_output.pci".to_string())),
        Ok("alsa_output.pci.monitor".to_string())
    );
    assert!(matches!(monitor_source_name(None), Err(CaptureError::DeviceInitFailed(_))));
}

#[test]
fn window_visibility_toggles() {
    let mut w = WindowVisibility(false);
    assert!(w.toggle());
    assert!(!w.toggle());
}
