use coinflipper::persistence::{history_name, prefixed_key, FilesystemBackend, CURRENT_NAME, STAGING_NAME};

#[test]
fn history_names_embed_timestamp() {
    assert_eq!(history_name("2024_01_02_03_04_05"), "status_2024_01_02_03_04_05.cf");
    assert_eq!(history_name(""), "status_.cf");
}

#[test]
fn keys_are_prefixed() {
    assert_eq!(prefixed_key("coinflipper/", CURRENT_NAME), "coinflipper/status.cf");
    assert_eq!(prefixed_key("", "x"), "x");
}

#[test]
fn slot_names() {
    assert_eq!(CURRENT_NAME, "status.cf");
    assert_eq!(STAGING_NAME, "~status.cf");
}

#[test]
fn filesystem_backend_keeps_dir() {
    let b = FilesystemBackend::new("/var/lib/coins".to_string());
    assert_eq!(b.dir(), "/var/lib/coins");
}
