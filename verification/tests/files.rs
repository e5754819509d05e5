use gps_gui::paths::{default_config_path, DEFAULT_CONFIG_NAME};
use gps_gui::radio_edit::RadioEdit;

/// The config has to be saved somewhere writable, so the path is derived
/// from the cache directory the platform handed over.
#[test]
fn default_config_path_lands_beside_the_cache() {
    assert_eq!(
        default_config_path(Some("/data/app/files/tiles")),
        "/data/app/files/gps-config.toml"
    );
    // No cache directory, or one with no parent to speak of: the bare
    // filename, which on desktop is the working directory.
    assert_eq!(default_config_path(None), DEFAULT_CONFIG_NAME);
    assert_eq!(default_config_path(Some("tiles")), DEFAULT_CONFIG_NAME);
    assert_eq!(default_config_path(Some("/")), DEFAULT_CONFIG_NAME);
}

/// Only one radio field is in flight: the pencil asks, confirming unlocks
/// that field with its value, and nothing else is unlocked by a stray
/// confirm.
#[test]
fn a_radio_field_is_asked_before_it_unlocks() {
    let edit: RadioEdit<i64> = RadioEdit::default();
    assert!(matches!(edit, RadioEdit::Idle));
    assert!(matches!(edit.clone().confirm(3), RadioEdit::Idle));
    let asked = RadioEdit::<i64>::ask("lora".to_string(), "sf".to_string());
    assert!(asked.is_for("lora", "sf"));
    assert!(!asked.is_for("lora", "bw"));
    match asked.confirm(9) {
        RadioEdit::Active { section, key, val } => {
            assert_eq!((section.as_str(), key.as_str(), val), ("lora", "sf", 9));
        }
        _ => panic!("confirming unlocks the field"),
    }
}

use gps_gui::feedback::{
    default_radio_feedback, load_feedback, log_start_feedback, log_stop_feedback,
    radio_save_feedback, requested_path, save_feedback,
};

/// A file box is trimmed, and an empty one is refused before any file is
/// touched.
#[test]
fn file_boxes_are_trimmed_or_refused() {
    assert_eq!(requested_path("  gps-config.toml \t"), Ok("gps-config.toml".to_string()));
    assert_eq!(requested_path("   "), Err("Enter a file path.".to_string()));
    assert_eq!(requested_path(""), Err("Enter a file path.".to_string()));
    assert_eq!(requested_path("\u{3000}a b\u{2029}"), Ok("a b".to_string()));
}

/// The result lines name the file and what happened to it.
#[test]
fn file_results_say_what_happened() {
    assert_eq!(load_feedback("a.toml", Ok(())), Ok("Loaded a.toml".to_string()));
    assert_eq!(
        load_feedback("a.toml", Err("missing".to_string())),
        Err("missing".to_string())
    );
    assert_eq!(save_feedback("a.toml", Ok(true)), Ok("Created a.toml".to_string()));
    assert_eq!(save_feedback("a.toml", Ok(false)), Ok("Saved a.toml".to_string()));
    assert_eq!(
        radio_save_feedback(Ok(Some("RADIO.toml.1".to_string()))),
        Ok("Saved. Backed up previous version as RADIO.toml.1".to_string())
    );
    assert_eq!(radio_save_feedback(Ok(None)), Ok("Saved.".to_string()));
    assert_eq!(
        default_radio_feedback("RADIO.toml", Ok(())),
        Ok("Default config ready. Press Save to write RADIO.toml".to_string())
    );
    assert_eq!(
        log_start_feedback("log.csv", Ok(())),
        Ok("Recording to log.csv".to_string())
    );
    assert_eq!(log_stop_feedback(31), "Stopped after 31 rows");
}
