use gps_gui::prose::{
    adv_window, adv_window_note, ble_off, ble_on, board_name_hover, dropped, hop_clock_text,
    idle_timeout, mode_state, secs_presets, sleep_now, source, state, wake_check, will_sleep,
    HopClock, LocationSource, NodeMode,
};

#[test]
fn the_board_settings_explain_their_ranges() {
    assert_eq!(
        will_sleep(300, 5),
        "On disconnect it sleeps, waking every 5 min to advertise for 5 s."
    );
    assert_eq!(board_name_hover(12), "Up to 12 letters, digits, - or _");
    assert_eq!(
        idle_timeout(60, 86400),
        "How long idle lasts before the node stores itself. Off keeps it idle. 1 min - 24 h, and needs a wake check set."
    );
    assert_eq!(wake_check(5, 3600), "How often a stored node wakes. 0 never. 5 s - 1 h.");
    assert_eq!(adv_window(1, 60), "How long each wake check advertises. 1 s - 1 min.");
    assert_eq!(
        ble_on(5, 600),
        "How long BLE stays up between off periods while tracking. 5 s - 10 min."
    );
    assert_eq!(
        ble_off(0, 5400),
        "How long BLE is down between on periods while tracking. Still beaconing. off - 1.5 h."
    );
    assert_eq!(sleep_now(5, 7200), "A one-off. 5 s - 2 h.");
    assert_eq!(
        adv_window_note(30),
        "Takes effect at the next wake; after a disconnect it advertises 30 s regardless."
    );
}

#[test]
fn the_recorder_says_where_it_is_up_to() {
    assert_eq!(state(false, None, 0), "Not recording");
    assert_eq!(state(false, Some("5 min"), 12), "Stopped after 12 rows");
    assert_eq!(state(true, Some("5 min"), 12), "Recording for 5 min - 12 rows written");
    assert_eq!(state(true, None, 0), "Recording - 0 rows written");
    assert_eq!(
        dropped(40),
        "The oldest 40 rows are off the graph; they are still in the file."
    );
}

#[test]
fn sources_modes_and_clocks_read_as_words() {
    assert_eq!(source(LocationSource::Phone), "From this phone's receiver.");
    assert_eq!(source(LocationSource::Node), "From the connected node's receiver.");
    assert_eq!(source(LocationSource::Manual), "Typed in.");
    assert_eq!(
        mode_state(NodeMode::Listening),
        "Node: listening. GPS and receiver up, nothing sent."
    );
    assert_eq!(mode_state(NodeMode::Stored), "Node: stored. Awake for this wake check only.");
    assert_eq!(hop_clock_text(HopClock::Gps), "GPS clock");
    assert_eq!(hop_clock_text(HopClock::Unsynced), "not synced");
    assert_eq!(hop_clock_text(HopClock::Stratum(3)), "stratum 3");
}

#[test]
fn presets_pair_a_spelling_with_its_words() {
    let presets = secs_presets(&[5, 60, 3600, 0]);
    assert_eq!(
        presets,
        vec![
            ("5".to_string(), "5 s".to_string()),
            ("60".to_string(), "1 min".to_string()),
            ("3600".to_string(), "1 h".to_string()),
            ("0".to_string(), "off".to_string()),
        ]
    );
}

#[test]
fn axis_captions_carry_their_unit() {
    assert_eq!(gps_gui::prose::axis_caption("RSSI", "dBm"), "RSSI (dBm)");
    assert_eq!(gps_gui::prose::axis_caption("Satellites", ""), "Satellites");
}
