use gps_gui::board::{NodePing, SettingId};
use gps_gui::link::{
    wake_line, BleCommand, BleIntent, ConfigWrite, Link, LinkEvent, LinkUpdate, PowerPanel, Settings,
};

type TestLink = Link<u8, (i32, i32), Vec<u8>, i16, u64>;

fn connected_link() -> TestLink {
    let mut link = TestLink::new(0, None, "1000".to_string(), "30".to_string(), "5".to_string());
    link.sync_to_config(true, 0);
    let epoch = link.epoch;
    link.on_event(LinkUpdate { epoch, event: LinkEvent::Connected(true) }, 1);
    link.on_event(
        LinkUpdate {
            epoch,
            event: LinkEvent::Settings(Settings { sleep_interval_s: 120, ..Settings::default() }),
        },
        2,
    );
    link
}

/// A stand-in for the firmware's resolver: zero means the cadence.
fn resolve(secs: u32, cadence: u32) -> u32 {
    if secs == 0 {
        cadence
    } else {
        secs
    }
}

#[test]
fn a_blank_sleep_now_box_sleeps_for_the_cadence() {
    let mut link = connected_link();
    link.sleep_now_text = "  ".to_string();
    let req = link.press_sleep_now(resolve).expect("a blank box is sent");
    assert!(matches!(
        req.command,
        BleCommand::Config(ConfigWrite::Seconds { id: SettingId::SleepNow, secs: 0 })
    ));
    assert_eq!(req.epoch, link.epoch);
    assert_eq!(link.sleep_commanded, Some(120));
    assert!(link.ack_pending);
    assert!(link.ack.is_none());
}

#[test]
fn a_typed_sleep_now_sends_exactly_that_number() {
    let mut link = connected_link();
    link.sleep_now_text = " 300 ".to_string();
    let seen = std::cell::Cell::new(None);
    let req = link
        .press_sleep_now(|s, c| {
            seen.set(Some((s, c)));
            s
        })
        .expect("a number is sent");
    assert!(matches!(
        req.command,
        BleCommand::Config(ConfigWrite::Seconds { id: SettingId::SleepNow, secs: 300 })
    ));
    assert_eq!(seen.get(), Some((300, 120)));
    assert_eq!(link.sleep_commanded, Some(300));
}

#[test]
fn unparsable_sleep_now_text_is_refused_and_nothing_is_sent() {
    let mut link = connected_link();
    let epoch = link.epoch;
    link.sleep_now_text = "abc".to_string();
    assert!(link.press_sleep_now(resolve).is_none());
    assert_eq!(link.ack, Some(Err("Enter a whole number of seconds.".to_string())));
    assert!(!link.ack_pending);
    assert_eq!(link.sleep_commanded, None);
    assert_eq!(link.epoch, epoch);
}

#[test]
fn picking_a_board_while_scanning_keeps_the_scan() {
    let mut link = TestLink::new(0, None, String::new(), String::new(), String::new());
    link.set_ble_intent(BleIntent::Scanning, 1);
    let epoch = link.epoch;
    link.on_event(
        LinkUpdate {
            epoch,
            event: LinkEvent::Discovered { mac: "AA:BB:CC:DD:EE:01".to_string(), rssi: Some(-60) },
        },
        2,
    );
    assert!(link.select_device(Some("AA:BB:CC:DD:EE:01".to_string()), 3).is_none());
    assert_eq!(link.intent, BleIntent::Scanning);
    assert_eq!(link.epoch, epoch);
    assert_eq!(link.discovered.len(), 1);
    assert_eq!(link.mac.as_deref(), Some("AA:BB:CC:DD:EE:01"));
}

#[test]
fn relayed_reports_are_fenced_and_a_board_switch_drops_their_live_view() {
    let mut link = connected_link();
    let stale = link.epoch;
    link.set_ble_intent(BleIntent::Connect, 3);
    let epoch = link.epoch;
    assert!(link.on_relay_report(epoch, 4, -80, Some((1, 1)), 100, true, 5));
    assert_eq!(link.board_heard, Some(5));
    let ping = NodePing { src: 9, rssi: -90, uptime_s: 60, gps_present: true, had_fix: false, age_s: 0 };
    assert!(link.on_relay_ping(epoch, ping, 101, 6));
    assert_eq!(link.relays.addrs(), vec![4, 9]);

    // The tail of an abandoned session changes nothing.
    assert!(!link.on_relay_report(stale, 5, -80, Some((2, 2)), 102, true, 7));
    assert!(link.relays.node(5).is_none());

    // Switching boards: the old relay's view goes, the history stays.
    link.select_device(Some("AA:BB:CC:DD:EE:02".to_string()), 8);
    assert_eq!(link.intent, BleIntent::Connect);
    let node = link.relays.node(4).expect("kept");
    assert_eq!(node.pos, None);
    assert_eq!(node.heard, None);
    assert_eq!(node.track.len(), 1);
    assert_eq!(node.last_pos(), Some((1, 1)));
    assert_eq!(link.relays.node(9).unwrap().no_fix, None);
}

#[test]
fn the_board_fix_time_is_kept_until_the_board_is_forgotten() {
    let mut link = connected_link();
    let epoch = link.epoch;
    link.on_event(LinkUpdate { epoch, event: LinkEvent::Fix { packet: 3, fix: None, at: 50 } }, 3);
    assert_eq!(link.beacon_time, None);
    link.on_event(LinkUpdate { epoch, event: LinkEvent::Fix { packet: 4, fix: Some((1, 2)), at: 60 } }, 4);
    assert_eq!(link.beacon_time, Some(60));
    assert_eq!(link.beacon, Some((1, 2)));
    // A packet without a fix keeps the last fix and its time.
    link.on_event(LinkUpdate { epoch, event: LinkEvent::Fix { packet: 5, fix: None, at: 70 } }, 5);
    assert_eq!(link.beacon_time, Some(60));
    link.set_ble_intent(BleIntent::Idle, 6);
    assert_eq!(link.beacon_time, None);
}

#[test]
fn the_power_panel_waits_for_the_link_and_the_settings() {
    let mut link = TestLink::new(0, None, String::new(), String::new(), String::new());
    assert_eq!(link.power_panel(), PowerPanel::NeedLink);
    link.sync_to_config(true, 0);
    let epoch = link.epoch;
    link.on_event(LinkUpdate { epoch, event: LinkEvent::Connected(true) }, 1);
    assert_eq!(link.power_panel(), PowerPanel::Reading);
    assert!(!link.can_disable_sleep());
    link.on_event(LinkUpdate { epoch, event: LinkEvent::SettingsUnsupported }, 2);
    assert_eq!(link.power_panel(), PowerPanel::TooNew);

    let link = connected_link();
    assert!(matches!(link.power_panel(), PowerPanel::Ready(s) if s.sleep_interval_s == 120));
    assert!(!link.controls_busy());
    assert!(link.can_disable_sleep());
}

#[test]
fn a_write_in_flight_locks_the_controls() {
    let mut link = connected_link();
    link.sleep_now_text = "10".to_string();
    link.press_sleep_now(resolve);
    assert!(link.controls_busy());
    assert!(!link.can_disable_sleep());
}

#[test]
fn the_wake_line_says_what_the_board_does() {
    assert_eq!(wake_line(0), "Board: sleep disabled.");
    assert_eq!(wake_line(120), "Board: waking every 2 min.");
}

#[test]
fn the_radio_send_button_says_why_it_waits() {
    let mut link = TestLink::new(0, None, String::new(), String::new(), String::new());
    assert!(!link.can_send_radio(true));
    assert_eq!(link.send_radio_blocked(false), "Load or generate a config first");
    assert_eq!(link.send_radio_blocked(true), "Connect to the board first (Beacon page)");
    link.sync_to_config(true, 0);
    let epoch = link.epoch;
    link.on_event(LinkUpdate { epoch, event: LinkEvent::Connected(true) }, 1);
    assert!(link.can_send_radio(true));
    assert!(!link.can_send_radio(false));
    assert_eq!(link.send_radio_label(), "Send to board");
    link.push_radio(vec![1, 2, 3], 100);
    assert!(!link.can_send_radio(true));
    assert_eq!(link.send_radio_label(), "Sending...");
    assert_eq!(link.send_radio_blocked(true), "Waiting for the board to answer");
}
