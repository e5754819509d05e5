use gps_gui::board::{Ack, AckStatus, SettingId};
use gps_gui::link::{
    BleCommand, BleIntent, BleRequest, ConfigWrite, Link, LinkEvent, LinkUpdate, Settings,
};

/// The link with what a board reports stood in for: a packet is its
/// satellite count, a fix is a coordinate pair.
type TestLink = Link<u8, (f64, f64), Vec<u8>, i16, u64>;
type Event = LinkEvent<u8, (f64, f64), Vec<u8>, i16, u64>;

/// A link as the app starts it with the default config, which connects.
fn test_link() -> (TestLink, Vec<BleRequest>) {
    let mut link = TestLink::new(
        0,
        None,
        "1000".to_string(),
        "30".to_string(),
        "5".to_string(),
    );
    let first = link.sync_to_config(true, 0);
    (link, vec![first])
}

/// A board's position report.
fn fix() -> Event {
    LinkEvent::Fix {
        packet: 7,
        fix: Some((48.1173, -122.676)),
        at: 1_700_000_000,
    }
}

/// Everything the connected board has told us, as the pages read it.
fn board_state(link: &TestLink) -> (bool, bool, bool, bool) {
    (
        link.connected,
        link.beacon.is_some(),
        link.board_settings.is_some(),
        link.board_log.is_some(),
    )
}

/// Feed one event as the worker would, under the request the app is
/// currently making.
fn report(link: &mut TestLink, event: Event, now: u64) -> bool {
    let epoch = link.epoch;
    link.on_event(LinkUpdate { epoch, event }, now)
}

/// Disconnect is not a request to stop eventually: as of the press there
/// is no link, and nothing the board said is still on the pages.
#[test]
fn disconnect_drops_the_link_and_the_board_state() {
    let (mut link, mut sent) = test_link();
    let session = link.epoch;

    report(&mut link, LinkEvent::Connected(true), 1);
    report(&mut link, fix(), 2);
    report(&mut link, LinkEvent::Settings(Settings::default()), 3);
    report(&mut link, LinkEvent::Log("wio: ok".to_string()), 4);
    assert_eq!(board_state(&link), (true, true, true, true));

    sent.push(link.set_ble_intent(BleIntent::Idle, 5));
    assert_eq!(
        board_state(&link),
        (false, false, false, false),
        "the press itself ends the link and drops what the board said"
    );
    assert!(link.connected_at.is_none() && link.board_heard.is_none());

    // The tail of that session must not put any of it back.
    for event in [
        LinkEvent::Connected(true),
        fix(),
        LinkEvent::Settings(Settings::default()),
    ] {
        assert!(!link.on_event(LinkUpdate { epoch: session, event }, 6));
    }
    assert_eq!(board_state(&link), (false, false, false, false));

    // And the worker was told, as one command.
    assert!(matches!(
        sent.last(),
        Some(BleRequest {
            command: BleCommand::Disconnect,
            ..
        })
    ));
}

/// Connect pressed while connected is a real request - start over.
#[test]
fn connect_while_connected_starts_over() {
    let (mut link, _) = test_link();
    report(&mut link, LinkEvent::Connected(true), 1);
    report(&mut link, LinkEvent::Settings(Settings::default()), 2);
    let connected_epoch = link.epoch;

    let sent = vec![link.set_ble_intent(BleIntent::Connect, 3)];
    assert!(link.epoch > connected_epoch, "a new request");
    assert_eq!(
        board_state(&link),
        (false, false, false, false),
        "the link is dropped and re-read rather than kept"
    );
    assert_eq!(sent.len(), 1, "one command per press, never composed");
    assert!(matches!(
        sent[0].command,
        BleCommand::Connect { chase: false, .. }
    ));
    assert_eq!(sent[0].epoch, link.epoch);
}

/// Picking another board while connected switches to it there and then.
#[test]
fn picking_another_board_while_connected_switches_now() {
    let (mut link, _) = test_link();
    report(&mut link, LinkEvent::Connected(true), 1);
    report(&mut link, fix(), 2);

    let sent = link.select_device(Some("AA:BB:CC:DD:EE:02".to_string()), 3);
    assert!(!link.connected);
    assert!(link.beacon.is_none(), "the old board's fix is not the new board's");
    assert!(matches!(
        &sent.expect("a switch is sent at once").command,
        BleCommand::Connect { mac, .. } if mac.as_deref() == Some("AA:BB:CC:DD:EE:02")
    ));
}

/// Picking the board already pinned changes nothing; picking one while
/// idle only records the choice.
#[test]
fn picking_a_board_while_idle_only_records_it() {
    let mut link = TestLink::new(0, None, String::new(), String::new(), String::new());
    let epoch = link.epoch;
    assert!(link.select_device(Some("AA:BB:CC:DD:EE:01".to_string()), 1).is_none());
    assert_eq!(link.mac.as_deref(), Some("AA:BB:CC:DD:EE:01"));
    assert_eq!(link.epoch, epoch);
    assert!(link.select_device(Some("AA:BB:CC:DD:EE:01".to_string()), 2).is_none());
}

/// A page waiting on the link is answered by the press that drops it.
#[test]
fn disconnecting_mid_push_answers_the_radio_page() {
    let (mut link, _) = test_link();
    link.radio_push_pending = true;

    link.set_ble_intent(BleIntent::Idle, 1);
    assert!(!link.radio_push_pending);
    assert!(matches!(link.radio_feedback, Some(Err(_))));
}

/// A scan is not a link, and it empties the picker.
#[test]
fn scanning_drops_the_link() {
    let (mut link, _) = test_link();
    report(&mut link, LinkEvent::Connected(true), 1);
    report(&mut link, fix(), 2);
    report(
        &mut link,
        LinkEvent::Discovered {
            mac: "AA:BB:CC:DD:EE:01".to_string(),
            rssi: Some(-60),
        },
        3,
    );
    assert!(!link.discovered.is_empty());

    let req = link.set_ble_intent(BleIntent::Scanning, 4);
    assert!(matches!(req.command, BleCommand::Scan));
    assert!(!link.connected);
    assert!(link.beacon.is_none());
    assert!(link.discovered.is_empty());
}

/// The disconnect after a commanded sleep is the command working, and the
/// app has to say so.
#[test]
fn a_commanded_sleep_makes_the_disconnect_the_answer() {
    let (mut link, _) = test_link();
    report(&mut link, LinkEvent::Connected(true), 1);
    report(
        &mut link,
        LinkEvent::Settings(Settings {
            sleep_interval_s: 120,
            ..Settings::default()
        }),
        2,
    );

    // Blank box: the duration comes from the board's own cadence, which is
    // what the firmware resolves a zero to.
    link.sleep_now_text.clear();
    let secs = link.sleep_now_secs().expect("a blank box is a zero");
    assert_eq!(secs, 0);
    let cadence = link.sleep_cadence();
    let req = link.apply_sleep_now(secs, cadence);
    assert!(matches!(
        req.command,
        BleCommand::Config(ConfigWrite::Seconds { id: SettingId::SleepNow, secs: 0 })
    ));
    assert_eq!(link.sleep_commanded, Some(120));
    assert!(link.ack_pending);

    report(&mut link, LinkEvent::Connected(false), 3);
    let msg = link.ack.clone().expect("a sleep is answered").unwrap();
    assert!(msg.contains("2 min"), "{msg}");
    assert!(!link.ack_pending, "the press is finished, not pending");
    assert_eq!(link.sleep_commanded, None, "and does not answer twice");
}

/// A link that drops on its own is still a fault.
#[test]
fn an_uncommanded_disconnect_is_not_reported_as_a_sleep() {
    let (mut link, _) = test_link();
    report(&mut link, LinkEvent::Connected(true), 1);
    report(&mut link, LinkEvent::Connected(false), 2);
    assert!(link.ack.is_none());
}

/// A typo goes to the ack line in the words a rejection would use.
#[test]
fn typed_settings_are_parsed_or_refused() {
    let (mut link, _) = test_link();
    link.interval_text = " 2000 ".to_string();
    let req = link.apply_notify_interval().expect("a number is sent");
    assert!(matches!(req.command, BleCommand::Config(ConfigWrite::Interval(2000))));
    assert!(link.ack_pending);

    link.adv_window_text = "fast".to_string();
    assert!(link.apply_adv_window().is_none());
    assert_eq!(
        link.ack,
        Some(Err("Enter a whole number of seconds.".to_string()))
    );

    link.sleep_interval_text = "+45".to_string();
    let req = link.apply_sleep_interval(None).expect("a plus sign is allowed");
    assert!(matches!(
        req.command,
        BleCommand::Config(ConfigWrite::Seconds { id: SettingId::EspSleep, secs: 45 })
    ));
    let req = link.apply_sleep_interval(Some(0)).expect("disable is a zero");
    assert!(matches!(
        req.command,
        BleCommand::Config(ConfigWrite::Seconds { id: SettingId::EspSleep, secs: 0 })
    ));

    link.interval_text = "4294967296".to_string();
    assert!(link.apply_notify_interval().is_none());
    link.interval_text = "-5".to_string();
    assert!(link.apply_notify_interval().is_none());
    link.interval_text = "+".to_string();
    assert!(link.apply_notify_interval().is_none());
    link.interval_text = "4294967295".to_string();
    assert!(link.apply_notify_interval().is_some());
}

/// The board's settings seed the text boxes the first time only.
#[test]
fn settings_seed_the_boxes_once() {
    let (mut link, _) = test_link();
    report(&mut link, LinkEvent::Connected(true), 1);
    report(
        &mut link,
        LinkEvent::Settings(Settings {
            notify_interval_ms: 500,
            sleep_interval_s: 0,
            adv_window_s: 15,
            pwr_en: true,
        }),
        2,
    );
    assert_eq!(link.interval_text, "500");
    assert_eq!(link.sleep_interval_text, "30", "a zero interval keeps the box");
    assert_eq!(link.adv_window_text, "15");
    link.interval_text = "75".to_string();
    report(
        &mut link,
        LinkEvent::Settings(Settings {
            notify_interval_ms: 900,
            sleep_interval_s: 60,
            adv_window_s: 20,
            pwr_en: false,
        }),
        3,
    );
    assert_eq!(link.interval_text, "75");
    assert!(link.rail_off());
}

/// The board's answer lands on the ack line and ends the wait.
#[test]
fn an_ack_ends_the_wait() {
    let (mut link, _) = test_link();
    report(&mut link, LinkEvent::Connected(true), 1);
    link.send_config(ConfigWrite::Interval(1000));
    assert!(link.ack_pending);
    report(
        &mut link,
        LinkEvent::Ack(Ack {
            id: SettingId::NotifyInterval,
            status: AckStatus::Accepted,
            value_u32: Some(1000),
        }),
        2,
    );
    assert!(!link.ack_pending);
    assert_eq!(
        link.ack,
        Some(Ok("Board applied: notify interval 1000 ms".to_string()))
    );
}

/// "Connected" is only claimed while the board is talking.
#[test]
fn a_silent_board_is_not_called_connected() {
    let (mut link, _) = test_link();
    assert_eq!(link.ble_intent_text(0), "Connecting for 1 s.");
    assert_eq!(link.ble_intent_text(125_000), "Connecting for 2 min.");
    report(&mut link, LinkEvent::Connected(true), 1_000);
    assert!(link.board_warming(2_000));
    assert!(!link.board_warming(46_001));
    assert_eq!(
        link.ble_intent_text(5_000),
        "Connected. The board stays awake until you disconnect."
    );
    assert_eq!(link.board_silence(11_000), None);
    assert_eq!(link.board_silence(41_000), Some(40_000));
    assert_eq!(
        link.ble_intent_text(41_000),
        "Connected, but nothing from the board for 40 s."
    );
    // A slow notify cadence widens the grace to three intervals.
    report(
        &mut link,
        LinkEvent::Settings(Settings {
            notify_interval_ms: 20_000,
            ..Settings::default()
        }),
        41_000,
    );
    assert_eq!(link.board_silence(90_000), None);
    assert_eq!(link.board_silence(102_000), Some(61_000));

    link.set_ble_intent(BleIntent::Idle, 200_000);
    assert_eq!(
        link.ble_intent_text(300_000),
        "Not connecting. The board is free to sleep."
    );
    link.set_ble_intent(BleIntent::Scanning, 300_000);
    assert_eq!(
        link.ble_intent_text(330_000),
        "Looking for boards for 30 s. Not connected to any."
    );
    link.set_ble_intent(BleIntent::ConnectSleeping, 330_000);
    assert_eq!(
        link.ble_intent_text(331_500),
        "Scanning for a sleeping board for 1 s."
    );
}

/// A radio config over the board's limit is refused before it is sent.
#[test]
fn an_oversized_radio_config_is_refused() {
    let (mut link, _) = test_link();
    assert!(link.push_radio(vec![0; 10], 8).is_none());
    assert_eq!(
        link.radio_feedback,
        Some(Err("Config is 10 bytes stripped, over the board's 8-byte limit. Remove keys that are at their default - an absent key keeps it.".to_string()))
    );
    assert!(!link.radio_push_pending);
    let req = link.push_radio(vec![1, 2, 3], 8).expect("fits");
    assert!(matches!(req.command, BleCommand::PushConfig(ref d) if d == &vec![1, 2, 3]));
    assert!(link.radio_push_pending);
    report(&mut link, LinkEvent::ConfigPushed(Err("timeout".to_string())), 1);
    assert!(!link.radio_push_pending);
    assert_eq!(link.radio_feedback, Some(Err("Send failed: timeout".to_string())));
}

/// A scan lists each board once, with its latest reading.
#[test]
fn a_board_seen_twice_is_listed_once() {
    let (mut link, _) = test_link();
    for (i, rssi) in [(1, -70), (2, -50)] {
        report(
            &mut link,
            LinkEvent::Discovered {
                mac: "AA:BB:CC:DD:EE:01".to_string(),
                rssi: Some(rssi),
            },
            i,
        );
    }
    assert_eq!(link.discovered.len(), 1);
    assert_eq!(link.discovered[0].rssi, Some(-50));
    assert_eq!(link.discovered[0].at, 2);
}
