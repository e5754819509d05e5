use gps_gui::board::{ack_message, ping_reason, setting_name, Ack, AckStatus, NodePing, SettingId};
use gps_gui::durations::secs_text;

/// A silent GPS module is a wiring answer and a searching one is a sky
/// answer; the whole point of the ping is telling them apart.
#[test]
fn ping_reason_separates_a_silent_module_from_a_search() {
    let ping = |gps_present, had_fix, uptime_s| NodePing {
        src: 3,
        rssi: -90,
        uptime_s,
        gps_present,
        had_fix,
        age_s: 0,
    };
    assert_eq!(ping_reason(ping(false, false, 120)), "gps silent");
    // A module that is talking is never called silent, even if it has
    // never had a fix.
    assert_eq!(ping_reason(ping(true, false, 120)), "no fix since boot, up 2 min");
    assert_eq!(ping_reason(ping(true, true, 120)), "searching, up 2 min");
}

/// The WIO statuses are a link failure between the ESP and the WIO-E5, not
/// a rejected value, and have to read as something the user can act on.
#[test]
fn ack_message_separates_wio_faults_from_rejections() {
    let ack = |id, status| Ack {
        id,
        status,
        value_u32: None,
    };
    assert!(ack_message(&Ack {
        id: SettingId::EspSleep,
        status: AckStatus::Accepted,
        value_u32: Some(300),
    })
    .unwrap()
    .contains("5 min"));

    let wio = ack_message(&ack(SettingId::WioSleep, AckStatus::WioTimeout)).unwrap_err();
    assert!(wio.contains("WIO-E5"), "{wio}");
    let bad = ack_message(&ack(SettingId::PwrEn, AckStatus::BadValue)).unwrap_err();
    assert!(bad.contains("GPS/LoRa power"), "{bad}");
    // An interval of 0 turns sleep off, and must not read as "every off".
    assert_eq!(
        ack_message(&Ack {
            id: SettingId::EspSleep,
            status: AckStatus::Accepted,
            value_u32: Some(0),
        }),
        Ok("Board applied: sleep disabled".to_string())
    );
}

/// A setting that carries a number has to say which number the board took,
/// and a clamped window must read as the board's number, not as agreement.
/// Checked for every window the board's floor could be.
#[test]
fn ack_message_quotes_the_window_the_board_stored() {
    let acked = |secs| {
        ack_message(&Ack {
            id: SettingId::AdvWindow,
            status: AckStatus::Accepted,
            value_u32: Some(secs),
        })
    };
    for floor in [1, 2, 5, 10, 15] {
        assert_eq!(
            acked(floor),
            Ok(format!(
                "Board applied: advertising {} per wake",
                secs_text(floor)
            ))
        );
    }
    assert!(acked(30).unwrap().contains("30 s"));
    assert!(ack_message(&Ack {
        id: SettingId::AdvWindow,
        status: AckStatus::BadValue,
        value_u32: None,
    })
    .unwrap_err()
    .contains("advertising window"));
}

/// Every arm of the ack line, word for word.
#[test]
fn ack_message_words_every_status() {
    let ack = |id, status, value_u32| Ack { id, status, value_u32 };
    assert_eq!(
        ack_message(&ack(SettingId::NotifyInterval, AckStatus::Accepted, Some(250))),
        Ok("Board applied: notify interval 250 ms".to_string())
    );
    assert_eq!(
        ack_message(&ack(SettingId::SleepNow, AckStatus::Accepted, Some(120))),
        Ok("Board sleeping for 2 min - it will disconnect now".to_string())
    );
    assert_eq!(
        ack_message(&ack(SettingId::GpsSleep, AckStatus::Accepted, None)),
        Ok("Board applied: GPS backup mode".to_string())
    );
    assert_eq!(
        ack_message(&ack(SettingId::Other(9), AckStatus::UnknownId, None)),
        Err("Board rejected: it does not know the setting setting".to_string())
    );
    assert_eq!(
        ack_message(&ack(SettingId::WioSleep, AckStatus::WioError, None)),
        Err("The board could not reach the WIO-E5 to set WIO-E5 sleep (link error).".to_string())
    );
    assert_eq!(
        ack_message(&ack(SettingId::SleepNow, AckStatus::BadState, None)),
        Err("Board rejected sleep now: not valid in its current state".to_string())
    );
    assert_eq!(
        ack_message(&ack(SettingId::PwrEn, AckStatus::Other(0x0b), None)),
        Err("Board rejected GPS/LoRa power: status 0x0b".to_string())
    );
    assert_eq!(
        ack_message(&ack(SettingId::PwrEn, AckStatus::Other(0xfe), None)),
        Err("Board rejected GPS/LoRa power: status 0xfe".to_string())
    );
}

#[test]
fn setting_names_for_the_ack_line() {
    assert_eq!(setting_name(SettingId::NotifyInterval), "notify interval");
    assert_eq!(setting_name(SettingId::EspSleep), "wake-check interval");
    assert_eq!(setting_name(SettingId::AdvWindow), "advertising window");
    assert_eq!(setting_name(SettingId::Other(200)), "setting");
}
