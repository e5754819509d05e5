use gps_gui::link::{str_lt, Link, LinkEvent, LinkUpdate};

type TestLink = Link<u8, (f64, f64), Vec<u8>, i16, u64>;

fn seen(link: &mut TestLink, mac: &str, rssi: i16, now: u64) {
    let epoch = link.epoch;
    link.on_event(
        LinkUpdate {
            epoch,
            event: LinkEvent::Discovered {
                mac: mac.to_string(),
                rssi: Some(rssi),
            },
        },
        now,
    );
}

/// The scan's list is in MAC order, as a sorted map would keep it, whatever
/// order the boards are heard in.
#[test]
fn the_scan_lists_boards_in_mac_order() {
    let mut link = TestLink::new(0, None, String::new(), String::new(), String::new());
    seen(&mut link, "AA:BB:CC:DD:EE:03", -70, 1);
    seen(&mut link, "AA:BB:CC:DD:EE:01", -60, 2);
    seen(&mut link, "AA:BB:CC:DD:EE:02", -50, 3);
    seen(&mut link, "AA:BB:CC:DD:EE:01", -40, 4);
    let macs: Vec<&str> = link.discovered.iter().map(|s| s.mac.as_str()).collect();
    assert_eq!(
        macs,
        vec!["AA:BB:CC:DD:EE:01", "AA:BB:CC:DD:EE:02", "AA:BB:CC:DD:EE:03"]
    );
    assert_eq!(link.discovered[0].rssi, Some(-40));
}

/// Named boards first in the table's order, then what the scan heard, then
/// the pinned board, each once; a reading only while it is recent.
#[test]
fn the_picker_lists_named_then_heard_then_pinned() {
    let mut link = TestLink::new(
        0,
        Some("AA:BB:CC:DD:EE:09".to_string()),
        String::new(),
        String::new(),
        String::new(),
    );
    seen(&mut link, "AA:BB:CC:DD:EE:02", -50, 1_000);
    seen(&mut link, "AA:BB:CC:DD:EE:05", -80, 9_000);
    let names = vec!["AA:BB:CC:DD:EE:05".to_string(), "AA:BB:CC:DD:EE:07".to_string()];
    let rows = link.device_rows(&names, 12_000);
    let macs: Vec<&str> = rows.iter().map(|r| r.mac.as_str()).collect();
    assert_eq!(
        macs,
        vec![
            "AA:BB:CC:DD:EE:05",
            "AA:BB:CC:DD:EE:07",
            "AA:BB:CC:DD:EE:02",
            "AA:BB:CC:DD:EE:09"
        ]
    );
    // Heard 3 s ago: still on the air. Heard 11 s ago: aged out.
    assert_eq!(rows[0].rssi, Some(-80));
    assert_eq!(rows[2].rssi, None);
    assert_eq!(rows[1].rssi, None);
    assert!(rows[3].selected && !rows[0].selected);
}

/// The library's string order is the one strings themselves have.
#[test]
fn string_order_matches_std() {
    let words = [
        "", "a", "ab", "abc", "b", "B", "AA:01", "AA:1", "é", "z", "zz", "Ω", "ä", "a\u{10000}",
    ];
    for a in words {
        for b in words {
            assert_eq!(str_lt(a, b), a < b, "{a:?} < {b:?}");
        }
    }
}
