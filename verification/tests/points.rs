use gps_gui::points::{visible_points, PointFilter, PointSource, Recorded};

fn point(source: PointSource, time: i128, id: u32) -> Recorded<u32> {
    Recorded { source, time, pos: id }
}

/// Newest first, points recorded at the same moment in the order given, and
/// only the sources the filter admits.
#[test]
fn points_list_newest_first_by_source() {
    let points = vec![
        point(PointSource::Phone, 10, 1),
        point(PointSource::Esp, 30, 2),
        point(PointSource::Remote(4), 20, 3),
        point(PointSource::Phone, 30, 4),
        point(PointSource::Remote(9), -5, 5),
        point(PointSource::Esp, 20, 6),
    ];
    let ids = |filter| -> Vec<u32> {
        visible_points(&points, filter).iter().map(|p| p.pos).collect()
    };
    assert_eq!(ids(PointFilter::All), vec![2, 4, 3, 6, 1, 5]);
    assert_eq!(ids(PointFilter::Phone), vec![4, 1]);
    assert_eq!(ids(PointFilter::Esp), vec![2, 6]);
    assert_eq!(ids(PointFilter::Remote), vec![3, 5]);
    assert!(visible_points::<u32>(&Vec::new(), PointFilter::All).is_empty());
}

/// The same order std's stable sort by key gives.
#[test]
fn points_order_matches_a_stable_sort() {
    let mut points = Vec::new();
    let mut seed: u64 = 7;
    for id in 0..200u32 {
        seed = seed.wrapping_mul(6364136223846793005).wrapping_add(1442695040888963407);
        let time = (seed >> 58) as i128;
        let source = match (seed >> 40) % 3 {
            0 => PointSource::Phone,
            1 => PointSource::Esp,
            _ => PointSource::Remote((seed >> 20) as u8),
        };
        points.push(point(source, time, id));
    }
    let mut expected = points.clone();
    expected.sort_by_key(|p| std::cmp::Reverse(p.time));
    let got: Vec<u32> = visible_points(&points, PointFilter::All).iter().map(|p| p.pos).collect();
    let want: Vec<u32> = expected.iter().map(|p| p.pos).collect();
    assert_eq!(got, want);
}
