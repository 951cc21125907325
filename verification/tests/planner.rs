use newscenter::planner::{count_windows, window, ChunkWindow};

#[test]
fn twenty_five_seconds_in_tens_give_three_windows() {
    assert_eq!(count_windows(25_000_000, 10), 3);
    assert_eq!(
        window(25_000_000, 10, 0),
        Some(ChunkWindow { index: 1, start_time: 0, end_time: 10_000_000 })
    );
    assert_eq!(
        window(25_000_000, 10, 1),
        Some(ChunkWindow { index: 2, start_time: 10_000_000, end_time: 20_000_000 })
    );
    assert_eq!(
        window(25_000_000, 10, 2),
        Some(ChunkWindow { index: 3, start_time: 20_000_000, end_time: 25_000_000 })
    );
    assert_eq!(window(25_000_000, 10, 3), None);
    assert_eq!(window(25_000_000, 10, -1), None);
}

#[test]
fn the_windows_tile_the_source() {
    for duration in [1i64, 999_999, 1_000_000, 1_000_001, 25_000_000, 60_000_000, 61_500_000] {
        for seconds in [1i64, 2, 7, 10, 60, 61, 600] {
            let count = count_windows(duration, seconds);
            assert!(count >= 1);
            let mut covered = 0;
            for position in 0..count {
                let window = window(duration, seconds, position).unwrap();
                assert_eq!(window.index, position as u64 + 1);
                assert_eq!(window.start_time, covered);
                assert!(window.start_time < window.end_time);
                assert!(window.end_time - window.start_time <= seconds * 1_000_000);
                covered = window.end_time;
            }
            assert_eq!(covered, duration);
            assert_eq!(window(duration, seconds, count), None);
        }
    }
}

#[test]
fn a_source_no_longer_than_a_chunk_is_one_window() {
    for duration in [1i64, 5_000_000, 9_999_999, 10_000_000] {
        assert_eq!(count_windows(duration, 10), 1);
        assert_eq!(
            window(duration, 10, 0),
            Some(ChunkWindow { index: 1, start_time: 0, end_time: duration })
        );
    }
}

#[test]
fn an_exact_multiple_gives_no_window_more() {
    for multiple in 1i64..=12 {
        assert_eq!(count_windows(multiple * 7_000_000, 7), multiple);
        let last = window(multiple * 7_000_000, 7, multiple - 1).unwrap();
        assert_eq!(last.end_time - last.start_time, 7_000_000);
    }
}

#[test]
fn nothing_is_planned_where_nothing_is_positive() {
    assert_eq!(count_windows(0, 10), 0);
    assert_eq!(count_windows(-1, 10), 0);
    assert_eq!(count_windows(10, 0), 0);
    assert_eq!(count_windows(10, -1), 0);
    assert_eq!(count_windows(i64::MIN, i64::MIN), 0);
    assert_eq!(window(0, 10, 0), None);
}
