use omnisync::bandwidth::{BandwidthManager, BandwidthStats, TransferKind, DAILY_LIMIT};
use omnisync::size::write_size;

const DAY: &str = "2024-05-17";

fn float_text(bytes: u64) -> String {
    const UNITS: [&str; 5] = ["B", "KB", "MB", "GB", "TB"];
    let mut v = bytes as f64;
    let mut i = 0;
    while v >= 1024.0 && i < UNITS.len() - 1 {
        v /= 1024.0;
        i += 1;
    }
    format!("{:.2} {}", v, UNITS[i])
}

fn saved(up_bytes: u64, down_bytes: u64) -> BandwidthManager {
    BandwidthManager::new(Some(BandwidthStats {
        date: DAY.to_string(),
        up_bytes,
        down_bytes,
    }))
}

fn looks_like_a_date(s: &str) -> bool {
    let parts: Vec<&str> = s.split('-').collect();
    parts.len() == 3
        && parts[0].len() == 4
        && parts[1].len() == 2
        && parts[2].len() == 2
        && parts.iter().all(|p| p.chars().all(|c| c.is_ascii_digit()))
}

#[test]
fn sizes_read_like_rounded_doubles() {
    let mut x: u64 = 0x9e37_79b9_7f4a_7c15;
    for k in 0..200_000u64 {
        x ^= x << 13;
        x ^= x >> 7;
        x ^= x << 17;
        let n = x >> (k % 64);
        assert_eq!(write_size(n), float_text(n), "{}", n);
    }
    for shift in 0..64u32 {
        for off in 0..2049u64 {
            let up = (1u64 << shift).wrapping_add(off);
            let down = (1u64 << shift).wrapping_sub(off);
            assert_eq!(write_size(up), float_text(up));
            assert_eq!(write_size(down), float_text(down));
        }
    }
    for k in 0..5000u64 {
        // Halves of a hundredth are ties.
        let n = 1024 * k + 128 * (k % 8);
        assert_eq!(write_size(n), float_text(n));
        let n = (k << 33) + (k << 31);
        assert_eq!(write_size(n), float_text(n));
    }
    assert_eq!(write_size(u64::MAX), float_text(u64::MAX));
}

#[test]
fn sizes_in_each_unit() {
    assert_eq!(write_size(0), "0.00 B");
    assert_eq!(write_size(1023), "1023.00 B");
    assert_eq!(write_size(1536), "1.50 KB");
    assert_eq!(write_size(1_048_576), "1.00 MB");
    assert_eq!(write_size(DAILY_LIMIT), "250.00 GB");
    assert_eq!(write_size(u64::MAX), "16777216.00 TB");
}

#[test]
fn the_limit_is_250_gigabytes() {
    assert_eq!(DAILY_LIMIT, 250 * 1024 * 1024 * 1024);
    assert_eq!(BandwidthManager::new(None).limit, DAILY_LIMIT);
    assert_eq!(saved(0, 0).format_bytes(DAILY_LIMIT), "250.00 GB");
}

#[test]
fn a_manager_without_saved_counters_starts_today_at_zero() {
    let m = BandwidthManager::new(None);
    assert!(looks_like_a_date(&m.stats.date), "{}", m.stats.date);
    assert_eq!((m.stats.up_bytes, m.stats.down_bytes), (0, 0));
    assert!(!m.unsaved);
    let d = BandwidthStats::default();
    assert!(looks_like_a_date(&d.date));
    assert_eq!((d.up_bytes, d.down_bytes), (0, 0));
}

#[test]
fn saved_counters_are_taken_up() {
    let mut m = saved(7, 8);
    let s = m.get_stats_on(DAY.to_string());
    assert_eq!((s.date.as_str(), s.up_bytes, s.down_bytes), (DAY, 7, 8));
    assert!(m.take_unsaved().is_none());
}

#[test]
fn another_day_starts_afresh_once() {
    let mut m = saved(7, 8);
    m.check_and_reset_on("2024-05-18".to_string());
    let written = m.take_unsaved().expect("a new day is written down");
    assert_eq!(
        (written.date.as_str(), written.up_bytes, written.down_bytes),
        ("2024-05-18", 0, 0)
    );
    m.check_and_reset_on("2024-05-18".to_string());
    assert!(m.take_unsaved().is_none());
}

#[test]
fn the_local_day_resets_old_counters() {
    for k in 0..6 {
        let mut m = saved(7, 8);
        match k {
            0 => m.check_and_reset(),
            1 => assert_eq!(m.can_transfer(1), Ok(())),
            2 => assert_eq!(m.try_reserve(1, TransferKind::Up), Ok(())),
            3 => m.add_up(1),
            4 => m.add_down(1),
            _ => {
                let s = m.get_stats();
                assert_eq!((s.up_bytes, s.down_bytes), (0, 0));
            }
        }
        assert!(looks_like_a_date(&m.stats.date));
        assert_ne!(m.stats.date, DAY);
        let expected = match k {
            2 | 3 => (1, 0),
            4 => (0, 1),
            _ => (0, 0),
        };
        assert_eq!((m.stats.up_bytes, m.stats.down_bytes), expected);
        assert!(m.unsaved);
    }
}

#[test]
fn a_reservation_up_to_the_limit_is_granted_and_one_over_it_refused() {
    let mut m = saved(DAILY_LIMIT - 10, 4);
    assert_eq!(m.can_transfer_on(DAY.to_string(), 6), Ok(()));
    assert!(!m.unsaved);
    assert_eq!(
        m.try_reserve_on(DAY.to_string(), 7, TransferKind::Down),
        Err("Daily bandwidth limit (250.00 GB) exceeded! Used: 250.00 GB".to_string())
    );
    assert_eq!((m.stats.up_bytes, m.stats.down_bytes), (DAILY_LIMIT - 10, 4));
    assert!(!m.unsaved);
    assert_eq!(m.try_reserve_on(DAY.to_string(), 6, TransferKind::Down), Ok(()));
    assert_eq!((m.stats.up_bytes, m.stats.down_bytes), (DAILY_LIMIT - 10, 10));
    assert!(m.can_transfer_on(DAY.to_string(), 1).is_err());
}

#[test]
fn the_refusal_names_the_total() {
    let mut m = saved(0, 0);
    assert_eq!(
        m.can_transfer_on(DAY.to_string(), 300 * 1024 * 1024 * 1024),
        Err("Daily bandwidth limit (250.00 GB) exceeded! Used: 300.00 GB".to_string())
    );
    let mut full = saved(u64::MAX, u64::MAX);
    assert_eq!(
        full.can_transfer_on(DAY.to_string(), u64::MAX),
        Err("Daily bandwidth limit (250.00 GB) exceeded! Used: 16777216.00 TB".to_string())
    );
}

#[test]
fn a_full_counter_is_granted_nothing_more_under_the_largest_limit() {
    let mut m = saved(u64::MAX, 0);
    m.limit = u64::MAX;
    assert_eq!(m.try_reserve_on(DAY.to_string(), 0, TransferKind::Up), Ok(()));
    assert_eq!(
        m.try_reserve_on(DAY.to_string(), 1, TransferKind::Up),
        Err("Daily bandwidth limit (16777216.00 TB) exceeded! Used: 16777216.00 TB".to_string())
    );
    assert!(m.can_transfer_on(DAY.to_string(), 1).is_err());
    assert_eq!((m.stats.up_bytes, m.stats.down_bytes), (u64::MAX, 0));
}

#[test]
fn a_refund_undoes_a_reservation() {
    let mut m = saved(100, 200);
    m.try_reserve_on(DAY.to_string(), 50, TransferKind::Up).unwrap();
    assert_eq!((m.stats.up_bytes, m.stats.down_bytes), (150, 200));
    m.refund(50, TransferKind::Up);
    assert_eq!((m.stats.up_bytes, m.stats.down_bytes), (100, 200));
}

#[test]
fn a_partial_refund_leaves_what_moved() {
    let mut m = saved(0, 200);
    m.try_reserve_on(DAY.to_string(), 50, TransferKind::Down).unwrap();
    m.refund(50 - 20, TransferKind::Down);
    assert_eq!((m.stats.up_bytes, m.stats.down_bytes), (0, 220));
}

#[test]
fn a_refund_stops_at_zero_and_nothing_is_no_refund() {
    let mut m = saved(3, 5);
    m.refund(0, TransferKind::Up);
    assert!(!m.unsaved);
    m.refund(10, TransferKind::Up);
    assert_eq!((m.stats.up_bytes, m.stats.down_bytes), (0, 5));
    assert!(m.unsaved);
}

#[test]
fn counting_ignores_the_limit_and_stops_at_the_top() {
    let mut m = saved(u64::MAX - 1, 0);
    m.add_up_on(DAY.to_string(), 5);
    m.add_down_on(DAY.to_string(), DAILY_LIMIT + 1);
    assert_eq!((m.stats.up_bytes, m.stats.down_bytes), (u64::MAX, DAILY_LIMIT + 1));
}

#[test]
fn counters_are_handed_out_once() {
    let mut m = saved(0, 0);
    m.add_up_on(DAY.to_string(), 9);
    assert_eq!(m.take_unsaved().map(|s| s.up_bytes), Some(9));
    assert!(m.take_unsaved().is_none());
}
