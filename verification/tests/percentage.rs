use servo_shield::adblock_stats::AdBlockStats;
use servo_shield::percentage::percent_hundredths_of;

fn shown(blocked: u64, total: u64) -> String {
    let h = percent_hundredths_of(blocked, total);
    format!("{}.{:02}", h / 100, h % 100)
}

fn float_shown(blocked: u64, total: u64) -> String {
    let p = if total == 0 { 0.0 } else { (blocked as f64 / total as f64) * 100.0 };
    format!("{:.2}", p)
}

#[test]
fn near_tie_follows_the_binary_value() {
    assert_eq!(shown(23, 160), "14.37");
    let mut stats = AdBlockStats::new();
    for _ in 0..23 {
        stats.increment_blocked();
    }
    for _ in 0..137 {
        stats.increment_allowed();
    }
    assert!(stats.generate_report().contains("Pourcentage bloqué: 14.37%\n"));
}

#[test]
fn hundredths_match_binary64_formatting() {
    let mut cases: Vec<(u64, u64)> = Vec::new();
    for t in 1..=400u64 {
        for b in 0..=t {
            cases.push((b, t));
        }
    }
    let big = [
        (1u64 << 53) - 1,
        1u64 << 53,
        (1u64 << 53) + 1,
        (1u64 << 60) + 12345,
        u64::MAX / 3,
        u64::MAX / 2,
        u64::MAX - 1,
        u64::MAX,
    ];
    for &t in big.iter() {
        for &b in [0u64, 1, 7, 1 << 20, t / 8, t / 3, t / 2, t - 1, t].iter() {
            cases.push((b, t));
        }
    }
    let mut x: u64 = 0x9E37_79B9_7F4A_7C15;
    for _ in 0..20000 {
        x ^= x << 13;
        x ^= x >> 7;
        x ^= x << 17;
        let t = x >> (x % 64);
        let b = if t == 0 { 0 } else { (x.rotate_left(17)) % (t + (t < u64::MAX) as u64) };
        cases.push((b.min(t), t));
    }
    for (b, t) in cases {
        assert_eq!(shown(b, t), float_shown(b, t), "blocked {} of {}", b, t);
    }
}
