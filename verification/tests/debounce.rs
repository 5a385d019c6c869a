use magneto_pad::debounce::{AnalogueMatrix, KeyConfig, KeyState};

#[test]
fn test_spike_resistance() {
    // One low spike after a full window of idle readings: the average of
    // the ninth window is (4096 * 7 + 100) / 8 = 3596, still above the
    // threshold, so the key must not register a press.
    let mut k = KeyState::new(KeyConfig::Threshold(1500));
    for &v in &[4096, 4096, 4096, 4096, 4096, 4096, 4096, 4096, 100u16] {
        k.update(v);
    }
    assert_eq!(k.smoothed(), 3596);
    assert!(!k.pressed);
    assert!(!k.changed);
}

#[test]
fn test_press_edge_exactly_once() {
    // Readings fall monotonically from idle to firmly pressed; the edge
    // flag must rise on exactly one tick and the state must flip once.
    let mut k = KeyState::new(KeyConfig::Threshold(1500));
    let samples = [3500, 3000, 2500, 2000, 1500, 1000, 500, 100, 0, 0, 0, 0u16];
    let mut edges = 0;
    for &v in samples.iter() {
        k.update(v);
        if k.changed {
            edges += 1;
            assert!(k.pressed);
        }
    }
    assert_eq!(edges, 1);
    assert!(k.pressed);
}

#[test]
fn test_stability_settles() {
    // Eight identical readings drive the smoothed value to exactly that
    // reading, and once settled further identical readings raise no edge.
    let mut k = KeyState::new(KeyConfig::Threshold(1500));
    for _ in 0..8 {
        k.update(2000);
    }
    assert_eq!(k.smoothed(), 2000);
    assert!(!k.pressed);
    for _ in 0..4 {
        k.update(2000);
        assert!(!k.changed);
        assert!(!k.pressed);
    }

    // The same below the threshold: one edge on the way down, then quiet.
    let mut low = KeyState::new(KeyConfig::Threshold(1500));
    for _ in 0..8 {
        low.update(100);
    }
    assert_eq!(low.smoothed(), 100);
    assert!(low.pressed);
    for _ in 0..4 {
        low.update(100);
        assert!(!low.changed);
        assert!(low.pressed);
    }
}

#[test]
fn test_running_extremes() {
    let mut k = KeyState::new(KeyConfig::Threshold(1500));
    assert_eq!(k.min, u16::MAX);
    assert_eq!(k.max, 0);
    k.update(5000);
    k.update(100);
    k.update(3000);
    assert_eq!(k.min, 100);
    assert_eq!(k.max, 5000);
}

#[test]
fn test_matrix_scan_events() {
    // Channel 0 is held down (reads 100), channel 1 stays idle (4096).
    // The window starts at full scale, so channel 0's average crosses the
    // 1500 threshold on the sixth tick: (4096 * 3 + 100 * 5) / 8 = 1598 on
    // the fifth, (4096 * 2 + 100 * 6) / 8 = 1099 on the sixth.
    let mut m = AnalogueMatrix::new(vec![
        KeyConfig::Threshold(1500),
        KeyConfig::Threshold(1500),
    ]);
    let samples = vec![100u16, 4096u16];
    for _ in 0..5 {
        let events = m.get(&samples);
        assert!(events.is_empty());
    }
    let events = m.get(&samples);
    assert_eq!(events, vec![(0usize, true)]);
    let events = m.get(&samples);
    assert!(events.is_empty());
}

#[test]
fn test_rapid_trigger_is_not_implemented() {
    // Selecting the declared-but-unimplemented policy must be caught as a
    // configuration error before any scanning starts.
    assert!(!KeyConfig::RapidTrigger(400).is_implemented());
    assert!(KeyConfig::Threshold(1500).is_implemented());
}
