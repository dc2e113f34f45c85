use glowlay::history::{CpuHistory, MAX_HISTORY};

#[test]
fn new_history_holds_placeholders() {
    let h: CpuHistory<f32> = CpuHistory::new(0.0);
    assert_eq!(h.samples().len(), MAX_HISTORY);
    assert!(h.samples().iter().all(|&v| v == 0.0));
}

#[test]
fn first_sample_fills_window() {
    let mut h: CpuHistory<f32> = CpuHistory::new(0.0);
    h.record(37.5);
    assert_eq!(h.samples().len(), 60);
    assert!(h.samples().iter().all(|&v| v == 37.5));
}

#[test]
fn later_samples_shift_window() {
    let mut h: CpuHistory<u32> = CpuHistory::new(0);
    h.record(1);
    h.record(2);
    h.record(3);
    let s = h.samples();
    assert_eq!(s.len(), 60);
    assert_eq!(s[59], 3);
    assert_eq!(s[58], 2);
    assert_eq!(s[57], 1);
    assert_eq!(s[0], 1);
}

#[test]
fn window_forgets_oldest_samples() {
    let mut h: CpuHistory<u32> = CpuHistory::new(0);
    for v in 0..100u32 {
        h.record(v);
    }
    let s = h.samples();
    assert_eq!(s.len(), 60);
    assert_eq!(s[0], 40);
    assert_eq!(s[59], 99);
}
