use glowlay::text::{contains_text, text_equals};

#[test]
fn text_equality() {
    assert!(text_equals("lo", "lo"));
    assert!(!text_equals("lo", "lo0"));
    assert!(!text_equals("eth0", "eth1"));
    assert!(text_equals("", ""));
    assert!(text_equals("データ", "データ"));
}

#[test]
fn substring_search() {
    assert!(contains_text("k10temp tctl", "tctl"));
    assert!(contains_text("cpu", "cpu"));
    assert!(contains_text("anything", ""));
    assert!(!contains_text("", "a"));
    assert!(!contains_text("cp", "cpu"));
    assert!(contains_text("aaab", "aab"));
    assert!(contains_text("温度 cpu", "cpu"));
}
