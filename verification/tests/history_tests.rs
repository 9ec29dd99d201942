use yap_to_text::history::RecentTranscripts;

#[test]
fn newest_transcript_comes_first() {
    let mut h = RecentTranscripts::new();
    assert_eq!(h.len(), 0);
    h.add("first".to_string());
    h.add("second".to_string());
    assert_eq!(h.len(), 2);
    assert_eq!(h.get(0), Some(&"second".to_string()));
    assert_eq!(h.get(1), Some(&"first".to_string()));
    assert_eq!(h.get(2), None);
}

#[test]
fn only_the_three_newest_are_kept() {
    let mut h = RecentTranscripts::new();
    for t in ["a", "b", "c", "d", "e"] {
        h.add(t.to_string());
    }
    assert_eq!(h.len(), 3);
    assert_eq!(h.get(0), Some(&"e".to_string()));
    assert_eq!(h.get(1), Some(&"d".to_string()));
    assert_eq!(h.get(2), Some(&"c".to_string()));
}
