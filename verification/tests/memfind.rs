use snapshot_archive::memfind::memfind;

#[test]
fn memfind_finds_first_occurrence() {
    let hay: Vec<u8> = vec![1, 2, 3, 1, 2, 3, 4];
    assert_eq!(memfind(&hay, &[1u8, 2, 3]), Some(0));
    assert_eq!(memfind(&hay, &[2u8, 3, 4]), Some(4));
    assert_eq!(memfind(&hay, &[3u8, 1]), Some(2));
}

#[test]
fn memfind_reports_absence() {
    let hay: Vec<u8> = vec![1, 2, 3, 4];
    assert_eq!(memfind(&hay, &[4u8, 3]), None);
    assert_eq!(memfind(&hay, &[5u8]), None);
}

#[test]
fn memfind_empty_needle_is_at_zero() {
    let hay: Vec<u8> = vec![9, 8];
    let empty: Vec<u8> = Vec::new();
    assert_eq!(memfind(&hay, &empty), Some(0));
    assert_eq!(memfind(&empty, &empty), Some(0));
}

#[test]
fn memfind_whole_slice_and_tail() {
    let hay: Vec<u8> = vec![7, 7, 8];
    assert_eq!(memfind(&hay, &[7u8, 7, 8]), Some(0));
    assert_eq!(memfind(&hay, &[7u8, 8]), Some(1));
    assert_eq!(memfind(&hay, &[8u8]), Some(2));
}

#[test]
fn memfind_on_strings() {
    let hay = vec!["a".to_string(), "b".to_string(), "c".to_string()];
    let needle = vec!["b".to_string(), "c".to_string()];
    assert_eq!(memfind(&hay, &needle), Some(1));
}
