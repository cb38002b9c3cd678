//! String helpers and the JSON unescaping used on build-tool output.

use farcri::cargo::json_unescape;
use farcri::utils::{cautious, slice_find, truncate_to_boundary, utf8_str_prev};

#[test]
fn test_json_unescape() {
    assert_eq!(json_unescape("").unwrap(), "");
    assert_eq!(json_unescape("a").unwrap(), "a");
    assert_eq!(json_unescape(r"\n").unwrap(), "\n");
    assert_eq!(json_unescape(r"a\ra").unwrap(), "a\ra");
    assert_eq!(json_unescape(r"a\r\na").unwrap(), "a\r\na");
    assert_eq!(json_unescape(r"a\\\r\\a").unwrap(), "a\\\r\\a");
}

#[test]
fn json_unescape_rejects_bad_escapes() {
    assert_eq!(json_unescape(r"a\q"), None);
    assert_eq!(json_unescape("trailing\\"), None);
    // Unicode escapes are not supported by this unescaper.
    assert_eq!(json_unescape(r"\u0041"), None);
}

#[test]
fn json_unescape_all_escapes() {
    assert_eq!(
        json_unescape(r#"\"\/\b\f\n\r\t"#).unwrap(),
        "\"/\u{8}\u{c}\n\r\t"
    );
}

#[test]
fn utf8_str_prev_steps_over_scalars() {
    // "aé€" is 1 + 2 + 3 bytes.
    let s = "a\u{e9}\u{20ac}".as_bytes().to_vec();
    assert_eq!(s.len(), 6);
    assert_eq!(utf8_str_prev(&s, 6), 3);
    assert_eq!(utf8_str_prev(&s, 3), 1);
    assert_eq!(utf8_str_prev(&s, 1), 0);
    assert_eq!(utf8_str_prev(&s, 0), 0);
}

#[test]
fn truncate_keeps_whole_scalars() {
    let s = "ab\u{e9}".as_bytes().to_vec();
    assert_eq!(s.len(), 4);
    assert_eq!(truncate_to_boundary(s.clone(), 4), s);
    // Cutting at 3 would split the two-byte scalar.
    assert_eq!(truncate_to_boundary(s.clone(), 3), b"ab".to_vec());
    assert_eq!(truncate_to_boundary(s, 2), b"ab".to_vec());
}

#[test]
fn slice_find_reports_first_occurrence() {
    let hay = vec![1, 2, 3, 1, 2, 3];
    assert_eq!(slice_find(&hay, &vec![2, 3]), Some(1));
    assert_eq!(slice_find(&hay, &vec![3, 1]), Some(2));
    assert_eq!(slice_find(&hay, &vec![4]), None);
    assert_eq!(slice_find(&hay, &vec![1, 2, 3, 1, 2, 3]), Some(0));
}

#[test]
fn cautious_clamps_capacity_hints() {
    assert_eq!(cautious(None), 0);
    assert_eq!(cautious(Some(17)), 17);
    assert_eq!(cautious(Some(1 << 30)), 4096);
}
