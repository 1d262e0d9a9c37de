use plugin_scaffold::splice::{append, find_first, prepend, replace};

#[test]
fn find_first_returns_leftmost_offset() {
    assert_eq!(find_first(b"abcabc", b"bc"), Some(1));
    assert_eq!(find_first(b"abcabc", b"cab"), Some(2));
    assert_eq!(find_first(b"abcabc", b"abcabc"), Some(0));
}

#[test]
fn find_first_reports_absence() {
    assert_eq!(find_first(b"abcabc", b"bd"), None);
    assert_eq!(find_first(b"ab", b"abc"), None);
    assert_eq!(find_first(b"", b"a"), None);
}

#[test]
fn empty_needle_stands_at_the_start() {
    assert_eq!(find_first(b"abc", b""), Some(0));
    assert_eq!(find_first(b"", b""), Some(0));
    assert_eq!(replace(b"abc", b"", b"X"), Some(b"Xabc".to_vec()));
}

#[test]
fn prepend_puts_text_first() {
    assert_eq!(prepend(b"body", b"head "), b"head body".to_vec());
    assert_eq!(prepend(b"", b"x"), b"x".to_vec());
}

#[test]
fn append_puts_text_last() {
    assert_eq!(append(b"body", b" tail"), b"body tail".to_vec());
    assert_eq!(append(b"body", b""), b"body".to_vec());
}

#[test]
fn replace_exchanges_the_single_anchor() {
    assert_eq!(
        replace(b"one <!-- here --> two", b"<!-- here -->", b"1.5"),
        Some(b"one 1.5 two".to_vec())
    );
}

#[test]
fn replace_touches_only_the_first_of_two_anchors() {
    assert_eq!(replace(b"a-MARK-b-MARK-c", b"MARK", b"x"), Some(b"a-x-b-MARK-c".to_vec()));
}

#[test]
fn replace_without_anchor_gives_nothing() {
    assert_eq!(replace(b"no marker here", b"MARK", b"x"), None);
}

#[test]
fn replacement_is_not_searched_again() {
    assert_eq!(replace(b"aXa", b"X", b"XX"), Some(b"aXXa".to_vec()));
}

#[test]
fn overlapping_occurrences_are_consumed_by_the_first() {
    assert_eq!(replace(b"aaa", b"aa", b"b"), Some(b"ba".to_vec()));
    assert_eq!(find_first(b"aaa", b"aa"), Some(0));
}

#[test]
fn replace_at_the_very_start_and_end() {
    assert_eq!(replace(b"MARK rest", b"MARK", b"x"), Some(b"x rest".to_vec()));
    assert_eq!(replace(b"rest MARK", b"MARK", b"x"), Some(b"rest x".to_vec()));
    assert_eq!(replace(b"MARK", b"MARK", b""), Some(b"".to_vec()));
}
