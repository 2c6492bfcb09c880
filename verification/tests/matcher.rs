use busbridge::matcher::matches_filter;

#[test]
fn catch_all_matches_any_subject() {
    assert!(matches_filter(">", "foo"));
    assert!(matches_filter(">", "foo.bar"));
    assert!(matches_filter(">", "a.b.c.d.e"));
    assert!(matches_filter(">", "."));
}

#[test]
fn catch_all_matches_empty_subject() {
    // The empty subject splits into one empty segment, which `>` covers.
    assert!(matches_filter(">", ""));
}

#[test]
fn star_matches_exactly_one_segment() {
    assert!(matches_filter("a.*.c", "a.b.c"));
    assert!(!matches_filter("a.*.c", "a.b.b.c"));
    assert!(matches_filter("*", "anything"));
    assert!(!matches_filter("*", "two.segments"));
}

#[test]
fn trailing_multi_wildcard_spans_remaining_segments() {
    assert!(matches_filter("a.>", "a.b.c.d"));
    assert!(matches_filter("a.>", "a.b"));
}

#[test]
fn multi_wildcard_with_no_remaining_subject_segments() {
    // The filter has more segments than the subject, so the walk never
    // reaches the `>`: no match.
    assert!(!matches_filter("a.>", "a"));
}

#[test]
fn no_wildcard_needs_equal_length() {
    assert!(!matches_filter("a.b", "a.b.c"));
    assert!(matches_filter("a.b", "a.b"));
    assert!(!matches_filter("a.b.c", "a.b"));
}

#[test]
fn literals_compare_byte_for_byte() {
    assert!(matches_filter("orders.new", "orders.new"));
    assert!(!matches_filter("orders.new", "orders.News"));
    assert!(!matches_filter("orders.new", "Orders.new"));
}

#[test]
fn empty_filter_and_empty_subject() {
    assert!(matches_filter("", ""));
    assert!(!matches_filter("", "a"));
}

#[test]
fn non_final_multi_wildcard_still_short_circuits() {
    // `>` short-circuits wherever the walk reaches it, provided the
    // filter is not longer than the subject.
    assert!(matches_filter("a.>.c", "a.b.x"));
    assert!(matches_filter("a.>.c", "a.b.c.d"));
    assert!(!matches_filter("a.>.c", "a.b"));
}

#[test]
fn consecutive_dots_make_empty_segments() {
    assert!(matches_filter("a..b", "a..b"));
    assert!(matches_filter("a.*.b", "a..b"));
    assert!(!matches_filter("a..b", "a.x.b"));
    assert!(!matches_filter("a.b", "a..b"));
}

#[test]
fn repeated_calls_agree() {
    for _ in 0..3 {
        assert!(matches_filter("a.*.c", "a.b.c"));
        assert!(!matches_filter("a.*.c", "a.b.b.c"));
    }
}
