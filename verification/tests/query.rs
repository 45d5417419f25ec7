use amulet::query::page_bounds;

#[test]
fn page_bounds_work() {
    let test_cases = [
        // no limits given, full range returned
        (100, None, None, Some((0, 100))),
        // page given, default limit used
        (100, Some(1), None, Some((10, 20))),
        // page and limit given
        (100, Some(1), Some(20), Some((20, 40))),
        // out of bounds start (valid range is 0-99)
        (100, Some(1), Some(100), None),
        // on the last page, the limit is ignored
        (55, Some(5), None, Some((50, 55))),
    ];

    for (total_count, page, limit, expect) in test_cases {
        assert_eq!(page_bounds(total_count, page, limit), expect);
    }
}
