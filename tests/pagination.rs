use autograder::pagination::RawPagination;
use autograder::util::{s, DivCeilPolyfill};

#[test]
fn page_size_out_of_range_is_refused() {
    for size in [0, 101, u32::MAX] {
        assert_eq!(
            RawPagination::from_query(Some(1), Some(size)).unwrap_err(),
            "Page size is out of range; valid range is 1..101"
        );
    }
    assert!(RawPagination::from_query(None, Some(1)).is_ok());
    assert!(RawPagination::from_query(None, Some(100)).is_ok());
}

#[test]
fn default_page_size_and_first_page() {
    let p = RawPagination::from_query(None, None).unwrap().with_default_page_size(20);
    assert_eq!(p.display_page(), 1);
    assert_eq!(p.limit(), 20);
    assert_eq!(p.offset(), 0);
    assert_eq!(p.query(), "page=0&page_size=20");
    let p = RawPagination::from_query(Some(3), Some(7)).unwrap().with_default_page_size(20);
    assert_eq!(p.limit(), 7);
    assert_eq!(p.offset(), 21);
    assert_eq!(p.query(), "page=3&page_size=7");
}

#[test]
fn page_counts() {
    let p = RawPagination::from_query(Some(0), Some(10)).unwrap().with_default_page_size(10);
    assert_eq!(p.num_pages(0), 1);
    assert_eq!(p.num_pages(1), 1);
    assert_eq!(p.num_pages(10), 1);
    assert_eq!(p.num_pages(11), 2);
    assert_eq!(p.num_pages(-5), 1);
    assert_eq!(p.num_pages(i64::MAX), 922337203685477581);
}

#[test]
fn previous_and_next_pages() {
    let p = RawPagination::from_query(Some(1), Some(10)).unwrap().with_default_page_size(10);
    assert_eq!(p.prev(25).unwrap().display_page(), 1);
    assert_eq!(p.next(25).unwrap().display_page(), 3);
    assert!(p.next(20).is_none());
    let first = RawPagination::from_query(Some(0), Some(10)).unwrap().with_default_page_size(10);
    assert!(first.prev(25).is_none());
    let far = RawPagination::from_query(Some(9), Some(10)).unwrap().with_default_page_size(10);
    assert_eq!(far.prev(25).unwrap().display_page(), 3);
    assert_eq!(far.prev(0).unwrap().display_page(), 9);
    let last = RawPagination::from_query(Some(u32::MAX), Some(1)).unwrap().with_default_page_size(10);
    assert!(last.next(i64::MAX).is_none());
    assert_eq!(last.prev(5).unwrap().display_page(), 5);
    assert_eq!(last.prev(i64::MAX).unwrap().display_page(), u32::MAX as i64);
}

#[test]
fn rounded_up_quotients() {
    assert_eq!(7i64.div_ceil_p(2), 4);
    assert_eq!(8i64.div_ceil_p(2), 4);
    assert_eq!((-7i64).div_ceil_p(2), -3);
    assert_eq!(7i64.div_ceil_p(-2), -3);
    assert_eq!((-7i64).div_ceil_p(-2), 4);
    assert_eq!(0i64.div_ceil_p(5), 0);
    assert_eq!(i64::MIN.div_ceil_p(2), i64::MIN / 2);
    assert_eq!(i64::MIN.div_ceil_p(-2), 1 << 62);
    assert_eq!(i64::MAX.div_ceil_p(1), i64::MAX);
}

#[test]
fn plural_suffix() {
    assert_eq!(s(1), "");
    assert_eq!(s(0), "s");
    assert_eq!(s(2), "s");
}
