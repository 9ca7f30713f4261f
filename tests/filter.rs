use reservation::{
    Error, FilterPager, PageInfo, Reservation, ReservationFilter, ReservationFilterBuilder,
    ReservationStatus, Timestamp, ToSql,
};

fn row(id: i64) -> Reservation {
    let mut r = Reservation::new_pending(
        "alice",
        "room",
        Timestamp::new(100, 0),
        Timestamp::new(200, 0),
        "",
    );
    r.id = id;
    r
}

fn rows(ids: &[i64]) -> Vec<Reservation> {
    ids.iter().map(|&i| row(i)).collect()
}

fn ids(v: &[Reservation]) -> Vec<i64> {
    v.iter().map(|r| r.id).collect()
}

#[test]
fn test_i64_default() {
    let ss: i64 = Default::default();
    println!("{}", ss);
    assert_eq!(ss, 0);
}

#[test]
fn filter_should_generate_correct_page() {}

#[test]
fn filter_should_generate_correct_sql() {
    let filter = ReservationFilterBuilder::default()
        .user_id("tyrchen")
        .build()
        .unwrap();

    let sql = filter.to_sql();

    assert_eq!(sql, "SELECT * FROM rsvp.reservations WHERE status = 'pending'::rsvp.reservation_status AND id > 0 AND user_id = 'tyrchen' ORDER BY id ASC LIMIT 11")
}

#[test]
fn filter_sql_descending_with_cursor_and_both_ids() {
    let filter = ReservationFilterBuilder::default()
        .user_id("alice")
        .resource_id("room-1")
        .status(ReservationStatus::Confirmed as i32)
        .cursor(42)
        .page_size(20)
        .desc(true)
        .build()
        .unwrap();
    assert_eq!(
        filter.to_sql(),
        "SELECT * FROM rsvp.reservations WHERE status = 'confirmed'::rsvp.reservation_status AND id < 42 AND user_id = 'alice' AND resource_id = 'room-1' ORDER BY id DESC LIMIT 22"
    );
}

#[test]
fn filter_sql_without_ids_or_cursor_descending() {
    let filter = ReservationFilterBuilder::default()
        .status(ReservationStatus::Blocked as i32)
        .desc(true)
        .build()
        .unwrap();
    assert_eq!(
        filter.to_sql(),
        "SELECT * FROM rsvp.reservations WHERE status = 'blocked'::rsvp.reservation_status AND id < 9223372036854775807 AND TRUE ORDER BY id DESC LIMIT 11"
    );
}

#[test]
fn filter_sql_resource_only() {
    let filter = ReservationFilterBuilder::default()
        .resource_id("ixia-3230")
        .page_size(100)
        .build()
        .unwrap();
    assert_eq!(
        filter.to_sql(),
        "SELECT * FROM rsvp.reservations WHERE status = 'pending'::rsvp.reservation_status AND id > 0 AND resource_id = 'ixia-3230' ORDER BY id ASC LIMIT 101"
    );
}

#[test]
fn filter_validation_reports_each_error() {
    let small = ReservationFilterBuilder::default().page_size(9).build();
    assert_eq!(small.unwrap_err(), Error::InvalidPageSize(9));
    let large = ReservationFilterBuilder::default().page_size(101).build();
    assert_eq!(large.unwrap_err(), Error::InvalidPageSize(101));
    let cursor = ReservationFilterBuilder::default().cursor(0).build();
    assert_eq!(cursor.unwrap_err(), Error::InvalidCursor(0));
    let status = ReservationFilterBuilder::default().status(7).build();
    assert_eq!(status.unwrap_err(), Error::InvalidStatus(7));
    let both = ReservationFilterBuilder::default().page_size(5).cursor(-3).build();
    assert_eq!(both.unwrap_err(), Error::InvalidPageSize(5));
}

#[test]
fn normalize_turns_unknown_into_pending() {
    let mut f = ReservationFilter {
        page_size: 10,
        status: ReservationStatus::Unknown as i32,
        ..Default::default()
    };
    assert_eq!(f.normalize(), Ok(()));
    assert_eq!(f.status, ReservationStatus::Pending as i32);
    assert_eq!(f.get_status(), ReservationStatus::Pending);

    let mut bad = ReservationFilter { page_size: 0, ..Default::default() };
    assert_eq!(bad.normalize(), Err(Error::InvalidPageSize(0)));
    assert_eq!(bad.status, ReservationStatus::Unknown as i32);
}

#[test]
fn get_cursor_defaults_by_direction() {
    let asc = ReservationFilter { page_size: 10, ..Default::default() };
    assert_eq!(asc.get_cursor(), 0);
    let desc = ReservationFilter { page_size: 10, desc: true, ..Default::default() };
    assert_eq!(desc.get_cursor(), i64::MAX);
    let given = ReservationFilter { page_size: 10, cursor: Some(17), ..Default::default() };
    assert_eq!(given.get_cursor(), 17);
}

#[test]
fn pager_first_page_with_more_rows() {
    let f = ReservationFilterBuilder::default().build().unwrap();
    let mut data = rows(&(1..=11).collect::<Vec<i64>>());
    let pager = f.get_pager(&mut data);
    assert_eq!(ids(&data), (1..=10).collect::<Vec<i64>>());
    assert_eq!(pager, FilterPager { prev: None, next: Some(10), total: 0 });
}

#[test]
fn pager_last_page_has_no_next() {
    let f = ReservationFilterBuilder::default().build().unwrap();
    let mut data = rows(&[3, 4, 5]);
    let pager = f.get_pager(&mut data);
    assert_eq!(ids(&data), vec![3, 4, 5]);
    assert_eq!(pager, FilterPager { prev: None, next: None, total: 0 });
}

#[test]
fn pager_drops_cursor_row_and_trims() {
    let f = ReservationFilterBuilder::default().cursor(10).build().unwrap();
    let mut data = rows(&(10..=21).collect::<Vec<i64>>());
    let pager = f.get_pager(&mut data);
    assert_eq!(ids(&data), (11..=20).collect::<Vec<i64>>());
    assert_eq!(pager, FilterPager { prev: Some(10), next: Some(20), total: 0 });
}

#[test]
fn pager_trims_over_fetch_after_cursor() {
    let f = ReservationFilterBuilder::default().cursor(10).build().unwrap();
    let mut data = rows(&(11..=22).collect::<Vec<i64>>());
    let pager = f.get_pager(&mut data);
    assert_eq!(ids(&data), (11..=20).collect::<Vec<i64>>());
    assert_eq!(pager.next, Some(20));
    assert_eq!(pager.prev, Some(10));
}

#[test]
fn next_page_moves_the_cursor() {
    let f = ReservationFilterBuilder::default().user_id("alice").build().unwrap();
    let next = f
        .next_page(&FilterPager { prev: None, next: Some(10), total: 0 })
        .unwrap();
    assert_eq!(next.cursor, Some(10));
    assert_eq!(next.user_id, "alice");
    assert_eq!(next.page_size, 10);
    assert!(f.next_page(&FilterPager { prev: None, next: None, total: 0 }).is_none());

    let info = PageInfo { cursor: None, page_size: 10, desc: true };
    let moved = info.next_page(&FilterPager { prev: None, next: Some(90), total: 0 });
    assert_eq!(moved, Some(PageInfo { cursor: Some(90), page_size: 10, desc: true }));
}
