use chrono::{DateTime, FixedOffset};
use reservation::{
    Error, MemoryStore, Reservation, ReservationConflict, ReservationConflictInfo,
    ReservationFilterBuilder, ReservationQuery, ReservationStatus, ReservationWindow, StoreFault,
    Timestamp,
};

fn ts(s: &str) -> Timestamp {
    let t: DateTime<FixedOffset> = s.parse().unwrap();
    Timestamp::new(t.timestamp(), t.timestamp_subsec_nanos() as i32)
}

fn make_reservation(
    store: &mut MemoryStore,
    uid: &str,
    rid: &str,
    start: &str,
    end: &str,
    note: &str,
) -> Reservation {
    let rsvp = Reservation::new_pending(uid, rid, ts(start), ts(end), note);
    store.reserve(rsvp).unwrap()
}

fn make_ssk_reservation(store: &mut MemoryStore) -> Reservation {
    make_reservation(
        store,
        "sskid",
        "ocean-view-room-713",
        "2022-12-25T15:00:00-0700",
        "2022-12-28T12:00:00-0700",
        "I'll arrive at 3pm. Please help to upgrade to execuitive room if possible.",
    )
}

fn make_alice_reservation(store: &mut MemoryStore) -> Reservation {
    make_reservation(
        store,
        "aliceid",
        "ixia-test-1",
        "2023-01-25T15:00:00-0700",
        "2023-02-25T12:00:00-0700",
        "I need to book this for xyz project for a month.",
    )
}

#[test]
fn reserve_should_work_for_valid_window() {
    let mut store = MemoryStore::new();
    let rsvp = make_ssk_reservation(&mut store);
    println!("{:?}", rsvp);
    assert_eq!(rsvp.resource_id, "ocean-view-room-713");
    assert_eq!(rsvp.user_id, "sskid");
    assert_eq!(rsvp.id, 1);
    assert_eq!(rsvp.status, ReservationStatus::Pending as i32);
    assert_eq!(rsvp.start, Some(ts("2022-12-25T15:00:00-0700")));
    assert_eq!(rsvp.end, Some(ts("2022-12-28T12:00:00-0700")));
}

#[test]
fn reserve_conflict_reservation_should_reject() {
    let mut store = MemoryStore::new();
    let rsvp = make_ssk_reservation(&mut store);
    let rsvp2 = Reservation::new_pending(
        "aliceid",
        "ocean-view-room-713",
        ts("2022-12-25T15:00:00-0700"),
        ts("2022-12-27T12:00:00-0700"),
        "I'll arrive at 3pm. Please help to upgrade to execuitive room if possible.",
    );
    println!("rsvp: {:?}", rsvp);
    let err = store.reserve(rsvp2).unwrap_err();
    let info = ReservationConflictInfo::Parsed(ReservationConflict {
        new: ReservationWindow {
            rid: "ocean-view-room-713".to_string(),
            start: ts("2022-12-25T15:00:00-0700"),
            end: ts("2022-12-27T12:00:00-0700"),
        },
        old: ReservationWindow {
            rid: "ocean-view-room-713".to_string(),
            start: ts("2022-12-25T15:00:00-0700"),
            end: ts("2022-12-28T12:00:00-0700"),
        },
    });
    assert_eq!(err, Error::ConflictReservation(info));
    assert_eq!(store.len(), 1);
}

#[test]
fn adjacent_and_other_resource_reservations_do_not_conflict() {
    let mut store = MemoryStore::new();
    make_ssk_reservation(&mut store);
    let after = Reservation::new_pending(
        "aliceid",
        "ocean-view-room-713",
        ts("2022-12-28T12:00:00-0700"),
        ts("2022-12-29T12:00:00-0700"),
        "",
    );
    assert_eq!(store.reserve(after).unwrap().id, 2);
    let other = Reservation::new_pending(
        "aliceid",
        "ocean-view-room-714",
        ts("2022-12-25T15:00:00-0700"),
        ts("2022-12-28T12:00:00-0700"),
        "",
    );
    assert_eq!(store.reserve(other).unwrap().id, 3);
    let overlapping = Reservation::new_pending(
        "bob",
        "ocean-view-room-713",
        ts("2022-12-28T11:59:59-0700"),
        ts("2022-12-28T12:00:01-0700"),
        "",
    );
    assert!(matches!(store.reserve(overlapping), Err(Error::ConflictReservation(_))));
    assert_eq!(store.len(), 3);
}

#[test]
fn reserve_with_bad_window_leaves_store_unchanged() {
    let mut store = MemoryStore::new();
    make_ssk_reservation(&mut store);
    let reversed = Reservation::new_pending(
        "bob",
        "room",
        ts("2022-12-28T12:00:00-0700"),
        ts("2022-12-25T12:00:00-0700"),
        "",
    );
    assert_eq!(store.reserve(reversed), Err(Error::InvalidTime));
    let mut empty = Reservation::new_pending("bob", "room", Timestamp::new(5, 0), Timestamp::new(5, 0), "");
    assert_eq!(store.reserve(empty.clone()), Err(Error::InvalidTime));
    empty.start = None;
    assert_eq!(store.reserve(empty), Err(Error::InvalidTime));
    assert_eq!(store.len(), 1);
    let next = make_alice_reservation(&mut store);
    assert_eq!(next.id, 2);
}

#[test]
fn reserve_keeps_a_known_status_and_defaults_the_rest() {
    let mut store = MemoryStore::new();
    let mut blocked = Reservation::new_pending("ops", "r1", Timestamp::new(0, 0), Timestamp::new(10, 0), "");
    blocked.status = ReservationStatus::Blocked as i32;
    assert_eq!(store.reserve(blocked).unwrap().status, ReservationStatus::Blocked as i32);
    let mut unknown = Reservation::new_pending("ops", "r2", Timestamp::new(0, 0), Timestamp::new(10, 0), "");
    unknown.status = ReservationStatus::Unknown as i32;
    assert_eq!(store.reserve(unknown).unwrap().status, ReservationStatus::Pending as i32);
    let mut blocked_overlap = Reservation::new_pending("ops", "r1", Timestamp::new(5, 0), Timestamp::new(15, 0), "");
    blocked_overlap.status = ReservationStatus::Confirmed as i32;
    assert!(store.reserve(blocked_overlap).is_err());
}

#[test]
fn change_status_should_work() {
    let mut store = MemoryStore::new();
    let rsvp = make_alice_reservation(&mut store);
    println!("rsvp: {:?}", rsvp);
    let id = rsvp.id;
    let rsvp = store.change_status(id).unwrap();
    assert_eq!(rsvp.status, ReservationStatus::Confirmed as i32);
}

#[test]
fn reserve_change_status_not_pending_shhou_do_nothing() {
    let mut store = MemoryStore::new();
    let rsvp = make_alice_reservation(&mut store);
    println!("rsvp: {:?}", rsvp);
    let first = store.change_status(rsvp.id).unwrap();
    // change status again should do nothing
    let second = store.change_status(first.id).unwrap();
    assert_eq!(second.status, ReservationStatus::Confirmed as i32);
    assert_eq!(first, second);
}

#[test]
fn change_status_leaves_blocked_rows_alone() {
    let mut store = MemoryStore::new();
    let mut blocked = Reservation::new_pending("ops", "r1", Timestamp::new(0, 0), Timestamp::new(10, 0), "");
    blocked.status = ReservationStatus::Blocked as i32;
    let stored = store.reserve(blocked).unwrap();
    let after = store.change_status(stored.id).unwrap();
    assert_eq!(after.status, ReservationStatus::Blocked as i32);
}

#[test]
fn update_note_should_work() {
    let mut store = MemoryStore::new();
    let rsvp = make_alice_reservation(&mut store);
    println!("r: {:?}", rsvp);
    let r = store.update_note(rsvp.id, "new note".to_string()).unwrap();
    assert_eq!(r.note, "new note");
    assert_eq!(store.get(rsvp.id).unwrap().note, "new note");
}

#[test]
fn delete_reservation_should_work() {
    let mut store = MemoryStore::new();
    let rsvp = make_alice_reservation(&mut store);
    println!("r: {:?}", rsvp);
    let r = store.delete(rsvp.id);
    assert!(r.is_ok());
    assert_eq!(r.unwrap(), rsvp);
    assert_eq!(store.get(rsvp.id), Err(Error::NotFound));
    assert_eq!(store.delete(rsvp.id), Err(Error::NotFound));
}

#[test]
fn get_reservation_by_id_should_work() {
    let mut store = MemoryStore::new();
    let rsvp = make_alice_reservation(&mut store);
    println!("r: {:?}", rsvp);
    let r = store.get(rsvp.id).unwrap();
    assert_eq!(r.id, rsvp.id);
    assert_eq!(r, rsvp);
}

#[test]
fn id_operations_reject_bad_ids() {
    let mut store = MemoryStore::new();
    assert_eq!(store.get(0), Err(Error::InvalidReservationId(0)));
    assert_eq!(store.change_status(-1), Err(Error::InvalidReservationId(-1)));
    assert_eq!(store.update_note(0, String::new()), Err(Error::InvalidReservationId(0)));
    assert_eq!(store.delete(-9), Err(Error::InvalidReservationId(-9)));
    assert_eq!(store.get(3), Err(Error::NotFound));
    assert_eq!(store.change_status(3), Err(Error::NotFound));
    assert_eq!(store.update_note(3, String::new()), Err(Error::NotFound));
}

#[test]
fn query_reservations_should_work() {
    let mut store = MemoryStore::new();
    let rsvp = make_alice_reservation(&mut store);
    let query = ReservationQuery {
        user_id: "aliceid".to_string(),
        start: Some(ts("2021-11-01T15:00:00-0700")),
        end: Some(ts("2023-12-31T12:00:00-0700")),
        status: ReservationStatus::Pending as i32,
        ..Default::default()
    };
    let rows = store.query(&query).unwrap();
    assert_eq!(rows, vec![rsvp.clone()]);

    // if window is not in range, should return empty
    let query = ReservationQuery {
        user_id: "aliceid".to_string(),
        start: Some(ts("2023-01-01T15:00:00-0700")),
        end: Some(ts("2023-02-01T12:00:00-0700")),
        status: ReservationStatus::Confirmed as i32,
        ..Default::default()
    };
    assert!(store.query(&query).unwrap().is_empty());

    // if status is not in correct, should return empty
    let query = ReservationQuery {
        user_id: "aliceid".to_string(),
        start: Some(ts("2021-11-01T15:00:00-0700")),
        end: Some(ts("2023-12-31T12:00:00-0700")),
        status: ReservationStatus::Confirmed as i32,
        ..Default::default()
    };
    assert!(store.query(&query).unwrap().is_empty());

    // change state to confirmed, query should get result
    let rsvp = store.change_status(rsvp.id).unwrap();
    assert_eq!(store.query(&query).unwrap(), vec![rsvp]);
}

#[test]
fn query_with_unknown_status_and_open_window_matches_all() {
    let mut store = MemoryStore::new();
    let a = make_alice_reservation(&mut store);
    let b = make_ssk_reservation(&mut store);
    let all = ReservationQuery::default();
    assert_eq!(store.query(&all).unwrap(), vec![a.clone(), b.clone()]);
    let desc = ReservationQuery { desc: true, ..Default::default() };
    assert_eq!(store.query(&desc).unwrap(), vec![b, a]);
    let bad = ReservationQuery {
        start: Some(Timestamp::new(10, 0)),
        end: Some(Timestamp::new(10, 0)),
        ..Default::default()
    };
    assert_eq!(store.query(&bad), Err(Error::InvalidTime));
}

#[test]
fn filter_reservations_should_work() {
    let mut store = MemoryStore::new();
    let rsvp = make_alice_reservation(&mut store);
    let filter = ReservationFilterBuilder::default()
        .user_id("aliceid")
        .status(ReservationStatus::Pending as i32)
        .build()
        .unwrap();
    let (pager, rsvps) = store.filter(filter).unwrap();
    assert_eq!(pager.prev, None);
    assert_eq!(pager.next, None);
    assert_eq!(rsvps.len(), 1);
    assert_eq!(rsvp, rsvps[0]);
}

fn make_many(store: &mut MemoryStore, count: i64) {
    for i in 0..count {
        let rsvp = Reservation::new_pending(
            "alice",
            &format!("router-{}", i),
            ts("2022-12-26T15:00:00-0700"),
            ts("2022-12-30T12:00:00-0700"),
            &format!("test device reservation {}", i),
        );
        let ret = store.reserve(rsvp).unwrap();
        assert_eq!(ret.id, i + 1);
    }
}

#[test]
fn filter_pages_follow_next() {
    let mut store = MemoryStore::new();
    make_many(&mut store, 100);
    let filter = ReservationFilterBuilder::default()
        .user_id("alice")
        .status(ReservationStatus::Pending as i32)
        .build()
        .unwrap();
    let (pager, page) = store.filter(filter.clone()).unwrap();
    assert_eq!(page.len(), 10);
    assert_eq!(pager.prev, None);
    assert_eq!(pager.next, Some(page[9].id));
    assert_eq!(pager.next, Some(10));

    let next = filter.next_page(&pager).unwrap();
    let (pager2, page2) = store.filter(next).unwrap();
    let ids: Vec<i64> = page2.iter().map(|r| r.id).collect();
    assert_eq!(ids, (11..=20).collect::<Vec<i64>>());
    assert_eq!(pager2.prev, Some(10));
    assert_eq!(pager2.next, Some(20));
}

#[test]
fn filter_pages_concatenate_to_full_result() {
    let mut store = MemoryStore::new();
    make_many(&mut store, 35);
    for desc in [false, true] {
        let mut filter = ReservationFilterBuilder::default()
            .user_id("alice")
            .desc(desc)
            .build()
            .unwrap();
        let mut seen = Vec::new();
        let mut pages = 0;
        loop {
            let (pager, page) = store.filter(filter.clone()).unwrap();
            pages += 1;
            seen.extend(page.iter().map(|r| r.id));
            match filter.next_page(&pager) {
                Some(f) => filter = f,
                None => break,
            }
        }
        let mut expected: Vec<i64> = (1..=35).collect();
        if desc {
            expected.reverse();
        }
        assert_eq!(seen, expected);
        assert_eq!(pages, 4);
    }
}

#[test]
fn filter_rejects_invalid_filters() {
    let store = MemoryStore::new();
    let f = reservation::ReservationFilter { page_size: 5, ..Default::default() };
    assert_eq!(store.filter(f), Err(Error::InvalidPageSize(5)));
}

#[test]
fn store_fault_classification() {
    let detail = "Key (resource_id, timespan)=(ocean-view-room-713, [\"2022-12-26 22:00:00+00\",\"2022-12-30 19:00:00+00\")) conflicts with existing key (resource_id, timespan)=(ocean-view-room-713, [\"2022-12-25 22:00:00+00\",\"2022-12-28 19:00:00+00\")).";
    let fault = StoreFault::Database {
        code: "23P01".to_string(),
        schema: Some("rsvp".to_string()),
        table: Some("reservations".to_string()),
        detail: Some(detail.to_string()),
        message: "conflicting key value violates exclusion constraint".to_string(),
    };
    let expected = ReservationConflictInfo::Parsed(ReservationConflict {
        new: ReservationWindow {
            rid: "ocean-view-room-713".to_string(),
            start: ts("2022-12-26T15:00:00-0700"),
            end: ts("2022-12-30T12:00:00-0700"),
        },
        old: ReservationWindow {
            rid: "ocean-view-room-713".to_string(),
            start: ts("2022-12-25T15:00:00-0700"),
            end: ts("2022-12-28T12:00:00-0700"),
        },
    });
    assert_eq!(Error::from_store_fault(fault), Error::ConflictReservation(expected));

    let other_table = StoreFault::Database {
        code: "23P01".to_string(),
        schema: Some("public".to_string()),
        table: Some("reservations".to_string()),
        detail: Some(detail.to_string()),
        message: "boom".to_string(),
    };
    assert_eq!(Error::from_store_fault(other_table), Error::DbError("boom".to_string()));
    assert_eq!(Error::from_store_fault(StoreFault::RowNotFound), Error::NotFound);
    assert_eq!(
        Error::from_store_fault(StoreFault::Other("pool timed out".to_string())),
        Error::DbError("pool timed out".to_string())
    );
}

#[test]
fn conflict_parse_reads_both_windows_in_order() {
    let detail = "Key (resource_id, timespan)=(a, [\"2022-12-25 22:00:00+00\",\"2022-12-28 19:00:00+00\")) conflicts with existing key (resource_id, timespan)=(b, [\"2022-12-25 22:00:00+00\",\"2022-12-28 19:00:00+00\")).";
    match ReservationConflictInfo::parse(detail) {
        ReservationConflictInfo::Parsed(c) => {
            assert_eq!(c.new.rid, "a");
            assert_eq!(c.old.rid, "b");
            assert_eq!(c.new.start, Timestamp::new(1672005600, 0));
            assert_eq!(c.new.end, c.old.end);
        }
        other => panic!("not parsed: {:?}", other),
    }
}

#[test]
fn conflict_parse_keeps_unreadable_text() {
    for raw in [
        "",
        "something else entirely",
        "Key (resource_id, timespan)=(a, [\"not a time\",\"2022-12-28 19:00:00+00\")) conflicts with existing key (resource_id, timespan)=(b, [\"2022-12-25 22:00:00+00\",\"2022-12-28 19:00:00+00\")).",
        "Key (resource_id, timespan)=(a, [\"2022-12-25 22:00:00+00\",\"2022-12-28 19:00:00+00\")) conflicts with existing key (resource_id, timespan)=(b, [\"2022-12-25 22:00:00+00\",\"2022-12-28 19:00:00+00\"))",
    ] {
        assert_eq!(
            ReservationConflictInfo::parse(raw),
            ReservationConflictInfo::Unparsed(raw.to_string())
        );
    }
}
