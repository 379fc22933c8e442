use teddy_sync::instant::{cursor_millis, is_initial_sync, Instant, FIRST_SECOND, LAST_SECOND};
use teddy_sync::sync::config::cache::CachedConfig;
use teddy_sync::sync::download::{
    cut_page, first_read, reply_cursor, DownloadPage, DownloadQuery, ReplyCursor,
};
use teddy_sync::sync::grocery::remote_mutations::{cut_changed, Changed, ChangedPage};
use teddy_sync::sync::paging::{probe_limit, trim_page, trim_page_at, trim_size, Page, PageAt};

fn page(rows: &mut Vec<i64>, size: usize) -> Page {
    trim_page(rows, size, |ms| *ms)
}

#[test]
fn a_page_that_fits_is_left_alone() {
    let mut rows = vec![1, 2, 3];
    assert_eq!(page(&mut rows, 3), Page::Complete);
    assert_eq!(rows, vec![1, 2, 3]);

    let mut rows = vec![1, 2];
    assert_eq!(page(&mut rows, 3), Page::Complete);
    assert_eq!(rows, vec![1, 2]);
}

#[test]
fn one_row_over_the_page_truncates_and_reports_a_cursor() {
    let mut rows = vec![1, 2, 3, 4];
    assert_eq!(page(&mut rows, 3), Page::Truncated { next_cursor_ms: 3 });
    assert_eq!(rows, vec![1, 2, 3]);
}

#[test]
fn a_millisecond_split_by_the_page_edge_is_dropped_whole() {
    // The page edge falls inside the group at 3, which a `>` cursor cannot address
    // halfway through, so the whole group waits for the next round.
    let mut rows = vec![1, 2, 3, 3, 3];
    assert_eq!(page(&mut rows, 3), Page::Truncated { next_cursor_ms: 2 });
    assert_eq!(rows, vec![1, 2]);
}

#[test]
fn a_page_entirely_inside_one_millisecond_asks_for_the_whole_group() {
    let mut rows = vec![7, 7, 7, 7];
    assert_eq!(page(&mut rows, 3), Page::WholeMillisecond { ms: 7 });
}

#[test]
fn an_unpaged_read_asks_for_everything_and_never_truncates() {
    assert_eq!(probe_limit(None), i64::MAX);

    // The bound a client that cannot resume is served under: whatever the database
    // returns fits, so the cursor is never walked back.
    let mut rows = vec![1, 2, 3, 3, 3];
    assert_eq!(page(&mut rows, trim_size(None)), Page::Complete);
    assert_eq!(rows, vec![1, 2, 3, 3, 3]);
}

#[test]
fn a_paged_read_asks_for_one_row_past_the_page() {
    assert_eq!(probe_limit(Some(200)), 201);
    assert_eq!(trim_size(Some(200)), 200);
}

#[test]
fn an_absurd_page_size_does_not_wrap_the_limit_negative() {
    // A `LIMIT` that came back negative would be a query error rather than a large
    // page, so the saturation matters more than the number it saturates to.
    assert!(probe_limit(Some(usize::MAX)) > 0);
    assert_eq!(probe_limit(Some(usize::MAX)), i64::MAX);
}

fn at(secs: i64, nanos: u32) -> Instant {
    Instant { secs, nanos }
}

#[test]
fn a_page_of_instants_is_cut_to_the_microsecond() {
    let now = at(99, 0);
    let mut rows = vec![at(1, 0), at(2, 5_000), at(3, 0)];
    let page = trim_page_at(&mut rows, 2, |row| *row, now);
    assert_eq!(page, PageAt::Truncated { next_cursor: at(2, 5_000) });
    assert_eq!(rows, vec![at(1, 0), at(2, 5_000)]);

    // Before the epoch the microseconds count down, the nanoseconds still up.
    let mut rows = vec![at(-2, 999_999_000), at(-1, 0), at(0, 0)];
    let page = trim_page_at(&mut rows, 1, |row| *row, now);
    assert_eq!(page, PageAt::Truncated { next_cursor: at(-2, 999_999_000) });

    let mut rows = vec![at(4, 1_000), at(4, 1_000)];
    let page = trim_page_at(&mut rows, 1, |row| *row, now);
    assert_eq!(page, PageAt::WholeInstant { at: at(4, 1_000) });

    let mut rows = vec![at(4, 1_000)];
    assert_eq!(trim_page_at(&mut rows, 1, |row| *row, now), PageAt::Complete);
}

#[test]
fn instants_floor_to_milliseconds_and_microseconds() {
    assert_eq!(at(1, 2_345_678).timestamp_millis(), 1_002);
    assert_eq!(at(1, 2_345_678).timestamp_micros(), 1_002_345);
    assert_eq!(at(-1, 999_999_999).timestamp_millis(), -1);
    assert!(at(2, 0).after(at(1, 999_999_999)));
    assert!(at(2, 1).after(at(2, 0)));
    assert!(!at(2, 1).after(at(2, 1)));
}

#[test]
fn a_sync_from_the_epoch_is_a_first_sync() {
    assert!(is_initial_sync(None));
    assert!(is_initial_sync(Some(at(0, 0))));
    assert!(!is_initial_sync(Some(at(1_700_000_000, 0))));
    assert_eq!(cursor_millis(None), 0);
    assert_eq!(cursor_millis(Some(at(3, 4_000_000))), 3_004);
}

fn config(last_modified: i64) -> CachedConfig {
    CachedConfig {
        id: teddy_sync::ids::Uuid { bits: last_modified as u128 },
        user_id: teddy_sync::ids::Uuid { bits: 1 },
        device_uuid: teddy_sync::ids::Uuid { bits: 2 },
        client_uuid: teddy_sync::ids::Uuid { bits: 3 },
        version: 1,
        is_deleted: false,
        last_modified,
        sync_state: None,
        key: "k".to_string(),
        value: "v".to_string(),
    }
}

#[test]
fn a_download_is_read_one_row_past_its_page() {
    let query = first_read(Some(at(5, 0)), Some(2));
    assert_eq!(query.after_ms, 5_000);
    assert_eq!(query.through_ms, None);
    assert_eq!(query.limit, 3);
    assert_eq!(first_read(None, None).limit, i64::MAX);
}

#[test]
fn a_cut_download_is_resumed_from_its_last_row() {
    let query = first_read(None, Some(2));
    match cut_page(vec![config(10), config(20), config(30)], query, Some(2)) {
        DownloadPage::Serve { rows, next_cursor_ms } => {
            assert_eq!(rows.len(), 2);
            assert_eq!(next_cursor_ms, Some(20));
        }
        other => panic!("expected a page, got {:?}", other),
    }
    match cut_page(vec![config(10), config(20)], query, Some(2)) {
        DownloadPage::Serve { rows, next_cursor_ms } => {
            assert_eq!(rows.len(), 2);
            assert_eq!(next_cursor_ms, None);
        }
        other => panic!("expected a page, got {:?}", other),
    }
}

#[test]
fn a_millisecond_too_big_for_a_page_is_reread_whole() {
    let query = first_read(None, Some(1));
    match cut_page(vec![config(10), config(10)], query, Some(1)) {
        DownloadPage::Reread { query, ms } => {
            assert_eq!(ms, 10);
            assert_eq!(
                query,
                DownloadQuery {
                    after_ms: query.after_ms,
                    through_ms: Some(10),
                    include_own: query.include_own,
                    limit: i64::MAX,
                }
            );
        }
        other => panic!("expected a second read, got {:?}", other),
    }
}

#[test]
fn the_reply_walks_back_to_the_earliest_cut() {
    let server = at(100, 0);
    assert_eq!(
        reply_cursor(server, &vec![], &vec![]),
        ReplyCursor { server_timestamp: server, has_more: false }
    );
    assert_eq!(
        reply_cursor(server, &vec![7_000, 5_500], &vec![at(6, 1_000)]),
        ReplyCursor { server_timestamp: at(5, 500_000_000), has_more: true }
    );
    assert_eq!(
        reply_cursor(server, &vec![7_000, 5_500], &vec![at(5, 1_000)]),
        ReplyCursor { server_timestamp: at(5, 1_000), has_more: true }
    );
    assert_eq!(
        reply_cursor(server, &vec![-1], &vec![]).server_timestamp,
        at(-1, 999_000_000)
    );
}

#[test]
fn the_ends_of_the_calendar_are_reported_whole() {
    let now = at(0, 0);
    for secs in [FIRST_SECOND, LAST_SECOND] {
        let mut rows = vec![at(secs, 1_000), at(secs, 1_000)];
        let page = trim_page_at(&mut rows, 1, |row| *row, now);
        assert_eq!(page, PageAt::WholeInstant { at: at(secs, 1_000) });
    }
}

/// Asks until nothing more is announced, as a client does, and says what each reply brought.
fn come_back(millis: &Vec<i64>, instants: &Vec<Instant>, page: usize) -> Vec<(Vec<i64>, Vec<Instant>)> {
    let server = at(1_000, 0);
    let mut cursor = at(1, 0);
    let mut replies = vec![];
    for _ in 0..100 {
        let mut cut_ms = vec![];
        let mut cut_at = vec![];

        let query = first_read(Some(cursor), Some(page));
        let owed = |query: DownloadQuery| -> Vec<CachedConfig> {
            millis
                .iter()
                .filter(|ms| **ms > query.after_ms && query.through_ms.map_or(true, |t| **ms <= t))
                .take(query.limit as usize)
                .map(|ms| config(*ms))
                .collect()
        };
        let rows = match cut_page(owed(query), query, Some(page)) {
            DownloadPage::Serve { rows, next_cursor_ms } => {
                cut_ms.extend(next_cursor_ms);
                rows
            }
            DownloadPage::Reread { query, ms } => {
                cut_ms.push(ms);
                owed(query)
            }
        };

        let changed: Vec<Changed<u8>> = instants
            .iter()
            .filter(|i| i.after(cursor))
            .map(|i| Changed { row: 0, updated_at: *i, updated_by_client: None })
            .collect();
        let whole = |i: Instant| -> Vec<Instant> {
            instants.iter().filter(|other| **other == i).copied().collect()
        };
        let found: Vec<Instant> = match cut_changed(changed, Some(page), server) {
            ChangedPage::Serve { rows, next_cursor } => {
                cut_at.extend(next_cursor);
                rows.iter().map(|c| c.updated_at).collect()
            }
            ChangedPage::Reread { at } => {
                cut_at.push(at);
                whole(at)
            }
        };

        replies.push((rows.iter().map(|r| r.last_modified).collect(), found));
        let next = reply_cursor(server, &cut_ms, &cut_at);
        assert!(next.server_timestamp.after(cursor));
        cursor = next.server_timestamp;
        if !next.has_more {
            return replies;
        }
    }
    panic!("the client never catches up");
}

#[test]
fn coming_back_delivers_every_row() {
    // One millisecond holds more than a page, and the other table lags behind.
    let millis = vec![2_000, 3_000, 3_000, 3_000, 4_000, 5_000];
    let instants = vec![at(2, 0), at(2, 5_000), at(2, 6_000), at(9, 0)];
    let replies = come_back(&millis, &instants, 2);
    let mut got: Vec<i64> = replies.iter().flat_map(|r| r.0.clone()).collect();
    got.sort();
    got.dedup();
    assert_eq!(got, vec![2_000, 3_000, 4_000, 5_000]);
    assert!(replies.iter().any(|r| r.0 == vec![3_000, 3_000, 3_000]));
    for owed in instants {
        assert!(replies.iter().any(|r| r.1.contains(&owed)), "{:?}", owed);
    }
}

#[test]
fn one_table_is_never_delivered_twice() {
    let millis = vec![2_000, 3_000, 3_000, 3_000, 4_000, 5_000];
    let replies = come_back(&millis, &vec![], 2);
    let got: Vec<i64> = replies.iter().flat_map(|r| r.0.clone()).collect();
    assert_eq!(got, millis);
    assert_eq!(replies.len(), 3);
}

/// Asks as a client that starts without a cursor and comes back, out of rows that it wrote or
/// others did, and says what each reply brought.
fn first_sync(rows: &Vec<(i64, bool)>, page: usize) -> Vec<Vec<i64>> {
    let server = at(1_000, 0);
    let mut cursor = None;
    let mut replies = vec![];
    for _ in 0..100 {
        let query = first_read(cursor, Some(page));
        let read = |query: DownloadQuery| -> Vec<CachedConfig> {
            rows.iter()
                .filter(|(ms, own)| {
                    *ms > query.after_ms
                        && query.through_ms.map_or(true, |t| *ms <= t)
                        && (query.include_own || !*own)
                })
                .take(query.limit as usize)
                .map(|(ms, _)| config(*ms))
                .collect()
        };
        let (served, cut) = match cut_page(read(query), query, Some(page)) {
            DownloadPage::Serve { rows, next_cursor_ms } => (rows, next_cursor_ms),
            DownloadPage::Reread { query, ms } => (read(query), Some(ms)),
        };
        replies.push(served.iter().map(|r| r.last_modified).collect());
        let next = reply_cursor(server, &cut.into_iter().collect(), &vec![]);
        if !next.has_more {
            return replies;
        }
        cursor = Some(next.server_timestamp);
    }
    panic!("the client never catches up");
}

#[test]
fn a_first_sync_gets_its_own_rows_with_the_first_reply() {
    let rows =
        vec![(2_000, true), (3_000, false), (4_000, true), (5_000, false), (6_000, true), (7_000, false)];
    assert_eq!(first_sync(&rows, 2), vec![vec![2_000, 3_000], vec![5_000, 7_000]]);
    // A reply that is not cut brings everything.
    assert_eq!(first_sync(&rows, 6), vec![vec![2_000, 3_000, 4_000, 5_000, 6_000, 7_000]]);
}
