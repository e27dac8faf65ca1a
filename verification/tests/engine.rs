use ro_soku::error::ExchangeError;
use ro_soku::exchange::{
    determine_sort_order, next_window, retrieve_mock, Kline, MockExchange, RequestWindow,
};
use ro_soku::order::Order;

fn row(ts: i64) -> Kline {
    Kline {
        unixtime_msec: ts,
        o: "1".to_string(),
        h: "2".to_string(),
        l: "0".to_string(),
        c: "1".to_string(),
        v: "9".to_string(),
    }
}

fn mock(rows: Vec<Kline>, limit: usize, descending: bool, fail_on_request: Option<u64>) -> MockExchange {
    MockExchange { rows, limit, descending, fail_on_request }
}

#[test]
fn engine_determine_sort_order() {
    assert_eq!(determine_sort_order(&row(1), &row(2)), Order::Asc);
    assert_eq!(determine_sort_order(&row(2), &row(1)), Order::Desc);
}

#[test]
fn engine_descending_page_narrows_end() {
    // A first page in descending time order must narrow the window's end,
    // not its start.
    let w = RequestWindow { start: 0, end: 1000 };
    let page = vec![row(1000), row(990)];
    let next = next_window(&w, &page, 10).unwrap();
    assert_eq!(next.start, 0);
    assert_eq!(next.end, 980);
}

#[test]
fn engine_descending_terminates_below_start() {
    // Once the computed next end falls below the window's start, the
    // retrieval stops.
    let w = RequestWindow { start: 985, end: 1000 };
    let page = vec![row(1000), row(990)];
    assert_eq!(next_window(&w, &page, 10), None);
}

#[test]
fn engine_ascending_page_raises_start() {
    let w = RequestWindow { start: 0, end: 1000 };
    let page = vec![row(0), row(10)];
    let next = next_window(&w, &page, 10).unwrap();
    assert_eq!(next.start, 20);
    assert_eq!(next.end, 1000);
}

#[test]
fn engine_short_page_continues_inside_window() {
    // A page shorter than any limit still continues while the next boundary
    // stays inside the window: the decision reads only the boundary.
    let w = RequestWindow { start: 0, end: 1000 };
    let page = vec![row(0), row(10)];
    assert!(next_window(&w, &page, 10).is_some());
}

#[test]
fn engine_single_row_page_stops() {
    let w = RequestWindow { start: 0, end: 1000 };
    let page = vec![row(0)];
    assert_eq!(next_window(&w, &page, 10), None);
}

#[test]
fn engine_covers_window_ascending() {
    // Coverage: every mock row inside the window comes back exactly once.
    let rows: Vec<Kline> = (0..7).map(|i| row(i * 10)).collect();
    let src = mock(rows.clone(), 2, false, None);
    let w = RequestWindow { start: 0, end: 60 };
    let (got, _reqs) = retrieve_mock(&src, &w, 10).unwrap();
    assert_eq!(got, rows);
    let mut seen = std::collections::HashSet::new();
    for r in &got {
        assert!(seen.insert(r.unixtime_msec), "duplicate timestamp");
    }
}

#[test]
fn engine_covers_window_descending() {
    let rows: Vec<Kline> = (0..7).map(|i| row(i * 10)).collect();
    let mut expected = rows.clone();
    expected.reverse();
    let src = mock(rows, 3, true, None);
    let w = RequestWindow { start: 0, end: 60 };
    let (got, _reqs) = retrieve_mock(&src, &w, 10).unwrap();
    assert_eq!(got, expected);
}

#[test]
fn engine_rerun_yields_same_rows() {
    // Idempotence: the same call against the same mock data returns the
    // same rows.
    let rows: Vec<Kline> = (0..9).map(|i| row(i * 10)).collect();
    let w = RequestWindow { start: 0, end: 80 };
    let first = retrieve_mock(&mock(rows.clone(), 4, false, None), &w, 10).unwrap();
    let second = retrieve_mock(&mock(rows, 4, false, None), &w, 10).unwrap();
    assert_eq!(first, second);
}

#[test]
fn engine_short_page_issues_one_more_request() {
    // A short final page whose next boundary stays inside the window makes
    // the engine fetch once more: a failure injected at the second request
    // is observed.
    let rows = vec![row(0), row(10)];
    let w = RequestWindow { start: 0, end: 100 };
    let src = mock(rows.clone(), 5, false, None);
    let (got, reqs) = retrieve_mock(&src, &w, 10).unwrap();
    assert_eq!(got, rows);
    assert_eq!(reqs, 2);

    let src = mock(rows, 5, false, Some(2));
    assert_eq!(retrieve_mock(&src, &w, 10), Err(ExchangeError::RateLimited));
}

#[test]
fn engine_boundary_cross_is_conclusive() {
    // A page whose advancing boundary crosses the window's end stops the
    // retrieval without a further call: a failure armed for a second
    // request is never reached.
    let rows = vec![row(0), row(10)];
    let w = RequestWindow { start: 0, end: 15 };
    let src = mock(rows.clone(), 5, false, Some(2));
    let (got, reqs) = retrieve_mock(&src, &w, 10).unwrap();
    assert_eq!(got, rows);
    assert_eq!(reqs, 1);
}

#[test]
fn engine_error_aborts_without_partial_rows() {
    // A throttled second page aborts the whole call: the error comes back
    // and no rows from the first page survive.
    let rows = vec![row(0), row(10), row(20), row(30)];
    let w = RequestWindow { start: 0, end: 100 };
    let src = mock(rows, 2, false, Some(2));
    let result = retrieve_mock(&src, &w, 10);
    assert_eq!(result, Err(ExchangeError::RateLimited));
}

#[test]
fn engine_sort_orders_rows() {
    let data = vec![row(30), row(10), row(20)];
    let asc = Order::sort(data.clone(), &Order::Asc);
    assert_eq!(
        asc.iter().map(|k| k.unixtime_msec).collect::<Vec<_>>(),
        vec![10, 20, 30]
    );
    let desc = Order::sort(data, &Order::Desc);
    assert_eq!(
        desc.iter().map(|k| k.unixtime_msec).collect::<Vec<_>>(),
        vec![30, 20, 10]
    );
}
