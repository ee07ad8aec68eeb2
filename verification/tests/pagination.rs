use ironcurtain::error::Error;
use ironcurtain::page::{assemble_page, assemble_page_strict, Page};
use ironcurtain::paginate::{traverse, Paginator};

fn page(items: Vec<i64>, current: &str, next: Option<&str>) -> Page<i64> {
    Page {
        items,
        current: current.to_string(),
        next: next.map(|s| s.to_string()),
        prev: None,
        first: current.to_string(),
        last: None,
    }
}

#[test]
fn single_page_fetch_no_link_header() {
    let body = "[{\"id\":1},{\"id\":2}]";
    let items: Vec<serde_json::Value> = serde_json::from_str(body).unwrap();
    let url = "https://canvas.example.edu/api/v1/courses";
    let p = assemble_page(items, None, url).unwrap();
    assert_eq!(p.items.len(), 2);
    assert_eq!(p.items[0]["id"], 1);
    assert_eq!(p.items[1]["id"], 2);
    assert!(p.next.is_none());
    assert!(p.prev.is_none());
    assert!(p.last.is_none());
    assert_eq!(p.current, url);
    assert_eq!(p.first, url);
}

#[test]
fn assemble_with_link_header() {
    let header = "<https://h/p2>; rel=\"next\", <https://h/p9>; rel=\"last\", \
                  <https://h/p1>; rel=\"current\"";
    let p = assemble_page(vec![10i64, 20], Some(header), "https://h/request").unwrap();
    assert_eq!(p.items, vec![10, 20]);
    assert_eq!(p.current, "https://h/p1");
    assert_eq!(p.next.as_deref(), Some("https://h/p2"));
    assert_eq!(p.last.as_deref(), Some("https://h/p9"));
    assert!(p.prev.is_none());
    // no rel="first": falls back to the request URL
    assert_eq!(p.first, "https://h/request");
}

#[test]
fn assemble_malformed_header() {
    let r = assemble_page(vec![1i64], Some("<https://h/a>"), "https://h/r");
    assert!(matches!(r, Err(Error::MalformedLinkHeader)));
}

#[test]
fn assemble_strict_missing_header() {
    let r = assemble_page_strict(vec![1i64], None, "https://h/r");
    assert!(matches!(r, Err(Error::MissingLinkHeader)));
}

#[test]
fn assemble_strict_with_header() {
    let p = assemble_page_strict(vec![1i64], Some("<https://h/n>; rel=\"next\""), "https://h/r")
        .unwrap();
    assert_eq!(p.next.as_deref(), Some("https://h/n"));
}

fn three_page_plan() -> Vec<(String, Result<Page<i64>, Error>)> {
    vec![
        ("https://h/p1".to_string(), Ok(page(vec![1, 2], "https://h/p1", Some("https://h/p2")))),
        ("https://h/p2".to_string(), Ok(page(vec![3, 4], "https://h/p2", Some("https://h/p3")))),
        ("https://h/p3".to_string(), Ok(page(vec![5, 6], "https://h/p3", None))),
    ]
}

#[test]
fn multi_page_traversal() {
    let out = traverse(three_page_plan(), "https://h/p1".to_string());
    assert_eq!(out.len(), 6);
    let items: Vec<i64> = out.into_iter().map(|r| r.unwrap()).collect();
    assert_eq!(items, vec![1, 2, 3, 4, 5, 6]);
}

#[test]
fn mid_traversal_failure() {
    let plan: Vec<(String, Result<Page<i64>, Error>)> = vec![
        ("https://h/p1".to_string(), Ok(page(vec![1, 2], "https://h/p1", Some("https://h/p2")))),
        (
            "https://h/p2".to_string(),
            Err(Error::RequestFailure { cause: "connection reset".to_string() }),
        ),
        ("https://h/p3".to_string(), Ok(page(vec![5, 6], "https://h/p3", None))),
    ];
    let out = traverse(plan, "https://h/p1".to_string());
    assert_eq!(out.len(), 3);
    assert_eq!(out[0], Ok(1));
    assert_eq!(out[1], Ok(2));
    assert_eq!(out[2], Err(Error::RequestFailure { cause: "connection reset".to_string() }));
}

#[test]
fn idempotent_retraversal() {
    let first_run = traverse(three_page_plan(), "https://h/p1".to_string());
    let second_run = traverse(three_page_plan(), "https://h/p1".to_string());
    assert_eq!(first_run, second_run);
    assert_eq!(first_run.len(), 6);
}

#[test]
fn unknown_frontier_yields_one_error() {
    let out = traverse(three_page_plan(), "https://h/nowhere".to_string());
    assert_eq!(out.len(), 1);
    assert!(matches!(out[0], Err(Error::RequestFailure { .. })));
}

#[test]
fn traversal_starting_mid_chain() {
    let out = traverse(three_page_plan(), "https://h/p2".to_string());
    let items: Vec<i64> = out.into_iter().map(|r| r.unwrap()).collect();
    assert_eq!(items, vec![3, 4, 5, 6]);
}

#[test]
fn paginator_steps() {
    let mut pag = Paginator::new("https://h/p1".to_string());
    assert!(!pag.is_done());
    assert_eq!(pag.next_url().as_deref(), Some("https://h/p1"));

    let y = pag.advance(Ok(page(vec![1, 2], "https://h/p1", Some("https://h/p2"))));
    assert_eq!(y, vec![Ok(1), Ok(2)]);
    assert_eq!(pag.next_url().as_deref(), Some("https://h/p2"));

    let y = pag.advance::<i64>(Err(Error::RequestFailure { cause: "timeout".to_string() }));
    assert_eq!(y.len(), 1);
    assert!(matches!(y[0], Err(Error::RequestFailure { .. })));
    assert!(pag.is_done());
    assert!(pag.next_url().is_none());
}

#[test]
fn paginator_propagates_decode_failure() {
    let mut pag = Paginator::new("https://h/p1".to_string());
    let y = pag.advance::<i64>(Err(Error::DecodeFailure { cause: "not a JSON array".to_string() }));
    assert_eq!(y, vec![Err(Error::DecodeFailure { cause: "not a JSON array".to_string() })]);
    assert!(pag.is_done());
}

#[test]
fn paginator_ends_without_next() {
    let mut pag = Paginator::new("https://h/only".to_string());
    let y = pag.advance(Ok(page(vec![7], "https://h/only", None)));
    assert_eq!(y, vec![Ok(7)]);
    assert!(pag.is_done());
}

#[test]
fn page_all_returns_items() {
    let p = page(vec![1, 2, 3], "https://h/p1", None);
    assert_eq!(p.all(), vec![1, 2, 3]);
}
