use ironcurtain::error::Error;
use ironcurtain::links::{format_links, parse_links, LinkEntry, Links};

fn entry(rel: &str, url: &str) -> LinkEntry {
    LinkEntry { rel: rel.to_string(), url: url.to_string() }
}

fn parse_ok(header: &str) -> Links {
    match parse_links(header) {
        Ok(l) => l,
        Err(e) => panic!("header {:?} should parse, got {:?}", header, e),
    }
}

#[test]
fn round_trip_all_relations() {
    let rels = ["current", "next", "prev", "first", "last"];
    let links = Links {
        entries: rels
            .iter()
            .map(|r| entry(r, &format!("https://canvas.example.edu/api/v1/courses?page={}", r)))
            .collect(),
    };
    let text = format_links(&links);
    let back = parse_ok(&text);
    assert_eq!(back.entries.len(), 5);
    for (a, b) in links.entries.iter().zip(back.entries.iter()) {
        assert_eq!(a.rel, b.rel);
        assert_eq!(a.url, b.url);
    }
}

#[test]
fn round_trip_subsets() {
    let rels = ["current", "next", "prev", "first", "last"];
    for mask in 0u32..32 {
        let links = Links {
            entries: rels
                .iter()
                .enumerate()
                .filter(|(i, _)| mask & (1 << i) != 0)
                .map(|(i, r)| entry(r, &format!("https://host.example/p/{}", i)))
                .collect(),
        };
        let text = format_links(&links);
        let back = parse_ok(&text);
        assert_eq!(links.entries.len(), back.entries.len());
        for (a, b) in links.entries.iter().zip(back.entries.iter()) {
            assert_eq!(a.rel, b.rel);
            assert_eq!(a.url, b.url);
        }
    }
}

#[test]
fn round_trip_empty() {
    let links = Links { entries: Vec::new() };
    let text = format_links(&links);
    assert_eq!(text, "");
    let back = parse_ok(&text);
    assert!(back.entries.is_empty());
}

#[test]
fn format_shape() {
    let links = Links { entries: vec![entry("next", "https://h/2"), entry("last", "https://h/9")] };
    assert_eq!(format_links(&links), "<https://h/2>; rel=\"next\",<https://h/9>; rel=\"last\"");
}

#[test]
fn last_write_wins_two_next() {
    let l = parse_ok("<https://h/a>; rel=\"next\", <https://h/b>; rel=\"next\"");
    assert_eq!(l.entries.len(), 2);
    assert_eq!(l.get("next").unwrap(), "https://h/b");
}

#[test]
fn malformed_missing_rel() {
    let r = parse_links("<https://h/a>; title=\"x\"");
    assert!(matches!(r, Err(Error::MalformedLinkHeader)));
}

#[test]
fn malformed_missing_url() {
    let r = parse_links("https://h/a; rel=\"next\"");
    assert!(matches!(r, Err(Error::MalformedLinkHeader)));
}

#[test]
fn malformed_one_segment_spoils_header() {
    let r = parse_links("<https://h/a>; rel=\"next\", <https://h/b>");
    assert!(matches!(r, Err(Error::MalformedLinkHeader)));
}

#[test]
fn unquoted_rel_tolerated() {
    let l = parse_ok("<https://h/a>; rel=next");
    assert_eq!(l.get("next").unwrap(), "https://h/a");
}

#[test]
fn whitespace_tolerated() {
    let l = parse_ok("  <https://h/a> ;   rel=\"next\"  ");
    assert_eq!(l.get("next").unwrap(), "https://h/a");
}

#[test]
fn comma_inside_url_does_not_split() {
    let l = parse_ok("<https://h/a,b>; rel=\"next\"");
    assert_eq!(l.entries.len(), 1);
    assert_eq!(l.get("next").unwrap(), "https://h/a,b");
}

#[test]
fn unknown_relation_preserved() {
    let l = parse_ok("<https://h/alt>; rel=\"alternate\"");
    assert_eq!(l.get("alternate").unwrap(), "https://h/alt");
    assert!(l.get("next").is_none());
}

#[test]
fn relation_names_case_sensitive() {
    let l = parse_ok("<https://h/a>; rel=\"Next\"");
    assert!(l.get("next").is_none());
    assert_eq!(l.get("Next").unwrap(), "https://h/a");
}

#[test]
fn extra_params_ignored() {
    let l = parse_ok("<https://h/a>; title=\"p\"; rel=\"next\"");
    assert_eq!(l.get("next").unwrap(), "https://h/a");
}

#[test]
fn later_rel_param_wins_within_segment() {
    let l = parse_ok("<https://h/a>; rel=\"prev\"; rel=\"next\"");
    assert_eq!(l.get("next").unwrap(), "https://h/a");
    assert!(l.get("prev").is_none());
}

#[test]
fn canvas_style_header() {
    let header = "<https://canvas.example.edu/api/v1/courses?page=2&per_page=10>; rel=\"next\",\
                  <https://canvas.example.edu/api/v1/courses?page=1&per_page=10>; rel=\"first\",\
                  <https://canvas.example.edu/api/v1/courses?page=5&per_page=10>; rel=\"last\"";
    let l = parse_ok(header);
    assert_eq!(
        l.get("next").unwrap(),
        "https://canvas.example.edu/api/v1/courses?page=2&per_page=10"
    );
    assert_eq!(
        l.get("first").unwrap(),
        "https://canvas.example.edu/api/v1/courses?page=1&per_page=10"
    );
    assert_eq!(
        l.get("last").unwrap(),
        "https://canvas.example.edu/api/v1/courses?page=5&per_page=10"
    );
    assert!(l.get("prev").is_none());
}
