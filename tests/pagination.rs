use aliyun_oss::client::OssClient;
use aliyun_oss::paginate::{clamp_page_size, Paginator};

/// A listing endpoint over `total` items whose pages are truncated while
/// items remain, with cursors "c<offset>".
fn endpoint(total: usize, cursor: Option<&str>, size: usize) -> (Vec<usize>, bool, Option<String>) {
    let start = cursor.map(|c| c[1..].parse::<usize>().unwrap()).unwrap_or(0);
    let end = (start + size).min(total);
    let items: Vec<usize> = (start..end).collect();
    let truncated = end < total;
    let next = if truncated { Some(format!("c{}", end)) } else { None };
    (items, truncated, next)
}

fn drain(total: usize, max: usize) -> (Vec<usize>, Option<String>, Vec<usize>) {
    let mut p: Paginator<usize> = Paginator::new(max);
    let mut sizes = Vec::new();
    while let Some(size) = p.next_page_size() {
        sizes.push(size);
        let cursor = p.cursor().map(|c| c.to_string());
        let (items, truncated, next) = endpoint(total, cursor.as_deref(), size);
        p.accept_page(items, Vec::new(), truncated, next);
    }
    let (items, _prefixes, cursor) = p.finish();
    (items, cursor, sizes)
}

#[test]
fn pagination_drains_all_pages_under_cap() {
    let (items, cursor, sizes) = drain(2300, 2500);
    assert_eq!(items.len(), 2300);
    assert_eq!(items, (0..2300).collect::<Vec<_>>());
    assert_eq!(sizes, vec![1000, 1000, 500]);
    assert_eq!(cursor, None);
}

#[test]
fn pagination_stops_at_cap_with_cursor() {
    let (items, cursor, sizes) = drain(2300, 500);
    assert_eq!(items.len(), 500);
    assert_eq!(sizes, vec![500]);
    assert_eq!(cursor.as_deref(), Some("c500"));
}

#[test]
fn pagination_resumes_from_cursor() {
    let mut p: Paginator<usize> = Paginator::resume_from(10, "c2295");
    let size = p.next_page_size().unwrap();
    let (items, truncated, next) = endpoint(2300, p.cursor(), size);
    p.accept_page(items, Vec::new(), truncated, next);
    assert!(p.is_done());
    let (items, _, cursor) = p.finish();
    assert_eq!(items, vec![2295, 2296, 2297, 2298, 2299]);
    assert_eq!(cursor, None);
}

#[test]
fn pages_of_given_sizes() {
    let pages = [(1000usize, true), (1000, true), (300, false)];
    let mut p: Paginator<usize> = Paginator::new(2500);
    let mut k = 0;
    while let Some(_) = p.next_page_size() {
        let (n, truncated) = pages[k];
        k += 1;
        p.accept_page(vec![0; n], Vec::new(), truncated, Some(format!("t{}", k)));
    }
    let (items, _, cursor) = p.finish();
    assert_eq!(items.len(), 2300);
    assert_eq!(cursor, None);
}

#[test]
fn oversized_page_is_cut_to_cap() {
    let mut p: Paginator<u8> = Paginator::new(500);
    p.accept_page(vec![1; 1000], vec!["a/".to_string()], true, Some("next".to_string()));
    assert!(p.is_done());
    let (items, prefixes, cursor) = p.finish();
    assert_eq!(items.len(), 500);
    assert_eq!(prefixes, vec!["a/".to_string()]);
    assert_eq!(cursor.as_deref(), Some("next"));
}

#[test]
fn truncated_page_with_empty_cursor_ends_listing() {
    let mut p: Paginator<u8> = Paginator::new(5000);
    p.accept_page(vec![1; 10], Vec::new(), true, Some(String::new()));
    assert!(p.is_done());
    let mut q: Paginator<u8> = Paginator::new(5000);
    q.accept_page(Vec::new(), Vec::new(), true, Some("x".to_string()));
    assert!(q.is_done());
    assert_eq!(q.finish().2, None);
}

#[test]
fn zero_cap_lists_nothing() {
    let p: Paginator<u8> = Paginator::new(0);
    assert!(p.is_done());
    assert_eq!(p.next_page_size(), None);
}

#[test]
fn page_size_clamped() {
    assert_eq!(clamp_page_size(0), 1);
    assert_eq!(clamp_page_size(500), 500);
    assert_eq!(clamp_page_size(5000), 1000);
}

#[test]
fn list_objects_page_request() {
    let client = OssClient::new("id", "secret").unwrap();
    let listing = client.bucket("b", "e").list_objects().set_prefix("photos/");
    let req = listing.page_request(250, Some("tok"));
    assert_eq!(
        req.querys,
        vec![
            ("list-type".to_string(), "2".to_string()),
            ("max-keys".to_string(), "250".to_string()),
            ("prefix".to_string(), "photos/".to_string()),
            ("continuation-token".to_string(), "tok".to_string()),
        ]
    );
}
