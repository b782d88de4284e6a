use std::collections::HashMap;

use cloud_meta::error::check_status;
use cloud_meta::listing::{listing, split_lines};
use cloud_meta::tree::{child_path, is_listing};
use cloud_meta::{Amazon, Error, Slot, Tree, Walker};

fn render(tree: &Tree, i: usize) -> String {
    match tree.slot(i).expect("index in range") {
        Slot::Null => "null".to_string(),
        Slot::Leaf(s) => format!("\"{}\"", s),
        Slot::Dir(entries) => {
            let parts: Vec<String> = entries
                .iter()
                .map(|(name, child)| format!("\"{}\": {}", name, render(tree, *child)))
                .collect();
            format!("{{{}}}", parts.join(", "))
        }
    }
}

fn walk(mut walker: Walker, service: &HashMap<&str, Result<&str, u16>>) -> Result<String, Error> {
    let mut fetches = 0;
    while let Some(path) = walker.pending() {
        fetches += 1;
        assert!(fetches < 100);
        let outcome = match service.get(path.as_str()) {
            Some(Ok(body)) => check_status(200, body.as_bytes().to_vec()),
            Some(Err(status)) => check_status(*status, Vec::new()),
            None => check_status(404, Vec::new()),
        };
        walker.feed(outcome);
    }
    assert!(walker.is_done());
    walker.finish().expect("walk is over").map(|tree| render(&tree, tree.root))
}

#[test]
fn walker_builds_nested_tree() {
    let mut service = HashMap::new();
    service.insert("meta/", Ok("a\nb/\n"));
    service.insert("meta/a", Ok("1"));
    service.insert("meta/b/", Ok("c\n"));
    service.insert("meta/b/c", Ok("2"));
    let amazon = Amazon::new();
    let out = walk(amazon.scan("meta/"), &service);
    assert_eq!(out, Ok("{\"a\": \"1\", \"b\": {\"c\": \"2\"}}".to_string()));
}

#[test]
fn walker_keeps_tree_when_child_fails() {
    let mut service = HashMap::new();
    service.insert("meta/", Ok("a\nb/\n"));
    service.insert("meta/a", Ok("1"));
    service.insert("meta/b/", Ok("c\n"));
    service.insert("meta/b/c", Err(500));
    let out = walk(Walker::new("meta/".to_string()), &service);
    assert_eq!(out, Ok("{\"a\": \"1\", \"b\": {\"c\": null}}".to_string()));
}

#[test]
fn walker_root_failure_fails_walk() {
    let service = HashMap::new();
    let out = walk(Walker::new("meta/".to_string()), &service);
    assert_eq!(out, Err(Error::Response(404)));
}

#[test]
fn walker_leaf_root_and_empty_listing() {
    let mut service = HashMap::new();
    service.insert("ami-id", Ok("ami-123"));
    service.insert("empty/", Ok(""));
    assert_eq!(walk(Walker::new("ami-id".to_string()), &service), Ok("\"ami-123\"".to_string()));
    assert_eq!(walk(Walker::new("empty/".to_string()), &service), Ok("{}".to_string()));
}

#[test]
fn walker_repeated_name_takes_last_child() {
    let mut service = HashMap::new();
    service.insert("d/", Ok("x\nx"));
    service.insert("d/x", Ok("v"));
    assert_eq!(walk(Walker::new("d/".to_string()), &service), Ok("{\"x\": \"v\"}".to_string()));
}

#[test]
fn walker_invalid_leaf_text_becomes_null() {
    let mut walker = Walker::new("d/".to_string());
    walker.feed(Ok(b"k\n".to_vec()));
    assert_eq!(walker.pending(), Some("d/k".to_string()));
    walker.feed(Ok(vec![0xff, 0xfe]));
    assert_eq!(walker.pending(), None);
    let tree = walker.finish().unwrap().unwrap();
    assert_eq!(render(&tree, tree.root), "{\"k\": null}");
}

#[test]
fn lines_split_like_buffered_reader() {
    let to_strings = |v: Vec<Vec<u8>>| -> Vec<String> {
        v.into_iter().map(|l| String::from_utf8(l).unwrap()).collect()
    };
    assert_eq!(to_strings(split_lines(b"a\nb/\n")), vec!["a", "b/"]);
    assert_eq!(to_strings(split_lines(b"a\r\nb")), vec!["a", "b"]);
    assert_eq!(to_strings(split_lines(b"a\n\nb\r")), vec!["a", "", "b\r"]);
    assert_eq!(to_strings(split_lines(b"")), Vec::<String>::new());
    assert_eq!(to_strings(split_lines(b"\n")), vec![""]);
}

#[test]
fn listing_rejects_invalid_text() {
    assert_eq!(listing(b"a\nb/\n"), Ok(vec!["a".to_string(), "b/".to_string()]));
    assert!(matches!(listing(&[b'a', b'\n', 0xc3]), Err(Error::Internal(_))));
}

#[test]
fn paths_and_listing_paths() {
    assert!(is_listing("meta-data/"));
    assert!(!is_listing("meta-data"));
    assert!(!is_listing(""));
    assert_eq!(child_path("meta-data/", "ami-id"), "meta-data/ami-id");
}
