use hooklib::full_name::FullName;
use hooklib::resolve::{ObjectGraph, ObjectHandle};

fn handle(name: &[u8], class_name: &[u8], outer: Option<usize>) -> Option<ObjectHandle> {
    Some(ObjectHandle {
        name: name.to_vec(),
        class_name: class_name.to_vec(),
        outer,
    })
}

/// A graph with near-misses before the real target: a handle with the
/// right name but the wrong class, and one with the right name and class
/// but a different outer chain.
fn graph_with_decoys() -> ObjectGraph {
    ObjectGraph {
        entries: vec![
            handle(b"/Script/FSD", b"Package", None),
            handle(b"HitscanComponent", b"Class", Some(0)),
            handle(b"Server_RegisterHit", b"DelegateFunction", Some(1)),
            handle(b"Server_RegisterHit", b"Function", Some(0)),
            None,
            handle(b"Server_RegisterHit", b"Function", Some(1)),
        ],
    }
}

fn target() -> FullName {
    let text = b"Function /Script/FSD.HitscanComponent.Server_RegisterHit".to_vec();
    FullName::parse(&text).expect("parse")
}

#[test]
fn resolve_skips_decoys_and_null_entries() {
    let graph = graph_with_decoys();
    assert_eq!(graph.resolve_by_name(&target()), Some(5));
}

#[test]
fn resolve_rejects_wrong_class_and_wrong_outer_chain() {
    // without the real entry, name-only and name-and-class matches are
    // not enough
    let mut graph = graph_with_decoys();
    graph.entries.truncate(5);
    assert_eq!(graph.resolve_by_name(&target()), None);
}

#[test]
fn resolve_needs_full_outer_chain() {
    // right name and class, but the chain is one outer short of the target
    let graph = ObjectGraph {
        entries: vec![
            handle(b"HitscanComponent", b"Class", None),
            handle(b"Server_RegisterHit", b"Function", Some(0)),
        ],
    };
    assert_eq!(graph.resolve_by_name(&target()), None);
}

#[test]
fn resolve_rejects_longer_chain() {
    // the chain matches the target's outers and then keeps going
    let graph = ObjectGraph {
        entries: vec![
            handle(b"Extra", b"Package", None),
            handle(b"/Script/FSD", b"Package", Some(0)),
            handle(b"HitscanComponent", b"Class", Some(1)),
            handle(b"Server_RegisterHit", b"Function", Some(2)),
        ],
    };
    assert_eq!(graph.resolve_by_name(&target()), None);
}

#[test]
fn resolve_returns_first_of_equal_matches() {
    let graph = ObjectGraph {
        entries: vec![
            handle(b"/Script/FSD", b"Package", None),
            handle(b"Thing", b"Class", Some(0)),
            handle(b"Thing", b"Class", Some(0)),
        ],
    };
    let text = b"Class /Script/FSD.Thing".to_vec();
    let target = FullName::parse(&text).expect("parse");
    assert_eq!(graph.resolve_by_name(&target), Some(1));
}

#[test]
fn resolve_empty_graph() {
    let graph = ObjectGraph { entries: Vec::new() };
    assert_eq!(graph.resolve_by_name(&target()), None);
}
