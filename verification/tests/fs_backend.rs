use triggerman::fs_notify::{should_trigger, FsEvent, FsNotify, FsNotifyTrigger};
use triggerman::path::CanonPath;
use triggerman::value::Value;

fn path(s: &str) -> CanonPath {
    CanonPath {
        components: s.split('/').filter(|c| !c.is_empty()).map(|c| c.to_string()).collect(),
    }
}

fn event(kind: &str, paths: &[&str]) -> FsEvent {
    FsEvent { kind: kind.to_string(), paths: paths.iter().map(|p| path(p)).collect() }
}

#[test]
fn path_string_renders_components() {
    assert_eq!(path("/tmp/root").path_string(), "/tmp/root");
    assert_eq!(path("/a").path_string(), "/a");
    assert_eq!(path("/").path_string(), "/");
}

#[test]
fn path_prefix_is_component_wise() {
    assert!(path("/tmp/root/sub").starts_with(&path("/tmp/root")));
    assert!(path("/tmp/root").starts_with(&path("/tmp/root")));
    assert!(!path("/tmp/rootless").starts_with(&path("/tmp/root")));
    assert!(!path("/tmp").starts_with(&path("/tmp/root")));
    assert!(path("/tmp").starts_with(&path("/")));
}

#[test]
fn match_rule_equal_path() {
    let search = vec![path("/tmp/root")];
    let hit = vec![path("/tmp/root")];
    assert!(should_trigger(&search, &hit, false));
    assert!(should_trigger(&search, &hit, true));
}

#[test]
fn match_rule_descendant_only_when_recursive() {
    let search = vec![path("/tmp/root")];
    let below = vec![path("/tmp/root/sub/file.txt")];
    assert!(should_trigger(&search, &below, true));
    assert!(!should_trigger(&search, &below, false));
}

#[test]
fn match_rule_disjoint_paths_never() {
    let search = vec![path("/tmp/root")];
    let outside = vec![path("/var/log")];
    assert!(!should_trigger(&search, &outside, true));
    assert!(!should_trigger(&search, &outside, false));
}

#[test]
fn fs_recursive_entry_fires_on_descendant() {
    // One recursive entry on /tmp/root; an event below it yields one worker.
    let mut fs = FsNotify::default();
    fs.add_trigger(FsNotifyTrigger { paths: vec![path("/tmp/root")], recursive: true }, 7);
    let workers = fs.workers_for_event(&event("create", &["/tmp/root/sub/file.txt"]));
    assert_eq!(workers.len(), 1);
    assert_eq!(workers[0].task, 7);
}

#[test]
fn fs_non_recursive_entry_misses_descendant() {
    let mut fs = FsNotify::default();
    fs.add_trigger(FsNotifyTrigger { paths: vec![path("/tmp/root")], recursive: false }, 7);
    let workers = fs.workers_for_event(&event("create", &["/tmp/root/sub/file.txt"]));
    assert_eq!(workers.len(), 0);
}

#[test]
fn fs_multi_entry_fanout() {
    // Two entries match the same event: one worker per entry, in
    // registration order, each carrying the event's payload.
    let mut fs = FsNotify::default();
    fs.add_trigger(FsNotifyTrigger { paths: vec![path("/a")], recursive: true }, 1);
    fs.add_trigger(FsNotifyTrigger { paths: vec![path("/a/b")], recursive: false }, 2);
    let workers = fs.workers_for_event(&event("modify", &["/a/b"]));
    assert_eq!(workers.len(), 2);
    assert_eq!(workers[0].task, 1);
    assert_eq!(workers[1].task, 2);
    for w in &workers {
        match &w.payload {
            Value::Object(entries) => {
                assert_eq!(entries.len(), 2);
                assert_eq!(entries[0].0, "kind");
                match &entries[0].1 {
                    Value::Str(k) => assert_eq!(k, "modify"),
                    _ => panic!("kind is not a string"),
                }
            }
            _ => panic!("payload is not an object"),
        }
    }
}

#[test]
fn fs_event_payload_shape() {
    let mut fs = FsNotify::default();
    fs.add_trigger(FsNotifyTrigger { paths: vec![path("/tmp")], recursive: true }, 0);
    let workers =
        fs.workers_for_event(&event("remove", &["/tmp/a.txt", "/tmp/b.txt"]));
    assert_eq!(workers.len(), 1);
    match &workers[0].payload {
        Value::Object(entries) => {
            assert_eq!(entries[0].0, "kind");
            assert!(matches!(&entries[0].1, Value::Str(k) if k == "remove"));
            assert_eq!(entries[1].0, "paths");
            match &entries[1].1 {
                Value::List(items) => {
                    assert_eq!(items.len(), 2);
                    assert!(matches!(&items[0], Value::Str(s) if s == "/tmp/a.txt"));
                    assert!(matches!(&items[1], Value::Str(s) if s == "/tmp/b.txt"));
                }
                _ => panic!("paths is not a list"),
            }
        }
        _ => panic!("payload is not an object"),
    }
}

#[test]
fn fs_clear_drops_registrations() {
    let mut fs = FsNotify::default();
    fs.add_trigger(FsNotifyTrigger { paths: vec![path("/tmp")], recursive: true }, 0);
    fs.clear();
    let workers = fs.workers_for_event(&event("create", &["/tmp/x"]));
    assert_eq!(workers.len(), 0);
}
