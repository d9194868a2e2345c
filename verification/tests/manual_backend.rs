use triggerman::backend::Worker;
use triggerman::manuel::{Manuel, ManuelTrigger};
use triggerman::value::Value;

fn trigger(name: &str) -> ManuelTrigger {
    ManuelTrigger { name: name.to_string() }
}

#[test]
fn manual_single_trigger_in_order() {
    // Register "import"; poke "import", "unknown", "import": two workers for
    // the registered handler, in order, and the unknown name is dropped.
    let mut m = Manuel::new();
    m.add_trigger(trigger("import"), 3).unwrap();

    let mut recorded: Vec<usize> = Vec::new();
    for poke in ["import", "unknown", "import"] {
        if let Some(w) = m.dispatch(&poke.to_string()) {
            assert!(matches!(w.payload, Value::Null));
            recorded.push(w.task);
        }
    }
    assert_eq!(recorded, vec![3, 3]);
}

#[test]
fn manual_duplicate_name_fails_second_registration() {
    let mut m = Manuel::new();
    assert!(m.add_trigger(trigger("import"), 1).is_ok());
    let second = m.add_trigger(trigger("import"), 2);
    assert!(second.is_err());
    // The first registration stands untouched.
    let w: Worker = m.dispatch(&"import".to_string()).unwrap();
    assert_eq!(w.task, 1);
}

#[test]
fn manual_distinct_names_both_registered() {
    let mut m = Manuel::new();
    assert!(m.add_trigger(trigger("import"), 1).is_ok());
    assert!(m.add_trigger(trigger("export"), 2).is_ok());
    assert_eq!(m.dispatch(&"import".to_string()).unwrap().task, 1);
    assert_eq!(m.dispatch(&"export".to_string()).unwrap().task, 2);
}

#[test]
fn manual_unknown_name_is_dropped() {
    let m = Manuel::new();
    assert!(m.dispatch(&"anything".to_string()).is_none());
}

#[test]
fn manual_clear_drops_registrations() {
    let mut m = Manuel::new();
    m.add_trigger(trigger("import"), 1).unwrap();
    m.clear();
    assert!(m.dispatch(&"import".to_string()).is_none());
    // The name is registrable again after the reset.
    assert!(m.add_trigger(trigger("import"), 2).is_ok());
}
