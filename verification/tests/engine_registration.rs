use triggerman::backend::{Backend, BackendBox};
use triggerman::config::{ManuelConfig, NotifyConfig, TaskConfig, TriggerConfig};
use triggerman::engine::{Engine, TriggerDescriptor, DEFAULT_CONCURRENCY, GRACE_SECONDS};
use triggerman::error::Error;
use triggerman::fs_notify::{FsEvent, FsNotify, FsNotifyTrigger, DEBOUNCE_SECONDS};
use triggerman::manager::Manager;
use triggerman::manuel::{Manuel, ManuelTrigger};
use triggerman::path::CanonPath;

fn path(s: &str) -> CanonPath {
    CanonPath {
        components: s.split('/').filter(|c| !c.is_empty()).map(|c| c.to_string()).collect(),
    }
}

#[test]
fn engine_constants() {
    let e = Engine::default();
    assert_eq!(e.dispatcher().concurrency(), DEFAULT_CONCURRENCY);
    assert_eq!(DEFAULT_CONCURRENCY, 10);
    assert_eq!(GRACE_SECONDS, 5);
    assert_eq!(DEBOUNCE_SECONDS, 2);
}

#[test]
fn engine_routes_descriptors_to_their_backends() {
    let mut e = Engine::default();
    e.add_backend(BackendBox(Backend::Manuel(Manuel::new())));
    e.add_backend(BackendBox(Backend::FsNotify(FsNotify::default())));
    let manual = TriggerDescriptor::Manuel(ManuelTrigger { name: "import".to_string() });
    let fs = TriggerDescriptor::FsNotify(FsNotifyTrigger {
        paths: vec![path("/tmp")],
        recursive: true,
    });
    assert!(e.add_trigger(manual, 1).is_ok());
    assert!(e.add_trigger(fs, 2).is_ok());
}

#[test]
fn engine_refuses_duplicate_manual_name() {
    let mut e = Engine::default();
    e.add_backend(BackendBox(Backend::Manuel(Manuel::new())));
    let first = TriggerDescriptor::Manuel(ManuelTrigger { name: "import".to_string() });
    let second = TriggerDescriptor::Manuel(ManuelTrigger { name: "import".to_string() });
    assert!(e.add_trigger(first, 1).is_ok());
    let r: Result<(), Error> = e.add_trigger(second, 2);
    assert!(r.is_err());
}

#[test]
fn manager_engine_accepts_both_trigger_kinds() {
    let mut e = Manager::new_engine();
    let notify = TaskConfig {
        trigger: TriggerConfig::Notify(NotifyConfig {
            paths: vec![path("/tmp/watched")],
            recursive: false,
        }),
        work_dir: None,
        task: "index.js".to_string(),
    };
    let manual = TaskConfig {
        trigger: TriggerConfig::Manuel(ManuelConfig { name: "import".to_string() }),
        work_dir: Some("/tmp/work".to_string()),
        task: "import.js".to_string(),
    };
    assert!(Manager::register_task(&mut e, notify, 0).is_ok());
    assert!(Manager::register_task(&mut e, manual, 1).is_ok());
}

#[test]
fn manager_skips_only_the_refused_task() {
    // Two manual configurations under one name: the second registration
    // fails and is the only one lost.
    let mut e = Manager::new_engine();
    let a = TaskConfig {
        trigger: TriggerConfig::Manuel(ManuelConfig { name: "sync".to_string() }),
        work_dir: None,
        task: "a.js".to_string(),
    };
    let b = TaskConfig {
        trigger: TriggerConfig::Manuel(ManuelConfig { name: "sync".to_string() }),
        work_dir: None,
        task: "b.js".to_string(),
    };
    let c = TaskConfig {
        trigger: TriggerConfig::Manuel(ManuelConfig { name: "other".to_string() }),
        work_dir: None,
        task: "c.js".to_string(),
    };
    assert!(Manager::register_task(&mut e, a, 0).is_ok());
    assert!(Manager::register_task(&mut e, b, 1).is_err());
    assert!(Manager::register_task(&mut e, c, 2).is_ok());
}

#[test]
fn manual_registration_reaches_the_backend() {
    let mut e = Manager::new_engine();
    let manual = TaskConfig {
        trigger: TriggerConfig::Manuel(ManuelConfig { name: "import".to_string() }),
        work_dir: None,
        task: "import.js".to_string(),
    };
    Manager::register_task(&mut e, manual, 4).unwrap();
    let (backends, concurrency) = e.into_parts();
    assert_eq!(concurrency, DEFAULT_CONCURRENCY);
    assert_eq!(backends.len(), 2);
    let mut dispatched: Option<usize> = None;
    for b in backends {
        if let Backend::Manuel(m) = b.0 {
            dispatched = m.dispatch(&"import".to_string()).map(|w| w.task);
        }
    }
    assert_eq!(dispatched, Some(4));
}

#[test]
fn fs_registration_reaches_the_backend() {
    let mut e = Manager::new_engine();
    let notify = TaskConfig {
        trigger: TriggerConfig::Notify(NotifyConfig {
            paths: vec![path("/watched")],
            recursive: true,
        }),
        work_dir: None,
        task: "w.js".to_string(),
    };
    Manager::register_task(&mut e, notify, 9).unwrap();
    let (backends, _) = e.into_parts();
    let mut worker_tasks: Vec<usize> = Vec::new();
    for b in backends {
        if let Backend::FsNotify(f) = b.0 {
            let ev = FsEvent { kind: "create".to_string(), paths: vec![path("/watched/sub")] };
            worker_tasks = f.workers_for_event(&ev).into_iter().map(|w| w.task).collect();
        }
    }
    assert_eq!(worker_tasks, vec![9]);
}

#[test]
fn manager_keeps_its_root() {
    let m = Manager::open("/srv/tasks".to_string());
    assert_eq!(m.path().as_str(), "/srv/tasks");
}

#[test]
fn error_carries_its_message() {
    let e = Error::new("no backend".to_string());
    assert_eq!(e.message().as_str(), "no backend");
}
