use django_rs::tasks::handler::HandlerCore;
use django_rs::tasks::logging::{LogStrategy, WorkerLogger};
use django_rs::tasks::state::{TaskState, TaskSubscriberEvent};
use std::sync::{Arc, Mutex};

#[test]
fn handler_starts_pool_ids() {
    let core: HandlerCore<String, u32> = HandlerCore::new(3);
    assert_eq!(core.initial_worker_ids(), vec![0, 1, 2]);
    assert_eq!(core.worker_count(), 0);
}

fn full_core() -> HandlerCore<String, u32> {
    let mut core = HandlerCore::new(3);
    for id in core.initial_worker_ids() {
        core.add_worker(id, format!("w{id}"));
    }
    core
}

#[test]
fn handler_respawns_stopped_workers() {
    let mut core = full_core();
    assert_eq!(core.on_process_task(&vec![true, true, true]), Vec::<u64>::new());
    assert_eq!(core.worker_count(), 3);
    let respawn = core.on_process_task(&vec![true, false, false]);
    assert_eq!(respawn, vec![1, 2]);
    assert_eq!(core.ids(), vec![0]);
    assert_eq!(core.worker_at(0), "w0");
    core.add_worker(1, "w1b".to_string());
    assert_eq!(core.ids(), vec![0, 1]);
    // fewer workers than the maximum, all running: nothing to respawn
    assert_eq!(core.on_process_task(&vec![true, true]), Vec::<u64>::new());
    assert_eq!(core.ids(), vec![0, 1]);
}

#[test]
fn handler_picks_a_pool_worker() {
    let core = full_core();
    for _ in 0..50 {
        let w = core.pick_worker();
        assert!(w == "w0" || w == "w1" || w == "w2");
    }
}

#[test]
fn handler_subscribers() {
    let mut core = full_core();
    assert_eq!(core.subscriber(7), None);
    core.register_subscriber(7, 70);
    assert_eq!(core.subscriber(7), Some(&70));
    core.register_subscriber(7, 71);
    assert_eq!(core.subscriber(7), Some(&71));
    assert_eq!(core.unregister_subscriber(7), Some(71));
    assert_eq!(core.subscriber(7), None);
    assert_eq!(core.unregister_subscriber(7), None);
}

#[test]
fn handler_numbers_long_workers_after_the_pool() {
    let mut core = full_core();
    assert!(core.can_number_long_worker());
    assert_eq!(core.next_long_worker_id(), 4);
    assert_eq!(core.next_long_worker_id(), 5);
    let big: HandlerCore<String, u32> = HandlerCore::new(u64::MAX);
    assert!(!big.can_number_long_worker());
}

#[test]
fn handler_shutdown_hands_back_workers() {
    let core = full_core();
    assert_eq!(core.into_workers(), vec!["w0", "w1", "w2"]);
}

struct Recorder(Mutex<Vec<String>>);

impl LogStrategy for Recorder {
    fn warn(&self, worker_id: u64, message: &str) {
        self.0.lock().unwrap().push(format!("warn {worker_id} {message}"));
    }
    fn error(&self, worker_id: u64, message: &str) {
        self.0.lock().unwrap().push(format!("error {worker_id} {message}"));
    }
    fn info(&self, worker_id: u64, message: &str) {
        self.0.lock().unwrap().push(format!("info {worker_id} {message}"));
    }
    fn debug(&self, worker_id: u64, message: &str) {
        self.0.lock().unwrap().push(format!("debug {worker_id} {message}"));
    }
    fn trace(&self, worker_id: u64, message: &str) {
        self.0.lock().unwrap().push(format!("trace {worker_id} {message}"));
    }
}

#[test]
fn worker_logger_tags_worker() {
    let rec = Arc::new(Recorder(Mutex::new(Vec::new())));
    let logger = WorkerLogger::new(rec.clone(), 4);
    logger.warn("a");
    logger.error("b");
    logger.info("c");
    logger.debug("d");
    logger.trace("e");
    assert_eq!(
        *rec.0.lock().unwrap(),
        vec!["warn 4 a", "error 4 b", "info 4 c", "debug 4 d", "trace 4 e"]
    );
}

#[test]
fn task_states() {
    assert_ne!(TaskState::Queued, TaskState::Done);
    assert_eq!(TaskSubscriberEvent::TaskDone, TaskSubscriberEvent::TaskDone);
}

#[test]
fn pool_ids_stay_after_respawn() {
    let mut core = full_core();
    for id in core.on_process_task(&vec![false, true, false]) {
        core.add_worker(id, format!("again{id}"));
    }
    let mut ids = core.ids();
    ids.sort();
    assert_eq!(ids, vec![0, 1, 2]);
}

#[test]
fn subscriber_stays_until_unregistered() {
    let mut core = full_core();
    core.register_subscriber(1, 10);
    core.register_subscriber(2, 20);
    core.unregister_subscriber(3);
    assert_eq!(core.subscriber(1), Some(&10));
    core.unregister_subscriber(1);
    core.register_subscriber(2, 21);
    assert_eq!(core.subscriber(1), None);
    assert_eq!(core.subscriber(2), Some(&21));
}

#[test]
fn long_worker_ids_follow_the_pool() {
    let mut core = full_core();
    let ids: Vec<u64> = (0..4).map(|_| core.next_long_worker_id()).collect();
    assert_eq!(ids, vec![4, 5, 6, 7]);
}
