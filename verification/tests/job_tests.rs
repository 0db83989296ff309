//! Tests of the load-job state machine: the status transitions, and the
//! empty answers queries get while no engine is published.

use logparser::config::Config;
use logparser::engine::Engine;
use logparser::job::{FileStatus, LoadJob};

fn small_engine() -> Engine {
    let config = Config {
        fields: vec![("n".to_string(), "$lineno".to_string())],
    };
    let mut engine = Engine::new(config).unwrap();
    let lines: Vec<String> = vec!["a".to_string(), "b".to_string()];
    engine.load_lines(&lines).unwrap();
    engine
}

#[test]
fn fresh_job_is_uninitialized_and_empty() {
    let job = LoadJob::new();
    assert_eq!(job.get_file_status(), FileStatus::Uninit);
    let page = job.get_logs("", "", 10, 0).unwrap();
    assert_eq!(page.total_count, 0);
    assert!(page.logs.is_empty());
    assert_eq!(job.get_log_detail(1).unwrap(), None);
    assert!(job.get_field_values("n", "", 10, 0).unwrap().is_empty());
}

#[test]
fn begin_load_is_pending_at_once() {
    let mut job = LoadJob::new();
    job.begin_load();
    assert_eq!(job.get_file_status(), FileStatus::Pending);
    // Queries while pending return empty results without error.
    let page = job.get_logs("", "", 10, 0).unwrap();
    assert_eq!(page.total_count, 0);
    assert!(page.logs.is_empty());
}

#[test]
fn failure_carries_its_message_and_publishes_nothing() {
    let mut job = LoadJob::new();
    job.begin_load();
    job.finish_load(Err("boom".to_string()));
    assert_eq!(job.get_file_status(), FileStatus::Error("boom".to_string()));
    let page = job.get_logs("", "", 10, 0).unwrap();
    assert_eq!(page.total_count, 0);
    assert_eq!(job.get_log_detail(1).unwrap(), None);
}

#[test]
fn success_completes_and_queries_return_data() {
    let mut job = LoadJob::new();
    job.begin_load();
    job.finish_load(Ok(small_engine()));
    assert_eq!(job.get_file_status(), FileStatus::Complete);
    let page = job.get_logs("", "", 10, 0).unwrap();
    assert_eq!(page.total_count, 2);
    assert_eq!(page.logs.len(), 2);
    let raw = job.get_log_detail(page.logs[0].id).unwrap();
    assert_eq!(raw, Some("a".to_string()));
    let values = job.get_field_values("n", "", 10, 0).unwrap();
    assert_eq!(values, vec!["1", "2"]);
    assert!(job.get_field_values("", "", 10, 0).unwrap().is_empty());
}

#[test]
fn a_new_load_discards_the_published_engine() {
    let mut job = LoadJob::new();
    job.begin_load();
    job.finish_load(Ok(small_engine()));
    assert_eq!(job.get_file_status(), FileStatus::Complete);
    job.begin_load();
    assert_eq!(job.get_file_status(), FileStatus::Pending);
    let page = job.get_logs("", "", 10, 0).unwrap();
    assert_eq!(page.total_count, 0);
    assert!(page.logs.is_empty());
}
