use vocal_magic::db::{
    delete_job, fail_orphans, get_job, insert_job, list_jobs, millis_stamp, ms_at, now_ms, open,
    restore_job, row_to_job, set_done, set_error, set_status, update_params, DbError, Job, JobRow, OutputFile,
};
use vocal_magic::events::sse_frame;

fn job(id: &str, created_at: i64, status: &str) -> Job {
    Job {
        id: id.to_string(),
        app: "vocal2midi".to_string(),
        model: "GAME-1.0-large".to_string(),
        status: status.to_string(),
        created_at,
        updated_at: created_at,
        params: "{}".to_string(),
        input_filename: "a.wav".to_string(),
        input_path: "/w/input_a.wav".to_string(),
        work_dir: "/w".to_string(),
        outputs: Vec::new(),
        error: None,
    }
}

#[test]
fn time_stamps_are_recent() {
    let before = std::time::SystemTime::now().duration_since(std::time::UNIX_EPOCH).unwrap().as_millis() as i64;
    let now = now_ms().unwrap_or_else(|| panic!("clock"));
    assert!(now >= before && now < before + 60_000);
    assert_eq!(millis_stamp(1_700_000_000_000), 1_700_000_000_000);
    assert_eq!(millis_stamp(1u128 << 64), 0);
}

#[test]
fn stored_jobs_are_read_back() {
    let mut t = open();
    assert!(get_job(&t, "a").is_none());
    assert!(insert_job(&mut t, &job("a", 1, "queued")).is_ok());
    let found = get_job(&t, "a").unwrap_or_else(|| panic!("no job"));
    assert_eq!(found.id, "a");
    assert_eq!(found.status, "queued");
    assert_eq!(found.input_path, "/w/input_a.wav");
    assert!(get_job(&t, "b").is_none());
}

#[test]
fn an_id_is_stored_once() {
    let mut t = open();
    assert!(insert_job(&mut t, &job("a", 1, "queued")).is_ok());
    assert_eq!(insert_job(&mut t, &job("a", 2, "done")), Err(DbError::DuplicateId));
    assert_eq!(get_job(&t, "a").unwrap_or_else(|| panic!("no job")).created_at, 1);
}

#[test]
fn updates_concern_one_row() {
    let mut t = open();
    assert!(insert_job(&mut t, &job("a", 1, "queued")).is_ok());
    assert!(insert_job(&mut t, &job("b", 2, "queued")).is_ok());
    set_status(&mut t, "a", "running", 10);
    let a = get_job(&t, "a").unwrap_or_else(|| panic!("no job"));
    assert_eq!((a.status.as_str(), a.updated_at, a.created_at), ("running", 10, 1));
    let outputs = vec![OutputFile::new("a.mid".to_string(), "midi", "MIDI")];
    set_done(&mut t, "a", &outputs, 11);
    let a = get_job(&t, "a").unwrap_or_else(|| panic!("no job"));
    assert_eq!((a.status.as_str(), a.updated_at), ("done", 11));
    assert_eq!(a.outputs.len(), 1);
    assert_eq!(a.outputs[0].name, "a.mid");
    assert_eq!(a.outputs[0].kind, "midi");
    assert_eq!(a.outputs[0].label, "MIDI");
    set_error(&mut t, "a", "boom", 12);
    let a = get_job(&t, "a").unwrap_or_else(|| panic!("no job"));
    assert_eq!((a.status.as_str(), a.updated_at, a.error), ("error", 12, Some("boom".to_string())));
    update_params(&mut t, "a", "{\"x\":1}");
    let a = get_job(&t, "a").unwrap_or_else(|| panic!("no job"));
    assert_eq!((a.params.as_str(), a.updated_at), ("{\"x\":1}", 12));
    let b = get_job(&t, "b").unwrap_or_else(|| panic!("no job"));
    assert_eq!((b.status.as_str(), b.updated_at, b.params.as_str()), ("queued", 2, "{}"));
}

#[test]
fn updates_of_missing_rows_change_nothing() {
    let mut t = open();
    set_status(&mut t, "a", "running", 1);
    set_done(&mut t, "a", &Vec::new(), 1);
    set_error(&mut t, "a", "x", 1);
    update_params(&mut t, "a", "{}");
    assert!(get_job(&t, "a").is_none());
    assert_eq!(list_jobs(&t).len(), 0);
}

#[test]
fn jobs_are_listed_newest_first() {
    let mut t = open();
    for (id, at) in vec![("a", 5), ("b", 9), ("c", 1), ("d", 7)] {
        assert!(insert_job(&mut t, &job(id, at, "done")).is_ok());
    }
    let ids: Vec<String> = list_jobs(&t).iter().map(|j| j.id.clone()).collect();
    assert_eq!(ids, vec!["b", "d", "a", "c"]);
}

#[test]
fn deleted_jobs_are_gone() {
    let mut t = open();
    assert!(insert_job(&mut t, &job("a", 1, "done")).is_ok());
    assert!(insert_job(&mut t, &job("b", 2, "done")).is_ok());
    assert_eq!(delete_job(&mut t, "a"), Some("/w".to_string()));
    assert!(get_job(&t, "a").is_none());
    assert!(get_job(&t, "b").is_some());
    assert_eq!(delete_job(&mut t, "a"), None);
}

#[test]
fn restarts_fail_unfinished_jobs() {
    let mut t = open();
    for status in vec!["queued", "running", "done", "error"] {
        assert!(insert_job(&mut t, &job(status, 1, status)).is_ok());
    }
    fail_orphans(&mut t, 99);
    for id in vec!["queued", "running"] {
        let j = get_job(&t, id).unwrap_or_else(|| panic!("no job"));
        assert_eq!(j.status, "error");
        assert_eq!(j.error, Some("interrupted by server restart".to_string()));
        assert_eq!(j.updated_at, 99);
    }
    for id in vec!["done", "error"] {
        let j = get_job(&t, id).unwrap_or_else(|| panic!("no job"));
        assert_eq!(j.status, id);
        assert_eq!(j.updated_at, 1);
        assert!(j.error.is_none());
    }
    fail_orphans(&mut t, 100);
    assert_eq!(get_job(&t, "queued").unwrap_or_else(|| panic!("no job")).updated_at, 99);
}

#[test]
fn broken_columns_become_defaults() {
    let row = JobRow {
        id: "a".to_string(),
        app: "x".to_string(),
        model: "y".to_string(),
        status: "done".to_string(),
        created_at: 3,
        updated_at: 4,
        params: "{ \"k\" : 1 }".to_string(),
        input_filename: "f".to_string(),
        input_path: "p".to_string(),
        work_dir: "w".to_string(),
        outputs: None,
        error: Some("e".to_string()),
    };
    let j = row_to_job(row);
    assert_eq!(j.params, "{ \"k\" : 1 }");
    assert_eq!(j.outputs.len(), 0);
    assert_eq!((j.created_at, j.updated_at), (3, 4));
    assert_eq!(j.error, Some("e".to_string()));
    let row = JobRow {
        id: "a".to_string(),
        app: "x".to_string(),
        model: "y".to_string(),
        status: "done".to_string(),
        created_at: 3,
        updated_at: 4,
        params: "broken".to_string(),
        input_filename: "f".to_string(),
        input_path: "p".to_string(),
        work_dir: "w".to_string(),
        outputs: Some(vec![OutputFile::new("n".to_string(), "audio", "l")]),
        error: None,
    };
    let j = row_to_job(row);
    assert_eq!(j.params, "null");
    assert_eq!(j.outputs.len(), 1);
}

#[test]
fn frames_of_the_event_stream() {
    assert_eq!(sse_frame("{}"), "data: {}\n\n");
}

#[test]
fn time_stamps_of_moments() {
    let epoch = std::time::UNIX_EPOCH;
    let later = epoch + std::time::Duration::new(1, 999_999_999);
    assert_eq!(ms_at(epoch), Some(0));
    assert_eq!(ms_at(later), Some(1999));
    assert_eq!(ms_at(epoch - std::time::Duration::from_nanos(1000)), None);
}

#[test]
fn restored_jobs_stay_as_they_are() {
    let mut t = open();
    let mut j = job("a", 1, "done");
    j.params = "{ \"k\" : 1 }".to_string();
    assert!(restore_job(&mut t, &j).is_ok());
    assert_eq!(restore_job(&mut t, &j), Err(DbError::DuplicateId));
    assert_eq!(get_job(&t, "a").unwrap_or_else(|| panic!("no job")).params, "{ \"k\" : 1 }");
    update_params(&mut t, "a", "broken");
    assert_eq!(get_job(&t, "a").unwrap_or_else(|| panic!("no job")).params, "null");
}
