use vocal_magic::db::{get_job, open, set_error, Job, JobTable};
use vocal_magic::events::JobEvent;
use vocal_magic::server::{
    apply_run, awaited_job, content_type, create_job, default_output_dir, delete_job_handler,
    find_job, form_field, get_file, leftover, listen_address, new_job_id, queued_job, requeue,
    run_job, store_job, submission, FormField, Upload,
};
use vocal_magic::storage::{Contents, FsOp, Paths};

fn paths() -> Paths {
    Paths::new("/out".to_string(), "/ckpt".to_string())
}

fn upload() -> Upload {
    let mut u = Upload::new();
    u.take_text(form_field("app"), "vocal-enhance".to_string());
    u.take_text(form_field("model"), "renaissance".to_string());
    u.take_file(Some("my song.ncm".to_string()), vec![1, 2, 3]);
    u
}

fn stored(id: &str) -> Job {
    let s = submission(&paths(), upload(), id.to_string()).unwrap_or_else(|e| panic!("{e}"));
    let path = s.input_path.clone();
    queued_job(s, path, 5, 6)
}

fn table() -> JobTable {
    let mut t = open();
    assert!(store_job(&mut t, stored("id")).is_ok());
    t
}

#[test]
fn job_ids_are_random_uuids() {
    let a = new_job_id();
    let b = new_job_id();
    assert_ne!(a, b);
    assert_eq!(a.len(), 36);
    for (i, c) in a.chars().enumerate() {
        match i {
            8 | 13 | 18 | 23 => assert_eq!(c, '-'),
            14 => assert_eq!(c, '4'),
            19 => assert!(matches!(c, '8' | '9' | 'a' | 'b')),
            _ => assert!(c.is_ascii_digit() || ('a'..='f').contains(&c)),
        }
    }
}

#[test]
fn fields_of_the_form() {
    assert_eq!(form_field("app"), FormField::App);
    assert_eq!(form_field("model"), FormField::Model);
    assert_eq!(form_field("params"), FormField::Params);
    assert_eq!(form_field("file"), FormField::File);
    assert_eq!(form_field(""), FormField::Other);
}

#[test]
fn a_form_is_read_field_by_field() {
    let mut u = Upload::new();
    assert_eq!((u.app_id.as_str(), u.params.as_str(), u.filename.as_str()), ("", "{}", "input"));
    u.take_text(FormField::App, "a".to_string());
    u.take_text(FormField::Model, "m".to_string());
    u.take_text(FormField::Params, "{ \"x\": 1 }".to_string());
    u.take_text(FormField::Other, "z".to_string());
    u.take_file(None, vec![9]);
    assert_eq!((u.app_id.as_str(), u.model_id.as_str()), ("a", "m"));
    assert_eq!((u.params.as_str(), u.filename.as_str()), ("{ \"x\": 1 }", "input"));
    assert_eq!(u.bytes, vec![9]);
    u.take_text(FormField::Params, "broken".to_string());
    assert_eq!(u.params, "{}");
    u.take_file(Some("f".to_string()), Vec::new());
    assert_eq!(u.filename, "f");
    assert_eq!(u.bytes.len(), 0);
}

#[test]
fn uploads_become_jobs() {
    let s = submission(&paths(), upload(), "id".to_string()).unwrap_or_else(|e| panic!("{e}"));
    assert_eq!(s.id, "id");
    assert_eq!(s.app, "vocal-enhance");
    assert_eq!(s.model, "renaissance");
    assert_eq!(s.work_dir, "/out/apps/vocal-enhance/id");
    assert_eq!(s.input_path, "/out/apps/vocal-enhance/id/input_my_song.ncm");
    assert_eq!(s.input_filename, "my song.ncm");
    assert_eq!(s.actions[0].op, FsOp::CreateDir);
    assert_eq!(s.actions[1].op, FsOp::WriteFile);
    assert_eq!(s.actions[1].path, s.input_path);
    assert!(matches!(&s.actions[1].contents, Contents::Bytes(b) if *b == vec![1, 2, 3]));
    let j = queued_job(s, "/decoded".to_string(), 5, 6);
    assert_eq!((j.status.as_str(), j.created_at, j.updated_at), ("queued", 5, 6));
    assert_eq!(j.input_path, "/decoded");
    assert!(j.outputs.is_empty() && j.error.is_none());
}

#[test]
fn each_job_gets_its_own_directory() {
    let a = create_job(&paths(), upload()).unwrap_or_else(|e| panic!("{e}"));
    let b = create_job(&paths(), upload()).unwrap_or_else(|e| panic!("{e}"));
    assert_ne!(a.work_dir, b.work_dir);
    assert_eq!(a.work_dir, format!("/out/apps/vocal-enhance/{}", a.id));
}

#[test]
fn bad_uploads_are_refused() {
    let form = |app: &str, model: &str, bytes: Vec<u8>| {
        let mut u = Upload::new();
        u.take_text(FormField::App, app.to_string());
        u.take_text(FormField::Model, model.to_string());
        u.take_file(None, bytes);
        create_job(&paths(), u)
    };
    assert_eq!(form("", "", vec![0]).err(), Some("unknown app: ".to_string()));
    assert_eq!(form("x", "", vec![0]).err(), Some("unknown app: x".to_string()));
    assert_eq!(
        form("vocal2midi", "renaissance", Vec::new()).err(),
        Some("unknown model: renaissance".to_string())
    );
    assert_eq!(
        form("vocal2midi", "GAME-1.0-large", Vec::new()).err(),
        Some("no input file uploaded".to_string())
    );
    assert!(form("vocal2midi", "GAME-1.0-large", vec![0]).is_ok());
}

#[test]
fn stored_parameters_are_printed() {
    let mut t = open();
    let mut j = stored("id");
    j.params = "{ \"overlap\" : 4 }".to_string();
    match store_job(&mut t, j) {
        Ok(JobEvent::Created { job }) => assert_eq!(job.params, "{ \"overlap\" : 4 }"),
        _ => panic!("no event"),
    }
    assert_eq!(find_job(&t, "id").unwrap_or_else(|e| panic!("{e}")).params, "{\"overlap\":4}");
}

#[test]
fn new_jobs_are_announced() {
    let mut t = open();
    match store_job(&mut t, stored("id")) {
        Ok(JobEvent::Created { job }) => assert_eq!(job.id, "id"),
        _ => panic!("no event"),
    }
    assert!(get_job(&t, "id").is_some());
    assert!(store_job(&mut t, stored("id")).is_err());
}

#[test]
fn reruns_keep_the_inputs() {
    assert!(!leftover("input_my_song.ncm"));
    assert!(!leftover("input_my_song.decoded.flac"));
    assert!(leftover("my song_enhanced.wav"));
    assert!(leftover("input"));
    assert!(leftover(""));
}

#[test]
fn reruns_take_new_parameters() {
    let mut t = table();
    assert_eq!(
        run_job(&mut t, "id", b"{\"params\": {\"device\": \"cpu\"}}"),
        Ok("/out/apps/vocal-enhance/id".to_string())
    );
    assert_eq!(find_job(&t, "id").unwrap_or_else(|e| panic!("{e}")).params, "{\"device\":\"cpu\"}");
    assert!(run_job(&mut t, "id", b"").is_ok());
    assert!(run_job(&mut t, "id", b"{\"other\": 1}").is_ok());
    assert!(apply_run(&mut t, "id", None).is_ok());
    assert_eq!(find_job(&t, "id").unwrap_or_else(|e| panic!("{e}")).params, "{\"device\":\"cpu\"}");
    assert!(apply_run(&mut t, "id", Some("1".to_string())).is_ok());
    assert_eq!(find_job(&t, "id").unwrap_or_else(|e| panic!("{e}")).params, "1");
    assert_eq!(run_job(&mut t, "x", b""), Err("job not found".to_string()));
}

#[test]
fn reruns_are_queued_again() {
    let mut t = table();
    set_error(&mut t, "id", "boom", 7);
    match requeue(&mut t, "id", 8) {
        Some(JobEvent::Updated { job }) => {
            assert_eq!(job.status, "queued");
            assert_eq!(job.updated_at, 8);
        }
        _ => panic!("no event"),
    }
    assert!(requeue(&mut t, "x", 9).is_none());
}

#[test]
fn clients_wait_for_the_final_record() {
    let t = table();
    let mut done = stored("id");
    done.status = "done".to_string();
    assert_eq!(awaited_job(&t, "id", Ok(done)).unwrap_or_else(|e| panic!("{e}")).status, "done");
    let after = awaited_job(&t, "id", Err("boom".to_string())).unwrap_or_else(|e| panic!("{e}"));
    assert_eq!(after.status, "queued");
    assert_eq!(awaited_job(&t, "x", Err("boom".to_string())).err(), Some("job lost".to_string()));
}

#[test]
fn deleting_announces_the_id() {
    let mut t = table();
    let (dir, event) = delete_job_handler(&mut t, "id");
    assert_eq!(dir, Some("/out/apps/vocal-enhance/id".to_string()));
    match event {
        JobEvent::Deleted { id } => assert_eq!(id, "id"),
        _ => panic!("other event"),
    }
    assert!(get_job(&t, "id").is_none());
    let (dir, event) = delete_job_handler(&mut t, "id");
    assert!(dir.is_none());
    assert!(matches!(event, JobEvent::Deleted { .. }));
}

#[test]
fn files_are_served_from_the_jobs_directory() {
    let t = table();
    assert_eq!(
        get_file(&t, "id", "a.wav"),
        Ok(("/out/apps/vocal-enhance/id/a.wav".to_string(), "audio/wav"))
    );
    for name in vec!["../x", "a/b", "a\\b", "..", "/etc/passwd"] {
        assert_eq!(get_file(&t, "id", name), Err("invalid file name".to_string()));
        assert_eq!(get_file(&t, "x", name), Err("invalid file name".to_string()));
    }
    assert_eq!(get_file(&t, "x", "a.wav"), Err("job not found".to_string()));
    assert_eq!(find_job(&t, "x").err(), Some("job not found".to_string()));
}

#[test]
fn content_types() {
    assert_eq!(content_type("/w/a.wav"), "audio/wav");
    assert_eq!(content_type("/w/a.mid"), "audio/midi");
    assert_eq!(content_type("/w/a.json"), "application/json");
    assert_eq!(content_type("/w/a.WAV"), "application/octet-stream");
    assert_eq!(content_type("/w/a"), "application/octet-stream");
}

#[test]
fn start_up_settings() {
    assert_eq!(listen_address("127.0.0.1", 8736), "127.0.0.1:8736");
    assert_eq!(listen_address("::", 0), ":::0");
    assert_eq!(default_output_dir("/home/u"), "/home/u/.vocal-magic");
}
