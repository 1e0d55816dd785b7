use vocal_magic::apps::all_apps;
use vocal_magic::db::{get_job, insert_job, open, Job, JobTable, OutputFile};
use vocal_magic::events::JobEvent;
use vocal_magic::models::Loaded;
use vocal_magic::storage::Paths;
use vocal_magic::worker::{
    begin, choose_run, handle, kind_to_load, read_settings, ModelStep, RunPlan, Task, Worker,
};

fn paths() -> Paths {
    Paths::new("/out".to_string(), "/ckpt".to_string())
}

fn job(app: &str, model: &str, params: &str) -> Job {
    Job {
        id: "id".to_string(),
        app: app.to_string(),
        model: model.to_string(),
        status: "queued".to_string(),
        created_at: 1,
        updated_at: 1,
        params: params.to_string(),
        input_filename: "my song.wav".to_string(),
        input_path: "/w/input_my_song.wav".to_string(),
        work_dir: "/w".to_string(),
        outputs: Vec::new(),
        error: None,
    }
}

fn task(w: &Worker, app: &str, model: &str, params: &str) -> Task {
    w.prepare("id", Some(job(app, model, params))).unwrap_or_else(|e| panic!("{e}"))
}

fn table() -> JobTable {
    let mut t = open();
    assert!(insert_job(&mut t, &job("vocal-enhance", "renaissance", "{}")).is_ok());
    t
}

#[test]
fn a_task_names_its_files() {
    let w = Worker::new(paths());
    let t = task(&w, "vocal2midi", "GAME-1.0-large", "{\"t0\":0.5}");
    assert_eq!(t.app_id, "vocal2midi");
    assert_eq!(t.variant, "default");
    assert_eq!(t.model_dir, "/ckpt/GAME-1.0-large");
    assert_eq!(t.checkpoint, "/ckpt/GAME-1.0-large/GAME-1.0-large.safetensors");
    assert_eq!(t.config, "/ckpt/GAME-1.0-large/config.yaml");
    assert_eq!(t.input_path, "/w/input_my_song.wav");
    assert_eq!(t.work_dir, "/w");
    assert_eq!(t.params, "{\"t0\":0.5}");
    assert_eq!(t.stem, "my song");
}

#[test]
fn tasks_of_unknown_jobs() {
    let w = Worker::new(paths());
    assert_eq!(w.prepare("x", None).err(), Some("job x not found".to_string()));
    assert_eq!(w.prepare("id", Some(job("a", "m", "{}"))).err(), Some("unknown app: a".to_string()));
    assert_eq!(
        w.prepare("id", Some(job("vocal2midi", "m", "{}"))).err(),
        Some("unknown model: m".to_string())
    );
    let mut nameless = job("vocal-enhance", "renaissance", "{}");
    nameless.input_filename = "..".to_string();
    let t = w.prepare("id", Some(nameless)).unwrap_or_else(|e| panic!("{e}"));
    assert_eq!(t.stem, "output");
}

#[test]
fn kinds_of_models() {
    assert_eq!(kind_to_load("source-separation", "full"), Some(Loaded::MbrFull));
    assert_eq!(kind_to_load("source-separation", "wsa"), Some(Loaded::MbrWsa));
    assert_eq!(kind_to_load("vocal-enhance", "anything"), Some(Loaded::Srs));
    assert_eq!(kind_to_load("vocal2midi", "anything"), Some(Loaded::Game));
    assert_eq!(kind_to_load("source-separation", "other"), None);
}

#[test]
fn a_loaded_model_is_kept_until_another_is_needed() {
    let mut w = Worker::new(paths());
    let a = task(&w, "vocal-enhance", "renaissance", "{}");
    let b = task(&w, "source-separation", "melband-roformer", "{}");
    assert!(!w.has_model());
    match w.ensure_model(&a, true, false) {
        Ok(ModelStep::Load(kind)) => {
            assert_eq!(kind, Loaded::Srs);
            w.model_loaded(&a, kind);
            assert!(w.has_model());
        }
        _ => panic!("not loaded"),
    }
    assert!(matches!(w.ensure_model(&a, false, false), Ok(ModelStep::Ready)));
    assert!(matches!(w.ensure_model(&b, true, false), Ok(ModelStep::Load(Loaded::MbrFull))));
    assert!(matches!(w.ensure_model(&a, true, false), Ok(ModelStep::Load(Loaded::Srs))));
}

#[test]
fn missing_files_stop_loading() {
    let mut w = Worker::new(paths());
    let a = task(&w, "vocal-enhance", "renaissance", "{}");
    let g = task(&w, "vocal2midi", "GAME-1.0-large", "{}");
    match w.ensure_model(&a, true, true) {
        Ok(ModelStep::Load(kind)) => w.model_loaded(&a, kind),
        _ => panic!("not loaded"),
    }
    assert_eq!(
        w.ensure_model(&g, false, true).err(),
        Some("checkpoint not found: /ckpt/GAME-1.0-large/GAME-1.0-large.safetensors".to_string())
    );
    assert!(matches!(w.ensure_model(&a, false, false), Ok(ModelStep::Ready)));
    assert_eq!(
        w.ensure_model(&g, true, false).err(),
        Some("GAME config not found: /ckpt/GAME-1.0-large/config.yaml".to_string())
    );
    assert!(matches!(w.ensure_model(&a, true, false), Ok(ModelStep::Load(Loaded::Srs))));
}

#[test]
fn every_model_of_the_catalogue_runs() {
    for app in all_apps() {
        for model in &app.models {
            let mut w = Worker::new(paths());
            let t = task(&w, &app.id, &model.id, "{}");
            match w.ensure_model(&t, true, true) {
                Ok(ModelStep::Load(kind)) => w.model_loaded(&t, kind),
                _ => panic!("not loaded"),
            }
            assert!(w.process(&t).is_ok());
        }
    }
}

#[test]
fn runs_with_given_settings() {
    let params = "{\"chunk_size\": 4, \"overlap\": 3, \"batch_size\": 2, \"device\": \"cpu\"}";
    match choose_run("source-separation", "full", read_settings(params), Loaded::MbrFull) {
        Ok(RunPlan::SeparateFull { chunk_size_sec, overlap }) => {
            assert_eq!((chunk_size_sec, overlap), (4, 3));
        }
        _ => panic!("other run"),
    }
    match choose_run("source-separation", "wsa", read_settings(params), Loaded::MbrWsa) {
        Ok(RunPlan::SeparateWsa { chunk_size_sec, batch_size }) => {
            assert_eq!((chunk_size_sec, batch_size), (4, 2));
        }
        _ => panic!("other run"),
    }
    match choose_run("vocal-enhance", "default", read_settings(params), Loaded::Srs) {
        Ok(RunPlan::Enhance { on_cpu }) => assert!(on_cpu),
        _ => panic!("other run"),
    }
}

#[test]
fn runs_with_default_settings() {
    match choose_run("source-separation", "full", read_settings("{}"), Loaded::MbrFull) {
        Ok(RunPlan::SeparateFull { chunk_size_sec, overlap }) => {
            assert_eq!((chunk_size_sec, overlap), (8, 2));
        }
        _ => panic!("other run"),
    }
    match choose_run("source-separation", "wsa", read_settings("null"), Loaded::MbrWsa) {
        Ok(RunPlan::SeparateWsa { chunk_size_sec, batch_size }) => {
            assert_eq!((chunk_size_sec, batch_size), (8, 4));
        }
        _ => panic!("other run"),
    }
    match choose_run("vocal-enhance", "default", read_settings("{}"), Loaded::Srs) {
        Ok(RunPlan::Enhance { on_cpu }) => assert!(!on_cpu),
        _ => panic!("other run"),
    }
    match choose_run("vocal2midi", "default", read_settings("{}"), Loaded::Game) {
        Ok(RunPlan::Transcribe(p)) => {
            assert_eq!(f64::from_bits(p.t0), 0.0);
            assert_eq!(p.nsteps, 8);
            assert_eq!(f64::from_bits(p.seg_threshold), 0.2);
            assert_eq!(f64::from_bits(p.seg_radius), 0.02);
            assert_eq!(f64::from_bits(p.est_threshold), 0.2);
            assert_eq!(f64::from_bits(p.tempo), 120.0);
            assert_eq!(p.language, None);
        }
        _ => panic!("other run"),
    }
}

#[test]
fn settings_of_a_transcription() {
    let params = "{\"language\": \"ja\", \"nsteps\": 4294967299, \"tempo\": 90, \"t0\": 0.25}";
    match choose_run("vocal2midi", "default", read_settings(params), Loaded::Game) {
        Ok(RunPlan::Transcribe(p)) => {
            assert_eq!(p.language, Some("ja".to_string()));
            assert_eq!(p.nsteps, 3);
            assert_eq!(f64::from_bits(p.tempo), 90.0);
            assert_eq!(f64::from_bits(p.t0), 0.25);
        }
        _ => panic!("other run"),
    }
}

#[test]
fn mismatched_models_are_refused() {
    let refused = |app: &str, variant: &str, loaded: Loaded| match choose_run(app, variant, read_settings("{}"), loaded) {
        Ok(_) => panic!("ran"),
        Err(e) => e,
    };
    assert_eq!(
        refused("source-separation", "full", Loaded::Srs),
        "model cache type mismatch for source-separation full"
    );
    assert_eq!(
        refused("source-separation", "wsa", Loaded::MbrFull),
        "model cache type mismatch for source-separation wsa"
    );
    assert_eq!(refused("vocal-enhance", "x", Loaded::Game), "model cache type mismatch for vocal-enhance");
    assert_eq!(refused("vocal2midi", "x", Loaded::Srs), "model cache type mismatch for vocal2midi");
    assert_eq!(
        refused("other \"app\"", "x", Loaded::Srs),
        "unsupported app/variant: (\"other \\\"app\\\"\", \"x\")"
    );
}

#[test]
fn running_jobs_are_announced() {
    let mut t = table();
    match begin(&mut t, "id", 7) {
        Some(JobEvent::Updated { job }) => assert_eq!(job.status, "running"),
        _ => panic!("no event"),
    }
    assert_eq!(get_job(&t, "id").unwrap_or_else(|| panic!("no job")).updated_at, 7);
    assert!(begin(&mut t, "other", 8).is_none());
}

#[test]
fn finished_jobs_are_done() {
    let mut t = table();
    let f = handle(&mut t, "id", Ok(vec![OutputFile::new("a.wav".to_string(), "audio", "Enhanced")]), 9);
    let j = f.result.unwrap_or_else(|e| panic!("{e}"));
    assert_eq!(j.status, "done");
    assert_eq!(j.outputs[0].name, "a.wav");
    assert!(matches!(f.event, Some(JobEvent::Updated { .. })));
}

#[test]
fn failed_jobs_say_why() {
    let mut t = table();
    let f = handle(&mut t, "id", Err("boom".to_string()), 9);
    assert_eq!(f.result.err(), Some("boom".to_string()));
    match f.event {
        Some(JobEvent::Updated { job }) => {
            assert_eq!(job.status, "error");
            assert_eq!(job.error, Some("boom".to_string()));
        }
        _ => panic!("no event"),
    }
}

#[test]
fn lost_jobs_are_reported() {
    let mut t = open();
    let f = handle(&mut t, "id", Ok(Vec::new()), 9);
    assert_eq!(f.result.err(), Some("job not found after completion".to_string()));
    assert!(f.event.is_none());
    let f = handle(&mut t, "id", Err("boom".to_string()), 9);
    assert_eq!(f.result.err(), Some("boom".to_string()));
    assert!(f.event.is_none());
}

#[test]
fn unknown_pairs_empty_the_cache() {
    let mut w = Worker::new(paths());
    let a = task(&w, "vocal-enhance", "renaissance", "{}");
    match w.ensure_model(&a, true, false) {
        Ok(ModelStep::Load(kind)) => w.model_loaded(&a, kind),
        _ => panic!("not loaded"),
    }
    let mut unknown = task(&w, "source-separation", "melband-roformer", "{}");
    unknown.variant = "odd".to_string();
    assert_eq!(
        w.ensure_model(&unknown, false, false).err(),
        Some("checkpoint not found: /ckpt/melband-roformer/melband-roformer.mlx.safetensors".to_string())
    );
    assert!(w.has_model());
    assert_eq!(
        w.ensure_model(&unknown, true, true).err(),
        Some("unsupported app/variant for load: (\"source-separation\", \"odd\")".to_string())
    );
    assert!(!w.has_model());
}
