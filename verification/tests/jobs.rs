use vocal_magic::jobs::{
    created_at, created_now, job_id, load_error, melband_fits, real_time_factor, run_midi, run_separation,
    run_super_resolution, separate_melband, separate_wsa, wsa_fits, Engine, Job, JobKind, JobStatus,
    MidiParams, ModelPaths, ModelStep, RealTimeFactor, RunResult, SeparationModel, SubmitReq,
};
use vocal_magic::models::source_separation::{Batch, ChannelPlan};

fn engine() -> Engine {
    let paths = ModelPaths {
        sr_checkpoint: "/m/sr".to_string(),
        game_weights: "/m/game".to_string(),
        game_config: "/m/game.yaml".to_string(),
        separation_melband_checkpoint: "/m/mel".to_string(),
        separation_wsa_checkpoint: "/m/wsa".to_string(),
    };
    Engine::new(paths, "/w".to_string())
}

fn request(app: &str, model: &str) -> SubmitReq {
    SubmitReq {
        name: "Song.MP3".to_string(),
        app: app.to_string(),
        model: model.to_string(),
        model_name: "Model".to_string(),
        midi: None,
    }
}

fn add(e: &mut Engine, id: &str, app: &str) -> Job {
    let req = request(app, "melband-roformer");
    let accepted = e.accept(&req, id.to_string()).unwrap_or_else(|m| panic!("{m}"));
    e.enqueue(req, accepted, 7)
}

#[test]
fn default_parameters() {
    let p = MidiParams::default();
    assert_eq!(f32::from_bits(p.t0), 0.0);
    assert_eq!(p.nsteps, 8);
    assert_eq!(f32::from_bits(p.seg_threshold), 0.2);
    assert_eq!(f32::from_bits(p.seg_radius), 0.02);
    assert_eq!(f32::from_bits(p.est_threshold), 0.2);
    assert_eq!(f32::from_bits(p.tempo), 120.0);
    assert_eq!(p.language, None);
    assert!(!p.quantize && !p.quantize_equal_weight);
}

#[test]
fn kinds_of_jobs() {
    assert_eq!(JobKind::from_request("super-resolution", "x"), Ok(JobKind::SuperResolution));
    assert_eq!(JobKind::from_request("transcribe-midi", "x"), Ok(JobKind::TranscribeMidi));
    assert_eq!(
        JobKind::from_request("separation", "melband-roformer"),
        Ok(JobKind::Separate(SeparationModel::MelBand))
    );
    assert_eq!(SeparationModel::from_id("wsa-mb-roformer-win10-sink8"), Ok(SeparationModel::Wsa));
    assert_eq!(
        JobKind::from_request("separation", "x"),
        Err("unsupported separation model: x".to_string())
    );
    assert_eq!(JobKind::from_request("x", "melband-roformer"), Err("unsupported app: x".to_string()));
    assert_eq!(JobKind::TranscribeMidi.product(), "midi");
    assert_eq!(JobKind::SuperResolution.product(), "audio");
    assert_eq!(JobKind::Separate(SeparationModel::Wsa).product(), "audio");
}

#[test]
fn ids_hold_the_time_and_a_number() {
    assert_eq!(job_id(1234567890123456789, 0), "job-1234567890123456789-0");
    assert_eq!(job_id(0, u64::MAX), "job-0-18446744073709551615");
    assert_ne!(job_id(1, 11), job_id(11, 1));
    assert_ne!(job_id(1, 1), job_id(1, 2));
}

#[test]
fn creation_times_are_recent() {
    let before = std::time::SystemTime::now().duration_since(std::time::UNIX_EPOCH).unwrap().as_secs();
    let now = created_now().unwrap_or_else(|| panic!("clock"));
    assert!(now >= before && now < before + 60);
}

#[test]
fn submitting_uses_up_numbers() {
    let mut e = engine();
    let first = e.submit(&request("nothing", "x")).unwrap_or_else(|| panic!("clock"));
    assert_eq!(first.err(), Some("unsupported app: nothing".to_string()));
    let second = e.submit(&request("separation", "melband-roformer")).unwrap_or_else(|| panic!("clock"));
    let a = second.unwrap_or_else(|m| panic!("{m}"));
    assert!(a.id.starts_with("job-") && a.id.ends_with("-1"));
    assert_eq!(a.input_path, format!("/w/{}.in.mp3", a.id));
    assert_eq!(a.kind, JobKind::Separate(SeparationModel::MelBand));
}

#[test]
fn uploads_without_extension() {
    let e = engine();
    let mut req = request("super-resolution", "x");
    req.name = "song".to_string();
    let a = e.accept(&req, "j".to_string()).unwrap_or_else(|m| panic!("{m}"));
    assert_eq!(a.input_path, "/w/j.in.bin");
    req.name = "x.ÄB".to_string();
    let a = e.accept(&req, "j".to_string()).unwrap_or_else(|m| panic!("{m}"));
    assert_eq!(a.input_path, "/w/j.in.äb");
}

#[test]
fn new_jobs_are_queued_in_front() {
    let mut e = engine();
    let j = add(&mut e, "a", "transcribe-midi");
    assert_eq!(j.status, JobStatus::Queued);
    assert_eq!((j.product, j.created_at), ("midi", 7));
    assert!(j.artifacts.is_empty() && j.error.is_none() && j.duration.is_none());
    add(&mut e, "b", "separation");
    let (items, total) = e.list(1, 10);
    let ids: Vec<String> = items.iter().map(|j| j.id.clone()).collect();
    assert_eq!(ids, vec!["b", "a"]);
    assert_eq!(total, 2);
    assert!(e.get("c").is_none());
}

#[test]
fn pages_hold_the_jobs_in_order() {
    let mut e = engine();
    for i in 0..7 {
        add(&mut e, &format!("j{i}"), "separation");
    }
    let mut all: Vec<String> = Vec::new();
    for page in 1..4 {
        let (items, total) = e.list(page, 3);
        assert_eq!(total, 7);
        assert_eq!(items.len(), if page == 3 { 1 } else { 3 });
        all.extend(items.iter().map(|j| j.id.clone()));
    }
    assert_eq!(all, vec!["j6", "j5", "j4", "j3", "j2", "j1", "j0"]);
    assert_eq!(e.list(4, 3).0.len(), 0);
    assert_eq!(e.list(1, 0).0.len(), 0);
}

#[test]
fn jobs_fail_where_the_worker_is_gone() {
    let mut e = engine();
    let j = add(&mut e, "a", "separation");
    let sent = e.settle(j.clone(), true);
    assert_eq!(sent.status, JobStatus::Queued);
    let lost = e.settle(j, false);
    assert_eq!(lost.status, JobStatus::Failed);
    assert_eq!(lost.error, Some("推理服务不可用（worker 已退出）".to_string()));
    assert_eq!(e.get("a").unwrap_or_else(|| panic!("no job")).status, JobStatus::Failed);
}

#[test]
fn jobs_are_taken_up_and_may_fail() {
    let mut e = engine();
    add(&mut e, "a", "separation");
    assert!(e.begin("x").is_none());
    assert_eq!(e.begin("a").unwrap_or_else(|| panic!("no job")).status, JobStatus::Processing);
    e.mark_failed("a", "boom".to_string());
    e.mark_failed("x", "boom".to_string());
    let j = e.get("a").unwrap_or_else(|| panic!("no job"));
    assert_eq!((j.status, j.error), (JobStatus::Failed, Some("boom".to_string())));
    assert_eq!(e.list(1, 9).1, 1);
}

#[test]
fn models_are_loaded_once() {
    let mut e = engine();
    let kinds = vec![
        JobKind::SuperResolution,
        JobKind::TranscribeMidi,
        JobKind::Separate(SeparationModel::MelBand),
        JobKind::Separate(SeparationModel::Wsa),
    ];
    for kind in kinds {
        match e.prepare_model(kind, true, true) {
            Ok(ModelStep::Load { weights, config }) => {
                assert!(weights.starts_with("/m/"));
                assert_eq!(config.is_some(), kind == JobKind::TranscribeMidi);
            }
            _ => panic!("no load"),
        }
        e.model_loaded(kind);
        assert!(matches!(e.prepare_model(kind, false, false), Ok(ModelStep::Ready)));
    }
}

#[test]
fn missing_model_files() {
    let e = engine();
    let missing = |kind: JobKind, weights: bool| match e.prepare_model(kind, weights, false) {
        Ok(_) => panic!("not missing"),
        Err(m) => m,
    };
    assert!(e.prepare_model(JobKind::SuperResolution, false, false).is_ok());
    assert_eq!(
        missing(JobKind::TranscribeMidi, false),
        "GAME 权重缺失：/m/game（请提供 .safetensors 与 config.yaml 后重试）"
    );
    assert_eq!(missing(JobKind::TranscribeMidi, true), "GAME 配置缺失：/m/game.yaml");
    assert_eq!(
        missing(JobKind::Separate(SeparationModel::MelBand), false),
        "MelBand checkpoint missing: /m/mel"
    );
    assert_eq!(missing(JobKind::Separate(SeparationModel::Wsa), false), "WSA checkpoint missing: /m/wsa");
}

#[test]
fn load_errors() {
    assert_eq!(load_error(JobKind::SuperResolution, "x"), "模型加载失败: x");
    assert_eq!(load_error(JobKind::TranscribeMidi, "x"), "GAME 模型加载失败: x");
    assert_eq!(
        load_error(JobKind::Separate(SeparationModel::MelBand), "x"),
        "MelBand model load failed: x"
    );
    assert_eq!(load_error(JobKind::Separate(SeparationModel::Wsa), "x"), "WSA model load failed: x");
}

#[test]
fn enhanced_jobs() {
    let mut e = engine();
    let j = add(&mut e, "a", "super-resolution");
    assert_eq!(run_super_resolution(&j), "/w/a.in.out.wav");
    e.finish_super_resolution(&j, 2_000_000_000, 96_000, 48_000);
    let done = e.get("a").unwrap_or_else(|| panic!("no job"));
    assert_eq!(done.status, JobStatus::Done);
    assert_eq!(done.output_path, Some("/w/a.in.out.wav".to_string()));
    assert_eq!(done.artifacts.len(), 1);
    assert_eq!(done.artifacts[0].key, "output");
    assert_eq!(done.artifacts[0].label, "已修复");
    assert_eq!(done.artifacts[0].kind, "audio");
    assert_eq!(done.duration, Some(2_000_000_000));
    assert_eq!(
        done.rtf,
        Some(RealTimeFactor::Quotient { elapsed_nanos: 2_000_000_000, samples: 96_000, sample_rate: 48_000 })
    );
    assert_eq!(real_time_factor(5, 0, 48_000), RealTimeFactor::Zero);
}

#[test]
fn transcribed_jobs() {
    let mut e = engine();
    let j = add(&mut e, "a", "transcribe-midi");
    let run = run_midi(&j);
    assert_eq!(run.midi_path, "/w/a.in.out.mid");
    assert_eq!(run.score_path, "/w/a.in.out.json");
    assert_eq!(run.notes_path, "/w/a.in.notes.json");
    assert_eq!(run.weighted, None);
    assert_eq!(run.params.nsteps, 8);
    e.finish_midi(&j, 3, 17);
    let done = e.get("a").unwrap_or_else(|| panic!("no job"));
    assert_eq!(done.status, JobStatus::Done);
    assert_eq!(done.output_path, Some(run.midi_path));
    assert_eq!(done.score_path, Some(run.score_path));
    assert_eq!(done.notes_path, Some(run.notes_path));
    assert_eq!((done.note_count, done.duration, done.rtf), (Some(17), Some(3), None));
    let keys: Vec<String> = done.artifacts.iter().map(|a| a.key.clone()).collect();
    assert_eq!(keys, vec!["midi", "json", "notes"]);
}

#[test]
fn quantised_transcriptions() {
    let mut e = engine();
    let mut j = add(&mut e, "a", "transcribe-midi");
    let mut p = MidiParams::default();
    p.quantize = true;
    p.nsteps = 3;
    j.midi = Some(p.clone());
    assert_eq!(run_midi(&j).weighted, Some(true));
    assert_eq!(run_midi(&j).params.nsteps, 3);
    p.quantize_equal_weight = true;
    j.midi = Some(p);
    assert_eq!(run_midi(&j).weighted, Some(false));
}

#[test]
fn separated_jobs() {
    let mut e = engine();
    add(&mut e, "b", "separation");
    let j = add(&mut e, "a", "separation");
    let (vocal, instrumental) = run_separation(&j);
    assert_eq!((vocal.as_str(), instrumental.as_str()), ("/w/a.in.vocal.wav", "/w/a.in.instrumental.wav"));
    e.finish_separation(&j, 10, 441);
    let done = e.get("a").unwrap_or_else(|| panic!("no job"));
    assert_eq!(done.output_path, Some(vocal));
    assert_eq!(done.artifacts[1].path, instrumental);
    assert_eq!(done.artifacts[0].label, "Vocal");
    assert_eq!(done.artifacts[1].label, "Instrumental");
    assert_eq!(
        done.rtf,
        Some(RealTimeFactor::Quotient { elapsed_nanos: 10, samples: 441, sample_rate: 44_100 })
    );
    assert_eq!(e.get("b").unwrap_or_else(|| panic!("no job")).status, JobStatus::Queued);
}

#[test]
fn plans_of_separations() {
    let m = separate_melband(1_000_000, 1).unwrap_or_else(|e| panic!("{e}"));
    assert_eq!(m.channels, ChannelPlan::Repeat);
    assert_eq!((m.plan.step, m.plan.border, m.plan.total_length), (176_400, 176_400, 1_352_800));
    assert_eq!(m.plan.parts.len(), 8);
    let w = separate_wsa(2_000_000, 2).unwrap_or_else(|e| panic!("{e}"));
    assert_eq!((w.plan.clips, w.plan.padding), (6, 116_800));
    assert_eq!(w.batches, vec![Batch { pointer: 0, size: 4 }, Batch { pointer: 4, size: 2 }]);
    assert_eq!(separate_melband(0, 1).err(), Some("input audio contains no decoded frames".to_string()));
    assert_eq!(separate_wsa(1, 0).err(), Some("input audio contains no decoded channels".to_string()));
}

#[test]
fn lengths_of_separations() {
    assert!(melband_fits(1_073_389_023));
    assert!(!melband_fits(1_073_389_024));
    assert!(wsa_fits(2_147_130_847));
    assert!(!wsa_fits(2_147_130_848));
}

#[test]
fn creation_times_of_moments() {
    let epoch = std::time::UNIX_EPOCH;
    assert_eq!(created_at(epoch), Some(0));
    assert_eq!(created_at(epoch + std::time::Duration::new(7, 999_999_999)), Some(7));
    assert_eq!(created_at(epoch - std::time::Duration::from_secs(1)), None);
}

#[test]
fn requests_at_moments() {
    let mut e = engine();
    let t = std::time::UNIX_EPOCH + std::time::Duration::new(1, 5);
    let before = std::time::UNIX_EPOCH - std::time::Duration::from_secs(1);
    assert!(e.submit_at(&request("super-resolution", "x"), before).is_none());
    let refused = e.submit_at(&request("nothing", "x"), t).unwrap_or_else(|| panic!("clock"));
    assert_eq!(refused.err(), Some("unsupported app: nothing".to_string()));
    let accepted = e.submit_at(&request("super-resolution", "x"), t).unwrap_or_else(|| panic!("clock"));
    let a = accepted.unwrap_or_else(|m| panic!("{m}"));
    assert_eq!(a.id, "job-1000000005-1");
    assert_eq!(a.input_path, "/w/job-1000000005-1.in.mp3");
}

#[test]
fn a_queue_is_served_to_its_end() {
    let mut e = engine();
    add(&mut e, "a", "super-resolution");
    add(&mut e, "b", "transcribe-midi");
    add(&mut e, "c", "super-resolution");
    add(&mut e, "d", "separation");
    let mut loads = 0;
    for id in vec!["a", "x", "b", "c"] {
        let job = match e.begin(id) {
            Some(job) => job,
            None => continue,
        };
        let result = match e.prepare_model(job.kind, false, false) {
            Err(message) => Err(message),
            Ok(step) => {
                if matches!(step, ModelStep::Load { .. }) {
                    loads += 1;
                    e.model_loaded(job.kind);
                }
                Ok(RunResult::Enhanced { elapsed_nanos: 1, samples: 2, sample_rate: 3 })
            }
        };
        e.conclude(&job, result);
    }
    let status = |id: &str| e.get(id).unwrap_or_else(|| panic!("no job")).status;
    assert_eq!(loads, 1);
    assert_eq!(status("a"), JobStatus::Done);
    assert_eq!(status("b"), JobStatus::Failed);
    assert_eq!(status("c"), JobStatus::Done);
    assert_eq!(status("d"), JobStatus::Queued);
    assert!(e.get("b").unwrap_or_else(|| panic!("no job")).error.is_some());
    assert_eq!(e.list(1, 9).1, 4);
}

#[test]
fn outcomes_are_noted() {
    let mut e = engine();
    let a = add(&mut e, "a", "transcribe-midi");
    let b = add(&mut e, "b", "separation");
    e.conclude(&a, Ok(RunResult::Transcribed { elapsed_nanos: 5, note_count: 6 }));
    e.conclude(&b, Ok(RunResult::Separated { elapsed_nanos: 7, samples: 0 }));
    assert_eq!(e.get("a").unwrap_or_else(|| panic!("no job")).note_count, Some(6));
    assert_eq!(e.get("b").unwrap_or_else(|| panic!("no job")).rtf, Some(RealTimeFactor::Zero));
    e.conclude(&b, Err("boom".to_string()));
    assert_eq!(e.get("b").unwrap_or_else(|| panic!("no job")).error, Some("boom".to_string()));
}

#[test]
fn files_of_the_engines_models() {
    let e = engine();
    assert_eq!(e.model_files(JobKind::SuperResolution), ("/m/sr".to_string(), None));
    assert_eq!(
        e.model_files(JobKind::TranscribeMidi),
        ("/m/game".to_string(), Some("/m/game.yaml".to_string()))
    );
    assert_eq!(
        e.model_files(JobKind::Separate(SeparationModel::MelBand)),
        ("/m/mel".to_string(), None)
    );
    assert_eq!(e.model_files(JobKind::Separate(SeparationModel::Wsa)), ("/m/wsa".to_string(), None));
}

#[test]
fn ids_are_served_with_what_is_found() {
    let mut e = engine();
    let given = RunResult::Enhanced { elapsed_nanos: 1, samples: 2, sample_rate: 3 };
    for id in vec!["a", "b", "c"] {
        add(&mut e, id, "super-resolution");
    }
    add(&mut e, "m", "transcribe-midi");
    e.serve("x", true, true, Ok(()), Ok(given));
    e.serve("a", true, true, Err("broken".to_string()), Ok(given));
    e.serve("b", true, true, Ok(()), Err("boom".to_string()));
    e.serve("c", false, false, Err("not asked".to_string()), Ok(given));
    e.serve("m", true, false, Ok(()), Ok(given));
    let error = |id: &str| e.get(id).unwrap_or_else(|| panic!("no job")).error;
    assert_eq!(error("a"), Some("模型加载失败: broken".to_string()));
    assert_eq!(error("b"), Some("boom".to_string()));
    assert_eq!(error("c"), None);
    assert_eq!(error("m"), Some("GAME 配置缺失：/m/game.yaml".to_string()));
    assert_eq!(e.get("c").unwrap_or_else(|| panic!("no job")).status, JobStatus::Done);
    assert_eq!(e.list(1, 9).1, 4);
}

#[test]
fn requests_are_cloned() {
    let req = request("separation", "x").clone();
    assert_eq!((req.name.as_str(), req.app.as_str(), req.model.as_str()), ("Song.MP3", "separation", "x"));
    assert!(format!("{req:?}").contains("Song.MP3"));
}
