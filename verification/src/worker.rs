//! The worker: what it does with a job, which model it keeps in memory, and
//! what becomes of the job's record.

use vstd::prelude::*;

use crate::apps::find_app;
use crate::db::{get_job, set_done, set_error, set_status, Job, JobTable, JobView, OutputFile};
use crate::events::{JobEvent, JobEventView};
use crate::json::{bits_or, get_f64_bits, get_i64, get_text, int_or, text_or};
use crate::models::vocal2midi::{Vocal2MidiParams, Vocal2MidiView};
use crate::models::Loaded;
use crate::paths::{join, path_file_stem};
use crate::storage::{Paths, PathsView};
use crate::text::{joined, joined3, same};

verus! {

// ---------- what a job needs ----------

/// Everything that working on a job needs to know.
pub struct Task {
    pub app_id: String,
    pub variant: String,
    pub model_dir: String,
    /// The path of the model's weights.
    pub checkpoint: String,
    /// The path of the model's configuration.
    pub config: String,
    pub input_path: String,
    pub work_dir: String,
    pub params: String,
    /// What the names of the output files begin with.
    pub stem: String,
}

/// A task, as mathematical values.
pub struct TaskView {
    pub app_id: Seq<char>,
    pub variant: Seq<char>,
    pub model_dir: Seq<char>,
    pub checkpoint: Seq<char>,
    pub config: Seq<char>,
    pub input_path: Seq<char>,
    pub work_dir: Seq<char>,
    pub params: Seq<char>,
    pub stem: Seq<char>,
}

impl View for Task {
    type V = TaskView;

    open spec fn view(&self) -> TaskView {
        TaskView {
            app_id: self.app_id@,
            variant: self.variant@,
            model_dir: self.model_dir@,
            checkpoint: self.checkpoint@,
            config: self.config@,
            input_path: self.input_path@,
            work_dir: self.work_dir@,
            params: self.params@,
            stem: self.stem@,
        }
    }
}

/// What the names of a job's output files begin with: the stem of the name
/// that the client has sent.
pub open spec fn output_stem(input_filename: Seq<char>) -> Seq<char> {
    match crate::paths::file_stem(input_filename) {
        Some(stem) => stem,
        None => "output"@,
    }
}

/// The directory of a model below the checkpoint directory.
pub open spec fn model_dir(checkpoints_dir: Seq<char>, model: crate::apps::ModelDefView) -> Seq<
    char,
> {
    crate::paths::path_join(checkpoints_dir, model.dir)
}

/// The path of a model's weights.
pub open spec fn checkpoint_path(
    checkpoints_dir: Seq<char>,
    model: crate::apps::ModelDefView,
) -> Seq<char> {
    crate::paths::path_join(model_dir(checkpoints_dir, model), model.checkpoint)
}

/// The task of a job with a known app and model.
pub open spec fn task_for(
    paths: PathsView,
    job: JobView,
    app: crate::apps::AppDefView,
    model: crate::apps::ModelDefView,
) -> TaskView {
    TaskView {
        app_id: app.id,
        variant: model.variant,
        model_dir: model_dir(paths.checkpoints_dir, model),
        checkpoint: checkpoint_path(paths.checkpoints_dir, model),
        config: crate::paths::path_join(
            model_dir(paths.checkpoints_dir, model),
            "config.yaml"@,
        ),
        input_path: job.input_path,
        work_dir: job.work_dir,
        params: job.params,
        stem: output_stem(job.input_filename),
    }
}

/// The task of a job, or why there is none: the job, its app or its model is
/// not known.
pub open spec fn task_of(paths: PathsView, job_id: Seq<char>, job: Option<JobView>) -> Result<
    TaskView,
    Seq<char>,
> {
    match job {
        None => Err("job "@ + job_id + " not found"@),
        Some(j) => match crate::apps::app_with_id(crate::apps::catalogue(), j.app) {
            None => Err("unknown app: "@ + j.app),
            Some(app) => match crate::apps::model_with_id(app.models, j.model) {
                None => Err("unknown model: "@ + j.model),
                Some(model) => Ok(task_for(paths, j, app, model)),
            },
        },
    }
}

// ---------- which model is in memory ----------

/// The kind of model that an app and a variant need.
pub open spec fn load_kind(app_id: Seq<char>, variant: Seq<char>) -> Option<Loaded> {
    if app_id == "source-separation"@ && variant == "full"@ {
        Some(Loaded::MbrFull)
    } else if app_id == "source-separation"@ && variant == "wsa"@ {
        Some(Loaded::MbrWsa)
    } else if app_id == "vocal-enhance"@ {
        Some(Loaded::Srs)
    } else if app_id == "vocal2midi"@ {
        Some(Loaded::Game)
    } else {
        None
    }
}

/// The kind of model that an app and a variant need.
pub fn kind_to_load(app_id: &str, variant: &str) -> (r: Option<Loaded>)
    ensures
        r == load_kind(app_id@, variant@),
{
    if same(app_id, "source-separation") && same(variant, "full") {
        Some(Loaded::MbrFull)
    } else if same(app_id, "source-separation") && same(variant, "wsa") {
        Some(Loaded::MbrWsa)
    } else if same(app_id, "vocal-enhance") {
        Some(Loaded::Srs)
    } else if same(app_id, "vocal2midi") {
        Some(Loaded::Game)
    } else {
        None
    }
}

/// A pair of texts as Rust's debug formatting shows it.
pub uninterp spec fn debug_pair(a: Seq<char>, b: Seq<char>) -> Seq<char>;

/// `format!` with `{:?}` of a pair of texts: the two as quoted literals in
/// round brackets.
#[verifier::external_body]
fn format_pair(a: &str, b: &str) -> (r: String)
    ensures
        r@ == debug_pair(a@, b@),
{
    format!("{:?}", (a, b))
}

/// The model in memory: the path of its weights, and its kind.
pub struct CachedModel {
    pub key: String,
    pub kind: Loaded,
}

/// The state of the worker.
pub struct Worker {
    paths: Paths,
    cache: Option<CachedModel>,
}

/// The state of the worker, as mathematical values.
pub struct WorkerView {
    pub paths: PathsView,
    /// The path of the weights of the model in memory, and its kind.
    pub cache: Option<(Seq<char>, Loaded)>,
}

impl View for Worker {
    type V = WorkerView;

    closed spec fn view(&self) -> WorkerView {
        WorkerView {
            paths: self.paths@,
            cache: match self.cache {
                Some(c) => Some((c.key@, c.kind)),
                None => None,
            },
        }
    }
}

/// Whether a model of the catalogue has its weights at `checkpoint` and belongs
/// to the app and variant.
pub open spec fn names_catalogue_model(
    checkpoints_dir: Seq<char>,
    checkpoint: Seq<char>,
    app_id: Seq<char>,
    variant: Seq<char>,
) -> bool {
    exists|i: int, k: int|
        #![trigger crate::apps::catalogue()[i].models[k]]
        0 <= i < crate::apps::catalogue().len() && 0 <= k
            < crate::apps::catalogue()[i].models.len() && checkpoint == checkpoint_path(
            checkpoints_dir,
            crate::apps::catalogue()[i].models[k],
        ) && app_id == crate::apps::catalogue()[i].id && variant
            == crate::apps::catalogue()[i].models[k].variant
}

/// Whether the weights at `key` are those of a model of the catalogue whose app
/// and variant need a model of kind `kind`.
pub open spec fn is_sound_entry(checkpoints_dir: Seq<char>, key: Seq<char>, kind: Loaded) -> bool {
    exists|app_id: Seq<char>, variant: Seq<char>|
        #[trigger]
        names_catalogue_model(checkpoints_dir, key, app_id, variant) && load_kind(app_id, variant)
            == Some(kind)
}

/// Whether the model in memory is a model of the catalogue, of the kind that
/// its app and variant need.
pub open spec fn cache_is_sound(state: WorkerView) -> bool {
    state.cache is Some ==> is_sound_entry(
        state.paths.checkpoints_dir,
        state.cache->Some_0.0,
        state.cache->Some_0.1,
    )
}

/// Whether a task concerns a model of the catalogue.
pub open spec fn is_catalogue_task(paths: PathsView, task: TaskView) -> bool {
    names_catalogue_model(paths.checkpoints_dir, task.checkpoint, task.app_id, task.variant)
}

/// What getting a model into memory takes.
pub enum ModelStep {
    /// It is there.
    Ready,
    /// It is loaded from the task's files.
    Load(Loaded),
}

/// What getting the model of a task into memory takes, and the cache
/// meanwhile. A model that is there is kept; a missing weights file leaves the
/// cache as it is; before any other model is loaded the cache is emptied.
pub open spec fn model_step(
    cache: Option<(Seq<char>, Loaded)>,
    task: TaskView,
    checkpoint_exists: bool,
    config_exists: bool,
) -> (Result<ModelStep, Seq<char>>, Option<(Seq<char>, Loaded)>) {
    if cache is Some && cache->Some_0.0 == task.checkpoint {
        (Ok(ModelStep::Ready), cache)
    } else if !checkpoint_exists {
        (Err("checkpoint not found: "@ + task.checkpoint), cache)
    } else {
        match load_kind(task.app_id, task.variant) {
            None => (
                Err("unsupported app/variant for load: "@ + debug_pair(task.app_id, task.variant)),
                None,
            ),
            Some(kind) => if kind is Game && !config_exists {
                (Err("GAME config not found: "@ + task.config), None)
            } else {
                (Ok(ModelStep::Load(kind)), None)
            },
        }
    }
}

// ---------- what is run ----------

/// The settings that a job's parameters give, each as it was found.
pub struct Settings {
    pub chunk_size: Option<i64>,
    pub overlap: Option<i64>,
    pub batch_size: Option<i64>,
    pub nsteps: Option<i64>,
    pub device: Option<String>,
    pub language: Option<String>,
    pub t0: Option<u64>,
    pub seg_threshold: Option<u64>,
    pub seg_radius: Option<u64>,
    pub est_threshold: Option<u64>,
    pub tempo: Option<u64>,
}

/// Settings, as mathematical values.
pub struct SettingsView {
    pub chunk_size: Option<i64>,
    pub overlap: Option<i64>,
    pub batch_size: Option<i64>,
    pub nsteps: Option<i64>,
    pub device: Option<Seq<char>>,
    pub language: Option<Seq<char>>,
    pub t0: Option<u64>,
    pub seg_threshold: Option<u64>,
    pub seg_radius: Option<u64>,
    pub est_threshold: Option<u64>,
    pub tempo: Option<u64>,
}

impl View for Settings {
    type V = SettingsView;

    open spec fn view(&self) -> SettingsView {
        SettingsView {
            chunk_size: self.chunk_size,
            overlap: self.overlap,
            batch_size: self.batch_size,
            nsteps: self.nsteps,
            device: crate::db::text_view(self.device),
            language: crate::db::text_view(self.language),
            t0: self.t0,
            seg_threshold: self.seg_threshold,
            seg_radius: self.seg_radius,
            est_threshold: self.est_threshold,
            tempo: self.tempo,
        }
    }
}

/// The settings in a job's parameters.
pub open spec fn settings_of(params: Seq<char>) -> SettingsView {
    SettingsView {
        chunk_size: crate::json::int_param(params, "chunk_size"@),
        overlap: crate::json::int_param(params, "overlap"@),
        batch_size: crate::json::int_param(params, "batch_size"@),
        nsteps: crate::json::int_param(params, "nsteps"@),
        device: crate::json::text_param(params, "device"@),
        language: crate::json::text_param(params, "language"@),
        t0: crate::json::double_param(params, "t0"@),
        seg_threshold: crate::json::double_param(params, "seg_threshold"@),
        seg_radius: crate::json::double_param(params, "seg_radius"@),
        est_threshold: crate::json::double_param(params, "est_threshold"@),
        tempo: crate::json::double_param(params, "tempo"@),
    }
}

/// Settings of which none is given.
pub open spec fn no_settings() -> SettingsView {
    SettingsView {
        chunk_size: None,
        overlap: None,
        batch_size: None,
        nsteps: None,
        device: None,
        language: None,
        t0: None,
        seg_threshold: None,
        seg_radius: None,
        est_threshold: None,
        tempo: None,
    }
}

/// The settings in a job's parameters.
pub fn read_settings(params: &str) -> (r: Settings)
    ensures
        r@ == settings_of(params@),
        params@ == "{}"@ || params@ == "null"@ ==> r@ == no_settings(),
{
    Settings {
        chunk_size: get_i64(params, "chunk_size"),
        overlap: get_i64(params, "overlap"),
        batch_size: get_i64(params, "batch_size"),
        nsteps: get_i64(params, "nsteps"),
        device: get_text(params, "device"),
        language: get_text(params, "language"),
        t0: get_f64_bits(params, "t0"),
        seg_threshold: get_f64_bits(params, "seg_threshold"),
        seg_radius: get_f64_bits(params, "seg_radius"),
        est_threshold: get_f64_bits(params, "est_threshold"),
        tempo: get_f64_bits(params, "tempo"),
    }
}

/// What the worker runs on a job's input.
pub enum RunPlan {
    SeparateFull { chunk_size_sec: i32, overlap: i32 },
    SeparateWsa { chunk_size_sec: i32, batch_size: i32 },
    Enhance { on_cpu: bool },
    Transcribe(Vocal2MidiParams),
}

/// A run, as mathematical values.
pub enum RunPlanView {
    SeparateFull { chunk_size_sec: i32, overlap: i32 },
    SeparateWsa { chunk_size_sec: i32, batch_size: i32 },
    Enhance { on_cpu: bool },
    Transcribe(Vocal2MidiView),
}

impl View for RunPlan {
    type V = RunPlanView;

    open spec fn view(&self) -> RunPlanView {
        match self {
            RunPlan::SeparateFull { chunk_size_sec, overlap } => RunPlanView::SeparateFull {
                chunk_size_sec: *chunk_size_sec,
                overlap: *overlap,
            },
            RunPlan::SeparateWsa { chunk_size_sec, batch_size } => RunPlanView::SeparateWsa {
                chunk_size_sec: *chunk_size_sec,
                batch_size: *batch_size,
            },
            RunPlan::Enhance { on_cpu } => RunPlanView::Enhance { on_cpu: *on_cpu },
            RunPlan::Transcribe(params) => RunPlanView::Transcribe(params@),
        }
    }
}

/// An outcome with a text for failure, as mathematical values.
pub open spec fn run_view(r: Result<RunPlan, String>) -> Result<RunPlanView, Seq<char>> {
    match r {
        Ok(plan) => Ok(plan@),
        Err(message) => Err(message@),
    }
}

/// The lowest 32 bits of a number, as a signed number.
pub open spec fn low_bits(x: i64) -> i32 {
    x as i32
}

fn narrowed(x: i64) -> (r: i32)
    ensures
        r == low_bits(x),
        i32::MIN <= x <= i32::MAX ==> r == x,
{
    #[verifier::truncate]
    (x as i32)
}

/// The bits of 0.2 as a double.
pub const BITS_0_2: u64 = 0x3FC9_9999_9999_999A;

/// The bits of 0.02 as a double.
pub const BITS_0_02: u64 = 0x3F94_7AE1_47AE_147B;

/// The bits of 120 as a double.
pub const BITS_120: u64 = 0x405E_0000_0000_0000;

/// The settings of a transcription: what was given, and the defaults for the
/// rest. The language `none` stands for no language.
pub open spec fn transcription(s: SettingsView) -> Vocal2MidiView {
    let language = crate::json::or_default(s.language, "none"@);
    Vocal2MidiView {
        t0: crate::json::or_default(s.t0, 0u64),
        nsteps: low_bits(crate::json::or_default(s.nsteps, 8i64)),
        seg_threshold: crate::json::or_default(s.seg_threshold, BITS_0_2),
        seg_radius: crate::json::or_default(s.seg_radius, BITS_0_02),
        est_threshold: crate::json::or_default(s.est_threshold, BITS_0_2),
        tempo: crate::json::or_default(s.tempo, BITS_120),
        language: if language == "none"@ {
            None
        } else {
            Some(language)
        },
    }
}

/// What the worker runs for an app and a variant with the given settings and a
/// model of kind `loaded` in memory, or why it cannot.
pub open spec fn run_of(
    app_id: Seq<char>,
    variant: Seq<char>,
    s: SettingsView,
    loaded: Loaded,
) -> Result<RunPlanView, Seq<char>> {
    if app_id == "source-separation"@ && variant == "full"@ {
        if loaded is MbrFull {
            Ok(
                RunPlanView::SeparateFull {
                    chunk_size_sec: low_bits(crate::json::or_default(s.chunk_size, 8i64)),
                    overlap: low_bits(crate::json::or_default(s.overlap, 2i64)),
                },
            )
        } else {
            Err("model cache type mismatch for source-separation full"@)
        }
    } else if app_id == "source-separation"@ && variant == "wsa"@ {
        if loaded is MbrWsa {
            Ok(
                RunPlanView::SeparateWsa {
                    chunk_size_sec: low_bits(crate::json::or_default(s.chunk_size, 8i64)),
                    batch_size: low_bits(crate::json::or_default(s.batch_size, 4i64)),
                },
            )
        } else {
            Err("model cache type mismatch for source-separation wsa"@)
        }
    } else if app_id == "vocal-enhance"@ {
        if loaded is Srs {
            Ok(
                RunPlanView::Enhance {
                    on_cpu: crate::json::or_default(s.device, "gpu"@) == "cpu"@,
                },
            )
        } else {
            Err("model cache type mismatch for vocal-enhance"@)
        }
    } else if app_id == "vocal2midi"@ {
        if loaded is Game {
            Ok(RunPlanView::Transcribe(transcription(s)))
        } else {
            Err("model cache type mismatch for vocal2midi"@)
        }
    } else {
        Err("unsupported app/variant: "@ + debug_pair(app_id, variant))
    }
}

/// What the worker runs for an app and a variant with the given settings and a
/// model of kind `loaded` in memory.
pub fn choose_run(app_id: &str, variant: &str, settings: Settings, loaded: Loaded) -> (r: Result<
    RunPlan,
    String,
>)
    ensures
        run_view(r) == run_of(app_id@, variant@, settings@, loaded),
        r matches Ok(RunPlan::Transcribe(p)) ==> {
            &&& settings.t0 matches Some(x) ==> p.t0 == x
            &&& settings.seg_threshold matches Some(x) ==> p.seg_threshold == x
            &&& settings.seg_radius matches Some(x) ==> p.seg_radius == x
            &&& settings.est_threshold matches Some(x) ==> p.est_threshold == x
            &&& settings.tempo matches Some(x) ==> p.tempo == x
            &&& settings.nsteps matches Some(n) ==> i32::MIN <= n <= i32::MAX ==> p.nsteps == n
            &&& settings.language matches Some(l) ==> l@ != "none"@ ==> p.language is Some
                && p.language->Some_0@ == l@
        },
{
    if same(app_id, "source-separation") && same(variant, "full") {
        let chunk_size_sec: i32 = narrowed(int_or(settings.chunk_size, 8));
        let overlap: i32 = narrowed(int_or(settings.overlap, 2));
        match loaded {
            Loaded::MbrFull => Ok(RunPlan::SeparateFull { chunk_size_sec, overlap }),
            _ => Err("model cache type mismatch for source-separation full".to_owned()),
        }
    } else if same(app_id, "source-separation") && same(variant, "wsa") {
        let chunk_size_sec: i32 = narrowed(int_or(settings.chunk_size, 8));
        let batch_size: i32 = narrowed(int_or(settings.batch_size, 4));
        match loaded {
            Loaded::MbrWsa => Ok(RunPlan::SeparateWsa { chunk_size_sec, batch_size }),
            _ => Err("model cache type mismatch for source-separation wsa".to_owned()),
        }
    } else if same(app_id, "vocal-enhance") {
        let device: String = text_or(settings.device, "gpu");
        let on_cpu: bool = same(device.as_str(), "cpu");
        match loaded {
            Loaded::Srs => Ok(RunPlan::Enhance { on_cpu }),
            _ => Err("model cache type mismatch for vocal-enhance".to_owned()),
        }
    } else if same(app_id, "vocal2midi") {
        let language: String = text_or(settings.language, "none");
        let params = Vocal2MidiParams {
            t0: bits_or(settings.t0, 0),
            nsteps: narrowed(int_or(settings.nsteps, 8)),
            seg_threshold: bits_or(settings.seg_threshold, BITS_0_2),
            seg_radius: bits_or(settings.seg_radius, BITS_0_02),
            est_threshold: bits_or(settings.est_threshold, BITS_0_2),
            tempo: bits_or(settings.tempo, BITS_120),
            language: if same(language.as_str(), "none") {
                None
            } else {
                Some(language)
            },
        };
        match loaded {
            Loaded::Game => Ok(RunPlan::Transcribe(params)),
            _ => Err("model cache type mismatch for vocal2midi".to_owned()),
        }
    } else {
        let pair: String = format_pair(app_id, variant);
        Err(joined("unsupported app/variant: ", pair.as_str()))
    }
}

impl Worker {
    /// A worker without a model in memory.
    pub fn new(paths: Paths) -> (r: Self)
        ensures
            r@ == (WorkerView { paths: paths@, cache: None }),
            cache_is_sound(r@),
    {
        Worker { paths, cache: None }
    }

    /// Whether there is a model in memory.
    pub fn has_model(&self) -> (r: bool)
        ensures
            r == (self@.cache is Some),
    {
        self.cache.is_some()
    }

    /// What working on a job needs to know, given the record that its id finds.
    pub fn prepare(&self, job_id: &str, job: Option<Job>) -> (r: Result<Task, String>)
        ensures
            match r {
                Ok(task) => task_of(
                    self@.paths,
                    job_id@,
                    match job {
                        Some(j) => Some(j@),
                        None => None,
                    },
                ) == Ok::<TaskView, Seq<char>>(task@) && is_catalogue_task(self@.paths, task@),
                Err(message) => task_of(
                    self@.paths,
                    job_id@,
                    match job {
                        Some(j) => Some(j@),
                        None => None,
                    },
                ) == Err::<TaskView, Seq<char>>(message@),
            },
    {
        let job: Job = match job {
            Some(job) => job,
            None => return Err(joined3("job ", job_id, " not found")),
        };
        let app = match find_app(job.app.as_str()) {
            Some(app) => app,
            None => return Err(joined("unknown app: ", job.app.as_str())),
        };
        let model = match app.find_model(job.model.as_str()) {
            Some(model) => model,
            None => return Err(joined("unknown model: ", job.model.as_str())),
        };
        let model_dir: String = self.paths.model_dir(model.dir.as_str());
        let checkpoint: String = join(model_dir.as_str(), model.checkpoint.as_str());
        let config: String = join(model_dir.as_str(), "config.yaml");
        let stem: String = match path_file_stem(job.input_filename.as_str()) {
            Some(stem) => stem,
            None => "output".to_owned(),
        };
        proof {
            lemma_found_model_is_in_catalogue(self@.paths, app@, model@, job@.app, job@.model);
        }
        Ok(
            Task {
                app_id: app.id,
                variant: model.variant,
                model_dir,
                checkpoint,
                config,
                input_path: job.input_path,
                work_dir: job.work_dir,
                params: job.params,
                stem,
            },
        )
    }

    /// What getting the model of a task into memory takes, given which of its
    /// files are there. A model to load is reported back with `model_loaded`
    /// once it is there.
    pub fn ensure_model(&mut self, task: &Task, checkpoint_exists: bool, config_exists: bool) -> (r:
        Result<ModelStep, String>)
        ensures
            final(self)@.paths == old(self)@.paths,
            ({
                let (step, cache) = model_step(
                    old(self)@.cache,
                    task@,
                    checkpoint_exists,
                    config_exists,
                );
                &&& final(self)@.cache == cache
                &&& match r {
                    Ok(s) => step == Ok::<ModelStep, Seq<char>>(s),
                    Err(message) => step == Err::<ModelStep, Seq<char>>(message@),
                }
            }),
            r matches Ok(ModelStep::Load(kind)) ==> Some(kind) == load_kind(
                task@.app_id,
                task@.variant,
            ),
            cache_is_sound(old(self)@) ==> cache_is_sound(final(self)@),
            cache_is_sound(old(self)@) && is_catalogue_task(old(self)@.paths, task@) ==> (
            r matches Ok(ModelStep::Ready) ==> final(self)@.cache is Some && Some(
                final(self)@.cache->Some_0.1,
            ) == load_kind(task@.app_id, task@.variant)),
    {
        let hit: bool = match &self.cache {
            Some(c) => same(c.key.as_str(), task.checkpoint.as_str()),
            None => false,
        };
        if hit {
            proof {
                if cache_is_sound(self@) && is_catalogue_task(self@.paths, task@) {
                    lemma_cached_kind(self@, task@);
                }
            }
            return Ok(ModelStep::Ready);
        }
        if !checkpoint_exists {
            return Err(joined("checkpoint not found: ", task.checkpoint.as_str()));
        }
        self.cache = None;
        match kind_to_load(task.app_id.as_str(), task.variant.as_str()) {
            None => {
                let pair: String = format_pair(task.app_id.as_str(), task.variant.as_str());
                Err(joined("unsupported app/variant for load: ", pair.as_str()))
            },
            Some(kind) => {
                let is_game: bool = match kind {
                    Loaded::Game => true,
                    _ => false,
                };
                if is_game && !config_exists {
                    Err(joined("GAME config not found: ", task.config.as_str()))
                } else {
                    Ok(ModelStep::Load(kind))
                }
            },
        }
    }

    /// Notes that the model of a task has been loaded.
    pub fn model_loaded(&mut self, task: &Task, kind: Loaded)
        ensures
            final(self)@ == (WorkerView {
                paths: old(self)@.paths,
                cache: Some((task@.checkpoint, kind)),
            }),
            is_catalogue_task(old(self)@.paths, task@) && load_kind(task@.app_id, task@.variant)
                == Some(kind) ==> cache_is_sound(final(self)@),
    {
        self.cache = Some(CachedModel { key: task.checkpoint.clone(), kind });
        proof {
            if is_catalogue_task(self@.paths, task@) && load_kind(task@.app_id, task@.variant)
                == Some(kind) {
                assert(names_catalogue_model(
                    self@.paths.checkpoints_dir,
                    task@.checkpoint,
                    task@.app_id,
                    task@.variant,
                ));
                assert(is_sound_entry(self@.paths.checkpoints_dir, task@.checkpoint, kind));
            }
        }
    }

    /// What is run on the input of a task, with the model in memory. There has
    /// to be one.
    pub fn process(&self, task: &Task) -> (r: Result<RunPlan, String>)
        requires
            self@.cache is Some,
        ensures
            run_view(r) == run_of(
                task@.app_id,
                task@.variant,
                settings_of(task@.params),
                self@.cache->Some_0.1,
            ),
            task@.params == "{}"@ || task@.params == "null"@ ==> run_view(r) == run_of(
                task@.app_id,
                task@.variant,
                no_settings(),
                self@.cache->Some_0.1,
            ),
            r matches Ok(RunPlan::Transcribe(p)) ==> {
                &&& crate::json::double_param(task@.params, "t0"@) matches Some(x) ==> p.t0 == x
                &&& crate::json::double_param(task@.params, "seg_threshold"@) matches Some(x)
                    ==> p.seg_threshold == x
                &&& crate::json::double_param(task@.params, "seg_radius"@) matches Some(x)
                    ==> p.seg_radius == x
                &&& crate::json::double_param(task@.params, "est_threshold"@) matches Some(x)
                    ==> p.est_threshold == x
                &&& crate::json::double_param(task@.params, "tempo"@) matches Some(x) ==> p.tempo
                    == x
                &&& crate::json::int_param(task@.params, "nsteps"@) matches Some(n) ==> i32::MIN
                    <= n <= i32::MAX ==> p.nsteps == n
                &&& crate::json::text_param(task@.params, "language"@) matches Some(l) ==> l
                    != "none"@ ==> p.language is Some && p.language->Some_0@ == l
            },
    {
        let loaded: Loaded = self.cache.as_ref().unwrap().kind;
        choose_run(
            task.app_id.as_str(),
            task.variant.as_str(),
            read_settings(task.params.as_str()),
            loaded,
        )
    }
}

/// What `find_app` and `find_model` give is in the catalogue.
proof fn lemma_found_model_is_in_catalogue(
    paths: PathsView,
    app: crate::apps::AppDefView,
    model: crate::apps::ModelDefView,
    app_id: Seq<char>,
    model_id: Seq<char>,
)
    requires
        crate::apps::app_with_id(crate::apps::catalogue(), app_id) == Some(app),
        crate::apps::model_with_id(app.models, model_id) == Some(model),
    ensures
        names_catalogue_model(
            paths.checkpoints_dir,
            checkpoint_path(paths.checkpoints_dir, model),
            app.id,
            model.variant,
        ),
{
    crate::apps::law_found_apps_are_in_the_catalogue(app_id);
    crate::apps::lemma_model_with_id(app.models, model_id);
    let i = choose|i: int|
        0 <= i < crate::apps::catalogue().len() && crate::apps::catalogue()[i] == app;
    let k = choose|k: int| 0 <= k < app.models.len() && app.models[k] == model;
    assert(crate::apps::catalogue()[i].models[k] == model);
}

/// The path of a model's weights begins with the checkpoint directory and goes
/// on with the model's directory and file.
proof fn lemma_checkpoint_path(root: Seq<char>, model: crate::apps::ModelDefView)
    requires
        model.dir.len() > 0,
        model.dir[0] != '/',
        model.dir.last() != '/',
        model.checkpoint.len() > 0,
        model.checkpoint[0] != '/',
    ensures
        checkpoint_path(root, model) == path_base(root) + model.dir + "/"@ + model.checkpoint,
{
    reveal_strlit("/");
    let dir = crate::paths::path_join(root, model.dir);
    assert(dir =~= path_base(root) + model.dir);
    assert(dir.last() == model.dir.last());
}

/// What comes before a name that is joined to a path.
spec fn path_base(root: Seq<char>) -> Seq<char> {
    if root.len() == 0 || root.last() == '/' {
        root
    } else {
        root + "/"@
    }
}

/// The first and last characters of the directories and files of the models.
proof fn lemma_model_names()
    ensures
        forall|i: int, k: int|
            #![trigger crate::apps::catalogue()[i].models[k]]
            0 <= i < crate::apps::catalogue().len() && 0 <= k
                < crate::apps::catalogue()[i].models.len() ==> {
                let m = crate::apps::catalogue()[i].models[k];
                &&& m.dir.len() > 0 && m.dir[0] != '/' && m.dir.last() != '/'
                &&& m.checkpoint.len() > 0 && m.checkpoint[0] != '/'
            },
        crate::apps::renaissance_model().dir.len() == 11,
        crate::apps::renaissance_model().dir[0] == 'r',
        crate::apps::renaissance_model().checkpoint.len() == 35,
        crate::apps::game_model().dir.len() == 14,
        crate::apps::game_model().checkpoint.len() == 26,
        crate::apps::melband_roformer_model().dir.len() == 16,
        crate::apps::melband_roformer_model().checkpoint.len() == 32,
        crate::apps::mbr_win10_sink8_model().dir.len() == 15,
        crate::apps::mbr_win10_sink8_model().dir[0] == 'm',
        crate::apps::mbr_win10_sink8_model().checkpoint.len() == 31,
{
    reveal_strlit("renaissance");
    reveal_strlit("GAME-1.0-large");
    reveal_strlit("melband-roformer");
    reveal_strlit("mbr-win10-sink8");
    reveal_strlit("smule-renaissance-small.safetensors");
    reveal_strlit("GAME-1.0-large.safetensors");
    reveal_strlit("melband-roformer.mlx.safetensors");
    reveal_strlit("mbr-win10-sink8.mlx.safetensors");
}

/// No two models of the catalogue have their weights at one path.
pub proof fn law_weights_paths_are_unique(root: Seq<char>, i: int, k: int, j: int, l: int)
    requires
        0 <= i < crate::apps::catalogue().len(),
        0 <= k < crate::apps::catalogue()[i].models.len(),
        0 <= j < crate::apps::catalogue().len(),
        0 <= l < crate::apps::catalogue()[j].models.len(),
        checkpoint_path(root, crate::apps::catalogue()[i].models[k]) == checkpoint_path(
            root,
            crate::apps::catalogue()[j].models[l],
        ),
    ensures
        i == j,
        k == l,
{
    lemma_model_names();
    reveal_strlit("/");
    let m = crate::apps::catalogue()[i].models[k];
    let n = crate::apps::catalogue()[j].models[l];
    lemma_checkpoint_path(root, m);
    lemma_checkpoint_path(root, n);
    let base = path_base(root);
    let path = checkpoint_path(root, m);
    assert(path[base.len() as int] == m.dir[0]);
    assert(path[base.len() as int] == n.dir[0]);
    assert(path.len() == base.len() + m.dir.len() + 1 + m.checkpoint.len());
    assert(path.len() == base.len() + n.dir.len() + 1 + n.checkpoint.len());
}

/// The model in memory that a task finds by its path is of the kind that the
/// task needs.
proof fn lemma_cached_kind(state: WorkerView, task: TaskView)
    requires
        cache_is_sound(state),
        is_catalogue_task(state.paths, task),
        state.cache is Some,
        state.cache->Some_0.0 == task.checkpoint,
    ensures
        Some(state.cache->Some_0.1) == load_kind(task.app_id, task.variant),
{
    let root = state.paths.checkpoints_dir;
    let (key, kind) = state.cache->Some_0;
    let (app_id, variant) = choose|app_id: Seq<char>, variant: Seq<char>|
        #[trigger]
        names_catalogue_model(root, key, app_id, variant) && load_kind(app_id, variant) == Some(
            kind,
        );
    let (i, k) = choose|i: int, k: int|
        #![trigger crate::apps::catalogue()[i].models[k]]
        0 <= i < crate::apps::catalogue().len() && 0 <= k
            < crate::apps::catalogue()[i].models.len() && key == checkpoint_path(
            root,
            crate::apps::catalogue()[i].models[k],
        ) && app_id == crate::apps::catalogue()[i].id && variant
            == crate::apps::catalogue()[i].models[k].variant;
    let (j, l) = choose|j: int, l: int|
        #![trigger crate::apps::catalogue()[j].models[l]]
        0 <= j < crate::apps::catalogue().len() && 0 <= l
            < crate::apps::catalogue()[j].models.len() && task.checkpoint == checkpoint_path(
            root,
            crate::apps::catalogue()[j].models[l],
        ) && task.app_id == crate::apps::catalogue()[j].id && task.variant
            == crate::apps::catalogue()[j].models[l].variant;
    law_weights_paths_are_unique(root, i, k, j, l);
}

// ---------- what becomes of the record ----------

/// A table after the job with the id has got another record.
pub open spec fn with_row(
    table: Map<Seq<char>, JobView>,
    id: Seq<char>,
    row: JobView,
) -> Map<Seq<char>, JobView> {
    if table.dom().contains(id) {
        table.insert(id, row)
    } else {
        table
    }
}

/// What listeners are told of a job: its record, where there is one.
pub open spec fn update_event(table: Map<Seq<char>, JobView>, id: Seq<char>) -> Option<
    JobEventView,
> {
    if table.dom().contains(id) {
        Some(JobEventView::Updated { job: table[id] })
    } else {
        None
    }
}

/// The event that tells listeners of a job's record.
pub fn updated(table: &JobTable, id: &str) -> (r: Option<JobEvent>)
    requires
        table.well_formed(),
    ensures
        crate::events::event_view(r) == update_event(table@, id@),
{
    match get_job(table, id) {
        Some(job) => Some(JobEvent::Updated { job }),
        None => None,
    }
}

/// Marks a job as running and gives the event to send.
pub fn begin(table: &mut JobTable, job_id: &str, now: i64) -> (r: Option<JobEvent>)
    requires
        old(table).well_formed(),
    ensures
        final(table).well_formed(),
        final(table)@ == with_row(
            old(table)@,
            job_id@,
            crate::db::with_status(old(table)@[job_id@], "running"@, now),
        ),
        crate::events::event_view(r) == update_event(final(table)@, job_id@),
{
    set_status(table, job_id, "running", now);
    updated(table, job_id)
}

/// What came of working on a job.
pub struct Finished {
    /// The final record, or why there is none to give.
    pub result: Result<Job, String>,
    pub event: Option<JobEvent>,
}

/// The record of a job after the worker is through with it.
pub open spec fn finished_row(
    job: JobView,
    outcome: Result<Seq<crate::db::OutputFileView>, Seq<char>>,
    now: i64,
) -> JobView {
    match outcome {
        Ok(outputs) => crate::db::with_outputs(job, outputs, now),
        Err(message) => crate::db::with_error(job, message, now),
    }
}

/// An outcome of working on a job, as mathematical values.
pub open spec fn outcome_view(outcome: Result<Vec<OutputFile>, String>) -> Result<
    Seq<crate::db::OutputFileView>,
    Seq<char>,
> {
    match outcome {
        Ok(outputs) => Ok(crate::db::outputs_view(outputs@)),
        Err(message) => Err(message@),
    }
}

/// Records what came of working on a job: its outputs, or why it failed. The
/// final record goes to whoever waits for it and to the listeners.
pub fn handle(
    table: &mut JobTable,
    job_id: &str,
    outcome: Result<Vec<OutputFile>, String>,
    now: i64,
) -> (r: Finished)
    requires
        old(table).well_formed(),
    ensures
        final(table).well_formed(),
        final(table)@ == with_row(
            old(table)@,
            job_id@,
            finished_row(old(table)@[job_id@], outcome_view(outcome), now),
        ),
        old(table)@.dom().contains(job_id@) ==> match outcome {
            Ok(outputs) => final(table)@[job_id@].status == "done"@
                && final(table)@[job_id@].outputs == crate::db::outputs_view(outputs@),
            Err(message) => final(table)@[job_id@].status == "error"@
                && final(table)@[job_id@].error == Some(message@),
        },
        crate::events::event_view(r.event) == update_event(final(table)@, job_id@),
        match outcome {
            Ok(_) => match r.result {
                Ok(job) => old(table)@.dom().contains(job_id@) && job@ == final(table)@[job_id@],
                Err(message) => !old(table)@.dom().contains(job_id@) && message@
                    == "job not found after completion"@,
            },
            Err(reason) => r.result matches Err(message) && message@ == reason@,
        },
{
    match outcome {
        Ok(outputs) => {
            set_done(table, job_id, &outputs, now);
            match get_job(table, job_id) {
                Some(job) => {
                    let event = JobEvent::Updated { job: job.clone() };
                    Finished { result: Ok(job), event: Some(event) }
                },
                None => Finished {
                    result: Err("job not found after completion".to_owned()),
                    event: None,
                },
            }
        },
        Err(message) => {
            set_error(table, job_id, message.as_str(), now);
            let event: Option<JobEvent> = updated(table, job_id);
            Finished { result: Err(message), event }
        },
    }
}

// ---------- laws ----------

/// Every model of the catalogue can be loaded and, once loaded, run, whatever
/// the settings: the catalogue offers nothing that the worker refuses.
pub proof fn law_catalogue_models_can_run(i: int, k: int, s: SettingsView)
    requires
        0 <= i < crate::apps::catalogue().len(),
        0 <= k < crate::apps::catalogue()[i].models.len(),
    ensures
        ({
            let app = crate::apps::catalogue()[i];
            let kind = load_kind(app.id, app.models[k].variant);
            kind is Some && run_of(app.id, app.models[k].variant, s, kind->Some_0) is Ok
        }),
{
    crate::apps::lemma_app_ids_differ();
    reveal_strlit("full");
    reveal_strlit("wsa");
    assert("full"@.len() == 4);
    assert("wsa"@.len() == 3);
}

/// A job that was submitted with a model of the catalogue gets a task, and once
/// `ensure_model` says that the model is in memory, what is run does not fail
/// for want of the right model.
pub proof fn law_ready_tasks_run(state: WorkerView, task: TaskView, s: SettingsView)
    requires
        cache_is_sound(state),
        is_catalogue_task(state.paths, task),
        state.cache is Some,
        state.cache->Some_0.0 == task.checkpoint,
    ensures
        run_of(task.app_id, task.variant, s, state.cache->Some_0.1) is Ok,
{
    lemma_cached_kind(state, task);
    let (i, k) = choose|i: int, k: int|
        #![trigger crate::apps::catalogue()[i].models[k]]
        0 <= i < crate::apps::catalogue().len() && 0 <= k
            < crate::apps::catalogue()[i].models.len() && task.checkpoint == checkpoint_path(
            state.paths.checkpoints_dir,
            crate::apps::catalogue()[i].models[k],
        ) && task.app_id == crate::apps::catalogue()[i].id && task.variant
            == crate::apps::catalogue()[i].models[k].variant;
    law_catalogue_models_can_run(i, k, s);
}

/// A model that is in memory is not loaded again, and at any time at most the
/// model of the last loaded task is in memory.
pub proof fn law_a_loaded_model_is_reused(
    task: TaskView,
    kind: Loaded,
    checkpoint_exists: bool,
    config_exists: bool,
)
    ensures
        model_step(Some((task.checkpoint, kind)), task, checkpoint_exists, config_exists) == (
            Ok::<ModelStep, Seq<char>>(ModelStep::Ready),
            Some((task.checkpoint, kind)),
        ),
{
}

/// Whether a model has a parameter with the key and the default.
pub open spec fn has_default(
    model: crate::apps::ModelDefView,
    key: Seq<char>,
    default: crate::apps::ParamValueView,
) -> bool {
    exists|p: int|
        0 <= p < model.params.len() && (#[trigger] model.params[p]).key == key
            && model.params[p].default == default
}

/// A job that gives no settings runs with the defaults that the catalogue
/// shows: whole numbers and texts are the same in both.
pub proof fn law_missing_settings_mean_catalogue_defaults()
    ensures
        run_of("source-separation"@, "full"@, no_settings(), Loaded::MbrFull) matches Ok(
            RunPlanView::SeparateFull { chunk_size_sec, overlap },
        ) && has_default(
            crate::apps::melband_roformer_model(),
            "chunk_size"@,
            crate::apps::ParamValueView::Int(chunk_size_sec as i64),
        ) && has_default(
            crate::apps::melband_roformer_model(),
            "overlap"@,
            crate::apps::ParamValueView::Int(overlap as i64),
        ),
        run_of("source-separation"@, "wsa"@, no_settings(), Loaded::MbrWsa) matches Ok(
            RunPlanView::SeparateWsa { chunk_size_sec, batch_size },
        ) && has_default(
            crate::apps::mbr_win10_sink8_model(),
            "chunk_size"@,
            crate::apps::ParamValueView::Int(chunk_size_sec as i64),
        ) && has_default(
            crate::apps::mbr_win10_sink8_model(),
            "batch_size"@,
            crate::apps::ParamValueView::Int(batch_size as i64),
        ),
        run_of("vocal-enhance"@, "default"@, no_settings(), Loaded::Srs) == Ok::<
            RunPlanView,
            Seq<char>,
        >(RunPlanView::Enhance { on_cpu: false }) && has_default(
            crate::apps::renaissance_model(),
            "device"@,
            crate::apps::ParamValueView::Text("gpu"@),
        ),
        run_of("vocal2midi"@, "default"@, no_settings(), Loaded::Game) matches Ok(
            RunPlanView::Transcribe(t),
        ) && has_default(
            crate::apps::game_model(),
            "nsteps"@,
            crate::apps::ParamValueView::Int(t.nsteps as i64),
        ) && t.language is None && has_default(
            crate::apps::game_model(),
            "language"@,
            crate::apps::ParamValueView::Text("none"@),
        ),
{
    crate::apps::lemma_app_ids_differ();
    reveal_strlit("full");
    reveal_strlit("wsa");
    reveal_strlit("gpu");
    reveal_strlit("cpu");
    assert("full"@.len() == 4);
    assert("wsa"@.len() == 3);
    assert("gpu"@[0] == 'g');
    assert("cpu"@[0] == 'c');
    let m = crate::apps::melband_roformer_model();
    assert(m.params[0].key == "chunk_size"@);
    assert(m.params[1].key == "overlap"@);
    let m = crate::apps::mbr_win10_sink8_model();
    assert(m.params[0].key == "chunk_size"@);
    assert(m.params[1].key == "batch_size"@);
    let m = crate::apps::renaissance_model();
    assert(m.params[0].key == "device"@);
    let m = crate::apps::game_model();
    assert(m.params[1].key == "nsteps"@);
    assert(m.params[6].key == "language"@);
}

/// A double that is not negative, counted in units of two to the power of
/// -1074: its significand times its power of two. The upper bits hold the
/// exponent, the lower 52 the fraction.
pub open spec fn double_units(bits: int) -> int {
    let exponent = bits / 0x10_0000_0000_0000;
    let fraction = bits % 0x10_0000_0000_0000;
    if exponent == 0 {
        fraction
    } else {
        (0x10_0000_0000_0000 + fraction) * vstd::arithmetic::power2::pow2((exponent - 1) as nat)
    }
}

/// Whether `bits` are those of the double that is nearest to a decimal number:
/// the number lies between the midpoints to the doubles on either side.
pub open spec fn is_nearest_double(bits: u64, d: crate::apps::Decimal) -> bool {
    let ten = crate::apps::power_of_ten(d.places as nat);
    let twice = 2 * (d.mantissa * vstd::arithmetic::power2::pow2(1074));
    &&& bits < 0x7fef_ffff_ffff_ffff
    &&& if bits == 0 {
        0 <= d.mantissa
    } else {
        (double_units(bits - 1) + double_units(bits as int)) * ten < twice
    }
    &&& twice < (double_units(bits as int) + double_units(bits + 1)) * ten
}

/// Whether a model has a parameter with the key whose default is a decimal
/// number to which `bits` are the nearest double.
pub open spec fn has_fraction(
    model: crate::apps::ModelDefView,
    key: Seq<char>,
    bits: u64,
) -> bool {
    exists|p: int|
        0 <= p < model.params.len() && (#[trigger] model.params[p]).key == key && (
        model.params[p].default matches crate::apps::ParamValueView::Number(d)
            && is_nearest_double(bits, d))
}

/// A double that is not a power of two is nearest to a decimal number if its
/// significand is the nearest integer to that number, scaled to the
/// significand's last place.
proof fn lemma_nearest_double(
    bits: u64,
    exponent: int,
    significand: int,
    scale: nat,
    d: crate::apps::Decimal,
)
    requires
        1 <= exponent < 2046,
        0x10_0000_0000_0000 < significand < 0x1f_ffff_ffff_ffff,
        bits == exponent * 0x10_0000_0000_0000 + (significand - 0x10_0000_0000_0000),
        scale == 1075 - exponent,
        ({
            let ten = crate::apps::power_of_ten(d.places as nat);
            let twice = 2 * (d.mantissa * vstd::arithmetic::power2::pow2(scale));
            (2 * significand - 1) * ten < twice < (2 * significand + 1) * ten
        }),
    ensures
        is_nearest_double(bits, d),
{
    let unit = vstd::arithmetic::power2::pow2((exponent - 1) as nat) as int;
    let two = vstd::arithmetic::power2::pow2(scale) as int;
    let whole = vstd::arithmetic::power2::pow2(1074) as int;
    let ten = crate::apps::power_of_ten(d.places as nat);
    let m = d.mantissa as int;
    vstd::arithmetic::power2::lemma_pow2_adds((exponent - 1) as nat, scale);
    vstd::arithmetic::power2::lemma_pow2_pos((exponent - 1) as nat);
    assert(double_units(bits as int) == significand * unit);
    assert(double_units(bits - 1) == (significand - 1) * unit);
    assert(double_units(bits + 1) == (significand + 1) * unit);
    assert(((significand - 1) * unit + significand * unit) * ten == ((2 * significand - 1) * ten)
        * unit) by (nonlinear_arith);
    assert((significand * unit + (significand + 1) * unit) * ten == ((2 * significand + 1) * ten)
        * unit) by (nonlinear_arith);
    assert(2 * (m * whole) == (2 * (m * two)) * unit) by (nonlinear_arith)
        requires
            whole == unit * two,
    ;
    let low = (2 * significand - 1) * ten;
    let high = (2 * significand + 1) * ten;
    let mid = 2 * (m * two);
    assert(low * unit < mid * unit && mid * unit < high * unit) by (nonlinear_arith)
        requires
            low < mid,
            mid < high,
            unit > 0,
    ;
}

/// A transcription that is given no settings runs with the fractions that the
/// catalogue shows: the nearest double to each decimal default.
pub proof fn law_missing_fractions_mean_catalogue_defaults()
    ensures
        run_of("vocal2midi"@, "default"@, no_settings(), Loaded::Game) matches Ok(
            RunPlanView::Transcribe(t),
        ) && has_fraction(crate::apps::game_model(), "t0"@, t.t0) && has_fraction(
            crate::apps::game_model(),
            "seg_threshold"@,
            t.seg_threshold,
        ) && has_fraction(crate::apps::game_model(), "seg_radius"@, t.seg_radius) && has_fraction(
            crate::apps::game_model(),
            "est_threshold"@,
            t.est_threshold,
        ) && has_fraction(crate::apps::game_model(), "tempo"@, t.tempo),
{
    crate::apps::lemma_app_ids_differ();
    vstd::arithmetic::power2::lemma2_to64();
    vstd::arithmetic::power2::lemma2_to64_rest();
    assert(crate::apps::power_of_ten(0) == 1);
    assert(crate::apps::power_of_ten(1) == 10);
    assert(crate::apps::power_of_ten(2) == 100);
    let m = crate::apps::game_model();
    assert(is_nearest_double(0, crate::apps::decimal(0, 1))) by {
        let whole = vstd::arithmetic::power2::pow2(1074) as int;
        assert(0 * whole == 0) by (nonlinear_arith);
        assert(double_units(0) == 0 && double_units(1) == 1);
        assert((0 + 1) * 10 == 10);
    }
    lemma_nearest_double(
        BITS_0_2,
        0x3fc,
        0x19_9999_9999_999a,
        55,
        crate::apps::decimal(2, 1),
    );
    lemma_nearest_double(
        BITS_0_02,
        0x3f9,
        0x14_7ae1_47ae_147b,
        58,
        crate::apps::decimal(2, 2),
    );
    lemma_nearest_double(
        BITS_120,
        0x405,
        0x1e_0000_0000_0000,
        46,
        crate::apps::decimal(1200, 1),
    );
    assert(m.params[0].key == "t0"@);
    assert(m.params[2].key == "seg_threshold"@);
    assert(m.params[3].key == "seg_radius"@);
    assert(m.params[4].key == "est_threshold"@);
    assert(m.params[5].key == "tempo"@);
}

/// After the worker is through with a job, the job is done exactly if the work
/// succeeded and failed exactly if it did not, and no other job has changed.
pub proof fn law_finished_jobs_are_done_or_failed(
    table: Map<Seq<char>, JobView>,
    id: Seq<char>,
    other: Seq<char>,
    outcome: Result<Seq<crate::db::OutputFileView>, Seq<char>>,
    now: i64,
)
    requires
        table.dom().contains(id),
        other != id,
    ensures
        ({
            let after = with_row(table, id, finished_row(table[id], outcome, now));
            &&& after[id].status == "done"@ <==> outcome is Ok
            &&& after[id].status == "error"@ <==> outcome is Err
            &&& !crate::db::is_unfinished(after[id])
            &&& crate::db::same_identity(after[id], table[id])
            &&& after.dom() == table.dom()
            &&& table.dom().contains(other) ==> after[other] == table[other]
        }),
{
    crate::db::lemma_statuses_differ();
    let after = with_row(table, id, finished_row(table[id], outcome, now));
    assert(after.dom() =~= table.dom());
}

/// The statuses that a job can have.
pub open spec fn is_status(status: Seq<char>) -> bool {
    status == "queued"@ || status == "running"@ || status == "done"@ || status == "error"@
}

/// Whatever happens to a job, its status stays one of the four.
pub proof fn law_statuses_stay_known(
    job: JobView,
    outcome: Result<Seq<crate::db::OutputFileView>, Seq<char>>,
    params: Option<Seq<char>>,
    now: i64,
)
    requires
        is_status(job.status),
    ensures
        is_status(crate::db::with_status(job, "running"@, now).status),
        is_status(crate::db::with_status(job, "queued"@, now).status),
        is_status(finished_row(job, outcome, now).status),
        is_status(crate::db::after_restart(job, now).status),
        is_status(crate::server::with_requested_params(job, params).status),
{
}

/// Every setting that a transcription is given is the one that it runs with,
/// key by key. The language `none` stands for no language.
pub proof fn law_transcriptions_use_the_given_settings(params: Seq<char>, variant: Seq<char>)
    ensures
        run_of("vocal2midi"@, variant, settings_of(params), Loaded::Game) matches Ok(
            RunPlanView::Transcribe(t),
        ) && {
            &&& crate::json::double_param(params, "t0"@) matches Some(x) ==> t.t0 == x
            &&& crate::json::double_param(params, "seg_threshold"@) matches Some(x)
                ==> t.seg_threshold == x
            &&& crate::json::double_param(params, "seg_radius"@) matches Some(x) ==> t.seg_radius
                == x
            &&& crate::json::double_param(params, "est_threshold"@) matches Some(x)
                ==> t.est_threshold == x
            &&& crate::json::double_param(params, "tempo"@) matches Some(x) ==> t.tempo == x
            &&& crate::json::int_param(params, "nsteps"@) matches Some(n) ==> i32::MIN <= n
                <= i32::MAX ==> t.nsteps == n
            &&& crate::json::text_param(params, "language"@) matches Some(l) ==> t.language == (
            if l == "none"@ {
                None
            } else {
                Some(l)
            })
        },
{
    crate::apps::lemma_app_ids_differ();
}

/// Each setting that a transcription is not given is the one that it would run
/// with if it were given none at all, whatever else it is given.
pub proof fn law_transcriptions_fill_each_gap_alone(params: Seq<char>, variant: Seq<char>)
    ensures
        run_of("vocal2midi"@, variant, settings_of(params), Loaded::Game) matches Ok(
            RunPlanView::Transcribe(t),
        ) && (run_of("vocal2midi"@, "default"@, no_settings(), Loaded::Game) matches Ok(
            RunPlanView::Transcribe(plain),
        ) && {
            &&& crate::json::double_param(params, "t0"@) is None ==> t.t0 == plain.t0
            &&& crate::json::double_param(params, "seg_threshold"@) is None ==> t.seg_threshold
                == plain.seg_threshold
            &&& crate::json::double_param(params, "seg_radius"@) is None ==> t.seg_radius
                == plain.seg_radius
            &&& crate::json::double_param(params, "est_threshold"@) is None ==> t.est_threshold
                == plain.est_threshold
            &&& crate::json::double_param(params, "tempo"@) is None ==> t.tempo == plain.tempo
            &&& crate::json::int_param(params, "nsteps"@) is None ==> t.nsteps == plain.nsteps
            &&& crate::json::text_param(params, "language"@) is None ==> t.language
                == plain.language
        }),
{
    crate::apps::lemma_app_ids_differ();
}

/// Every setting that a separation is given is the one that it runs with, key
/// by key; each that is missing is eight seconds a chunk, two overlapping
/// chunks, or four chunks a batch.
pub proof fn law_separations_use_the_given_settings(params: Seq<char>)
    ensures
        run_of("source-separation"@, "full"@, settings_of(params), Loaded::MbrFull) matches Ok(
            RunPlanView::SeparateFull { chunk_size_sec, overlap },
        ) && {
            &&& crate::json::int_param(params, "chunk_size"@) matches Some(n) ==> i32::MIN <= n
                <= i32::MAX ==> chunk_size_sec == n
            &&& crate::json::int_param(params, "chunk_size"@) is None ==> chunk_size_sec == 8
            &&& crate::json::int_param(params, "overlap"@) matches Some(n) ==> i32::MIN <= n
                <= i32::MAX ==> overlap == n
            &&& crate::json::int_param(params, "overlap"@) is None ==> overlap == 2
        },
        run_of("source-separation"@, "wsa"@, settings_of(params), Loaded::MbrWsa) matches Ok(
            RunPlanView::SeparateWsa { chunk_size_sec, batch_size },
        ) && {
            &&& crate::json::int_param(params, "chunk_size"@) matches Some(n) ==> i32::MIN <= n
                <= i32::MAX ==> chunk_size_sec == n
            &&& crate::json::int_param(params, "chunk_size"@) is None ==> chunk_size_sec == 8
            &&& crate::json::int_param(params, "batch_size"@) matches Some(n) ==> i32::MIN <= n
                <= i32::MAX ==> batch_size == n
            &&& crate::json::int_param(params, "batch_size"@) is None ==> batch_size == 4
        },
{
    reveal_strlit("full");
    reveal_strlit("wsa");
    assert("full"@.len() == 4);
    assert("wsa"@.len() == 3);
}

/// An enhancement runs on the processor exactly if it is asked to: with any
/// other device, or none, it does not.
pub proof fn law_enhancements_use_the_given_device(params: Seq<char>, variant: Seq<char>)
    ensures
        run_of("vocal-enhance"@, variant, settings_of(params), Loaded::Srs) matches Ok(
            RunPlanView::Enhance { on_cpu },
        ) && (on_cpu <==> crate::json::text_param(params, "device"@) == Some("cpu"@)),
{
    crate::apps::lemma_app_ids_differ();
    reveal_strlit("gpu");
    reveal_strlit("cpu");
    assert("gpu"@[0] != "cpu"@[0]);
}

/// A number that 32 bits do not hold keeps its lowest 32 bits.
pub proof fn law_wide_numbers_keep_their_low_bits(x: i64)
    ensures
        i32::MIN <= x <= i32::MAX ==> low_bits(x) == x,
        (low_bits(x) as i64) & 0xffff_ffff == x & 0xffff_ffff,
{
    assert(((x as i32) as i64) & 0xffff_ffff == x & 0xffff_ffff) by (bit_vector);
}

/// A run is chosen exactly where the model in memory is of the kind that the
/// app and the variant need, whatever the settings. A model of another kind is
/// refused, and so is what no kind of model serves.
pub proof fn law_runs_need_their_kind_of_model(
    app_id: Seq<char>,
    variant: Seq<char>,
    s: SettingsView,
    loaded: Loaded,
)
    ensures
        run_of(app_id, variant, s, loaded) is Ok <==> load_kind(app_id, variant) == Some(loaded),
        run_of(app_id, variant, s, loaded) matches Ok(run) ==> match loaded {
            Loaded::MbrFull => run is SeparateFull,
            Loaded::MbrWsa => run is SeparateWsa,
            Loaded::Srs => run is Enhance,
            Loaded::Game => run is Transcribe,
        },
        load_kind(app_id, variant) is None ==> run_of(app_id, variant, s, loaded) == Err::<
            RunPlanView,
            Seq<char>,
        >("unsupported app/variant: "@ + debug_pair(app_id, variant)),
{
    crate::apps::lemma_app_ids_differ();
    reveal_strlit("full");
    reveal_strlit("wsa");
    assert("full"@.len() == 4);
    assert("wsa"@.len() == 3);
}

/// Separation has two variants, each with its kind of model; the other two apps
/// have one kind each, whatever the variant; nothing else can be loaded.
pub proof fn law_kinds_of_models(app_id: Seq<char>, variant: Seq<char>)
    ensures
        load_kind(app_id, variant) == Some(Loaded::MbrFull) <==> app_id == "source-separation"@
            && variant == "full"@,
        load_kind(app_id, variant) == Some(Loaded::MbrWsa) <==> app_id == "source-separation"@
            && variant == "wsa"@,
        load_kind(app_id, variant) == Some(Loaded::Srs) <==> app_id == "vocal-enhance"@,
        load_kind(app_id, variant) == Some(Loaded::Game) <==> app_id == "vocal2midi"@,
{
    crate::apps::lemma_app_ids_differ();
    reveal_strlit("full");
    reveal_strlit("wsa");
    assert("full"@.len() == 4);
    assert("wsa"@.len() == 3);
}

/// Loading waits for the weights: without them nothing changes in memory. With
/// them, whatever model was there is let go, and the one of the kind that the
/// task needs is loaded, except where its configuration is missing or there is
/// no such kind.
pub proof fn law_loading_a_model(
    cache: Option<(Seq<char>, Loaded)>,
    task: TaskView,
    checkpoint_exists: bool,
    config_exists: bool,
)
    requires
        cache matches Some(held) ==> held.0 != task.checkpoint,
    ensures
        ({
            let (step, after) = model_step(cache, task, checkpoint_exists, config_exists);
            let kind = load_kind(task.app_id, task.variant);
            &&& !checkpoint_exists ==> after == cache && step == Err::<ModelStep, Seq<char>>(
                "checkpoint not found: "@ + task.checkpoint,
            )
            &&& checkpoint_exists ==> after is None
            &&& checkpoint_exists && kind is None ==> step == Err::<ModelStep, Seq<char>>(
                "unsupported app/variant for load: "@ + debug_pair(task.app_id, task.variant),
            )
            &&& checkpoint_exists && kind is Some && (kind != Some(Loaded::Game) || config_exists)
                ==> step == Ok::<ModelStep, Seq<char>>(ModelStep::Load(kind->Some_0))
            &&& checkpoint_exists && kind == Some(Loaded::Game) && !config_exists ==> step == Err::<
                ModelStep,
                Seq<char>,
            >("GAME config not found: "@ + task.config)
        }),
{
}

/// A task takes its input, its directory and its parameters from the record of
/// the job as they are, so that every setting of the job is a setting of the
/// task; the rest comes from the entry of its model.
pub proof fn law_tasks_come_from_their_jobs(
    paths: PathsView,
    id: Seq<char>,
    job: JobView,
    task: TaskView,
    key: Seq<char>,
)
    requires
        task_of(paths, id, Some(job)) == Ok::<TaskView, Seq<char>>(task),
    ensures
        task.input_path == job.input_path,
        task.work_dir == job.work_dir,
        task.params == job.params,
        crate::json::int_param(task.params, key) == crate::json::int_param(job.params, key),
        crate::json::double_param(task.params, key) == crate::json::double_param(job.params, key),
        crate::json::text_param(task.params, key) == crate::json::text_param(job.params, key),
        task.app_id == job.app,
        exists|i: int, k: int|
            #![trigger crate::apps::catalogue()[i].models[k]]
            0 <= i < crate::apps::catalogue().len() && 0 <= k
                < crate::apps::catalogue()[i].models.len() && {
                let m = crate::apps::catalogue()[i].models[k];
                &&& crate::apps::catalogue()[i].id == job.app
                &&& m.id == job.model
                &&& task.variant == m.variant
                &&& task.model_dir == crate::paths::path_join(paths.checkpoints_dir, m.dir)
                &&& task.checkpoint == crate::paths::path_join(task.model_dir, m.checkpoint)
                &&& task.config == crate::paths::path_join(task.model_dir, "config.yaml"@)
            },
{
    crate::apps::law_found_apps_are_in_the_catalogue(job.app);
    let app = crate::apps::app_with_id(crate::apps::catalogue(), job.app)->Some_0;
    crate::apps::lemma_model_with_id(app.models, job.model);
    let model = crate::apps::model_with_id(app.models, job.model)->Some_0;
    let i = choose|i: int|
        0 <= i < crate::apps::catalogue().len() && crate::apps::catalogue()[i] == app;
    let k = choose|k: int| 0 <= k < app.models.len() && app.models[k] == model;
    assert(crate::apps::catalogue()[i].models[k] == model);
}

/// A job that is not there, or whose app or model the catalogue does not have,
/// gets no task, and is told which of these it is.
pub proof fn law_unknown_jobs_get_no_task(paths: PathsView, id: Seq<char>, job: JobView)
    ensures
        task_of(paths, id, None) == Err::<TaskView, Seq<char>>("job "@ + id + " not found"@),
        crate::apps::app_with_id(crate::apps::catalogue(), job.app) is None ==> task_of(
            paths,
            id,
            Some(job),
        ) == Err::<TaskView, Seq<char>>("unknown app: "@ + job.app),
        crate::apps::app_with_id(crate::apps::catalogue(), job.app) matches Some(app)
            ==> crate::apps::model_with_id(app.models, job.model) is None ==> task_of(
            paths,
            id,
            Some(job),
        ) == Err::<TaskView, Seq<char>>("unknown model: "@ + job.model),
{
}

/// Outputs are named after the file that was sent, without its directory and
/// its extension; where that leaves no name they are named `output`.
pub proof fn law_outputs_are_named_after_the_input(
    dir: Seq<char>,
    stem: Seq<char>,
    ext: Seq<char>,
    path: Seq<char>,
)
    requires
        stem.len() > 0,
        !stem.contains('/'),
        !ext.contains('/'),
        !ext.contains('.'),
        stem + "."@ + ext != ".."@,
        crate::paths::file_name(path) is None,
    ensures
        output_stem(crate::paths::path_join(dir, stem + "."@ + ext)) == stem,
        output_stem(path) == "output"@,
{
    crate::paths::law_stem_and_extension(dir, stem, ext, Seq::empty());
}

/// Replacing the record of a job changes that record and no other; where there
/// is none, nothing changes. Listeners are told exactly the record that the
/// table then holds, and nothing where it holds none.
pub proof fn law_one_record_is_replaced(
    table: Map<Seq<char>, JobView>,
    id: Seq<char>,
    other: Seq<char>,
    row: JobView,
)
    ensures
        table.dom().contains(id) ==> with_row(table, id, row)[id] == row,
        !table.dom().contains(id) ==> with_row(table, id, row) == table,
        with_row(table, id, row).dom() == table.dom(),
        other != id && table.dom().contains(other) ==> with_row(table, id, row)[other]
            == table[other],
        table.dom().contains(id) ==> update_event(table, id) == Some(
            JobEventView::Updated { job: table[id] },
        ),
        !table.dom().contains(id) ==> update_event(table, id) is None,
{
    assert(with_row(table, id, row).dom() =~= table.dom());
}

/// A job that succeeds gets exactly the outputs of the run and the time, and
/// keeps everything else but its status; one that fails gets the message and
/// the time, and keeps the outputs that it had.
pub proof fn law_what_finishing_changes(
    job: JobView,
    outputs: Seq<crate::db::OutputFileView>,
    message: Seq<char>,
    now: i64,
)
    ensures
        finished_row(job, Ok(outputs), now) == (JobView {
            status: "done"@,
            outputs,
            updated_at: now,
            ..job
        }),
        finished_row(job, Err(message), now) == (JobView {
            status: "error"@,
            error: Some(message),
            updated_at: now,
            ..job
        }),
{
}

/// Nothing of the settings, of a transcription or of an outcome is left out of
/// its view, and nothing is mixed up.
pub proof fn law_settings_are_seen_whole(
    s: Settings,
    p: Vocal2MidiParams,
    outputs: Vec<OutputFile>,
    message: String,
)
    ensures
        s@.chunk_size == s.chunk_size,
        s@.overlap == s.overlap,
        s@.batch_size == s.batch_size,
        s@.nsteps == s.nsteps,
        s@.t0 == s.t0,
        s@.seg_threshold == s.seg_threshold,
        s@.seg_radius == s.seg_radius,
        s@.est_threshold == s.est_threshold,
        s@.tempo == s.tempo,
        s.device matches Some(d) ==> s@.device == Some(d@),
        s.device is None ==> s@.device is None,
        s.language matches Some(l) ==> s@.language == Some(l@),
        s.language is None ==> s@.language is None,
        p@.t0 == p.t0,
        p@.nsteps == p.nsteps,
        p@.seg_threshold == p.seg_threshold,
        p@.seg_radius == p.seg_radius,
        p@.est_threshold == p.est_threshold,
        p@.tempo == p.tempo,
        p.language matches Some(l) ==> p@.language == Some(l@),
        p.language is None ==> p@.language is None,
        outcome_view(Ok(outputs)) == Ok::<Seq<crate::db::OutputFileView>, Seq<char>>(
            crate::db::outputs_view(outputs@),
        ),
        outcome_view(Err(message)) == Err::<Seq<crate::db::OutputFileView>, Seq<char>>(message@),
        run_view(Ok(RunPlan::Transcribe(p))) == Ok::<RunPlanView, Seq<char>>(
            RunPlanView::Transcribe(p@),
        ),
        run_view(Err(message)) == Err::<RunPlanView, Seq<char>>(message@),
{
}

/// A separation and an enhancement are seen with the numbers that they run
/// with.
pub proof fn law_runs_are_seen_whole(a: i32, b: i32, on_cpu: bool)
    ensures
        run_view(Ok(RunPlan::SeparateFull { chunk_size_sec: a, overlap: b })) == Ok::<
            RunPlanView,
            Seq<char>,
        >(RunPlanView::SeparateFull { chunk_size_sec: a, overlap: b }),
        run_view(Ok(RunPlan::SeparateWsa { chunk_size_sec: a, batch_size: b })) == Ok::<
            RunPlanView,
            Seq<char>,
        >(RunPlanView::SeparateWsa { chunk_size_sec: a, batch_size: b }),
        run_view(Ok(RunPlan::Enhance { on_cpu })) == Ok::<RunPlanView, Seq<char>>(
            RunPlanView::Enhance { on_cpu },
        ),
{
}

/// Nothing of a task is left out of its view, and nothing is mixed up.
pub proof fn law_tasks_are_seen_whole(task: Task)
    ensures
        task@.app_id == task.app_id@,
        task@.variant == task.variant@,
        task@.model_dir == task.model_dir@,
        task@.checkpoint == task.checkpoint@,
        task@.config == task.config@,
        task@.input_path == task.input_path@,
        task@.work_dir == task.work_dir@,
        task@.params == task.params@,
        task@.stem == task.stem@,
{
}

} // verus!
