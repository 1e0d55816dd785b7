//! An in-memory job store for one model-resident worker.
//!
//! Jobs are submitted, queued and run one after the other; the worker loads each
//! model once, when a job first needs it.

use std::time::{Duration, SystemTime};
use vstd::hash_map::StringHashMap;
use vstd::prelude::*;
use vstd::string::StringExecFns;

use crate::db::{since_epoch, system_now};
use crate::models::source_separation::{
    chunk_audio, demix_track, infer_chunks, load_audio, Batch, ChannelPlan, ChunkPlan, DemixPlan,
    MODEL_SAMPLE_RATE,
};
use crate::paths::{join, path_extension, with_extension};
use crate::text::{copied_text, decimal, joined, joined3, same, to_lowercase};

verus! {

/// Samples of one part of the overlapping separation.
pub const MELBAND_CHUNK_SIZE_SAMPLES: i32 = 352_800;

/// How many parts of the overlapping separation cover a sample.
pub const MELBAND_NUM_OVERLAP: i32 = 2;

/// Seconds of one clip of the batched separation.
pub const WSA_CHUNK_SECONDS: u32 = 8;

/// Clips of one batch of the batched separation.
pub const WSA_BATCH_SIZE: i32 = 4;

// ---------- records ----------

/// How far a job has come.
#[derive(Clone, Copy, PartialEq, Eq, Debug, Structural)]
pub enum JobStatus {
    Queued,
    Processing,
    Done,
    Failed,
}

/// Tunable parameters of the transcription. Numbers with a fraction are held as
/// the bits of their single precision form.
#[derive(Debug)]
pub struct MidiParams {
    pub t0: u32,
    pub nsteps: i32,
    pub seg_threshold: u32,
    pub seg_radius: u32,
    pub est_threshold: u32,
    pub tempo: u32,
    pub language: Option<String>,
    pub quantize: bool,
    pub quantize_equal_weight: bool,
}

/// Transcription parameters, as mathematical values.
pub struct MidiParamsView {
    pub t0: u32,
    pub nsteps: i32,
    pub seg_threshold: u32,
    pub seg_radius: u32,
    pub est_threshold: u32,
    pub tempo: u32,
    pub language: Option<Seq<char>>,
    pub quantize: bool,
    pub quantize_equal_weight: bool,
}

impl View for MidiParams {
    type V = MidiParamsView;

    open spec fn view(&self) -> MidiParamsView {
        MidiParamsView {
            t0: self.t0,
            nsteps: self.nsteps,
            seg_threshold: self.seg_threshold,
            seg_radius: self.seg_radius,
            est_threshold: self.est_threshold,
            tempo: self.tempo,
            language: crate::db::text_view(self.language),
            quantize: self.quantize,
            quantize_equal_weight: self.quantize_equal_weight,
        }
    }
}

/// The parameters of a job that gives none: 0, eight steps, 0.2, 0.02, 0.2 and
/// 120, no language, no quantisation.
pub open spec fn default_midi_params() -> MidiParamsView {
    MidiParamsView {
        t0: 0,
        nsteps: 8,
        seg_threshold: 0x3e4c_cccd,
        seg_radius: 0x3ca3_d70a,
        est_threshold: 0x3e4c_cccd,
        tempo: 0x42f0_0000,
        language: None,
        quantize: false,
        quantize_equal_weight: false,
    }
}

impl Default for MidiParams {
    fn default() -> (r: Self)
        ensures
            r@ == default_midi_params(),
    {
        MidiParams {
            t0: 0,
            nsteps: 8,
            seg_threshold: 0x3e4c_cccd,
            seg_radius: 0x3ca3_d70a,
            est_threshold: 0x3e4c_cccd,
            tempo: 0x42f0_0000,
            language: None,
            quantize: false,
            quantize_equal_weight: false,
        }
    }
}

impl Clone for MidiParams {
    fn clone(&self) -> (r: Self)
        ensures
            r@ == self@,
    {
        MidiParams {
            t0: self.t0,
            nsteps: self.nsteps,
            seg_threshold: self.seg_threshold,
            seg_radius: self.seg_radius,
            est_threshold: self.est_threshold,
            tempo: self.tempo,
            language: copied_text(&self.language),
            quantize: self.quantize,
            quantize_equal_weight: self.quantize_equal_weight,
        }
    }
}

/// Parameters that may be missing, as mathematical values.
pub open spec fn midi_view(midi: Option<MidiParams>) -> Option<MidiParamsView> {
    match midi {
        Some(m) => Some(m@),
        None => None,
    }
}

fn copied_midi(midi: &Option<MidiParams>) -> (r: Option<MidiParams>)
    ensures
        midi_view(r) == midi_view(*midi),
{
    match midi {
        Some(m) => Some(m.clone()),
        None => None,
    }
}

/// What a client asks for.
#[derive(Debug)]
pub struct SubmitReq {
    pub name: String,
    pub app: String,
    pub model: String,
    pub model_name: String,
    pub midi: Option<MidiParams>,
}

impl Clone for SubmitReq {
    fn clone(&self) -> (r: Self)
        ensures
            r.name@ == self.name@,
            r.app@ == self.app@,
            r.model@ == self.model@,
            r.model_name@ == self.model_name@,
            midi_view(r.midi) == midi_view(self.midi),
    {
        SubmitReq {
            name: self.name.clone(),
            app: self.app.clone(),
            model: self.model.clone(),
            model_name: self.model_name.clone(),
            midi: copied_midi(&self.midi),
        }
    }
}

/// A file that a job has produced.
#[derive(Debug)]
pub struct JobArtifact {
    pub key: String,
    pub label: String,
    pub kind: &'static str,
    pub path: String,
}

/// An artifact, as mathematical values.
pub struct JobArtifactView {
    pub key: Seq<char>,
    pub label: Seq<char>,
    pub kind: Seq<char>,
    pub path: Seq<char>,
}

impl View for JobArtifact {
    type V = JobArtifactView;

    open spec fn view(&self) -> JobArtifactView {
        JobArtifactView {
            key: self.key@,
            label: self.label@,
            kind: self.kind@,
            path: self.path@,
        }
    }
}

impl Clone for JobArtifact {
    fn clone(&self) -> (r: Self)
        ensures
            r@ == self@,
    {
        JobArtifact {
            key: self.key.clone(),
            label: self.label.clone(),
            kind: self.kind,
            path: self.path.clone(),
        }
    }
}

/// Artifacts, as mathematical values.
pub open spec fn artifacts_view(artifacts: Seq<JobArtifact>) -> Seq<JobArtifactView> {
    artifacts.map_values(|a: JobArtifact| a@)
}

fn copied_artifacts(artifacts: &Vec<JobArtifact>) -> (r: Vec<JobArtifact>)
    ensures
        artifacts_view(r@) == artifacts_view(artifacts@),
{
    let mut out: Vec<JobArtifact> = Vec::new();
    let mut i: usize = 0;
    while i < artifacts.len()
        invariant
            i <= artifacts.len(),
            out.len() == i,
            forall|j: int| 0 <= j < i ==> (#[trigger] out@[j])@ == artifacts@[j]@,
        decreases artifacts.len() - i,
    {
        out.push(artifacts[i].clone());
        i = i + 1;
    }
    proof {
        assert(artifacts_view(out@) =~= artifacts_view(artifacts@));
    }
    out
}

/// A model that separates sources.
#[derive(Clone, Copy, PartialEq, Eq, Debug, Structural)]
pub enum SeparationModel {
    MelBand,
    Wsa,
}

/// The separation model with an id.
pub open spec fn separation_model(model: Seq<char>) -> Option<SeparationModel> {
    if model == "melband-roformer"@ {
        Some(SeparationModel::MelBand)
    } else if model == "wsa-mb-roformer-win10-sink8"@ {
        Some(SeparationModel::Wsa)
    } else {
        None
    }
}

impl SeparationModel {
    /// The separation model with an id; other ids are refused.
    pub fn from_id(model: &str) -> (r: Result<Self, String>)
        ensures
            match r {
                Ok(m) => separation_model(model@) == Some(m),
                Err(message) => separation_model(model@) is None && message@
                    == "unsupported separation model: "@ + model@,
            },
    {
        if same(model, "melband-roformer") {
            Ok(SeparationModel::MelBand)
        } else if same(model, "wsa-mb-roformer-win10-sink8") {
            Ok(SeparationModel::Wsa)
        } else {
            Err(joined("unsupported separation model: ", model))
        }
    }
}

/// What a job does.
#[derive(Clone, Copy, PartialEq, Eq, Debug, Structural)]
pub enum JobKind {
    SuperResolution,
    TranscribeMidi,
    Separate(SeparationModel),
}

/// What an app and a model ask for, or why that cannot be done.
pub open spec fn requested_kind(app: Seq<char>, model: Seq<char>) -> Result<JobKind, Seq<char>> {
    if app == "super-resolution"@ {
        Ok(JobKind::SuperResolution)
    } else if app == "transcribe-midi"@ {
        Ok(JobKind::TranscribeMidi)
    } else if app == "separation"@ {
        match separation_model(model) {
            Some(m) => Ok(JobKind::Separate(m)),
            None => Err("unsupported separation model: "@ + model),
        }
    } else {
        Err("unsupported app: "@ + app)
    }
}

/// What a kind of job produces.
pub open spec fn product_of(kind: JobKind) -> Seq<char> {
    match kind {
        JobKind::TranscribeMidi => "midi"@,
        JobKind::SuperResolution => "audio"@,
        JobKind::Separate(_) => "audio"@,
    }
}

impl JobKind {
    /// What an app and a model ask for. Only separation looks at the model.
    pub fn from_request(app: &str, model: &str) -> (r: Result<Self, String>)
        ensures
            match r {
                Ok(kind) => requested_kind(app@, model@) == Ok::<JobKind, Seq<char>>(kind),
                Err(message) => requested_kind(app@, model@) == Err::<JobKind, Seq<char>>(
                    message@,
                ),
            },
    {
        if same(app, "super-resolution") {
            Ok(JobKind::SuperResolution)
        } else if same(app, "transcribe-midi") {
            Ok(JobKind::TranscribeMidi)
        } else if same(app, "separation") {
            match SeparationModel::from_id(model) {
                Ok(m) => Ok(JobKind::Separate(m)),
                Err(message) => Err(message),
            }
        } else {
            Err(joined("unsupported app: ", app))
        }
    }

    /// What this kind of job produces.
    pub fn product(self) -> (r: &'static str)
        ensures
            r@ == product_of(self),
    {
        match self {
            JobKind::TranscribeMidi => "midi",
            JobKind::SuperResolution => "audio",
            JobKind::Separate(_) => "audio",
        }
    }
}

/// How the time of a run relates to the length of the audio: the quotient
/// `elapsed_nanos / 10^9 / (samples / sample_rate)`, or zero where there is no
/// audio.
#[derive(Clone, Copy, PartialEq, Eq, Debug, Structural)]
pub enum RealTimeFactor {
    Zero,
    Quotient { elapsed_nanos: u128, samples: u64, sample_rate: u32 },
}

/// The real-time factor of a run.
pub open spec fn factor_of(elapsed_nanos: u128, samples: u64, sample_rate: u32) -> RealTimeFactor {
    if samples > 0 {
        RealTimeFactor::Quotient { elapsed_nanos, samples, sample_rate }
    } else {
        RealTimeFactor::Zero
    }
}

/// The real-time factor of a run.
pub fn real_time_factor(elapsed_nanos: u128, samples: u64, sample_rate: u32) -> (r: RealTimeFactor)
    ensures
        r == factor_of(elapsed_nanos, samples, sample_rate),
{
    if samples > 0 {
        RealTimeFactor::Quotient { elapsed_nanos, samples, sample_rate }
    } else {
        RealTimeFactor::Zero
    }
}

/// A job. Its duration is held in nanoseconds.
#[derive(Debug)]
pub struct Job {
    pub id: String,
    pub name: String,
    pub app: String,
    pub model: String,
    pub model_name: String,
    pub product: &'static str,
    pub status: JobStatus,
    pub created_at: u64,
    pub input_path: String,
    pub output_path: Option<String>,
    pub score_path: Option<String>,
    pub notes_path: Option<String>,
    pub artifacts: Vec<JobArtifact>,
    pub note_count: Option<usize>,
    pub error: Option<String>,
    pub duration: Option<u128>,
    pub rtf: Option<RealTimeFactor>,
    pub kind: JobKind,
    pub midi: Option<MidiParams>,
}

/// A job, as mathematical values.
pub struct JobView {
    pub id: Seq<char>,
    pub name: Seq<char>,
    pub app: Seq<char>,
    pub model: Seq<char>,
    pub model_name: Seq<char>,
    pub product: Seq<char>,
    pub status: JobStatus,
    pub created_at: u64,
    pub input_path: Seq<char>,
    pub output_path: Option<Seq<char>>,
    pub score_path: Option<Seq<char>>,
    pub notes_path: Option<Seq<char>>,
    pub artifacts: Seq<JobArtifactView>,
    pub note_count: Option<usize>,
    pub error: Option<Seq<char>>,
    pub duration: Option<u128>,
    pub rtf: Option<RealTimeFactor>,
    pub kind: JobKind,
    pub midi: Option<MidiParamsView>,
}

impl View for Job {
    type V = JobView;

    open spec fn view(&self) -> JobView {
        JobView {
            id: self.id@,
            name: self.name@,
            app: self.app@,
            model: self.model@,
            model_name: self.model_name@,
            product: self.product@,
            status: self.status,
            created_at: self.created_at,
            input_path: self.input_path@,
            output_path: crate::db::text_view(self.output_path),
            score_path: crate::db::text_view(self.score_path),
            notes_path: crate::db::text_view(self.notes_path),
            artifacts: artifacts_view(self.artifacts@),
            note_count: self.note_count,
            error: crate::db::text_view(self.error),
            duration: self.duration,
            rtf: self.rtf,
            kind: self.kind,
            midi: midi_view(self.midi),
        }
    }
}

impl Clone for Job {
    fn clone(&self) -> (r: Self)
        ensures
            r@ == self@,
    {
        Job {
            id: self.id.clone(),
            name: self.name.clone(),
            app: self.app.clone(),
            model: self.model.clone(),
            model_name: self.model_name.clone(),
            product: self.product,
            status: self.status,
            created_at: self.created_at,
            input_path: self.input_path.clone(),
            output_path: copied_text(&self.output_path),
            score_path: copied_text(&self.score_path),
            notes_path: copied_text(&self.notes_path),
            artifacts: copied_artifacts(&self.artifacts),
            note_count: self.note_count,
            error: copied_text(&self.error),
            duration: self.duration,
            rtf: self.rtf,
            kind: self.kind,
            midi: copied_midi(&self.midi),
        }
    }
}

// ---------- ids and times ----------

/// `Duration::as_nanos`: the nanoseconds of a duration.
#[verifier::external_body]
fn whole_nanos(d: Duration) -> (r: u128)
    ensures
        r == crate::db::nanos_in(d),
{
    d.as_nanos()
}

/// `Duration::as_secs`: the whole seconds of a duration.
#[verifier::external_body]
fn whole_secs(d: Duration) -> (r: u64)
    ensures
        r == crate::db::nanos_in(d) / 1_000_000_000,
{
    d.as_secs()
}

/// The creation time of a job that is created at a moment: whole seconds since
/// the Unix epoch, or nothing where the moment is before the epoch.
pub open spec fn creation_time(t: SystemTime) -> Option<u64> {
    match crate::db::nanos_since_epoch(t) {
        Some(nanos) => Some((nanos / 1_000_000_000) as u64),
        None => None,
    }
}

/// The creation time of a job that is created at a moment.
pub fn created_at(t: SystemTime) -> (r: Option<u64>)
    ensures
        r == creation_time(t),
{
    match since_epoch(t) {
        Some(d) => Some(whole_secs(d)),
        None => None,
    }
}

/// The creation time of a job that is created at the moment that the system
/// clock shows. Which moment that is, is left to the clock.
pub fn created_now() -> (r: Option<u64>)
    ensures
        exists|t: SystemTime| r == #[trigger] creation_time(t),
{
    created_at(system_now())
}

/// The id of job number `n` that is submitted at the time `nanos`.
pub open spec fn id_text(nanos: nat, n: nat) -> Seq<char> {
    "job-"@ + crate::text::decimal_text(nanos) + "-"@ + crate::text::decimal_text(n)
}

/// The id of job number `n` that is submitted at the time `nanos`.
pub fn job_id(nanos: u128, n: u64) -> (r: String)
    ensures
        r@ == id_text(nanos as nat, n as nat),
{
    let time: String = decimal(nanos);
    let number: String = decimal(n as u128);
    let mut id: String = joined3("job-", time.as_str(), "-");
    id.append(number.as_str());
    id
}

/// The number after `n`; the last one is followed by zero.
pub open spec fn next_number(n: u64) -> u64 {
    if n == u64::MAX {
        0
    } else {
        (n + 1) as u64
    }
}

// ---------- the engine ----------

/// Paths to the model assets that the worker may need.
pub struct ModelPaths {
    pub sr_checkpoint: String,
    pub game_weights: String,
    pub game_config: String,
    pub separation_melband_checkpoint: String,
    pub separation_wsa_checkpoint: String,
}

/// Paths to the model assets, as mathematical values.
pub struct ModelPathsView {
    pub sr_checkpoint: Seq<char>,
    pub game_weights: Seq<char>,
    pub game_config: Seq<char>,
    pub separation_melband_checkpoint: Seq<char>,
    pub separation_wsa_checkpoint: Seq<char>,
}

impl View for ModelPaths {
    type V = ModelPathsView;

    open spec fn view(&self) -> ModelPathsView {
        ModelPathsView {
            sr_checkpoint: self.sr_checkpoint@,
            game_weights: self.game_weights@,
            game_config: self.game_config@,
            separation_melband_checkpoint: self.separation_melband_checkpoint@,
            separation_wsa_checkpoint: self.separation_wsa_checkpoint@,
        }
    }
}

/// The models that the worker has loaded.
#[derive(Clone, Copy, PartialEq, Eq, Debug, Structural)]
pub struct LoadedModels {
    pub renaissance: bool,
    pub transcriber: bool,
    pub melband: bool,
    pub wsa: bool,
}

/// Whether the model of a kind of job is loaded.
pub open spec fn has_model(loaded: LoadedModels, kind: JobKind) -> bool {
    match kind {
        JobKind::SuperResolution => loaded.renaissance,
        JobKind::TranscribeMidi => loaded.transcriber,
        JobKind::Separate(SeparationModel::MelBand) => loaded.melband,
        JobKind::Separate(SeparationModel::Wsa) => loaded.wsa,
    }
}

/// The models after that of a kind of job was loaded.
pub open spec fn with_model(loaded: LoadedModels, kind: JobKind) -> LoadedModels {
    match kind {
        JobKind::SuperResolution => LoadedModels { renaissance: true, ..loaded },
        JobKind::TranscribeMidi => LoadedModels { transcriber: true, ..loaded },
        JobKind::Separate(SeparationModel::MelBand) => LoadedModels { melband: true, ..loaded },
        JobKind::Separate(SeparationModel::Wsa) => LoadedModels { wsa: true, ..loaded },
    }
}

struct Store {
    jobs: StringHashMap<Job>,
    /// Job ids, the newest first.
    order: Vec<String>,
}

/// The jobs, and what the worker knows.
pub struct Engine {
    store: Store,
    work_dir: String,
    counter: u64,
    paths: ModelPaths,
    loaded: LoadedModels,
}

/// The state of the engine, as mathematical values.
#[verifier::ext_equal]
pub struct EngineView {
    pub jobs: Map<Seq<char>, JobView>,
    pub order: Seq<Seq<char>>,
    pub work_dir: Seq<char>,
    pub counter: u64,
    pub paths: ModelPathsView,
    pub loaded: LoadedModels,
}

impl View for Engine {
    type V = EngineView;

    closed spec fn view(&self) -> EngineView {
        EngineView {
            jobs: self.store.jobs@.map_values(|j: Job| j@),
            order: crate::text::texts_view(self.store.order@),
            work_dir: self.work_dir@,
            counter: self.counter,
            paths: self.paths@,
            loaded: self.loaded,
        }
    }
}

/// Every id in the order belongs to a job, and every job stands under its id.
pub open spec fn is_consistent(state: EngineView) -> bool {
    &&& forall|i: int|
        0 <= i < state.order.len() ==> state.jobs.dom().contains(#[trigger] state.order[i])
    &&& forall|id: Seq<char>|
        state.jobs.dom().contains(id) ==> (#[trigger] state.jobs[id]).id == id
}

/// The jobs with one of them changed; where it is not there, nothing changes.
pub open spec fn with_job(
    jobs: Map<Seq<char>, JobView>,
    id: Seq<char>,
    job: JobView,
) -> Map<Seq<char>, JobView> {
    if jobs.dom().contains(id) {
        jobs.insert(id, job)
    } else {
        jobs
    }
}

/// A job that is being worked on.
pub open spec fn processing(job: JobView) -> JobView {
    JobView { status: JobStatus::Processing, ..job }
}

/// A job that has failed.
pub open spec fn failed(job: JobView, message: Seq<char>) -> JobView {
    JobView { status: JobStatus::Failed, error: Some(message), ..job }
}

/// What is laid out for a request before its data is written.
pub struct Accepted {
    pub id: String,
    pub kind: JobKind,
    pub input_path: String,
}

/// The extension under which an upload is stored: its own in lower case, or
/// `bin`.
pub open spec fn upload_extension(name: Seq<char>) -> Seq<char> {
    crate::text::lowercased(
        match crate::paths::extension(name) {
            Some(ext) => ext,
            None => "bin"@,
        },
    )
}

/// Where an upload is stored.
pub open spec fn upload_path(work_dir: Seq<char>, id: Seq<char>, name: Seq<char>) -> Seq<char> {
    crate::paths::path_join(work_dir, id + ".in."@ + upload_extension(name))
}

/// What becomes of a request under the id `id`.
pub open spec fn is_accepted(
    r: Result<Accepted, String>,
    work_dir: Seq<char>,
    req: SubmitReq,
    id: Seq<char>,
) -> bool {
    match r {
        Ok(a) => a.id@ == id && requested_kind(req.app@, req.model@) == Ok::<JobKind, Seq<char>>(
            a.kind,
        ) && a.input_path@ == upload_path(work_dir, id, req.name@),
        Err(message) => requested_kind(req.app@, req.model@) == Err::<JobKind, Seq<char>>(message@),
    }
}

/// What a new id at a moment is, and what it does to the engine: the id holds
/// the moment and a number that counts up. Before the Unix epoch there is none,
/// and nothing changes.
pub open spec fn id_is_drawn(
    before: EngineView,
    after: EngineView,
    id: Option<String>,
    t: SystemTime,
) -> bool {
    match crate::db::nanos_since_epoch(t) {
        Some(nanos) => {
            &&& id is Some && id->Some_0@ == id_text(nanos, before.counter as nat)
            &&& after == (EngineView { counter: next_number(before.counter), ..before })
        },
        None => id is None && after == before,
    }
}

/// What becomes of a request at a moment: it is accepted or refused under a new
/// id, and a number is used up either way. Before the Unix epoch nothing is
/// done.
pub open spec fn is_submitted(
    before: EngineView,
    after: EngineView,
    r: Option<Result<Accepted, String>>,
    req: SubmitReq,
    t: SystemTime,
) -> bool {
    match crate::db::nanos_since_epoch(t) {
        Some(nanos) => {
            &&& r is Some && is_accepted(
                r->Some_0,
                before.work_dir,
                req,
                id_text(nanos, before.counter as nat),
            )
            &&& after == (EngineView { counter: next_number(before.counter), ..before })
        },
        None => r is None && after == before,
    }
}

/// The record of a new job.
pub open spec fn queued(
    req: SubmitReq,
    id: Seq<char>,
    kind: JobKind,
    input_path: Seq<char>,
    created_at: u64,
) -> JobView {
    JobView {
        id,
        name: req.name@,
        app: req.app@,
        model: req.model@,
        model_name: req.model_name@,
        product: product_of(kind),
        status: JobStatus::Queued,
        created_at,
        input_path,
        output_path: None,
        score_path: None,
        notes_path: None,
        artifacts: seq![],
        note_count: None,
        error: None,
        duration: None,
        rtf: None,
        kind,
        midi: midi_view(req.midi),
    }
}

/// What a client is told when the worker is gone.
pub open spec fn worker_gone() -> Seq<char> {
    "推理服务不可用（worker 已退出）"@
}

/// The ids on a page. Pages count from one.
pub open spec fn page_ids(order: Seq<Seq<char>>, page: int, per_page: int) -> Seq<Seq<char>> {
    let start = (page - 1) * per_page;
    let end = start + per_page;
    if start >= order.len() {
        seq![]
    } else if end >= order.len() {
        order.skip(start)
    } else {
        order.subrange(start, end)
    }
}

/// Jobs, as mathematical values.
pub open spec fn jobs_view(jobs: Seq<Job>) -> Seq<JobView> {
    jobs.map_values(|j: Job| j@)
}

impl Engine {
    /// The well-formedness of the engine.
    pub open spec fn well_formed(&self) -> bool {
        is_consistent(self@)
    }

    /// An engine without jobs, whose worker has loaded nothing.
    pub fn new(paths: ModelPaths, work_dir: String) -> (r: Self)
        ensures
            r.well_formed(),
            r@ == (EngineView {
                jobs: Map::<Seq<char>, JobView>::empty(),
                order: seq![],
                work_dir: work_dir@,
                counter: 0,
                paths: paths@,
                loaded: LoadedModels {
                    renaissance: false,
                    transcriber: false,
                    melband: false,
                    wsa: false,
                },
            }),
    {
        let r = Engine {
            store: Store { jobs: StringHashMap::new(), order: Vec::new() },
            work_dir,
            counter: 0,
            paths,
            loaded: LoadedModels {
                renaissance: false,
                transcriber: false,
                melband: false,
                wsa: false,
            },
        };
        proof {
            assert(r@.jobs =~= Map::<Seq<char>, JobView>::empty());
            assert(r@.order =~= seq![]);
        }
        r
    }

    /// A new id at a moment.
    fn id_at(&mut self, t: SystemTime) -> (r: Option<String>)
        ensures
            id_is_drawn(old(self)@, final(self)@, r, t),
    {
        match since_epoch(t) {
            Some(d) => {
                let nanos: u128 = whole_nanos(d);
                let n: u64 = self.counter;
                self.counter = if n == u64::MAX {
                    0
                } else {
                    n + 1
                };
                Some(job_id(nanos, n))
            },
            None => None,
        }
    }

    /// A new id at the moment that the system clock shows. Which moment that
    /// is, is left to the clock.
    fn next_id(&mut self) -> (r: Option<String>)
        ensures
            exists|t: SystemTime| #[trigger] id_is_drawn(old(self)@, final(self)@, r, t),
    {
        let t: SystemTime = system_now();
        let id: Option<String> = self.id_at(t);
        proof {
            assert(id_is_drawn(old(self)@, self@, id, t));
        }
        id
    }

    /// What becomes of a request under the id `id`: what it does and where its
    /// data goes, or why it cannot be done.
    pub fn accept(&self, req: &SubmitReq, id: String) -> (r: Result<Accepted, String>)
        ensures
            is_accepted(r, self@.work_dir, *req, id@),
    {
        let kind: JobKind = match JobKind::from_request(req.app.as_str(), req.model.as_str()) {
            Ok(kind) => kind,
            Err(message) => return Err(message),
        };
        let ext: String = match path_extension(req.name.as_str()) {
            Some(ext) => to_lowercase(ext.as_str()),
            None => to_lowercase("bin"),
        };
        let name: String = joined3(id.as_str(), ".in.", ext.as_str());
        let input_path: String = join(self.work_dir.as_str(), name.as_str());
        Ok(Accepted { id, kind, input_path })
    }

    /// Takes a request at a moment, under a new id.
    pub fn submit_at(&mut self, req: &SubmitReq, t: SystemTime) -> (r: Option<
        Result<Accepted, String>,
    >)
        ensures
            is_submitted(old(self)@, final(self)@, r, *req, t),
    {
        match self.id_at(t) {
            Some(id) => Some(self.accept(req, id)),
            None => None,
        }
    }

    /// Takes a request at the moment that the system clock shows, under a new
    /// id. Which moment that is, is left to the clock.
    pub fn submit(&mut self, req: &SubmitReq) -> (r: Option<Result<Accepted, String>>)
        ensures
            exists|t: SystemTime|
                #[trigger] is_submitted(old(self)@, final(self)@, r, *req, t),
    {
        match self.next_id() {
            Some(id) => {
                let ghost t = choose|t: SystemTime|
                    id_is_drawn(old(self)@, self@, Some(id), t);
                let accepted: Result<Accepted, String> = self.accept(req, id);
                proof {
                    assert(is_submitted(old(self)@, self@, Some(accepted), *req, t));
                }
                Some(accepted)
            },
            None => {
                proof {
                    let t = choose|t: SystemTime| id_is_drawn(old(self)@, self@, None, t);
                    assert(is_submitted(old(self)@, self@, None, *req, t));
                }
                None
            },
        }
    }

    /// Stores a job whose data has been written, in front of the others.
    pub fn enqueue(&mut self, req: SubmitReq, accepted: Accepted, created_at: u64) -> (r: Job)
        requires
            old(self).well_formed(),
        ensures
            final(self).well_formed(),
            r@ == queued(req, accepted.id@, accepted.kind, accepted.input_path@, created_at),
            final(self)@ == (EngineView {
                jobs: old(self)@.jobs.insert(accepted.id@, r@),
                order: seq![accepted.id@] + old(self)@.order,
                ..old(self)@
            }),
    {
        let ghost before = self@;
        let ghost id = accepted.id@;
        let job = Job {
            id: accepted.id.clone(),
            name: req.name,
            app: req.app,
            model: req.model,
            model_name: req.model_name,
            product: accepted.kind.product(),
            status: JobStatus::Queued,
            created_at,
            input_path: accepted.input_path,
            output_path: None,
            score_path: None,
            notes_path: None,
            artifacts: Vec::new(),
            note_count: None,
            error: None,
            duration: None,
            rtf: None,
            kind: accepted.kind,
            midi: req.midi,
        };
        proof {
            assert(job@.artifacts =~= seq![]);
        }
        self.store.jobs.insert(accepted.id.clone(), job.clone());
        self.store.order.insert(0, accepted.id);
        proof {
            assert(self@.jobs =~= before.jobs.insert(id, job@));
            assert(self@.order =~= seq![id] + before.order);
            assert forall|i: int| 0 <= i < self@.order.len() implies self@.jobs.dom().contains(
                #[trigger] self@.order[i],
            ) by {
                if i > 0 {
                    assert(self@.order[i] == before.order[i - 1]);
                }
            }
        }
        job
    }

    /// Puts a changed job back.
    fn put(&mut self, job: Job)
        requires
            old(self).well_formed(),
            old(self)@.jobs.dom().contains(job@.id),
        ensures
            final(self).well_formed(),
            final(self)@ == (EngineView {
                jobs: old(self)@.jobs.insert(job@.id, job@),
                ..old(self)@
            }),
    {
        let ghost before = self@;
        let ghost row = job@;
        self.store.jobs.insert(job.id.clone(), job);
        proof {
            assert(self@.jobs =~= before.jobs.insert(row.id, row));
        }
    }

    /// The job with an id.
    pub fn get(&self, id: &str) -> (r: Option<Job>)
        ensures
            match r {
                Some(job) => self@.jobs.dom().contains(id@) && job@ == self@.jobs[id@],
                None => !self@.jobs.dom().contains(id@),
            },
    {
        match self.store.jobs.get(id) {
            Some(job) => Some(job.clone()),
            None => None,
        }
    }

    /// The jobs on a page, the newest first, and how many jobs there are.
    pub fn list(&self, page: usize, per_page: usize) -> (r: (Vec<Job>, usize))
        requires
            self.well_formed(),
            1 <= page,
            (page - 1) * per_page <= usize::MAX,
        ensures
            jobs_view(r.0@) == page_ids(self@.order, page as int, per_page as int).map_values(
                |id: Seq<char>| self@.jobs[id],
            ),
            r.1 == self@.order.len(),
    {
        let total: usize = self.store.order.len();
        let start: usize = (page - 1) * per_page;
        let ghost ids = page_ids(self@.order, page as int, per_page as int);
        let mut items: Vec<Job> = Vec::new();
        let mut i: usize = 0;
        proof {
            assert(start == (page - 1) * per_page);
            assert(self@.order.len() == total);
        }
        while i < per_page && start < total && i < total - start
            invariant
                self.well_formed(),
                total == self@.order.len(),
                total == self.store.order@.len(),
                start == (page - 1) * per_page,
                ids == page_ids(self@.order, page as int, per_page as int),
                i <= ids.len(),
                ids.len() == (if start >= total {
                    0
                } else if start + per_page >= total {
                    total - start
                } else {
                    per_page as int
                }),
                items.len() == i,
                forall|j: int| 0 <= j < i ==> (#[trigger] items@[j])@ == self@.jobs[ids[j]],
            decreases per_page - i,
        {
            proof {
                assert(ids[i as int] == self@.order[start + i]);
                assert(self@.order[start + i] == self.store.order@[start + i]@);
            }
            if let Some(job) = self.get(self.store.order[start + i].as_str()) {
                items.push(job);
            }
            i = i + 1;
        }
        proof {
            assert(jobs_view(items@) =~= ids.map_values(|id: Seq<char>| self@.jobs[id]));
        }
        (items, total)
    }

    /// Marks a job as failed.
    pub fn mark_failed(&mut self, id: &str, msg: String)
        requires
            old(self).well_formed(),
        ensures
            final(self).well_formed(),
            final(self)@ == (EngineView {
                jobs: with_job(old(self)@.jobs, id@, failed(old(self)@.jobs[id@], msg@)),
                ..old(self)@
            }),
    {
        if let Some(mut job) = self.get(id) {
            job.status = JobStatus::Failed;
            job.error = Some(msg);
            self.put(job);
        }
    }

    /// What a client is told after the worker was sent the job, or was found
    /// gone: the job as it stands then.
    pub fn settle(&mut self, job: Job, delivered: bool) -> (r: Job)
        requires
            old(self).well_formed(),
        ensures
            final(self).well_formed(),
            final(self)@ == (if delivered {
                old(self)@
            } else {
                EngineView {
                    jobs: with_job(
                        old(self)@.jobs,
                        job@.id,
                        failed(old(self)@.jobs[job@.id], worker_gone()),
                    ),
                    ..old(self)@
                }
            }),
            r@ == (if final(self)@.jobs.dom().contains(job@.id) {
                final(self)@.jobs[job@.id]
            } else {
                job@
            }),
    {
        if !delivered {
            self.mark_failed(job.id.as_str(), "推理服务不可用（worker 已退出）".to_owned());
        }
        match self.get(job.id.as_str()) {
            Some(current) => current,
            None => job,
        }
    }
}

// ---------- the worker ----------

/// What the worker does about the model of a job.
pub enum ModelStep {
    /// The model is loaded.
    Ready,
    /// The model is loaded from these files first.
    Load { weights: String, config: Option<String> },
}

/// A model step, as mathematical values.
pub enum ModelStepView {
    Ready,
    Load { weights: Seq<char>, config: Option<Seq<char>> },
}

impl View for ModelStep {
    type V = ModelStepView;

    open spec fn view(&self) -> ModelStepView {
        match self {
            ModelStep::Ready => ModelStepView::Ready,
            ModelStep::Load { weights, config } => ModelStepView::Load {
                weights: weights@,
                config: crate::db::text_view(*config),
            },
        }
    }
}

/// What is done about the model of a kind of job, given which of its files are
/// there, or why it cannot be loaded.
pub open spec fn model_step(
    state: EngineView,
    kind: JobKind,
    weights_exist: bool,
    config_exists: bool,
) -> Result<ModelStepView, Seq<char>> {
    let p = state.paths;
    if has_model(state.loaded, kind) {
        Ok(ModelStepView::Ready)
    } else {
        match kind {
            JobKind::SuperResolution => Ok(
                ModelStepView::Load { weights: p.sr_checkpoint, config: None },
            ),
            JobKind::TranscribeMidi => if !weights_exist {
                Err(
                    "GAME 权重缺失："@ + p.game_weights
                        + "（请提供 .safetensors 与 config.yaml 后重试）"@,
                )
            } else if !config_exists {
                Err("GAME 配置缺失："@ + p.game_config)
            } else {
                Ok(ModelStepView::Load { weights: p.game_weights, config: Some(p.game_config) })
            },
            JobKind::Separate(SeparationModel::MelBand) => if !weights_exist {
                Err("MelBand checkpoint missing: "@ + p.separation_melband_checkpoint)
            } else {
                Ok(ModelStepView::Load { weights: p.separation_melband_checkpoint, config: None })
            },
            JobKind::Separate(SeparationModel::Wsa) => if !weights_exist {
                Err("WSA checkpoint missing: "@ + p.separation_wsa_checkpoint)
            } else {
                Ok(ModelStepView::Load { weights: p.separation_wsa_checkpoint, config: None })
            },
        }
    }
}

/// The files of the model of a kind of job.
pub open spec fn files_of(paths: ModelPathsView, kind: JobKind) -> (Seq<char>, Option<Seq<char>>) {
    match kind {
        JobKind::SuperResolution => (paths.sr_checkpoint, None),
        JobKind::TranscribeMidi => (paths.game_weights, Some(paths.game_config)),
        JobKind::Separate(SeparationModel::MelBand) => (paths.separation_melband_checkpoint, None),
        JobKind::Separate(SeparationModel::Wsa) => (paths.separation_wsa_checkpoint, None),
    }
}

/// What a failure to load the model of a kind of job begins with.
pub open spec fn load_complaint(kind: JobKind) -> Seq<char> {
    match kind {
        JobKind::SuperResolution => "模型加载失败: "@,
        JobKind::TranscribeMidi => "GAME 模型加载失败: "@,
        JobKind::Separate(SeparationModel::MelBand) => "MelBand model load failed: "@,
        JobKind::Separate(SeparationModel::Wsa) => "WSA model load failed: "@,
    }
}

/// What a job says that failed because its model did not load.
pub fn load_error(kind: JobKind, reason: &str) -> (r: String)
    ensures
        r@ == load_complaint(kind) + reason@,
{
    match kind {
        JobKind::SuperResolution => joined("模型加载失败: ", reason),
        JobKind::TranscribeMidi => joined("GAME 模型加载失败: ", reason),
        JobKind::Separate(SeparationModel::MelBand) => joined("MelBand model load failed: ", reason),
        JobKind::Separate(SeparationModel::Wsa) => joined("WSA model load failed: ", reason),
    }
}

/// How a transcription is run, and where its files go.
pub struct MidiRun {
    pub params: MidiParams,
    /// Where notes are quantised: whether they are weighted.
    pub weighted: Option<bool>,
    pub midi_path: String,
    pub score_path: String,
    pub notes_path: String,
}

/// The parameters with which a job is transcribed.
pub open spec fn params_of(job: JobView) -> MidiParamsView {
    match job.midi {
        Some(m) => m,
        None => default_midi_params(),
    }
}

/// How a job is transcribed.
pub fn run_midi(job: &Job) -> (r: MidiRun)
    ensures
        r.params@ == params_of(job@),
        r.weighted == (if params_of(job@).quantize {
            Some(!params_of(job@).quantize_equal_weight)
        } else {
            None
        }),
        r.midi_path@ == crate::paths::path_with_extension(job@.input_path, "out.mid"@),
        r.score_path@ == crate::paths::path_with_extension(job@.input_path, "out.json"@),
        r.notes_path@ == crate::paths::path_with_extension(job@.input_path, "notes.json"@),
{
    let params: MidiParams = match &job.midi {
        Some(m) => m.clone(),
        None => MidiParams::default(),
    };
    let weighted: Option<bool> = if params.quantize {
        Some(!params.quantize_equal_weight)
    } else {
        None
    };
    let input: &str = job.input_path.as_str();
    MidiRun {
        params,
        weighted,
        midi_path: with_extension(input, "out.mid"),
        score_path: with_extension(input, "out.json"),
        notes_path: with_extension(input, "notes.json"),
    }
}

/// Where the enhanced audio of a job goes.
pub fn run_super_resolution(job: &Job) -> (r: String)
    ensures
        r@ == crate::paths::path_with_extension(job@.input_path, "out.wav"@),
{
    with_extension(job.input_path.as_str(), "out.wav")
}

/// Where the vocals and the accompaniment of a job go.
pub fn run_separation(job: &Job) -> (r: (String, String))
    ensures
        r.0@ == crate::paths::path_with_extension(job@.input_path, "vocal.wav"@),
        r.1@ == crate::paths::path_with_extension(job@.input_path, "instrumental.wav"@),
{
    (
        with_extension(job.input_path.as_str(), "vocal.wav"),
        with_extension(job.input_path.as_str(), "instrumental.wav"),
    )
}

/// An artifact, as mathematical values.
pub open spec fn artifact(
    key: Seq<char>,
    label: Seq<char>,
    kind: Seq<char>,
    path: Seq<char>,
) -> JobArtifactView {
    JobArtifactView { key, label, kind, path }
}

fn new_artifact(key: &str, label: &str, kind: &'static str, path: String) -> (r: JobArtifact)
    ensures
        r@ == artifact(key@, label@, kind@, path@),
{
    JobArtifact { key: key.to_owned(), label: label.to_owned(), kind, path }
}

/// A job after its enhancement.
pub open spec fn enhanced(
    job: JobView,
    input_path: Seq<char>,
    elapsed_nanos: u128,
    samples: u64,
    sample_rate: u32,
) -> JobView {
    let out = crate::paths::path_with_extension(input_path, "out.wav"@);
    JobView {
        status: JobStatus::Done,
        output_path: Some(out),
        artifacts: seq![artifact("output"@, "已修复"@, "audio"@, out)],
        duration: Some(elapsed_nanos),
        rtf: Some(factor_of(elapsed_nanos, samples, sample_rate)),
        ..job
    }
}

/// A job after its transcription.
pub open spec fn transcribed(
    job: JobView,
    input_path: Seq<char>,
    elapsed_nanos: u128,
    note_count: usize,
) -> JobView {
    let midi = crate::paths::path_with_extension(input_path, "out.mid"@);
    let score = crate::paths::path_with_extension(input_path, "out.json"@);
    let notes = crate::paths::path_with_extension(input_path, "notes.json"@);
    JobView {
        status: JobStatus::Done,
        output_path: Some(midi),
        score_path: Some(score),
        notes_path: Some(notes),
        artifacts: seq![
            artifact("midi"@, "MIDI"@, "file"@, midi),
            artifact("json"@, "JSON"@, "file"@, score),
            artifact("notes"@, "Notes"@, "file"@, notes),
        ],
        note_count: Some(note_count),
        duration: Some(elapsed_nanos),
        ..job
    }
}

/// A job after its separation.
pub open spec fn separated(
    job: JobView,
    input_path: Seq<char>,
    elapsed_nanos: u128,
    samples: u64,
) -> JobView {
    let vocal = crate::paths::path_with_extension(input_path, "vocal.wav"@);
    let instrumental = crate::paths::path_with_extension(input_path, "instrumental.wav"@);
    JobView {
        status: JobStatus::Done,
        output_path: Some(vocal),
        artifacts: seq![
            artifact("vocal"@, "Vocal"@, "audio"@, vocal),
            artifact("instrumental"@, "Instrumental"@, "audio"@, instrumental),
        ],
        duration: Some(elapsed_nanos),
        rtf: Some(factor_of(elapsed_nanos, samples, MODEL_SAMPLE_RATE)),
        ..job
    }
}

impl Engine {
    /// Takes a job up: it is being worked on from then on. An id without a job
    /// is passed over.
    pub fn begin(&mut self, id: &str) -> (r: Option<Job>)
        requires
            old(self).well_formed(),
        ensures
            final(self).well_formed(),
            final(self)@ == (EngineView {
                jobs: with_job(old(self)@.jobs, id@, processing(old(self)@.jobs[id@])),
                ..old(self)@
            }),
            match r {
                Some(job) => old(self)@.jobs.dom().contains(id@) && job@ == processing(
                    old(self)@.jobs[id@],
                ),
                None => !old(self)@.jobs.dom().contains(id@),
            },
    {
        if let Some(mut job) = self.get(id) {
            job.status = JobStatus::Processing;
            self.put(job);
        }
        self.get(id)
    }

    /// What is done about the model of a kind of job, given which of its files
    /// are there.
    pub fn prepare_model(&self, kind: JobKind, weights_exist: bool, config_exists: bool) -> (r:
        Result<ModelStep, String>)
        ensures
            match r {
                Ok(step) => model_step(self@, kind, weights_exist, config_exists) == Ok::<
                    ModelStepView,
                    Seq<char>,
                >(step@),
                Err(message) => model_step(self@, kind, weights_exist, config_exists) == Err::<
                    ModelStepView,
                    Seq<char>,
                >(message@),
            },
    {
        match kind {
            JobKind::SuperResolution => if self.loaded.renaissance {
                Ok(ModelStep::Ready)
            } else {
                Ok(ModelStep::Load { weights: self.paths.sr_checkpoint.clone(), config: None })
            },
            JobKind::TranscribeMidi => if self.loaded.transcriber {
                Ok(ModelStep::Ready)
            } else if !weights_exist {
                Err(
                    joined3(
                        "GAME 权重缺失：",
                        self.paths.game_weights.as_str(),
                        "（请提供 .safetensors 与 config.yaml 后重试）",
                    ),
                )
            } else if !config_exists {
                Err(joined("GAME 配置缺失：", self.paths.game_config.as_str()))
            } else {
                Ok(
                    ModelStep::Load {
                        weights: self.paths.game_weights.clone(),
                        config: Some(self.paths.game_config.clone()),
                    },
                )
            },
            JobKind::Separate(SeparationModel::MelBand) => if self.loaded.melband {
                Ok(ModelStep::Ready)
            } else if !weights_exist {
                Err(
                    joined(
                        "MelBand checkpoint missing: ",
                        self.paths.separation_melband_checkpoint.as_str(),
                    ),
                )
            } else {
                Ok(
                    ModelStep::Load {
                        weights: self.paths.separation_melband_checkpoint.clone(),
                        config: None,
                    },
                )
            },
            JobKind::Separate(SeparationModel::Wsa) => if self.loaded.wsa {
                Ok(ModelStep::Ready)
            } else if !weights_exist {
                Err(
                    joined(
                        "WSA checkpoint missing: ",
                        self.paths.separation_wsa_checkpoint.as_str(),
                    ),
                )
            } else {
                Ok(
                    ModelStep::Load {
                        weights: self.paths.separation_wsa_checkpoint.clone(),
                        config: None,
                    },
                )
            },
        }
    }

    /// Notes that the model of a kind of job was loaded.
    pub fn model_loaded(&mut self, kind: JobKind)
        ensures
            final(self)@ == (EngineView { loaded: with_model(old(self)@.loaded, kind), ..old(self)@ }),
    {
        match kind {
            JobKind::SuperResolution => {
                self.loaded.renaissance = true;
            },
            JobKind::TranscribeMidi => {
                self.loaded.transcriber = true;
            },
            JobKind::Separate(SeparationModel::MelBand) => {
                self.loaded.melband = true;
            },
            JobKind::Separate(SeparationModel::Wsa) => {
                self.loaded.wsa = true;
            },
        }
    }

    /// Notes that a job was enhanced. `job` is the job as it was taken up.
    pub fn finish_super_resolution(
        &mut self,
        job: &Job,
        elapsed_nanos: u128,
        samples: u64,
        sample_rate: u32,
    )
        requires
            old(self).well_formed(),
        ensures
            final(self).well_formed(),
            final(self)@ == (EngineView {
                jobs: with_job(
                    old(self)@.jobs,
                    job@.id,
                    enhanced(
                        old(self)@.jobs[job@.id],
                        job@.input_path,
                        elapsed_nanos,
                        samples,
                        sample_rate,
                    ),
                ),
                ..old(self)@
            }),
    {
        if let Some(mut current) = self.get(job.id.as_str()) {
            let output_path: String = run_super_resolution(job);
            let mut artifacts: Vec<JobArtifact> = Vec::new();
            artifacts.push(new_artifact("output", "已修复", "audio", output_path.clone()));
            current.status = JobStatus::Done;
            current.output_path = Some(output_path);
            current.artifacts = artifacts;
            current.duration = Some(elapsed_nanos);
            current.rtf = Some(real_time_factor(elapsed_nanos, samples, sample_rate));
            proof {
                assert(current@.artifacts =~= enhanced(
                    self@.jobs[job@.id],
                    job@.input_path,
                    elapsed_nanos,
                    samples,
                    sample_rate,
                ).artifacts);
            }
            self.put(current);
        }
    }

    /// Notes that a job was transcribed. `job` is the job as it was taken up.
    pub fn finish_midi(&mut self, job: &Job, elapsed_nanos: u128, note_count: usize)
        requires
            old(self).well_formed(),
        ensures
            final(self).well_formed(),
            final(self)@ == (EngineView {
                jobs: with_job(
                    old(self)@.jobs,
                    job@.id,
                    transcribed(
                        old(self)@.jobs[job@.id],
                        job@.input_path,
                        elapsed_nanos,
                        note_count,
                    ),
                ),
                ..old(self)@
            }),
    {
        if let Some(mut current) = self.get(job.id.as_str()) {
            let run: MidiRun = run_midi(job);
            let mut artifacts: Vec<JobArtifact> = Vec::new();
            artifacts.push(new_artifact("midi", "MIDI", "file", run.midi_path.clone()));
            artifacts.push(new_artifact("json", "JSON", "file", run.score_path.clone()));
            artifacts.push(new_artifact("notes", "Notes", "file", run.notes_path.clone()));
            current.status = JobStatus::Done;
            current.output_path = Some(run.midi_path);
            current.score_path = Some(run.score_path);
            current.notes_path = Some(run.notes_path);
            current.artifacts = artifacts;
            current.note_count = Some(note_count);
            current.duration = Some(elapsed_nanos);
            proof {
                assert(current@.artifacts =~= transcribed(
                    self@.jobs[job@.id],
                    job@.input_path,
                    elapsed_nanos,
                    note_count,
                ).artifacts);
            }
            self.put(current);
        }
    }

    /// Notes that a job was separated. `job` is the job as it was taken up.
    pub fn finish_separation(&mut self, job: &Job, elapsed_nanos: u128, samples: u64)
        requires
            old(self).well_formed(),
        ensures
            final(self).well_formed(),
            final(self)@ == (EngineView {
                jobs: with_job(
                    old(self)@.jobs,
                    job@.id,
                    separated(old(self)@.jobs[job@.id], job@.input_path, elapsed_nanos, samples),
                ),
                ..old(self)@
            }),
    {
        if let Some(mut current) = self.get(job.id.as_str()) {
            let (vocal_path, instrumental_path) = run_separation(job);
            let mut artifacts: Vec<JobArtifact> = Vec::new();
            artifacts.push(new_artifact("vocal", "Vocal", "audio", vocal_path.clone()));
            artifacts.push(
                new_artifact("instrumental", "Instrumental", "audio", instrumental_path),
            );
            current.status = JobStatus::Done;
            current.output_path = Some(vocal_path);
            current.artifacts = artifacts;
            current.duration = Some(elapsed_nanos);
            current.rtf = Some(real_time_factor(elapsed_nanos, samples, MODEL_SAMPLE_RATE));
            proof {
                assert(current@.artifacts =~= separated(
                    self@.jobs[job@.id],
                    job@.input_path,
                    elapsed_nanos,
                    samples,
                ).artifacts);
            }
            self.put(current);
        }
    }
}

/// What a run has given.
#[derive(Clone, Copy, PartialEq, Eq, Debug, Structural)]
pub enum RunResult {
    Enhanced { elapsed_nanos: u128, samples: u64, sample_rate: u32 },
    Transcribed { elapsed_nanos: u128, note_count: usize },
    Separated { elapsed_nanos: u128, samples: u64 },
}

/// A job after its run.
pub open spec fn concluded(
    job: JobView,
    input_path: Seq<char>,
    result: Result<RunResult, Seq<char>>,
) -> JobView {
    match result {
        Ok(RunResult::Enhanced { elapsed_nanos, samples, sample_rate }) => enhanced(
            job,
            input_path,
            elapsed_nanos,
            samples,
            sample_rate,
        ),
        Ok(RunResult::Transcribed { elapsed_nanos, note_count }) => transcribed(
            job,
            input_path,
            elapsed_nanos,
            note_count,
        ),
        Ok(RunResult::Separated { elapsed_nanos, samples }) => separated(
            job,
            input_path,
            elapsed_nanos,
            samples,
        ),
        Err(message) => failed(job, message),
    }
}

/// The outcome of a run, as mathematical values.
pub open spec fn result_view(result: Result<RunResult, String>) -> Result<RunResult, Seq<char>> {
    match result {
        Ok(given) => Ok(given),
        Err(message) => Err(message@),
    }
}

impl Engine {
    /// Notes what came of a run: what it has given, or why it failed. `job` is
    /// the job as it was taken up.
    pub fn conclude(&mut self, job: &Job, result: Result<RunResult, String>)
        requires
            old(self).well_formed(),
        ensures
            final(self).well_formed(),
            final(self)@ == (EngineView {
                jobs: with_job(
                    old(self)@.jobs,
                    job@.id,
                    concluded(old(self)@.jobs[job@.id], job@.input_path, result_view(result)),
                ),
                ..old(self)@
            }),
    {
        match result {
            Ok(RunResult::Enhanced { elapsed_nanos, samples, sample_rate }) => {
                self.finish_super_resolution(job, elapsed_nanos, samples, sample_rate);
            },
            Ok(RunResult::Transcribed { elapsed_nanos, note_count }) => {
                self.finish_midi(job, elapsed_nanos, note_count);
            },
            Ok(RunResult::Separated { elapsed_nanos, samples }) => {
                self.finish_separation(job, elapsed_nanos, samples);
            },
            Err(message) => {
                self.mark_failed(job.id.as_str(), message);
            },
        }
    }

    /// The files of the model of a kind of job: its weights, and its
    /// configuration where it has one.
    pub fn model_files(&self, kind: JobKind) -> (r: (String, Option<String>))
        ensures
            r.0@ == files_of(self@.paths, kind).0,
            crate::db::text_view(r.1) == files_of(self@.paths, kind).1,
    {
        match kind {
            JobKind::SuperResolution => (self.paths.sr_checkpoint.clone(), None),
            JobKind::TranscribeMidi => (
                self.paths.game_weights.clone(),
                Some(self.paths.game_config.clone()),
            ),
            JobKind::Separate(SeparationModel::MelBand) => (
                self.paths.separation_melband_checkpoint.clone(),
                None,
            ),
            JobKind::Separate(SeparationModel::Wsa) => (
                self.paths.separation_wsa_checkpoint.clone(),
                None,
            ),
        }
    }
}

/// The lengths that the overlapping separation can count in 32 bits: the
/// samples of both channels of the padded signal together.
pub open spec fn melband_in_range(num_frames: int) -> bool {
    2 * (num_frames + MELBAND_CHUNK_SIZE_SAMPLES) <= i32::MAX
}

/// Whether the overlapping separation can count its samples in 32 bits.
pub fn melband_fits(num_frames: usize) -> (r: bool)
    ensures
        r == melband_in_range(num_frames as int),
{
    2 * (num_frames as i128 + MELBAND_CHUNK_SIZE_SAMPLES as i128) <= i32::MAX as i128
}

/// The lengths that the batched separation can count in 32 bits.
pub open spec fn wsa_in_range(num_frames: int) -> bool {
    num_frames + WSA_CHUNK_SECONDS * MODEL_SAMPLE_RATE <= i32::MAX
}

/// Whether the batched separation can count its samples in 32 bits.
pub fn wsa_fits(num_frames: usize) -> (r: bool)
    ensures
        r == wsa_in_range(num_frames as int),
{
    num_frames as i128 + (WSA_CHUNK_SECONDS * MODEL_SAMPLE_RATE) as i128 <= i32::MAX as i128
}

/// What the overlapping separation does around the model.
pub struct MelbandRun {
    pub channels: ChannelPlan,
    pub plan: DemixPlan,
}

/// The plan of the overlapping separation of a decoded file.
pub fn separate_melband(num_frames: usize, num_channels: u16) -> (r: Result<MelbandRun, String>)
    requires
        num_channels > 0 ==> melband_in_range(num_frames as int),
    ensures
        match r {
            Ok(run) => {
                &&& crate::models::source_separation::load_error(
                    num_frames as int,
                    num_channels as int,
                ) is None
                &&& run.channels == crate::models::source_separation::channel_plan(
                    num_channels as int,
                )
                &&& crate::models::source_separation::is_demix_plan(
                    run.plan,
                    num_frames as int,
                    MELBAND_CHUNK_SIZE_SAMPLES as int,
                    MELBAND_NUM_OVERLAP as int,
                )
            },
            Err(message) => crate::models::source_separation::load_error(
                num_frames as int,
                num_channels as int,
            ) == Some(message@),
        },
{
    let channels: ChannelPlan = match load_audio(num_frames, num_channels) {
        Ok(channels) => channels,
        Err(message) => return Err(message),
    };
    let plan: DemixPlan = demix_track(
        num_frames as i32,
        MELBAND_NUM_OVERLAP,
        MELBAND_CHUNK_SIZE_SAMPLES,
    );
    Ok(MelbandRun { channels, plan })
}

/// What the batched separation does around the model.
pub struct WsaRun {
    pub channels: ChannelPlan,
    pub plan: ChunkPlan,
    pub batches: Vec<Batch>,
}

/// The plan of the batched separation of a decoded file.
pub fn separate_wsa(num_frames: usize, num_channels: u16) -> (r: Result<WsaRun, String>)
    requires
        num_channels > 0 ==> wsa_in_range(num_frames as int),
    ensures
        match r {
            Ok(run) => {
                &&& crate::models::source_separation::load_error(
                    num_frames as int,
                    num_channels as int,
                ) is None
                &&& run.channels == crate::models::source_separation::channel_plan(
                    num_channels as int,
                )
                &&& crate::models::source_separation::is_chunk_plan(
                    run.plan,
                    num_frames as int,
                    WSA_CHUNK_SECONDS * MODEL_SAMPLE_RATE,
                )
                &&& run.batches@ == crate::models::source_separation::batches_of(
                    run.plan.clips as int,
                    WSA_BATCH_SIZE as int,
                )
            },
            Err(message) => crate::models::source_separation::load_error(
                num_frames as int,
                num_channels as int,
            ) == Some(message@),
        },
{
    let channels: ChannelPlan = match load_audio(num_frames, num_channels) {
        Ok(channels) => channels,
        Err(message) => return Err(message),
    };
    let chunk_size_samples: i32 = (WSA_CHUNK_SECONDS * MODEL_SAMPLE_RATE) as i32;
    let plan: ChunkPlan = chunk_audio(num_frames as i32, chunk_size_samples);
    let batches: Vec<Batch> = infer_chunks(plan.clips, WSA_BATCH_SIZE);
    Ok(WsaRun { channels, plan, batches })
}

// ---------- laws ----------

/// Jobs that are submitted at different times or under different numbers have
/// different ids.
pub proof fn law_ids_are_unique(nanos1: nat, n1: nat, nanos2: nat, n2: nat)
    requires
        id_text(nanos1, n1) == id_text(nanos2, n2),
    ensures
        nanos1 == nanos2,
        n1 == n2,
{
    reveal_strlit("job-");
    reveal_strlit("-");
    let x = crate::text::decimal_text(nanos1);
    let y = crate::text::decimal_text(nanos2);
    let u = crate::text::decimal_text(n1);
    let v = crate::text::decimal_text(n2);
    crate::text::law_decimal_is_digits(nanos1);
    crate::text::law_decimal_is_digits(nanos2);
    let s = id_text(nanos1, n1);
    let t = id_text(nanos2, n2);
    assert(s[4int + x.len()] == '-');
    assert(t[4int + y.len()] == '-');
    if x.len() < y.len() {
        assert(t[4int + x.len()] == y[x.len() as int]);
    }
    if y.len() < x.len() {
        assert(s[4int + y.len()] == x[y.len() as int]);
    }
    assert(s.subrange(4, 4int + x.len()) =~= x);
    assert(t.subrange(4, 4int + y.len()) =~= y);
    assert(s.skip(5int + x.len()) =~= u);
    assert(t.skip(5int + y.len()) =~= v);
    crate::text::law_decimal_is_unique(nanos1, nanos2);
    crate::text::law_decimal_is_unique(n1, n2);
}

/// The pages hold the jobs in their order: job `i` stands on page
/// `i / per_page + 1`, at place `i % per_page`, and whatever stands at a place
/// of a page is the job of that place in the order.
pub proof fn law_pages_hold_the_order(order: Seq<Seq<char>>, per_page: int, i: int)
    requires
        0 < per_page,
        0 <= i < order.len(),
    ensures
        page_ids(order, i / per_page + 1, per_page).len() > i % per_page,
        page_ids(order, i / per_page + 1, per_page)[i % per_page] == order[i],
        forall|page: int, k: int|
            1 <= page && 0 <= k < page_ids(order, page, per_page).len() ==> k < per_page && 0 <= (
            page - 1) * per_page + k < order.len() && #[trigger] page_ids(order, page, per_page)[k]
                == order[(page - 1) * per_page + k],
{
    vstd::arithmetic::div_mod::lemma_fundamental_div_mod(i, per_page);
    let q = i / per_page;
    assert(per_page * q == (q + 1 - 1) * per_page) by (nonlinear_arith);
    assert(q >= 0) by {
        vstd::arithmetic::div_mod::lemma_div_pos_is_pos(i, per_page);
    }
    assert forall|page: int, k: int|
        1 <= page && 0 <= k < page_ids(order, page, per_page).len() implies k < per_page && 0 <= (
    page - 1) * per_page + k < order.len() && #[trigger] page_ids(order, page, per_page)[k]
        == order[(page - 1) * per_page + k] by {
        assert((page - 1) * per_page >= 0) by (nonlinear_arith)
            requires
                page >= 1,
                per_page > 0,
        ;
    }
}

/// A job with a new id stands in front, and no id stands in the order twice.
pub proof fn law_new_jobs_come_first(order: Seq<Seq<char>>, id: Seq<char>)
    requires
        order.no_duplicates(),
        !order.contains(id),
    ensures
        (seq![id] + order)[0] == id,
        (seq![id] + order).no_duplicates(),
{
    let new = seq![id] + order;
    assert forall|i: int, j: int| 0 <= i < new.len() && 0 <= j < new.len() && i != j implies new[i]
        != new[j] by {
        if i > 0 {
            assert(new[i] == order[i - 1]);
            assert(order.contains(order[i - 1]));
        }
        if j > 0 {
            assert(new[j] == order[j - 1]);
            assert(order.contains(order[j - 1]));
        }
    }
}

/// What a client asked for.
pub open spec fn same_request(a: JobView, b: JobView) -> bool {
    &&& a.id == b.id
    &&& a.name == b.name
    &&& a.app == b.app
    &&& a.model == b.model
    &&& a.model_name == b.model_name
    &&& a.product == b.product
    &&& a.created_at == b.created_at
    &&& a.input_path == b.input_path
    &&& a.kind == b.kind
    &&& a.midi == b.midi
}

/// Whatever becomes of a job, it stays what the client asked for.
pub proof fn law_the_request_is_kept(
    job: JobView,
    message: Seq<char>,
    input_path: Seq<char>,
    elapsed_nanos: u128,
    samples: u64,
    sample_rate: u32,
    note_count: usize,
)
    ensures
        same_request(job, processing(job)),
        same_request(job, failed(job, message)),
        same_request(job, enhanced(job, input_path, elapsed_nanos, samples, sample_rate)),
        same_request(job, transcribed(job, input_path, elapsed_nanos, note_count)),
        same_request(job, separated(job, input_path, elapsed_nanos, samples)),
{
}

/// A finished job hands out its main file as the first of its artifacts.
pub proof fn law_the_main_file_comes_first(
    job: JobView,
    input_path: Seq<char>,
    elapsed_nanos: u128,
    samples: u64,
    sample_rate: u32,
    note_count: usize,
)
    ensures
        ({
            let a = enhanced(job, input_path, elapsed_nanos, samples, sample_rate);
            a.output_path == Some(a.artifacts[0].path)
        }),
        ({
            let b = transcribed(job, input_path, elapsed_nanos, note_count);
            b.output_path == Some(b.artifacts[0].path)
        }),
        ({
            let c = separated(job, input_path, elapsed_nanos, samples);
            c.output_path == Some(c.artifacts[0].path)
        }),
{
}

/// The files that a job produces are none of them the upload, and no two files
/// of one job are the same.
pub proof fn law_outputs_are_new_files(input_path: Seq<char>)
    requires
        crate::paths::file_name(input_path) is Some,
    ensures
        crate::paths::path_with_extension(input_path, "out.wav"@) != input_path,
        crate::paths::path_with_extension(input_path, "out.mid"@) != input_path,
        crate::paths::path_with_extension(input_path, "out.json"@) != input_path,
        crate::paths::path_with_extension(input_path, "notes.json"@) != input_path,
        crate::paths::path_with_extension(input_path, "vocal.wav"@) != input_path,
        crate::paths::path_with_extension(input_path, "instrumental.wav"@) != input_path,
        crate::paths::path_with_extension(input_path, "out.mid"@)
            != crate::paths::path_with_extension(input_path, "out.json"@),
        crate::paths::path_with_extension(input_path, "out.mid"@)
            != crate::paths::path_with_extension(input_path, "notes.json"@),
        crate::paths::path_with_extension(input_path, "out.json"@)
            != crate::paths::path_with_extension(input_path, "notes.json"@),
        crate::paths::path_with_extension(input_path, "vocal.wav"@)
            != crate::paths::path_with_extension(input_path, "instrumental.wav"@),
{
    reveal_strlit("out.wav");
    reveal_strlit("out.mid");
    reveal_strlit("out.json");
    reveal_strlit("notes.json");
    reveal_strlit("vocal.wav");
    reveal_strlit("instrumental.wav");
    assert("out.wav"@[3] == '.');
    assert("out.mid"@[3] == '.');
    assert("out.json"@[3] == '.');
    assert("notes.json"@[5] == '.');
    assert("vocal.wav"@[5] == '.');
    assert("instrumental.wav"@[12] == '.');
    crate::paths::law_dotted_extension_renames(input_path, "out.wav"@);
    crate::paths::law_dotted_extension_renames(input_path, "out.mid"@);
    crate::paths::law_dotted_extension_renames(input_path, "out.json"@);
    crate::paths::law_dotted_extension_renames(input_path, "notes.json"@);
    crate::paths::law_dotted_extension_renames(input_path, "vocal.wav"@);
    crate::paths::law_dotted_extension_renames(input_path, "instrumental.wav"@);
    assert("out.mid"@.len() == 7 && "out.json"@.len() == 8 && "notes.json"@.len() == 10);
    assert("vocal.wav"@.len() == 9 && "instrumental.wav"@.len() == 16);
    crate::paths::law_extensions_differ(input_path, "out.mid"@, "out.json"@);
    crate::paths::law_extensions_differ(input_path, "out.mid"@, "notes.json"@);
    crate::paths::law_extensions_differ(input_path, "out.json"@, "notes.json"@);
    crate::paths::law_extensions_differ(input_path, "vocal.wav"@, "instrumental.wav"@);
}

/// A model is loaded once: after it was loaded, it is ready for every job of
/// its kind, whatever happens to its files, and loading another one changes
/// nothing about that.
pub proof fn law_models_are_loaded_once(
    state: EngineView,
    kind: JobKind,
    other: JobKind,
    weights_exist: bool,
    config_exists: bool,
)
    ensures
        model_step(
            EngineView { loaded: with_model(state.loaded, kind), ..state },
            kind,
            weights_exist,
            config_exists,
        ) == Ok::<ModelStepView, Seq<char>>(ModelStepView::Ready),
        has_model(state.loaded, kind) ==> has_model(with_model(state.loaded, other), kind),
{
}

/// The overlapping separation of a signal with a model that passes its input
/// through gives the signal back: at the place from which the crop reads sample
/// `i`, the sum divided by the normaliser, which is positive, is sample `i`.
pub proof fn law_melband_gives_the_signal_back(
    signal: spec_fn(int) -> int,
    outputs: spec_fn(int, int) -> int,
    num_frames: int,
    i: int,
)
    requires
        melband_in_range(num_frames),
        0 <= i < num_frames,
        ({
            let chunk = MELBAND_CHUNK_SIZE_SAMPLES as int;
            let overlap = MELBAND_NUM_OVERLAP as int;
            crate::models::source_separation::is_passed_through(
                outputs,
                crate::models::source_separation::demix_parts(
                    crate::models::source_separation::demix_total(num_frames, chunk, overlap),
                    crate::models::source_separation::demix_step(chunk, overlap),
                    chunk,
                ),
                |u: int|
                    crate::models::source_separation::mixed_sample(
                        signal,
                        num_frames,
                        chunk,
                        overlap,
                        u,
                    ),
                chunk,
            )
        }),
    ensures
        ({
            let chunk = MELBAND_CHUNK_SIZE_SAMPLES as int;
            let overlap = MELBAND_NUM_OVERLAP as int;
            let parts = crate::models::source_separation::demix_parts(
                crate::models::source_separation::demix_total(num_frames, chunk, overlap),
                crate::models::source_separation::demix_step(chunk, overlap),
                chunk,
            );
            let at = crate::models::source_separation::crop_place(num_frames, chunk, overlap, i);
            let normaliser = crate::models::source_separation::weight_sum(parts, chunk, at);
            let sum = crate::models::source_separation::overlap_sum(parts, outputs, chunk, at);
            &&& normaliser > 0
            &&& sum == signal(i) * normaliser
            &&& sum / normaliser == signal(i)
        }),
{
    let chunk = MELBAND_CHUNK_SIZE_SAMPLES as int;
    let overlap = MELBAND_NUM_OVERLAP as int;
    lemma_melband_step();
    crate::models::source_separation::law_a_model_that_changes_nothing_gives_the_signal_back(
        signal,
        outputs,
        num_frames,
        chunk,
        overlap,
        i,
    );
    crate::models::source_separation::law_normaliser_is_positive(
        num_frames,
        chunk,
        overlap,
        crate::models::source_separation::crop_place(num_frames, chunk, overlap, i),
    );
}

// ---------- the queue ----------

/// What the worker finds when it serves a job: which files of the model are
/// there, what came of loading it where it is loaded, and what came of the run
/// where it comes to that.
pub struct RunReport {
    pub weights_exist: bool,
    pub config_exists: bool,
    pub load: Result<(), Seq<char>>,
    pub run: Result<RunResult, Seq<char>>,
}

/// Whether the worker loads the model for a kind of job.
pub open spec fn loads_model(state: EngineView, kind: JobKind, report: RunReport) -> bool {
    model_step(state, kind, report.weights_exist, report.config_exists) matches Ok(
        ModelStepView::Load { .. },
    )
}

/// What comes of a job: why its model is missing or did not load, or else what
/// came of its run.
pub open spec fn result_of(state: EngineView, kind: JobKind, report: RunReport) -> Result<
    RunResult,
    Seq<char>,
> {
    match model_step(state, kind, report.weights_exist, report.config_exists) {
        Err(message) => Err(message),
        Ok(ModelStepView::Ready) => report.run,
        Ok(ModelStepView::Load { .. }) => match report.load {
            Err(reason) => Err(load_complaint(kind) + reason),
            Ok(_) => report.run,
        },
    }
}

/// The engine after the worker has served an id: the job is taken up, its model
/// is loaded where it is not there, and the outcome is noted.
pub open spec fn served(state: EngineView, id: Seq<char>, report: RunReport) -> EngineView {
    let begun = EngineView {
        jobs: with_job(state.jobs, id, processing(state.jobs[id])),
        ..state
    };
    if !state.jobs.dom().contains(id) {
        begun
    } else {
        let job = begun.jobs[id];
        let ready = if loads_model(begun, job.kind, report) && report.load is Ok {
            EngineView { loaded: with_model(begun.loaded, job.kind), ..begun }
        } else {
            begun
        };
        EngineView {
            jobs: with_job(
                ready.jobs,
                id,
                concluded(
                    ready.jobs[id],
                    job.input_path,
                    result_of(begun, job.kind, report),
                ),
            ),
            ..ready
        }
    }
}

/// The engine after the worker has served ids one after the other.
pub open spec fn served_all(state: EngineView, queue: Seq<(Seq<char>, RunReport)>) -> EngineView
    decreases queue.len(),
{
    if queue.len() == 0 {
        state
    } else {
        served(served_all(state, queue.drop_last()), queue.last().0, queue.last().1)
    }
}

/// The outcome of loading a model, as mathematical values.
pub open spec fn load_view(load: Result<(), String>) -> Result<(), Seq<char>> {
    match load {
        Ok(_) => Ok(()),
        Err(reason) => Err(reason@),
    }
}

impl Engine {
    /// Serves an id, given what the worker finds on the way: which files of the
    /// model are there, what comes of loading it where it is to be loaded, and
    /// what comes of the run where it comes to that.
    pub fn serve(
        &mut self,
        id: &str,
        weights_exist: bool,
        config_exists: bool,
        load: Result<(), String>,
        run: Result<RunResult, String>,
    )
        requires
            old(self).well_formed(),
        ensures
            final(self).well_formed(),
            final(self)@ == served(
                old(self)@,
                id@,
                (RunReport {
                    weights_exist,
                    config_exists,
                    load: load_view(load),
                    run: result_view(run),
                }),
            ),
    {
        if let Some(job) = self.begin(id) {
            let result: Result<RunResult, String> = match self.prepare_model(
                job.kind,
                weights_exist,
                config_exists,
            ) {
                Err(message) => Err(message),
                Ok(ModelStep::Ready) => run,
                Ok(ModelStep::Load { .. }) => match load {
                    Err(reason) => Err(load_error(job.kind, reason.as_str())),
                    Ok(_) => {
                        self.model_loaded(job.kind);
                        run
                    },
                },
            };
            self.conclude(&job, result);
        }
    }
}

/// An id without a job has no effect.
pub proof fn law_unknown_ids_have_no_effect(state: EngineView, id: Seq<char>, report: RunReport)
    requires
        !state.jobs.dom().contains(id),
    ensures
        served(state, id, report) == state,
{
}

/// Serving a job leaves it done or failed: failed with the reason where its
/// model is missing, did not load or its run failed, and else as the run says.
/// The job was taken up before. No other job changes, nor does the order.
pub proof fn law_served_jobs_are_done_or_failed(state: EngineView, id: Seq<char>, report: RunReport)
    requires
        is_consistent(state),
        state.jobs.dom().contains(id),
    ensures
        ({
            let after = served(state, id, report);
            let job = processing(state.jobs[id]);
            let result = result_of(state, job.kind, report);
            &&& after.jobs[id] == concluded(job, job.input_path, result)
            &&& result matches Err(message) ==> after.jobs[id] == failed(job, message)
            &&& result is Ok ==> after.jobs[id].status == JobStatus::Done
            &&& same_request(state.jobs[id], after.jobs[id])
            &&& after.jobs.dom() == state.jobs.dom()
            &&& forall|other: Seq<char>|
                other != id && state.jobs.dom().contains(other) ==> #[trigger] after.jobs[other]
                    == state.jobs[other]
            &&& after.order == state.order
            &&& is_consistent(after)
        }),
{
    let after = served(state, id, report);
    assert(after.jobs.dom() =~= state.jobs.dom());
}

proof fn lemma_served(state: EngineView, id: Seq<char>, report: RunReport)
    ensures
        served(state, id, report).jobs.dom() == state.jobs.dom(),
        served(state, id, report).order == state.order,
        served(state, id, report).paths == state.paths,
        forall|other: Seq<char>|
            other != id && state.jobs.dom().contains(other) ==> #[trigger] served(
                state,
                id,
                report,
            ).jobs[other] == state.jobs[other],
        forall|any: Seq<char>|
            state.jobs.dom().contains(any) ==> (#[trigger] served(state, id, report).jobs[any]).kind
                == state.jobs[any].kind,
        forall|kind: JobKind| #[trigger]
            has_model(state.loaded, kind) ==> has_model(served(state, id, report).loaded, kind),
{
    assert(served(state, id, report).jobs.dom() =~= state.jobs.dom());
}

/// Whether an id is served at place `from` of a queue or later.
pub open spec fn is_served_from(
    queue: Seq<(Seq<char>, RunReport)>,
    from: int,
    id: Seq<char>,
) -> bool {
    exists|j: int| from <= j < queue.len() && (#[trigger] queue[j]).0 == id
}

/// What was served before does not change while ids that are not its own are
/// served.
proof fn lemma_served_later(
    state: EngineView,
    queue: Seq<(Seq<char>, RunReport)>,
    from: int,
    to: int,
    id: Seq<char>,
)
    requires
        0 <= from <= to <= queue.len(),
    ensures
        served_all(state, queue.take(to)).jobs.dom() == state.jobs.dom(),
        served_all(state, queue.take(to)).order == state.order,
        served_all(state, queue.take(to)).paths == state.paths,
        state.jobs.dom().contains(id) ==> served_all(state, queue.take(to)).jobs[id].kind
            == state.jobs[id].kind,
        forall|kind: JobKind| #[trigger]
            has_model(served_all(state, queue.take(from)).loaded, kind) ==> has_model(
                served_all(state, queue.take(to)).loaded,
                kind,
            ),
        !is_served_from(queue, from, id) && state.jobs.dom().contains(id) ==> served_all(
            state,
            queue.take(to),
        ).jobs[id] == served_all(state, queue.take(from)).jobs[id],
    decreases to,
{
    if to == 0 {
        assert(queue.take(0).len() == 0);
    } else {
        let before = queue.take(to - 1);
        assert(queue.take(to).drop_last() =~= before);
        assert(queue.take(to).last() == queue[to - 1]);
        let reached = served_all(state, before);
        if from < to {
            lemma_served_later(state, queue, from, to - 1, id);
        } else {
            lemma_served_later(state, queue, to - 1, to - 1, id);
        }
        lemma_served(reached, queue[to - 1].0, queue[to - 1].1);
        if from < to && !is_served_from(queue, from, id) {
            assert(queue[to - 1].0 != id);
        }
    }
}

/// A queue is served to its end, whatever comes of its ids: a job that is not
/// served again stands at the end as serving it has left it, a job that is not
/// in the queue stands as it stood, and jobs neither come nor go.
pub proof fn law_the_queue_is_served(
    state: EngineView,
    queue: Seq<(Seq<char>, RunReport)>,
    i: int,
    other: Seq<char>,
)
    requires
        0 <= i < queue.len(),
    ensures
        ({
            let end = served_all(state, queue);
            let reached = served_all(state, queue.take(i));
            &&& end.jobs.dom() == state.jobs.dom()
            &&& end.order == state.order
            &&& state.jobs.dom().contains(other) && !is_served_from(queue, 0, other)
                ==> end.jobs[other] == state.jobs[other]
            &&& state.jobs.dom().contains(queue[i].0) && !is_served_from(queue, i + 1, queue[i].0)
                ==> end.jobs[queue[i].0] == served(reached, queue[i].0, queue[i].1).jobs[queue[i].0]
        }),
{
    let n = queue.len() as int;
    assert(queue.take(n) =~= queue);
    assert(queue.take(i + 1).drop_last() =~= queue.take(i));
    assert(queue.take(i + 1).last() == queue[i]);
    lemma_served_later(state, queue, 0, n, other);
    lemma_served_later(state, queue, i + 1, n, queue[i].0);
    assert(queue.take(0).len() == 0);
}

/// Over a whole queue a model is loaded at first need, and after a load has
/// succeeded never again: serving id `i` loads the model of its job only where
/// it is not there, and once it is there, no later id of that kind loads it.
pub proof fn law_the_queue_loads_each_model_once(
    state: EngineView,
    queue: Seq<(Seq<char>, RunReport)>,
    i: int,
    j: int,
    report: RunReport,
)
    requires
        0 <= i < j <= queue.len(),
        state.jobs.dom().contains(queue[i].0),
    ensures
        ({
            let kind = state.jobs[queue[i].0].kind;
            let reached = served_all(state, queue.take(i));
            &&& loads_model(reached, kind, queue[i].1) ==> !has_model(reached.loaded, kind)
            &&& loads_model(reached, kind, queue[i].1) && queue[i].1.load is Ok ==> !loads_model(
                served_all(state, queue.take(j)),
                kind,
                report,
            )
        }),
{
    let id = queue[i].0;
    let kind = state.jobs[id].kind;
    let reached = served_all(state, queue.take(i));
    lemma_served_later(state, queue, i, i, id);
    assert(queue.take(i + 1).drop_last() =~= queue.take(i));
    assert(queue.take(i + 1).last() == queue[i]);
    let next = served_all(state, queue.take(i + 1));
    if loads_model(reached, kind, queue[i].1) && queue[i].1.load is Ok {
        assert(reached.jobs[id].kind == kind);
        assert(has_model(next.loaded, kind));
        lemma_served_later(state, queue, i + 1, j, id);
        assert(has_model(served_all(state, queue.take(j)).loaded, kind));
    }
}

// ---------- what each step means ----------

/// The app decides what a job does. Only separation looks at the model, and
/// knows two; any other app or separation model is refused by its name.
pub proof fn law_apps_and_models_decide_the_kind(app: Seq<char>, model: Seq<char>)
    ensures
        requested_kind("super-resolution"@, model) == Ok::<JobKind, Seq<char>>(
            JobKind::SuperResolution,
        ),
        requested_kind("transcribe-midi"@, model) == Ok::<JobKind, Seq<char>>(
            JobKind::TranscribeMidi,
        ),
        requested_kind("separation"@, "melband-roformer"@) == Ok::<JobKind, Seq<char>>(
            JobKind::Separate(SeparationModel::MelBand),
        ),
        requested_kind("separation"@, "wsa-mb-roformer-win10-sink8"@) == Ok::<JobKind, Seq<char>>(
            JobKind::Separate(SeparationModel::Wsa),
        ),
        model != "melband-roformer"@ && model != "wsa-mb-roformer-win10-sink8"@ ==> requested_kind(
            "separation"@,
            model,
        ) == Err::<JobKind, Seq<char>>("unsupported separation model: "@ + model),
        app != "super-resolution"@ && app != "transcribe-midi"@ && app != "separation"@
            ==> requested_kind(app, model) == Err::<JobKind, Seq<char>>(
            "unsupported app: "@ + app,
        ),
{
    reveal_strlit("super-resolution");
    reveal_strlit("transcribe-midi");
    reveal_strlit("separation");
    reveal_strlit("melband-roformer");
    reveal_strlit("wsa-mb-roformer-win10-sink8");
    assert("super-resolution"@.len() == 16);
    assert("transcribe-midi"@.len() == 15);
    assert("separation"@.len() == 10);
    assert("melband-roformer"@.len() == 16);
    assert("wsa-mb-roformer-win10-sink8"@.len() == 27);
}

/// A separation model is known by its id alone.
pub proof fn law_separation_models(model: Seq<char>)
    ensures
        separation_model(model) == Some(SeparationModel::MelBand) <==> model
            == "melband-roformer"@,
        separation_model(model) == Some(SeparationModel::Wsa) <==> model
            == "wsa-mb-roformer-win10-sink8"@,
{
    reveal_strlit("melband-roformer");
    reveal_strlit("wsa-mb-roformer-win10-sink8");
    assert("melband-roformer"@.len() == 16);
    assert("wsa-mb-roformer-win10-sink8"@.len() == 27);
}

/// A transcription produces notes, any other job audio.
pub proof fn law_only_transcriptions_give_midi(kind: JobKind)
    ensures
        kind is TranscribeMidi ==> product_of(kind) == "midi"@,
        !(kind is TranscribeMidi) ==> product_of(kind) == "audio"@,
{
}

/// The real-time factor is made of the very numbers of the run wherever there
/// is audio, and is zero where there is none.
pub proof fn law_real_time_factors(elapsed_nanos: u128, samples: u64, sample_rate: u32)
    ensures
        samples > 0 ==> factor_of(elapsed_nanos, samples, sample_rate)
            == (RealTimeFactor::Quotient { elapsed_nanos, samples, sample_rate }),
        factor_of(elapsed_nanos, 0, sample_rate) is Zero,
{
}

/// A creation time counts the whole seconds that have passed since the epoch:
/// it is at most the time, and less than a second behind.
pub proof fn law_creation_times_count_seconds(t: SystemTime, nanos: nat)
    requires
        crate::db::nanos_since_epoch(t) == Some(nanos),
        nanos < 0xffff_ffff_ffff_ffff * 1_000_000_000,
    ensures
        creation_time(t) is Some,
        creation_time(t)->Some_0 * 1_000_000_000 <= nanos < (creation_time(t)->Some_0 + 1)
            * 1_000_000_000,
{
}

/// An id reads `job-`, the time, a hyphen and the number, both in decimal.
pub proof fn law_ids_hold_the_time_and_the_number(nanos: nat, n: nat)
    ensures
        ({
            let id = id_text(nanos, n);
            let width = crate::text::decimal_text(nanos).len() as int;
            &&& id.take(4) == "job-"@
            &&& crate::text::decimal_value(id.subrange(4, 4 + width)) == nanos
            &&& id[4 + width] == '-'
            &&& crate::text::decimal_value(id.skip(5 + width)) == n
            &&& forall|i: int| 4 <= i < 4 + width ==> '0' <= #[trigger] id[i] <= '9'
        }),
{
    reveal_strlit("job-");
    reveal_strlit("-");
    let x = crate::text::decimal_text(nanos);
    let y = crate::text::decimal_text(n);
    let id = id_text(nanos, n);
    let width = x.len() as int;
    crate::text::law_decimal_reads_back(nanos);
    crate::text::law_decimal_reads_back(n);
    crate::text::law_decimal_is_digits(nanos);
    assert(id.take(4) =~= "job-"@);
    assert(id.subrange(4, 4 + width) =~= x);
    assert(id.skip(5 + width) =~= y);
    assert forall|i: int| 4 <= i < 4 + width implies '0' <= #[trigger] id[i] <= '9' by {
        assert(id[i] == x[i - 4]);
    }
}

/// Numbers count up by one, and start again at zero after the last.
pub proof fn law_numbers_count_up(n: u64)
    ensures
        n < u64::MAX ==> next_number(n) == n + 1,
        next_number(u64::MAX) == 0,
        next_number(n) != n,
{
}

/// Loading the model of a kind of job makes that model available, and no other
/// more or less so.
pub proof fn law_loading_makes_one_model_available(
    loaded: LoadedModels,
    kind: JobKind,
    other: JobKind,
)
    ensures
        has_model(with_model(loaded, kind), other) <==> other == kind || has_model(loaded, other),
{
}

/// Changing a job changes that job and no other; where there is none, nothing
/// changes.
pub proof fn law_one_job_is_changed(
    jobs: Map<Seq<char>, JobView>,
    id: Seq<char>,
    other: Seq<char>,
    job: JobView,
)
    ensures
        jobs.dom().contains(id) ==> with_job(jobs, id, job)[id] == job,
        !jobs.dom().contains(id) ==> with_job(jobs, id, job) == jobs,
        with_job(jobs, id, job).dom() == jobs.dom(),
        other != id && jobs.dom().contains(other) ==> with_job(jobs, id, job)[other] == jobs[other],
{
    assert(with_job(jobs, id, job).dom() =~= jobs.dom());
}

/// What a job has produced.
pub open spec fn same_products(a: JobView, b: JobView) -> bool {
    &&& a.output_path == b.output_path
    &&& a.score_path == b.score_path
    &&& a.notes_path == b.notes_path
    &&& a.artifacts == b.artifacts
    &&& a.note_count == b.note_count
    &&& a.duration == b.duration
    &&& a.rtf == b.rtf
}

/// Taking a job up changes its status alone. Failing it gives it the status and
/// the reason, whatever reason it had before, and leaves what it has produced.
pub proof fn law_taking_up_and_failing(job: JobView, message: Seq<char>, earlier: Seq<char>)
    ensures
        processing(job).status is Processing,
        processing(job).error == job.error,
        same_products(processing(job), job),
        failed(job, message).status is Failed,
        failed(job, message).error == Some(message),
        same_products(failed(job, message), job),
        failed(failed(job, earlier), message) == failed(job, message),
{
}

/// An upload is stored in the work directory under the id of its job, with its
/// own extension in lower case, or `bin` where it has none.
pub proof fn law_uploads_keep_their_extension(
    work_dir: Seq<char>,
    id: Seq<char>,
    dir: Seq<char>,
    stem: Seq<char>,
    ext: Seq<char>,
    path: Seq<char>,
)
    requires
        stem.len() > 0,
        !stem.contains('/'),
        !ext.contains('/'),
        !ext.contains('.'),
        stem + "."@ + ext != ".."@,
        crate::paths::extension(path) is None,
    ensures
        upload_path(work_dir, id, crate::paths::path_join(dir, stem + "."@ + ext))
            == crate::paths::path_join(work_dir, id + ".in."@ + crate::text::lowercased(ext)),
        upload_path(work_dir, id, path) == crate::paths::path_join(
            work_dir,
            id + ".in."@ + crate::text::lowercased("bin"@),
        ),
{
    crate::paths::law_stem_and_extension(dir, stem, ext, Seq::empty());
}

/// A request that is accepted gets the id that was drawn for it and the kind
/// that its app and model ask for; it is refused exactly if there is no such
/// kind.
pub proof fn law_requests_are_accepted_or_refused(
    r: Result<Accepted, String>,
    work_dir: Seq<char>,
    req: SubmitReq,
    id: Seq<char>,
)
    requires
        is_accepted(r, work_dir, req, id),
    ensures
        r is Ok <==> requested_kind(req.app@, req.model@) is Ok,
        r matches Ok(a) ==> a.id@ == id && requested_kind(req.app@, req.model@)->Ok_0 == a.kind
            && a.input_path@ == upload_path(work_dir, id, req.name@),
        r matches Err(message) ==> requested_kind(req.app@, req.model@)->Err_0 == message@,
{
}

/// Two requests one after the other get different ids, whatever the clock
/// shows, and nothing but the counter changes in between.
pub proof fn law_requests_get_ids_of_their_own(
    before: EngineView,
    between: EngineView,
    after: EngineView,
    first: Accepted,
    second: Accepted,
    req1: SubmitReq,
    req2: SubmitReq,
    t1: SystemTime,
    t2: SystemTime,
)
    requires
        is_submitted(before, between, Some(Ok(first)), req1, t1),
        is_submitted(between, after, Some(Ok(second)), req2, t2),
    ensures
        first.id@ != second.id@,
        between.jobs == before.jobs && between.order == before.order && between.loaded
            == before.loaded && between.paths == before.paths && between.work_dir
            == before.work_dir,
        between.counter == (if before.counter == u64::MAX {
            0
        } else {
            before.counter + 1
        }),
{
    if first.id@ == second.id@ {
        law_ids_are_unique(
            crate::db::nanos_since_epoch(t1)->Some_0,
            before.counter as nat,
            crate::db::nanos_since_epoch(t2)->Some_0,
            between.counter as nat,
        );
    }
}

/// Before the epoch nothing is accepted and nothing changes; at any other time a
/// request is answered.
pub proof fn law_requests_are_answered_from_the_epoch_on(
    before: EngineView,
    after: EngineView,
    r: Option<Result<Accepted, String>>,
    req: SubmitReq,
    t: SystemTime,
)
    requires
        is_submitted(before, after, r, req, t),
    ensures
        r is Some <==> crate::db::nanos_since_epoch(t) is Some,
        r is None ==> after == before,
        r matches Some(answer) ==> is_accepted(
            answer,
            before.work_dir,
            req,
            id_text(crate::db::nanos_since_epoch(t)->Some_0, before.counter as nat),
        ),
{
}

/// A new id is drawn as a request draws it: with the time and the number that
/// is next, which is then used up.
pub proof fn law_drawing_an_id_uses_up_a_number(
    before: EngineView,
    after: EngineView,
    id: Option<String>,
    t: SystemTime,
)
    requires
        id_is_drawn(before, after, id, t),
    ensures
        crate::db::nanos_since_epoch(t) matches Some(nanos) ==> id is Some && id->Some_0@
            == id_text(nanos, before.counter as nat) && after.counter != before.counter,
        crate::db::nanos_since_epoch(t) is None ==> id is None && after.counter == before.counter,
        after.jobs == before.jobs && after.order == before.order && after.loaded == before.loaded,
{
}

/// A new job is what was asked for, to the last parameter, waits, and has
/// produced nothing yet.
pub proof fn law_new_jobs_are_what_was_asked_for(
    req: SubmitReq,
    id: Seq<char>,
    kind: JobKind,
    input_path: Seq<char>,
    created_at: u64,
)
    ensures
        ({
            let job = queued(req, id, kind, input_path, created_at);
            &&& job.id == id
            &&& job.name == req.name@
            &&& job.app == req.app@
            &&& job.model == req.model@
            &&& job.model_name == req.model_name@
            &&& job.kind == kind
            &&& job.product == product_of(kind)
            &&& job.input_path == input_path
            &&& job.created_at == created_at
            &&& job.status is Queued
            &&& req.midi is None ==> job.midi is None
            &&& req.midi matches Some(m) ==> {
                let p = params_of(job);
                &&& p.t0 == m.t0
                &&& p.nsteps == m.nsteps
                &&& p.seg_threshold == m.seg_threshold
                &&& p.seg_radius == m.seg_radius
                &&& p.est_threshold == m.est_threshold
                &&& p.tempo == m.tempo
                &&& p.quantize == m.quantize
                &&& p.quantize_equal_weight == m.quantize_equal_weight
                &&& m.language is None ==> p.language is None
                &&& m.language matches Some(l) ==> p.language == Some(l@)
            }
            &&& job.error is None
            &&& job.output_path is None
            &&& job.score_path is None
            &&& job.notes_path is None
            &&& job.artifacts.len() == 0
            &&& job.note_count is None
            &&& job.duration is None
            &&& job.rtf is None
        }),
{
}

/// A job is transcribed with the parameters that it was given; one that was
/// given none is transcribed like any other such job.
pub proof fn law_transcriptions_use_the_given_parameters(
    job: JobView,
    other: JobView,
    params: MidiParamsView,
)
    ensures
        params_of(JobView { midi: Some(params), ..job }) == params,
        job.midi is None && other.midi is None ==> params_of(job) == params_of(other),
        job.midi is None ==> !params_of(job).quantize && params_of(job).language is None
            && params_of(job).nsteps == 8,
{
}

/// A page of no jobs is empty, and so is a page after the last job.
pub proof fn law_empty_pages(order: Seq<Seq<char>>, page: int, per_page: int)
    requires
        page >= 1,
        per_page >= 0,
    ensures
        page_ids(order, page, 0).len() == 0,
        (page - 1) * per_page >= order.len() ==> page_ids(order, page, per_page).len() == 0,
        page_ids(order, page, per_page).len() <= per_page,
{
    assert((page - 1) * 0 == 0);
    assert((page - 1) * per_page >= 0) by (nonlinear_arith)
        requires
            page >= 1,
            per_page >= 0,
    ;
}

/// A model is loaded from its own files: transcription has weights and a
/// configuration, every other kind weights alone.
pub proof fn law_models_have_their_own_files(paths: ModelPathsView)
    ensures
        files_of(paths, JobKind::SuperResolution) == (paths.sr_checkpoint, None::<Seq<char>>),
        files_of(paths, JobKind::TranscribeMidi) == (paths.game_weights, Some(paths.game_config)),
        files_of(paths, JobKind::Separate(SeparationModel::MelBand)) == (
            paths.separation_melband_checkpoint,
            None::<Seq<char>>,
        ),
        files_of(paths, JobKind::Separate(SeparationModel::Wsa)) == (
            paths.separation_wsa_checkpoint,
            None::<Seq<char>>,
        ),
{
}

/// A model that is not there is loaded from its own files exactly if these are
/// there; for enhancement the files are not looked for first. Where a file is
/// missing, the job is told its path.
pub proof fn law_missing_models_are_loaded_from_their_files(
    state: EngineView,
    kind: JobKind,
    weights_exist: bool,
    config_exists: bool,
)
    requires
        !has_model(state.loaded, kind),
    ensures
        ({
            let step = model_step(state, kind, weights_exist, config_exists);
            let (weights, config) = files_of(state.paths, kind);
            &&& step is Ok <==> kind is SuperResolution || (weights_exist && (config is Some
                ==> config_exists))
            &&& step is Ok ==> step->Ok_0 == ModelStepView::Load { weights, config }
            &&& kind == JobKind::Separate(SeparationModel::MelBand) && !weights_exist ==> step
                == Err::<ModelStepView, Seq<char>>("MelBand checkpoint missing: "@ + weights)
            &&& kind == JobKind::Separate(SeparationModel::Wsa) && !weights_exist ==> step == Err::<
                ModelStepView,
                Seq<char>,
            >("WSA checkpoint missing: "@ + weights)
            &&& kind is TranscribeMidi && !weights_exist ==> step == Err::<
                ModelStepView,
                Seq<char>,
            >("GAME 权重缺失："@ + weights + "（请提供 .safetensors 与 config.yaml 后重试）"@)
            &&& kind is TranscribeMidi && weights_exist && !config_exists ==> step == Err::<
                ModelStepView,
                Seq<char>,
            >("GAME 配置缺失："@ + config->Some_0)
        }),
{
}

/// An enhanced job is done, with one audio file beside its input and the time of
/// its run; its error and its other files stay as they were.
pub proof fn law_enhanced_jobs(
    job: JobView,
    dir: Seq<char>,
    stem: Seq<char>,
    ext: Seq<char>,
    elapsed_nanos: u128,
    samples: u64,
    sample_rate: u32,
)
    requires
        stem.len() > 0,
        !stem.contains('/'),
        !ext.contains('/'),
        !ext.contains('.'),
        stem + "."@ + ext != ".."@,
    ensures
        ({
            let input = crate::paths::path_join(dir, stem + "."@ + ext);
            let out = crate::paths::path_join(dir, stem + "."@ + "out.wav"@);
            let after = enhanced(job, input, elapsed_nanos, samples, sample_rate);
            &&& after.status is Done
            &&& after.output_path == Some(out)
            &&& after.artifacts.len() == 1
            &&& after.artifacts[0].key == "output"@
            &&& after.artifacts[0].label == "已修复"@
            &&& after.artifacts[0].kind == "audio"@
            &&& after.artifacts[0].path == out
            &&& after.duration == Some(elapsed_nanos)
            &&& after.rtf == Some(factor_of(elapsed_nanos, samples, sample_rate))
            &&& after.error == job.error
            &&& after.score_path == job.score_path
            &&& after.notes_path == job.notes_path
            &&& after.note_count == job.note_count
        }),
{
    reveal_strlit("out.wav");
    assert("out.wav"@.len() == 7);
    crate::paths::law_stem_and_extension(dir, stem, ext, "out.wav"@);
}

/// A transcribed job is done, with its notes as MIDI, as a score and as a list
/// beside its input, the number of notes and the time of its run; its error and
/// its real-time factor stay as they were.
pub proof fn law_transcribed_jobs(
    job: JobView,
    dir: Seq<char>,
    stem: Seq<char>,
    ext: Seq<char>,
    elapsed_nanos: u128,
    note_count: usize,
)
    requires
        stem.len() > 0,
        !stem.contains('/'),
        !ext.contains('/'),
        !ext.contains('.'),
        stem + "."@ + ext != ".."@,
    ensures
        ({
            let input = crate::paths::path_join(dir, stem + "."@ + ext);
            let midi = crate::paths::path_join(dir, stem + "."@ + "out.mid"@);
            let score = crate::paths::path_join(dir, stem + "."@ + "out.json"@);
            let notes = crate::paths::path_join(dir, stem + "."@ + "notes.json"@);
            let after = transcribed(job, input, elapsed_nanos, note_count);
            &&& after.status is Done
            &&& after.output_path == Some(midi)
            &&& after.score_path == Some(score)
            &&& after.notes_path == Some(notes)
            &&& after.artifacts.len() == 3
            &&& after.artifacts[0].key == "midi"@ && after.artifacts[0].label == "MIDI"@
            &&& after.artifacts[0].path == midi
            &&& after.artifacts[1].key == "json"@ && after.artifacts[1].label == "JSON"@
            &&& after.artifacts[1].path == score
            &&& after.artifacts[2].key == "notes"@ && after.artifacts[2].label == "Notes"@
            &&& after.artifacts[2].path == notes
            &&& forall|i: int| 0 <= i < 3 ==> (#[trigger] after.artifacts[i]).kind == "file"@
            &&& after.note_count == Some(note_count)
            &&& after.duration == Some(elapsed_nanos)
            &&& after.rtf == job.rtf
            &&& after.error == job.error
        }),
{
    reveal_strlit("out.mid");
    reveal_strlit("out.json");
    reveal_strlit("notes.json");
    assert("out.mid"@.len() == 7);
    assert("out.json"@.len() == 8);
    assert("notes.json"@.len() == 10);
    crate::paths::law_stem_and_extension(dir, stem, ext, "out.mid"@);
    crate::paths::law_stem_and_extension(dir, stem, ext, "out.json"@);
    crate::paths::law_stem_and_extension(dir, stem, ext, "notes.json"@);
}

/// A separated job is done, with the vocal and the accompaniment as audio files
/// beside its input and the time of its run, measured at the sample rate of the
/// models; its error and its notes stay as they were.
pub proof fn law_separated_jobs(
    job: JobView,
    dir: Seq<char>,
    stem: Seq<char>,
    ext: Seq<char>,
    elapsed_nanos: u128,
    samples: u64,
)
    requires
        stem.len() > 0,
        !stem.contains('/'),
        !ext.contains('/'),
        !ext.contains('.'),
        stem + "."@ + ext != ".."@,
    ensures
        ({
            let input = crate::paths::path_join(dir, stem + "."@ + ext);
            let vocal = crate::paths::path_join(dir, stem + "."@ + "vocal.wav"@);
            let rest = crate::paths::path_join(dir, stem + "."@ + "instrumental.wav"@);
            let after = separated(job, input, elapsed_nanos, samples);
            &&& after.status is Done
            &&& after.output_path == Some(vocal)
            &&& after.artifacts.len() == 2
            &&& after.artifacts[0].key == "vocal"@ && after.artifacts[0].label == "Vocal"@
            &&& after.artifacts[0].path == vocal
            &&& after.artifacts[1].key == "instrumental"@ && after.artifacts[1].label
                == "Instrumental"@
            &&& after.artifacts[1].path == rest
            &&& forall|i: int| 0 <= i < 2 ==> (#[trigger] after.artifacts[i]).kind == "audio"@
            &&& after.duration == Some(elapsed_nanos)
            &&& after.rtf == Some(factor_of(elapsed_nanos, samples, 44_100))
            &&& after.error == job.error
            &&& after.score_path == job.score_path
            &&& after.notes_path == job.notes_path
            &&& after.note_count == job.note_count
        }),
{
    reveal_strlit("vocal.wav");
    reveal_strlit("instrumental.wav");
    assert("vocal.wav"@.len() == 9);
    assert("instrumental.wav"@.len() == 16);
    crate::paths::law_stem_and_extension(dir, stem, ext, "vocal.wav"@);
    crate::paths::law_stem_and_extension(dir, stem, ext, "instrumental.wav"@);
}

/// A run is concluded as what it was, with the numbers that it gave.
pub proof fn law_runs_are_concluded_as_what_they_were(
    job: JobView,
    input_path: Seq<char>,
    elapsed_nanos: u128,
    samples: u64,
    sample_rate: u32,
    note_count: usize,
    message: Seq<char>,
)
    ensures
        concluded(
            job,
            input_path,
            Ok(RunResult::Enhanced { elapsed_nanos, samples, sample_rate }),
        ) == enhanced(job, input_path, elapsed_nanos, samples, sample_rate),
        concluded(job, input_path, Ok(RunResult::Transcribed { elapsed_nanos, note_count }))
            == transcribed(job, input_path, elapsed_nanos, note_count),
        concluded(job, input_path, Ok(RunResult::Separated { elapsed_nanos, samples }))
            == separated(job, input_path, elapsed_nanos, samples),
        concluded(job, input_path, Err(message)) == failed(job, message),
{
}

/// Both separations can count any signal of up to a thousand million frames,
/// and no signal whose samples do not fit in 32 bits.
pub proof fn law_long_jobs_are_in_range(num_frames: int)
    requires
        num_frames >= 0,
    ensures
        num_frames <= 1_000_000_000 ==> melband_in_range(num_frames) && wsa_in_range(num_frames),
        melband_in_range(num_frames) <==> 2 * (num_frames + 8 * 44_100) <= 0x7fff_ffff,
        wsa_in_range(num_frames) <==> num_frames + 8 * 44_100 <= 0x7fff_ffff,
{
}

/// A job whose model is missing a file, or whose model does not load, fails with
/// that reason whatever came of any run. Any other job ends as its run did.
pub proof fn law_runs_wait_for_their_model(
    state: EngineView,
    id: Seq<char>,
    report: RunReport,
)
    requires
        is_consistent(state),
        state.jobs.dom().contains(id),
    ensures
        ({
            let before = state.jobs[id];
            let after = served(state, id, report).jobs[id];
            let step = model_step(state, before.kind, report.weights_exist, report.config_exists);
            &&& step matches Err(message) ==> after.status is Failed && after.error == Some(message)
            &&& step matches Ok(ModelStepView::Load { .. }) ==> (report.load matches Err(reason)
                ==> after.status is Failed && after.error == Some(
                load_complaint(before.kind) + reason,
            ))
            &&& step is Ok && (step->Ok_0 is Ready || report.load is Ok) ==> {
                &&& report.run is Ok <==> after.status is Done
                &&& report.run matches Err(message) ==> after.status is Failed && after.error
                    == Some(message)
                &&& report.run is Ok ==> after == concluded(
                    processing(before),
                    before.input_path,
                    report.run,
                )
            }
        }),
        ({
            let loaded = served(state, id, report).loaded;
            let kind = state.jobs[id].kind;
            let step = model_step(state, kind, report.weights_exist, report.config_exists);
            &&& step is Err || report.load is Err ==> loaded == state.loaded
            &&& step is Ok && report.load is Ok ==> loaded == with_model(state.loaded, kind)
        }),
{
}

/// A queue is served in its order: serving one queue and then another is
/// serving the two as one.
pub proof fn law_queues_are_served_in_order(
    state: EngineView,
    first: Seq<(Seq<char>, RunReport)>,
    second: Seq<(Seq<char>, RunReport)>,
)
    ensures
        served_all(state, Seq::empty()) == state,
        served_all(state, first + second) == served_all(served_all(state, first), second),
        forall|id: Seq<char>, report: RunReport|
            served_all(state, seq![(id, report)]) == #[trigger] served(state, id, report),
    decreases second.len(),
{
    reveal_with_fuel(served_all, 2);
    if second.len() == 0 {
        assert(first + second =~= first);
    } else {
        assert((first + second).drop_last() =~= first + second.drop_last());
        assert((first + second).last() == second.last());
        law_queues_are_served_in_order(state, first, second.drop_last());
    }
    assert forall|id: Seq<char>, report: RunReport|
        served_all(state, seq![(id, report)]) == #[trigger] served(state, id, report) by {
        let one = seq![(id, report)];
        assert(one.drop_last() =~= Seq::empty());
    }
}

/// A model that does not load says so in the words of its kind of job.
pub proof fn law_load_failures_name_the_model()
    ensures
        load_complaint(JobKind::SuperResolution) == "模型加载失败: "@,
        load_complaint(JobKind::TranscribeMidi) == "GAME 模型加载失败: "@,
        load_complaint(JobKind::Separate(SeparationModel::MelBand))
            == "MelBand model load failed: "@,
        load_complaint(JobKind::Separate(SeparationModel::Wsa)) == "WSA model load failed: "@,
{
}

/// Half of a part lies between the starts of two parts.
proof fn lemma_melband_step()
    ensures
        crate::models::source_separation::demix_step(
            MELBAND_CHUNK_SIZE_SAMPLES as int,
            MELBAND_NUM_OVERLAP as int,
        ) == 176_400,
{
    let chunk = MELBAND_CHUNK_SIZE_SAMPLES as int;
    let overlap = MELBAND_NUM_OVERLAP as int;
    assert(chunk == 352_800 && overlap == 2);
    vstd::arithmetic::div_mod::lemma_fundamental_div_mod_converse(chunk, overlap, 176_400, 0);
}

/// In the overlapping separation two parts cover each sample: parts are eight
/// seconds long and start every four, and the border is as long as a step.
pub proof fn law_two_parts_cover_a_sample(plan: DemixPlan, num_frames: int)
    requires
        crate::models::source_separation::is_demix_plan(
            plan,
            num_frames,
            MELBAND_CHUNK_SIZE_SAMPLES as int,
            MELBAND_NUM_OVERLAP as int,
        ),
    ensures
        plan.chunk_size_samples == 8 * 44_100,
        plan.step == 4 * 44_100,
        plan.border == 4 * 44_100,
        plan.padded <==> num_frames > 8 * 44_100,
{
    lemma_melband_step();
}

/// In the batched separation clips are eight seconds long, and four of them
/// make a batch.
pub proof fn law_four_clips_make_a_batch(plan: ChunkPlan, num_frames: int, i: int)
    requires
        num_frames >= 0,
        crate::models::source_separation::is_chunk_plan(
            plan,
            num_frames,
            WSA_CHUNK_SECONDS * MODEL_SAMPLE_RATE,
        ),
        0 <= i,
        i + 1 < crate::models::source_separation::batches_of(
            plan.clips as int,
            WSA_BATCH_SIZE as int,
        ).len(),
    ensures
        plan.chunk_size_samples == 8 * 44_100,
        crate::models::source_separation::batches_of(
            plan.clips as int,
            WSA_BATCH_SIZE as int,
        )[i].size == 4,
{
    crate::models::source_separation::law_chunks_are_no_more_than_needed(
        plan,
        num_frames,
        8int * 44_100,
    );
    let clips = plan.clips as int;
    assert(clips >= 0) by (nonlinear_arith)
        requires
            num_frames >= 0,
            num_frames <= clips * (8 * 44_100),
    ;
    crate::models::source_separation::law_batches_are_full_but_the_last(
        clips,
        WSA_BATCH_SIZE as int,
        i,
    );
}

/// Nothing of a job is left out of its view, and nothing is mixed up.
pub proof fn law_jobs_are_seen_whole(job: Job, i: int)
    requires
        0 <= i < job.artifacts@.len(),
    ensures
        job@.id == job.id@,
        job@.name == job.name@,
        job@.app == job.app@,
        job@.model == job.model@,
        job@.model_name == job.model_name@,
        job@.product == job.product@,
        job@.status == job.status,
        job@.created_at == job.created_at,
        job@.input_path == job.input_path@,
        job.output_path matches Some(path) ==> job@.output_path == Some(path@),
        job.output_path is None ==> job@.output_path is None,
        job.score_path matches Some(path) ==> job@.score_path == Some(path@),
        job.score_path is None ==> job@.score_path is None,
        job.notes_path matches Some(path) ==> job@.notes_path == Some(path@),
        job.notes_path is None ==> job@.notes_path is None,
        job.error matches Some(error) ==> job@.error == Some(error@),
        job.error is None ==> job@.error is None,
        job@.note_count == job.note_count,
        job@.duration == job.duration,
        job@.rtf == job.rtf,
        job@.kind == job.kind,
        job@.artifacts.len() == job.artifacts@.len(),
        job@.artifacts[i].key == job.artifacts@[i].key@,
        job@.artifacts[i].label == job.artifacts@[i].label@,
        job@.artifacts[i].kind == job.artifacts@[i].kind@,
        job@.artifacts[i].path == job.artifacts@[i].path@,
{
}

/// An outcome is seen as it is.
pub proof fn law_outcomes_are_seen_whole(result: RunResult, message: String)
    ensures
        result_view(Ok(result)) == Ok::<RunResult, Seq<char>>(result),
        result_view(Err(message)) == Err::<RunResult, Seq<char>>(message@),
        load_view(Ok(())) == Ok::<(), Seq<char>>(()),
        load_view(Err(message)) == Err::<(), Seq<char>>(message@),
{
}

} // verus!
