//! What the HTTP interface decides: which uploads become jobs, what running a
//! job again does, which files are handed out.

use vstd::prelude::*;

use crate::apps::{find_app, AppDef, ModelDef};
use crate::db::{delete_job, get_job, insert_job, set_status, update_params, DbError, Job, JobTable, JobView};
use crate::events::{JobEvent, JobEventView};
use crate::json::{params_from_body, params_from_text};
use crate::paths::{join, path_extension};
use crate::storage::{create_work_dir_with_input, FsAction, Paths, PathsView};
use crate::text::{decimal, has_char, joined, joined3, same, starts_with};

verus! {

// ---------- job ids ----------

/// A hexadecimal digit in lower case.
pub open spec fn is_hex(c: char) -> bool {
    '0' <= c <= '9' || 'a' <= c <= 'f'
}

/// A random UUID in its usual form: five groups of lower case hexadecimal
/// digits, with the version and the variant in their places.
pub open spec fn is_uuid(s: Seq<char>) -> bool {
    &&& s.len() == 36
    &&& s[8] == '-' && s[13] == '-' && s[18] == '-' && s[23] == '-'
    &&& forall|i: int|
        0 <= i < 36 && i != 8 && i != 13 && i != 18 && i != 23 ==> is_hex(#[trigger] s[i])
    &&& s[14] == '4'
    &&& s[19] == '8' || s[19] == '9' || s[19] == 'a' || s[19] == 'b'
}

/// `Uuid::new_v4`, printed: a random UUID in its usual form. Which one is left
/// to chance. The call panics where the system has no random numbers.
#[verifier::external_body]
fn random_uuid() -> (r: String)
    ensures
        is_uuid(r@),
{
    uuid::Uuid::new_v4().to_string()
}

/// The id of a new job.
pub fn new_job_id() -> (r: String)
    ensures
        is_uuid(r@),
{
    random_uuid()
}

/// A job id is a plain file name, so that a job's directory stands directly in
/// the directory of its app.
pub proof fn law_job_ids_are_plain_names(id: Seq<char>)
    requires
        is_uuid(id),
    ensures
        crate::paths::is_plain_name(id),
{
    reveal_strlit(".");
    reveal_strlit("..");
    assert forall|i: int| 0 <= i < id.len() implies id[i] != '/' by {
        if i != 8 && i != 13 && i != 18 && i != 23 {
            assert(is_hex(id[i]));
        }
    }
}

// ---------- submitting a job ----------

/// A field of the upload form.
#[derive(Clone, Copy, PartialEq, Eq, Debug, Structural)]
pub enum FormField {
    App,
    Model,
    Params,
    File,
    Other,
}

/// The field with a name.
pub open spec fn field_named(name: Seq<char>) -> FormField {
    if name == "app"@ {
        FormField::App
    } else if name == "model"@ {
        FormField::Model
    } else if name == "params"@ {
        FormField::Params
    } else if name == "file"@ {
        FormField::File
    } else {
        FormField::Other
    }
}

/// The field with a name.
pub fn form_field(name: &str) -> (r: FormField)
    ensures
        r == field_named(name@),
{
    if same(name, "app") {
        FormField::App
    } else if same(name, "model") {
        FormField::Model
    } else if same(name, "params") {
        FormField::Params
    } else if same(name, "file") {
        FormField::File
    } else {
        FormField::Other
    }
}

/// What has been read of an upload form so far.
pub struct Upload {
    pub app_id: String,
    pub model_id: String,
    pub params: String,
    pub filename: String,
    pub bytes: Vec<u8>,
}

/// An upload, as mathematical values.
pub struct UploadView {
    pub app_id: Seq<char>,
    pub model_id: Seq<char>,
    pub params: Seq<char>,
    pub filename: Seq<char>,
    pub bytes: Seq<u8>,
}

impl View for Upload {
    type V = UploadView;

    open spec fn view(&self) -> UploadView {
        UploadView {
            app_id: self.app_id@,
            model_id: self.model_id@,
            params: self.params@,
            filename: self.filename@,
            bytes: self.bytes@,
        }
    }
}

impl Upload {
    /// An empty form: no app, no model, no parameters, no file.
    pub fn new() -> (r: Self)
        ensures
            r@ == (UploadView {
                app_id: ""@,
                model_id: ""@,
                params: "{}"@,
                filename: "input"@,
                bytes: seq![],
            }),
    {
        let r = Upload {
            app_id: "".to_owned(),
            model_id: "".to_owned(),
            params: "{}".to_owned(),
            filename: "input".to_owned(),
            bytes: Vec::new(),
        };
        proof {
            assert(r@.bytes =~= seq![]);
        }
        r
    }

    /// Takes the text of a field. The fields for the file and fields that are
    /// not known change nothing.
    pub fn take_text(&mut self, field: FormField, text: String)
        ensures
            final(self)@ == (match field {
                FormField::App => UploadView { app_id: text@, ..old(self)@ },
                FormField::Model => UploadView { model_id: text@, ..old(self)@ },
                FormField::Params => UploadView {
                    params: crate::json::json_or(text@, "{}"@),
                    ..old(self)@
                },
                FormField::File => old(self)@,
                FormField::Other => old(self)@,
            }),
    {
        match field {
            FormField::App => {
                self.app_id = text;
            },
            FormField::Model => {
                self.model_id = text;
            },
            FormField::Params => {
                self.params = params_from_text(text.as_str());
            },
            _ => {},
        }
    }

    /// Takes the uploaded file, and its name where the client gives one.
    pub fn take_file(&mut self, name: Option<String>, bytes: Vec<u8>)
        ensures
            final(self)@ == (UploadView {
                filename: match name {
                    Some(n) => n@,
                    None => old(self)@.filename,
                },
                bytes: bytes@,
                ..old(self)@
            }),
    {
        if let Some(n) = name {
            self.filename = n;
        }
        self.bytes = bytes;
    }
}

/// Why an upload does not become a job: an app or a model that the catalogue
/// does not have, or no file.
pub open spec fn upload_error(upload: UploadView) -> Option<Seq<char>> {
    match crate::apps::app_with_id(crate::apps::catalogue(), upload.app_id) {
        None => Some("unknown app: "@ + upload.app_id),
        Some(app) => match crate::apps::model_with_id(app.models, upload.model_id) {
            None => Some("unknown model: "@ + upload.model_id),
            Some(_) => if upload.bytes.len() == 0 {
                Some("no input file uploaded"@)
            } else {
                None
            },
        },
    }
}

/// An upload that becomes a job: where it works, and what is done to store its
/// input.
pub struct Submission {
    pub id: String,
    pub app: String,
    pub model: String,
    pub params: String,
    pub input_filename: String,
    pub work_dir: String,
    pub input_path: String,
    pub actions: Vec<FsAction>,
}

/// Where a job works.
pub open spec fn job_dir(paths: PathsView, app_id: Seq<char>, job_id: Seq<char>) -> Seq<char> {
    crate::paths::path_join(crate::paths::path_join(paths.apps_dir, app_id), job_id)
}

/// What is laid out for an upload that becomes the job `id`.
pub open spec fn is_submission(
    s: Submission,
    paths: PathsView,
    upload: UploadView,
    id: Seq<char>,
) -> bool {
    &&& s.id@ == id
    &&& s.app@ == upload.app_id
    &&& s.model@ == upload.model_id
    &&& s.params@ == upload.params
    &&& s.input_filename@ == upload.filename
    &&& s.work_dir@ == job_dir(paths, upload.app_id, id)
    &&& s.input_path@ == crate::storage::stored_input(s.work_dir@, upload.filename)
    &&& crate::storage::actions_view(s.actions@) == crate::storage::store_actions(
        s.work_dir@,
        upload.filename,
        upload.bytes,
    )
}

/// Checks an upload and lays out the job that it becomes, under a new id.
pub fn create_job(paths: &Paths, upload: Upload) -> (r: Result<Submission, String>)
    ensures
        match r {
            Err(message) => upload_error(upload@) == Some(message@),
            Ok(s) => upload_error(upload@) is None && is_uuid(s.id@) && is_submission(
                s,
                paths@,
                upload@,
                s.id@,
            ),
        },
        r matches Ok(s) ==> {
            &&& s.app@ == upload@.app_id
            &&& s.model@ == upload@.model_id
            &&& s.params@ == upload@.params
            &&& s.input_filename@ == upload@.filename
            &&& forall|key: Seq<char>|
                #![trigger crate::json::int_param(s.params@, key)]
                #![trigger crate::json::double_param(s.params@, key)]
                #![trigger crate::json::text_param(s.params@, key)]
                crate::json::int_param(s.params@, key) == crate::json::int_param(upload@.params, key)
                    && crate::json::double_param(s.params@, key) == crate::json::double_param(
                    upload@.params,
                    key,
                ) && crate::json::text_param(s.params@, key) == crate::json::text_param(
                    upload@.params,
                    key,
                )
        },
{
    submission(paths, upload, new_job_id())
}

/// Checks an upload and lays out the job `id` that it becomes.
pub fn submission(paths: &Paths, upload: Upload, id: String) -> (r: Result<Submission, String>)
    ensures
        match r {
            Err(message) => upload_error(upload@) == Some(message@),
            Ok(s) => upload_error(upload@) is None && is_submission(s, paths@, upload@, id@),
        },
        r matches Ok(s) ==> {
            &&& s.id@ == id@
            &&& s.app@ == upload@.app_id
            &&& s.model@ == upload@.model_id
            &&& s.params@ == upload@.params
            &&& s.input_filename@ == upload@.filename
            &&& forall|key: Seq<char>|
                #![trigger crate::json::int_param(s.params@, key)]
                #![trigger crate::json::double_param(s.params@, key)]
                #![trigger crate::json::text_param(s.params@, key)]
                crate::json::int_param(s.params@, key) == crate::json::int_param(upload@.params, key)
                    && crate::json::double_param(s.params@, key) == crate::json::double_param(
                    upload@.params,
                    key,
                ) && crate::json::text_param(s.params@, key) == crate::json::text_param(
                    upload@.params,
                    key,
                )
        },
{
    let app: AppDef = match find_app(upload.app_id.as_str()) {
        Some(app) => app,
        None => return Err(joined("unknown app: ", upload.app_id.as_str())),
    };
    let model: ModelDef = match app.find_model(upload.model_id.as_str()) {
        Some(model) => model,
        None => return Err(joined("unknown model: ", upload.model_id.as_str())),
    };
    if upload.bytes.len() == 0 {
        return Err("no input file uploaded".to_owned());
    }
    proof {
        crate::apps::law_found_apps_are_in_the_catalogue(upload@.app_id);
        crate::apps::lemma_model_with_id(app@.models, upload@.model_id);
    }
    let work_dir: String = paths.work_dir(app.id.as_str(), id.as_str());
    let (input_path, actions) = create_work_dir_with_input(
        work_dir.as_str(),
        upload.filename.as_str(),
        upload.bytes,
    );
    Ok(
        Submission {
            id,
            app: app.id,
            model: model.id,
            params: upload.params,
            input_filename: upload.filename,
            work_dir,
            input_path,
            actions,
        },
    )
}

/// The record of a new job. `input_path` is the file that the pipelines read:
/// the stored upload, or what was decrypted from it.
pub fn queued_job(s: Submission, input_path: String, created_at: i64, updated_at: i64) -> (r: Job)
    ensures
        r@ == (JobView {
            id: s.id@,
            app: s.app@,
            model: s.model@,
            status: "queued"@,
            created_at,
            updated_at,
            params: s.params@,
            input_filename: s.input_filename@,
            input_path: input_path@,
            work_dir: s.work_dir@,
            outputs: seq![],
            error: None,
        }),
{
    let r = Job {
        id: s.id,
        app: s.app,
        model: s.model,
        status: "queued".to_owned(),
        created_at,
        updated_at,
        params: s.params,
        input_filename: s.input_filename,
        input_path,
        work_dir: s.work_dir,
        outputs: Vec::new(),
        error: None,
    };
    proof {
        assert(r@.outputs =~= seq![]);
    }
    r
}

/// Stores a new job and gives the event to send.
pub fn store_job(table: &mut JobTable, job: Job) -> (r: Result<JobEvent, DbError>)
    requires
        old(table).well_formed(),
    ensures
        final(table).well_formed(),
        match r {
            Ok(event) => {
                &&& !old(table)@.dom().contains(job@.id)
                &&& final(table)@ == old(table)@.insert(job@.id, crate::db::as_stored(job@))
                &&& event@ == (JobEventView::Created { job: job@ })
            },
            Err(e) => {
                &&& e == DbError::DuplicateId
                &&& old(table)@.dom().contains(job@.id)
                &&& final(table)@ == old(table)@
            },
        },
{
    match insert_job(table, &job) {
        Ok(()) => Ok(JobEvent::Created { job }),
        Err(e) => Err(e),
    }
}

// ---------- running a job again ----------

/// A file in a job's directory that a new run removes: everything but the
/// inputs.
pub open spec fn is_leftover(name: Seq<char>) -> bool {
    !crate::text::begins_with(name, "input_"@)
}

/// Whether a new run removes a file of a job's directory.
pub fn leftover(name: &str) -> (r: bool)
    ensures
        r == is_leftover(name@),
{
    !starts_with(name, "input_")
}

/// A job's record after a request to run it again has been read.
pub open spec fn with_requested_params(job: JobView, params: Option<Seq<char>>) -> JobView {
    match params {
        Some(p) => crate::db::with_params(job, crate::json::json_or(p, "null"@)),
        None => job,
    }
}

/// Takes a request to run a job again: gives the directory to clear, and
/// replaces the parameters where the request has new ones.
pub fn run_job(table: &mut JobTable, id: &str, body: &[u8]) -> (r: Result<String, String>)
    requires
        old(table).well_formed(),
    ensures
        final(table).well_formed(),
        match r {
            Ok(work_dir) => old(table)@.dom().contains(id@) && work_dir@ == old(table)@[id@].work_dir && final(table)@ == old(table)@.insert(
                id@,
                with_requested_params(old(table)@[id@], crate::json::body_params(body@)),
            ),
            Err(message) => !old(table)@.dom().contains(id@) && message@ == "job not found"@
                && final(table)@ == old(table)@,
        },
{
    apply_run(table, id, params_from_body(body))
}

/// Takes a request to run a job again, given the parameters that it asks for.
pub fn apply_run(table: &mut JobTable, id: &str, params: Option<String>) -> (r: Result<
    String,
    String,
>)
    requires
        old(table).well_formed(),
    ensures
        final(table).well_formed(),
        match r {
            Ok(work_dir) => old(table)@.dom().contains(id@) && work_dir@ == old(table)@[id@].work_dir && final(table)@ == old(table)@.insert(
                id@,
                with_requested_params(old(table)@[id@], crate::db::text_view(params)),
            ),
            Err(message) => !old(table)@.dom().contains(id@) && message@ == "job not found"@
                && final(table)@ == old(table)@,
        },
{
    let job: Job = match get_job(table, id) {
        Some(job) => job,
        None => return Err("job not found".to_owned()),
    };
    proof {
        assert(table@.insert(id@, table@[id@]) =~= table@);
    }
    if let Some(p) = params {
        update_params(table, id, p.as_str());
    }
    Ok(job.work_dir)
}

/// Puts a job back in the queue and gives the event to send.
pub fn requeue(table: &mut JobTable, id: &str, now: i64) -> (r: Option<JobEvent>)
    requires
        old(table).well_formed(),
    ensures
        final(table).well_formed(),
        final(table)@ == crate::worker::with_row(
            old(table)@,
            id@,
            crate::db::with_status(old(table)@[id@], "queued"@, now),
        ),
        crate::events::event_view(r) == crate::worker::update_event(final(table)@, id@),
{
    set_status(table, id, "queued", now);
    crate::worker::updated(table, id)
}

/// What the client that waits for a job gets: the record that the worker
/// gives, or after a failure the one in the table.
pub fn awaited_job(table: &JobTable, id: &str, result: Result<Job, String>) -> (r: Result<
    Job,
    String,
>)
    requires
        table.well_formed(),
    ensures
        match result {
            Ok(job) => r matches Ok(j) && j@ == job@,
            Err(_) => match r {
                Ok(j) => table@.dom().contains(id@) && j@ == table@[id@],
                Err(message) => !table@.dom().contains(id@) && message@ == "job lost"@,
            },
        },
{
    match result {
        Ok(job) => Ok(job),
        Err(_) => match get_job(table, id) {
            Some(job) => Ok(job),
            None => Err("job lost".to_owned()),
        },
    }
}

/// The record of a job for a client.
pub fn find_job(table: &JobTable, id: &str) -> (r: Result<Job, String>)
    requires
        table.well_formed(),
    ensures
        match r {
            Ok(job) => table@.dom().contains(id@) && job@ == table@[id@],
            Err(message) => !table@.dom().contains(id@) && message@ == "job not found"@,
        },
{
    match get_job(table, id) {
        Some(job) => Ok(job),
        None => Err("job not found".to_owned()),
    }
}

// ---------- deleting a job ----------

/// Forgets a job: gives the directory to remove, where there was such a job,
/// and the event to send either way.
pub fn delete_job_handler(table: &mut JobTable, id: &str) -> (r: (Option<String>, JobEvent))
    requires
        old(table).well_formed(),
    ensures
        final(table).well_formed(),
        final(table)@ == old(table)@.remove(id@),
        match r.0 {
            Some(work_dir) => old(table)@.dom().contains(id@) && work_dir@ == old(table)@[id@].work_dir,
            None => !old(table)@.dom().contains(id@),
        },
        r.1@ == (JobEventView::Deleted { id: id@ }),
{
    let work_dir: Option<String> = delete_job(table, id);
    (work_dir, JobEvent::Deleted { id: id.to_owned() })
}

// ---------- handing out files ----------

/// Whether a client may ask for a file of that name: it names nothing outside
/// the job's directory.
pub open spec fn is_allowed_name(name: Seq<char>) -> bool {
    !name.contains('/') && !name.contains('\\') && name != ".."@
}

/// The content type of a file, from its extension.
pub open spec fn content_type_of(path: Seq<char>) -> Seq<char> {
    match crate::paths::extension(path) {
        Some(ext) => if ext == "wav"@ {
            "audio/wav"@
        } else if ext == "mid"@ {
            "audio/midi"@
        } else if ext == "json"@ {
            "application/json"@
        } else {
            "application/octet-stream"@
        },
        None => "application/octet-stream"@,
    }
}

/// The content type of a file, from its extension.
pub fn content_type(path: &str) -> (r: &'static str)
    ensures
        r@ == content_type_of(path@),
{
    match path_extension(path) {
        Some(ext) => if same(ext.as_str(), "wav") {
            "audio/wav"
        } else if same(ext.as_str(), "mid") {
            "audio/midi"
        } else if same(ext.as_str(), "json") {
            "application/json"
        } else {
            "application/octet-stream"
        },
        None => "application/octet-stream",
    }
}

/// The file that a client asks for: its path and its content type. Names that
/// lead elsewhere are refused before the job is looked up.
pub fn get_file(table: &JobTable, id: &str, name: &str) -> (r: Result<
    (String, &'static str),
    String,
>)
    requires
        table.well_formed(),
    ensures
        match r {
            Ok(file) => {
                &&& is_allowed_name(name@)
                &&& table@.dom().contains(id@)
                &&& file.0@ == crate::paths::path_join(table@[id@].work_dir, name@)
                &&& file.1@ == content_type_of(file.0@)
            },
            Err(message) => if !is_allowed_name(name@) {
                message@ == "invalid file name"@
            } else {
                !table@.dom().contains(id@) && message@ == "job not found"@
            },
        },
{
    if has_char(name, '/') || has_char(name, '\\') || same(name, "..") {
        return Err("invalid file name".to_owned());
    }
    let job: Job = match find_job(table, id) {
        Ok(job) => job,
        Err(message) => return Err(message),
    };
    let path: String = join(job.work_dir.as_str(), name);
    let kind: &'static str = content_type(path.as_str());
    Ok((path, kind))
}

// ---------- start-up ----------

/// The address to listen on.
pub fn listen_address(host: &str, port: u16) -> (r: String)
    ensures
        r@ == host@ + ":"@ + crate::text::decimal_text(port as nat),
{
    let number: String = decimal(port as u128);
    joined3(host, ":", number.as_str())
}

/// The output directory that is used when none is given.
pub fn default_output_dir(home: &str) -> (r: String)
    ensures
        r@ == crate::paths::path_join(home@, ".vocal-magic"@),
{
    join(home, ".vocal-magic")
}

// ---------- laws ----------

/// A file that is handed out lies directly in the directory of its job.
pub proof fn law_files_come_from_the_jobs_directory(work_dir: Seq<char>, name: Seq<char>)
    requires
        is_allowed_name(name),
        work_dir.len() > 0,
        work_dir.last() != '/',
    ensures
        crate::paths::path_join(work_dir, name) == work_dir + "/"@ + name,
        !name.contains('/'),
        name != ".."@,
{
    if name.len() > 0 {
        assert(name[0] != '/');
    }
}

/// Running a job again keeps the upload and what was decrypted from it.
pub proof fn law_rerun_keeps_the_inputs(
    work_dir: Seq<char>,
    input_filename: Seq<char>,
    music: Seq<u8>,
)
    ensures
        ({
            let stored = crate::storage::stored_input(work_dir, input_filename);
            let decoded = crate::storage::decoded_path(stored, music);
            &&& crate::paths::file_name(stored) is Some && !is_leftover(
                crate::paths::file_name(stored)->Some_0,
            )
            &&& crate::paths::file_name(decoded) is Some && !is_leftover(
                crate::paths::file_name(decoded)->Some_0,
            )
        }),
{
    crate::storage::law_stored_input_is_an_input(work_dir, input_filename);
    crate::storage::law_decoded_files_are_inputs_too(work_dir, input_filename, music);
}

/// An upload whose app, model and file are in order becomes a job that the
/// worker finds a task for.
pub proof fn law_accepted_uploads_get_a_task(upload: UploadView, paths: PathsView, job: JobView)
    requires
        upload_error(upload) is None,
        job.app == upload.app_id,
        job.model == upload.model_id,
    ensures
        crate::worker::task_of(paths, job.id, Some(job)) is Ok,
{
}

/// A job that was stored is found, with its parameters as they were printed,
/// until it is changed or deleted; a deleted one is not found.
pub proof fn law_stored_jobs_are_found(table: Map<Seq<char>, JobView>, job: JobView)
    ensures
        ({
            let after = table.insert(job.id, crate::db::as_stored(job));
            &&& after.dom().contains(job.id)
            &&& after[job.id] == crate::db::as_stored(job)
            &&& crate::db::same_identity(after[job.id], job)
            &&& !after.remove(job.id).dom().contains(job.id)
        }),
{
}

/// A form becomes the job that it asks for: its app, its model, the name and
/// the bytes of its file, and its parameters, so that every setting read from
/// the submission is the one read from the form.
pub proof fn law_forms_become_their_jobs(
    s: Submission,
    paths: PathsView,
    upload: UploadView,
    id: Seq<char>,
    key: Seq<char>,
)
    requires
        is_submission(s, paths, upload, id),
    ensures
        s.id@ == id,
        s.app@ == upload.app_id,
        s.model@ == upload.model_id,
        s.input_filename@ == upload.filename,
        s.params@ == upload.params,
        crate::json::int_param(s.params@, key) == crate::json::int_param(upload.params, key),
        crate::json::double_param(s.params@, key) == crate::json::double_param(upload.params, key),
        crate::json::text_param(s.params@, key) == crate::json::text_param(upload.params, key),
        s.work_dir@ == crate::paths::path_join(
            crate::paths::path_join(paths.apps_dir, upload.app_id),
            id,
        ),
        s.input_path@ == crate::paths::path_join(
            s.work_dir@,
            "input_"@ + crate::storage::safe_name(upload.filename),
        ),
        s.actions@.len() == 2,
        s.actions@[0].op is CreateDir && s.actions@[0].path@ == s.work_dir@,
        s.actions@[1].op is WriteFile && s.actions@[1].path@ == s.input_path@,
        s.actions@[1].contents@ == crate::storage::ContentsView::Bytes(upload.bytes),
{
    let actions = crate::storage::actions_view(s.actions@);
    crate::storage::law_storing_order(s.work_dir@, upload.filename, upload.bytes);
    assert(actions[0] == s.actions@[0]@);
    assert(actions[1] == s.actions@[1]@);
}

/// What a form asks for is what is run: a job that is queued from a form gives
/// a task with the settings of the form, and what is chosen for it is chosen
/// from them.
pub proof fn law_forms_are_run_with_their_settings(
    s: Submission,
    paths: PathsView,
    upload: UploadView,
    id: Seq<char>,
    job: JobView,
    task: crate::worker::TaskView,
)
    requires
        is_submission(s, paths, upload, id),
        job.app == s.app@,
        job.model == s.model@,
        job.params == s.params@,
        job.work_dir == s.work_dir@,
        crate::worker::task_of(paths, id, Some(job)) == Ok::<crate::worker::TaskView, Seq<char>>(
            task,
        ),
    ensures
        task.app_id == upload.app_id,
        task.params == upload.params,
        task.work_dir == job_dir(paths, upload.app_id, id),
        crate::worker::settings_of(task.params) == crate::worker::settings_of(upload.params),
        upload.app_id == "vocal2midi"@ ==> (crate::worker::run_of(
            task.app_id,
            task.variant,
            crate::worker::settings_of(task.params),
            crate::models::Loaded::Game,
        ) matches Ok(crate::worker::RunPlanView::Transcribe(t)) && {
            &&& crate::json::double_param(upload.params, "seg_threshold"@) matches Some(x)
                ==> t.seg_threshold == x
            &&& crate::json::double_param(upload.params, "est_threshold"@) matches Some(x)
                ==> t.est_threshold == x
        }),
{
    crate::worker::law_tasks_come_from_their_jobs(paths, id, job, task, "seg_threshold"@);
    crate::worker::law_transcriptions_use_the_given_settings(upload.params, task.variant);
}

/// A form with an app of the catalogue, a model of that app and a file of at
/// least one byte is accepted, whatever its parameters and its file name.
pub proof fn law_complete_forms_are_accepted(upload: UploadView, i: int, k: int)
    requires
        0 <= i < crate::apps::catalogue().len(),
        0 <= k < crate::apps::catalogue()[i].models.len(),
        upload.app_id == crate::apps::catalogue()[i].id,
        upload.model_id == crate::apps::catalogue()[i].models[k].id,
    ensures
        upload.bytes.len() > 0 ==> upload_error(upload) is None,
        upload.bytes.len() == 0 ==> upload_error(upload) == Some("no input file uploaded"@),
{
    crate::apps::law_catalogue_entries_are_found(i, k);
}

/// A form with an unknown app or, for a known app, an unknown model is refused
/// by that name, whether it has a file or not.
pub proof fn law_unknown_names_are_refused(upload: UploadView)
    ensures
        (forall|i: int|
            0 <= i < crate::apps::catalogue().len() ==> (#[trigger] crate::apps::catalogue()[i]).id
                != upload.app_id) ==> upload_error(upload) == Some(
            "unknown app: "@ + upload.app_id,
        ),
        forall|i: int|
            0 <= i < crate::apps::catalogue().len() && (#[trigger] crate::apps::catalogue()[i]).id
                == upload.app_id && (forall|k: int|
                0 <= k < crate::apps::catalogue()[i].models.len() ==> (
                #[trigger] crate::apps::catalogue()[i].models[k]).id != upload.model_id)
                ==> upload_error(upload) == Some("unknown model: "@ + upload.model_id),
{
    crate::apps::law_found_apps_are_in_the_catalogue(upload.app_id);
    assert forall|i: int|
        0 <= i < crate::apps::catalogue().len() && (#[trigger] crate::apps::catalogue()[i]).id
            == upload.app_id && (forall|k: int|
            0 <= k < crate::apps::catalogue()[i].models.len() ==> (
            #[trigger] crate::apps::catalogue()[i].models[k]).id != upload.model_id) implies upload_error(
        upload,
    ) == Some("unknown model: "@ + upload.model_id) by {
        crate::apps::law_catalogue_entries_are_found(i, 0);
        crate::apps::lemma_model_with_id(crate::apps::catalogue()[i].models, upload.model_id);
    }
}

/// The four fields of the form are known by their names, and no other is.
pub proof fn law_form_fields(name: Seq<char>)
    ensures
        field_named(name) is App <==> name == "app"@,
        field_named(name) is Model <==> name == "model"@,
        field_named(name) is Params <==> name == "params"@,
        field_named(name) is File <==> name == "file"@,
{
    reveal_strlit("app");
    reveal_strlit("model");
    reveal_strlit("params");
    reveal_strlit("file");
    assert("app"@.len() == 3);
    assert("model"@.len() == 5);
    assert("params"@.len() == 6);
    assert("file"@.len() == 4);
}

/// Each job has a directory of its own, in that of its app: two jobs share one
/// only if they have the same id.
pub proof fn law_jobs_do_not_share_directories(
    paths: PathsView,
    app: Seq<char>,
    other_app: Seq<char>,
    id: Seq<char>,
    other_id: Seq<char>,
)
    requires
        is_uuid(id),
        is_uuid(other_id),
    ensures
        crate::paths::file_name(job_dir(paths, app, id)) == Some(id),
        job_dir(paths, app, id) == crate::paths::path_join(
            crate::paths::path_join(paths.apps_dir, app),
            id,
        ),
        job_dir(paths, app, id) == job_dir(paths, other_app, other_id) ==> id == other_id,
{
    law_job_ids_are_plain_names(id);
    law_job_ids_are_plain_names(other_id);
    let dir = crate::paths::path_join(paths.apps_dir, app);
    let other_dir = crate::paths::path_join(paths.apps_dir, other_app);
    crate::paths::law_joined_name(dir, id);
    crate::paths::law_joined_name(other_dir, other_id);
}

/// A job id has 32 hexadecimal digits in groups of eight, four, four, four and
/// twelve. It says that it is random.
pub proof fn law_job_ids_have_five_groups(id: Seq<char>, i: int)
    requires
        is_uuid(id),
        0 <= i < id.len(),
    ensures
        id.len() == 36,
        id[i] == '-' <==> i == 8 || i == 13 || i == 18 || i == 23,
        id[i] != '-' ==> '0' <= id[i] <= '9' || 'a' <= id[i] <= 'f',
        id[14] == '4',
        id[19] == '8' || id[19] == '9' || id[19] == 'a' || id[19] == 'b',
{
    if i != 8 && i != 13 && i != 18 && i != 23 {
        assert(is_hex(id[i]));
    }
}

/// A new run removes a file exactly if its name does not begin with the six
/// characters `input_`.
pub proof fn law_only_inputs_survive_a_rerun(name: Seq<char>)
    ensures
        !is_leftover(name) <==> name.len() >= 6 && name[0] == 'i' && name[1] == 'n' && name[2]
            == 'p' && name[3] == 'u' && name[4] == 't' && name[5] == '_',
{
    reveal_strlit("input_");
    if name.len() >= 6 {
        let head = name.take(6);
        assert(head[0] == name[0] && head[1] == name[1] && head[2] == name[2] && head[3] == name[3]
            && head[4] == name[4] && head[5] == name[5]);
        if name[0] == 'i' && name[1] == 'n' && name[2] == 'p' && name[3] == 'u' && name[4] == 't'
            && name[5] == '_' {
            assert(head =~= "input_"@);
        }
    }
}

/// A request to run a job again that asks for parameters gives the job those
/// parameters and every setting in them; one that asks for none leaves the job
/// as it is. Either way only the parameters can change.
pub proof fn law_reruns_use_the_requested_settings(job: JobView, params: Seq<char>, key: Seq<char>)
    ensures
        with_requested_params(job, None) == job,
        crate::json::json_read(params) is Some ==> {
            let asked = with_requested_params(job, Some(params));
            &&& asked.params == params
            &&& crate::json::int_param(asked.params, key) == crate::json::int_param(params, key)
            &&& crate::json::double_param(asked.params, key) == crate::json::double_param(
                params,
                key,
            )
            &&& crate::json::text_param(asked.params, key) == crate::json::text_param(params, key)
        },
        ({
            let asked = with_requested_params(job, Some(params));
            &&& crate::db::same_identity(asked, job)
            &&& asked.status == job.status
            &&& asked.updated_at == job.updated_at
            &&& asked.outputs == job.outputs
            &&& asked.error == job.error
        }),
{
}

/// A name may be asked for exactly if it has no slash of either kind and is not
/// that of the directory above.
pub proof fn law_names_that_may_be_asked_for(name: Seq<char>)
    ensures
        is_allowed_name(name) <==> (forall|i: int|
            0 <= i < name.len() ==> #[trigger] name[i] != '/' && name[i] != '\\') && !(name.len()
            == 2 && name[0] == '.' && name[1] == '.'),
{
    reveal_strlit("..");
    if name.len() == 2 && name[0] == '.' && name[1] == '.' {
        assert(name =~= ".."@);
    }
    if forall|i: int| 0 <= i < name.len() ==> #[trigger] name[i] != '/' && name[i] != '\\' {
        assert(!name.contains('/') && !name.contains('\\'));
    } else {
        let i = choose|i: int|
            0 <= i < name.len() && !(#[trigger] name[i] != '/' && name[i] != '\\');
        assert(name.contains(name[i]));
    }
}

/// Sound, notes and their list are handed out as what their extension says,
/// whatever the rest of the name; a file with any other extension, or none, is
/// plain bytes.
pub proof fn law_content_types(dir: Seq<char>, stem: Seq<char>, ext: Seq<char>, path: Seq<char>)
    requires
        stem.len() > 0,
        !stem.contains('/'),
        !ext.contains('/'),
        !ext.contains('.'),
        stem + "."@ + ext != ".."@,
        crate::paths::extension(path) is None,
    ensures
        ({
            let kind = content_type_of(crate::paths::path_join(dir, stem + "."@ + ext));
            &&& ext == "wav"@ ==> kind == "audio/wav"@
            &&& ext == "mid"@ ==> kind == "audio/midi"@
            &&& ext == "json"@ ==> kind == "application/json"@
            &&& ext != "wav"@ && ext != "mid"@ && ext != "json"@ ==> kind
                == "application/octet-stream"@
        }),
        content_type_of(path) == "application/octet-stream"@,
{
    reveal_strlit("wav");
    reveal_strlit("mid");
    reveal_strlit("json");
    assert("wav"@.len() == 3 && "mid"@.len() == 3 && "json"@.len() == 4);
    assert("wav"@[0] != "mid"@[0]);
    crate::paths::law_stem_and_extension(dir, stem, ext, Seq::empty());
}

/// Nothing of a form is left out of its view, and nothing is mixed up.
pub proof fn law_forms_are_seen_whole(upload: Upload)
    ensures
        upload@.app_id == upload.app_id@,
        upload@.model_id == upload.model_id@,
        upload@.params == upload.params@,
        upload@.filename == upload.filename@,
        upload@.bytes == upload.bytes@,
{
}

} // verus!
