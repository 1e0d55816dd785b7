//! Job records and the table that keeps them.
//!
//! The table is keyed by job id. Every operation names the row it concerns and
//! leaves the others alone; operations on a row that is not there change
//! nothing.

use std::time::{Duration, SystemTime};
use vstd::prelude::*;

use crate::json::{params_from_record, printed};
use crate::text::{copied_text, same};

verus! {

// ---------- the clock ----------

/// A point in time of the system clock.
#[verifier::external_type_specification]
#[verifier::external_body]
pub struct ExSystemTime(std::time::SystemTime);

/// `SystemTime::now`. Nothing is said of the time that it gives.
#[verifier::external_body]
pub(crate) fn system_now() -> (r: SystemTime) {
    SystemTime::now()
}

/// The nanoseconds that a duration is long: what `Duration::as_nanos` gives.
pub uninterp spec fn nanos_in(d: Duration) -> nat;

/// The nanoseconds from the Unix epoch to a point in time, where that is not
/// before the epoch: what `SystemTime::duration_since` the epoch gives.
pub uninterp spec fn nanos_since_epoch(t: SystemTime) -> Option<nat>;

/// `SystemTime::duration_since` the Unix epoch: the time from the epoch to `t`,
/// or nothing where `t` is before the epoch.
#[verifier::external_body]
pub(crate) fn since_epoch(t: SystemTime) -> (r: Option<Duration>)
    ensures
        match r {
            Some(d) => nanos_since_epoch(t) == Some(nanos_in(d)),
            None => nanos_since_epoch(t) is None,
        },
{
    t.duration_since(std::time::UNIX_EPOCH).ok()
}

/// `Duration::as_millis`: the whole milliseconds of a duration.
#[verifier::external_body]
fn whole_millis(d: Duration) -> (r: u128)
    ensures
        r == nanos_in(d) / 1_000_000,
{
    d.as_millis()
}

/// A time stamp from milliseconds, in 64 bits.
pub fn millis_stamp(millis: u128) -> (r: i64)
    ensures
        r == millis as i64,
        millis <= i64::MAX ==> r == millis,
{
    #[verifier::truncate]
    (millis as i64)
}

/// The time stamp of a moment: whole milliseconds since the Unix epoch, in 64
/// bits, or nothing where the moment is before the epoch.
pub open spec fn stamp_at(t: SystemTime) -> Option<i64> {
    match nanos_since_epoch(t) {
        Some(nanos) => Some((nanos / 1_000_000) as i64),
        None => None,
    }
}

/// The time stamp of a moment.
pub fn ms_at(t: SystemTime) -> (r: Option<i64>)
    ensures
        r == stamp_at(t),
{
    match since_epoch(t) {
        Some(d) => {
            let millis: u128 = whole_millis(d);
            Some(millis_stamp(millis))
        },
        None => None,
    }
}

/// The time stamp of the moment that the system clock shows. Which moment that
/// is, is left to the clock.
pub fn now_ms() -> (r: Option<i64>)
    ensures
        exists|t: SystemTime| r == #[trigger] stamp_at(t),
{
    ms_at(system_now())
}

// ---------- records ----------

/// One file that a job has produced.
pub struct OutputFile {
    pub name: String,
    pub kind: String,
    pub label: String,
}

/// An output file as mathematical values.
pub struct OutputFileView {
    pub name: Seq<char>,
    pub kind: Seq<char>,
    pub label: Seq<char>,
}

impl View for OutputFile {
    type V = OutputFileView;

    open spec fn view(&self) -> OutputFileView {
        OutputFileView { name: self.name@, kind: self.kind@, label: self.label@ }
    }
}

impl OutputFile {
    /// An output file from its three texts.
    pub fn new(name: String, kind: &str, label: &str) -> (r: Self)
        ensures
            r@ == (OutputFileView { name: name@, kind: kind@, label: label@ }),
    {
        OutputFile { name, kind: kind.to_owned(), label: label.to_owned() }
    }
}

impl Clone for OutputFile {
    fn clone(&self) -> (r: Self)
        ensures
            r@ == self@,
    {
        OutputFile {
            name: self.name.clone(),
            kind: self.kind.clone(),
            label: self.label.clone(),
        }
    }
}

/// The output files of a list, as mathematical values.
pub open spec fn outputs_view(outputs: Seq<OutputFile>) -> Seq<OutputFileView> {
    outputs.map_values(|o: OutputFile| o@)
}

/// A copy of a list of output files.
pub fn copied_outputs(outputs: &Vec<OutputFile>) -> (r: Vec<OutputFile>)
    ensures
        outputs_view(r@) == outputs_view(outputs@),
{
    let mut r: Vec<OutputFile> = Vec::new();
    let mut i: usize = 0;
    while i < outputs.len()
        invariant
            i <= outputs.len(),
            r@.len() == i,
            forall|j: int| 0 <= j < i ==> (#[trigger] r@[j])@ == outputs@[j]@,
        decreases outputs.len() - i,
    {
        r.push(outputs[i].clone());
        i = i + 1;
    }
    proof {
        assert(outputs_view(r@) =~= outputs_view(outputs@));
    }
    r
}

/// A job: what was asked for, where its files are, and how far it has come.
pub struct Job {
    pub id: String,
    pub app: String,
    pub model: String,
    /// `queued`, `running`, `done` or `error`.
    pub status: String,
    pub created_at: i64,
    pub updated_at: i64,
    /// The parameters, as JSON text.
    pub params: String,
    pub input_filename: String,
    pub input_path: String,
    pub work_dir: String,
    pub outputs: Vec<OutputFile>,
    pub error: Option<String>,
}

/// A job as mathematical values.
pub struct JobView {
    pub id: Seq<char>,
    pub app: Seq<char>,
    pub model: Seq<char>,
    pub status: Seq<char>,
    pub created_at: i64,
    pub updated_at: i64,
    pub params: Seq<char>,
    pub input_filename: Seq<char>,
    pub input_path: Seq<char>,
    pub work_dir: Seq<char>,
    pub outputs: Seq<OutputFileView>,
    pub error: Option<Seq<char>>,
}

/// A text that may be missing, as a mathematical value.
pub open spec fn text_view(s: Option<String>) -> Option<Seq<char>> {
    match s {
        Some(t) => Some(t@),
        None => None,
    }
}

impl View for Job {
    type V = JobView;

    open spec fn view(&self) -> JobView {
        JobView {
            id: self.id@,
            app: self.app@,
            model: self.model@,
            status: self.status@,
            created_at: self.created_at,
            updated_at: self.updated_at,
            params: self.params@,
            input_filename: self.input_filename@,
            input_path: self.input_path@,
            work_dir: self.work_dir@,
            outputs: outputs_view(self.outputs@),
            error: text_view(self.error),
        }
    }
}

impl Clone for Job {
    fn clone(&self) -> (r: Self)
        ensures
            r@ == self@,
    {
        Job {
            id: self.id.clone(),
            app: self.app.clone(),
            model: self.model.clone(),
            status: self.status.clone(),
            created_at: self.created_at,
            updated_at: self.updated_at,
            params: self.params.clone(),
            input_filename: self.input_filename.clone(),
            input_path: self.input_path.clone(),
            work_dir: self.work_dir.clone(),
            outputs: copied_outputs(&self.outputs),
            error: copied_text(&self.error),
        }
    }
}

/// A stored row: a job with its parameters and its output list as they were
/// written down.
pub struct JobRow {
    pub id: String,
    pub app: String,
    pub model: String,
    pub status: String,
    pub created_at: i64,
    pub updated_at: i64,
    /// The stored text of the parameters.
    pub params: String,
    pub input_filename: String,
    pub input_path: String,
    pub work_dir: String,
    /// The stored output list, where it could be read.
    pub outputs: Option<Vec<OutputFile>>,
    pub error: Option<String>,
}

/// The job that a stored row holds. Parameters that are not JSON become a
/// null; an output list that cannot be read becomes an empty one.
pub open spec fn job_of_row(row: JobRow) -> JobView {
    JobView {
        id: row.id@,
        app: row.app@,
        model: row.model@,
        status: row.status@,
        created_at: row.created_at,
        updated_at: row.updated_at,
        params: crate::json::json_or(row.params@, "null"@),
        input_filename: row.input_filename@,
        input_path: row.input_path@,
        work_dir: row.work_dir@,
        outputs: match row.outputs {
            Some(outputs) => outputs_view(outputs@),
            None => seq![],
        },
        error: text_view(row.error),
    }
}

/// The job that a stored row holds. Parameters that are not JSON become a
/// null; an output list that cannot be read becomes an empty one.
pub fn row_to_job(row: JobRow) -> (r: Job)
    ensures
        r@ == job_of_row(row),
{
    let params: String = params_from_record(row.params.as_str());
    let outputs: Vec<OutputFile> = match row.outputs {
        Some(outputs) => outputs,
        None => Vec::new(),
    };
    proof {
        assert(row.outputs is None ==> outputs_view(outputs@) =~= seq![]);
    }
    Job {
        id: row.id,
        app: row.app,
        model: row.model,
        status: row.status,
        created_at: row.created_at,
        updated_at: row.updated_at,
        params,
        input_filename: row.input_filename,
        input_path: row.input_path,
        work_dir: row.work_dir,
        outputs,
        error: row.error,
    }
}

/// Whether a row was written from a job: column by column, with the output
/// list in a form that can be read.
pub open spec fn is_row_of(row: JobRow, job: JobView) -> bool {
    &&& row.id@ == job.id
    &&& row.app@ == job.app
    &&& row.model@ == job.model
    &&& row.status@ == job.status
    &&& row.created_at == job.created_at
    &&& row.updated_at == job.updated_at
    &&& row.params@ == job.params
    &&& row.input_filename@ == job.input_filename
    &&& row.input_path@ == job.input_path
    &&& row.work_dir@ == job.work_dir
    &&& row.outputs is Some && outputs_view(row.outputs->Some_0@) == job.outputs
    &&& text_view(row.error) == job.error
}

/// Reading gives back what was written: a row that was written from a job that
/// was stored, or that was read from an earlier row, is read back as that job,
/// and so is a row of any job whose parameters are JSON.
pub proof fn law_rows_are_read_back(row: JobRow, job: JobView, earlier: JobRow)
    ensures
        is_row_of(row, as_stored(job)) ==> job_of_row(row) == as_stored(job),
        is_row_of(row, job_of_row(earlier)) ==> job_of_row(row) == job_of_row(earlier),
        is_row_of(row, job) && crate::json::json_read(job.params) is Some ==> job_of_row(row)
            == job,
{
}

// ---------- what happens to a record ----------

/// A job with another status.
pub open spec fn with_status(job: JobView, status: Seq<char>, now: i64) -> JobView {
    JobView { status, updated_at: now, ..job }
}

/// A job that has finished with `outputs`.
pub open spec fn with_outputs(job: JobView, outputs: Seq<OutputFileView>, now: i64) -> JobView {
    JobView { status: "done"@, outputs, updated_at: now, ..job }
}

/// A job that has failed with `error`.
pub open spec fn with_error(job: JobView, error: Seq<char>, now: i64) -> JobView {
    JobView { status: "error"@, error: Some(error), updated_at: now, ..job }
}

/// A job with other parameters.
pub open spec fn with_params(job: JobView, params: Seq<char>) -> JobView {
    JobView { params, ..job }
}

/// A job as it is read back after it was stored.
pub open spec fn as_stored(job: JobView) -> JobView {
    JobView { params: crate::json::as_printed(job.params), ..job }
}

/// Whether a job waits or runs.
pub open spec fn is_unfinished(job: JobView) -> bool {
    job.status == "queued"@ || job.status == "running"@
}

/// A job after a restart of the program, which has forgotten what was waiting
/// and running.
pub open spec fn after_restart(job: JobView, now: i64) -> JobView {
    if is_unfinished(job) {
        with_error(job, "interrupted by server restart"@, now)
    } else {
        job
    }
}

// ---------- the table ----------

/// The table of all jobs.
pub struct JobTable {
    rows: Vec<Job>,
}

/// Whether a row with the id is in the list.
pub open spec fn has_row(rows: Seq<JobView>, id: Seq<char>) -> bool {
    exists|i: int| 0 <= i < rows.len() && (#[trigger] rows[i]).id == id
}

/// No two rows share an id.
pub open spec fn ids_unique(rows: Seq<JobView>) -> bool {
    forall|i: int, j: int|
        0 <= i < rows.len() && 0 <= j < rows.len() && (#[trigger] rows[i]).id == (
        #[trigger] rows[j]).id ==> i == j
}

/// The row with the id.
pub open spec fn row_of(rows: Seq<JobView>, id: Seq<char>) -> JobView {
    rows[choose|i: int| 0 <= i < rows.len() && (#[trigger] rows[i]).id == id]
}

/// A list of rows as a map from ids.
pub open spec fn rows_by_id(rows: Seq<JobView>) -> Map<Seq<char>, JobView> {
    Map::new(|id: Seq<char>| has_row(rows, id), |id: Seq<char>| row_of(rows, id))
}

/// A list of jobs, as mathematical values.
pub open spec fn jobs_view(jobs: Seq<Job>) -> Seq<JobView> {
    jobs.map_values(|j: Job| j@)
}

impl JobTable {
    /// The rows in the order in which they came.
    pub closed spec fn rows_view(&self) -> Seq<JobView> {
        jobs_view(self.rows@)
    }

    /// No two rows share an id.
    pub open spec fn well_formed(&self) -> bool {
        ids_unique(self.rows_view())
    }
}

impl View for JobTable {
    type V = Map<Seq<char>, JobView>;

    open spec fn view(&self) -> Map<Seq<char>, JobView> {
        rows_by_id(self.rows_view())
    }
}

/// In a list without two rows of one id, the map has row `i` under its id.
proof fn lemma_row_by_id(rows: Seq<JobView>, i: int)
    requires
        ids_unique(rows),
        0 <= i < rows.len(),
    ensures
        rows_by_id(rows).dom().contains(rows[i].id),
        rows_by_id(rows)[rows[i].id] == rows[i],
{
    let id = rows[i].id;
    assert(has_row(rows, id));
    let k = choose|k: int| 0 <= k < rows.len() && (#[trigger] rows[k]).id == id;
    assert(k == i);
}

/// Changing row `i` without changing its id changes the map at that id alone.
proof fn lemma_update_row(rows: Seq<JobView>, i: int, row: JobView)
    requires
        ids_unique(rows),
        0 <= i < rows.len(),
        row.id == rows[i].id,
    ensures
        ids_unique(rows.update(i, row)),
        rows_by_id(rows.update(i, row)) == rows_by_id(rows).insert(row.id, row),
{
    let new = rows.update(i, row);
    assert forall|a: int, b: int|
        0 <= a < new.len() && 0 <= b < new.len() && (#[trigger] new[a]).id == (#[trigger] new[b]).id implies a
        == b by {
        assert(rows[a].id == new[a].id && rows[b].id == new[b].id);
    }
    let m1 = rows_by_id(new);
    let m2 = rows_by_id(rows).insert(row.id, row);
    assert forall|id: Seq<char>| m1.dom().contains(id) == m2.dom().contains(id) by {
        if m1.dom().contains(id) {
            let k = choose|k: int| 0 <= k < new.len() && (#[trigger] new[k]).id == id;
            assert(rows[k].id == id);
        }
        if m2.dom().contains(id) {
            if id == row.id {
                assert(new[i].id == id);
            } else {
                let k = choose|k: int| 0 <= k < rows.len() && (#[trigger] rows[k]).id == id;
                assert(new[k].id == id);
            }
        }
    }
    assert forall|id: Seq<char>| m1.dom().contains(id) implies m1[id] == m2[id] by {
        let k = choose|k: int| 0 <= k < new.len() && (#[trigger] new[k]).id == id;
        lemma_row_by_id(new, k);
        lemma_row_by_id(rows, k);
    }
    assert(m1 =~= m2);
}

/// Adding a row with a new id adds it to the map.
proof fn lemma_push_row(rows: Seq<JobView>, row: JobView)
    requires
        ids_unique(rows),
        !has_row(rows, row.id),
    ensures
        ids_unique(rows.push(row)),
        rows_by_id(rows.push(row)) == rows_by_id(rows).insert(row.id, row),
{
    let new = rows.push(row);
    let n = rows.len() as int;
    assert forall|a: int, b: int|
        0 <= a < new.len() && 0 <= b < new.len() && (#[trigger] new[a]).id == (#[trigger] new[b]).id implies a
        == b by {
        if a < n {
            assert(rows[a] == new[a]);
        }
        if b < n {
            assert(rows[b] == new[b]);
        }
    }
    let m1 = rows_by_id(new);
    let m2 = rows_by_id(rows).insert(row.id, row);
    assert forall|id: Seq<char>| m1.dom().contains(id) == m2.dom().contains(id) by {
        if m1.dom().contains(id) {
            let k = choose|k: int| 0 <= k < new.len() && (#[trigger] new[k]).id == id;
            if k < n {
                assert(rows[k].id == id);
            }
        }
        if m2.dom().contains(id) {
            if id == row.id {
                assert(new[n].id == id);
            } else {
                let k = choose|k: int| 0 <= k < rows.len() && (#[trigger] rows[k]).id == id;
                assert(new[k].id == id);
            }
        }
    }
    assert forall|id: Seq<char>| m1.dom().contains(id) implies m1[id] == m2[id] by {
        let k = choose|k: int| 0 <= k < new.len() && (#[trigger] new[k]).id == id;
        lemma_row_by_id(new, k);
        if k < n {
            assert(rows[k] == new[k]);
            lemma_row_by_id(rows, k);
        }
    }
    assert(m1 =~= m2);
}

/// Removing row `i` removes its id from the map.
proof fn lemma_remove_row(rows: Seq<JobView>, i: int)
    requires
        ids_unique(rows),
        0 <= i < rows.len(),
    ensures
        ids_unique(rows.remove(i)),
        rows_by_id(rows.remove(i)) == rows_by_id(rows).remove(rows[i].id),
{
    let new = rows.remove(i);
    assert forall|a: int, b: int|
        0 <= a < new.len() && 0 <= b < new.len() && (#[trigger] new[a]).id == (#[trigger] new[b]).id implies a
        == b by {
        let p = if a < i { a } else { a + 1 };
        let q = if b < i { b } else { b + 1 };
        assert(rows[p] == new[a] && rows[q] == new[b]);
    }
    let m1 = rows_by_id(new);
    let m2 = rows_by_id(rows).remove(rows[i].id);
    assert forall|id: Seq<char>| m1.dom().contains(id) == m2.dom().contains(id) by {
        if m1.dom().contains(id) {
            let k = choose|k: int| 0 <= k < new.len() && (#[trigger] new[k]).id == id;
            let p = if k < i { k } else { k + 1 };
            assert(rows[p].id == id);
            assert(p != i);
            assert(id != rows[i].id);
        }
        if m2.dom().contains(id) {
            let k = choose|k: int| 0 <= k < rows.len() && (#[trigger] rows[k]).id == id;
            assert(k != i);
            let p = if k < i { k } else { k - 1 };
            assert(new[p].id == id);
        }
    }
    assert forall|id: Seq<char>| m1.dom().contains(id) implies m1[id] == m2[id] by {
        let k = choose|k: int| 0 <= k < new.len() && (#[trigger] new[k]).id == id;
        let p = if k < i { k } else { k + 1 };
        assert(rows[p] == new[k]);
        lemma_row_by_id(new, k);
        lemma_row_by_id(rows, p);
    }
    assert(m1 =~= m2);
}

/// Why a job could not be stored.
#[derive(Clone, Copy, PartialEq, Eq, Debug, Structural)]
pub enum DbError {
    /// The table has a job with that id.
    DuplicateId,
}

impl JobTable {
    /// The place of the row with the id.
    fn position(&self, id: &str) -> (r: Option<usize>)
        ensures
            match r {
                Some(i) => i < self.rows_view().len() && self.rows_view()[i as int].id == id@,
                None => !has_row(self.rows_view(), id@),
            },
            self.rows_view().len() == self.rows@.len(),
    {
        let mut i: usize = 0;
        while i < self.rows.len()
            invariant
                i <= self.rows.len(),
                forall|j: int| 0 <= j < i ==> (#[trigger] self.rows_view()[j]).id != id@,
            decreases self.rows.len() - i,
        {
            if same(self.rows[i].id.as_str(), id) {
                return Some(i);
            }
            i = i + 1;
        }
        None
    }
}

/// A table without rows.
pub fn open() -> (r: JobTable)
    ensures
        r.well_formed(),
        r@ == Map::<Seq<char>, JobView>::empty(),
{
    let r = JobTable { rows: Vec::new() };
    proof {
        assert(r@ =~= Map::<Seq<char>, JobView>::empty());
    }
    r
}

/// Puts a job that was read from a row into the table, as it is; one whose id
/// is there already is refused.
pub fn restore_job(table: &mut JobTable, job: &Job) -> (r: Result<(), DbError>)
    requires
        old(table).well_formed(),
    ensures
        final(table).well_formed(),
        match r {
            Ok(()) => !old(table)@.dom().contains(job@.id) && final(table)@ == old(table)@.insert(
                job@.id,
                job@,
            ),
            Err(e) => e == DbError::DuplicateId && old(table)@.dom().contains(job@.id)
                && final(table)@ == old(table)@,
        },
{
    match table.position(job.id.as_str()) {
        Some(_) => Err(DbError::DuplicateId),
        None => {
            let ghost before = table.rows_view();
            let copy: Job = job.clone();
            table.rows.push(copy);
            proof {
                assert(table.rows_view() =~= before.push(job@));
                lemma_push_row(before, job@);
            }
            Ok(())
        },
    }
}

/// Stores a new job, with its parameters printed; one whose id is there already
/// is refused.
pub fn insert_job(table: &mut JobTable, job: &Job) -> (r: Result<(), DbError>)
    requires
        old(table).well_formed(),
    ensures
        final(table).well_formed(),
        match r {
            Ok(()) => !old(table)@.dom().contains(job@.id) && final(table)@ == old(table)@.insert(
                job@.id,
                as_stored(job@),
            ),
            Err(e) => e == DbError::DuplicateId && old(table)@.dom().contains(job@.id)
                && final(table)@ == old(table)@,
        },
{
    let mut row: Job = job.clone();
    row.params = printed(job.params.as_str());
    restore_job(table, &row)
}

/// The job with the id.
pub fn get_job(table: &JobTable, id: &str) -> (r: Option<Job>)
    requires
        table.well_formed(),
    ensures
        match r {
            Some(job) => table@.dom().contains(id@) && job@ == table@[id@],
            None => !table@.dom().contains(id@),
        },
{
    match table.position(id) {
        Some(i) => {
            proof {
                lemma_row_by_id(table.rows_view(), i as int);
            }
            Some(table.rows[i].clone())
        },
        None => None,
    }
}

impl JobTable {
    /// Puts a changed record in the place of the one with its id.
    fn replace(&mut self, job: Job)
        requires
            old(self).well_formed(),
            old(self)@.dom().contains(job@.id),
        ensures
            final(self).well_formed(),
            final(self)@ == old(self)@.insert(job@.id, job@),
    {
        if let Some(i) = self.position(job.id.as_str()) {
            let ghost before = self.rows_view();
            let ghost row = job@;
            self.rows.set(i, job);
            proof {
                assert(self.rows_view() =~= before.update(i as int, row));
                lemma_update_row(before, i as int, row);
            }
        }
    }
}

/// Sets the status of a job.
pub fn set_status(table: &mut JobTable, id: &str, status: &str, now: i64)
    requires
        old(table).well_formed(),
    ensures
        final(table).well_formed(),
        final(table)@ == (if old(table)@.dom().contains(id@) {
            old(table)@.insert(id@, with_status(old(table)@[id@], status@, now))
        } else {
            old(table)@
        }),
        old(table)@.dom().contains(id@) ==> final(table)@[id@].status == status@
            && final(table)@[id@].updated_at == now && final(table)@[id@].outputs == old(table)@[id@].outputs,
{
    if let Some(mut job) = get_job(table, id) {
        job.status = status.to_owned();
        job.updated_at = now;
        table.replace(job);
    }
}

/// Marks a job as done, with its outputs.
pub fn set_done(table: &mut JobTable, id: &str, outputs: &Vec<OutputFile>, now: i64)
    requires
        old(table).well_formed(),
    ensures
        final(table).well_formed(),
        final(table)@ == (if old(table)@.dom().contains(id@) {
            old(table)@.insert(id@, with_outputs(old(table)@[id@], outputs_view(outputs@), now))
        } else {
            old(table)@
        }),
        old(table)@.dom().contains(id@) ==> final(table)@[id@].status == "done"@
            && final(table)@[id@].outputs == outputs_view(outputs@) && final(table)@[id@].updated_at
            == now,
{
    if let Some(mut job) = get_job(table, id) {
        job.status = "done".to_owned();
        job.outputs = copied_outputs(outputs);
        job.updated_at = now;
        table.replace(job);
    }
}

/// Marks a job as failed, with the reason.
pub fn set_error(table: &mut JobTable, id: &str, error: &str, now: i64)
    requires
        old(table).well_formed(),
    ensures
        final(table).well_formed(),
        final(table)@ == (if old(table)@.dom().contains(id@) {
            old(table)@.insert(id@, with_error(old(table)@[id@], error@, now))
        } else {
            old(table)@
        }),
        old(table)@.dom().contains(id@) ==> final(table)@[id@].status == "error"@
            && final(table)@[id@].error == Some(error@) && final(table)@[id@].outputs
            == old(table)@[id@].outputs && final(table)@[id@].updated_at == now,
{
    if let Some(mut job) = get_job(table, id) {
        job.status = "error".to_owned();
        job.error = Some(error.to_owned());
        job.updated_at = now;
        table.replace(job);
    }
}

/// Replaces the parameters of a job by others in printed form.
pub fn update_params(table: &mut JobTable, id: &str, params: &str)
    requires
        old(table).well_formed(),
    ensures
        final(table).well_formed(),
        final(table)@ == (if old(table)@.dom().contains(id@) {
            old(table)@.insert(
                id@,
                with_params(old(table)@[id@], crate::json::json_or(params@, "null"@)),
            )
        } else {
            old(table)@
        }),
        old(table)@.dom().contains(id@) && crate::json::json_read(params@) is Some
            ==> final(table)@[id@].params == params@,
{
    if let Some(mut job) = get_job(table, id) {
        job.params = params_from_record(params);
        table.replace(job);
    }
}

/// Removes a job and gives the directory that it worked in.
pub fn delete_job(table: &mut JobTable, id: &str) -> (r: Option<String>)
    requires
        old(table).well_formed(),
    ensures
        final(table).well_formed(),
        final(table)@ == old(table)@.remove(id@),
        match r {
            Some(work_dir) => old(table)@.dom().contains(id@) && work_dir@ == old(
                table,
            )@[id@].work_dir,
            None => !old(table)@.dom().contains(id@),
        },
{
    match table.position(id) {
        Some(i) => {
            let ghost before = table.rows_view();
            let job: Job = table.rows.remove(i);
            proof {
                lemma_row_by_id(before, i as int);
                assert(table.rows_view() =~= before.remove(i as int));
                lemma_remove_row(before, i as int);
            }
            Some(job.work_dir)
        },
        None => {
            proof {
                assert(table@.remove(id@) =~= table@);
            }
            None
        },
    }
}

/// Inserting a row with a new id anywhere adds it to the map.
proof fn lemma_insert_row(rows: Seq<JobView>, at: int, row: JobView)
    requires
        ids_unique(rows),
        0 <= at <= rows.len(),
        !has_row(rows, row.id),
    ensures
        ids_unique(rows.insert(at, row)),
        rows_by_id(rows.insert(at, row)) == rows_by_id(rows).insert(row.id, row),
{
    let new = rows.insert(at, row);
    assert forall|a: int, b: int|
        0 <= a < new.len() && 0 <= b < new.len() && (#[trigger] new[a]).id == (#[trigger] new[b]).id implies a
        == b by {
        let p = if a < at { a } else { a - 1 };
        let q = if b < at { b } else { b - 1 };
        if a != at {
            assert(rows[p] == new[a]);
        }
        if b != at {
            assert(rows[q] == new[b]);
        }
    }
    let m1 = rows_by_id(new);
    let m2 = rows_by_id(rows).insert(row.id, row);
    assert forall|id: Seq<char>| m1.dom().contains(id) == m2.dom().contains(id) by {
        if m1.dom().contains(id) {
            let k = choose|k: int| 0 <= k < new.len() && (#[trigger] new[k]).id == id;
            if k != at {
                let p = if k < at { k } else { k - 1 };
                assert(rows[p].id == id);
            }
        }
        if m2.dom().contains(id) {
            if id == row.id {
                assert(new[at].id == id);
            } else {
                let k = choose|k: int| 0 <= k < rows.len() && (#[trigger] rows[k]).id == id;
                let p = if k < at { k } else { k + 1 };
                assert(new[p].id == id);
            }
        }
    }
    assert forall|id: Seq<char>| m1.dom().contains(id) implies m1[id] == m2[id] by {
        let k = choose|k: int| 0 <= k < new.len() && (#[trigger] new[k]).id == id;
        lemma_row_by_id(new, k);
        if k != at {
            let p = if k < at { k } else { k - 1 };
            assert(rows[p] == new[k]);
            lemma_row_by_id(rows, p);
        }
    }
    assert(m1 =~= m2);
}

/// The later of two jobs stands first.
pub open spec fn newest_first(rows: Seq<JobView>) -> bool {
    forall|i: int, j: int|
        0 <= i < j < rows.len() ==> (#[trigger] rows[i]).created_at >= (
        #[trigger] rows[j]).created_at
}

/// All jobs, the latest first. Jobs of one millisecond come in any order.
pub fn list_jobs(table: &JobTable) -> (r: Vec<Job>)
    requires
        table.well_formed(),
    ensures
        ids_unique(jobs_view(r@)),
        rows_by_id(jobs_view(r@)) == table@,
        newest_first(jobs_view(r@)),
{
    let ghost rows = table.rows_view();
    let mut r: Vec<Job> = Vec::new();
    let mut i: usize = 0;
    proof {
        assert(rows.take(0) =~= jobs_view(r@));
    }
    while i < table.rows.len()
        invariant
            i <= table.rows.len(),
            rows == table.rows_view(),
            rows.len() == table.rows@.len(),
            ids_unique(rows),
            ids_unique(jobs_view(r@)),
            rows_by_id(jobs_view(r@)) == rows_by_id(rows.take(i as int)),
            newest_first(jobs_view(r@)),
        decreases table.rows.len() - i,
    {
        let job: Job = table.rows[i].clone();
        let ghost row = job@;
        let mut at: usize = 0;
        while at < r.len() && r[at].created_at >= job.created_at
            invariant
                at <= r.len(),
                forall|k: int| 0 <= k < at ==> (#[trigger] r@[k]).created_at >= job.created_at,
            decreases r.len() - at,
        {
            at = at + 1;
        }
        let ghost before = jobs_view(r@);
        let ghost old_r = r@;
        r.insert(at, job);
        proof {
            assert(row == rows[i as int]);
            assert(jobs_view(r@) =~= before.insert(at as int, row));
            assert forall|a: int, b: int| 0 <= a < i && 0 <= b < i && (#[trigger] rows.take(
                i as int,
            )[a]).id == (#[trigger] rows.take(i as int)[b]).id implies a == b by {
                assert(rows[a].id == rows[b].id);
            }
            assert(ids_unique(rows.take(i as int)));
            assert(!has_row(rows.take(i as int), row.id)) by {
                if has_row(rows.take(i as int), row.id) {
                    let k = choose|k: int|
                        0 <= k < i && (#[trigger] rows.take(i as int)[k]).id == row.id;
                    assert(rows[k].id == rows[i as int].id);
                }
            }
            assert(!has_row(before, row.id)) by {
                assert(!rows_by_id(rows.take(i as int)).dom().contains(row.id));
                assert(rows_by_id(before).dom().contains(row.id) == has_row(before, row.id));
            }
            lemma_insert_row(before, at as int, row);
            assert(rows.take(i + 1) =~= rows.take(i as int).push(row));
            lemma_push_row(rows.take(i as int), row);
            let new = jobs_view(r@);
            assert forall|a: int, b: int| 0 <= a < b < new.len() implies (
            #[trigger] new[a]).created_at >= (#[trigger] new[b]).created_at by {
                let p = if a < at { a } else { a - 1 };
                let q = if b < at { b } else { b - 1 };
                if a != at && b != at {
                    assert(before[p] == new[a] && before[q] == new[b]);
                } else if b == at {
                    assert(before[a] == new[a]);
                    assert(old_r[a].created_at >= row.created_at);
                } else {
                    assert(before[q] == new[b]);
                    assert(before[at as int] == old_r[at as int]@);
                    if q > at {
                        assert(before[at as int].created_at >= before[q].created_at);
                    }
                }
            }
        }
        i = i + 1;
    }
    proof {
        assert(rows.take(i as int) =~= rows);
    }
    r
}

/// Changing every row without changing its id changes the map's values alone.
proof fn lemma_map_rows(rows: Seq<JobView>, new: Seq<JobView>, now: i64)
    requires
        ids_unique(rows),
        new.len() == rows.len(),
        forall|i: int|
            0 <= i < rows.len() ==> #[trigger] new[i] == after_restart(rows[i], now),
    ensures
        ids_unique(new),
        rows_by_id(new) == rows_by_id(rows).map_values(|j: JobView| after_restart(j, now)),
{
    assert forall|a: int, b: int|
        0 <= a < new.len() && 0 <= b < new.len() && (#[trigger] new[a]).id == (#[trigger] new[b]).id implies a
        == b by {
        assert(rows[a].id == new[a].id && rows[b].id == new[b].id);
    }
    let m1 = rows_by_id(new);
    let m2 = rows_by_id(rows).map_values(|j: JobView| after_restart(j, now));
    assert forall|id: Seq<char>| m1.dom().contains(id) == m2.dom().contains(id) by {
        if m1.dom().contains(id) {
            let k = choose|k: int| 0 <= k < new.len() && (#[trigger] new[k]).id == id;
            assert(rows[k].id == id);
        }
        if m2.dom().contains(id) {
            let k = choose|k: int| 0 <= k < rows.len() && (#[trigger] rows[k]).id == id;
            assert(new[k].id == id);
        }
    }
    assert forall|id: Seq<char>| m1.dom().contains(id) implies m1[id] == m2[id] by {
        let k = choose|k: int| 0 <= k < new.len() && (#[trigger] new[k]).id == id;
        lemma_row_by_id(new, k);
        lemma_row_by_id(rows, k);
    }
    assert(m1 =~= m2);
}

/// Marks every job that waited or ran as failed: after a restart nothing works
/// on it any more.
pub fn fail_orphans(table: &mut JobTable, now: i64)
    requires
        old(table).well_formed(),
    ensures
        final(table).well_formed(),
        final(table)@ == old(table)@.map_values(|j: JobView| after_restart(j, now)),
{
    let ghost before = table.rows_view();
    let mut i: usize = 0;
    while i < table.rows.len()
        invariant
            i <= table.rows.len(),
            table.rows_view().len() == before.len() == table.rows@.len(),
            forall|j: int|
                0 <= j < i ==> #[trigger] table.rows_view()[j] == after_restart(before[j], now),
            forall|j: int|
                i <= j < before.len() ==> #[trigger] table.rows_view()[j] == before[j],
        decreases table.rows.len() - i,
    {
        let mut job: Job = table.rows[i].clone();
        let ghost rows = table.rows_view();
        proof {
            assert(job@ == rows[i as int]);
        }
        if same(job.status.as_str(), "queued") || same(job.status.as_str(), "running") {
            job.status = "error".to_owned();
            job.error = Some("interrupted by server restart".to_owned());
            job.updated_at = now;
        }
        let ghost row = job@;
        table.rows.set(i, job);
        proof {
            assert(row == after_restart(before[i as int], now));
            assert(table.rows_view() =~= rows.update(i as int, row));
        }
        i = i + 1;
    }
    proof {
        lemma_map_rows(before, table.rows_view(), now);
    }
}

// ---------- laws ----------

/// After a restart no job waits or runs, and a job that had finished is as it
/// was.
pub proof fn law_restart_leaves_no_orphans(table: Map<Seq<char>, JobView>, id: Seq<char>, now: i64)
    requires
        table.dom().contains(id),
    ensures
        ({
            let after = table.map_values(|j: JobView| after_restart(j, now));
            &&& after.dom() == table.dom()
            &&& !is_unfinished(after[id])
            &&& !is_unfinished(table[id]) ==> after[id] == table[id]
            &&& is_unfinished(table[id]) ==> after[id].error == Some(
                "interrupted by server restart"@,
            )
        }),
{
    lemma_statuses_differ();
    let after = table.map_values(|j: JobView| after_restart(j, now));
    assert(after.dom() =~= table.dom());
}

/// The four statuses differ.
pub proof fn lemma_statuses_differ()
    ensures
        "queued"@ != "running"@,
        "queued"@ != "done"@,
        "queued"@ != "error"@,
        "running"@ != "done"@,
        "running"@ != "error"@,
        "done"@ != "error"@,
{
    reveal_strlit("queued");
    reveal_strlit("running");
    reveal_strlit("done");
    reveal_strlit("error");
    assert("queued"@.len() == 6);
    assert("running"@.len() == 7);
    assert("done"@.len() == 4);
    assert("error"@.len() == 5);
}

/// A second restart changes nothing more.
pub proof fn law_restart_is_idempotent(job: JobView, now: i64, later: i64)
    ensures
        after_restart(after_restart(job, now), later) == after_restart(job, now),
{
    lemma_statuses_differ();
}

/// What a job was asked to do and where its files are never change after it is
/// stored; only its parameters, its progress and its time of change do.
pub proof fn law_identity_is_kept(
    job: JobView,
    status: Seq<char>,
    outputs: Seq<OutputFileView>,
    error: Seq<char>,
    params: Seq<char>,
    now: i64,
)
    ensures
        same_identity(with_status(job, status, now), job),
        same_identity(with_outputs(job, outputs, now), job),
        same_identity(with_error(job, error, now), job),
        same_identity(with_params(job, params), job),
        same_identity(after_restart(job, now), job),
{
}

/// Whether two records are of one job.
pub open spec fn same_identity(a: JobView, b: JobView) -> bool {
    &&& a.id == b.id
    &&& a.app == b.app
    &&& a.model == b.model
    &&& a.created_at == b.created_at
    &&& a.input_filename == b.input_filename
    &&& a.input_path == b.input_path
    &&& a.work_dir == b.work_dir
}

/// A job that is recorded as done has exactly the outputs that were recorded,
/// whatever outputs it had before, and the time of the recording; everything
/// else but its status stays. Of two recordings only the later one is seen, and
/// recording the same outcome twice leaves the outputs of recording it once.
pub proof fn law_outputs_are_replaced(
    job: JobView,
    outputs: Seq<OutputFileView>,
    earlier: Seq<OutputFileView>,
    now: i64,
    before: i64,
)
    ensures
        with_outputs(job, outputs, now).outputs == outputs,
        with_outputs(job, outputs, now).outputs.len() == outputs.len(),
        with_outputs(JobView { outputs: earlier, ..job }, outputs, now).outputs == outputs,
        with_outputs(with_outputs(job, earlier, before), outputs, now) == with_outputs(
            job,
            outputs,
            now,
        ),
        with_outputs(with_outputs(job, outputs, before), outputs, now).outputs == with_outputs(
            job,
            outputs,
            now,
        ).outputs,
        with_outputs(job, outputs, now).status == "done"@,
        with_outputs(job, outputs, now).updated_at == now,
        with_outputs(job, outputs, now).error == job.error,
        with_outputs(job, outputs, now).params == job.params,
{
}

/// A job gets the status and the time that are recorded; its parameters, its
/// outputs and its error stay. Of two recordings only the later one is seen.
pub proof fn law_status_is_replaced(
    job: JobView,
    status: Seq<char>,
    earlier: Seq<char>,
    now: i64,
    before: i64,
)
    ensures
        with_status(job, status, now).status == status,
        with_status(job, status, now).updated_at == now,
        with_status(job, status, now).outputs == job.outputs,
        with_status(job, status, now).error == job.error,
        with_status(job, status, now).params == job.params,
        with_status(with_status(job, earlier, before), status, now) == with_status(
            job,
            status,
            now,
        ),
{
}

/// A job that is recorded as failed has the reason that was recorded, whatever
/// it had before, and the time of the recording; its parameters and its outputs
/// stay. Of two recordings only the later one is seen.
pub proof fn law_errors_are_replaced(
    job: JobView,
    error: Seq<char>,
    earlier: Seq<char>,
    now: i64,
    before: i64,
)
    ensures
        with_error(job, error, now).error == Some(error),
        with_error(job, error, now).status == "error"@,
        with_error(job, error, now).updated_at == now,
        with_error(job, error, now).outputs == job.outputs,
        with_error(job, error, now).params == job.params,
        with_error(with_error(job, earlier, before), error, now) == with_error(job, error, now),
{
}

/// A job gets the parameters that are recorded, and with them every setting;
/// nothing else changes, not even the time of its last change.
pub proof fn law_params_are_replaced(
    job: JobView,
    params: Seq<char>,
    earlier: Seq<char>,
    key: Seq<char>,
)
    ensures
        with_params(job, params).params == params,
        crate::json::int_param(with_params(job, params).params, key) == crate::json::int_param(
            params,
            key,
        ),
        with_params(job, params).status == job.status,
        with_params(job, params).updated_at == job.updated_at,
        with_params(job, params).outputs == job.outputs,
        with_params(job, params).error == job.error,
        with_params(with_params(job, earlier), params) == with_params(job, params),
        with_params(job, job.params) == job,
{
}

/// Storing a job changes none of its columns but its parameters, which are
/// stored as their compact text.
pub proof fn law_storing_keeps_the_job(job: JobView)
    ensures
        as_stored(job).params == crate::json::as_printed(job.params),
        with_params(as_stored(job), job.params) == job,
        same_identity(as_stored(job), job),
        as_stored(job).status == job.status,
        as_stored(job).updated_at == job.updated_at,
        as_stored(job).outputs == job.outputs,
        as_stored(job).error == job.error,
{
}

/// A row is read column by column. Nothing is lost of what can be read.
pub proof fn law_rows_are_read_column_by_column(row: JobRow)
    ensures
        job_of_row(row).id == row.id@,
        job_of_row(row).app == row.app@,
        job_of_row(row).model == row.model@,
        job_of_row(row).status == row.status@,
        job_of_row(row).created_at == row.created_at,
        job_of_row(row).updated_at == row.updated_at,
        job_of_row(row).input_filename == row.input_filename@,
        job_of_row(row).input_path == row.input_path@,
        job_of_row(row).work_dir == row.work_dir@,
        crate::json::json_read(row.params@) is Some ==> job_of_row(row).params == row.params@,
        crate::json::json_read(row.params@) is None ==> job_of_row(row).params == "null"@,
        row.outputs matches Some(outputs) ==> job_of_row(row).outputs.len() == outputs@.len()
            && forall|i: int|
            0 <= i < outputs@.len() ==> {
                let read = #[trigger] job_of_row(row).outputs[i];
                read.name == outputs@[i].name@ && read.kind == outputs@[i].kind@ && read.label
                    == outputs@[i].label@
            },
        row.outputs is None ==> job_of_row(row).outputs.len() == 0,
        row.error matches Some(error) ==> job_of_row(row).error == Some(error@),
        row.error is None ==> job_of_row(row).error is None,
{
}

/// A job waits or runs exactly if its status says so. A restart gives each such
/// job the status of a failed one, the time and the reason, and leaves its
/// parameters and outputs alone.
pub proof fn law_restart_fails_what_was_not_finished(job: JobView, now: i64)
    ensures
        is_unfinished(job) <==> job.status == "queued"@ || job.status == "running"@,
        job.status == "queued"@ || job.status == "running"@ ==> {
            let after = after_restart(job, now);
            &&& after.status == "error"@
            &&& after.error == Some("interrupted by server restart"@)
            &&& after.updated_at == now
            &&& after.params == job.params
            &&& after.outputs == job.outputs
        },
        job.status != "queued"@ && job.status != "running"@ ==> after_restart(job, now) == job,
{
}

/// A list of rows of which no two share an id is the table that it stands for:
/// each row is found under its id, and under any other id there is nothing.
pub proof fn law_rows_are_found_by_id(rows: Seq<JobView>, i: int, j: int, id: Seq<char>)
    requires
        ids_unique(rows),
        0 <= i < rows.len(),
        0 <= j < rows.len(),
        i != j,
    ensures
        rows[i].id != rows[j].id,
        rows_by_id(rows).dom().contains(rows[i].id),
        rows_by_id(rows)[rows[i].id] == rows[i],
        rows_by_id(rows).dom().contains(id) ==> exists|k: int|
            0 <= k < rows.len() && (#[trigger] rows[k]).id == id && rows_by_id(rows)[id] == rows[k],
{
    lemma_row_by_id(rows, i);
    if rows_by_id(rows).dom().contains(id) {
        let k = choose|k: int| 0 <= k < rows.len() && (#[trigger] rows[k]).id == id;
        lemma_row_by_id(rows, k);
    }
}

/// In a list with the newest first, no job was created after one before it.
pub proof fn law_lists_begin_with_the_newest(rows: Seq<JobView>, i: int, j: int)
    requires
        newest_first(rows),
        0 <= i <= j < rows.len(),
    ensures
        rows[j].created_at <= rows[i].created_at,
        rows[0].created_at >= rows[j].created_at,
{
}

/// A time stamp counts the whole milliseconds that have passed since the epoch:
/// it is at most the time, and less than a millisecond behind.
pub proof fn law_stamps_count_milliseconds(t: SystemTime, nanos: nat)
    requires
        nanos_since_epoch(t) == Some(nanos),
        nanos < 0x7fff_ffff_ffff_ffff * 1_000_000,
    ensures
        stamp_at(t) is Some,
        stamp_at(t)->Some_0 * 1_000_000 <= nanos < (stamp_at(t)->Some_0 + 1) * 1_000_000,
{
}

/// There is no time stamp of a moment before the epoch, and of any other there
/// is.
pub proof fn law_stamps_begin_at_the_epoch(t: SystemTime)
    ensures
        stamp_at(t) is None <==> nanos_since_epoch(t) is None,
{
}

/// Nothing of a job or of an output is left out of its view, and nothing is
/// mixed up.
pub proof fn law_jobs_are_seen_whole(job: Job, outputs: Seq<OutputFile>, i: int)
    requires
        0 <= i < outputs.len(),
    ensures
        job@.id == job.id@,
        job@.app == job.app@,
        job@.model == job.model@,
        job@.status == job.status@,
        job@.created_at == job.created_at,
        job@.updated_at == job.updated_at,
        job@.params == job.params@,
        job@.input_filename == job.input_filename@,
        job@.input_path == job.input_path@,
        job@.work_dir == job.work_dir@,
        job@.outputs == outputs_view(job.outputs@),
        job.error is None ==> job@.error is None,
        job.error matches Some(error) ==> job@.error == Some(error@),
        outputs_view(outputs).len() == outputs.len(),
        outputs_view(outputs)[i].name == outputs[i].name@,
        outputs_view(outputs)[i].kind == outputs[i].kind@,
        outputs_view(outputs)[i].label == outputs[i].label@,
{
}

} // verus!
