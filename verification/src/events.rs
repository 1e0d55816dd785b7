//! What the clients that listen are told.

use vstd::prelude::*;

use crate::db::{Job, JobView};
use crate::text::joined3;

verus! {

/// Something that has happened to a job.
pub enum JobEvent {
    Created { job: Job },
    Updated { job: Job },
    Deleted { id: String },
}

/// An event, as mathematical values.
pub enum JobEventView {
    Created { job: JobView },
    Updated { job: JobView },
    Deleted { id: Seq<char> },
}

impl View for JobEvent {
    type V = JobEventView;

    open spec fn view(&self) -> JobEventView {
        match self {
            JobEvent::Created { job } => JobEventView::Created { job: job@ },
            JobEvent::Updated { job } => JobEventView::Updated { job: job@ },
            JobEvent::Deleted { id } => JobEventView::Deleted { id: id@ },
        }
    }
}

impl Clone for JobEvent {
    fn clone(&self) -> (r: Self)
        ensures
            r@ == self@,
    {
        match self {
            JobEvent::Created { job } => JobEvent::Created { job: job.clone() },
            JobEvent::Updated { job } => JobEvent::Updated { job: job.clone() },
            JobEvent::Deleted { id } => JobEvent::Deleted { id: id.clone() },
        }
    }
}

/// An event that may be missing, as mathematical values.
pub open spec fn event_view(event: Option<JobEvent>) -> Option<JobEventView> {
    match event {
        Some(e) => Some(e@),
        None => None,
    }
}

/// One message of the event stream: a data line, then an empty line.
pub fn sse_frame(data: &str) -> (r: String)
    ensures
        r@ == "data: "@ + data@ + "\n\n"@,
{
    joined3("data: ", data, "\n\n")
}

/// Listeners are told which of the three things has happened, with the whole
/// record or the id.
pub proof fn law_events_are_seen_whole(job: Job, id: String)
    ensures
        event_view(Some(JobEvent::Created { job })) == Some(JobEventView::Created { job: job@ }),
        event_view(Some(JobEvent::Updated { job })) == Some(JobEventView::Updated { job: job@ }),
        event_view(Some(JobEvent::Deleted { id })) == Some(JobEventView::Deleted { id: id@ }),
        event_view(None) is None,
{
}

} // verus!
