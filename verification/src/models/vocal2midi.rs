//! Transcription of a voice to notes.

use vstd::prelude::*;

use crate::db::{OutputFile, OutputFileView};
use crate::text::joined;

verus! {

/// The settings of a transcription. Real numbers are given by the bits of a
/// double.
pub struct Vocal2MidiParams {
    pub t0: u64,
    pub nsteps: i32,
    pub seg_threshold: u64,
    pub seg_radius: u64,
    pub est_threshold: u64,
    pub tempo: u64,
    pub language: Option<String>,
}

/// The settings of a transcription, as mathematical values.
pub struct Vocal2MidiView {
    pub t0: u64,
    pub nsteps: i32,
    pub seg_threshold: u64,
    pub seg_radius: u64,
    pub est_threshold: u64,
    pub tempo: u64,
    pub language: Option<Seq<char>>,
}

impl View for Vocal2MidiParams {
    type V = Vocal2MidiView;

    open spec fn view(&self) -> Vocal2MidiView {
        Vocal2MidiView {
            t0: self.t0,
            nsteps: self.nsteps,
            seg_threshold: self.seg_threshold,
            seg_radius: self.seg_radius,
            est_threshold: self.est_threshold,
            tempo: self.tempo,
            language: crate::db::text_view(self.language),
        }
    }
}

/// The files that transcribing `stem` writes.
pub open spec fn transcription_outputs(stem: Seq<char>) -> Seq<OutputFileView> {
    seq![
        OutputFileView { name: stem + ".mid"@, kind: "midi"@, label: "MIDI"@ },
        OutputFileView { name: stem + ".json"@, kind: "json"@, label: "Notes (JSON)"@ },
    ]
}

/// The files that transcribing `stem` writes: the notes as MIDI and as JSON.
pub fn run(stem: &str) -> (r: Vec<OutputFile>)
    ensures
        crate::db::outputs_view(r@) == transcription_outputs(stem@),
{
    let r: Vec<OutputFile> = vec![
        OutputFile::new(joined(stem, ".mid"), "midi", "MIDI"),
        OutputFile::new(joined(stem, ".json"), "json", "Notes (JSON)"),
    ];
    proof {
        assert(crate::db::outputs_view(r@) =~= transcription_outputs(stem@));
    }
    r
}

/// A transcription writes two files named after the stem: the notes as MIDI,
/// then as JSON.
pub proof fn law_two_files_of_notes(stem: Seq<char>)
    ensures
        transcription_outputs(stem).len() == 2,
        transcription_outputs(stem)[0].name == stem + ".mid"@,
        transcription_outputs(stem)[0].kind == "midi"@,
        transcription_outputs(stem)[0].label == "MIDI"@,
        transcription_outputs(stem)[1].name == stem + ".json"@,
        transcription_outputs(stem)[1].kind == "json"@,
        transcription_outputs(stem)[1].label == "Notes (JSON)"@,
{
}

} // verus!
