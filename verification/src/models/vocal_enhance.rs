//! Vocal enhancement.

use vstd::prelude::*;

use crate::db::{OutputFile, OutputFileView};
use crate::text::joined;

verus! {

/// The file that enhancing `stem` writes.
pub open spec fn enhanced_outputs(stem: Seq<char>) -> Seq<OutputFileView> {
    seq![OutputFileView { name: stem + "_enhanced.wav"@, kind: "audio"@, label: "Enhanced"@ }]
}

/// The file that enhancing `stem` writes.
pub fn run(stem: &str) -> (r: Vec<OutputFile>)
    ensures
        crate::db::outputs_view(r@) == enhanced_outputs(stem@),
{
    let r: Vec<OutputFile> = vec![
        OutputFile::new(joined(stem, "_enhanced.wav"), "audio", "Enhanced"),
    ];
    proof {
        assert(crate::db::outputs_view(r@) =~= enhanced_outputs(stem@));
    }
    r
}

/// An enhancement writes one audio file named after the stem.
pub proof fn law_one_enhanced_file(stem: Seq<char>)
    ensures
        enhanced_outputs(stem).len() == 1,
        enhanced_outputs(stem)[0].name == stem + "_enhanced.wav"@,
        enhanced_outputs(stem)[0].kind == "audio"@,
        enhanced_outputs(stem)[0].label == "Enhanced"@,
{
}

} // verus!
