//! Extracting a downloaded mod archive: what to create for each entry of the archive.

use vstd::prelude::*;

use crate::external::{join_path, joined_path, read_zip, zip_entries};
use crate::text::{concat2, ends_with, has_suffix};

verus! {

/// Where reading a zip archive failed: opening the archive, opening an entry, or reading an
/// entry's bytes.
pub enum ZipStage {
    OpenArchive,
    OpenEntry,
    ReadEntry,
}

/// One thing to create when extracting an archive.
#[derive(Debug)]
pub enum ExtractStep {
    /// A folder, with its parents.
    CreateDir(String),
    /// A file with these bytes (its parent folders are created first).
    WriteFile(String, Vec<u8>),
}

/// The error that extraction reports when reading the archive fails.
pub open spec fn zip_failure_message(stage: ZipStage, e: Seq<char>) -> Seq<char> {
    match stage {
        ZipStage::OpenArchive => "Failed to read archive: "@ + e,
        ZipStage::OpenEntry => "Failed to read archive entry: "@ + e,
        ZipStage::ReadEntry => "Failed to extract file: "@ + e,
    }
}

/// The step for an archive entry extracted into `dir`: a name ending in `/` is a folder,
/// anything else a file with the entry's bytes.
pub open spec fn step_for(step: ExtractStep, dir: Seq<char>, entry: (Seq<char>, Seq<u8>)) -> bool {
    if has_suffix(entry.0, "/"@) {
        step matches ExtractStep::CreateDir(p) && p@ == joined_path(dir, entry.0)
    } else {
        step matches ExtractStep::WriteFile(p, bytes) && p@ == joined_path(dir, entry.0) && bytes@ == entry.1
    }
}

/// What extracting `archive` into `extract_dir` creates: one step per entry, in the
/// archive's order, or the error when the archive cannot be read.
pub fn extraction_plan(extract_dir: &str, archive: &[u8]) -> (r: Result<Vec<ExtractStep>, String>)
    ensures
        match zip_entries(archive@) {
            Err((stage, e)) => r matches Err(m) && m@ == zip_failure_message(stage, e),
            Ok(es) => r matches Ok(steps) && steps.len() == es.len()
                && forall|i: int| 0 <= i < es.len() ==> #[trigger] step_for(steps[i], extract_dir@, es[i]),
        },
{
    match read_zip(archive) {
        Err((stage, e)) => {
            let prefix = match stage {
                ZipStage::OpenArchive => "Failed to read archive: ",
                ZipStage::OpenEntry => "Failed to read archive entry: ",
                ZipStage::ReadEntry => "Failed to extract file: ",
            };
            Err(concat2(prefix, e.as_str()))
        },
        Ok(entries) => {
            let ghost es = zip_entries(archive@)->Ok_0;
            let mut steps: Vec<ExtractStep> = Vec::new();
            let mut i: usize = 0;
            while i < entries.len()
                invariant
                    entries.len() == es.len(),
                    forall|k: int| 0 <= k < entries.len() ==> #[trigger] entries[k].0@ == es[k].0 && entries[k].1@ == es[k].1,
                    i <= entries.len(),
                    steps.len() == i,
                    forall|k: int| 0 <= k < i ==> #[trigger] step_for(steps[k], extract_dir@, es[k]),
                decreases entries.len() - i,
            {
                let name = &entries[i].0;
                let path = join_path(extract_dir, name.as_str());
                let step = if ends_with(name.as_str(), "/") {
                    ExtractStep::CreateDir(path)
                } else {
                    let bytes = entries[i].1.clone();
                    assert(bytes@ =~= entries[i as int].1@);
                    ExtractStep::WriteFile(path, bytes)
                };
                assert(step_for(step, extract_dir@, es[i as int]));
                steps.push(step);
                i = i + 1;
            }
            Ok(steps)
        },
    }
}

} // verus!
