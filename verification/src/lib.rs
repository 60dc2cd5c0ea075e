//! Decides which conditional-compilation flags a package's manifest enables
//! for the toolchain and target at hand, and writes the lines that tell the
//! build so.

pub mod cfg;
pub mod compiler;
pub mod document;
pub mod gather;
pub mod manifest;
pub mod rustc;
pub mod target;
pub mod text;
pub mod version;

use crate::cfg::declarations;
use crate::compiler::{directives, Evaluation, EvaluationModel};
use crate::document::{parsed_document, Tree};
use crate::manifest::{manifest_reading, parse, ManifestError, ManifestErrorModel};
use crate::rustc::VersionData;
use crate::text::{append_texts, texts};
use crate::version::VersionModel;
use vstd::prelude::*;

verus! {

/// The mathematical value of an [`Output`].
pub struct OutputModel {
    pub lines: Seq<Seq<char>>,
    pub error: Option<ManifestErrorModel>,
}

/// What a run writes, and why it stopped early if it did.
#[derive(Debug)]
pub struct Output {
    /// The lines, in the order in which they go out.
    pub lines: Vec<String>,
    /// The error that ended the run, if one did.
    pub error: Option<ManifestError>,
}

impl View for Output {
    type V = OutputModel;

    open spec fn view(&self) -> OutputModel {
        OutputModel {
            lines: texts(self.lines@),
            error: match self.error {
                Some(e) => Some(e@),
                None => None,
            },
        }
    }
}

/// What a run writes for a manifest on a target, against a toolchain, with
/// the given features active and the given answers of the compile probes.
/// The line that asks for a new run comes first, in any case. A manifest
/// that is refused ends the run there. Else come the lines of the satisfied
/// compiler checks, then the declarations of the flags.
pub open spec fn output(
    document: Option<Tree>,
    target: Seq<char>,
    version: VersionModel,
    nightly: bool,
    active: Seq<Seq<char>>,
    answers: Seq<bool>,
) -> OutputModel {
    let first = seq!["cargo:rerun-if-changed=Cargo.toml"@];
    match manifest_reading(document, target) {
        Err(e) => OutputModel { lines: first, error: Some(e) },
        Ok(checks) => OutputModel {
            lines: first + directives(
                EvaluationModel::start(checks.compiler, version, nightly, active).run(
                    answers,
                ).satisfied(),
            ) + declarations(checks.cfgs),
            error: None,
        },
    }
}

/// Two runs on the same manifest text, for the same target, against the
/// same toolchain, with the same features active and the same answers of the
/// probes, write the same lines and end in the same way.
pub proof fn lemma_same_snapshot_same_output(
    first_text: Seq<char>,
    second_text: Seq<char>,
    target: Seq<char>,
    version: VersionModel,
    nightly: bool,
    active: Seq<Seq<char>>,
    answers: Seq<bool>,
)
    requires
        first_text == second_text,
    ensures
        output(parsed_document(first_text), target, version, nightly, active, answers) == output(
            parsed_document(second_text),
            target,
            version,
            nightly,
            active,
            answers,
        ),
{
}

/// A whole run on plain values: the manifest's text, the target's triple,
/// the toolchain's state, the active features, and the answers that the
/// compile probes give, in the order in which they are asked for. Where the
/// answers run out before the probes do, the compiler checks from that probe
/// on stay undecided and write nothing.
pub fn evaluate(
    text: &str,
    target: &str,
    rustc: VersionData,
    features: Vec<String>,
    answers: &Vec<bool>,
) -> (out: Output)
    ensures
        out@ == output(
            parsed_document(text@),
            target@,
            rustc.version@,
            rustc.nightly,
            texts(features@),
            answers@,
        ),
{
    let mut lines: Vec<String> = Vec::new();
    lines.push(rerun_directive());
    assert(texts(lines@) =~= seq!["cargo:rerun-if-changed=Cargo.toml"@]);
    match parse(text, target) {
        Err(e) => Output { lines, error: Some(e) },
        Ok(checks) => {
            let declared = crate::cfg::check(&checks);
            let state = Evaluation::new(checks.compiler, rustc, features).run(answers);
            let switched = crate::compiler::check(&state);
            append_texts(&mut lines, &switched);
            append_texts(&mut lines, &declared);
            Output { lines, error: None }
        },
    }
}

/// The line that goes out before all others, whatever the manifest holds: it
/// asks for a new run when the manifest changes.
pub fn rerun_directive() -> (line: String)
    ensures
        line@ == "cargo:rerun-if-changed=Cargo.toml"@,
{
    "cargo:rerun-if-changed=Cargo.toml".to_owned()
}

} // verus!
