//! The toolchain: which compiler to run, what its version banner says, and
//! the command that probes whether a snippet compiles. Running the compiler
//! is the caller's part; what is decided here is what to run and how to read
//! what came back.

use crate::text::{append_texts, pieces, push_text, split, texts};
use crate::version::{parsed_version, SemanticVersion, VersionModel};
use vstd::prelude::*;

verus! {

/// The state of the installed toolchain: its version, and whether it is of
/// the nightly channel.
#[derive(Clone, Debug)]
pub struct VersionData {
    pub version: SemanticVersion,
    pub nightly: bool,
}

impl VersionData {
    pub fn new(version: SemanticVersion, nightly: bool) -> (data: VersionData)
        ensures
            data.version == version,
            data.nightly == nightly,
    {
        VersionData { version, nightly }
    }
}

/// Why a version banner could not be read.
#[derive(Clone, Copy, Debug, PartialEq, Eq, Structural)]
pub enum ProbeError {
    /// The banner has fewer than six lines.
    MissingReleaseLine,
    /// The sixth line is not of the form `release: <version>`.
    NotReleaseForm,
    /// What stands for the version is none.
    InvalidVersion,
}

/// The text of an optional text.
pub open spec fn text_of(value: Option<&str>) -> Option<Seq<char>> {
    match value {
        Some(text) => Some(text@),
        None => None,
    }
}

/// The compiler to run: `rustc` where it is set, else `cargo_build_rustc`
/// where that is set, else the program named `rustc`.
pub open spec fn chosen_compiler(
    rustc: Option<Seq<char>>,
    cargo_build_rustc: Option<Seq<char>>,
) -> Seq<char> {
    match rustc {
        Some(path) => path,
        None => match cargo_build_rustc {
            Some(path) => path,
            None => "rustc"@,
        },
    }
}

/// Picks the compiler to run from the two overrides that the environment may
/// hold.
pub fn get_rustc(rustc: Option<&str>, cargo_build_rustc: Option<&str>) -> (path: String)
    ensures
        path@ == chosen_compiler(text_of(rustc), text_of(cargo_build_rustc)),
{
    match rustc {
        Some(path) => path.to_owned(),
        None => match cargo_build_rustc {
            Some(path) => path.to_owned(),
            None => "rustc".to_owned(),
        },
    }
}

/// What a version banner says: its sixth line is cut at spaces, the first
/// word has to be `release:`, and the second is cut at hyphens. What stands
/// before the first hyphen is the version; the toolchain is a nightly one
/// where `nightly` stands right behind that hyphen.
pub open spec fn banner_reading(banner: Seq<char>) -> Result<(VersionModel, bool), ProbeError> {
    let lines = pieces(banner, '\n');
    if lines.len() <= 5 {
        Err(ProbeError::MissingReleaseLine)
    } else {
        let words = pieces(lines[5], ' ');
        if words.len() <= 1 || words[0] != "release:"@ {
            Err(ProbeError::NotReleaseForm)
        } else {
            let parts = pieces(words[1], '-');
            match parsed_version(parts[0]) {
                None => Err(ProbeError::InvalidVersion),
                Some(v) => Ok(
                    (
                        VersionModel { major: v.0, minor: v.1, patch: v.2, tag: v.3 },
                        parts.len() > 1 && parts[1] == "nightly"@,
                    ),
                ),
            }
        }
    }
}

impl VersionData {
    /// Reads the toolchain's state from the banner that the compiler prints
    /// for `--version --verbose`.
    pub fn from_banner(banner: &str) -> (r: Result<VersionData, ProbeError>)
        ensures
            match r {
                Ok(data) => banner_reading(banner@) == Ok::<_, ProbeError>(
                    (data.version@, data.nightly),
                ),
                Err(e) => banner_reading(banner@) == Err::<(VersionModel, bool), _>(e),
            },
    {
        let lines = split(banner, '\n');
        if lines.len() <= 5 {
            return Err(ProbeError::MissingReleaseLine);
        }
        let words = split(lines[5].as_str(), ' ');
        if words.len() <= 1 || !words[0].as_str().eq("release:") {
            return Err(ProbeError::NotReleaseForm);
        }
        let parts = split(words[1].as_str(), '-');
        proof {
            crate::text::lemma_pieces(words@[1]@, '-');
        }
        match SemanticVersion::parse(parts[0].as_str()) {
            None => Err(ProbeError::InvalidVersion),
            Some(version) => {
                let nightly = parts.len() > 1 && parts[1].as_str().eq("nightly");
                Ok(VersionData { version, nightly })
            },
        }
    }
}

/// A command to run: the program, its arguments in order, and the text to
/// write to its standard input.
#[derive(Clone, Debug)]
pub struct ProbeCommand {
    pub program: String,
    pub arguments: Vec<String>,
    pub input: String,
}

/// The arguments of a compile probe. Behind a wrapper the compiler is the
/// first of them. Then come the flags that keep the work small (a library,
/// metadata only), the target, and the directory for what the compiler
/// writes; then the extra flags, where the encoded list is set and not
/// empty, cut at the unit separator; last `-`, for "read standard input".
pub open spec fn probe_arguments(
    rustc: Seq<char>,
    wrapper: Option<Seq<char>>,
    target: Seq<char>,
    out_dir: Seq<char>,
    encoded_flags: Option<Seq<char>>,
) -> Seq<Seq<char>> {
    let lead = match wrapper {
        Some(_) => seq![rustc],
        None => Seq::<Seq<char>>::empty(),
    };
    let fixed = seq![
        "--crate-type=rlib"@,
        "--emit=metadata"@,
        "--target"@,
        target,
        "--out-dir"@,
        out_dir,
    ];
    let extra = match encoded_flags {
        Some(flags) => if flags.len() > 0 {
            pieces(flags, '\u{1f}')
        } else {
            Seq::<Seq<char>>::empty()
        },
        None => Seq::<Seq<char>>::empty(),
    };
    lead + fixed + extra + seq!["-"@]
}

/// The command that probes whether `snippet` compiles: the wrapper, where
/// there is one, else the compiler; the arguments of [`probe_arguments`];
/// and the snippet with a line end as input.
pub fn probe_command(
    snippet: &str,
    rustc: &str,
    wrapper: Option<&str>,
    target: &str,
    out_dir: &str,
    encoded_flags: Option<&str>,
) -> (command: ProbeCommand)
    ensures
        command.program@ == match wrapper {
            Some(path) => path@,
            None => rustc@,
        },
        texts(command.arguments@) == probe_arguments(
            rustc@,
            text_of(wrapper),
            target@,
            out_dir@,
            text_of(encoded_flags),
        ),
        command.input@ == snippet@ + "\n"@,
{
    let mut arguments: Vec<String> = Vec::new();
    assert(texts(arguments@) =~= Seq::<Seq<char>>::empty());
    let program = match wrapper {
        Some(path) => {
            push_text(&mut arguments, rustc);
            path.to_owned()
        },
        None => rustc.to_owned(),
    };
    let ghost lead = texts(arguments@);
    push_text(&mut arguments, "--crate-type=rlib");
    push_text(&mut arguments, "--emit=metadata");
    push_text(&mut arguments, "--target");
    push_text(&mut arguments, target);
    push_text(&mut arguments, "--out-dir");
    push_text(&mut arguments, out_dir);
    let ghost fixed = seq![
        "--crate-type=rlib"@,
        "--emit=metadata"@,
        "--target"@,
        target@,
        "--out-dir"@,
        out_dir@,
    ];
    assert(texts(arguments@) =~= lead + fixed);
    match encoded_flags {
        Some(flags) => {
            if flags.unicode_len() > 0 {
                let extra = split(flags, '\u{1f}');
                append_texts(&mut arguments, &extra);
            }
        },
        None => {},
    }
    push_text(&mut arguments, "-");
    assert(texts(arguments@) =~= probe_arguments(
        rustc@,
        text_of(wrapper),
        target@,
        out_dir@,
        text_of(encoded_flags),
    ));
    let mut input = snippet.to_owned();
    input.append("\n");
    ProbeCommand { program, arguments, input }
}

/// What a compile probe says of its snippet, from how the run of the
/// compiler went: whether it could be started, whether the snippet could be
/// written to it, and whether it ended with success (`None` where its end
/// could not be waited for). The snippet compiled only where all three went
/// well; a compiler that cannot be run counts as a snippet that does not
/// compile.
pub fn probe_outcome(started: bool, written: bool, exit_success: Option<bool>) -> (compiled:
    bool)
    ensures
        compiled == (started && written && exit_success == Some(true)),
{
    if !started || !written {
        false
    } else {
        match exit_success {
            Some(success) => success,
            None => false,
        }
    }
}

} // verus!
