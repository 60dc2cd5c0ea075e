//! What a manifest asks for: read from the section
//! `package.metadata.toml_describe` of the document.

pub mod compiler;

use crate::document::{
    entry_models, find, is_text_list, lemma_entry_models, listed_texts, lookup, parse_document,
    parsed_document, subtable, text_list, Node, Tree,
};
use crate::gather::{gather, lemma_gather_error, lemma_gather_step};
use crate::manifest::compiler::{
    decode_constraints, decoded_constraints, flattened, named, parse_compiler_checks, Condition,
    ConditionModel,
};
use crate::text::texts;
use vstd::prelude::*;

verus! {

/// The mathematical value of a [`ManifestError`].
pub enum ManifestErrorModel {
    Format,
    MalformedRange(Seq<char>),
    InvalidExpression(Seq<char>),
    UnknownTarget(Seq<char>),
}

/// Why a manifest was refused. None of these is skipped over: the first one
/// met ends the reading.
#[derive(Clone, Debug, PartialEq, Eq)]
pub enum ManifestError {
    /// The text is no document, the section is missing, or something in it
    /// has the wrong shape.
    Format,
    /// A version range is malformed; the range's text.
    MalformedRange(String),
    /// The key of a platform group is no target predicate; the key.
    InvalidExpression(String),
    /// There is a platform group, and the target is not a known one; the
    /// target's triple.
    UnknownTarget(String),
}

impl View for ManifestError {
    type V = ManifestErrorModel;

    open spec fn view(&self) -> ManifestErrorModel {
        match self {
            ManifestError::Format => ManifestErrorModel::Format,
            ManifestError::MalformedRange(text) => ManifestErrorModel::MalformedRange(text@),
            ManifestError::InvalidExpression(key) => ManifestErrorModel::InvalidExpression(key@),
            ManifestError::UnknownTarget(triple) => ManifestErrorModel::UnknownTarget(triple@),
        }
    }
}

/// The mathematical value of [`Checks`].
pub struct ChecksModel {
    pub compiler: Seq<(Seq<char>, ConditionModel)>,
    pub cfgs: Seq<(Seq<char>, Option<Seq<Seq<char>>>)>,
}

/// What a manifest asks for on one target.
#[derive(Debug)]
pub struct Checks {
    /// The named conditions on the compiler, in the order of the manifest,
    /// with the members of each platform group that holds of the target in
    /// the group's place.
    pub compiler: Vec<(String, Condition)>,
    /// The names of the flags that the package's code may test, each with the
    /// values it may take, or `None` for a flag without values.
    pub cfgs: Vec<(String, Option<Vec<String>>)>,
}

/// The values of the declared flags.
pub open spec fn declared(list: Seq<(String, Option<Vec<String>>)>) -> Seq<
    (Seq<char>, Option<Seq<Seq<char>>>),
> {
    list.map_values(
        |entry: (String, Option<Vec<String>>)|
            (
                entry.0@,
                match entry.1 {
                    Some(values) => Some(texts(values@)),
                    None => None,
                },
            ),
    )
}

impl View for Checks {
    type V = ChecksModel;

    open spec fn view(&self) -> ChecksModel {
        ChecksModel { compiler: named(self.compiler@), cfgs: declared(self.cfgs@) }
    }
}

impl Checks {
    /// No checks at all.
    pub fn new() -> (checks: Checks)
        ensures
            checks@ == (ChecksModel { compiler: Seq::empty(), cfgs: Seq::empty() }),
    {
        let checks = Checks { compiler: Vec::new(), cfgs: Vec::new() };
        assert(named(checks.compiler@) =~= Seq::empty());
        assert(declared(checks.cfgs@) =~= Seq::empty());
        checks
    }
}

impl Default for Checks {
    fn default() -> (checks: Checks)
        ensures
            checks@ == (ChecksModel { compiler: Seq::empty(), cfgs: Seq::empty() }),
    {
        Checks::new()
    }
}

/// The entries of the table `package.metadata.toml_describe`, where the
/// document has one.
pub open spec fn section(document: Tree) -> Option<Seq<(Seq<char>, Tree)>> {
    match document {
        Tree::Table(root) => match lookup(root, "package"@) {
            Some(Tree::Table(package)) => match lookup(package, "metadata"@) {
                Some(Tree::Table(metadata)) => match lookup(metadata, "toml_describe"@) {
                    Some(Tree::Table(entries)) => Some(entries),
                    _ => None,
                },
                _ => None,
            },
            _ => None,
        },
        _ => None,
    }
}

/// One entry of the table of declared flags: the flag's name with its
/// values, which have to be a list of texts. An empty list declares a flag
/// without values.
pub open spec fn cfg_decoder() -> spec_fn((Seq<char>, Tree)) -> Result<
    Seq<(Seq<char>, Option<Seq<Seq<char>>>)>,
    ManifestErrorModel,
> {
    |entry: (Seq<char>, Tree)|
        if is_text_list(entry.1) {
            let values = listed_texts(entry.1);
            Ok(
                seq![
                    (
                        entry.0,
                        if values.len() == 0 {
                            None
                        } else {
                            Some(values)
                        },
                    ),
                ],
            )
        } else {
            Err(ManifestErrorModel::Format)
        }
}

/// The declared flags, in the order of the table's entries.
pub open spec fn decoded_cfgs(entries: Seq<(Seq<char>, Tree)>) -> Result<
    Seq<(Seq<char>, Option<Seq<Seq<char>>>)>,
    ManifestErrorModel,
> {
    gather(entries, cfg_decoder())
}

/// What a document asks for on a target. The section has to be there; each
/// of its two tables may be missing, and is then taken as empty. Both tables
/// are read before the platform groups are resolved, so that an error in the
/// document's shape or in a range comes before one in a group's key or in
/// the target.
pub open spec fn manifest_reading(document: Option<Tree>, target: Seq<char>) -> Result<
    ChecksModel,
    ManifestErrorModel,
> {
    match document {
        None => Err(ManifestErrorModel::Format),
        Some(root) => match section(root) {
            None => Err(ManifestErrorModel::Format),
            Some(entries) => match subtable(entries, "compiler_checks"@) {
                Err(_) => Err(ManifestErrorModel::Format),
                Ok(check_entries) => match decoded_constraints(check_entries) {
                    Err(e) => Err(e),
                    Ok(constraints) => match subtable(entries, "allowed_cfgs"@) {
                        Err(_) => Err(ManifestErrorModel::Format),
                        Ok(cfg_entries) => match decoded_cfgs(cfg_entries) {
                            Err(e) => Err(e),
                            Ok(cfgs) => match flattened(constraints, target) {
                                Err(e) => Err(e),
                                Ok(compiler) => Ok(ChecksModel { compiler, cfgs }),
                            },
                        },
                    },
                },
            },
        },
    }
}

/// The value of the checks, or of the error in their place.
pub open spec fn checks_result(r: Result<Checks, ManifestError>) -> Result<
    ChecksModel,
    ManifestErrorModel,
> {
    match r {
        Ok(checks) => Ok(checks@),
        Err(e) => Err(e@),
    }
}

/// Finds the table `package.metadata.toml_describe`.
pub fn find_section(document: &Node) -> (r: Option<&Vec<(String, Node)>>)
    ensures
        section(document@) == match r {
            Some(entries) => Some(entry_models(*entries)),
            None => None,
        },
{
    match document {
        Node::Table(root) => match find(root, "package") {
            Some(Node::Table(package)) => match find(package, "metadata") {
                Some(Node::Table(metadata)) => match find(metadata, "toml_describe") {
                    Some(Node::Table(entries)) => Some(entries),
                    _ => None,
                },
                _ => None,
            },
            _ => None,
        },
        _ => None,
    }
}

/// Reads the table of declared flags.
pub fn decode_cfgs(entries: &Vec<(String, Node)>) -> (r: Result<
    Vec<(String, Option<Vec<String>>)>,
    ManifestError,
>)
    ensures
        decoded_cfgs(entry_models(*entries)) == match r {
            Ok(list) => Ok::<_, ManifestErrorModel>(declared(list@)),
            Err(e) => Err(e@),
        },
{
    let mut out: Vec<(String, Option<Vec<String>>)> = Vec::new();
    let mut i: usize = 0;
    let ghost all = entry_models(*entries);
    proof {
        lemma_entry_models(*entries);
    }
    assert(declared(out@) =~= Seq::empty());
    while i < entries.len()
        invariant
            i <= entries.len(),
            all == entry_models(*entries),
            all.len() == entries@.len(),
            forall|j: int|
                0 <= j < entries@.len() ==> #[trigger] all[j] == (entries@[j].0@, entries@[j].1@),
            gather(all.take(i as int), cfg_decoder()) == Ok::<_, ManifestErrorModel>(
                declared(out@),
            ),
        decreases entries.len() - i,
    {
        proof {
            lemma_gather_step(all, cfg_decoder(), i as int);
        }
        match text_list(&entries[i].1) {
            Some(values) => {
                let ghost before = declared(out@);
                let ghost value_texts = texts(values@);
                let allowed = if values.len() == 0 {
                    None
                } else {
                    Some(values)
                };
                out.push((entries[i].0.clone(), allowed));
                assert(declared(out@) =~= before + seq![
                    (
                        entries@[i as int].0@,
                        if value_texts.len() == 0 {
                            None
                        } else {
                            Some(value_texts)
                        },
                    ),
                ]);
            },
            None => {
                proof {
                    lemma_gather_error(all, cfg_decoder(), i as int + 1);
                }
                return Err(ManifestError::Format);
            },
        }
        i += 1;
    }
    assert(all.take(entries.len() as int) =~= all);
    Ok(out)
}

/// Reads what a document asks for on the target with the given triple.
pub fn read(document: &Node, target: &str) -> (r: Result<Checks, ManifestError>)
    ensures
        checks_result(r) == manifest_reading(Some(document@), target@),
{
    let entries = match find_section(document) {
        Some(entries) => entries,
        None => {
            return Err(ManifestError::Format);
        },
    };
    let empty: Vec<(String, Node)> = Vec::new();
    proof {
        lemma_entry_models(empty);
        assert(entry_models(empty) =~= Seq::empty());
    }
    let check_entries = match find(entries, "compiler_checks") {
        None => &empty,
        Some(Node::Table(inner)) => inner,
        Some(_) => {
            return Err(ManifestError::Format);
        },
    };
    let constraints = match decode_constraints(check_entries) {
        Ok(constraints) => constraints,
        Err(e) => {
            return Err(e);
        },
    };
    let cfg_entries = match find(entries, "allowed_cfgs") {
        None => &empty,
        Some(Node::Table(inner)) => inner,
        Some(_) => {
            return Err(ManifestError::Format);
        },
    };
    let cfgs = match decode_cfgs(cfg_entries) {
        Ok(cfgs) => cfgs,
        Err(e) => {
            return Err(e);
        },
    };
    match parse_compiler_checks(&constraints, target) {
        Ok(compiler) => Ok(Checks { compiler, cfgs }),
        Err(e) => Err(e),
    }
}

/// Reads what a manifest's text asks for on the target with the given
/// triple.
pub fn parse(text: &str, target: &str) -> (r: Result<Checks, ManifestError>)
    ensures
        checks_result(r) == manifest_reading(parsed_document(text@), target@),
{
    match parse_document(text) {
        Some(document) => read(&document, target),
        None => Err(ManifestError::Format),
    }
}

} // verus!
