//! Conditions on the compiler, and the constraints of a manifest that hold
//! them: either one condition under a plain name, or a group of conditions
//! under a target predicate.

use crate::document::{
    entry_models, find, find_text, is_text_list, is_text_or_absent, lemma_entry_models,
    listed_texts, lookup, text_field, text_list, text_or_absent, Node, Tree,
};
use crate::gather::{gather, lemma_gather_error, lemma_gather_step};
use crate::manifest::{ManifestError, ManifestErrorModel};
use crate::rustc::VersionData;
use crate::target::{evaluation, holds, TargetError};
use crate::text::{append_texts, has_text, texts};
use crate::version::{range_admits, valid_range, VersionModel, VersionRange};
use vstd::prelude::*;

verus! {

/// The mathematical value of a [`Condition`]: each range by its text.
pub struct ConditionModel {
    pub version: Option<Seq<char>>,
    pub nightly_version: Option<Seq<char>>,
    pub features: Seq<Seq<char>>,
    pub can_compile: Option<Seq<char>>,
}

/// One named decision. Every field may be absent.
#[derive(Debug)]
pub struct Condition {
    /// The range that a stable toolchain's version has to be in.
    pub version: Option<VersionRange>,
    /// The range that a nightly toolchain's version has to be in.
    pub nightly_version: Option<VersionRange>,
    /// Features of the package: where the list is not empty and all of them
    /// are active, the condition holds whatever the toolchain.
    pub features: Vec<String>,
    /// A snippet that has to compile.
    pub can_compile: Option<String>,
}

/// The text of an optional range.
pub open spec fn range_text(range: Option<VersionRange>) -> Option<Seq<char>> {
    match range {
        Some(r) => Some(r@),
        None => None,
    }
}

/// The text of an optional text.
pub open spec fn owned_text(value: Option<String>) -> Option<Seq<char>> {
    match value {
        Some(text) => Some(text@),
        None => None,
    }
}

impl View for Condition {
    type V = ConditionModel;

    open spec fn view(&self) -> ConditionModel {
        ConditionModel {
            version: range_text(self.version),
            nightly_version: range_text(self.nightly_version),
            features: texts(self.features@),
            can_compile: owned_text(self.can_compile),
        }
    }
}

impl Clone for Condition {
    fn clone(&self) -> (c: Condition)
        ensures
            c@ == self@,
    {
        let version = match &self.version {
            Some(range) => Some(range.clone()),
            None => None,
        };
        let nightly_version = match &self.nightly_version {
            Some(range) => Some(range.clone()),
            None => None,
        };
        let mut features: Vec<String> = Vec::new();
        assert(texts(features@) =~= Seq::<Seq<char>>::empty());
        append_texts(&mut features, &self.features);
        assert(texts(features@) =~= texts(self.features@));
        let can_compile = match &self.can_compile {
            Some(text) => Some(text.clone()),
            None => None,
        };
        Condition { version, nightly_version, features, can_compile }
    }
}

impl Default for Condition {
    fn default() -> (c: Condition)
        ensures
            c@ == ConditionModel::empty(),
    {
        Condition::new()
    }
}

impl ConditionModel {
    /// A condition without any field.
    pub open spec fn empty() -> ConditionModel {
        ConditionModel {
            version: None,
            nightly_version: None,
            features: Seq::empty(),
            can_compile: None,
        }
    }

    /// Features are named, and all of them are active.
    pub open spec fn features_satisfied(self, active: Seq<Seq<char>>) -> bool {
        self.features.len() > 0 && forall|i: int|
            0 <= i < self.features.len() ==> active.contains(#[trigger] self.features[i])
    }

    /// The snippet that a compile probe has to be run on before the
    /// condition can be decided: there is a snippet, and the features do not
    /// settle the matter.
    pub open spec fn probe_needed(self, active: Seq<Seq<char>>) -> Option<Seq<char>> {
        if self.features_satisfied(active) {
            None
        } else {
            self.can_compile
        }
    }

    /// No snippet, or a snippet that compiled.
    pub open spec fn check_compiles(self, compiled: bool) -> bool {
        self.can_compile is None || compiled
    }

    /// A nightly toolchain is held to the nightly range alone, a stable one
    /// to the stable range alone. Where that range is absent the check fails.
    pub open spec fn check_version(self, version: VersionModel, nightly: bool) -> bool {
        let range = if nightly {
            self.nightly_version
        } else {
            self.version
        };
        match range {
            Some(text) => range_admits(
                text,
                version.major,
                version.minor,
                version.patch,
                version.tag,
            ),
            None => false,
        }
    }

    /// Satisfied features decide alone. Else the snippet, if any, has to have
    /// compiled, and the version has to be in range.
    pub open spec fn check(
        self,
        version: VersionModel,
        nightly: bool,
        active: Seq<Seq<char>>,
        compiled: bool,
    ) -> bool {
        self.features_satisfied(active) || (self.check_compiles(compiled) && self.check_version(
            version,
            nightly,
        ))
    }
}

impl Condition {
    /// A condition without any field. It holds of no toolchain.
    pub fn new() -> (c: Condition)
        ensures
            c@ == ConditionModel::empty(),
    {
        let c = Condition {
            version: None,
            nightly_version: None,
            features: Vec::new(),
            can_compile: None,
        };
        assert(texts(c.features@) =~= Seq::empty());
        c
    }

    pub fn set_version(self, v: Option<VersionRange>) -> (c: Condition)
        ensures
            c@ == (ConditionModel { version: range_text(v), ..self@ }),
    {
        Condition {
            version: v,
            nightly_version: self.nightly_version,
            features: self.features,
            can_compile: self.can_compile,
        }
    }

    pub fn set_nightly(self, v: Option<VersionRange>) -> (c: Condition)
        ensures
            c@ == (ConditionModel { nightly_version: range_text(v), ..self@ }),
    {
        Condition {
            version: self.version,
            nightly_version: v,
            features: self.features,
            can_compile: self.can_compile,
        }
    }

    pub fn set_features(self, v: Vec<String>) -> (c: Condition)
        ensures
            c@ == (ConditionModel { features: texts(v@), ..self@ }),
    {
        Condition {
            version: self.version,
            nightly_version: self.nightly_version,
            features: v,
            can_compile: self.can_compile,
        }
    }

    pub fn set_can_compile(self, v: Option<String>) -> (c: Condition)
        ensures
            c@ == (ConditionModel { can_compile: owned_text(v), ..self@ }),
    {
        Condition {
            version: self.version,
            nightly_version: self.nightly_version,
            features: self.features,
            can_compile: v,
        }
    }

    /// Whether the condition names features and all of them are among
    /// `active`.
    pub fn features_satisfied(&self, active: &Vec<String>) -> (b: bool)
        ensures
            b == self@.features_satisfied(texts(active@)),
    {
        if self.features.len() == 0 {
            return false;
        }
        let mut i: usize = 0;
        while i < self.features.len()
            invariant
                i <= self.features.len(),
                forall|j: int|
                    0 <= j < i ==> texts(active@).contains(#[trigger] texts(self.features@)[j]),
            decreases self.features.len() - i,
        {
            if !has_text(active, self.features[i].as_str()) {
                assert(!texts(active@).contains(texts(self.features@)[i as int]));
                return false;
            }
            i += 1;
        }
        true
    }

    /// The snippet to run a compile probe on before [`Condition::check`] can
    /// be asked, if there is one.
    pub fn probe_needed(&self, active: &Vec<String>) -> (snippet: Option<&str>)
        ensures
            self@.probe_needed(texts(active@)) == match snippet {
                Some(text) => Some(text@),
                None => None,
            },
    {
        if self.features_satisfied(active) {
            None
        } else {
            match &self.can_compile {
                Some(text) => Some(text.as_str()),
                None => None,
            }
        }
    }

    /// Whether the compile check passes, given what the probe said of the
    /// snippet. Without a snippet it passes.
    pub fn check_compiles(&self, compiled: bool) -> (b: bool)
        ensures
            b == self@.check_compiles(compiled),
    {
        match &self.can_compile {
            Some(_) => compiled,
            None => true,
        }
    }

    /// Whether the toolchain's version is in the range that its channel is
    /// held to.
    pub fn check_version(&self, rustc: &VersionData) -> (b: bool)
        ensures
            b == self@.check_version(rustc.version@, rustc.nightly),
    {
        if rustc.nightly {
            match &self.nightly_version {
                Some(range) => range.matches(&rustc.version),
                None => false,
            }
        } else {
            match &self.version {
                Some(range) => range.matches(&rustc.version),
                None => false,
            }
        }
    }

    /// Whether the condition holds: of this toolchain, with these features
    /// active, and with this answer of the compile probe. The answer is read
    /// only where [`Condition::probe_needed`] names a snippet.
    pub fn check(&self, rustc: &VersionData, active: &Vec<String>, compiled: bool) -> (b: bool)
        ensures
            b == self@.check(rustc.version@, rustc.nightly, texts(active@), compiled),
    {
        if self.features_satisfied(active) {
            true
        } else {
            self.check_compiles(compiled) && self.check_version(rustc)
        }
    }
}

/// A nightly toolchain is held to the nightly range alone. Two conditions
/// with the same nightly range pass or fail the version check together,
/// whatever their stable ranges are; and without a nightly range the check
/// fails, even where the stable range would admit the version.
pub proof fn lemma_nightly_never_reads_stable_range(
    a: ConditionModel,
    b: ConditionModel,
    version: VersionModel,
)
    requires
        a.nightly_version == b.nightly_version,
    ensures
        a.check_version(version, true) == b.check_version(version, true),
        a.nightly_version is None ==> !a.check_version(version, true),
{
}

/// A condition that names features, all of them active, holds of every
/// toolchain, whatever its ranges are and however a compile probe went.
pub proof fn lemma_active_features_decide(
    condition: ConditionModel,
    version: VersionModel,
    nightly: bool,
    active: Seq<Seq<char>>,
    compiled: bool,
)
    requires
        condition.features.len() > 0,
        forall|i: int|
            0 <= i < condition.features.len() ==> active.contains(
                #[trigger] condition.features[i],
            ),
    ensures
        condition.check(version, nightly, active, compiled),
        condition.probe_needed(active) is None,
{
}

/// A condition without any field holds of no toolchain.
pub proof fn lemma_empty_condition_never_holds(
    version: VersionModel,
    nightly: bool,
    active: Seq<Seq<char>>,
    compiled: bool,
)
    ensures
        !ConditionModel::empty().check(version, nightly, active, compiled),
{
}

/// The mathematical value of a [`Constraint`].
pub enum ConstraintModel {
    Cfg(Seq<(Seq<char>, ConditionModel)>),
    Condition(ConditionModel),
}

/// What stands under one key of the manifest's table of compiler checks.
#[derive(Debug)]
pub enum Constraint {
    /// A platform group: its key is a target predicate, and its named
    /// conditions, in the order of the source, exist only for the targets of
    /// which the predicate holds.
    Cfg(Vec<(String, Condition)>),
    /// One condition; its key is its name.
    Condition(Condition),
}

/// The values of named conditions.
pub open spec fn named(list: Seq<(String, Condition)>) -> Seq<(Seq<char>, ConditionModel)> {
    list.map_values(|entry: (String, Condition)| (entry.0@, entry.1@))
}

impl View for Constraint {
    type V = ConstraintModel;

    open spec fn view(&self) -> ConstraintModel {
        match self {
            Constraint::Cfg(members) => ConstraintModel::Cfg(named(members@)),
            Constraint::Condition(condition) => ConstraintModel::Condition(condition@),
        }
    }
}

/// The values of constraints with their keys.
pub open spec fn keyed(list: Seq<(String, Constraint)>) -> Seq<(Seq<char>, ConstraintModel)> {
    list.map_values(|entry: (String, Constraint)| (entry.0@, entry.1@))
}

/// A table in which each of the fields of a condition is absent or of its
/// type: the ranges and the snippet texts, the features a list of texts.
/// Other entries are passed over.
pub open spec fn condition_shaped(node: Tree) -> bool {
    &&& node matches Tree::Table(entries)
    &&& text_or_absent(entries, "version"@)
    &&& text_or_absent(entries, "nightly_version"@)
    &&& text_or_absent(entries, "can_compile"@)
    &&& match lookup(entries, "features"@) {
        None => true,
        Some(list) => is_text_list(list),
    }
}

/// A table all of whose values have the shape of a condition.
pub open spec fn group_shaped(node: Tree) -> bool {
    node matches Tree::Table(entries) && forall|i: int|
        0 <= i < entries.len() ==> condition_shaped((#[trigger] entries[i]).1)
}

/// The condition that a node holds. A node of another shape is a format
/// error; a range that is no range is reported with its text, the stable
/// range before the nightly one.
pub open spec fn decoded_condition(node: Tree) -> Result<ConditionModel, ManifestErrorModel> {
    if !condition_shaped(node) {
        Err(ManifestErrorModel::Format)
    } else {
        let entries = node->Table_0;
        let version = text_field(entries, "version"@);
        let nightly_version = text_field(entries, "nightly_version"@);
        if version is Some && !valid_range(version->0) {
            Err(ManifestErrorModel::MalformedRange(version->0))
        } else if nightly_version is Some && !valid_range(nightly_version->0) {
            Err(ManifestErrorModel::MalformedRange(nightly_version->0))
        } else {
            Ok(
                ConditionModel {
                    version,
                    nightly_version,
                    features: match lookup(entries, "features"@) {
                        Some(list) => listed_texts(list),
                        None => Seq::empty(),
                    },
                    can_compile: text_field(entries, "can_compile"@),
                },
            )
        }
    }
}

/// One entry of a group: its condition under its name.
pub open spec fn member_decoder() -> spec_fn((Seq<char>, Tree)) -> Result<
    Seq<(Seq<char>, ConditionModel)>,
    ManifestErrorModel,
> {
    |entry: (Seq<char>, Tree)|
        match decoded_condition(entry.1) {
            Ok(condition) => Ok(seq![(entry.0, condition)]),
            Err(e) => Err(e),
        }
}

/// The named conditions of a group, in the order of its entries.
pub open spec fn decoded_members(entries: Seq<(Seq<char>, Tree)>) -> Result<
    Seq<(Seq<char>, ConditionModel)>,
    ManifestErrorModel,
> {
    gather(entries, member_decoder())
}

/// The constraint that a node holds. The shape decides which of the two it
/// is, and the shape of a group is tried first: so a table without entries is
/// a group without members.
pub open spec fn decoded_constraint(node: Tree) -> Result<ConstraintModel, ManifestErrorModel> {
    if group_shaped(node) {
        match decoded_members(node->Table_0) {
            Ok(members) => Ok(ConstraintModel::Cfg(members)),
            Err(e) => Err(e),
        }
    } else {
        match decoded_condition(node) {
            Ok(condition) => Ok(ConstraintModel::Condition(condition)),
            Err(e) => Err(e),
        }
    }
}

/// One entry of the table of compiler checks: its constraint under its key.
pub open spec fn constraint_decoder() -> spec_fn((Seq<char>, Tree)) -> Result<
    Seq<(Seq<char>, ConstraintModel)>,
    ManifestErrorModel,
> {
    |entry: (Seq<char>, Tree)|
        match decoded_constraint(entry.1) {
            Ok(constraint) => Ok(seq![(entry.0, constraint)]),
            Err(e) => Err(e),
        }
}

/// The constraints of the table of compiler checks, in the order of its
/// entries.
pub open spec fn decoded_constraints(entries: Seq<(Seq<char>, Tree)>) -> Result<
    Seq<(Seq<char>, ConstraintModel)>,
    ManifestErrorModel,
> {
    gather(entries, constraint_decoder())
}

/// What one constraint adds to the list of checks on the given target: a
/// condition itself; a group its members where its key holds of the target,
/// and nothing where it does not. A key that is no predicate, and a target
/// that is not known, are errors, in this order.
pub open spec fn contribution(target: Seq<char>) -> spec_fn((Seq<char>, ConstraintModel)) -> Result<
    Seq<(Seq<char>, ConditionModel)>,
    ManifestErrorModel,
> {
    |entry: (Seq<char>, ConstraintModel)|
        match entry.1 {
            ConstraintModel::Condition(condition) => Ok(seq![(entry.0, condition)]),
            ConstraintModel::Cfg(members) => match evaluation(entry.0, target) {
                Ok(holds) => Ok(
                    if holds {
                        members
                    } else {
                        Seq::empty()
                    },
                ),
                Err(TargetError::InvalidExpression) => Err(
                    ManifestErrorModel::InvalidExpression(entry.0),
                ),
                Err(TargetError::UnknownTarget) => Err(ManifestErrorModel::UnknownTarget(target)),
            },
        }
}

/// The checks that a list of constraints amounts to on the given target:
/// what each constraint adds, in the order of the list.
pub open spec fn flattened(
    constraints: Seq<(Seq<char>, ConstraintModel)>,
    target: Seq<char>,
) -> Result<Seq<(Seq<char>, ConditionModel)>, ManifestErrorModel> {
    gather(constraints, contribution(target))
}

/// The number of plain conditions among the constraints.
pub open spec fn plain_entries(constraints: Seq<(Seq<char>, ConstraintModel)>) -> nat
    decreases constraints.len(),
{
    if constraints.len() == 0 {
        0
    } else {
        plain_entries(constraints.drop_last()) + match constraints.last().1 {
            ConstraintModel::Condition(_) => 1nat,
            ConstraintModel::Cfg(_) => 0nat,
        }
    }
}

/// The number of members of the groups whose key holds of the target.
pub open spec fn matching_members(
    constraints: Seq<(Seq<char>, ConstraintModel)>,
    target: Seq<char>,
) -> nat
    decreases constraints.len(),
{
    if constraints.len() == 0 {
        0
    } else {
        matching_members(constraints.drop_last(), target) + match constraints.last().1 {
            ConstraintModel::Cfg(members) => if evaluation(constraints.last().0, target) == Ok::<
                bool,
                TargetError,
            >(true) {
                members.len()
            } else {
                0nat
            },
            ConstraintModel::Condition(_) => 0nat,
        }
    }
}

/// Where the constraints can be resolved against the target, there are as
/// many checks as there are plain conditions and members of groups that
/// hold of the target, together. Their order is that of the manifest, by
/// [`flattened`].
pub proof fn lemma_entry_count(constraints: Seq<(Seq<char>, ConstraintModel)>, target: Seq<char>)
    requires
        flattened(constraints, target) is Ok,
    ensures
        flattened(constraints, target)->Ok_0.len() == plain_entries(constraints)
            + matching_members(constraints, target),
    decreases constraints.len(),
{
    if constraints.len() > 0 {
        lemma_entry_count(constraints.drop_last(), target);
    }
}

/// Constraints without a group amount to themselves, whatever the target.
pub proof fn lemma_plain_entries_pass_through(
    constraints: Seq<(Seq<char>, ConstraintModel)>,
    target: Seq<char>,
)
    requires
        forall|i: int| 0 <= i < constraints.len() ==> (#[trigger] constraints[i]).1 is Condition,
    ensures
        flattened(constraints, target) is Ok,
        flattened(constraints, target)->Ok_0.len() == constraints.len(),
        forall|i: int|
            0 <= i < constraints.len() ==> (#[trigger] flattened(constraints, target)->Ok_0[i])
                == (constraints[i].0, constraints[i].1->Condition_0),
    decreases constraints.len(),
{
    if constraints.len() > 0 {
        let shorter = constraints.drop_last();
        assert forall|i: int| 0 <= i < shorter.len() implies (#[trigger] shorter[i]).1
            is Condition by {
            assert(shorter[i] == constraints[i]);
        }
        lemma_plain_entries_pass_through(shorter, target);
        assert(constraints.last() == constraints[constraints.len() - 1]);
    }
}

/// The value of a list of named conditions, or of the error in its place.
pub open spec fn named_result(r: Result<Vec<(String, Condition)>, ManifestError>) -> Result<
    Seq<(Seq<char>, ConditionModel)>,
    ManifestErrorModel,
> {
    match r {
        Ok(list) => Ok(named(list@)),
        Err(e) => Err(e@),
    }
}

/// Whether a node has the shape of a condition.
pub fn is_condition_shaped(node: &Node) -> (b: bool)
    ensures
        b == condition_shaped(node@),
{
    match node {
        Node::Table(entries) => {
            is_text_or_absent(entries, "version") && is_text_or_absent(entries, "nightly_version")
                && is_text_or_absent(entries, "can_compile") && match find(entries, "features") {
                None => true,
                Some(list) => text_list(list).is_some(),
            }
        },
        _ => false,
    }
}

/// Whether a node has the shape of a group.
pub fn is_group_shaped(node: &Node) -> (b: bool)
    ensures
        b == group_shaped(node@),
{
    match node {
        Node::Table(entries) => {
            let mut i: usize = 0;
            proof {
                lemma_entry_models(*entries);
            }
            while i < entries.len()
                invariant
                    *node == Node::Table(*entries),
                    i <= entries.len(),
                    node@->Table_0.len() == entries@.len(),
                    forall|j: int|
                        0 <= j < entries@.len() ==> (#[trigger] node@->Table_0[j]).1
                            == entries@[j].1@,
                    forall|j: int| 0 <= j < i ==> condition_shaped((#[trigger] entries@[j]).1@),
                decreases entries.len() - i,
            {
                if !is_condition_shaped(&entries[i].1) {
                    assert(!condition_shaped(node@->Table_0[i as int].1));
                    return false;
                }
                i += 1;
            }
            assert forall|j: int| 0 <= j < node@->Table_0.len() implies condition_shaped(
                (#[trigger] node@->Table_0[j]).1,
            ) by {
                assert(condition_shaped(entries@[j].1@));
            }
            true
        },
        _ => false,
    }
}

/// Reads the range under `key`, if there is a text under it.
fn decode_range(entries: &Vec<(String, Node)>, key: &str) -> (r: Result<
    Option<VersionRange>,
    ManifestError,
>)
    ensures
        match r {
            Ok(range) => range_text(range) == text_field(entry_models(*entries), key@) && (range
                is Some ==> valid_range(range->0@)),
            Err(e) => text_field(entry_models(*entries), key@) is Some && !valid_range(
                text_field(entry_models(*entries), key@)->0,
            ) && e@ == ManifestErrorModel::MalformedRange(
                text_field(entry_models(*entries), key@)->0,
            ),
        },
{
    match find_text(entries, key) {
        Some(text) => match VersionRange::parse(text.as_str()) {
            Ok(range) => Ok(Some(range)),
            Err(e) => Err(ManifestError::MalformedRange(e.text)),
        },
        None => Ok(None),
    }
}

/// Reads a condition from a node.
pub fn decode_condition(node: &Node) -> (r: Result<Condition, ManifestError>)
    ensures
        decoded_condition(node@) == match r {
            Ok(condition) => Ok::<ConditionModel, ManifestErrorModel>(condition@),
            Err(e) => Err(e@),
        },
{
    if !is_condition_shaped(node) {
        return Err(ManifestError::Format);
    }
    match node {
        Node::Table(entries) => {
            let version = match decode_range(entries, "version") {
                Ok(range) => range,
                Err(e) => {
                    return Err(e);
                },
            };
            let nightly_version = match decode_range(entries, "nightly_version") {
                Ok(range) => range,
                Err(e) => {
                    return Err(e);
                },
            };
            let features = match find(entries, "features") {
                Some(list) => match text_list(list) {
                    Some(names) => names,
                    None => Vec::new(),
                },
                None => Vec::new(),
            };
            assert(texts(Seq::<String>::empty()) =~= Seq::<Seq<char>>::empty());
            let can_compile = match find_text(entries, "can_compile") {
                Some(text) => Some(text.clone()),
                None => None,
            };
            Ok(Condition { version, nightly_version, features, can_compile })
        },
        _ => Err(ManifestError::Format),
    }
}

/// Reads the named conditions of a group.
pub fn decode_members(entries: &Vec<(String, Node)>) -> (r: Result<
    Vec<(String, Condition)>,
    ManifestError,
>)
    ensures
        named_result(r) == decoded_members(entry_models(*entries)),
{
    let mut out: Vec<(String, Condition)> = Vec::new();
    let mut i: usize = 0;
    let ghost all = entry_models(*entries);
    proof {
        lemma_entry_models(*entries);
    }
    assert(named(out@) =~= Seq::empty());
    while i < entries.len()
        invariant
            i <= entries.len(),
            all == entry_models(*entries),
            all.len() == entries@.len(),
            forall|j: int|
                0 <= j < entries@.len() ==> #[trigger] all[j] == (entries@[j].0@, entries@[j].1@),
            gather(all.take(i as int), member_decoder()) == Ok::<_, ManifestErrorModel>(
                named(out@),
            ),
        decreases entries.len() - i,
    {
        proof {
            lemma_gather_step(all, member_decoder(), i as int);
        }
        match decode_condition(&entries[i].1) {
            Ok(condition) => {
                let ghost before = named(out@);
                out.push((entries[i].0.clone(), condition));
                assert(named(out@) =~= before + seq![(entries@[i as int].0@, condition@)]);
            },
            Err(e) => {
                proof {
                    lemma_gather_error(all, member_decoder(), i as int + 1);
                }
                return Err(e);
            },
        }
        i += 1;
    }
    assert(all.take(entries.len() as int) =~= all);
    Ok(out)
}

/// Reads a constraint from a node.
pub fn decode_constraint(node: &Node) -> (r: Result<Constraint, ManifestError>)
    ensures
        decoded_constraint(node@) == match r {
            Ok(constraint) => Ok::<ConstraintModel, ManifestErrorModel>(constraint@),
            Err(e) => Err(e@),
        },
{
    if is_group_shaped(node) {
        match node {
            Node::Table(entries) => match decode_members(entries) {
                Ok(members) => Ok(Constraint::Cfg(members)),
                Err(e) => Err(e),
            },
            _ => Err(ManifestError::Format),
        }
    } else {
        match decode_condition(node) {
            Ok(condition) => Ok(Constraint::Condition(condition)),
            Err(e) => Err(e),
        }
    }
}

/// Reads the constraints of the table of compiler checks.
pub fn decode_constraints(entries: &Vec<(String, Node)>) -> (r: Result<
    Vec<(String, Constraint)>,
    ManifestError,
>)
    ensures
        decoded_constraints(entry_models(*entries)) == match r {
            Ok(list) => Ok::<_, ManifestErrorModel>(keyed(list@)),
            Err(e) => Err(e@),
        },
{
    let mut out: Vec<(String, Constraint)> = Vec::new();
    let mut i: usize = 0;
    let ghost all = entry_models(*entries);
    proof {
        lemma_entry_models(*entries);
    }
    assert(keyed(out@) =~= Seq::empty());
    while i < entries.len()
        invariant
            i <= entries.len(),
            all == entry_models(*entries),
            all.len() == entries@.len(),
            forall|j: int|
                0 <= j < entries@.len() ==> #[trigger] all[j] == (entries@[j].0@, entries@[j].1@),
            gather(all.take(i as int), constraint_decoder()) == Ok::<_, ManifestErrorModel>(
                keyed(out@),
            ),
        decreases entries.len() - i,
    {
        proof {
            lemma_gather_step(all, constraint_decoder(), i as int);
        }
        match decode_constraint(&entries[i].1) {
            Ok(constraint) => {
                let ghost before = keyed(out@);
                out.push((entries[i].0.clone(), constraint));
                assert(keyed(out@) =~= before + seq![(entries@[i as int].0@, constraint@)]);
            },
            Err(e) => {
                proof {
                    lemma_gather_error(all, constraint_decoder(), i as int + 1);
                }
                return Err(e);
            },
        }
        i += 1;
    }
    assert(all.take(entries.len() as int) =~= all);
    Ok(out)
}

/// Adds copies of the named conditions of `more` at the end of `list`.
fn append_named(list: &mut Vec<(String, Condition)>, more: &Vec<(String, Condition)>)
    ensures
        named(final(list)@) == named(old(list)@) + named(more@),
{
    let mut i: usize = 0;
    assert(named(list@) =~= named(old(list)@) + named(more@.take(0)));
    while i < more.len()
        invariant
            i <= more.len(),
            named(list@) == named(old(list)@) + named(more@.take(i as int)),
        decreases more.len() - i,
    {
        let ghost before = named(list@);
        let condition = more[i].1.clone();
        list.push((more[i].0.clone(), condition));
        assert(named(list@) =~= before.push((more@[i as int].0@, more@[i as int].1@)));
        assert(named(more@.take(i as int + 1)) =~= named(more@.take(i as int)).push(
            (more@[i as int].0@, more@[i as int].1@),
        ));
        i += 1;
    }
    assert(more@.take(more.len() as int) =~= more@);
}

/// Resolves the platform groups against the target: the checks that the
/// constraints amount to, in the order of the manifest, each group's members
/// in the group's place.
pub fn parse_compiler_checks(compiler_checks: &Vec<(String, Constraint)>, target: &str) -> (r:
    Result<Vec<(String, Condition)>, ManifestError>)
    ensures
        named_result(r) == flattened(keyed(compiler_checks@), target@),
{
    let mut ret: Vec<(String, Condition)> = Vec::new();
    let mut i: usize = 0;
    let ghost all = keyed(compiler_checks@);
    assert(named(ret@) =~= Seq::empty());
    while i < compiler_checks.len()
        invariant
            i <= compiler_checks.len(),
            all == keyed(compiler_checks@),
            gather(all.take(i as int), contribution(target@)) == Ok::<_, ManifestErrorModel>(
                named(ret@),
            ),
        decreases compiler_checks.len() - i,
    {
        proof {
            lemma_gather_step(all, contribution(target@), i as int);
        }
        let key = &compiler_checks[i].0;
        match &compiler_checks[i].1 {
            Constraint::Condition(condition) => {
                let ghost before = named(ret@);
                let copy = condition.clone();
                ret.push((key.clone(), copy));
                assert(named(ret@) =~= before + seq![(key@, condition@)]);
            },
            Constraint::Cfg(members) => {
                match holds(key.as_str(), target) {
                    Ok(holds) => {
                        if holds {
                            append_named(&mut ret, members);
                        } else {
                            assert(named(ret@) + Seq::empty() =~= named(ret@));
                        }
                    },
                    Err(TargetError::InvalidExpression) => {
                        proof {
                            lemma_gather_error(all, contribution(target@), i as int + 1);
                        }
                        return Err(ManifestError::InvalidExpression(key.clone()));
                    },
                    Err(TargetError::UnknownTarget) => {
                        proof {
                            lemma_gather_error(all, contribution(target@), i as int + 1);
                        }
                        return Err(ManifestError::UnknownTarget(target.to_owned()));
                    },
                }
            },
        }
        i += 1;
    }
    assert(all.take(compiler_checks.len() as int) =~= all);
    Ok(ret)
}

} // verus!
