//! Target predicates: boolean expressions over the attributes of a build
//! target, such as `cfg(all(unix, target_arch = "x86_64"))`. Their grammar,
//! the table of known targets and the evaluation are `cfg_expr`'s.

use crate::text::{count, count_char};
use cfg_expr::targets::get_builtin_target_by_triple;
use cfg_expr::{Expression, Predicate};
use vstd::prelude::*;

verus! {

/// The number of opening brackets from which on an expression is refused
/// unread.
pub const BRACKET_LIMIT: usize = 250;

/// A text with fewer opening brackets than [`BRACKET_LIMIT`]. Only such a
/// text is handed to the parser.
pub open spec fn readable(expr: Seq<char>) -> bool {
    count(expr, '(') < BRACKET_LIMIT
}

/// Whether `cfg_expr` accepts a text as an expression (`Expression::parse`).
pub uninterp spec fn valid_expression(expr: Seq<char>) -> bool;

/// Whether `cfg_expr`'s table of built-in targets holds a triple
/// (`get_builtin_target_by_triple`).
pub uninterp spec fn known_target(triple: Seq<char>) -> bool;

/// The value of an expression on a target (`Expression::eval`), where each
/// leaf has the value that [`leaf_value`] gives it.
pub uninterp spec fn holds_on_target(expr: Seq<char>, triple: Seq<char>) -> bool;

/// Why an expression could not be evaluated.
#[derive(Clone, Copy, Debug, PartialEq, Eq, Structural)]
pub enum TargetError {
    /// The expression's text is malformed.
    InvalidExpression,
    /// The target triple is not a known one.
    UnknownTarget,
}

/// The value of one leaf of an expression. A leaf that asks for an attribute
/// of the target has the value `Some` of whether the target has it; any other
/// leaf (a feature, a bare flag, a key that is no target attribute) comes as
/// `None` and is false.
pub fn leaf_value(target_attribute: Option<bool>) -> (b: bool)
    ensures
        b == (target_attribute == Some(true)),
{
    match target_attribute {
        Some(holds) => holds,
        None => false,
    }
}

/// Calls `cfg_expr::Expression::parse` and says whether it succeeded. The
/// parser counts the calls of `all`, `any` and `not` that stand directly
/// inside one call in a byte, and goes wrong where there are 256 of them or
/// more. Each such call has an opening bracket of its own, so a text with
/// fewer brackets than that is safe; others are left out.
#[verifier::external_body]
fn expression_parses(expr: &str) -> (r: bool)
    requires
        readable(expr@),
    ensures
        r == valid_expression(expr@),
{
    Expression::parse(expr).is_ok()
}

/// Calls `cfg_expr::targets::get_builtin_target_by_triple` and says whether it
/// found the triple.
#[verifier::external_body]
fn target_is_known(triple: &str) -> (r: bool)
    ensures
        r == known_target(triple@),
{
    get_builtin_target_by_triple(triple).is_some()
}

/// Calls `cfg_expr::Expression::eval` on the parsed expression. A leaf that
/// is a target predicate is asked of the target's entry in the built-in table
/// (`TargetPredicate::matches`); every leaf's value is then [`leaf_value`]'s.
#[verifier::external_body]
fn expression_holds(expr: &str, triple: &str) -> (r: bool)
    requires
        readable(expr@),
        valid_expression(expr@),
        known_target(triple@),
    ensures
        r == holds_on_target(expr@, triple@),
{
    let target = get_builtin_target_by_triple(triple).unwrap();
    Expression::parse(expr).unwrap().eval(|leaf| match leaf {
        Predicate::Target(attribute) => leaf_value(Some(attribute.matches(target))),
        _ => leaf_value(None),
    })
}

/// What [`holds`] returns: the expression is checked first, then the
/// target, and only then is the expression's value asked for. A text with
/// [`BRACKET_LIMIT`] opening brackets or more counts as malformed, whatever
/// it holds.
pub open spec fn evaluation(expr: Seq<char>, triple: Seq<char>) -> Result<bool, TargetError> {
    if !readable(expr) || !valid_expression(expr) {
        Err(TargetError::InvalidExpression)
    } else if !known_target(triple) {
        Err(TargetError::UnknownTarget)
    } else {
        Ok(holds_on_target(expr, triple))
    }
}

/// Evaluates a target predicate on the target with the given triple. An
/// unknown triple is an error, never a silent "does not match".
pub fn holds(expr: &str, triple: &str) -> (r: Result<bool, TargetError>)
    ensures
        r == evaluation(expr@, triple@),
{
    if count_char(expr, '(') >= BRACKET_LIMIT || !expression_parses(expr) {
        Err(TargetError::InvalidExpression)
    } else if !target_is_known(triple) {
        Err(TargetError::UnknownTarget)
    } else {
        Ok(expression_holds(expr, triple))
    }
}

} // verus!
