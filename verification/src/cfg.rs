//! The declarations of the flags that the package's code may test.

use crate::manifest::{declared, Checks};
use crate::text::texts;
use vstd::prelude::*;

verus! {

/// A value between double quotes.
pub open spec fn quoted(value: Seq<char>) -> Seq<char> {
    "\""@ + value + "\""@
}

/// The values, each between double quotes, with a comma and a space between
/// two of them.
pub open spec fn joined(values: Seq<Seq<char>>) -> Seq<char>
    decreases values.len(),
{
    if values.len() == 0 {
        Seq::empty()
    } else if values.len() == 1 {
        quoted(values[0])
    } else {
        joined(values.drop_last()) + ", "@ + quoted(values.last())
    }
}

/// The line that declares one flag: its name alone, or its name and the
/// values it may take.
pub open spec fn declaration(name: Seq<char>, allowed: Option<Seq<Seq<char>>>) -> Seq<char> {
    match allowed {
        None => "cargo:rustc-check-cfg=cfg("@ + name + ")"@,
        Some(values) => "cargo:rustc-check-cfg=cfg("@ + name + ", values("@ + joined(values)
            + "))"@,
    }
}

/// The lines that declare the flags, in their order.
pub open spec fn declarations(flags: Seq<(Seq<char>, Option<Seq<Seq<char>>>)>) -> Seq<Seq<char>> {
    flags.map_values(|flag: (Seq<char>, Option<Seq<Seq<char>>>)| declaration(flag.0, flag.1))
}

/// Writes the values of a flag as they stand in its declaration.
pub fn join(values: &Vec<String>) -> (text: String)
    ensures
        text@ == joined(texts(values@)),
{
    let mut text = String::new();
    let mut i: usize = 0;
    assert(texts(values@).take(0) =~= Seq::empty());
    while i < values.len()
        invariant
            i <= values.len(),
            text@ == joined(texts(values@).take(i as int)),
        decreases values.len() - i,
    {
        let ghost before = texts(values@).take(i as int);
        let ghost now = texts(values@).take(i as int + 1);
        assert(now.drop_last() =~= before);
        assert(now.last() == values@[i as int]@);
        if i > 0 {
            text.append(", ");
        }
        text.append("\"");
        text.append(values[i].as_str());
        text.append("\"");
        assert(text@ =~= joined(now));
        i += 1;
    }
    assert(texts(values@).take(values.len() as int) =~= texts(values@));
    text
}

/// The lines that declare the flags of `checks`, one for each flag, in
/// their order. Each line goes out with a line end behind it.
pub fn check(checks: &Checks) -> (lines: Vec<String>)
    ensures
        texts(lines@) == declarations(checks@.cfgs),
{
    let mut lines: Vec<String> = Vec::new();
    let mut i: usize = 0;
    while i < checks.cfgs.len()
        invariant
            i <= checks.cfgs.len(),
            lines@.len() == i,
            forall|j: int|
                0 <= j < i ==> (#[trigger] lines@[j])@ == declaration(
                    declared(checks.cfgs@)[j].0,
                    declared(checks.cfgs@)[j].1,
                ),
        decreases checks.cfgs.len() - i,
    {
        let mut line = "cargo:rustc-check-cfg=cfg(".to_owned();
        line.append(checks.cfgs[i].0.as_str());
        match &checks.cfgs[i].1 {
            None => {
                line.append(")");
            },
            Some(values) => {
                let list = join(values);
                line.append(", values(");
                line.append(list.as_str());
                line.append("))");
            },
        }
        lines.push(line);
        i += 1;
    }
    assert(texts(lines@) =~= declarations(checks@.cfgs));
    lines
}

} // verus!
