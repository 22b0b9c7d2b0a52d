//! Which command enums get their dispatch written for them: those whose variants each
//! wrap exactly one command.

use vstd::prelude::*;

verus! {

/// The fields of one variant of an enum, as far as its kind goes.
#[derive(Debug)]
pub enum Fields {
    /// Fields with names, in braces.
    Named,
    /// Fields without names, in parentheses: for each, whether its type is a path.
    Unnamed(Vec<bool>),
    /// No fields at all.
    Unit,
}

/// What kind of command an enum is.
#[derive(Clone, Copy, Debug, PartialEq, Eq, Structural)]
pub enum CommandType {
    /// Every variant wraps one command: the enum is dispatched variant by variant.
    Unnamed,
    /// The enum is one command of its own.
    Other,
}

/// Why an enum is no command, and which of its variants shows it.
#[derive(Debug)]
pub struct Fault {
    /// The place of the variant among the variants of the enum.
    pub variant: usize,
    /// What is wrong with it.
    pub words: &'static str,
}

/// What is wrong with the fields of a variant that wraps a command, if anything is:
/// it has to wrap something, what it wraps has to be named by a path, and it has to
/// be one thing only.
pub open spec fn fault_of(paths: Seq<bool>) -> Option<Seq<char>> {
    if paths.len() == 0 {
        Some("command not specified"@)
    } else if !paths[0] {
        Some("expected path to command"@)
    } else if paths.len() > 1 {
        Some("only one command can be specified"@)
    } else {
        None
    }
}

/// The kind of command that the variants from `from` onwards make an enum, or the first
/// fault among them. Variants are looked at in their order, and the first variant
/// that wraps nothing settles the kind: what comes after it is not looked at.
pub open spec fn kind_from(variants: Seq<Fields>, from: int) -> Result<CommandType, (int, Seq<char>)>
    decreases variants.len() - from,
{
    if from < 0 || from >= variants.len() {
        Ok(CommandType::Unnamed)
    } else {
        match variants[from] {
            Fields::Named => Ok(CommandType::Other),
            Fields::Unit => Ok(CommandType::Other),
            Fields::Unnamed(paths) => match fault_of(paths@) {
                Some(words) => Err((from, words)),
                None => kind_from(variants, from + 1),
            },
        }
    }
}

/// Tells what kind of command an enum with the given variants is, or why it is none.
pub fn command_type(variants: &Vec<Fields>) -> (r: Result<CommandType, Fault>)
    ensures
        match kind_from(variants@, 0) {
            Ok(kind) => r == Ok::<_, Fault>(kind),
            Err((variant, words)) => r matches Err(fault) && fault.variant == variant
                && fault.words@ == words,
        },
{
    let mut i: usize = 0;
    while i < variants.len()
        invariant
            i <= variants.len(),
            kind_from(variants@, 0) == kind_from(variants@, i as int),
        decreases variants.len() - i,
    {
        match &variants[i] {
            Fields::Named => {
                return Ok(CommandType::Other);
            },
            Fields::Unit => {
                return Ok(CommandType::Other);
            },
            Fields::Unnamed(paths) => {
                if paths.len() == 0 {
                    return Err(Fault { variant: i, words: "command not specified" });
                }
                if !paths[0] {
                    return Err(Fault { variant: i, words: "expected path to command" });
                }
                if paths.len() > 1 {
                    return Err(Fault { variant: i, words: "only one command can be specified" });
                }
            },
        }
        i = i + 1;
    }
    Ok(CommandType::Unnamed)
}

} // verus!
