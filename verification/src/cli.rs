//! The command line of the server: one option, `--directory`, with its value
//! in the argument that follows it.

use vstd::prelude::*;
use vstd::string::*;

verus! {

/// What the command line asks for.
#[derive(Debug, Clone, PartialEq, Eq)]
pub struct AppArgs {
    /// The value of `--directory`, where the option is given.
    pub directory: Option<String>,
}

/// Why a command line is refused.
#[derive(Debug, Clone, Copy, PartialEq, Eq, Structural)]
pub enum CliError {
    /// `--directory` is the last argument, so it has no value.
    OptionWithoutAValue,
}

#[verifier::external_type_specification]
#[verifier::external_body]
pub struct ExArgumentError(pico_args::Error);

/// The arguments as plain texts.
pub open spec fn texts(arguments: Seq<String>) -> Seq<Seq<char>> {
    Seq::new(arguments.len(), |i: int| arguments[i]@)
}

/// The name of the option.
pub open spec fn directory_key() -> Seq<char> {
    "--directory"@
}

/// The position of the first argument that is exactly the option's name, or
/// the number of arguments where none is.
pub open spec fn key_position(arguments: Seq<Seq<char>>) -> int
    decreases arguments.len(),
{
    if arguments.len() == 0 {
        0
    } else if arguments[0] == directory_key() {
        0
    } else {
        1 + key_position(arguments.drop_first())
    }
}

/// A command line read: the directory it names, if it names one, and the
/// arguments that are left over.
pub struct Parsed {
    pub directory: Option<Seq<char>>,
    pub unused: Seq<Seq<char>>,
}

/// The reading of a command line, or `None` where it is refused.
///
/// Without the option nothing is named and every argument is left over. With
/// it, the argument that follows its first occurrence is the directory,
/// whatever it looks like, and those two arguments are taken out; where
/// nothing follows, the command line is refused.
pub open spec fn parsed(arguments: Seq<Seq<char>>) -> Option<Parsed> {
    let at = key_position(arguments);
    if at >= arguments.len() {
        Some(Parsed { directory: None, unused: arguments })
    } else if at + 1 >= arguments.len() {
        None
    } else {
        Some(Parsed { directory: Some(arguments[at + 1]), unused: arguments.remove(at).remove(at) })
    }
}

/// The text of an optional string.
pub open spec fn option_text(value: Option<String>) -> Option<Seq<char>> {
    match value {
        Some(text) => Some(text@),
        None => None,
    }
}

/// `pico_args::Arguments::opt_value_from_str`, asked for `--directory` on a
/// parser that holds the given arguments, the crate being built without its
/// optional features. It looks for the first argument equal to the key, takes
/// the argument after it as the value and removes both; it fails when the key
/// is the last argument, and leaves the arguments alone when the key is absent.
/// The arguments left in the parser are handed back with the value.
#[verifier::external_body]
fn take_directory(arguments: Vec<String>) -> (r: Result<
    (Option<String>, Vec<String>),
    pico_args::Error,
>)
    ensures
        r is Ok <==> parsed(texts(arguments@)) is Some,
        r matches Ok((found, rest)) ==> parsed(texts(arguments@)) == Some(
            Parsed { directory: option_text(found), unused: texts(rest@) },
        ),
{
    let held = arguments.into_iter().map(|a| a.into()).collect();
    let mut parser = pico_args::Arguments::from_vec(held);
    let found = parser.opt_value_from_str("--directory")?;
    let rest = parser.finish().into_iter().map(|a| a.to_string_lossy().into_owned()).collect();
    Ok((found, rest))
}

/// Reads the command line, given without the name of the program: what it
/// asks for and the arguments it leaves unused, or why it is refused.
pub fn parse_args(arguments: Vec<String>) -> (r: Result<(AppArgs, Vec<String>), CliError>)
    ensures
        r is Ok <==> parsed(texts(arguments@)) is Some,
        r matches Ok((args, unused)) ==> parsed(texts(arguments@)) == Some(
            Parsed { directory: option_text(args.directory), unused: texts(unused@) },
        ),
{
    match take_directory(arguments) {
        Ok((directory, unused)) => Ok((AppArgs { directory }, unused)),
        Err(_) => Err(CliError::OptionWithoutAValue),
    }
}

impl CliError {
    /// The refusal in words.
    pub fn message(&self) -> (r: &'static str)
        ensures
            r@ == "the '--directory' option doesn't have an associated value"@,
    {
        "the '--directory' option doesn't have an associated value"
    }
}

} // verus!
