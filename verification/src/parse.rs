//! Parsing a plugin file: the parser reads the bytes, the library hands the
//! host what the parser found.
//!
//! The parser is any function from bytes to a result graph or a failure of
//! its own kind. A failure is passed on as it is. A plugin owns all its
//! text, so it may outlive the bytes it was read from.

use vstd::prelude::*;
use crate::model::Plugin;
use crate::native::NativePlugin;

verus! {

/// The parser rejected the bytes. The diagnostic is the parser's own.
#[derive(Clone, Debug, PartialEq, Eq)]
pub struct ParseError<E> {
    pub diagnostic: E,
}

/// What the host gets for each outcome of the parser: for a graph, a plugin
/// with the same content; for a failure, an error that carries it.
pub open spec fn handed_on<'a, E>(
    outcome: Result<NativePlugin<'a>, E>,
    result: Result<Plugin, ParseError<E>>,
) -> bool {
    match outcome {
        Ok(native) => result matches Ok(plugin) && plugin@ == native@,
        Err(failure) => result == Err::<Plugin, ParseError<E>>(ParseError { diagnostic: failure }),
    }
}

/// Hands on the outcome of a parser: projects the graph it found, or wraps
/// the failure it reported.
pub fn project_outcome<'a, E>(outcome: Result<NativePlugin<'a>, E>) -> (result: Result<
    Plugin,
    ParseError<E>,
>)
    ensures
        handed_on(outcome, result),
{
    match outcome {
        Ok(native) => Ok(Plugin::from(native)),
        Err(failure) => Err(ParseError { diagnostic: failure }),
    }
}

/// Runs `parser` on `input` once and hands on its outcome.
pub fn parse_plugin<'a, E, P>(parser: P, input: &'a [u8]) -> (result: Result<
    Plugin,
    ParseError<E>,
>) where P: FnOnce(&'a [u8]) -> Result<NativePlugin<'a>, E>
    requires
        parser.requires((input,)),
    ensures
        exists|outcome: Result<NativePlugin<'a>, E>|
            parser.ensures((input,), outcome) && handed_on(outcome, result),
{
    let outcome = parser(input);
    project_outcome(outcome)
}

} // verus!
