//! Choosing where the script comes from: inline text, a file, or an
//! interactive session when neither text nor file is given.

use vstd::prelude::*;

verus! {

/// Where the script comes from.
#[derive(Debug)]
pub enum ScriptSource {
    /// Script text given on the command line.
    Inline(String),
    /// A path to a file that holds the script.
    File(String),
    /// No script: the user types lines into a Lua prompt.
    Repl,
}

/// A run asked for more than one script source.
#[derive(Debug, PartialEq, Eq, Structural)]
pub enum SourceError {
    /// More than one of inline script, script file and REPL was asked for.
    Conflicting,
}

impl SourceError {
    /// The message shown to the user.
    pub fn message(&self) -> (r: &'static str)
        ensures
            r@ == "must specify only one of inline script, a script file, or REPL"@,
    {
        match self {
            SourceError::Conflicting => "must specify only one of inline script, a script file, or REPL",
        }
    }
}

/// How many of the three sources were asked for.
pub open spec fn sources_asked(inline: bool, file: bool, repl: bool) -> int {
    (if inline { 1int } else { 0int }) + (if file { 1int } else { 0int }) + (if repl { 1int } else { 0int })
}

/// Picks the script source from the three options of a run. Without an
/// inline script and without a script file, the session is interactive,
/// whether or not the REPL was asked for by name.
pub fn script_source(inline_script: Option<String>, script_path: Option<String>, repl: bool) -> (r:
    Result<ScriptSource, SourceError>)
    ensures
        sources_asked(inline_script is Some, script_path is Some, repl) > 1 <==> r == Err::<
            ScriptSource,
            SourceError,
        >(SourceError::Conflicting),
        (inline_script is Some && script_path is None && !repl) ==> r == Ok::<
            ScriptSource,
            SourceError,
        >(ScriptSource::Inline(inline_script->0)),
        (script_path is Some && inline_script is None && !repl) ==> r == Ok::<
            ScriptSource,
            SourceError,
        >(ScriptSource::File(script_path->0)),
        (inline_script is None && script_path is None) ==> r == Ok::<
            ScriptSource,
            SourceError,
        >(ScriptSource::Repl),
{
    match (inline_script, script_path, repl) {
        (Some(s), None, false) => Ok(ScriptSource::Inline(s)),
        (None, Some(p), false) => Ok(ScriptSource::File(p)),
        (None, None, _) => Ok(ScriptSource::Repl),
        _ => Err(SourceError::Conflicting),
    }
}

} // verus!
