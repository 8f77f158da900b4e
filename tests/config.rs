use fixmatter::config::{script_source, ScriptSource, SourceError};

#[test]
fn inline_script_alone_is_chosen() {
    let r = script_source(Some("meta = nil".to_string()), None, false);
    assert!(matches!(r, Ok(ScriptSource::Inline(ref s)) if s == "meta = nil"));
}

#[test]
fn script_file_alone_is_chosen() {
    let r = script_source(None, Some("fix.lua".to_string()), false);
    assert!(matches!(r, Ok(ScriptSource::File(ref p)) if p == "fix.lua"));
}

#[test]
fn repl_alone_is_chosen() {
    assert!(matches!(script_source(None, None, true), Ok(ScriptSource::Repl)));
}

#[test]
fn no_source_means_repl() {
    assert!(matches!(script_source(None, None, false), Ok(ScriptSource::Repl)));
}

#[test]
fn two_sources_are_an_error() {
    let r = script_source(Some("x = 1".to_string()), Some("fix.lua".to_string()), false);
    assert!(matches!(r, Err(SourceError::Conflicting)));
    let r = script_source(Some("x = 1".to_string()), None, true);
    assert!(matches!(r, Err(SourceError::Conflicting)));
    let r = script_source(None, Some("fix.lua".to_string()), true);
    assert!(matches!(r, Err(SourceError::Conflicting)));
}

#[test]
fn three_sources_are_an_error() {
    let r = script_source(Some("x = 1".to_string()), Some("fix.lua".to_string()), true);
    assert!(matches!(r, Err(SourceError::Conflicting)));
}

#[test]
fn source_errors_have_messages() {
    assert_eq!(
        "must specify only one of inline script, a script file, or REPL",
        SourceError::Conflicting.message()
    );
}
