//! The Lua session that runs a user's script on each document's metadata.
//!
//! The session is shared by every document of a run. Before each document
//! the `meta` global is overwritten with the document's metadata, or removed
//! when the document has none, so that no document sees what the one before
//! it left behind.

use crate::frontmatter::{
    block_decodes, block_of, body_of, has_frontmatter, is_blank, parse, DecodeError,
};
use vstd::prelude::*;
use vstd::string::StringSliceAdditionalSpecFns;

verus! {

#[verifier::external_type_specification]
#[verifier::external_body]
pub struct ExLua(mlua::Lua);

#[verifier::external_type_specification]
#[verifier::external_body]
pub struct ExLuaTable(mlua::Table);

#[verifier::external_type_specification]
#[verifier::external_body]
pub struct ExLuaFunction(mlua::Function);

#[verifier::external_type_specification]
#[verifier::external_body]
pub struct ExLuaValue(mlua::Value);

#[verifier::external_type_specification]
#[verifier::external_body]
pub struct ExLuaError(mlua::Error);

/// Relies on mlua::Lua::new: a fresh interpreter with the standard libraries.
#[verifier::external_body]
fn new_interpreter() -> (r: mlua::Lua) {
    mlua::Lua::new()
}

/// Relies on mlua::Lua::globals: the table of global variables.
#[verifier::external_body]
fn globals(lua: &mlua::Lua) -> (r: mlua::Table) {
    lua.globals()
}

/// Whether Lua accepts this text as a chunk.
pub uninterp spec fn lua_compiles(source: Seq<char>) -> bool;

/// Relies on mlua::Lua::load and mlua::Chunk::into_function: compiles a
/// script without running it; whether it compiles depends on the text alone.
#[verifier::external_body]
fn compile(lua: &mlua::Lua, source: &str) -> (r: Result<mlua::Function, mlua::Error>)
    ensures
        r is Ok <==> lua_compiles(source@),
{
    lua.load(source).into_function()
}

/// Relies on mlua::Function::call: runs the function with no arguments and
/// discards what it returns.
#[verifier::external_body]
fn call(f: &mlua::Function) -> (r: Result<(), mlua::Error>) {
    f.call::<()>(())
}

/// Relies on mlua::Lua::create_string: a Lua string holding these bytes.
#[verifier::external_body]
fn lua_string(lua: &mlua::Lua, s: &str) -> (r: Result<mlua::Value, mlua::Error>) {
    lua.create_string(s).map(mlua::Value::String)
}

/// Relies on mlua::Table::set: stores a value under a string key.
#[verifier::external_body]
fn table_set(t: &mlua::Table, key: &str, v: mlua::Value) -> (r: Result<(), mlua::Error>) {
    t.set(key, v)
}

/// Relies on mlua::Table::raw_remove: removes a string key.
#[verifier::external_body]
fn table_remove(t: &mlua::Table, key: &str) -> (r: Result<(), mlua::Error>) {
    t.raw_remove(key)
}

/// Relies on mlua::Table::get: the value under a string key, nil if absent.
#[verifier::external_body]
fn table_get(t: &mlua::Table, key: &str) -> (r: Result<mlua::Value, mlua::Error>) {
    t.get::<mlua::Value>(key)
}

/// Relies on mlua::LuaSerdeExt::to_value: the Lua form of a YAML value.
#[verifier::external_body]
fn to_engine(lua: &mlua::Lua, v: &serde_yaml::Value) -> (r: Result<mlua::Value, mlua::Error>) {
    mlua::LuaSerdeExt::to_value(lua, v)
}

/// Relies on mlua::LuaSerdeExt::from_value: the YAML form of a Lua value,
/// `None` for nil; an error for what YAML cannot hold, such as a function.
#[verifier::external_body]
fn from_engine(lua: &mlua::Lua, v: mlua::Value) -> (r: Result<
    Option<serde_yaml::Value>,
    mlua::Error,
>) {
    mlua::LuaSerdeExt::from_value(lua, v)
}

/// Why a document, or a whole run, failed.
#[derive(Debug)]
pub enum FixError {
    /// The script does not compile; no document can be processed.
    Compile(mlua::Error),
    /// The document's frontmatter block does not decode.
    Decode(DecodeError),
    /// The metadata has no Lua form.
    ToEngine(mlua::Error),
    /// Setting or removing a global of the session failed.
    Binding(mlua::Error),
    /// The script failed while it ran on this document.
    Script(mlua::Error),
    /// What the script left in `meta` has no YAML form.
    FromEngine(mlua::Error),
}

/// A Lua session and the compiled script that runs on each document.
pub struct Fixer {
    lua: mlua::Lua,
    script: Option<mlua::Function>,
    /// The text the script was compiled from.
    source: Ghost<Option<Seq<char>>>,
    /// Whether the last document bound left `meta` set (`true`) or removed
    /// (`false`) when its script started.
    meta_bound: Ghost<bool>,
}

impl Fixer {
    /// Whether a script runs on each document; without one the caller drives
    /// the session between `bind` and `read_back`.
    pub closed spec fn has_script(&self) -> bool {
        self.script is Some
    }

    /// The text of the script that runs on each document.
    pub closed spec fn source(&self) -> Option<Seq<char>> {
        self.source@
    }

    /// Whether `meta` was set, rather than removed, for the last document
    /// bound, as the script found it when it started.
    pub closed spec fn meta_bound(&self) -> bool {
        self.meta_bound@
    }

    /// The script and what it was compiled from go together.
    pub closed spec fn wf(&self) -> bool {
        self.script is Some <==> self.source@ is Some
    }

    /// Whether a script runs on each document.
    pub fn is_scripted(&self) -> (r: bool)
        ensures
            r == self.has_script(),
            self.wf() ==> (r <==> self.source() is Some),
    {
        self.script.is_some()
    }

    /// Starts a session and compiles the script once, up front. A script
    /// that does not compile fails the whole run.
    pub fn new(script: Option<&str>) -> (r: Result<Fixer, FixError>)
        ensures
            script matches Some(s) ==> (r is Ok <==> lua_compiles(s@)),
            script is None ==> r is Ok,
            r matches Ok(f) ==> f.wf() && f.source() == match script {
                Some(s) => Some(s@),
                None => None::<Seq<char>>,
            } && !f.meta_bound(),
            r matches Err(e) ==> e is Compile,
    {
        let lua = new_interpreter();
        match script {
            Some(text) => match compile(&lua, text) {
                Ok(f) => Ok(
                    Fixer {
                        lua,
                        script: Some(f),
                        source: Ghost(Some(text@)),
                        meta_bound: Ghost(false),
                    },
                ),
                Err(e) => Err(FixError::Compile(e)),
            },
            None => Ok(Fixer { lua, script: None, source: Ghost(None), meta_bound: Ghost(false) }),
        }
    }

    /// The session's interpreter, for registering host functions and for
    /// evaluating lines between `bind` and `read_back`.
    pub fn lua(&self) -> &mlua::Lua {
        &self.lua
    }

    /// Makes a document visible to the script: `meta` is overwritten with
    /// its decoded metadata, or removed when it has no frontmatter, and
    /// `content` holds its body as a Lua string. Returns the body.
    pub fn bind<'a>(&mut self, doc: &'a str) -> (r: Result<&'a str, FixError>)
        ensures
            final(self).source() == old(self).source(),
            final(self).has_script() == old(self).has_script(),
            old(self).wf() ==> final(self).wf(),
            r is Ok ==> final(self).meta_bound() == has_frontmatter(doc.spec_bytes()),
            r matches Ok(body) ==> body.spec_bytes() == body_of(doc.spec_bytes()),
            r matches Ok(_) ==> (has_frontmatter(doc.spec_bytes()) ==> block_decodes(
                block_of(doc.spec_bytes())->0,
            )),
            (r matches Err(FixError::Decode(_))) <==> (has_frontmatter(doc.spec_bytes())
                && !block_decodes(block_of(doc.spec_bytes())->0)),
            r matches Err(FixError::Decode(e)) ==> (e is Blank <==> is_blank(
                block_of(doc.spec_bytes())->0,
            )),
            r matches Err(e) ==> (e is Decode || e is ToEngine || e is Binding),
    {
        let (metadata, body) = parse(doc);
        let g = globals(&self.lua);
        match metadata {
            Some(decoded) => {
                let value = match decoded {
                    Ok(v) => v,
                    Err(e) => {
                        return Err(FixError::Decode(e));
                    },
                };
                let lua_value = match to_engine(&self.lua, &value) {
                    Ok(lv) => lv,
                    Err(e) => {
                        return Err(FixError::ToEngine(e));
                    },
                };
                if let Err(e) = table_set(&g, "meta", lua_value) {
                    return Err(FixError::Binding(e));
                }
                self.meta_bound = Ghost(true);
            },
            None => {
                if let Err(e) = table_remove(&g, "meta") {
                    return Err(FixError::Binding(e));
                }
                self.meta_bound = Ghost(false);
            },
        }
        let text = match lua_string(&self.lua, body) {
            Ok(t) => t,
            Err(e) => {
                return Err(FixError::Binding(e));
            },
        };
        if let Err(e) = table_set(&g, "content", text) {
            return Err(FixError::Binding(e));
        }
        Ok(body)
    }

    /// Runs the script once, if the session has one.
    pub fn run(&self) -> (r: Result<(), FixError>)
        ensures
            !self.has_script() ==> r is Ok,
            r matches Err(e) ==> e is Script,
    {
        match &self.script {
            Some(f) => match call(f) {
                Ok(()) => Ok(()),
                Err(e) => Err(FixError::Script(e)),
            },
            None => Ok(()),
        }
    }

    /// The metadata that the script left in `meta`: `None` when `meta` is
    /// absent, so that the document is written without frontmatter.
    pub fn read_back(&self) -> (r: Result<Option<serde_yaml::Value>, FixError>)
        ensures
            r matches Err(e) ==> (e is Binding || e is FromEngine),
    {
        let g = globals(&self.lua);
        let value = match table_get(&g, "meta") {
            Ok(v) => v,
            Err(e) => {
                return Err(FixError::Binding(e));
            },
        };
        match from_engine(&self.lua, value) {
            Ok(m) => Ok(m),
            Err(e) => Err(FixError::FromEngine(e)),
        }
    }

    /// Processes one document: binds it, runs the script, and reads the
    /// metadata back. Returns the new metadata and the body, which is the
    /// document's own body whatever the script did to `content`.
    pub fn fix<'a>(&mut self, doc: &'a str) -> (r: Result<(Option<serde_yaml::Value>, &'a str), FixError>)
        ensures
            final(self).source() == old(self).source(),
            final(self).has_script() == old(self).has_script(),
            old(self).wf() ==> final(self).wf(),
            (r is Ok || r matches Err(FixError::Script(_)) || r matches Err(FixError::FromEngine(_)))
                ==> final(self).meta_bound() == has_frontmatter(doc.spec_bytes()),
            r matches Ok((_, body)) ==> body.spec_bytes() == body_of(doc.spec_bytes()),
            r matches Ok(_) ==> (has_frontmatter(doc.spec_bytes()) ==> block_decodes(
                block_of(doc.spec_bytes())->0,
            )),
            (r matches Err(FixError::Decode(_))) <==> (has_frontmatter(doc.spec_bytes())
                && !block_decodes(block_of(doc.spec_bytes())->0)),
            r matches Err(FixError::Decode(e)) ==> (e is Blank <==> is_blank(
                block_of(doc.spec_bytes())->0,
            )),
            r matches Err(FixError::Script(_)) ==> old(self).has_script(),
            !(r matches Err(FixError::Compile(_))),
    {
        let body = match self.bind(doc) {
            Ok(b) => b,
            Err(e) => {
                return Err(e);
            },
        };
        if let Err(e) = self.run() {
            return Err(e);
        }
        match self.read_back() {
            Ok(metadata) => Ok((metadata, body)),
            Err(e) => Err(e),
        }
    }
}

} // verus!
