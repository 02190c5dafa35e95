//! Pointing `jarvis serve` at a custom endpoint: the `[engine.<key>] host`
//! entry of `~/.openjarvis/config.toml`, edited with `toml_edit`.

use vstd::prelude::*;
use crate::text;
use crate::text::owned;

verus! {

/// What `toml_edit` makes of `existing` after `doc["engine"][engine]["host"] = host`:
/// the rendered document, or the `Display` text of its parse error.
pub uninterp spec fn toml_set_engine_host(existing: Seq<char>, engine: Seq<char>, host: Seq<char>) -> Result<Seq<char>, Seq<char>>;

/// Whether `doc["engine"][engine]` can be indexed for writing: `existing`
/// does not parse, or `engine` and `engine.<engine>` are absent or tables.
pub uninterp spec fn toml_engine_slot_open(existing: Seq<char>, engine: Seq<char>) -> bool;

/// Asks `toml_edit` whether `doc["engine"][engine]` can be written: the
/// document does not parse (the write then reports the parse error), or
/// `DocumentMut::get("engine")` is absent or `Item::is_table_like`, and so is
/// `Item::get(engine)` on it. `IndexMut` on `Item` panics otherwise. Stated:
/// the result is the name `toml_engine_slot_open`, and an empty document is open.
#[verifier::external_body]
fn toml_slot_open(existing: &str, engine: &str) -> (b: bool)
    ensures
        b == toml_engine_slot_open(existing@, engine@),
        existing@.len() == 0 ==> b,
{
    match existing.parse::<toml_edit::DocumentMut>() {
        Err(_) => true,
        Ok(doc) => doc.get("engine").map_or(true, |e| e.is_table_like() && e.get(engine).map_or(true, |x| x.is_table_like())),
    }
}

/// `existing.parse::<toml_edit::DocumentMut>()`, then
/// `doc["engine"][engine]["host"] = toml_edit::value(host)` and
/// `doc.to_string()`; a parse error is returned as its `Display` text.
/// Stated: the result is the name `toml_set_engine_host` of the three texts,
/// and an empty document parses. What the rendered text holds is not stated.
#[verifier::external_body]
fn toml_write_engine_host(existing: &str, engine: &str, host: &str) -> (r: Result<String, String>)
    requires
        toml_engine_slot_open(existing@, engine@),
    ensures
        match r {
            Ok(t) => toml_set_engine_host(existing@, engine@, host@) == Ok::<Seq<char>, Seq<char>>(t@),
            Err(e) => toml_set_engine_host(existing@, engine@, host@) == Err::<Seq<char>, Seq<char>>(e@),
        },
        existing@.len() == 0 ==> r is Ok,
{
    match existing.parse::<toml_edit::DocumentMut>() {
        Ok(mut doc) => {
            doc["engine"][engine]["host"] = toml_edit::value(host);
            Ok(doc.to_string())
        },
        Err(e) => Err(e.to_string()),
    }
}

/// The updated `config.toml` text, or why `existing` is not TOML.
pub open spec fn upsert_spec(existing: Seq<char>, engine: Seq<char>, host: Seq<char>) -> Result<Seq<char>, Seq<char>> {
    match toml_set_engine_host(existing, engine, host) {
        Ok(t) => Ok(t),
        Err(e) => Err("Invalid config.toml: "@ + e),
    }
}

/// Upsert `[engine.<engine>] host = "<host>"` into `config.toml` text,
/// preserving the rest of the document.
pub fn upsert_engine_host(existing: &str, engine: &str, host: &str) -> (r: Result<String, String>)
    requires
        toml_engine_slot_open(existing@, engine@),
    ensures
        match r {
            Ok(t) => upsert_spec(existing@, engine@, host@) == Ok::<Seq<char>, Seq<char>>(t@),
            Err(e) => upsert_spec(existing@, engine@, host@) == Err::<Seq<char>, Seq<char>>(e@),
        },
        existing@.len() == 0 ==> r is Ok,
{
    match toml_write_engine_host(existing, engine, host) {
        Ok(t) => Ok(t),
        Err(e) => {
            let mut m = owned("Invalid config.toml: ");
            text::push_text(&mut m, e.as_str());
            Err(m)
        },
    }
}

/// Upserts the host when `toml_edit` can write that entry; `None` when
/// `engine` or `engine.<engine>` already holds something other than a table.
pub fn try_upsert_engine_host(existing: &str, engine: &str, host: &str) -> (r: Option<Result<String, String>>)
    ensures
        r is None <==> !toml_engine_slot_open(existing@, engine@),
        r matches Some(Ok(t)) ==> upsert_spec(existing@, engine@, host@) == Ok::<Seq<char>, Seq<char>>(t@),
        r matches Some(Err(e)) ==> upsert_spec(existing@, engine@, host@) == Err::<Seq<char>, Seq<char>>(e@),
{
    if toml_slot_open(existing, engine) {
        Some(upsert_engine_host(existing, engine, host))
    } else {
        None
    }
}

/// The message when the engine entry of `config.toml` cannot be written
/// because that key already holds a non-table value.
pub fn engine_slot_taken(engine: &str) -> (m: String)
    ensures
        m@ == "Invalid config.toml: [engine."@ + engine@ + "] is not a table"@,
{
    let mut m = owned("Invalid config.toml: [engine.");
    text::push_text(&mut m, engine);
    text::push_text(&mut m, "] is not a table");
    m
}

} // verus!
