//! What the user is told when starting the local backend fails, and the
//! small window-behaviour rule of the shell.

use vstd::prelude::*;
use crate::text;
use crate::text::owned;

verus! {

/// The dependency install the desktop runs in the project checkout.
pub const DESKTOP_UV_SYNC_COMMAND: &'static str = "uv sync --extra desktop --extra inference-cloud --extra inference-google --group desktop-native";

/// The command that checks the native extension imports.
pub const EXTENSION_CHECK_COMMAND: &'static str = "uv run python -c \"import openjarvis_rust\"";

/// How to get a Rust toolchain able to build the native extension.
pub const RUST_TOOLCHAIN_HINT: &'static str = "The native extension openjarvis_rust is built with Rust. Install the Rust toolchain (cargo) from https://rustup.rs and, on Windows, the Visual Studio Build Tools with the \"Desktop development with C++\" workload, then relaunch.";

/// How many characters of `uv sync`'s stderr a message quotes.
pub const STDERR_TAIL_CHARS: usize = 800;

/// Only the main window hides to the tray when closed; others close.
pub fn should_hide_on_close(label: &str) -> (b: bool)
    ensures
        b == (label@ == "main"@),
{
    text::text_eq(label, "main")
}

/// The last `max_chars` characters of the trimmed text (all of it when shorter).
pub open spec fn tail_spec(s: Seq<char>, max_chars: nat) -> Seq<char> {
    let t = text::trim(s);
    if t.len() <= max_chars {
        t
    } else {
        t.subrange(t.len() - max_chars, t.len() as int)
    }
}

/// The end of `uv sync`'s stderr, where its actionable line is: the trimmed
/// text, cut to its last `max_chars` characters (never inside a character).
pub fn uv_sync_stderr_tail(stderr: &str, max_chars: usize) -> (r: String)
    ensures
        r@ == tail_spec(stderr@, max_chars as nat),
{
    let v = text::chars_of(stderr);
    let (lo, hi) = text::trim_bounds(&v);
    let ghost t = v@.subrange(lo as int, hi as int);
    if hi - lo <= max_chars {
        text::string_of_range(&v, lo, hi)
    } else {
        let r = text::string_of_range(&v, hi - max_chars, hi);
        assert(r@ =~= t.subrange(t.len() - max_chars, t.len() as int));
        r
    }
}

/// Stderr that points at the Rust toolchain or the native extension.
pub open spec fn mentions_rust_build(stderr: Seq<char>) -> bool {
    let l = text::lower(stderr);
    exists|k: int| 0 <= k < rust_markers().len() && text::contains(l, #[trigger] rust_markers()[k])
}

/// Markers of a failed Rust build in `uv sync`'s stderr.
pub open spec fn rust_markers() -> Seq<Seq<char>> {
    seq!["maturin"@, "cargo"@, "rustc"@, "link.exe"@, "linker"@, "openjarvis-rust"@, "openjarvis_rust"@]
}

fn rust_build_failure(stderr: &str) -> (b: bool)
    ensures
        b == mentions_rust_build(stderr@),
{
    let l = text::text_lower(stderr);
    let markers: [&str; 7] = ["maturin", "cargo", "rustc", "link.exe", "linker", "openjarvis-rust", "openjarvis_rust"];
    let mut k: usize = 0;
    while k < 7
        invariant
            k <= 7,
            l@ == text::lower(stderr@),
            forall|j: int| 0 <= j < 7 ==> (#[trigger] markers@[j])@ == rust_markers()[j],
            forall|j: int| 0 <= j < k ==> !text::contains(text::lower(stderr@), #[trigger] rust_markers()[j]),
        decreases 7 - k,
    {
        if text::text_contains(l.as_str(), markers[k]) {
            assert(text::contains(text::lower(stderr@), rust_markers()[k as int]));
            return true;
        }
        k = k + 1;
    }
    false
}

/// An exit code as the messages render it: the number, or `unknown` when
/// the process was killed and has none.
pub open spec fn exit_code_text(code: Option<i32>) -> Seq<char> {
    match code {
        Some(c) => text::dec_int(c as int),
        None => "unknown"@,
    }
}

fn push_exit_code(m: &mut String, code: Option<i32>)
    ensures
        final(m)@ == old(m)@ + exit_code_text(code),
{
    match code {
        Some(c) => {
            let t = text::i64_text(c as i64);
            text::push_text(m, t.as_str());
        },
        None => text::push_text(m, "unknown"),
    }
}

/// The message for a failed `uv sync`: exit code, checkout, the end of its
/// stderr and the command to retry; the Rust toolchain hint when the stderr
/// points at a Rust build.
pub open spec fn uv_sync_failure_spec(root: Seq<char>, code: Option<i32>, stderr: Seq<char>) -> Seq<char> {
    let base = "Installing dependencies failed (uv sync, exit "@ + exit_code_text(code) + ") in "@ + root
        + ".\n\n"@ + tail_spec(stderr, 800) + "\n\nFix the problem above, run `"@ + DESKTOP_UV_SYNC_COMMAND@
        + "` in that directory, then relaunch."@;
    if mentions_rust_build(stderr) {
        base + "\n\n"@ + RUST_TOOLCHAIN_HINT@
    } else {
        base
    }
}

/// The message for a failed `uv sync`.
pub fn format_uv_sync_failure(root: &str, code: Option<i32>, stderr: &str) -> (m: String)
    ensures
        m@ == uv_sync_failure_spec(root@, code, stderr@),
{
    let mut m = owned("Installing dependencies failed (uv sync, exit ");
    push_exit_code(&mut m, code);
    text::push_text(&mut m, ") in ");
    text::push_text(&mut m, root);
    text::push_text(&mut m, ".\n\n");
    let tail = uv_sync_stderr_tail(stderr, STDERR_TAIL_CHARS);
    text::push_text(&mut m, tail.as_str());
    text::push_text(&mut m, "\n\nFix the problem above, run `");
    text::push_text(&mut m, DESKTOP_UV_SYNC_COMMAND);
    text::push_text(&mut m, "` in that directory, then relaunch.");
    if rust_build_failure(stderr) {
        text::push_text(&mut m, "\n\n");
        text::push_text(&mut m, RUST_TOOLCHAIN_HINT);
    }
    m
}

/// The message when `uv sync` could not even be started.
pub fn format_uv_sync_spawn_error(root: &str, uv_bin: &str, error: &str) -> (m: String)
    ensures
        m@ == "Could not run "@ + uv_bin@ + " in "@ + root@ + ": "@ + error@
            + ". Check that uv is installed and that this directory is an OpenJarvis checkout."@,
{
    let mut m = owned("Could not run ");
    text::push_text(&mut m, uv_bin);
    text::push_text(&mut m, " in ");
    text::push_text(&mut m, root);
    text::push_text(&mut m, ": ");
    text::push_text(&mut m, error);
    text::push_text(&mut m, ". Check that uv is installed and that this directory is an OpenJarvis checkout.");
    m
}

/// The message when no Rust toolchain is installed.
pub fn format_missing_rust_toolchain() -> (m: String)
    ensures
        m@ == "Could not find 'cargo'. "@ + RUST_TOOLCHAIN_HINT@,
{
    let mut m = owned("Could not find 'cargo'. ");
    text::push_text(&mut m, RUST_TOOLCHAIN_HINT);
    m
}

/// The message when the native extension does not import after `uv sync`.
pub fn format_extension_import_failure(root: &str, stderr: &str) -> (m: String)
    ensures
        m@ == "The native extension openjarvis_rust does not import in "@ + root@ + ".\n\n"@
            + tail_spec(stderr@, 800) + "\n\nRun `"@ + DESKTOP_UV_SYNC_COMMAND@ + "` there, check it with `"@
            + EXTENSION_CHECK_COMMAND@ + "`, then relaunch."@,
{
    let mut m = owned("The native extension openjarvis_rust does not import in ");
    text::push_text(&mut m, root);
    text::push_text(&mut m, ".\n\n");
    let tail = uv_sync_stderr_tail(stderr, STDERR_TAIL_CHARS);
    text::push_text(&mut m, tail.as_str());
    text::push_text(&mut m, "\n\nRun `");
    text::push_text(&mut m, DESKTOP_UV_SYNC_COMMAND);
    text::push_text(&mut m, "` there, check it with `");
    text::push_text(&mut m, EXTENSION_CHECK_COMMAND);
    text::push_text(&mut m, "`, then relaunch.");
    m
}

/// How to find the process that holds a port, on Windows and elsewhere.
pub open spec fn port_owner_hint_spec(port: u16) -> Seq<char> {
    "netstat -ano | findstr :"@ + text::dec(port as nat) + " (Windows) or lsof -nP -iTCP:"@
        + text::dec(port as nat) + " -sTCP:LISTEN (macOS, Linux)"@
}

/// How to find the process that holds a port.
pub fn port_owner_hint(port: u16) -> (m: String)
    ensures
        m@ == port_owner_hint_spec(port),
{
    let mut m = owned("netstat -ano | findstr :");
    text::push_dec(&mut m, port as u64);
    text::push_text(&mut m, " (Windows) or lsof -nP -iTCP:");
    text::push_dec(&mut m, port as u64);
    text::push_text(&mut m, " -sTCP:LISTEN (macOS, Linux)");
    m
}

/// The message when the API port cannot be bound.
pub open spec fn port_unavailable_spec(port: u16, error: Seq<char>) -> Seq<char> {
    "Port "@ + text::dec(port as nat) + " is not available ("@ + error
        + "). Stop the program that uses it, then relaunch.\n\nTo identify it:\n  "@
        + port_owner_hint_spec(port)
}

/// The message when the API port cannot be bound.
pub fn format_port_unavailable(port: u16, error: &str) -> (m: String)
    ensures
        m@ == port_unavailable_spec(port, error@),
{
    let mut m = owned("Port ");
    text::push_dec(&mut m, port as u64);
    text::push_text(&mut m, " is not available (");
    text::push_text(&mut m, error);
    text::push_text(&mut m, "). Stop the program that uses it, then relaunch.\n\nTo identify it:\n  ");
    let h = port_owner_hint(port);
    text::push_text(&mut m, h.as_str());
    m
}

/// The tail of `uv sync`'s stderr keeps the end, not the beginning: it is a
/// suffix of the trimmed text, at most `max_chars` characters long, and all
/// of it when shorter.
pub proof fn law_tail_keeps_the_end(stderr: Seq<char>, max_chars: nat)
    ensures
        tail_spec(stderr, max_chars).len() <= max_chars,
        text::ends_with(text::trim(stderr), tail_spec(stderr, max_chars)),
        text::trim(stderr).len() <= max_chars ==> tail_spec(stderr, max_chars) == text::trim(stderr),
{
    let t = text::trim(stderr);
    let r = tail_spec(stderr, max_chars);
    assert(t.subrange(t.len() - r.len(), t.len() as int) =~= r);
}

} // verus!
