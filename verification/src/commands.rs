//! The URLs and answers of the commands the desktop UI invokes.

use vstd::prelude::*;
use crate::boot;
use crate::json;
use crate::json::JsonValue;
use crate::text;
use crate::text::owned;

verus! {

/// The local API server's base URL.
pub open spec fn api_base_spec() -> Seq<char> {
    "http://127.0.0.1:"@ + text::dec(boot::JARVIS_PORT as nat)
}

/// The local API server's base URL.
pub fn api_base() -> (r: String)
    ensures
        r@ == api_base_spec(),
{
    let mut r = owned("http://127.0.0.1:");
    text::push_dec(&mut r, boot::JARVIS_PORT as u64);
    r
}

/// A resource of the API server.
pub enum Endpoint {
    Health,
    Energy,
    Telemetry,
    Traces(u32),
    Trace(String),
    LearningStats,
    LearningPolicy,
    MemoryStats,
    MemorySearch,
    Agents,
    Models,
    Savings,
    Transcribe,
    SpeechHealth,
}

/// The base a command talks to: the URL the UI passed, or the local server when it passed none.
pub open spec fn base_or_local(api_url: Seq<char>) -> Seq<char> {
    if api_url.len() == 0 {
        api_base_spec()
    } else {
        api_url
    }
}

/// The URL of a resource. Health always asks the local server; the speech
/// resources use the given base as is; the others fall back to the local server.
pub open spec fn endpoint_url_spec(api_url: Seq<char>, ep: Endpoint) -> Seq<char> {
    match ep {
        Endpoint::Health => api_base_spec() + "/health"@,
        Endpoint::Energy => base_or_local(api_url) + "/v1/telemetry/energy"@,
        Endpoint::Telemetry => base_or_local(api_url) + "/v1/telemetry/stats"@,
        Endpoint::Traces(limit) => base_or_local(api_url) + "/v1/traces?limit="@ + text::dec(limit as nat),
        Endpoint::Trace(id) => base_or_local(api_url) + "/v1/traces/"@ + id@,
        Endpoint::LearningStats => base_or_local(api_url) + "/v1/learning/stats"@,
        Endpoint::LearningPolicy => base_or_local(api_url) + "/v1/learning/policy"@,
        Endpoint::MemoryStats => base_or_local(api_url) + "/v1/memory/stats"@,
        Endpoint::MemorySearch => base_or_local(api_url) + "/v1/memory/search"@,
        Endpoint::Agents => base_or_local(api_url) + "/v1/agents"@,
        Endpoint::Models => base_or_local(api_url) + "/v1/models"@,
        Endpoint::Savings => base_or_local(api_url) + "/v1/savings"@,
        Endpoint::Transcribe => api_url + "/v1/speech/transcribe"@,
        Endpoint::SpeechHealth => api_url + "/v1/speech/health"@,
    }
}

fn base_of(api_url: &str) -> (r: String)
    ensures
        r@ == base_or_local(api_url@),
{
    if text::text_is_empty(api_url) {
        api_base()
    } else {
        owned(api_url)
    }
}

fn with_path(mut base: String, path: &str) -> (r: String)
    ensures
        r@ == base@ + path@,
{
    text::push_text(&mut base, path);
    base
}

/// The URL of a resource.
pub fn endpoint_url(api_url: &str, ep: &Endpoint) -> (r: String)
    ensures
        r@ == endpoint_url_spec(api_url@, *ep),
{
    match ep {
        Endpoint::Health => with_path(api_base(), "/health"),
        Endpoint::Energy => with_path(base_of(api_url), "/v1/telemetry/energy"),
        Endpoint::Telemetry => with_path(base_of(api_url), "/v1/telemetry/stats"),
        Endpoint::Traces(limit) => {
            let mut r = with_path(base_of(api_url), "/v1/traces?limit=");
            text::push_dec(&mut r, *limit as u64);
            r
        },
        Endpoint::Trace(id) => {
            let mut r = with_path(base_of(api_url), "/v1/traces/");
            text::push_text(&mut r, id.as_str());
            r
        },
        Endpoint::LearningStats => with_path(base_of(api_url), "/v1/learning/stats"),
        Endpoint::LearningPolicy => with_path(base_of(api_url), "/v1/learning/policy"),
        Endpoint::MemoryStats => with_path(base_of(api_url), "/v1/memory/stats"),
        Endpoint::MemorySearch => with_path(base_of(api_url), "/v1/memory/search"),
        Endpoint::Agents => with_path(base_of(api_url), "/v1/agents"),
        Endpoint::Models => with_path(base_of(api_url), "/v1/models"),
        Endpoint::Savings => with_path(base_of(api_url), "/v1/savings"),
        Endpoint::Transcribe => with_path(owned(api_url), "/v1/speech/transcribe"),
        Endpoint::SpeechHealth => with_path(owned(api_url), "/v1/speech/health"),
    }
}

/// The message when the server cannot be reached.
pub fn connection_failed(error: &str) -> (m: String)
    ensures
        m@ == "Connection failed: "@ + error@,
{
    with_path(owned("Connection failed: "), error)
}

/// The message when the answer is not the JSON expected.
pub fn invalid_response(error: &str) -> (m: String)
    ensures
        m@ == "Invalid response: "@ + error@,
{
    with_path(owned("Invalid response: "), error)
}

/// The health check needs a backend this app started.
pub fn health_precondition(backend_running: bool) -> (r: Result<(), String>)
    ensures
        r is Ok <==> backend_running,
        r matches Err(e) ==> e@ == "Jarvis backend is not running."@,
{
    if backend_running {
        Ok(())
    } else {
        Err(owned("Jarvis backend is not running."))
    }
}

/// What a failed transcription reports: the `detail` text of a JSON body
/// when it has a non-empty one, else the body itself.
pub open spec fn transcription_detail(parsed: Result<JsonValue, Seq<char>>, body: Seq<char>) -> Seq<char> {
    match parsed {
        Ok(v) => match json::as_str(json::get(v, "detail"@)) {
            Some(d) => if d.len() > 0 {
                d
            } else {
                body
            },
            None => body,
        },
        Err(_) => body,
    }
}

/// The message of a failed transcription, given the parsed body.
pub fn transcription_error_from(status: u16, parsed: Result<JsonValue, String>, body: &str) -> (m: String)
    ensures
        m@ == "Transcription failed ("@ + text::dec(status as nat) + "): "@ + transcription_detail(json::parsed_view(parsed), body@),
{
    let detail = match &parsed {
        Ok(v) => match json::json_as_str(json::json_get(v, "detail")) {
            Some(d) => if !text::text_is_empty(d.as_str()) {
                d
            } else {
                owned(body)
            },
            None => owned(body),
        },
        Err(_) => owned(body),
    };
    let mut m = owned("Transcription failed (");
    text::push_dec(&mut m, status as u64);
    text::push_text(&mut m, "): ");
    text::push_text(&mut m, detail.as_str());
    m
}

/// The message of a failed transcription (HTTP status and response body).
pub fn transcription_error(status: u16, body: &str) -> (m: String)
    ensures
        m@ == "Transcription failed ("@ + text::dec(status as nat) + "): "@ + transcription_detail(json::json_parse(body@), body@),
{
    transcription_error_from(status, json::parse_json(body), body)
}

/// Savings are submitted only when the leaderboard URL and key are both set.
pub fn savings_submission_enabled(supabase_url: &str, supabase_key: &str) -> (b: bool)
    ensures
        b == (supabase_url@.len() > 0 && supabase_key@.len() > 0),
{
    !text::text_is_empty(supabase_url) && !text::text_is_empty(supabase_key)
}

/// The leaderboard endpoint, which merges a repeated anonymous id.
pub fn savings_submission_url(supabase_url: &str) -> (r: String)
    ensures
        r@ == supabase_url@ + "/rest/v1/savings_entries?on_conflict=anon_id"@,
{
    with_path(owned(supabase_url), "/rest/v1/savings_entries?on_conflict=anon_id")
}

/// The `Authorization` header value for the leaderboard.
pub fn bearer(key: &str) -> (r: String)
    ensures
        r@ == "Bearer "@ + key@,
{
    with_path(owned("Bearer "), key)
}

/// The arguments of `uv run jarvis <args>`.
pub fn jarvis_command_args(args: &Vec<String>) -> (r: Vec<String>)
    ensures
        text::texts(r@) == seq!["run"@, "jarvis"@] + text::texts(args@),
{
    let mut r: Vec<String> = Vec::new();
    r.push(owned("run"));
    r.push(owned("jarvis"));
    let mut i: usize = 0;
    assert(text::texts(r@) =~= seq!["run"@, "jarvis"@] + text::texts(args@).take(0));
    while i < args.len()
        invariant
            i <= args.len(),
            text::texts(r@) == seq!["run"@, "jarvis"@] + text::texts(args@).take(i as int),
        decreases args.len() - i,
    {
        let ghost before = text::texts(r@);
        r.push(args[i].clone());
        assert(text::texts(r@) =~= before.push(args@[i as int]@));
        assert(text::texts(args@).take(i + 1) =~= text::texts(args@).take(i as int).push(args@[i as int]@));
        i = i + 1;
    }
    assert(text::texts(args@).take(args@.len() as int) =~= text::texts(args@));
    r
}

/// `jarvis serve` runs until stopped; other commands are waited for.
pub fn is_serve_command(args: &Vec<String>) -> (b: bool)
    ensures
        b == (args@.len() > 0 && args@[0]@ == "serve"@),
{
    args.len() > 0 && text::text_eq(args[0].as_str(), "serve")
}

/// What polling a starting `jarvis serve` decides.
pub enum ServePoll {
    /// Stop with this error: the process exited first.
    Exited(String),
    /// Stop: the server answers.
    Ready(String),
    /// Stop with this error: the deadline passed.
    TimedOut(String),
    /// Sleep 500 ms and poll again.
    Wait,
}

/// The view of a poll decision.
pub open spec fn poll_view(p: ServePoll) -> (nat, Seq<char>) {
    match p {
        ServePoll::Exited(m) => (0, m@),
        ServePoll::Ready(m) => (1, m@),
        ServePoll::TimedOut(m) => (2, m@),
        ServePoll::Wait => (3, Seq::empty()),
    }
}

/// One poll of a starting `jarvis serve`: an exit (with its exit code)
/// reports the process's stderr; a healthy answer reports where it runs;
/// past the deadline it gives up; otherwise it waits.
pub open spec fn serve_poll_spec(exited: Option<Option<i32>>, stderr: Seq<char>, healthy: bool, past_deadline: bool) -> (nat, Seq<char>) {
    match exited {
        Some(code) => (0, "jarvis serve exited (code "@ + boot::debug_code(code) + ") before becoming healthy:\n"@ + text::trim(stderr)),
        None => if healthy {
            (1, "jarvis serve is ready on "@ + api_base_spec())
        } else if past_deadline {
            (2, "jarvis serve did not become healthy on port "@ + text::dec(boot::JARVIS_PORT as nat) + " within 120s."@)
        } else {
            (3, Seq::empty())
        },
    }
}

/// One poll of a starting `jarvis serve`.
pub fn serve_poll(exited: Option<Option<i32>>, stderr: &str, healthy: bool, past_deadline: bool) -> (r: ServePoll)
    ensures
        poll_view(r) == serve_poll_spec(exited, stderr@, healthy, past_deadline),
{
    match exited {
        Some(code) => {
            let c = boot::debug_code_text(code);
            let mut m = owned("jarvis serve exited (code ");
            text::push_text(&mut m, c.as_str());
            text::push_text(&mut m, ") before becoming healthy:\n");
            let t = text::trimmed(stderr);
            text::push_text(&mut m, t.as_str());
            ServePoll::Exited(m)
        },
        None => if healthy {
            let b = api_base();
            ServePoll::Ready(with_path(owned("jarvis serve is ready on "), b.as_str()))
        } else if past_deadline {
            let mut m = owned("jarvis serve did not become healthy on port ");
            text::push_dec(&mut m, boot::JARVIS_PORT as u64);
            text::push_text(&mut m, " within 120s.");
            ServePoll::TimedOut(m)
        } else {
            ServePoll::Wait
        },
    }
}

/// How a short `uv run jarvis` command went.
pub enum CommandRun {
    /// It ran; whether it succeeded, and its output as text.
    Finished { success: bool, stdout: String, stderr: String },
    /// It could not be started; the error.
    LaunchFailed(String),
}

/// What a short `jarvis` command reports: its stdout when it succeeded, its
/// stderr when it failed, and why it could not be started.
pub open spec fn command_result_spec(run: CommandRun) -> Result<Seq<char>, Seq<char>> {
    match run {
        CommandRun::Finished { success, stdout, stderr } => if success {
            Ok(stdout@)
        } else {
            Err(stderr@)
        },
        CommandRun::LaunchFailed(e) => Err("Failed to launch jarvis: "@ + e@),
    }
}

/// The result of a short `jarvis` command.
pub fn jarvis_command_result(run: CommandRun) -> (r: Result<String, String>)
    ensures
        match r {
            Ok(t) => command_result_spec(run) == Ok::<Seq<char>, Seq<char>>(t@),
            Err(e) => command_result_spec(run) == Err::<Seq<char>, Seq<char>>(e@),
        },
{
    match run {
        CommandRun::Finished { success, stdout, stderr } => if success {
            Ok(stdout)
        } else {
            Err(stderr)
        },
        CommandRun::LaunchFailed(e) => Err(with_path(owned("Failed to launch jarvis: "), e.as_str())),
    }
}

/// The message when `jarvis serve` could not be started.
pub fn serve_launch_error(error: &str) -> (m: String)
    ensures
        m@ == "Failed to launch jarvis serve: "@ + error@,
{
    with_path(owned("Failed to launch jarvis serve: "), error)
}

/// The message when the HTTP client that polls `jarvis serve` cannot be built.
pub fn poll_client_error(error: &str) -> (m: String)
    ensures
        m@ == "Failed to build HTTP client: "@ + error@,
{
    with_path(owned("Failed to build HTTP client: "), error)
}

} // verus!
