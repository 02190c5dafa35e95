//! Which local model to run: the RAM ladder of the Qwen3.5 family, matching
//! requested tags against installed ones, and the fallbacks used at startup.

use vstd::prelude::*;
use crate::text;
use crate::text::owned;

verus! {

/// One KiB less than a GiB: RAM is measured in KiB, the ladder in GiB.
pub const KIB_PER_GIB: u64 = 1048576;

/// Small, fast model used when startup needs a default Ollama tag.
pub const STARTUP_MODEL: &'static str = "qwen3.5:4b";

/// Tiny fallback model if even the startup model can't be pulled.
pub const FALLBACK_MODEL: &'static str = "qwen3:0.6b";

/// The RAM assumed when the machine does not report it: 8 GiB, in KiB.
pub const DEFAULT_RAM_KIB: u64 = 8388608;

/// The Qwen3.5 ladder, smallest first: each tag with the RAM (GiB) it needs.
pub open spec fn ladder() -> Seq<(Seq<char>, nat)> {
    seq![
        ("qwen3.5:0.8b"@, 4nat),
        ("qwen3.5:2b"@, 6nat),
        ("qwen3.5:4b"@, 8nat),
        ("qwen3.5:9b"@, 12nat),
        ("qwen3.5:27b"@, 24nat),
        ("qwen3.5:35b"@, 32nat),
        ("qwen3.5:122b"@, 96nat),
    ]
}

/// Whether a rung of the ladder fits in `ram_kib` KiB of RAM.
pub open spec fn fits(ram_kib: nat, rung: (Seq<char>, nat)) -> bool {
    ram_kib >= rung.1 * 1048576
}

/// The tags of some rungs.
pub open spec fn tags(rungs: Seq<(Seq<char>, nat)>) -> Seq<Seq<char>> {
    rungs.map_values(|rung: (Seq<char>, nat)| rung.0)
}

/// The predicate "fits in `ram_kib`" on rungs.
pub open spec fn fits_in(ram_kib: nat) -> spec_fn((Seq<char>, nat)) -> bool {
    |rung: (Seq<char>, nat)| fits(ram_kib, rung)
}

/// The tags of the ladder that fit in `ram_kib`, smallest first.
pub open spec fn fitting_models(ram_kib: nat) -> Seq<Seq<char>> {
    tags(ladder().filter(fits_in(ram_kib)))
}

/// The default local model: the second-largest rung that fits, the only one
/// that fits, or the fallback model when none does.
pub open spec fn default_local_model_spec(ram_kib: nat) -> Seq<char> {
    let f = fitting_models(ram_kib);
    if f.len() == 0 {
        FALLBACK_MODEL@
    } else if f.len() == 1 {
        f[0]
    } else {
        f[f.len() - 2]
    }
}

fn rung_tag(i: usize) -> (t: &'static str)
    requires
        i < 7,
    ensures
        t@ == ladder()[i as int].0,
{
    match i {
        0 => "qwen3.5:0.8b",
        1 => "qwen3.5:2b",
        2 => "qwen3.5:4b",
        3 => "qwen3.5:9b",
        4 => "qwen3.5:27b",
        5 => "qwen3.5:35b",
        _ => "qwen3.5:122b",
    }
}

fn rung_min_gib(i: usize) -> (g: u64)
    requires
        i < 7,
    ensures
        g == ladder()[i as int].1,
{
    match i {
        0 => 4,
        1 => 6,
        2 => 8,
        3 => 12,
        4 => 24,
        5 => 32,
        _ => 96,
    }
}

/// The Qwen3.5 models that fit in `ram_kib` KiB, smallest first.
pub fn models_that_fit_in(ram_kib: u64) -> (r: Vec<String>)
    ensures
        text::texts(r@) == fitting_models(ram_kib as nat),
{
    let ghost pred = fits_in(ram_kib as nat);
    let mut r: Vec<String> = Vec::new();
    let mut i: usize = 0;
    while i < 7
        invariant
            i <= 7,
            ladder().len() == 7,
            pred == fits_in(ram_kib as nat),
            text::texts(r@) == tags(ladder().take(i as int).filter(pred)),
        decreases 7 - i,
    {
        let ghost before = r@;
        let ghost prev = ladder().take(i as int).filter(pred);
        proof {
            reveal_with_fuel(Seq::filter, 1);
            assert(ladder().take(i + 1).drop_last() =~= ladder().take(i as int));
            assert(ladder().take(i + 1).last() == ladder()[i as int]);
        }
        if ram_kib >= rung_min_gib(i) * KIB_PER_GIB {
            r.push(owned(rung_tag(i)));
            proof {
                assert(pred(ladder()[i as int]));
                assert(ladder().take(i + 1).filter(pred) == prev.push(ladder()[i as int]));
                assert(text::texts(r@) =~= text::texts(before).push(ladder()[i as int].0));
                assert(tags(prev.push(ladder()[i as int])) =~= tags(prev).push(ladder()[i as int].0));
            }
        } else {
            proof {
                assert(!pred(ladder()[i as int]));
                assert(ladder().take(i + 1).filter(pred) == prev);
            }
        }
        i = i + 1;
    }
    assert(ladder().take(7) =~= ladder());
    r
}

/// The default local model for `ram_kib` KiB of RAM. Deliberately not the
/// largest that fits: it leaves headroom for the OS and the app.
pub fn default_local_model(ram_kib: u64) -> (m: String)
    ensures
        m@ == default_local_model_spec(ram_kib as nat),
{
    let fitting = models_that_fit_in(ram_kib);
    let ghost f = text::texts(fitting@);
    assert(f.len() == fitting.len());
    if fitting.len() == 0 {
        owned(FALLBACK_MODEL)
    } else if fitting.len() == 1 {
        assert(f[0] == fitting@[0]@);
        fitting[0].clone()
    } else {
        let n = fitting.len();
        assert(f[n - 2] == fitting@[n - 2]@);
        fitting[n - 2].clone()
    }
}

/// Two Ollama tags name the same model: equal, or equal once one of them
/// drops its `:latest` suffix.
pub open spec fn names_match(installed: Seq<char>, requested: Seq<char>) -> bool {
    ||| installed == requested
    ||| text::strip_suffix(installed, ":latest"@) == Some(requested)
    ||| text::strip_suffix(requested, ":latest"@) == Some(installed)
}

/// The predicate "names the requested model".
pub open spec fn matches_request(requested: Seq<char>) -> spec_fn(Seq<char>) -> bool {
    |m: Seq<char>| names_match(m, requested)
}

/// The markers that identify embedding or reranking models.
pub open spec fn embedding_markers() -> Seq<Seq<char>> {
    seq!["embed"@, "embedding"@, "rerank"@, "minilm"@, "bge-"@, "bge_"@, "e5-"@, "e5_"@]
}

/// The lower-cased name holds one of the embedding markers.
pub open spec fn looks_embedding_only(model: Seq<char>) -> bool {
    exists|k: int|
        0 <= k < embedding_markers().len() && text::contains(
            text::lower(model),
            #[trigger] embedding_markers()[k],
        )
}

/// A name that is not blank.
pub open spec fn non_blank() -> spec_fn(Seq<char>) -> bool {
    |m: Seq<char>| text::trim(m).len() > 0
}

/// A name that is not blank and does not look like an embedding model.
pub open spec fn chat_capable() -> spec_fn(Seq<char>) -> bool {
    |m: Seq<char>| text::trim(m).len() > 0 && !looks_embedding_only(m)
}

/// The installed model to prefer: the first usable chat model, else the
/// first non-blank name.
pub open spec fn preferred_model_spec(models: Seq<Seq<char>>) -> Option<Seq<char>> {
    match text::find_first(models, chat_capable()) {
        Some(m) => Some(m),
        None => text::find_first(models, non_blank()),
    }
}

/// The installed model to start with: the requested one when installed,
/// else the preferred installed model.
pub open spec fn startup_model_spec(requested: Seq<char>, models: Seq<Seq<char>>) -> Option<Seq<char>> {
    match text::find_first(models, matches_request(requested)) {
        Some(m) => Some(m),
        None => preferred_model_spec(models),
    }
}

/// Whether `installed` and `requested` name the same model.
pub fn model_names_match(installed: &str, requested: &str) -> (b: bool)
    ensures
        b == names_match(installed@, requested@),
{
    if text::text_eq(installed, requested) {
        return true;
    }
    let a = text::text_strip_suffix(installed, ":latest");
    if let Some(x) = a {
        if text::text_eq(x.as_str(), requested) {
            return true;
        }
    }
    let b = text::text_strip_suffix(requested, ":latest");
    if let Some(y) = b {
        if text::text_eq(y.as_str(), installed) {
            return true;
        }
    }
    false
}

/// The first installed model that names `requested`.
pub fn matching_installed_model(models: &[String], requested: &str) -> (r: Option<String>)
    ensures
        text::opt_text(r) == text::find_first(text::texts(models@), matches_request(requested@)),
{
    let ghost s = text::texts(models@);
    let ghost p = matches_request(requested@);
    proof { text::lemma_find_first_ends(s, p); }
    let mut i: usize = 0;
    while i < models.len()
        invariant
            i <= models.len(),
            s == text::texts(models@),
            p == matches_request(requested@),
            text::find_first(s, p) == text::find_first(s.subrange(i as int, s.len() as int), p),
        decreases models.len() - i,
    {
        proof { text::lemma_find_first_step(s, p, i as int); }
        if model_names_match(models[i].as_str(), requested) {
            return Some(models[i].clone());
        }
        i = i + 1;
    }
    None
}

/// Whether the name looks like an embedding or reranking model.
pub fn model_name_looks_embedding_only(model: &str) -> (b: bool)
    ensures
        b == looks_embedding_only(model@),
{
    let name = text::text_lower(model);
    let markers: [&str; 8] = ["embed", "embedding", "rerank", "minilm", "bge-", "bge_", "e5-", "e5_"];
    let mut k: usize = 0;
    while k < 8
        invariant
            k <= 8,
            name@ == text::lower(model@),
            forall|j: int| 0 <= j < 8 ==> (#[trigger] markers@[j])@ == embedding_markers()[j],
            forall|j: int| 0 <= j < k ==> !text::contains(text::lower(model@), #[trigger] embedding_markers()[j]),
        decreases 8 - k,
    {
        if text::text_contains(name.as_str(), markers[k]) {
            assert(text::contains(text::lower(model@), embedding_markers()[k as int]));
            return true;
        }
        k = k + 1;
    }
    false
}

/// The installed model to prefer: the first usable chat model, else the
/// first non-blank name.
pub fn preferred_installed_model(models: &[String]) -> (r: Option<String>)
    ensures
        text::opt_text(r) == preferred_model_spec(text::texts(models@)),
{
    let ghost s = text::texts(models@);
    proof { text::lemma_find_first_ends(s, chat_capable()); text::lemma_find_first_ends(s, non_blank()); }
    let mut i: usize = 0;
    while i < models.len()
        invariant
            i <= models.len(),
            s == text::texts(models@),
            text::find_first(s, chat_capable()) == text::find_first(s.subrange(i as int, s.len() as int), chat_capable()),
        decreases models.len() - i,
    {
        proof { text::lemma_find_first_step(s, chat_capable(), i as int); }
        if !text::is_blank(models[i].as_str()) && !model_name_looks_embedding_only(models[i].as_str()) {
            return Some(models[i].clone());
        }
        i = i + 1;
    }
    let mut i: usize = 0;
    while i < models.len()
        invariant
            i <= models.len(),
            s == text::texts(models@),
            text::find_first(s, chat_capable()) is None,
            text::find_first(s, non_blank()) == text::find_first(s.subrange(i as int, s.len() as int), non_blank()),
        decreases models.len() - i,
    {
        proof { text::lemma_find_first_step(s, non_blank(), i as int); }
        if !text::is_blank(models[i].as_str()) {
            return Some(models[i].clone());
        }
        i = i + 1;
    }
    None
}

/// The installed model to start with: the requested one when it is
/// installed, else the preferred installed model.
pub fn startup_installed_model(requested_model: &str, installed_models: &[String]) -> (r: Option<String>)
    ensures
        text::opt_text(r) == startup_model_spec(requested_model@, text::texts(installed_models@)),
{
    match matching_installed_model(installed_models, requested_model) {
        Some(m) => Some(m),
        None => preferred_installed_model(installed_models),
    }
}

/// The KiB that a `MemTotal:` line of `/proc/meminfo` reports.
pub open spec fn meminfo_line_kib(l: Seq<char>) -> Option<u64> {
    if text::starts_with(l, "MemTotal:"@) && text::words(l).len() > 1 {
        text::parse_u64(text::words(l)[1])
    } else {
        None
    }
}

/// The KiB that a `TotalVisibleMemorySize=` line of `wmic` reports.
pub open spec fn wmic_line_kib(l: Seq<char>) -> Option<u64> {
    match text::strip_prefix(l, "TotalVisibleMemorySize="@) {
        Some(v) => text::parse_u64(text::trim(v)),
        None => None,
    }
}

/// The total RAM, in KiB, that `/proc/meminfo` reports: the first
/// `MemTotal:` line whose second word is a number.
pub open spec fn meminfo_total_kib(contents: Seq<char>) -> Option<u64> {
    text::first_some(text::lines(contents), |l: Seq<char>| meminfo_line_kib(l))
}

/// The total RAM, in KiB, that `wmic OS get TotalVisibleMemorySize /value` reports.
pub open spec fn wmic_total_kib(output: Seq<char>) -> Option<u64> {
    text::first_some(text::lines(output), |l: Seq<char>| wmic_line_kib(l))
}

/// The total RAM, in KiB (rounded down), that `sysctl -n hw.memsize` reports in bytes.
pub open spec fn sysctl_total_kib(output: Seq<char>) -> Option<u64> {
    match text::parse_u64(text::trim(output)) {
        Some(bytes) => Some((bytes / 1024) as u64),
        None => None,
    }
}

fn meminfo_line(l: &str) -> (r: Option<u64>)
    ensures
        r == meminfo_line_kib(l@),
{
    if !text::text_starts_with(l, "MemTotal:") {
        return None;
    }
    let w = text::words_of(l);
    if w.len() > 1 {
        assert(text::texts(w@)[1] == w@[1]@);
        text::parse_u64_text(w[1].as_str())
    } else {
        None
    }
}

fn wmic_line(l: &str) -> (r: Option<u64>)
    ensures
        r == wmic_line_kib(l@),
{
    let prefix = "TotalVisibleMemorySize=";
    if !text::text_starts_with(l, prefix) {
        return None;
    }
    let v = text::chars_of(l);
    let p = text::chars_of(prefix);
    let rest = text::string_of_range(&v, p.len(), v.len());
    let t = text::trimmed(rest.as_str());
    text::parse_u64_text(t.as_str())
}

/// Total RAM in KiB from the text of `/proc/meminfo`.
pub fn parse_meminfo_total_kib(contents: &str) -> (r: Option<u64>)
    ensures
        r == meminfo_total_kib(contents@),
{
    let ls = text::lines_of(contents);
    let ghost s = text::texts(ls@);
    let ghost f = |l: Seq<char>| meminfo_line_kib(l);
    proof { assert(s.subrange(0, s.len() as int) =~= s); }
    let mut i: usize = 0;
    while i < ls.len()
        invariant
            i <= ls.len(),
            s == text::texts(ls@),
            s == text::lines(contents@),
            f == (|l: Seq<char>| meminfo_line_kib(l)),
            text::first_some(s, f) == text::first_some(s.subrange(i as int, s.len() as int), f),
        decreases ls.len() - i,
    {
        proof { text::lemma_first_some_step(s, f, i as int); }
        let r = meminfo_line(ls[i].as_str());
        if r.is_some() {
            return r;
        }
        i = i + 1;
    }
    proof { assert(s.subrange(s.len() as int, s.len() as int).len() == 0); }
    None
}

/// Total RAM in KiB from the output of `wmic OS get TotalVisibleMemorySize /value`.
pub fn parse_wmic_total_kib(output: &str) -> (r: Option<u64>)
    ensures
        r == wmic_total_kib(output@),
{
    let ls = text::lines_of(output);
    let ghost s = text::texts(ls@);
    let ghost f = |l: Seq<char>| wmic_line_kib(l);
    proof { assert(s.subrange(0, s.len() as int) =~= s); }
    let mut i: usize = 0;
    while i < ls.len()
        invariant
            i <= ls.len(),
            s == text::texts(ls@),
            s == text::lines(output@),
            f == (|l: Seq<char>| wmic_line_kib(l)),
            text::first_some(s, f) == text::first_some(s.subrange(i as int, s.len() as int), f),
        decreases ls.len() - i,
    {
        proof { text::lemma_first_some_step(s, f, i as int); }
        let r = wmic_line(ls[i].as_str());
        if r.is_some() {
            return r;
        }
        i = i + 1;
    }
    proof { assert(s.subrange(s.len() as int, s.len() as int).len() == 0); }
    None
}

/// Total RAM in KiB from the output of `sysctl -n hw.memsize` (bytes).
pub fn parse_sysctl_total_kib(output: &str) -> (r: Option<u64>)
    ensures
        r == sysctl_total_kib(output@),
{
    let t = text::trimmed(output);
    match text::parse_u64_text(t.as_str()) {
        Some(bytes) => Some(bytes / 1024),
        None => None,
    }
}

/// The RAM to plan with: what the machine reported, else 8 GiB.
pub fn ram_kib_or_default(reported: Option<u64>) -> (r: u64)
    ensures
        r == match reported {
            Some(k) => k,
            None => DEFAULT_RAM_KIB,
        },
{
    match reported {
        Some(k) => k,
        None => DEFAULT_RAM_KIB,
    }
}

/// A `:latest` tag is optional: `x:latest` and `x` name the same model,
/// whichever side is installed.
pub proof fn law_latest_is_optional(x: Seq<char>)
    ensures
        names_match(x + ":latest"@, x),
        names_match(x, x + ":latest"@),
{
    let y = x + ":latest"@;
    assert(y.subrange(y.len() - (":latest"@).len(), y.len() as int) =~= ":latest"@);
    assert(y.subrange(0, y.len() - (":latest"@).len()) =~= x);
}

/// Matching names is symmetric.
pub proof fn law_names_match_symmetric(a: Seq<char>, b: Seq<char>)
    ensures
        names_match(a, b) == names_match(b, a),
{
}

/// What `find_first` returns satisfies the predicate and is in the list,
/// and it returns something whenever an element satisfies the predicate.
pub proof fn lemma_find_first_sound(s: Seq<Seq<char>>, p: spec_fn(Seq<char>) -> bool)
    ensures
        text::find_first(s, p) matches Some(x) ==> p(x) && s.contains(x),
        (exists|i: int| 0 <= i < s.len() && #[trigger] p(s[i])) ==> text::find_first(s, p) is Some,
    decreases s.len(),
{
    if s.len() > 0 {
        lemma_find_first_sound(s.drop_first(), p);
        if text::find_first(s, p) is Some && !p(s[0]) {
            let x = text::find_first(s, p)->0;
            let k = choose|k: int| 0 <= k < s.drop_first().len() && s.drop_first()[k] == x;
            assert(s[k + 1] == x);
        }
        if p(s[0]) {
            assert(s[0] == s[0]);
        }
        if exists|i: int| 0 <= i < s.len() && #[trigger] p(s[i]) {
            let i = choose|i: int| 0 <= i < s.len() && #[trigger] p(s[i]);
            if i > 0 {
                assert(p(s.drop_first()[i - 1]));
            }
        }
    }
}

/// Startup never depends on a download when a usable model is installed:
/// the requested model is used when installed, else the first usable chat
/// model, else any non-blank name; what is chosen is one of the installed names.
pub proof fn law_startup_uses_installed(requested: Seq<char>, installed: Seq<Seq<char>>)
    ensures
        (exists|i: int| 0 <= i < installed.len() && #[trigger] names_match(installed[i], requested)) ==> (
            startup_model_spec(requested, installed) matches Some(m) && names_match(m, requested)),
        (exists|i: int| 0 <= i < installed.len() && text::trim(#[trigger] installed[i]).len() > 0)
            ==> startup_model_spec(requested, installed) is Some,
        startup_model_spec(requested, installed) matches Some(m) ==> installed.contains(m),
        preferred_model_spec(installed) matches Some(m) ==> text::trim(m).len() > 0,
        (exists|i: int| 0 <= i < installed.len() && #[trigger] chat_capable()(installed[i])) ==> (
            preferred_model_spec(installed) matches Some(m) && !looks_embedding_only(m)),
{
    lemma_find_first_sound(installed, matches_request(requested));
    lemma_find_first_sound(installed, chat_capable());
    lemma_find_first_sound(installed, non_blank());
    if exists|i: int| 0 <= i < installed.len() && #[trigger] names_match(installed[i], requested) {
        let i = choose|i: int| 0 <= i < installed.len() && #[trigger] names_match(installed[i], requested);
        assert(matches_request(requested)(installed[i]));
    }
    if exists|i: int| 0 <= i < installed.len() && text::trim(#[trigger] installed[i]).len() > 0 {
        let i = choose|i: int| 0 <= i < installed.len() && text::trim(#[trigger] installed[i]).len() > 0;
        assert(non_blank()(installed[i]));
    }
}

/// The default local model fits the RAM whenever some rung does, and is
/// never the largest rung that fits when two or more fit.
pub proof fn law_default_model_leaves_headroom(ram_kib: nat)
    ensures
        fitting_models(ram_kib).len() > 0 ==> fitting_models(ram_kib).contains(default_local_model_spec(ram_kib)),
        fitting_models(ram_kib).len() >= 2 ==> default_local_model_spec(ram_kib) != fitting_models(ram_kib).last(),
        fitting_models(ram_kib).len() == 0 ==> default_local_model_spec(ram_kib) == FALLBACK_MODEL@,
{
    let f = fitting_models(ram_kib);
    if f.len() >= 2 {
        assert(f[f.len() - 2] == f[f.len() - 2]);
        lemma_fitting_distinct(ram_kib);
        assert(f.contains(f[f.len() - 2]));
    } else if f.len() == 1 {
        assert(f[0] == f[0]);
    }
}

/// How many rungs fit: the ladder needs ascending amounts of RAM.
pub open spec fn fit_count(ram_kib: nat) -> nat {
    if ram_kib < 4 * 1048576 {
        0
    } else if ram_kib < 6 * 1048576 {
        1
    } else if ram_kib < 8 * 1048576 {
        2
    } else if ram_kib < 12 * 1048576 {
        3
    } else if ram_kib < 24 * 1048576 {
        4
    } else if ram_kib < 32 * 1048576 {
        5
    } else if ram_kib < 96 * 1048576 {
        6
    } else {
        7
    }
}

/// The rungs that fit are the first `fit_count` rungs.
proof fn lemma_fitting_prefix(ram_kib: nat)
    ensures
        ladder().filter(fits_in(ram_kib)) == ladder().take(fit_count(ram_kib) as int),
{
    reveal_with_fuel(Seq::filter, 8);
    let l = ladder();
    let p = fits_in(ram_kib);
    let k = fit_count(ram_kib);
    assert(l.drop_last() =~= l.take(6));
    assert(l.take(6).drop_last() =~= l.take(5));
    assert(l.take(5).drop_last() =~= l.take(4));
    assert(l.take(4).drop_last() =~= l.take(3));
    assert(l.take(3).drop_last() =~= l.take(2));
    assert(l.take(2).drop_last() =~= l.take(1));
    assert(l.take(1).drop_last() =~= l.take(0));
    assert(l.take(7) =~= l);
    assert(l.take(k as int).filter(p) == l.take(k as int)) by {
        assert(l.take(0).filter(p) =~= l.take(0));
        assert(k >= 1 ==> l.take(1).filter(p) =~= l.take(1));
        assert(k >= 2 ==> l.take(2).filter(p) =~= l.take(2));
        assert(k >= 3 ==> l.take(3).filter(p) =~= l.take(3));
        assert(k >= 4 ==> l.take(4).filter(p) =~= l.take(4));
        assert(k >= 5 ==> l.take(5).filter(p) =~= l.take(5));
        assert(k >= 6 ==> l.take(6).filter(p) =~= l.take(6));
        assert(k >= 7 ==> l.take(7).filter(p) =~= l.take(7));
    }
    assert(k <= 6 ==> l.take(7).filter(p) == l.take(6).filter(p));
    assert(k <= 5 ==> l.take(6).filter(p) == l.take(5).filter(p));
    assert(k <= 4 ==> l.take(5).filter(p) == l.take(4).filter(p));
    assert(k <= 3 ==> l.take(4).filter(p) == l.take(3).filter(p));
    assert(k <= 2 ==> l.take(3).filter(p) == l.take(2).filter(p));
    assert(k <= 1 ==> l.take(2).filter(p) == l.take(1).filter(p));
    assert(k == 0 ==> l.take(1).filter(p) == l.take(0).filter(p));
}

/// The fitting tags are distinct (so "second largest" is not "largest").
proof fn lemma_fitting_distinct(ram_kib: nat)
    ensures
        fitting_models(ram_kib).len() >= 2 ==> fitting_models(ram_kib)[fitting_models(ram_kib).len() - 2] != fitting_models(ram_kib).last(),
{
    lemma_fitting_prefix(ram_kib);
    reveal_strlit("qwen3.5:0.8b");
    reveal_strlit("qwen3.5:2b");
    reveal_strlit("qwen3.5:4b");
    reveal_strlit("qwen3.5:9b");
    reveal_strlit("qwen3.5:27b");
    reveal_strlit("qwen3.5:35b");
    reveal_strlit("qwen3.5:122b");
    let f = fitting_models(ram_kib);
    let k = fit_count(ram_kib);
    if f.len() >= 2 {
        assert(f.len() == k);
        assert(f[k - 2] == ladder()[k - 2].0);
        assert(f[k - 1] == ladder()[k - 1].0);
        if k == 2 || k == 5 || k == 7 {
            assert(ladder()[k - 2].0.len() != ladder()[k - 1].0.len());
        } else {
            assert(ladder()[k - 2].0[8] != ladder()[k - 1].0[8]);
        }
    }
}

/// A name is embedding-only exactly when its lower-cased text holds one of
/// `embed`, `embedding`, `rerank`, `minilm`, `bge-`, `bge_`, `e5-`, `e5_`.
pub proof fn law_embedding_markers(model: Seq<char>)
    ensures
        looks_embedding_only(model) <==> {
            let l = text::lower(model);
            ||| text::contains(l, "embed"@)
            ||| text::contains(l, "embedding"@)
            ||| text::contains(l, "rerank"@)
            ||| text::contains(l, "minilm"@)
            ||| text::contains(l, "bge-"@)
            ||| text::contains(l, "bge_"@)
            ||| text::contains(l, "e5-"@)
            ||| text::contains(l, "e5_"@)
        },
{
    let ms = embedding_markers();
    assert(ms[0] == "embed"@);
    assert(ms[1] == "embedding"@);
    assert(ms[2] == "rerank"@);
    assert(ms[3] == "minilm"@);
    assert(ms[4] == "bge-"@);
    assert(ms[5] == "bge_"@);
    assert(ms[6] == "e5-"@);
    assert(ms[7] == "e5_"@);
    if looks_embedding_only(model) {
        let k = choose|k: int| 0 <= k < ms.len() && text::contains(text::lower(model), #[trigger] ms[k]);
        assert(0 <= k < 8);
    }
}

/// A name that holds none of the embedding markers.
pub open spec fn free_of_markers(model: Seq<char>) -> bool {
    let l = text::lower(model);
    &&& !text::contains(l, "embed"@)
    &&& !text::contains(l, "embedding"@)
    &&& !text::contains(l, "rerank"@)
    &&& !text::contains(l, "minilm"@)
    &&& !text::contains(l, "bge-"@)
    &&& !text::contains(l, "bge_"@)
    &&& !text::contains(l, "e5-"@)
    &&& !text::contains(l, "e5_"@)
}

/// Embedding models are skipped: when a non-blank name free of every
/// embedding marker is installed, the preferred model is such a name, and
/// so is the startup model unless the requested model is installed.
pub proof fn law_preferred_skips_embedding(requested: Seq<char>, installed: Seq<Seq<char>>)
    requires
        exists|i: int| 0 <= i < installed.len() && text::trim(installed[i]).len() > 0 && #[trigger] free_of_markers(installed[i]),
    ensures
        preferred_model_spec(installed) matches Some(p) && text::trim(p).len() > 0 && free_of_markers(p),
        !(exists|i: int| 0 <= i < installed.len() && #[trigger] names_match(installed[i], requested))
            ==> startup_model_spec(requested, installed) == preferred_model_spec(installed),
{
    let i = choose|i: int| 0 <= i < installed.len() && text::trim(installed[i]).len() > 0 && #[trigger] free_of_markers(installed[i]);
    law_embedding_markers(installed[i]);
    assert(chat_capable()(installed[i]));
    lemma_find_first_sound(installed, chat_capable());
    let p = text::find_first(installed, chat_capable())->0;
    law_embedding_markers(p);
    assert(chat_capable()(p));
    if !(exists|i: int| 0 <= i < installed.len() && #[trigger] names_match(installed[i], requested)) {
        lemma_find_first_sound(installed, matches_request(requested));
        if text::find_first(installed, matches_request(requested)) is Some {
            let x = text::find_first(installed, matches_request(requested))->0;
            let k = choose|k: int| 0 <= k < installed.len() && installed[k] == x;
            assert(names_match(installed[k], requested));
        }
    }
}

} // verus!
