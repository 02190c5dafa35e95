//! Cloud API keys: which names are managed, how an engine's key is named,
//! the legacy `cloud-keys.env` file, and what the secure store's answers mean.

use vstd::prelude::*;
use crate::config;
use crate::config::{InferenceConfig, SourceKind};
use crate::boot::{SetupStatus, StatusView, starting_spec, unconfigured_spec};
use crate::text;
use crate::text::owned;

verus! {

/// The secure-storage service under which every key is kept.
pub const SECURE_KEY_SERVICE: &'static str = "OpenJarvis Cloud Keys";

/// The key names that are always managed, in the order the desktop lists them.
pub open spec fn managed_base() -> Seq<Seq<char>> {
    seq![
        "GROQ_API_KEY"@,
        "OPENAI_API_KEY"@,
        "ANTHROPIC_API_KEY"@,
        "GEMINI_API_KEY"@,
        "GOOGLE_API_KEY"@,
        "OPENROUTER_API_KEY"@,
        "MINIMAX_API_KEY"@,
        "TAVILY_API_KEY"@,
    ]
}

/// A name the secure store accepts: 1 to 128 characters of `A-Z`, `0-9`
/// and `_`, ending in `_API_KEY`.
pub open spec fn valid_key_name(n: Seq<char>) -> bool {
    &&& n.len() > 0
    &&& n.len() <= 128
    &&& text::ends_with(n, "_API_KEY"@)
    &&& forall|i: int| 0 <= i < n.len() ==> (text::is_ascii_upper(#[trigger] n[i]) || text::is_ascii_digit(n[i]) || n[i] == '_')
}

/// One character of an engine's key name.
pub open spec fn engine_key_char(c: char) -> char {
    if text::is_ascii_alnum(c) {
        text::ascii_upper(c)
    } else {
        '_'
    }
}

/// The API key name of an OpenAI-compatible engine: its letters and digits
/// upper-cased, other characters as `_`, outer `_` trimmed, `LMSTUDIO` when
/// nothing is left, then `_API_KEY`.
pub open spec fn engine_key_name_spec(engine: Seq<char>) -> Seq<char> {
    let n = engine.map_values(|c: char| engine_key_char(c));
    let t = text::trim_end_char(text::trim_start_char(n, '_'), '_');
    (if t.len() == 0 {
        "LMSTUDIO"@
    } else {
        t
    }) + "_API_KEY"@
}

/// The extra key a custom endpoint brings, when its name is valid.
pub open spec fn custom_key(cfg: config::ConfigView) -> Option<Seq<char>> {
    if cfg.kind == SourceKind::Custom && valid_key_name(engine_key_name_spec(config::custom_engine(cfg))) {
        Some(engine_key_name_spec(config::custom_engine(cfg)))
    } else {
        None
    }
}

/// The key names managed for a configuration.
pub open spec fn is_managed_key(cfg: config::ConfigView, n: Seq<char>) -> bool {
    managed_base().contains(n) || custom_key(cfg) == Some(n)
}

/// Whether `key_name` is a name the secure store accepts.
pub fn validate_cloud_key_name(key_name: &str) -> (r: Result<(), String>)
    ensures
        r is Ok <==> valid_key_name(key_name@),
        r matches Err(e) ==> e@ == "Invalid API key name: "@ + key_name@,
{
    let v = text::chars_of(key_name);
    let mut ok = v.len() > 0 && v.len() <= 128 && text::text_ends_with(key_name, "_API_KEY");
    let mut i: usize = 0;
    while ok && i < v.len()
        invariant
            i <= v.len(),
            v@ == key_name@,
            ok ==> forall|j: int| 0 <= j < i ==> (text::is_ascii_upper(#[trigger] v@[j]) || text::is_ascii_digit(v@[j]) || v@[j] == '_'),
            ok ==> (v.len() > 0 && v.len() <= 128 && text::ends_with(key_name@, "_API_KEY"@)),
            !ok ==> !valid_key_name(key_name@),
        decreases v.len() - i,
    {
        let c = v[i];
        if !(('A' <= c && c <= 'Z') || ('0' <= c && c <= '9') || c == '_') {
            ok = false;
        }
        i = i + 1;
    }
    if ok {
        Ok(())
    } else {
        let mut m = owned("Invalid API key name: ");
        text::push_text(&mut m, key_name);
        Err(m)
    }
}

/// The API key name of an OpenAI-compatible engine.
pub fn engine_api_key_name(engine: &str) -> (r: String)
    ensures
        r@ == engine_key_name_spec(engine@),
{
    let v = text::chars_of(engine);
    let mut n = String::new();
    let mut i: usize = 0;
    while i < v.len()
        invariant
            i <= v.len(),
            v@ == engine@,
            n@ == v@.take(i as int).map_values(|c: char| engine_key_char(c)),
        decreases v.len() - i,
    {
        let c = v[i];
        let u = if ('a' <= c && c <= 'z') {
            ((c as u8) - 32) as char
        } else if ('A' <= c && c <= 'Z') || ('0' <= c && c <= '9') {
            c
        } else {
            '_'
        };
        n.push(u);
        assert(v@.take(i + 1).map_values(|c: char| engine_key_char(c)) =~= v@.take(i as int).map_values(
            |c: char| engine_key_char(c),
        ).push(engine_key_char(c)));
        i = i + 1;
    }
    assert(v@.take(v@.len() as int) =~= v@);
    let w = text::chars_of(n.as_str());
    let mut lo: usize = 0;
    while lo < w.len() && w[lo] == '_'
        invariant
            lo <= w.len(),
            forall|j: int| 0 <= j < lo ==> #[trigger] w@[j] == '_',
        decreases w.len() - lo,
    {
        lo = lo + 1;
    }
    proof { lemma_trim_start_char_at(w@, '_', lo as int); }
    let s = text::string_of_range(&w, lo, w.len());
    let t = text::text_trim_end_char(s.as_str(), '_');
    let mut r = if text::text_is_empty(t.as_str()) {
        owned("LMSTUDIO")
    } else {
        t
    };
    text::push_text(&mut r, "_API_KEY");
    r
}

/// Skipping `k` leading `c`, up to another character, is `trim_start_char`.
pub proof fn lemma_trim_start_char_at(s: Seq<char>, c: char, k: int)
    requires
        0 <= k <= s.len(),
        forall|j: int| 0 <= j < k ==> #[trigger] s[j] == c,
        k == s.len() || s[k] != c,
    ensures
        text::trim_start_char(s, c) == s.subrange(k, s.len() as int),
    decreases k,
{
    if k == 0 {
        assert(s.subrange(0, s.len() as int) =~= s);
    } else {
        let t = s.drop_first();
        assert forall|j: int| 0 <= j < k - 1 implies #[trigger] t[j] == c by {
            assert(t[j] == s[j + 1]);
        }
        lemma_trim_start_char_at(t, c, k - 1);
        assert(t.subrange(k - 1, t.len() as int) =~= s.subrange(k, s.len() as int));
    }
}

/// Adds `x` to the strictly sorted `v`, unless it is already there.
pub fn insert_sorted_unique(v: &mut Vec<String>, x: String)
    requires
        text::strictly_sorted(text::texts(old(v)@)),
    ensures
        text::strictly_sorted(text::texts(final(v)@)),
        forall|n: Seq<char>| #[trigger] text::texts(final(v)@).contains(n) <==> (text::texts(old(v)@).contains(n) || n == x@),
{
    let ghost s0 = text::texts(v@);
    let mut i: usize = 0;
    while i < v.len() && text::text_less(v[i].as_str(), x.as_str())
        invariant
            i <= v.len(),
            s0 == text::texts(v@),
            forall|j: int| 0 <= j < i ==> text::text_lt(#[trigger] s0[j], x@),
        decreases v.len() - i,
    {
        i = i + 1;
    }
    if i < v.len() && text::text_eq(v[i].as_str(), x.as_str()) {
        assert(s0[i as int] == x@);
        assert forall|n: Seq<char>| #[trigger] s0.contains(n) <==> (s0.contains(n) || n == x@) by {
            if n == x@ {
                assert(s0[i as int] == n);
            }
        }
        return;
    }
    proof {
        if i < v.len() {
            text::lemma_text_lt_total(s0[i as int], x@);
        }
    }
    let ghost xv = x@;
    v.insert(i, x);
    let ghost s1 = text::texts(v@);
    proof {
        assert(s1 =~= s0.insert(i as int, xv));
        assert forall|a: int, b: int| 0 <= a < b < s1.len() implies text::text_lt(#[trigger] s1[a], #[trigger] s1[b]) by {
            if b < i {
            } else if b == i {
            } else if a < i {
                assert(s1[b] == s0[b - 1]);
                if b - 1 > i {
                    assert(text::text_lt(s0[i as int], s0[b - 1]));
                    text::lemma_text_lt_transitive(xv, s0[i as int], s0[b - 1]);
                }
                text::lemma_text_lt_transitive(s0[a], xv, s0[b - 1]);
            } else if a == i {
                assert(s1[b] == s0[b - 1]);
                if b - 1 > i {
                    assert(text::text_lt(s0[i as int], s0[b - 1]));
                    text::lemma_text_lt_transitive(xv, s0[i as int], s0[b - 1]);
                }
            } else {
                assert(s1[a] == s0[a - 1]);
                assert(s1[b] == s0[b - 1]);
            }
        }
        assert forall|n: Seq<char>| #[trigger] s1.contains(n) <==> (s0.contains(n) || n == xv) by {
            if s1.contains(n) {
                let k = choose|k: int| 0 <= k < s1.len() && s1[k] == n;
                if k < i {
                    assert(s0[k] == n);
                } else if k > i {
                    assert(s0[k - 1] == n);
                }
            }
            if s0.contains(n) {
                let k = choose|k: int| 0 <= k < s0.len() && s0[k] == n;
                if k < i {
                    assert(s1[k] == n);
                } else {
                    assert(s1[k + 1] == n);
                }
            }
            if n == xv {
                assert(s1[i as int] == n);
            }
        }
    }
}

/// The key names managed for a configuration, sorted and without repeats:
/// the fixed provider keys, plus a custom endpoint's engine key when its
/// name is valid.
pub fn managed_cloud_key_names(cfg: &InferenceConfig) -> (r: Vec<String>)
    ensures
        text::strictly_sorted(text::texts(r@)),
        forall|n: Seq<char>| #[trigger] text::texts(r@).contains(n) <==> is_managed_key(cfg@, n),
{
    let base: [&str; 8] = [
        "GROQ_API_KEY",
        "OPENAI_API_KEY",
        "ANTHROPIC_API_KEY",
        "GEMINI_API_KEY",
        "GOOGLE_API_KEY",
        "OPENROUTER_API_KEY",
        "MINIMAX_API_KEY",
        "TAVILY_API_KEY",
    ];
    let mut names: Vec<String> = Vec::new();
    let mut k: usize = 0;
    while k < 8
        invariant
            k <= 8,
            forall|j: int| 0 <= j < 8 ==> (#[trigger] base@[j])@ == managed_base()[j],
            text::strictly_sorted(text::texts(names@)),
            forall|n: Seq<char>| #[trigger] text::texts(names@).contains(n) <==> managed_base().take(k as int).contains(n),
        decreases 8 - k,
    {
        let ghost before = text::texts(names@);
        insert_sorted_unique(&mut names, owned(base[k]));
        proof {
            assert forall|n: Seq<char>| #[trigger] managed_base().take(k + 1).contains(n) <==> (managed_base().take(k as int).contains(n) || n == managed_base()[k as int]) by {
                let t1 = managed_base().take(k + 1);
                let t0 = managed_base().take(k as int);
                if t1.contains(n) {
                    let j = choose|j: int| 0 <= j < t1.len() && t1[j] == n;
                    if j < k {
                        assert(t0[j] == n);
                    }
                }
                if t0.contains(n) {
                    let j = choose|j: int| 0 <= j < t0.len() && t0[j] == n;
                    assert(t1[j] == n);
                }
                if n == managed_base()[k as int] {
                    assert(t1[k as int] == n);
                }
            }
        }
        k = k + 1;
    }
    assert(managed_base().take(8) =~= managed_base());
    if cfg.kind == SourceKind::Custom {
        let engine = match &cfg.engine {
            Some(e) => e.clone(),
            None => owned(config::CUSTOM_FALLBACK_ENGINE),
        };
        let key_name = engine_api_key_name(engine.as_str());
        if validate_cloud_key_name(key_name.as_str()).is_ok() {
            insert_sorted_unique(&mut names, key_name);
        }
    }
    names
}

/// A `KEY=VALUE` line of the legacy `cloud-keys.env` file; blank lines and
/// `#` comments hold no key.
pub open spec fn legacy_line(l: Seq<char>) -> Option<(Seq<char>, Seq<char>)> {
    let t = text::trim(l);
    if t.len() == 0 || text::starts_with(t, "#"@) {
        None
    } else {
        match text::split_once(t, '=') {
            Some(kv) => Some((text::trim(kv.0), text::trim(kv.1))),
            None => None,
        }
    }
}

/// The key/value pairs of a legacy `cloud-keys.env` file, in order.
pub open spec fn legacy_keys(contents: Seq<char>) -> Seq<(Seq<char>, Seq<char>)> {
    text::lines(contents).filter_map(|l: Seq<char>| legacy_line(l))
}

/// The texts of key/value pairs.
pub open spec fn pair_texts(v: Seq<(String, String)>) -> Seq<(Seq<char>, Seq<char>)> {
    v.map_values(|p: (String, String)| (p.0@, p.1@))
}

fn legacy_line_of(l: &str) -> (r: Option<(String, String)>)
    ensures
        match r {
            Some(p) => legacy_line(l@) == Some((p.0@, p.1@)),
            None => legacy_line(l@) is None,
        },
{
    let t = text::trimmed(l);
    if text::text_is_empty(t.as_str()) || text::text_starts_with(t.as_str(), "#") {
        return None;
    }
    match text::text_split_once(t.as_str(), '=') {
        Some((k, v)) => Some((text::trimmed(k.as_str()), text::trimmed(v.as_str()))),
        None => None,
    }
}

/// The key/value pairs of the legacy `cloud-keys.env` file text.
pub fn read_legacy_cloud_keys(contents: &str) -> (r: Vec<(String, String)>)
    ensures
        pair_texts(r@) == legacy_keys(contents@),
{
    let ls = text::lines_of(contents);
    let ghost s = text::texts(ls@);
    let ghost f = |l: Seq<char>| legacy_line(l);
    let mut r: Vec<(String, String)> = Vec::new();
    let mut i: usize = 0;
    while i < ls.len()
        invariant
            i <= ls.len(),
            s == text::texts(ls@),
            s == text::lines(contents@),
            f == (|l: Seq<char>| legacy_line(l)),
            pair_texts(r@) == s.take(i as int).filter_map(f),
        decreases ls.len() - i,
    {
        let ghost before = r@;
        proof {
            assert(s.take(i + 1).drop_last() =~= s.take(i as int));
            assert(s.take(i + 1).last() == ls@[i as int]@);
        }
        match legacy_line_of(ls[i].as_str()) {
            Some(p) => {
                r.push(p);
                assert(pair_texts(r@) =~= pair_texts(before) + seq![(p.0@, p.1@)]);
            },
            None => {},
        }
        i = i + 1;
    }
    assert(s.take(s.len() as int) =~= s);
    r
}

/// The legacy pairs worth moving to the secure store: those with a value.
pub open spec fn legacy_to_migrate_spec(keys: Seq<(Seq<char>, Seq<char>)>) -> Seq<(Seq<char>, Seq<char>)> {
    keys.filter(|p: (Seq<char>, Seq<char>)| p.1.len() > 0)
}

/// The legacy pairs worth moving to the secure store: those with a value.
pub fn legacy_keys_to_migrate(keys: &Vec<(String, String)>) -> (r: Vec<(String, String)>)
    ensures
        pair_texts(r@) == legacy_to_migrate_spec(pair_texts(keys@)),
{
    let ghost s = pair_texts(keys@);
    let ghost f = |p: (Seq<char>, Seq<char>)| p.1.len() > 0;
    let mut r: Vec<(String, String)> = Vec::new();
    let mut i: usize = 0;
    while i < keys.len()
        invariant
            i <= keys.len(),
            s == pair_texts(keys@),
            f == (|p: (Seq<char>, Seq<char>)| p.1.len() > 0),
            pair_texts(r@) == s.take(i as int).filter(f),
        decreases keys.len() - i,
    {
        let ghost before = r@;
        proof {
            reveal_with_fuel(Seq::filter, 1);
            assert(s.take(i + 1).drop_last() =~= s.take(i as int));
            assert(s.take(i + 1).last() == (keys@[i as int].0@, keys@[i as int].1@));
        }
        if !text::text_is_empty(keys[i].1.as_str()) {
            r.push((keys[i].0.clone(), keys[i].1.clone()));
            assert(pair_texts(r@) =~= pair_texts(before).push((keys@[i as int].0@, keys@[i as int].1@)));
        }
        i = i + 1;
    }
    assert(s.take(s.len() as int) =~= s);
    r
}

/// Whether the legacy file may be deleted: it held no key, or every key
/// with a value reached the secure store.
pub fn legacy_file_retired(legacy_keys_found: usize, saves: &[bool]) -> (b: bool)
    ensures
        b == (legacy_keys_found == 0 || forall|i: int| 0 <= i < saves@.len() ==> #[trigger] saves@[i]),
{
    if legacy_keys_found == 0 {
        return true;
    }
    let mut i: usize = 0;
    while i < saves.len()
        invariant
            i <= saves.len(),
            legacy_keys_found != 0,
            forall|j: int| 0 <= j < i ==> #[trigger] saves@[j],
        decreases saves.len() - i,
    {
        if !saves[i] {
            assert(!saves@[i as int]);
            return false;
        }
        i = i + 1;
    }
    true
}

/// What the secure store answered to a read.
pub enum KeyringRead {
    /// The stored value.
    Found(String),
    /// Nothing is stored under the name.
    NoEntry,
    /// The store could not be opened; its message.
    OpenFailed(String),
    /// The read failed; its message.
    ReadFailed(String),
}

/// What the secure store answered to a write or a removal.
pub enum KeyringWrite {
    Done,
    /// Nothing was stored under the name.
    NoEntry,
    /// The store could not be opened; its message.
    OpenFailed(String),
    /// The write or removal failed; its message.
    Failed(String),
}

/// The result of reading `key_name` from the secure store.
pub open spec fn read_result_spec(key_name: Seq<char>, read: KeyringRead) -> Result<Option<Seq<char>>, Seq<char>> {
    match read {
        KeyringRead::Found(v) => Ok(Some(v@)),
        KeyringRead::NoEntry => Ok(None),
        KeyringRead::OpenFailed(e) => Err("Failed to open secure key storage for "@ + key_name + ": "@ + e@),
        KeyringRead::ReadFailed(e) => Err("Failed to read "@ + key_name + " from secure key storage: "@ + e@),
    }
}

/// The result of storing (`deleting` false) or removing `key_name`.
pub open spec fn write_result_spec(key_name: Seq<char>, deleting: bool, w: KeyringWrite) -> Result<(), Seq<char>> {
    match w {
        KeyringWrite::Done => Ok(()),
        KeyringWrite::NoEntry => if deleting {
            Ok(())
        } else {
            Err("Failed to save "@ + key_name + " in secure key storage: "@ + "No matching entry found in secure storage"@)
        },
        KeyringWrite::OpenFailed(e) => Err("Failed to open secure key storage for "@ + key_name + ": "@ + e@),
        KeyringWrite::Failed(e) => if deleting {
            Err("Failed to remove "@ + key_name + " from secure key storage: "@ + e@)
        } else {
            Err("Failed to save "@ + key_name + " in secure key storage: "@ + e@)
        },
    }
}

/// The view of an optional-text result.
pub open spec fn read_view(r: Result<Option<String>, String>) -> Result<Option<Seq<char>>, Seq<char>> {
    match r {
        Ok(Some(v)) => Ok(Some(v@)),
        Ok(None) => Ok(None),
        Err(e) => Err(e@),
    }
}

/// The view of a unit result.
pub open spec fn unit_view(r: Result<(), String>) -> Result<(), Seq<char>> {
    match r {
        Ok(()) => Ok(()),
        Err(e) => Err(e@),
    }
}

fn message2(a: &str, b: &str, c: &str) -> (m: String)
    ensures
        m@ == a@ + b@ + c@,
{
    let mut m = owned(a);
    text::push_text(&mut m, b);
    text::push_text(&mut m, c);
    m
}

fn message3(a: &str, b: &str, c: &str, d: &str) -> (m: String)
    ensures
        m@ == a@ + b@ + c@ + d@,
{
    let mut m = owned(a);
    text::push_text(&mut m, b);
    text::push_text(&mut m, c);
    text::push_text(&mut m, d);
    m
}

/// The result of reading a (valid) key name from the secure store.
pub fn secure_read_result(key_name: &str, read: KeyringRead) -> (r: Result<Option<String>, String>)
    ensures
        read_view(r) == read_result_spec(key_name@, read),
{
    match read {
        KeyringRead::Found(v) => Ok(Some(v)),
        KeyringRead::NoEntry => Ok(None),
        KeyringRead::OpenFailed(e) => Err(message3("Failed to open secure key storage for ", key_name, ": ", e.as_str())),
        KeyringRead::ReadFailed(e) => Err(message3("Failed to read ", key_name, " from secure key storage: ", e.as_str())),
    }
}

/// An empty value removes the key; any other value is stored.
pub fn removes_key(key_value: &str) -> (b: bool)
    ensures
        b == (key_value@.len() == 0),
{
    text::text_is_empty(key_value)
}

/// The result of storing or removing a (valid) key name.
pub fn secure_write_result(key_name: &str, deleting: bool, w: KeyringWrite) -> (r: Result<(), String>)
    ensures
        unit_view(r) == write_result_spec(key_name@, deleting, w),
{
    match w {
        KeyringWrite::Done => Ok(()),
        KeyringWrite::NoEntry => if deleting {
            Ok(())
        } else {
            Err(message3("Failed to save ", key_name, " in secure key storage: ", "No matching entry found in secure storage"))
        },
        KeyringWrite::OpenFailed(e) => Err(message3("Failed to open secure key storage for ", key_name, ": ", e.as_str())),
        KeyringWrite::Failed(e) => if deleting {
            Err(message3("Failed to remove ", key_name, " from secure key storage: ", e.as_str()))
        } else {
            Err(message3("Failed to save ", key_name, " in secure key storage: ", e.as_str()))
        },
    }
}

/// A managed key that is exported: its stored value when there is one and it is not empty.
pub open spec fn exported_key(e: (Seq<char>, Result<Option<Seq<char>>, Seq<char>>)) -> Option<(Seq<char>, Seq<char>)> {
    match e.1 {
        Ok(Some(v)) => if v.len() > 0 {
            Some((e.0, v))
        } else {
            None
        },
        _ => None,
    }
}

/// Names with what the store answered for each.
pub open spec fn lookups_view(v: Seq<(String, Result<Option<String>, String>)>) -> Seq<(Seq<char>, Result<Option<Seq<char>>, Seq<char>>)> {
    v.map_values(|e: (String, Result<Option<String>, String>)| (e.0@, read_view(e.1)))
}

/// The cloud keys to hand to the backend: each managed name, in order, whose
/// stored value could be read and is not empty.
pub fn read_cloud_keys(lookups: &Vec<(String, Result<Option<String>, String>)>) -> (r: Vec<(String, String)>)
    ensures
        pair_texts(r@) == lookups_view(lookups@).filter_map(|e: (Seq<char>, Result<Option<Seq<char>>, Seq<char>>)| exported_key(e)),
{
    let ghost s = lookups_view(lookups@);
    let ghost f = |e: (Seq<char>, Result<Option<Seq<char>>, Seq<char>>)| exported_key(e);
    let mut r: Vec<(String, String)> = Vec::new();
    let mut i: usize = 0;
    while i < lookups.len()
        invariant
            i <= lookups.len(),
            s == lookups_view(lookups@),
            f == (|e: (Seq<char>, Result<Option<Seq<char>>, Seq<char>>)| exported_key(e)),
            pair_texts(r@) == s.take(i as int).filter_map(f),
        decreases lookups.len() - i,
    {
        let ghost before = r@;
        proof {
            assert(s.take(i + 1).drop_last() =~= s.take(i as int));
            assert(s.take(i + 1).last() == s[i as int]);
        }
        match &lookups[i].1 {
            Ok(Some(v)) => {
                if !text::text_is_empty(v.as_str()) {
                    r.push((lookups[i].0.clone(), v.clone()));
                    assert(pair_texts(r@) =~= pair_texts(before) + seq![(lookups@[i as int].0@, v@)]);
                }
            },
            _ => {},
        }
        i = i + 1;
    }
    assert(s.take(s.len() as int) =~= s);
    r
}

/// Whether a managed key counts as set: a stored, non-empty value.
pub fn cloud_key_is_set(read: &Result<Option<String>, String>) -> (b: bool)
    ensures
        b == (read_view(*read) matches Ok(Some(v)) && v.len() > 0),
{
    match read {
        Ok(Some(v)) => !text::text_is_empty(v.as_str()),
        _ => false,
    }
}

/// Whether a provider counts as configured: a stored value that is not blank.
pub fn provider_key_is_set(read: &Result<Option<String>, String>) -> (b: bool)
    ensures
        b == (read_view(*read) matches Ok(Some(v)) && text::trim(v).len() > 0),
{
    match read {
        Ok(Some(v)) => !text::is_blank(v.as_str()),
        _ => false,
    }
}

/// Where a provider's API key comes from.
pub enum KeySource {
    /// Decided without the store: the candidate key, or why there is none.
    Ready(Result<String, String>),
    /// To be read from the store under this name.
    Stored(&'static str),
}

/// Where the key for `kind` comes from: a non-blank candidate (trimmed),
/// else the secure store; providers without cloud keys have none.
pub open spec fn provider_key_spec(kind: SourceKind, candidate: Option<Seq<char>>) -> Result<Result<Seq<char>, Seq<char>>, Seq<char>> {
    match config::provider_key_name_spec(kind) {
        None => Ok(Err("Provider "@ + config::provider_name_spec(kind) + " does not use a cloud API key"@)),
        Some(n) => match candidate {
            Some(c) => if text::trim(c).len() > 0 {
                Ok(Ok(text::trim(c)))
            } else {
                Err(n)
            },
            None => Err(n),
        },
    }
}

/// Where the key for `kind` comes from (the inner `Err` of the spec names
/// the store entry to read).
pub fn provider_key(kind: SourceKind, candidate_key: Option<&str>) -> (r: KeySource)
    ensures
        match r {
            KeySource::Ready(Ok(k)) => provider_key_spec(kind, match candidate_key { Some(c) => Some(c@), None => None }) == Ok::<Result<Seq<char>, Seq<char>>, Seq<char>>(Ok(k@)),
            KeySource::Ready(Err(e)) => provider_key_spec(kind, match candidate_key { Some(c) => Some(c@), None => None }) == Ok::<Result<Seq<char>, Seq<char>>, Seq<char>>(Err(e@)),
            KeySource::Stored(n) => provider_key_spec(kind, match candidate_key { Some(c) => Some(c@), None => None }) == Err::<Result<Seq<char>, Seq<char>>, Seq<char>>(n@),
        },
{
    let key_name = match config::provider_key_name(kind) {
        Some(n) => n,
        None => {
            return KeySource::Ready(Err(message2("Provider ", config::provider_name(kind), " does not use a cloud API key")));
        },
    };
    if let Some(c) = candidate_key {
        let t = text::trimmed(c);
        if !text::text_is_empty(t.as_str()) {
            return KeySource::Ready(Ok(t));
        }
    }
    KeySource::Stored(key_name)
}

/// The key for `kind` once the store has been read: a stored value that is
/// not blank, else an error.
pub open spec fn stored_provider_key_spec(kind: SourceKind, read: Result<Option<Seq<char>>, Seq<char>>) -> Result<Seq<char>, Seq<char>> {
    match read {
        Err(e) => Err(e),
        Ok(Some(k)) => if text::trim(k).len() > 0 {
            Ok(k)
        } else {
            Err("No "@ + config::provider_name_spec(kind) + " API key is configured."@)
        },
        Ok(None) => Err("No "@ + config::provider_name_spec(kind) + " API key is configured."@),
    }
}

/// The key for `kind` once the store has been read.
pub fn stored_provider_key(kind: SourceKind, read: Result<Option<String>, String>) -> (r: Result<String, String>)
    ensures
        unit_text(r) == stored_provider_key_spec(kind, read_view(read)),
{
    match read {
        Err(e) => Err(e),
        Ok(Some(k)) => if !text::is_blank(k.as_str()) {
            Ok(k)
        } else {
            Err(message2("No ", config::provider_name(kind), " API key is configured."))
        },
        Ok(None) => Err(message2("No ", config::provider_name(kind), " API key is configured.")),
    }
}

/// The view of a text result.
pub open spec fn unit_text(r: Result<String, String>) -> Result<Seq<char>, Seq<char>> {
    match r {
        Ok(v) => Ok(v@),
        Err(e) => Err(e@),
    }
}

/// A new inference source to persist, and the API key to store first.
pub struct SourceChange {
    pub config: InferenceConfig,
    /// `(key_name, key_value)` to store in the secure store before the config.
    pub store_key: Option<(String, String)>,
}

/// The source kind a settings name selects (exact, lower-case names).
pub open spec fn source_kind_spec(kind: Seq<char>) -> Option<SourceKind> {
    if kind == "groq"@ {
        Some(SourceKind::Groq)
    } else if kind == "openai"@ {
        Some(SourceKind::OpenAi)
    } else if kind == "anthropic"@ {
        Some(SourceKind::Anthropic)
    } else if kind == "gemini"@ || kind == "google"@ {
        Some(SourceKind::Gemini)
    } else if kind == "ollama"@ {
        Some(SourceKind::Ollama)
    } else if kind == "custom"@ {
        Some(SourceKind::Custom)
    } else {
        None
    }
}

/// The configuration the settings form describes: a blank model means none
/// (the default model for Groq), the host is normalized and dropped when
/// empty, an empty engine means none.
pub open spec fn form_config_spec(
    kind: SourceKind,
    model: Option<Seq<char>>,
    host: Option<Seq<char>>,
    engine: Option<Seq<char>>,
) -> config::ConfigView {
    config::ConfigView {
        kind,
        model: match model {
            Some(m) => if text::trim(m).len() > 0 {
                Some(m)
            } else if kind == SourceKind::Groq {
                Some(config::GROQ_MODEL@)
            } else {
                None
            },
            None => if kind == SourceKind::Groq {
                Some(config::GROQ_MODEL@)
            } else {
                None
            },
        },
        host: match host {
            Some(h) => if config::normalize_host_spec(h).len() > 0 {
                Some(config::normalize_host_spec(h))
            } else {
                None
            },
            None => None,
        },
        engine: match engine {
            Some(e) => if e.len() > 0 {
                Some(e)
            } else {
                None
            },
            None => None,
        },
    }
}

/// The key to store with a new source: for a custom endpoint a non-empty key
/// under the engine's key name, for a cloud provider a non-blank key under
/// the provider's key name.
pub open spec fn form_key_spec(cfg: config::ConfigView, api_key: Option<Seq<char>>) -> Option<(Seq<char>, Seq<char>)> {
    match api_key {
        None => None,
        Some(k) => if cfg.kind == SourceKind::Custom {
            if k.len() > 0 {
                Some((engine_key_name_spec(config::custom_engine(cfg)), k))
            } else {
                None
            }
        } else {
            match config::provider_key_name_spec(cfg.kind) {
                Some(n) => if text::trim(k).len() > 0 {
                    Some((n, k))
                } else {
                    None
                },
                None => None,
            }
        },
    }
}

/// What saving the settings form does: an error for an unknown kind or an
/// incomplete custom endpoint, else the configuration and the key to store.
pub open spec fn source_change_spec(
    kind: Seq<char>,
    model: Option<Seq<char>>,
    host: Option<Seq<char>>,
    engine: Option<Seq<char>>,
    api_key: Option<Seq<char>>,
) -> Result<(config::ConfigView, Option<(Seq<char>, Seq<char>)>), Seq<char>> {
    match source_kind_spec(kind) {
        None => Err("Unknown inference source kind: "@ + text::debug_text(kind)),
        Some(k) => {
            let cfg = form_config_spec(k, model, host, engine);
            if k == SourceKind::Custom && cfg.host is None {
                Err("A server URL is required for a custom endpoint."@)
            } else if k == SourceKind::Custom && config::or_text(cfg.model, Seq::empty()).len() == 0 {
                Err("A model name is required for a custom endpoint."@)
            } else {
                Ok((cfg, form_key_spec(cfg, api_key)))
            }
        },
    }
}

/// The texts of optional strings.
pub open spec fn ot(o: Option<String>) -> Option<Seq<char>> {
    text::opt_text(o)
}

/// The view of a source change.
pub open spec fn change_view(r: Result<SourceChange, String>) -> Result<(config::ConfigView, Option<(Seq<char>, Seq<char>)>), Seq<char>> {
    match r {
        Ok(c) => Ok((
            c.config@,
            match c.store_key {
                Some(p) => Some((p.0@, p.1@)),
                None => None,
            },
        )),
        Err(e) => Err(e@),
    }
}

fn source_kind_of(kind: &str) -> (r: Option<SourceKind>)
    ensures
        r == source_kind_spec(kind@),
{
    if text::text_eq(kind, "groq") {
        Some(SourceKind::Groq)
    } else if text::text_eq(kind, "openai") {
        Some(SourceKind::OpenAi)
    } else if text::text_eq(kind, "anthropic") {
        Some(SourceKind::Anthropic)
    } else if text::text_eq(kind, "gemini") || text::text_eq(kind, "google") {
        Some(SourceKind::Gemini)
    } else if text::text_eq(kind, "ollama") {
        Some(SourceKind::Ollama)
    } else if text::text_eq(kind, "custom") {
        Some(SourceKind::Custom)
    } else {
        None
    }
}

/// What saving the settings form does (the decisions of `set_inference_source`).
pub fn plan_inference_source(
    kind: &str,
    model: Option<String>,
    host: Option<String>,
    engine: Option<String>,
    api_key: Option<String>,
) -> (r: Result<SourceChange, String>)
    ensures
        change_view(r) == source_change_spec(kind@, ot(model), ot(host), ot(engine), ot(api_key)),
{
    let k = match source_kind_of(kind) {
        Some(k) => k,
        None => {
            let mut m = owned("Unknown inference source kind: ");
            let d = text::debug_quoted(kind);
            text::push_text(&mut m, d.as_str());
            return Err(m);
        },
    };
    let model2 = match model {
        Some(m) => if !text::is_blank(m.as_str()) {
            Some(m)
        } else if k == SourceKind::Groq {
            Some(owned(config::GROQ_MODEL))
        } else {
            None
        },
        None => if k == SourceKind::Groq {
            Some(owned(config::GROQ_MODEL))
        } else {
            None
        },
    };
    let host2 = match host {
        Some(h) => {
            let n = config::normalize_host(h.as_str());
            if !text::text_is_empty(n.as_str()) {
                Some(n)
            } else {
                None
            }
        },
        None => None,
    };
    let engine2 = match engine {
        Some(e) => if !text::text_is_empty(e.as_str()) {
            Some(e)
        } else {
            None
        },
        None => None,
    };
    let cfg = InferenceConfig { kind: k, model: model2, host: host2, engine: engine2 };
    assert(cfg@ == form_config_spec(k, ot(model), ot(host), ot(engine)));
    if k == SourceKind::Custom {
        if cfg.host.is_none() {
            return Err(owned("A server URL is required for a custom endpoint."));
        }
        let model_empty = match &cfg.model {
            Some(m) => text::text_is_empty(m.as_str()),
            None => true,
        };
        if model_empty {
            return Err(owned("A model name is required for a custom endpoint."));
        }
        let store_key = match api_key {
            Some(key) => if !text::text_is_empty(key.as_str()) {
                let engine = match &cfg.engine {
                    Some(e) => e.clone(),
                    None => owned(config::CUSTOM_FALLBACK_ENGINE),
                };
                Some((engine_api_key_name(engine.as_str()), key))
            } else {
                None
            },
            None => None,
        };
        Ok(SourceChange { config: cfg, store_key })
    } else {
        let store_key = match config::provider_key_name(k) {
            Some(n) => match api_key {
                Some(key) => if !text::is_blank(key.as_str()) {
                    Some((owned(n), key))
                } else {
                    None
                },
                None => None,
            },
            None => None,
        };
        Ok(SourceChange { config: cfg, store_key })
    }
}

/// The message shown when the key of a new source cannot be stored.
pub fn key_store_failure(error: &str) -> (m: String)
    ensures
        m@ == "Could not store the API key: "@ + error@,
{
    let mut m = owned("Could not store the API key: ");
    text::push_text(&mut m, error);
    m
}

/// The configuration to write once the new source's key was handled: none
/// when a key was to be stored and storing it failed, so that a source is
/// never recorded without its credential.
pub fn commit_source_change(change: SourceChange, key_stored: Result<(), String>) -> (r: Result<InferenceConfig, String>)
    ensures
        r is Ok <==> (change.store_key is None || key_stored is Ok),
        r matches Ok(c) ==> c@ == change.config@,
        r matches Err(e) ==> (key_stored matches Err(k) && e@ == "Could not store the API key: "@ + k@),
{
    match change.store_key {
        None => Ok(change.config),
        Some(_) => match key_stored {
            Ok(()) => Ok(change.config),
            Err(k) => Err(key_store_failure(k.as_str())),
        },
    }
}

/// The provider and model an "apply" request names: a known provider and a
/// non-blank model (trimmed).
pub open spec fn apply_request_spec(provider: Seq<char>, model: Seq<char>) -> Result<(SourceKind, Seq<char>), Seq<char>> {
    match config::provider_kind_spec(provider) {
        Err(e) => Err(e),
        Ok(k) => if text::trim(model).len() == 0 {
            Err("A model identifier is required."@)
        } else {
            Ok((k, text::trim(model)))
        },
    }
}

/// Checks an "apply" request (the first decisions of `apply_inference_config`).
pub fn check_apply_request(provider: &str, model: &str) -> (r: Result<(SourceKind, String), String>)
    ensures
        match r {
            Ok(p) => apply_request_spec(provider@, model@) == Ok::<(SourceKind, Seq<char>), Seq<char>>((p.0, p.1@)),
            Err(e) => apply_request_spec(provider@, model@) == Err::<(SourceKind, Seq<char>), Seq<char>>(e@),
        },
{
    let k = match config::provider_kind(provider) {
        Ok(k) => k,
        Err(e) => return Err(e),
    };
    let m = text::trimmed(model);
    if text::text_is_empty(m.as_str()) {
        return Err(owned("A model identifier is required."));
    }
    Ok((k, m))
}

/// Whether an accepted "apply" request also stores the key: a cloud provider
/// and a candidate key that is not blank.
pub fn apply_stores_key(kind: SourceKind, candidate_key: Option<&str>) -> (r: Option<&'static str>)
    ensures
        match r {
            Some(n) => config::provider_key_name_spec(kind) == Some(n@) && (candidate_key matches Some(c) && text::trim(c@).len() > 0),
            None => config::provider_key_name_spec(kind) is None || !(candidate_key matches Some(c) && text::trim(c@).len() > 0),
        },
{
    match config::provider_key_name(kind) {
        Some(n) => match candidate_key {
            Some(c) => if !text::is_blank(c) {
                Some(n)
            } else {
                None
            },
            None => None,
        },
        None => None,
    }
}

/// The configuration an accepted "apply" request persists.
pub fn applied_config(kind: SourceKind, model: String) -> (c: InferenceConfig)
    ensures
        c@ == (config::ConfigView { kind, model: Some(model@), host: None, engine: None }),
{
    InferenceConfig { kind, model: Some(model), host: None, engine: None }
}

/// Whether saving `key_name` concerns the active provider (and so restarts it).
pub fn key_is_active(cfg: &InferenceConfig, key_name: &str) -> (b: bool)
    ensures
        b == (config::provider_key_name_spec(cfg.kind) == Some(key_name@)),
{
    match config::provider_key_name(cfg.kind) {
        Some(n) => text::text_eq(n, key_name),
        None => false,
    }
}

/// Whether the configuration names a model that is not blank.
pub fn has_model(cfg: &InferenceConfig) -> (b: bool)
    ensures
        b == (cfg@.model matches Some(m) && text::trim(m).len() > 0),
{
    match &cfg.model {
        Some(m) => !text::is_blank(m.as_str()),
        None => false,
    }
}

/// A character a key name may hold.
pub open spec fn key_char(c: char) -> bool {
    text::is_ascii_upper(c) || text::is_ascii_digit(c) || c == '_'
}

proof fn lemma_trim_start_char_keeps(s: Seq<char>, c: char)
    requires
        forall|i: int| 0 <= i < s.len() ==> key_char(#[trigger] s[i]),
    ensures
        forall|i: int| 0 <= i < text::trim_start_char(s, c).len() ==> key_char(#[trigger] text::trim_start_char(s, c)[i]),
    decreases s.len(),
{
    if s.len() > 0 && s[0] == c {
        let t = s.drop_first();
        assert forall|i: int| 0 <= i < t.len() implies key_char(#[trigger] t[i]) by {
            assert(t[i] == s[i + 1]);
        }
        lemma_trim_start_char_keeps(t, c);
        assert(text::trim_start_char(s, c) == text::trim_start_char(t, c));
    } else {
        assert(text::trim_start_char(s, c) == s);
    }
}

proof fn lemma_trim_end_char_keeps(s: Seq<char>, c: char)
    requires
        forall|i: int| 0 <= i < s.len() ==> key_char(#[trigger] s[i]),
    ensures
        forall|i: int| 0 <= i < text::trim_end_char(s, c).len() ==> key_char(#[trigger] text::trim_end_char(s, c)[i]),
    decreases s.len(),
{
    if s.len() > 0 && s.last() == c {
        let t = s.drop_last();
        assert forall|i: int| 0 <= i < t.len() implies key_char(#[trigger] t[i]) by {
            assert(t[i] == s[i]);
        }
        lemma_trim_end_char_keeps(t, c);
        assert(text::trim_end_char(s, c) == text::trim_end_char(t, c));
    } else {
        assert(text::trim_end_char(s, c) == s);
    }
}

/// An engine's key name is always shaped like a key name: `A-Z`, `0-9` and
/// `_`, ending in `_API_KEY`. So the store accepts it exactly when it is at
/// most 128 characters long.
pub proof fn law_engine_key_name_shape(engine: Seq<char>)
    ensures
        text::ends_with(engine_key_name_spec(engine), "_API_KEY"@),
        forall|i: int| 0 <= i < engine_key_name_spec(engine).len() ==> key_char(#[trigger] engine_key_name_spec(engine)[i]),
        valid_key_name(engine_key_name_spec(engine)) <==> engine_key_name_spec(engine).len() <= 128,
{
    reveal_strlit("LMSTUDIO");
    reveal_strlit("_API_KEY");
    let n = engine.map_values(|c: char| engine_key_char(c));
    assert forall|i: int| 0 <= i < n.len() implies key_char(#[trigger] n[i]) by {
        let c = engine[i];
        assert(n[i] == engine_key_char(c));
        if text::is_ascii_lower(c) {
            assert((c as u8) as int == c as int);
            assert(text::is_ascii_upper(text::ascii_upper(c)));
        }
    }
    lemma_trim_start_char_keeps(n, '_');
    lemma_trim_end_char_keeps(text::trim_start_char(n, '_'), '_');
    let t = text::trim_end_char(text::trim_start_char(n, '_'), '_');
    let head = if t.len() == 0 { "LMSTUDIO"@ } else { t };
    let k = engine_key_name_spec(engine);
    assert(k == head + "_API_KEY"@);
    assert forall|i: int| 0 <= i < k.len() implies key_char(#[trigger] k[i]) by {
        if i < head.len() {
            assert(k[i] == head[i]);
        } else {
            assert(k[i] == ("_API_KEY"@)[i - head.len()]);
        }
    }
    assert(k.subrange(k.len() - 8, k.len() as int) =~= "_API_KEY"@);
}

/// Only keys that were read with a value are handed to the backend: every
/// exported pair names a looked-up key whose store answered that value, and
/// the value is not empty.
pub proof fn law_exported_keys_were_stored(
    lookups: Seq<(Seq<char>, Result<Option<Seq<char>>, Seq<char>>)>,
    p: (Seq<char>, Seq<char>),
)
    requires
        lookups.filter_map(|e: (Seq<char>, Result<Option<Seq<char>>, Seq<char>>)| exported_key(e)).contains(p),
    ensures
        p.1.len() > 0,
        lookups.contains((p.0, Ok::<Option<Seq<char>>, Seq<char>>(Some(p.1)))),
{
    let f = |e: (Seq<char>, Result<Option<Seq<char>>, Seq<char>>)| exported_key(e);
    lookups.lemma_filter_map_contains(f, p);
    let e = choose|e: (Seq<char>, Result<Option<Seq<char>>, Seq<char>>)| #[trigger] lookups.contains(e) && f(e) == Some(p);
    assert(e == (p.0, Ok::<Option<Seq<char>>, Seq<char>>(Some(p.1))));
}

/// A fixed key name is one the store accepts.
proof fn lemma_base_name_valid(n: Seq<char>)
    requires
        n.len() >= 8,
        n.len() <= 128,
        n.subrange(n.len() - 8, n.len() as int) == "_API_KEY"@,
        forall|i: int| 0 <= i < n.len() ==> key_char(#[trigger] n[i]),
    ensures
        valid_key_name(n),
{
    reveal_strlit("_API_KEY");
}

/// Every managed key name is one the secure store accepts, so reading or
/// writing a managed key never fails on its name.
pub proof fn law_managed_keys_are_valid(cfg: config::ConfigView, n: Seq<char>)
    requires
        is_managed_key(cfg, n),
    ensures
        valid_key_name(n),
{
    if managed_base().contains(n) {
        let k = choose|k: int| 0 <= k < managed_base().len() && managed_base()[k] == n;
        reveal_strlit("GROQ_API_KEY");
        reveal_strlit("OPENAI_API_KEY");
        reveal_strlit("ANTHROPIC_API_KEY");
        reveal_strlit("GEMINI_API_KEY");
        reveal_strlit("GOOGLE_API_KEY");
        reveal_strlit("OPENROUTER_API_KEY");
        reveal_strlit("MINIMAX_API_KEY");
        reveal_strlit("TAVILY_API_KEY");
        reveal_strlit("_API_KEY");
        assert(n.subrange(n.len() - 8, n.len() as int) =~= "_API_KEY"@);
        lemma_base_name_valid(n);
    }
}

/// The value a saved key is stored as: the entered text, trimmed (empty
/// removes the key).
pub fn key_value_to_store(key_value: &str) -> (r: String)
    ensures
        r@ == text::trim(key_value@),
{
    text::trimmed(key_value)
}

/// Whether saving `key_name` reads it back: only for the active provider
/// when a model is configured.
pub fn key_save_reads_back(cfg: &InferenceConfig, key_name: &str) -> (b: bool)
    ensures
        b == (config::provider_key_name_spec(cfg.kind) == Some(key_name@) && (cfg@.model matches Some(m) && text::trim(m).len() > 0)),
{
    key_is_active(cfg, key_name) && has_model(cfg)
}

/// What the backend does after a key was saved.
pub enum KeySaveOutcome {
    /// The key is not the active provider's; nothing restarts.
    Unchanged,
    /// Stop the backend and boot it again, showing this status.
    Restart(SetupStatus),
    /// Stop the backend and show this status.
    Unconfigured(SetupStatus),
}

/// The view of a key-save outcome: 0 unchanged, 1 restart, 2 unconfigured,
/// with the status shown.
pub open spec fn key_save_view(o: KeySaveOutcome) -> (nat, Option<StatusView>) {
    match o {
        KeySaveOutcome::Unchanged => (0, None),
        KeySaveOutcome::Restart(st) => (1, Some(st@)),
        KeySaveOutcome::Unconfigured(st) => (2, Some(st@)),
    }
}

/// After saving a key: nothing for another provider's key; for the active
/// provider, a restart when a model is configured and the key reads back,
/// else the unconfigured status; a failed read back is the error.
pub open spec fn after_key_save_spec(
    cfg: config::ConfigView,
    key_name: Seq<char>,
    read: Option<Result<Option<Seq<char>>, Seq<char>>>,
) -> Result<(nat, Option<StatusView>), Seq<char>> {
    let src = config::provider_name_spec(cfg.kind);
    if config::provider_key_name_spec(cfg.kind) != Some(key_name) {
        Ok((0, None))
    } else if !(cfg.model matches Some(m) && text::trim(m).len() > 0) {
        Ok((2, Some(unconfigured_spec(src))))
    } else {
        match read {
            Some(Err(e)) => Err(e),
            Some(Ok(Some(_))) => Ok((1, Some(starting_spec(src)))),
            _ => Ok((2, Some(unconfigured_spec(src)))),
        }
    }
}

/// What the backend does after `key_name` was saved, given the key read
/// back when `key_save_reads_back` asked for it.
pub fn after_key_save(
    cfg: &InferenceConfig,
    key_name: &str,
    read: Option<Result<Option<String>, String>>,
) -> (r: Result<KeySaveOutcome, String>)
    ensures
        match r {
            Ok(o) => after_key_save_spec(cfg@, key_name@, match read { Some(x) => Some(read_view(x)), None => None }) == Ok::<(nat, Option<StatusView>), Seq<char>>(key_save_view(o)),
            Err(e) => after_key_save_spec(cfg@, key_name@, match read { Some(x) => Some(read_view(x)), None => None }) == Err::<(nat, Option<StatusView>), Seq<char>>(e@),
        },
{
    let src = config::provider_name(cfg.kind);
    if !key_is_active(cfg, key_name) {
        return Ok(KeySaveOutcome::Unchanged);
    }
    if !has_model(cfg) {
        return Ok(KeySaveOutcome::Unconfigured(SetupStatus::unconfigured(src)));
    }
    match read {
        Some(Err(e)) => Err(e),
        Some(Ok(Some(_))) => Ok(KeySaveOutcome::Restart(SetupStatus::starting(src))),
        _ => Ok(KeySaveOutcome::Unconfigured(SetupStatus::unconfigured(src))),
    }
}

/// Whether a managed key counts as set: its store answered a non-empty value.
pub open spec fn key_set(e: (Seq<char>, Result<Option<Seq<char>>, Seq<char>>)) -> bool {
    e.1 matches Ok(Some(v)) && v.len() > 0
}

/// Each managed key name with whether it is set; no value is included.
pub open spec fn key_statuses_spec(lookups: Seq<(Seq<char>, Result<Option<Seq<char>>, Seq<char>>)>) -> Seq<(Seq<char>, bool)> {
    lookups.map_values(|e: (Seq<char>, Result<Option<Seq<char>>, Seq<char>>)| (e.0, key_set(e)))
}

/// Each looked-up key name with whether it is set (the cloud-key status the
/// settings screen shows).
pub fn cloud_key_statuses(lookups: &Vec<(String, Result<Option<String>, String>)>) -> (r: Vec<(String, bool)>)
    ensures
        r@.map_values(|p: (String, bool)| (p.0@, p.1)) == key_statuses_spec(lookups_view(lookups@)),
{
    let ghost s = lookups_view(lookups@);
    let mut r: Vec<(String, bool)> = Vec::new();
    let mut i: usize = 0;
    while i < lookups.len()
        invariant
            i <= lookups.len(),
            s == lookups_view(lookups@),
            r@.map_values(|p: (String, bool)| (p.0@, p.1)) == key_statuses_spec(s.take(i as int)),
        decreases lookups.len() - i,
    {
        let set = cloud_key_is_set(&lookups[i].1);
        r.push((lookups[i].0.clone(), set));
        proof {
            assert(s[i as int] == (lookups@[i as int].0@, read_view(lookups@[i as int].1)));
            assert(key_statuses_spec(s.take(i + 1)) =~= key_statuses_spec(s.take(i as int)).push((s[i as int].0, key_set(s[i as int]))));
            assert(r@.map_values(|p: (String, bool)| (p.0@, p.1)) =~= key_statuses_spec(s.take(i + 1)));
        }
        i = i + 1;
    }
    proof { assert(s.take(s.len() as int) =~= s); }
    r
}

/// The cloud-key status depends only on which keys are set: two stores that
/// agree, name by name, on whether each key holds a non-empty value give the
/// same status, and no stored value appears in it.
pub proof fn law_key_status_depends_only_on_set(
    a: Seq<(Seq<char>, Result<Option<Seq<char>>, Seq<char>>)>,
    b: Seq<(Seq<char>, Result<Option<Seq<char>>, Seq<char>>)>,
)
    requires
        a.len() == b.len(),
        forall|i: int| 0 <= i < a.len() ==> (#[trigger] a[i]).0 == b[i].0 && key_set(a[i]) == key_set(b[i]),
    ensures
        key_statuses_spec(a) == key_statuses_spec(b),
{
    assert(key_statuses_spec(a) =~= key_statuses_spec(b));
}

/// Each cloud provider's key is named after the provider itself: a valid
/// key name that, lower-cased, is the provider's name followed by `_api_key`;
/// local sources have no key.
pub proof fn law_provider_key_names(kind: SourceKind)
    ensures
        (kind == SourceKind::Groq || kind == SourceKind::OpenAi || kind == SourceKind::Anthropic || kind == SourceKind::Gemini)
            ==> (config::provider_key_name_spec(kind) matches Some(n) && valid_key_name(n)
                && text::lower(n) == config::provider_name_spec(kind) + "_api_key"@),
        (kind == SourceKind::Ollama || kind == SourceKind::Custom) ==> config::provider_key_name_spec(kind) is None,
{
    reveal_strlit("_api_key");
    reveal_strlit("_API_KEY");
    match kind {
        SourceKind::Groq => {
            reveal_strlit("GROQ_API_KEY");
            reveal_strlit("groq");
            assert(text::lower("GROQ_API_KEY"@) =~= "groq"@ + "_api_key"@);
            let n = "GROQ_API_KEY"@;
            assert(n.subrange(n.len() - 8, n.len() as int) =~= "_API_KEY"@);
            lemma_base_name_valid(n);
        },
        SourceKind::OpenAi => {
            reveal_strlit("OPENAI_API_KEY");
            reveal_strlit("openai");
            assert(text::lower("OPENAI_API_KEY"@) =~= "openai"@ + "_api_key"@);
            let n = "OPENAI_API_KEY"@;
            assert(n.subrange(n.len() - 8, n.len() as int) =~= "_API_KEY"@);
            lemma_base_name_valid(n);
        },
        SourceKind::Anthropic => {
            reveal_strlit("ANTHROPIC_API_KEY");
            reveal_strlit("anthropic");
            assert(text::lower("ANTHROPIC_API_KEY"@) =~= "anthropic"@ + "_api_key"@);
            let n = "ANTHROPIC_API_KEY"@;
            assert(n.subrange(n.len() - 8, n.len() as int) =~= "_API_KEY"@);
            lemma_base_name_valid(n);
        },
        SourceKind::Gemini => {
            reveal_strlit("GEMINI_API_KEY");
            reveal_strlit("gemini");
            assert(text::lower("GEMINI_API_KEY"@) =~= "gemini"@ + "_api_key"@);
            let n = "GEMINI_API_KEY"@;
            assert(n.subrange(n.len() - 8, n.len() as int) =~= "_API_KEY"@);
            lemma_base_name_valid(n);
        },
        _ => {},
    }
}

/// The key of every cloud provider is managed, whatever the configuration,
/// and so are the Google, OpenRouter, MiniMax and Tavily keys; a custom
/// endpoint's engine key is managed when its name is valid.
pub proof fn law_provider_keys_are_managed(cfg: config::ConfigView, kind: SourceKind)
    ensures
        config::provider_key_name_spec(kind) matches Some(n) ==> is_managed_key(cfg, n),
        is_managed_key(cfg, "GOOGLE_API_KEY"@),
        is_managed_key(cfg, "OPENROUTER_API_KEY"@),
        is_managed_key(cfg, "MINIMAX_API_KEY"@),
        is_managed_key(cfg, "TAVILY_API_KEY"@),
        cfg.kind == SourceKind::Custom && valid_key_name(engine_key_name_spec(config::custom_engine(cfg)))
            ==> is_managed_key(cfg, engine_key_name_spec(config::custom_engine(cfg))),
{
    let b = managed_base();
    assert(b[0] == "GROQ_API_KEY"@);
    assert(b[1] == "OPENAI_API_KEY"@);
    assert(b[2] == "ANTHROPIC_API_KEY"@);
    assert(b[3] == "GEMINI_API_KEY"@);
    assert(b[4] == "GOOGLE_API_KEY"@);
    assert(b[5] == "OPENROUTER_API_KEY"@);
    assert(b[6] == "MINIMAX_API_KEY"@);
    assert(b[7] == "TAVILY_API_KEY"@);
}

} // verus!
