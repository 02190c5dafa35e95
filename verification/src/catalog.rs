//! Model catalogs: the tags an Ollama server lists, and the pages of a cloud
//! provider's model catalog.

use vstd::prelude::*;
use crate::config;
use crate::config::SourceKind;
use crate::json;
use crate::json::JsonValue;
use crate::text;
use crate::text::owned;

verus! {

/// The name of one entry of Ollama's `/api/tags` listing, when it is not blank.
pub open spec fn ollama_entry_name(m: JsonValue) -> Option<Seq<char>> {
    match json::as_str(json::or_else(json::get(m, "name"@), json::get(m, "model"@))) {
        Some(n) => if text::trim(n).len() > 0 {
            Some(n)
        } else {
            None
        },
        None => None,
    }
}

/// The installed model names in Ollama's `/api/tags` answer, in order.
pub open spec fn ollama_names_spec(body: JsonValue) -> Seq<Seq<char>> {
    match json::as_array(json::get(body, "models"@)) {
        Some(ms) => ms.filter_map(|m: JsonValue| ollama_entry_name(m)),
        None => Seq::empty(),
    }
}

/// The installed model names in Ollama's `/api/tags` answer, in order.
pub fn parse_ollama_model_names(body: &JsonValue) -> (r: Vec<String>)
    ensures
        text::texts(r@) == ollama_names_spec(*body),
{
    let list = match json::json_get(body, "models") {
        Some(JsonValue::Array(ms)) => ms,
        _ => return Vec::new(),
    };
    let ghost f = |m: JsonValue| ollama_entry_name(m);
    let mut r: Vec<String> = Vec::new();
    let mut i: usize = 0;
    while i < list.len()
        invariant
            i <= list.len(),
            json::as_array(json::get(*body, "models"@)) == Some(list@),
            f == (|m: JsonValue| ollama_entry_name(m)),
            text::texts(r@) == list@.take(i as int).filter_map(f),
        decreases list.len() - i,
    {
        let ghost before = r@;
        proof {
            assert(list@.take(i + 1).drop_last() =~= list@.take(i as int));
            assert(list@.take(i + 1).last() == list@[i as int]);
        }
        let m = &list[i];
        let name = json::json_as_str(json::json_get_either(m, "name", "model"));
        match name {
            Some(n) => if !text::is_blank(n.as_str()) {
                r.push(n);
                assert(text::texts(r@) =~= text::texts(before) + seq![r@[r@.len() - 1]@]);
            },
            None => {},
        }
        i = i + 1;
    }
    assert(list@.take(list@.len() as int) =~= list@);
    r
}

/// The installed model names in the text of Ollama's `/api/tags` answer:
/// none when the text is not JSON.
pub open spec fn ollama_names_in_spec(body: Seq<char>) -> Seq<Seq<char>> {
    match json::json_parse(body) {
        Ok(v) => ollama_names_spec(v),
        Err(_) => Seq::empty(),
    }
}

/// The installed model names in the text of Ollama's `/api/tags` answer.
pub fn ollama_model_names_in(body: &str) -> (r: Vec<String>)
    ensures
        text::texts(r@) == ollama_names_in_spec(body@),
{
    match json::parse_json(body) {
        Ok(v) => parse_ollama_model_names(&v),
        Err(_) => Vec::new(),
    }
}

/// One model of a provider's catalog.
#[derive(Clone, Debug)]
pub struct ProviderModel {
    pub id: String,
    pub name: Option<String>,
}

/// A catalog model as plain values: its id and display name.
pub open spec fn model_view(m: ProviderModel) -> (Seq<char>, Option<Seq<char>>) {
    (m.id@, text::opt_text(m.name))
}

/// The plain values of catalog models.
pub open spec fn models_view(v: Seq<ProviderModel>) -> Seq<(Seq<char>, Option<Seq<char>>)> {
    v.map_values(|m: ProviderModel| model_view(m))
}

/// The raw identifier of a catalog entry: its `id`, else its `name` without
/// a `models/` prefix.
pub open spec fn raw_model_id(m: JsonValue) -> Option<Seq<char>> {
    match json::as_str(json::get(m, "id"@)) {
        Some(i) => Some(i),
        None => match json::as_str(json::get(m, "name"@)) {
            Some(n) => Some(
                match text::strip_prefix(n, "models/"@) {
                    Some(t) => t,
                    None => n,
                },
            ),
            None => None,
        },
    }
}

/// A Gemini entry that lists its generation methods without `generateContent`.
pub open spec fn gemini_cannot_chat(kind: SourceKind, m: JsonValue) -> bool {
    kind == SourceKind::Gemini && match json::as_array(json::get(m, "supportedGenerationMethods"@)) {
        Some(ms) => !(exists|i: int| 0 <= i < ms.len() && json::as_str(Some(#[trigger] ms[i])) == Some("generateContent"@)),
        None => false,
    }
}

/// The catalog model an entry describes: an identifier that is not blank
/// (trimmed), with its display name; Gemini models that cannot chat are left out.
pub open spec fn catalog_entry(kind: SourceKind, m: JsonValue) -> Option<(Seq<char>, Option<Seq<char>>)> {
    match raw_model_id(m) {
        None => None,
        Some(r) => if gemini_cannot_chat(kind, m) || text::trim(r).len() == 0 {
            None
        } else {
            Some((text::trim(r), json::as_str(json::or_else(json::get(m, "display_name"@), json::get(m, "displayName"@)))))
        },
    }
}

/// A token that is not empty.
pub open spec fn non_empty_token(t: Option<Seq<char>>) -> Option<Seq<char>> {
    match t {
        Some(x) => if x.len() > 0 {
            Some(x)
        } else {
            None
        },
        None => None,
    }
}

/// The token of the next catalog page: Gemini's `nextPageToken`, else
/// `last_id` when `has_more` is true.
pub open spec fn next_page_token(kind: SourceKind, v: JsonValue) -> Option<Seq<char>> {
    if kind == SourceKind::Gemini {
        non_empty_token(json::as_str(json::get(v, "nextPageToken"@)))
    } else if json::as_bool(json::get(v, "has_more"@)) == Some(true) {
        non_empty_token(json::as_str(json::get(v, "last_id"@)))
    } else {
        None
    }
}

/// One catalog page: its models and the next page's token.
pub open spec fn catalog_page_spec(kind: SourceKind, parsed: Result<JsonValue, Seq<char>>) -> Result<(Seq<(Seq<char>, Option<Seq<char>>)>, Option<Seq<char>>), Seq<char>> {
    match parsed {
        Err(e) => Err("Invalid "@ + config::provider_name_spec(kind) + " model catalog response: "@ + e),
        Ok(v) => match json::as_array(json::or_else(json::get(v, "data"@), json::get(v, "models"@))) {
            None => Err(config::provider_name_spec(kind) + " returned no model list"@),
            Some(ms) => Ok((ms.filter_map(|m: JsonValue| catalog_entry(kind, m)), next_page_token(kind, v))),
        },
    }
}

/// The view of a catalog page.
pub open spec fn page_view(r: Result<(Vec<ProviderModel>, Option<String>), String>) -> Result<(Seq<(Seq<char>, Option<Seq<char>>)>, Option<Seq<char>>), Seq<char>> {
    match r {
        Ok(p) => Ok((models_view(p.0@), text::opt_text(p.1))),
        Err(e) => Err(e@),
    }
}

fn gemini_excludes(kind: SourceKind, m: &JsonValue) -> (b: bool)
    ensures
        b == gemini_cannot_chat(kind, *m),
{
    if kind != SourceKind::Gemini {
        return false;
    }
    match json::json_get(m, "supportedGenerationMethods") {
        Some(JsonValue::Array(ms)) => {
            let mut i: usize = 0;
            while i < ms.len()
                invariant
                    i <= ms.len(),
                    kind == SourceKind::Gemini,
                    json::as_array(json::get(*m, "supportedGenerationMethods"@)) == Some(ms@),
                    forall|j: int| 0 <= j < i ==> json::as_str(Some(#[trigger] ms@[j])) != Some("generateContent"@),
                decreases ms.len() - i,
            {
                let s = json::json_as_str(Some(&ms[i]));
                match s {
                    Some(t) => if text::text_eq(t.as_str(), "generateContent") {
                        assert(json::as_str(Some(ms@[i as int])) == Some("generateContent"@));
                        return false;
                    },
                    None => {},
                }
                i = i + 1;
            }
            true
        },
        _ => false,
    }
}

fn entry_of(kind: SourceKind, m: &JsonValue) -> (r: Option<ProviderModel>)
    ensures
        match r {
            Some(p) => catalog_entry(kind, *m) == Some(model_view(p)),
            None => catalog_entry(kind, *m) is None,
        },
{
    let raw = match json::json_as_str(json::json_get(m, "id")) {
        Some(i) => i,
        None => match json::json_as_str(json::json_get(m, "name")) {
            Some(n) => {
                let v = text::chars_of(n.as_str());
                if text::text_starts_with(n.as_str(), "models/") {
                    let p = text::chars_of("models/");
                    text::string_of_range(&v, p.len(), v.len())
                } else {
                    n
                }
            },
            None => return None,
        },
    };
    if gemini_excludes(kind, m) {
        return None;
    }
    let id = text::trimmed(raw.as_str());
    if text::text_is_empty(id.as_str()) {
        return None;
    }
    let name = json::json_as_str(json::json_get_either(m, "display_name", "displayName"));
    Some(ProviderModel { id, name })
}

fn token_of(t: Option<String>) -> (r: Option<String>)
    ensures
        text::opt_text(r) == non_empty_token(text::opt_text(t)),
{
    match t {
        Some(x) => if !text::text_is_empty(x.as_str()) {
            Some(x)
        } else {
            None
        },
        None => None,
    }
}

/// One catalog page, from what the JSON parser made of the response body.
pub fn catalog_page(kind: SourceKind, parsed: Result<JsonValue, String>) -> (r: Result<(Vec<ProviderModel>, Option<String>), String>)
    ensures
        page_view(r) == catalog_page_spec(kind, json::parsed_view(parsed)),
{
    let name = config::provider_name(kind);
    let v = match parsed {
        Err(e) => {
            let mut m = owned("Invalid ");
            text::push_text(&mut m, name);
            text::push_text(&mut m, " model catalog response: ");
            text::push_text(&mut m, e.as_str());
            return Err(m);
        },
        Ok(v) => v,
    };
    let list = match json::json_get_either(&v, "data", "models") {
        Some(JsonValue::Array(ms)) => ms,
        _ => {
            let mut m = owned(name);
            text::push_text(&mut m, " returned no model list");
            return Err(m);
        },
    };
    let ghost f = |m: JsonValue| catalog_entry(kind, m);
    let mut out: Vec<ProviderModel> = Vec::new();
    let mut i: usize = 0;
    while i < list.len()
        invariant
            i <= list.len(),
            f == (|m: JsonValue| catalog_entry(kind, m)),
            models_view(out@) == list@.take(i as int).filter_map(f),
        decreases list.len() - i,
    {
        let ghost before = out@;
        proof {
            assert(list@.take(i + 1).drop_last() =~= list@.take(i as int));
            assert(list@.take(i + 1).last() == list@[i as int]);
        }
        match entry_of(kind, &list[i]) {
            Some(p) => {
                out.push(p);
                assert(models_view(out@) =~= models_view(before) + seq![model_view(out@[out@.len() - 1])]);
            },
            None => {},
        }
        i = i + 1;
    }
    assert(list@.take(list@.len() as int) =~= list@);
    let next = if kind == SourceKind::Gemini {
        token_of(json::json_as_str(json::json_get(&v, "nextPageToken")))
    } else if json::json_as_bool(json::json_get(&v, "has_more")) == Some(true) {
        token_of(json::json_as_str(json::json_get(&v, "last_id")))
    } else {
        None
    };
    Ok((out, next))
}

/// Parses one page of a provider's model catalog.
pub fn parse_provider_models(kind: SourceKind, body: &str) -> (r: Result<(Vec<ProviderModel>, Option<String>), String>)
    ensures
        page_view(r) == catalog_page_spec(kind, json::json_parse(body@)),
{
    catalog_page(kind, json::parse_json(body))
}

/// A copy of a catalog model.
pub fn copy_model(m: &ProviderModel) -> (r: ProviderModel)
    ensures
        model_view(r) == model_view(*m),
{
    ProviderModel {
        id: m.id.clone(),
        name: match &m.name {
            Some(n) => Some(n.clone()),
            None => None,
        },
    }
}

/// The first model of `s` with identifier `id`.
pub open spec fn first_with_id(s: Seq<(Seq<char>, Option<Seq<char>>)>, id: Seq<char>) -> Option<(Seq<char>, Option<Seq<char>>)>
    decreases s.len(),
{
    if s.len() == 0 {
        None
    } else if s[0].0 == id {
        Some(s[0])
    } else {
        first_with_id(s.drop_first(), id)
    }
}

/// The identifiers of catalog models.
pub open spec fn ids(s: Seq<(Seq<char>, Option<Seq<char>>)>) -> Seq<Seq<char>> {
    s.map_values(|m: (Seq<char>, Option<Seq<char>>)| m.0)
}

/// A catalog sorted by identifier with one model per identifier: the first
/// that `input` lists.
pub open spec fn sorted_catalog(input: Seq<(Seq<char>, Option<Seq<char>>)>, out: Seq<(Seq<char>, Option<Seq<char>>)>) -> bool {
    &&& text::strictly_sorted(ids(out))
    &&& forall|i: int| 0 <= i < out.len() ==> first_with_id(input, #[trigger] out[i].0) == Some(out[i])
    &&& forall|id: Seq<char>| #[trigger] ids(out).contains(id) <==> ids(input).contains(id)
}

/// Appending a model finds it only when no earlier model has its identifier.
pub proof fn lemma_first_with_id_push(s: Seq<(Seq<char>, Option<Seq<char>>)>, x: (Seq<char>, Option<Seq<char>>), id: Seq<char>)
    ensures
        first_with_id(s.push(x), id) == match first_with_id(s, id) {
            Some(y) => Some(y),
            None => if x.0 == id {
                Some(x)
            } else {
                None
            },
        },
    decreases s.len(),
{
    if s.len() > 0 {
        assert(s.push(x)[0] == s[0]);
        assert(s.push(x).drop_first() =~= s.drop_first().push(x));
        lemma_first_with_id_push(s.drop_first(), x, id);
    } else {
        reveal_with_fuel(first_with_id, 2);
        assert(s.push(x)[0] == x);
        assert(s.push(x).drop_first() =~= Seq::<(Seq<char>, Option<Seq<char>>)>::empty());
    }
}

/// A model is found by its identifier exactly when the identifier occurs.
pub proof fn lemma_first_with_id_found(s: Seq<(Seq<char>, Option<Seq<char>>)>, id: Seq<char>)
    ensures
        first_with_id(s, id) is Some <==> ids(s).contains(id),
        first_with_id(s, id) matches Some(y) ==> y.0 == id,
    decreases s.len(),
{
    if s.len() > 0 {
        lemma_first_with_id_found(s.drop_first(), id);
        assert(ids(s.drop_first()) =~= ids(s).drop_first());
        if ids(s).contains(id) && s[0].0 != id {
            let k = choose|k: int| 0 <= k < ids(s).len() && ids(s)[k] == id;
            assert(ids(s.drop_first())[k - 1] == id);
        }
        if ids(s.drop_first()).contains(id) {
            let k = choose|k: int| 0 <= k < ids(s.drop_first()).len() && ids(s.drop_first())[k] == id;
            assert(ids(s)[k + 1] == id);
        }
        if s[0].0 == id {
            assert(ids(s)[0] == id);
        }
    }
}

/// The catalog sorted by identifier, keeping the first model listed for
/// each identifier (a stable sort by id, then dropping repeated ids).
pub fn sort_dedup_by_id(models: Vec<ProviderModel>) -> (r: Vec<ProviderModel>)
    ensures
        sorted_catalog(models_view(models@), models_view(r@)),
{
    let ghost input = models_view(models@);
    let mut out: Vec<ProviderModel> = Vec::new();
    let mut k: usize = 0;
    while k < models.len()
        invariant
            k <= models.len(),
            input == models_view(models@),
            sorted_catalog(input.take(k as int), models_view(out@)),
        decreases models.len() - k,
    {
        let ghost pre = input.take(k as int);
        let ghost o0 = models_view(out@);
        let ghost x = input[k as int];
        proof {
            assert(input.take(k + 1) =~= pre.push(x));
            assert(x == model_view(models@[k as int]));
        }
        let id = models[k].id.clone();
        let mut i: usize = 0;
        while i < out.len() && text::text_less(out[i].id.as_str(), id.as_str())
            invariant
                i <= out.len(),
                o0 == models_view(out@),
                id@ == x.0,
                forall|j: int| 0 <= j < i ==> text::text_lt(#[trigger] o0[j].0, x.0),
            decreases out.len() - i,
        {
            i = i + 1;
        }
        let present = i < out.len() && text::text_eq(out[i].id.as_str(), id.as_str());
        if present {
            proof {
                assert(ids(o0)[i as int] == x.0);
                assert(ids(o0).contains(x.0));
                assert(ids(pre).contains(x.0));
                lemma_first_with_id_found(pre, x.0);
                assert forall|j: int| 0 <= j < o0.len() implies first_with_id(pre.push(x), #[trigger] o0[j].0) == Some(o0[j]) by {
                    lemma_first_with_id_push(pre, x, o0[j].0);
                }
                assert forall|id2: Seq<char>| #[trigger] ids(o0).contains(id2) <==> ids(pre.push(x)).contains(id2) by {
                    assert(ids(pre.push(x)) =~= ids(pre).push(x.0));
                    if ids(pre.push(x)).contains(id2) {
                        let q = choose|q: int| 0 <= q < ids(pre.push(x)).len() && ids(pre.push(x))[q] == id2;
                        if q < pre.len() {
                            assert(ids(pre)[q] == id2);
                        }
                    }
                    if ids(pre).contains(id2) {
                        let q = choose|q: int| 0 <= q < ids(pre).len() && ids(pre)[q] == id2;
                        assert(ids(pre.push(x))[q] == id2);
                    }
                }
            }
        } else {
            proof {
                if i < out.len() {
                    text::lemma_text_lt_total(o0[i as int].0, x.0);
                }
                assert(!ids(o0).contains(x.0)) by {
                    if ids(o0).contains(x.0) {
                        let q = choose|q: int| 0 <= q < ids(o0).len() && ids(o0)[q] == x.0;
                        if q < i {
                            text::lemma_text_lt_irreflexive(x.0);
                        } else if q > i {
                            assert(text::text_lt(ids(o0)[i as int], ids(o0)[q]));
                            assert(ids(o0)[i as int] == o0[i as int].0);
                            text::lemma_text_lt_transitive(x.0, o0[i as int].0, o0[q].0);
                            text::lemma_text_lt_irreflexive(x.0);
                        }
                    }
                }
                assert(!ids(pre).contains(x.0));
                lemma_first_with_id_found(pre, x.0);
            }
            out.insert(i, copy_model(&models[k]));
            proof {
                let o1 = models_view(out@);
                assert(o1 =~= o0.insert(i as int, x));
                assert forall|a: int, b: int| 0 <= a < b < ids(o1).len() implies text::text_lt(#[trigger] ids(o1)[a], #[trigger] ids(o1)[b]) by {
                    assert(ids(o1)[a] == o1[a].0);
                    assert(ids(o1)[b] == o1[b].0);
                    if b < i {
                        assert(ids(o0)[a] == o0[a].0 && ids(o0)[b] == o0[b].0);
                    } else if b == i {
                    } else if a < i {
                        assert(o1[b] == o0[b - 1]);
                        if b - 1 > i {
                            assert(ids(o0)[i as int] == o0[i as int].0 && ids(o0)[b - 1] == o0[b - 1].0);
                            text::lemma_text_lt_transitive(x.0, o0[i as int].0, o0[b - 1].0);
                        }
                        text::lemma_text_lt_transitive(o0[a].0, x.0, o0[b - 1].0);
                    } else if a == i {
                        assert(o1[b] == o0[b - 1]);
                        if b - 1 > i {
                            assert(ids(o0)[i as int] == o0[i as int].0 && ids(o0)[b - 1] == o0[b - 1].0);
                            text::lemma_text_lt_transitive(x.0, o0[i as int].0, o0[b - 1].0);
                        }
                    } else {
                        assert(o1[a] == o0[a - 1]);
                        assert(o1[b] == o0[b - 1]);
                        assert(ids(o0)[a - 1] == o0[a - 1].0 && ids(o0)[b - 1] == o0[b - 1].0);
                    }
                }
                assert forall|j: int| 0 <= j < o1.len() implies first_with_id(pre.push(x), #[trigger] o1[j].0) == Some(o1[j]) by {
                    lemma_first_with_id_push(pre, x, o1[j].0);
                    if j < i {
                        assert(o1[j] == o0[j]);
                    } else if j > i {
                        assert(o1[j] == o0[j - 1]);
                    }
                }
                assert forall|id2: Seq<char>| #[trigger] ids(o1).contains(id2) <==> ids(pre.push(x)).contains(id2) by {
                    assert(ids(pre.push(x)) =~= ids(pre).push(x.0));
                    if ids(o1).contains(id2) {
                        let q = choose|q: int| 0 <= q < ids(o1).len() && ids(o1)[q] == id2;
                        assert(o1[q].0 == id2);
                        if q < i {
                            assert(o1[q] == o0[q]);
                            assert(ids(o0)[q] == id2);
                            assert(ids(o0).contains(id2));
                            assert(ids(pre).contains(id2));
                            let w = choose|w: int| 0 <= w < ids(pre).len() && ids(pre)[w] == id2;
                            assert(ids(pre.push(x))[w] == id2);
                        } else if q > i {
                            assert(o1[q] == o0[q - 1]);
                            assert(ids(o0)[q - 1] == id2);
                            assert(ids(o0).contains(id2));
                            assert(ids(pre).contains(id2));
                            let w = choose|w: int| 0 <= w < ids(pre).len() && ids(pre)[w] == id2;
                            assert(ids(pre.push(x))[w] == id2);
                        } else {
                            assert(o1[q] == x);
                            assert(ids(pre.push(x))[pre.len() as int] == id2);
                        }
                    }
                    if ids(pre.push(x)).contains(id2) {
                        let q = choose|q: int| 0 <= q < ids(pre.push(x)).len() && ids(pre.push(x))[q] == id2;
                        if q < pre.len() {
                            assert(ids(pre)[q] == id2);
                            assert(ids(pre).contains(id2));
                            assert(ids(o0).contains(id2));
                            let w = choose|w: int| 0 <= w < ids(o0).len() && ids(o0)[w] == id2;
                            assert(o0[w].0 == id2);
                            if w < i {
                                assert(o1[w] == o0[w]);
                                assert(ids(o1)[w] == id2);
                            } else {
                                assert(o1[w + 1] == o0[w]);
                                assert(ids(o1)[w + 1] == id2);
                            }
                        } else {
                            assert(ids(pre.push(x))[q] == x.0);
                            assert(o1[i as int] == x);
                            assert(ids(o1)[i as int] == id2);
                        }
                    }
                }
            }
        }
        k = k + 1;
    }
    assert(input.take(models@.len() as int) =~= input);
    out
}

/// How many catalog pages are requested at most.
pub const MAX_CATALOG_PAGES: usize = 20;

/// A request for one page of a provider's catalog.
pub struct CatalogRequest {
    pub url: &'static str,
    /// Query parameters, in order.
    pub query: Vec<(String, String)>,
    /// Extra headers, in order.
    pub headers: Vec<(String, String)>,
    /// Bearer token for the `Authorization` header.
    pub bearer: Option<String>,
}

/// A request as plain values.
#[verifier::ext_equal]
pub struct RequestView {
    pub url: Seq<char>,
    pub query: Seq<(Seq<char>, Seq<char>)>,
    pub headers: Seq<(Seq<char>, Seq<char>)>,
    pub bearer: Option<Seq<char>>,
}

/// The plain values of name/value pairs.
pub open spec fn pairs_view(v: Seq<(String, String)>) -> Seq<(Seq<char>, Seq<char>)> {
    v.map_values(|p: (String, String)| (p.0@, p.1@))
}

/// The plain values of a request.
pub open spec fn request_view(r: CatalogRequest) -> RequestView {
    RequestView { url: r.url@, query: pairs_view(r.query@), headers: pairs_view(r.headers@), bearer: text::opt_text(r.bearer) }
}

/// The page parameter each provider pages with.
pub open spec fn page_param(kind: SourceKind) -> Seq<char> {
    match kind {
        SourceKind::Gemini => "pageToken"@,
        SourceKind::Anthropic => "after_id"@,
        _ => "after"@,
    }
}

/// The request for a catalog page: each provider's endpoint; Anthropic takes
/// the key in `x-api-key` with its API version, Gemini in the `key` query
/// parameter, the others as a bearer token; later pages add the page token.
pub open spec fn catalog_request_spec(kind: SourceKind, key: Seq<char>, page_token: Option<Seq<char>>) -> Result<RequestView, Seq<char>> {
    let paging = match page_token {
        Some(t) => seq![(page_param(kind), t)],
        None => Seq::empty(),
    };
    match kind {
        SourceKind::Groq => Ok(RequestView { url: "https://api.groq.com/openai/v1/models"@, query: paging, headers: Seq::empty(), bearer: Some(key) }),
        SourceKind::OpenAi => Ok(RequestView { url: "https://api.openai.com/v1/models"@, query: paging, headers: Seq::empty(), bearer: Some(key) }),
        SourceKind::Anthropic => Ok(RequestView {
            url: "https://api.anthropic.com/v1/models"@,
            query: paging,
            headers: seq![("anthropic-version"@, "2023-06-01"@), ("x-api-key"@, key)],
            bearer: None,
        }),
        SourceKind::Gemini => Ok(RequestView {
            url: "https://generativelanguage.googleapis.com/v1beta/models"@,
            query: seq![("key"@, key)] + paging,
            headers: Seq::empty(),
            bearer: None,
        }),
        SourceKind::Ollama | SourceKind::Custom => Err("Unsupported provider "@ + config::provider_name_spec(kind)),
    }
}

/// The request for one page of a provider's catalog.
pub fn catalog_request(kind: SourceKind, key: &str, page_token: Option<&str>) -> (r: Result<CatalogRequest, String>)
    ensures
        match r {
            Ok(q) => catalog_request_spec(kind, key@, match page_token { Some(t) => Some(t@), None => None }) == Ok::<RequestView, Seq<char>>(request_view(q)),
            Err(e) => catalog_request_spec(kind, key@, match page_token { Some(t) => Some(t@), None => None }) == Err::<RequestView, Seq<char>>(e@),
        },
{
    let url: &'static str = match kind {
        SourceKind::Groq => "https://api.groq.com/openai/v1/models",
        SourceKind::OpenAi => "https://api.openai.com/v1/models",
        SourceKind::Anthropic => "https://api.anthropic.com/v1/models",
        SourceKind::Gemini => "https://generativelanguage.googleapis.com/v1beta/models",
        SourceKind::Ollama | SourceKind::Custom => {
            let mut m = owned("Unsupported provider ");
            text::push_text(&mut m, config::provider_name(kind));
            return Err(m);
        },
    };
    let ghost paging = match page_token {
        Some(t) => seq![(page_param(kind), t@)],
        None => Seq::<(Seq<char>, Seq<char>)>::empty(),
    };
    let mut query: Vec<(String, String)> = Vec::new();
    let mut headers: Vec<(String, String)> = Vec::new();
    if kind == SourceKind::Gemini {
        query.push((owned("key"), owned(key)));
    }
    let ghost q0 = pairs_view(query@);
    if kind == SourceKind::Anthropic {
        headers.push((owned("anthropic-version"), owned("2023-06-01")));
        headers.push((owned("x-api-key"), owned(key)));
        assert(pairs_view(headers@) =~= seq![("anthropic-version"@, "2023-06-01"@), ("x-api-key"@, key@)]);
    } else {
        assert(pairs_view(headers@) =~= Seq::<(Seq<char>, Seq<char>)>::empty());
    }
    if let Some(t) = page_token {
        let param: &'static str = match kind {
            SourceKind::Gemini => "pageToken",
            SourceKind::Anthropic => "after_id",
            _ => "after",
        };
        query.push((owned(param), owned(t)));
        assert(pairs_view(query@) =~= q0 + paging);
    } else {
        assert(pairs_view(query@) =~= q0 + paging);
    }
    if kind == SourceKind::Gemini {
        assert(q0 =~= seq![("key"@, key@)]);
    } else {
        assert(q0 =~= Seq::<(Seq<char>, Seq<char>)>::empty());
        assert(q0 + paging =~= paging);
    }
    let bearer = if kind == SourceKind::Groq || kind == SourceKind::OpenAi {
        Some(owned(key))
    } else {
        None
    };
    let q = CatalogRequest { url, query, headers, bearer };
    assert(request_view(q) =~~= catalog_request_spec(kind, key@, match page_token { Some(t) => Some(t@), None => None })->Ok_0);
    Ok(q)
}

/// Whether to request another page: the page named a next token, it is not
/// the token just used, and fewer than the maximum pages were requested.
pub open spec fn catalog_continues_spec(page_token: Option<Seq<char>>, next: Option<Seq<char>>, pages_done: nat) -> bool {
    next is Some && next != page_token && pages_done < 20
}

/// Whether to request another page.
pub fn catalog_continues(page_token: &Option<String>, next: &Option<String>, pages_done: usize) -> (b: bool)
    ensures
        b == catalog_continues_spec(text::opt_text(*page_token), text::opt_text(*next), pages_done as nat),
{
    match next {
        None => false,
        Some(n) => {
            let same = match page_token {
                Some(t) => text::text_eq(t.as_str(), n.as_str()),
                None => false,
            };
            !same && pages_done < MAX_CATALOG_PAGES
        },
    }
}

/// The message for a catalog answer that is not a success: the provider,
/// the HTTP status and the first 300 characters of the body.
pub fn catalog_http_error(kind: SourceKind, status: &str, body: &str) -> (m: String)
    ensures
        m@ == config::provider_name_spec(kind) + " model catalog returned HTTP "@ + status@ + ": "@ + body@.take(
            if body@.len() < 300 { body@.len() as int } else { 300 },
        ),
{
    let mut m = owned(config::provider_name(kind));
    text::push_text(&mut m, " model catalog returned HTTP ");
    text::push_text(&mut m, status);
    text::push_text(&mut m, ": ");
    let v = text::chars_of(body);
    let n = if v.len() < 300 { v.len() } else { 300 };
    let head = text::string_of_range(&v, 0, n);
    assert(v@.subrange(0, n as int) =~= body@.take(n as int));
    text::push_text(&mut m, head.as_str());
    m
}

/// Every model a catalog page lists has a non-blank identifier, the trimmed
/// raw identifier of one of the listed entries; a Gemini entry that cannot
/// generate content never makes it into the list.
pub proof fn law_catalog_models_usable(kind: SourceKind, entries: Seq<JsonValue>, m: (Seq<char>, Option<Seq<char>>))
    requires
        entries.filter_map(|e: JsonValue| catalog_entry(kind, e)).contains(m),
    ensures
        m.0.len() > 0,
        exists|e: JsonValue| #[trigger] entries.contains(e) && !gemini_cannot_chat(kind, e) && (raw_model_id(e) matches Some(r) && text::trim(r) == m.0),
{
    let f = |e: JsonValue| catalog_entry(kind, e);
    entries.lemma_filter_map_contains(f, m);
    let e = choose|e: JsonValue| #[trigger] entries.contains(e) && f(e) == Some(m);
    assert(entries.contains(e));
}

/// Each provider pages with its own parameter: a page token `t` is sent as
/// `("pageToken", t)` to Gemini (after its `("key", key)`), as
/// `("after_id", t)` to Anthropic and as `("after", t)` to Groq and OpenAI;
/// the first page sends only Gemini's key.
pub proof fn law_catalog_paging_parameter(kind: SourceKind, key: Seq<char>, t: Seq<char>)
    ensures
        kind == SourceKind::Gemini ==> (catalog_request_spec(kind, key, Some(t)) matches Ok(r) && r.query == seq![("key"@, key), ("pageToken"@, t)]),
        kind == SourceKind::Anthropic ==> (catalog_request_spec(kind, key, Some(t)) matches Ok(r) && r.query == seq![("after_id"@, t)]),
        (kind == SourceKind::Groq || kind == SourceKind::OpenAi) ==> (catalog_request_spec(kind, key, Some(t)) matches Ok(r) && r.query == seq![("after"@, t)]),
        kind == SourceKind::Gemini ==> (catalog_request_spec(kind, key, None) matches Ok(r) && r.query == seq![("key"@, key)]),
        (kind != SourceKind::Gemini && kind != SourceKind::Ollama && kind != SourceKind::Custom) ==> (catalog_request_spec(kind, key, None) matches Ok(r) && r.query.len() == 0),
{
    let paging = seq![(page_param(kind), t)];
    if kind == SourceKind::Gemini {
        assert(seq![("key"@, key)] + paging =~= seq![("key"@, key), ("pageToken"@, t)]);
        assert(seq![("key"@, key)] + Seq::<(Seq<char>, Seq<char>)>::empty() =~= seq![("key"@, key)]);
    }
}

/// Each provider gets the key where it expects it: Anthropic in the
/// `x-api-key` header with `anthropic-version: 2023-06-01`, Gemini in the
/// `key` query parameter, Groq and OpenAI as a bearer token; each at its own
/// models endpoint; local sources have no catalog.
pub proof fn law_catalog_key_placement(kind: SourceKind, key: Seq<char>, token: Option<Seq<char>>)
    ensures
        kind == SourceKind::Anthropic ==> (catalog_request_spec(kind, key, token) matches Ok(r)
            && r.url == "https://api.anthropic.com/v1/models"@ && r.bearer is None
            && r.headers == seq![("anthropic-version"@, "2023-06-01"@), ("x-api-key"@, key)]),
        kind == SourceKind::Gemini ==> (catalog_request_spec(kind, key, token) matches Ok(r)
            && r.url == "https://generativelanguage.googleapis.com/v1beta/models"@ && r.bearer is None
            && r.headers.len() == 0 && r.query[0] == ("key"@, key)),
        kind == SourceKind::Groq ==> (catalog_request_spec(kind, key, token) matches Ok(r)
            && r.url == "https://api.groq.com/openai/v1/models"@ && r.bearer == Some(key) && r.headers.len() == 0),
        kind == SourceKind::OpenAi ==> (catalog_request_spec(kind, key, token) matches Ok(r)
            && r.url == "https://api.openai.com/v1/models"@ && r.bearer == Some(key) && r.headers.len() == 0),
        (kind == SourceKind::Ollama || kind == SourceKind::Custom) ==> catalog_request_spec(kind, key, token) is Err,
{
}

/// Gemini pages on a non-empty `nextPageToken`; the others on a non-empty
/// `last_id`, and only while `has_more` is true.
pub proof fn law_catalog_next_page(kind: SourceKind, v: JsonValue)
    ensures
        kind == SourceKind::Gemini ==> next_page_token(kind, v) == match json::as_str(json::get(v, "nextPageToken"@)) {
            Some(t) => if t.len() > 0 { Some(t) } else { None },
            None => None,
        },
        kind != SourceKind::Gemini && json::as_bool(json::get(v, "has_more"@)) != Some(true) ==> next_page_token(kind, v) is None,
        kind != SourceKind::Gemini && json::as_bool(json::get(v, "has_more"@)) == Some(true) ==> next_page_token(kind, v) == match json::as_str(json::get(v, "last_id"@)) {
            Some(t) => if t.len() > 0 { Some(t) } else { None },
            None => None,
        },
        next_page_token(kind, v) matches Some(t) ==> t.len() > 0,
{
}

} // verus!
