//! Where the desktop keeps its files under the user's home directory.

use vstd::prelude::*;
use crate::text;
use crate::text::owned;

verus! {

/// A path separator on the platform (`/`, and also `\` on Windows).
pub open spec fn is_sep(c: char, windows: bool) -> bool {
    c == '/' || (windows && c == '\\')
}

/// The separator `PathBuf::push` inserts.
pub open spec fn main_sep(windows: bool) -> char {
    if windows {
        '\\'
    } else {
        '/'
    }
}

/// A bare Windows drive such as `C:`.
pub open spec fn bare_drive(base: Seq<char>) -> bool {
    base.len() == 2 && base[1] == ':' && (text::is_ascii_upper(base[0]) || text::is_ascii_lower(base[0]))
}

/// A Windows verbatim path (`\\?\...`): only `\` separates its parts.
pub open spec fn verbatim_path(base: Seq<char>, windows: bool) -> bool {
    windows && base.len() >= 4 && base[0] == '\\' && base[1] == '\\' && base[2] == '?' && base[3] == '\\'
}

/// The length of the first `\`-separated part of `t`.
pub open spec fn part_len(t: Seq<char>) -> nat {
    match text::index_of(t, '\\') {
        Some(i) => i,
        None => t.len(),
    }
}

/// The length of a verbatim path's prefix: `\\?\UNC\server\share` (the share
/// only when it is not empty), else `\\?\` and its first part (as in `\\?\C:`).
pub open spec fn verbatim_prefix_len(base: Seq<char>) -> nat {
    let t = base.subrange(4, base.len() as int);
    if text::starts_with(t, "UNC\\"@) {
        let u = t.subrange(4, t.len() as int);
        let server = part_len(u);
        if server < u.len() && part_len(u.subrange(server + 1int, u.len() as int)) > 0 {
            8 + server + 1 + part_len(u.subrange(server + 1int, u.len() as int))
        } else {
            8 + server
        }
    } else {
        4 + part_len(t)
    }
}

/// The parts of `r` that are not empty, each after one `\`.
pub open spec fn collapse(r: Seq<char>) -> Seq<char>
    decreases r.len(),
{
    if r.len() == 0 {
        Seq::empty()
    } else if r.last() == '\\' {
        collapse(r.drop_last())
    } else if r.len() == 1 || r[r.len() - 2] == '\\' {
        collapse(r.drop_last()) + seq!['\\', r.last()]
    } else {
        collapse(r.drop_last()).push(r.last())
    }
}

/// `PathBuf::push` of a relative name (one component, not `.` or `..`). On a verbatim base the path is
/// rebuilt from its prefix and its non-empty parts, one `\` before each part
/// and before the name. Otherwise a separator is inserted unless the base is
/// empty, already ends in one, or is a bare Windows drive.
pub open spec fn join_spec(base: Seq<char>, segment: Seq<char>, windows: bool) -> Seq<char> {
    if verbatim_path(base, windows) {
        let k = verbatim_prefix_len(base) as int;
        base.subrange(0, k) + collapse(base.subrange(k, base.len() as int)) + seq!['\\'] + segment
    } else if base.len() > 0 && !is_sep(base.last(), windows) && !(windows && bare_drive(base)) {
        base + seq![main_sep(windows)] + segment
    } else {
        base + segment
    }
}

/// `<home>/.openjarvis/<file>`.
pub open spec fn openjarvis_file_spec(home: Seq<char>, file: Seq<char>, windows: bool) -> Seq<char> {
    join_spec(join_spec(home, ".openjarvis"@, windows), file, windows)
}

/// The index of the first `\` in `v` at or after `from`, else `v.len()`.
fn part_end(v: &Vec<char>, from: usize) -> (r: usize)
    requires
        from <= v.len(),
    ensures
        r == from + part_len(v@.subrange(from as int, v@.len() as int)),
        r <= v.len(),
{
    let ghost t = v@.subrange(from as int, v@.len() as int);
    let mut i = from;
    while i < v.len() && v[i] != '\\'
        invariant
            from <= i <= v.len(),
            forall|j: int| from <= j < i ==> #[trigger] v@[j] != '\\',
        decreases v.len() - i,
    {
        i = i + 1;
    }
    proof {
        assert forall|j: int| 0 <= j < i - from implies #[trigger] t[j] != '\\' by {
            assert(t[j] == v@[from + j]);
        }
        text::lemma_index_of_from(t, '\\', i - from);
        let rest = t.subrange(i - from, t.len() as int);
        if i < v.len() {
            assert(rest[0] == v@[i as int]);
        } else {
            assert(rest.len() == 0);
        }
    }
    i
}

fn verbatim_prefix_end(v: &Vec<char>) -> (k: usize)
    requires
        verbatim_path(v@, true),
    ensures
        k == verbatim_prefix_len(v@),
        k <= v.len(),
{
    let ghost t = v@.subrange(4, v@.len() as int);
    let unc = v.len() >= 8 && v[4] == 'U' && v[5] == 'N' && v[6] == 'C' && v[7] == '\\';
    proof {
        reveal_strlit("UNC\\");
        if unc {
            assert(t.subrange(0, 4) =~= "UNC\\"@);
        } else if t.len() >= 4 {
            if t.subrange(0, 4) == "UNC\\"@ {
                assert(t.subrange(0, 4)[0] == v@[4]);
                assert(t.subrange(0, 4)[1] == v@[5]);
                assert(t.subrange(0, 4)[2] == v@[6]);
                assert(t.subrange(0, 4)[3] == v@[7]);
            }
        }
    }
    if unc {
        let s = part_end(v, 8);
        proof {
            let u = t.subrange(4, t.len() as int);
            assert(u =~= v@.subrange(8, v@.len() as int));
        }
        if s < v.len() {
            let h = part_end(v, s + 1);
            proof {
                let u = t.subrange(4, t.len() as int);
                assert(u.subrange(s - 8 + 1, u.len() as int) =~= v@.subrange(s + 1, v@.len() as int));
            }
            if h > s + 1 {
                h
            } else {
                s
            }
        } else {
            s
        }
    } else {
        let e = part_end(v, 4);
        e
    }
}

fn collapse_from(v: &Vec<char>, from: usize) -> (r: String)
    requires
        from <= v.len(),
    ensures
        r@ == collapse(v@.subrange(from as int, v@.len() as int)),
{
    let ghost t = v@.subrange(from as int, v@.len() as int);
    let mut r = String::new();
    let mut i = from;
    proof { assert(t.take(0) =~= Seq::<char>::empty()); }
    while i < v.len()
        invariant
            from <= i <= v.len(),
            t == v@.subrange(from as int, v@.len() as int),
            r@ == collapse(t.take(i - from)),
        decreases v.len() - i,
    {
        let ghost p = t.take(i - from + 1);
        proof {
            assert(p.drop_last() =~= t.take(i - from));
            assert(p.last() == v@[i as int]);
            if i > from {
                assert(p[p.len() - 2] == v@[i - 1]);
            }
        }
        let c = v[i];
        if c != '\\' {
            if i == from || v[i - 1] == '\\' {
                r.push('\\');
            }
            r.push(c);
        }
        proof {
            assert(r@ =~= collapse(p));
        }
        i = i + 1;
    }
    proof { assert(t.take(t.len() as int) =~= t); }
    r
}

fn join(base: &str, segment: &str, windows: bool) -> (r: String)
    ensures
        r@ == join_spec(base@, segment@, windows),
{
    let v = text::chars_of(base);
    let n = v.len();
    if windows && n >= 4 && v[0] == '\\' && v[1] == '\\' && v[2] == '?' && v[3] == '\\' {
        let k = verbatim_prefix_end(&v);
        let mut r = text::string_of_range(&v, 0, k);
        let c = collapse_from(&v, k);
        text::push_text(&mut r, c.as_str());
        r.push('\\');
        text::push_text(&mut r, segment);
        return r;
    }
    let ends_sep = n > 0 && (v[n - 1] == '/' || (windows && v[n - 1] == '\\'));
    let drive = windows && n == 2 && v[1] == ':' && (('A' <= v[0] && v[0] <= 'Z') || ('a' <= v[0] && v[0] <= 'z'));
    let mut r = owned(base);
    if n > 0 && !ends_sep && !drive {
        r.push(if windows { '\\' } else { '/' });
    }
    text::push_text(&mut r, segment);
    r
}

fn openjarvis_file(home: &str, file: &str, windows: bool) -> (r: String)
    ensures
        r@ == openjarvis_file_spec(home@, file@, windows),
{
    let dir = join(home, ".openjarvis", windows);
    join(dir.as_str(), file, windows)
}

/// The inference-source config: `<home>/.openjarvis/inference.json`.
pub fn inference_config_path(home: &str, windows: bool) -> (r: String)
    ensures
        r@ == openjarvis_file_spec(home@, "inference.json"@, windows),
{
    openjarvis_file(home, "inference.json", windows)
}

/// The legacy key file older builds wrote: `<home>/.openjarvis/cloud-keys.env`.
pub fn legacy_cloud_keys_path(home: &str, windows: bool) -> (r: String)
    ensures
        r@ == openjarvis_file_spec(home@, "cloud-keys.env"@, windows),
{
    openjarvis_file(home, "cloud-keys.env", windows)
}

/// The engine configuration `jarvis serve` reads: `<home>/.openjarvis/config.toml`.
pub fn engine_config_path(home: &str, windows: bool) -> (r: String)
    ensures
        r@ == openjarvis_file_spec(home@, "config.toml"@, windows),
{
    openjarvis_file(home, "config.toml", windows)
}

/// Where the bundled runtime keeps its data: `<home>/.openjarvis/desktop`.
pub fn desktop_data_dir(home: &str, windows: bool) -> (r: String)
    ensures
        r@ == openjarvis_file_spec(home@, "desktop"@, windows),
{
    openjarvis_file(home, "desktop", windows)
}

/// Where the first launch clones the project: `<home>/OpenJarvis`.
pub fn clone_target(home: &str, windows: bool) -> (r: String)
    ensures
        r@ == join_spec(home@, "OpenJarvis"@, windows),
{
    join(home, "OpenJarvis", windows)
}

/// Where the bundled runtime's browsers are: `<runtime root>/ms-playwright`.
pub fn browsers_path(runtime_root: &str, windows: bool) -> (r: String)
    ensures
        r@ == join_spec(runtime_root@, "ms-playwright"@, windows),
{
    join(runtime_root, "ms-playwright", windows)
}

} // verus!
