//! Catalog path contract: where each stream lands under the catalog root.
//!
//! ```text
//! {catalog_root}/
//!   data/{family}/...                  built-in market data
//!   data/custom/{TypeName}/[{id}/]...   custom data (subscribe and request)
//!   metadata/...                        run and universe metadata
//! ```
//!
//! Paths are `/`-separated strings with the joining rules of `PathBuf::push`
//! on Unix.
use vstd::prelude::*;

use crate::text::{chars_of, push_char, push_str, string_from_chars, str_eq};

verus! {

/// `base` joined with `seg`: an absolute `seg` replaces `base`; otherwise a
/// separator is inserted unless `base` is empty or already ends with one.
pub open spec fn path_join(base: Seq<char>, seg: Seq<char>) -> Seq<char> {
    if seg.len() > 0 && seg[0] == '/' {
        seg
    } else if base.len() == 0 || base.last() == '/' {
        base + seg
    } else {
        base.push('/') + seg
    }
}

/// Pushes one identifier segment unless it is empty or `..`.
pub open spec fn push_segment(path: Seq<char>, seg: Seq<char>) -> Seq<char> {
    if seg.len() > 0 && seg != seq!['.', '.'] { path_join(path, seg) } else { path }
}

/// Splits `rest` on `/` (with `cur` the segment read so far) and pushes each
/// non-empty, non-`..` segment onto `path`.
pub open spec fn push_segments(path: Seq<char>, cur: Seq<char>, rest: Seq<char>) -> Seq<char>
    decreases rest.len(),
{
    if rest.len() == 0 {
        push_segment(path, cur)
    } else if rest[0] == '/' {
        push_segments(push_segment(path, cur), Seq::empty(), rest.drop_first())
    } else {
        push_segments(path, cur.push(rest[0]), rest.drop_first())
    }
}

/// `data/{type}` relative to the catalog root.
pub open spec fn spec_market_data_dir(type_label: Seq<char>) -> Seq<char> {
    path_join("data"@, type_label)
}

/// `data/custom/{type}[/{id segments}]` relative to the catalog root.
pub open spec fn spec_custom_data_dir(type_label: Seq<char>, identifier: Option<Seq<char>>) -> Seq<char> {
    let base = path_join("data/custom"@, type_label);
    match identifier {
        Some(id) => push_segments(base, Seq::empty(), id),
        None => base,
    }
}

/// `base` joined with `seg` (`Path::join`).
pub fn join_path(base: &str, seg: &str) -> (r: String)
    ensures
        r@ == path_join(base@, seg@),
{
    let b = chars_of(base);
    let s = chars_of(seg);
    if s.len() > 0 && s[0] == '/' {
        return String::from_str(seg);
    }
    let mut out = String::from_str(base);
    if !(b.len() == 0 || b[b.len() - 1] == '/') {
        push_char(&mut out, '/');
    }
    push_str(&mut out, seg);
    out
}

/// Relative directory of a built-in market-data family, e.g. `data/quotes`.
pub fn market_data_dir(type_label: &str) -> (r: String)
    ensures
        r@ == spec_market_data_dir(type_label@),
{
    join_path("data", type_label)
}

fn is_dot_dot(v: &Vec<char>) -> (r: bool)
    ensures
        r == (v@ == seq!['.', '.']),
{
    if v.len() == 2 && v[0] == '.' && v[1] == '.' {
        assert(v@ =~= seq!['.', '.']);
        true
    } else {
        false
    }
}

/// Relative directory of custom data: `data/custom/{type}` followed by the
/// `/`-separated segments of `identifier`, empty and `..` segments dropped
/// (so doubled separators collapse).
pub fn custom_data_dir(type_label: &str, identifier: Option<&str>) -> (r: String)
    ensures
        r@ == spec_custom_data_dir(type_label@, match identifier {
            Some(id) => Some(id@),
            None => None,
        }),
{
    let base = join_path("data/custom", type_label);
    let id = match identifier {
        None => return base,
        Some(id) => id,
    };
    let chars = chars_of(id);
    let mut out = base;
    let mut cur: Vec<char> = Vec::new();
    let mut i: usize = 0;
    assert(chars@.skip(0) =~= chars@);
    while i < chars.len()
        invariant
            chars@ == id@,
            i <= chars@.len(),
            push_segments(out@, cur@, chars@.skip(i as int)) == spec_custom_data_dir(type_label@, Some(id@)),
        decreases chars@.len() - i,
    {
        let c = chars[i];
        assert(chars@.skip(i as int)[0] == c);
        assert(chars@.skip(i as int).drop_first() =~= chars@.skip(i as int + 1));
        if c == '/' {
            if cur.len() > 0 && !is_dot_dot(&cur) {
                let seg = string_from_chars(&cur, 0, cur.len());
                assert(cur@.subrange(0, cur@.len() as int) =~= cur@);
                out = join_path(out.as_str(), seg.as_str());
            }
            cur = Vec::new();
        } else {
            cur.push(c);
        }
        i = i + 1;
    }
    assert(chars@.skip(i as int) =~= Seq::<char>::empty());
    if cur.len() > 0 && !is_dot_dot(&cur) {
        let seg = string_from_chars(&cur, 0, cur.len());
        assert(cur@.subrange(0, cur@.len() as int) =~= cur@);
        out = join_path(out.as_str(), seg.as_str());
    }
    out
}

/// `s` with every `\` turned into `/`.
pub open spec fn forward_slashes(s: Seq<char>) -> Seq<char> {
    s.map_values(|c: char| if c == '\\' { '/' } else { c })
}


fn slashes(s: &str) -> (v: Vec<char>)
    ensures
        v@ == forward_slashes(s@),
{
    let cs = chars_of(s);
    let mut v: Vec<char> = Vec::new();
    let mut i: usize = 0;
    while i < cs.len()
        invariant
            cs@ == s@,
            i <= cs@.len(),
            v@ == forward_slashes(s@).subrange(0, i as int),
        decreases cs@.len() - i,
    {
        let c = cs[i];
        v.push(if c == '\\' { '/' } else { c });
        i = i + 1;
        assert(v@ =~= forward_slashes(s@).subrange(0, i as int));
    }
    assert(v@ =~= forward_slashes(s@));
    v
}

pub(crate) fn run_at(hay: &Vec<char>, needle: &Vec<char>, at: usize) -> (r: bool)
    requires
        at + needle@.len() <= hay@.len(),
    ensures
        r == (hay@.subrange(at as int, at + needle@.len()) == needle@),
{
    let n = hay.len();
    let mut j: usize = 0;
    while j < needle.len()
        invariant
            n == hay@.len(),
            at + needle@.len() <= hay@.len(),
            j <= needle@.len(),
            forall|k: int| 0 <= k < j ==> hay@[at + k] == needle@[k],
        decreases needle@.len() - j,
    {
        if hay[at + j] != needle[j] {
            assert(hay@.subrange(at as int, at + needle@.len())[j as int] != needle@[j as int]);
            return false;
        }
        j = j + 1;
    }
    assert(hay@.subrange(at as int, at + needle@.len()) =~= needle@);
    true
}

/// `needle` occurs in `hay` at `i` as whole `/`-separated components: at the
/// start or after a `/`, and followed by a `/` or the end.
pub open spec fn component_run_at(hay: Seq<char>, needle: Seq<char>, i: int) -> bool {
    &&& 0 <= i && i + needle.len() <= hay.len()
    &&& hay.subrange(i, i + needle.len()) == needle
    &&& (i == 0 || hay[i - 1] == '/')
    &&& (i + needle.len() == hay.len() || hay[i + needle.len()] == '/')
}

/// `needle` occurs in `hay` as whole components.
pub open spec fn contains_components(hay: Seq<char>, needle: Seq<char>) -> bool {
    exists|i: int| #[trigger] component_run_at(hay, needle, i)
}

fn contains_component_run(hay: &Vec<char>, needle: &Vec<char>) -> (r: bool)
    ensures
        r == contains_components(hay@, needle@),
{
    if needle.len() > hay.len() {
        return false;
    }
    let n = hay.len();
    let last = n - needle.len();
    let mut i: usize = 0;
    while i <= last
        invariant
            n == hay@.len(),
            last + needle@.len() == hay@.len(),
            i <= last + 1,
            forall|k: int| 0 <= k < i ==> !#[trigger] component_run_at(hay@, needle@, k),
        decreases last + 1 - i,
    {
        let end = i + needle.len();
        let before_ok = i == 0 || hay[i - 1] == '/';
        let after_ok = end == n || hay[end] == '/';
        if before_ok && after_ok && run_at(hay, needle, i) {
            assert(component_run_at(hay@, needle@, i as int));
            return true;
        }
        if i == last {
            return false;
        }
        i = i + 1;
    }
    false
}

/// Components of a Unix path: a root marker `/` when absolute, a leading `.`
/// when the relative path starts with one, then every non-empty segment other
/// than `.` (as `Path::components`).
pub open spec fn components(p: Seq<char>) -> Seq<Seq<char>> {
    let rooted = p.len() > 0 && p[0] == '/';
    let lead_dot = !rooted && p.len() > 0 && p[0] == '.' && (p.len() == 1 || p[1] == '/');
    let head: Seq<Seq<char>> = if rooted { seq![seq!['/']] } else if lead_dot { seq![seq!['.']] } else { Seq::empty() };
    head + normal_segments(Seq::empty(), Seq::empty(), p)
}

/// Non-empty segments of `rest` other than `.`, appended to `acc`
/// (`cur` is the segment read so far).
pub open spec fn normal_segments(acc: Seq<Seq<char>>, cur: Seq<char>, rest: Seq<char>) -> Seq<Seq<char>>
    decreases rest.len(),
{
    let keep = |a: Seq<Seq<char>>, s: Seq<char>| if s.len() > 0 && s != seq!['.'] { a.push(s) } else { a };
    if rest.len() == 0 {
        keep(acc, cur)
    } else if rest[0] == '/' {
        normal_segments(keep(acc, cur), Seq::empty(), rest.drop_first())
    } else {
        normal_segments(acc, cur.push(rest[0]), rest.drop_first())
    }
}

/// `base`'s components are a prefix of `p`'s (`Path::starts_with`).
pub open spec fn path_starts_with(p: Seq<char>, base: Seq<char>) -> bool {
    let a = components(p);
    let b = components(base);
    b.len() <= a.len() && a.subrange(0, b.len() as int) =~~= b
}

fn is_single_dot(v: &Vec<char>) -> (r: bool)
    ensures
        r == (v@ == seq!['.']),
{
    if v.len() == 1 && v[0] == '.' {
        assert(v@ =~= seq!['.']);
        true
    } else {
        false
    }
}

fn path_components(p: &str) -> (out: Vec<Vec<char>>)
    ensures
        out@.len() == components(p@).len(),
        forall|i: int| 0 <= i < out@.len() ==> #[trigger] out@[i]@ == components(p@)[i],
{
    let cs = chars_of(p);
    let rooted = cs.len() > 0 && cs[0] == '/';
    let lead_dot = !rooted && cs.len() > 0 && cs[0] == '.' && (cs.len() == 1 || cs[1] == '/');
    let mut out: Vec<Vec<char>> = Vec::new();
    let ghost head: Seq<Seq<char>> = if rooted { seq![seq!['/']] } else if lead_dot { seq![seq!['.']] } else { Seq::empty() };
    if rooted {
        let mut v = Vec::new();
        v.push('/');
        out.push(v);
    } else if lead_dot {
        let mut v = Vec::new();
        v.push('.');
        out.push(v);
    }
    proof {
        assert(out@.len() == head.len());
        assert forall|k: int| 0 <= k < out@.len() implies #[trigger] out@[k]@ == head[k] by {
            assert(out@[k]@ =~= head[k]);
        }
    }
    let mut cur: Vec<char> = Vec::new();
    let mut i: usize = 0;
    let ghost acc0: Seq<Seq<char>> = Seq::empty();
    let ghost mut acc: Seq<Seq<char>> = Seq::empty();
    assert(cs@.skip(0) =~= cs@);
    while i < cs.len()
        invariant
            cs@ == p@,
            i <= cs@.len(),
            out@.len() == head.len() + acc.len(),
            forall|k: int| 0 <= k < head.len() ==> #[trigger] out@[k]@ == head[k],
            forall|k: int| 0 <= k < acc.len() ==> #[trigger] out@[head.len() + k]@ == acc[k],
            normal_segments(acc, cur@, cs@.skip(i as int)) == normal_segments(Seq::empty(), Seq::empty(), p@),
        decreases cs@.len() - i,
    {
        let c = cs[i];
        assert(cs@.skip(i as int)[0] == c);
        assert(cs@.skip(i as int).drop_first() =~= cs@.skip(i as int + 1));
        if c == '/' {
            if cur.len() > 0 && !is_single_dot(&cur) {
                proof {
                    acc = acc.push(cur@);
                }
                out.push(cur);
            }
            cur = Vec::new();
        } else {
            cur.push(c);
        }
        i = i + 1;
    }
    assert(cs@.skip(i as int) =~= Seq::<char>::empty());
    if cur.len() > 0 && !is_single_dot(&cur) {
        proof {
            acc = acc.push(cur@);
        }
        out.push(cur);
    }
    proof {
        let comps = components(p@);
        assert(comps =~= head + acc);
        assert forall|k: int| 0 <= k < out@.len() implies #[trigger] out@[k]@ == comps[k] by {
            if k >= head.len() {
                assert(out@[head.len() + (k - head.len())]@ == acc[k - head.len()]);
            }
        }
    }
    out
}

fn chars_vec_eq(a: &Vec<char>, b: &Vec<char>) -> (r: bool)
    ensures
        r == (a@ == b@),
{
    if a.len() != b.len() {
        return false;
    }
    let mut i: usize = 0;
    while i < a.len()
        invariant
            a@.len() == b@.len(),
            i <= a@.len(),
            forall|k: int| 0 <= k < i ==> a@[k] == b@[k],
        decreases a@.len() - i,
    {
        if a[i] != b[i] {
            return false;
        }
        i = i + 1;
    }
    assert(a@ =~= b@);
    true
}

/// Component-wise prefix test (`Path::starts_with`).
pub fn starts_with_path(p: &str, base: &str) -> (r: bool)
    ensures
        r == path_starts_with(p@, base@),
{
    let a = path_components(p);
    let b = path_components(base);
    if b.len() > a.len() {
        return false;
    }
    let mut i: usize = 0;
    while i < b.len()
        invariant
            b@.len() <= a@.len(),
            i <= b@.len(),
            a@.len() == components(p@).len(),
            b@.len() == components(base@).len(),
            forall|k: int| 0 <= k < a@.len() ==> #[trigger] a@[k]@ == components(p@)[k],
            forall|k: int| 0 <= k < b@.len() ==> #[trigger] b@[k]@ == components(base@)[k],
            forall|k: int| 0 <= k < i ==> components(p@)[k] == components(base@)[k],
        decreases b@.len() - i,
    {
        if !chars_vec_eq(&a[i], &b[i]) {
            proof {
                assert(components(p@).subrange(0, b@.len() as int)[i as int] == components(p@)[i as int]);
            }
            return false;
        }
        i = i + 1;
    }
    proof {
        assert(components(p@).subrange(0, b@.len() as int) =~~= components(base@));
    }
    true
}

/// True when the `/`-normalised `path` holds the `/`-normalised
/// `relative_prefix` as whole components.
pub fn path_contains_dir_prefix(path: &str, relative_prefix: &str) -> (r: bool)
    ensures
        r == contains_components(forward_slashes(path@), forward_slashes(relative_prefix@)),
{
    let hay = slashes(path);
    let needle = slashes(relative_prefix);
    contains_component_run(&hay, &needle)
}

/// True if `path` (absolute or catalog-relative) lies under `data/custom/{type}/`.
pub fn path_is_under_custom_type(catalog_root: &str, path: &str, type_label: &str) -> (r: bool)
    ensures
        r == (contains_components(forward_slashes(path@), forward_slashes(spec_custom_data_dir(type_label@, None)))
            || path_starts_with(path@, path_join(catalog_root@, spec_custom_data_dir(type_label@, None)))),
{
    let dir = custom_data_dir(type_label, None);
    if path_contains_dir_prefix(path, dir.as_str()) {
        return true;
    }
    let rooted = join_path(catalog_root, dir.as_str());
    starts_with_path(path, rooted.as_str())
}

/// True if `path` lies under `data/{family}/`.
pub fn path_is_under_market_family(catalog_root: &str, path: &str, family: &str) -> (r: bool)
    ensures
        r == (contains_components(forward_slashes(path@), forward_slashes(spec_market_data_dir(family@)))
            || path_starts_with(path@, path_join(catalog_root@, spec_market_data_dir(family@)))),
{
    let dir = market_data_dir(family);
    if path_contains_dir_prefix(path, dir.as_str()) {
        return true;
    }
    let rooted = join_path(catalog_root, dir.as_str());
    starts_with_path(path, rooted.as_str())
}

/// Catalog-relative metadata file of the capture run record.
pub const CAPTURE_RUN_FILE: &'static str = "metadata/capture_run.json";
/// Catalog-relative metadata file of forward-price records.
pub const FORWARD_PRICES_FILE: &'static str = "metadata/forward_prices.jsonl";
/// Catalog-relative metadata file of HIP-4 universe resolutions.
pub const HIP4_UNIVERSE_RESOLUTIONS_FILE: &'static str = "metadata/hip4_universe_resolutions.jsonl";
/// Catalog-relative metadata file of option universe resolutions.
pub const OPTION_UNIVERSE_RESOLUTIONS_FILE: &'static str = "metadata/option_universe_resolutions.jsonl";

/// `{catalog_root}/metadata/capture_run.json`.
pub fn capture_run_path(catalog_root: &str) -> (r: String)
    ensures
        r@ == path_join(catalog_root@, CAPTURE_RUN_FILE@),
{
    join_path(catalog_root, CAPTURE_RUN_FILE)
}

/// `{catalog_root}/metadata/forward_prices.jsonl`.
pub fn forward_price_log_path(catalog_root: &str) -> (r: String)
    ensures
        r@ == path_join(catalog_root@, FORWARD_PRICES_FILE@),
{
    join_path(catalog_root, FORWARD_PRICES_FILE)
}

/// `{catalog_root}/metadata/hip4_universe_resolutions.jsonl`.
pub fn hip4_universe_resolution_log_path(catalog_root: &str) -> (r: String)
    ensures
        r@ == path_join(catalog_root@, HIP4_UNIVERSE_RESOLUTIONS_FILE@),
{
    join_path(catalog_root, HIP4_UNIVERSE_RESOLUTIONS_FILE)
}

/// `{catalog_root}/metadata/option_universe_resolutions.jsonl`.
pub fn option_universe_resolution_log_path(catalog_root: &str) -> (r: String)
    ensures
        r@ == path_join(catalog_root@, OPTION_UNIVERSE_RESOLUTIONS_FILE@),
{
    join_path(catalog_root, OPTION_UNIVERSE_RESOLUTIONS_FILE)
}

/// `uri` without a leading `file://`.
pub open spec fn strip_file_scheme(uri: Seq<char>) -> Seq<char> {
    if uri.len() >= 7 && uri.subrange(0, 7) == "file://"@ { uri.skip(7) } else { uri }
}

/// Local catalog root of a `file://` (or bare path) catalog URI; empty roots are refused.
pub fn catalog_root_from_uri(catalog_uri: &str) -> (r: Result<String, crate::error::CaptureError>)
    ensures
        strip_file_scheme(catalog_uri@).len() == 0 <==> r is Err,
        r matches Ok(root) ==> root@ == strip_file_scheme(catalog_uri@),
        r matches Err(e) ==> e.message@ == "catalog_uri cannot be empty"@,
{
    let cs = chars_of(catalog_uri);
    let prefix = chars_of("file://");
    proof {
        reveal_strlit("file://");
    }
    let stripped = if cs.len() >= 7 && run_at(&cs, &prefix, 0) {
        assert(cs@.subrange(0, 7) == "file://"@);
        string_from_chars(&cs, 7, cs.len())
    } else {
        assert(!(cs@.len() >= 7 && cs@.subrange(0, 7) == "file://"@));
        string_from_chars(&cs, 0, cs.len())
    };
    assert(cs@.subrange(0, cs@.len() as int) =~= cs@);
    assert(cs@.subrange(7, cs@.len() as int) =~= cs@.skip(7));
    if stripped.unicode_len() == 0 {
        return Err(crate::error::CaptureError::from_str("catalog_uri cannot be empty"));
    }
    Ok(stripped)
}

/// Custom type names known to the command-line registry.
pub const KNOWN_CUSTOM_TYPE_NAMES: [&'static str; 5] = [
    "BinanceFuturesLiquidation",
    "BinanceFuturesTicker",
    "DeribitVolatilityIndex",
    "HyperliquidOpenInterest",
    "DeribitBookSummary",
];

/// A segment without `/` is pushed whole, however it is read.
proof fn lemma_push_segments_plain(path: Seq<char>, cur: Seq<char>, rest: Seq<char>)
    requires
        forall|k: int| 0 <= k < rest.len() ==> rest[k] != '/',
    ensures
        push_segments(path, cur, rest) == push_segment(path, cur + rest),
    decreases rest.len(),
{
    if rest.len() == 0 {
        assert(cur + rest =~= cur);
    } else {
        lemma_push_segments_plain(path, cur.push(rest[0]), rest.drop_first());
        assert(cur.push(rest[0]) + rest.drop_first() =~= cur + rest);
    }
}

/// A non-empty type name that neither starts nor ends with `/` maps to
/// `data/custom/{name}`, and an identifier without `/` adds one final segment.
proof fn lemma_custom_type_dir(name: Seq<char>, id: Seq<char>)
    requires
        name.len() > 0,
        name[0] != '/',
        name.last() != '/',
        id.len() > 0,
        id != seq!['.', '.'],
        forall|k: int| 0 <= k < id.len() ==> id[k] != '/',
    ensures
        spec_custom_data_dir(name, None) == "data/custom/"@ + name,
        spec_custom_data_dir(name, Some(id)) == "data/custom/"@ + name + "/"@ + id,
{
    reveal_strlit("data/custom");
    reveal_strlit("data/custom/");
    reveal_strlit("/");
    let base = path_join("data/custom"@, name);
    assert(base =~= "data/custom/"@ + name);
    lemma_push_segments_plain(base, Seq::empty(), id);
    assert(Seq::<char>::empty() + id =~= id);
    assert(base.last() == name.last());
    assert(path_join(base, id) =~= "data/custom/"@ + name + "/"@ + id);
}

/// Path audit of the known custom types: each maps to `data/custom/{name}`,
/// and an identifier adds its own final segment. Returns the names that fail,
/// which is none.
pub fn assert_known_custom_type_dirs() -> (failures: Vec<String>)
    ensures
        failures@.len() == 0,
{
    let mut failures: Vec<String> = Vec::new();
    let mut i: usize = 0;
    while i < 5
        invariant
            i <= 5,
            failures@.len() == 0,
        decreases 5 - i,
    {
        let name = KNOWN_CUSTOM_TYPE_NAMES[i];
        proof {
            reveal_strlit("BinanceFuturesLiquidation");
            reveal_strlit("BinanceFuturesTicker");
            reveal_strlit("DeribitVolatilityIndex");
            reveal_strlit("HyperliquidOpenInterest");
            reveal_strlit("DeribitBookSummary");
            reveal_strlit("BTC:option");
            assert(name@.len() > 0 && name@[0] != '/' && name@.last() != '/');
            assert("BTC:option"@ != seq!['.', '.']);
            lemma_custom_type_dir(name@, "BTC:option"@);
        }
        let dir = custom_data_dir(name, None);
        let mut expected = String::from_str("data/custom/");
        push_str(&mut expected, name);
        let with_id = custom_data_dir(name, Some("BTC:option"));
        let mut expected_id = String::from_str("data/custom/");
        push_str(&mut expected_id, name);
        push_str(&mut expected_id, "/BTC:option");
        proof {
            reveal_strlit("/BTC:option");
            reveal_strlit("/");
            assert("/BTC:option"@ =~= "/"@ + "BTC:option"@);
            assert(expected_id@ =~= "data/custom/"@ + name@ + "/"@ + "BTC:option"@);
        }
        if !str_eq(dir.as_str(), expected.as_str()) || !str_eq(with_id.as_str(), expected_id.as_str()) {
            failures.push(String::from_str(name));
        }
        i = i + 1;
    }
    failures
}

} // verus!
