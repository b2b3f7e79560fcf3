//! Rule resolution, rewrite handlers, and the query and fragment cleaners.
use vstd::prelude::*;
use vstd::slice::slice_subrange;
use vstd::utf8::{encode_utf8, encode_utf8_decode_utf8};

use crate::matcher::{occurs_all, occurs_every, same_bytes, M};
use crate::parsed_url::{
    opt_chars, pairs_view, parsed, percent_decode, percent_decoded_text, rendered, ParsedUrl,
    QueryPair, UrlView,
};
use crate::rules::{
    default_rules, registry, rules_view, strs_view, Handler, HandlerView, Rule, RuleView,
};
use crate::text::{chars_of, string_of};

verus! {

/// Whether a rule applies to a host-path key: one of its `host_path`
/// matchers accepts the key.
pub open spec fn rule_applies(r: RuleView, key: Seq<u8>) -> bool {
    exists|j: int| 0 <= j < r.host_path.len() && #[trigger] r.host_path[j].accepts(Some(key))
}

/// The rules that apply to a key, in their order.
pub open spec fn matched(rules: Seq<RuleView>, key: Seq<u8>) -> Seq<RuleView>
    decreases rules.len(),
{
    if rules.len() == 0 {
        Seq::empty()
    } else {
        let m = matched(rules.drop_last(), key);
        if rule_applies(rules.last(), key) {
            m.push(rules.last())
        } else {
            m
        }
    }
}

/// Whether a parameter name is stripped by one of the rules.
pub open spec fn strips(rules: Seq<RuleView>, name: Seq<u8>) -> bool {
    exists|i: int, j: int|
        0 <= i < rules.len() && 0 <= j < rules[i].params.len() && #[trigger] rules[i].params[j].accepts(
            Some(name),
        )
}

/// A byte string without its trailing `/` bytes.
pub open spec fn trim_slashes(b: Seq<u8>) -> Seq<u8>
    decreases b.len(),
{
    if b.len() > 0 && b.last() == 0x2f {
        trim_slashes(b.drop_last())
    } else {
        b
    }
}

/// The host-path key of a URL: its host (empty where it has none) without
/// trailing `/`, followed by its path, as UTF-8 bytes.
pub open spec fn host_path_key(u: UrlView) -> Seq<u8> {
    let host = match u.host {
        Some(h) => h,
        None => Seq::empty(),
    };
    trim_slashes(encode_utf8(host)) + encode_utf8(u.path)
}

/// The query pairs of a URL; none where it has no query.
pub open spec fn query_pairs(u: UrlView) -> Seq<(Seq<char>, Seq<char>)> {
    match u.query {
        Some(ps) => ps,
        None => Seq::empty(),
    }
}

/// The absolute URL that a query value percent-decodes to, if any.
pub open spec fn link_at(v: Seq<char>) -> Option<UrlView> {
    match percent_decoded_text(v) {
        Some(d) => parsed(d),
        None => None,
    }
}

/// The first link among the values of the pairs named `name`, from pair `i` on.
pub open spec fn link_from(ps: Seq<(Seq<char>, Seq<char>)>, name: Seq<char>, i: int) -> Option<
    UrlView,
>
    decreases ps.len() - i,
{
    if i < 0 || i >= ps.len() {
        None
    } else if ps[i].0 == name && link_at(ps[i].1) is Some {
        link_at(ps[i].1)
    } else {
        link_from(ps, name, i + 1)
    }
}

/// The first link over the names from `names[j]` on, each name's pairs in order.
pub open spec fn link_for(ps: Seq<(Seq<char>, Seq<char>)>, names: Seq<Seq<char>>, j: int) -> Option<
    UrlView,
>
    decreases names.len() - j,
{
    if j < 0 || j >= names.len() {
        None
    } else {
        match link_from(ps, names[j], 0) {
            Some(v) => Some(v),
            None => link_for(ps, names, j + 1),
        }
    }
}

/// Whether a handler's path condition holds of a URL.
pub open spec fn path_allows(h: HandlerView, u: UrlView) -> bool {
    match h.path_match {
        Some(pm) => occurs_every(pm, encode_utf8(u.path)),
        None => true,
    }
}

/// What a handler makes of a URL: the link it finds, or the URL unchanged.
pub open spec fn extracted(h: HandlerView, u: UrlView) -> UrlView {
    if !path_allows(h, u) {
        u
    } else {
        match link_for(query_pairs(u), h.params, 0) {
            Some(v) => v,
            None => u,
        }
    }
}

/// The URL after the handlers of the rules, in order, each on the output of
/// the one before.
pub open spec fn rewritten(rules: Seq<RuleView>, u: UrlView) -> UrlView
    decreases rules.len(),
{
    if rules.len() == 0 {
        u
    } else {
        let v = rewritten(rules.drop_last(), u);
        match rules.last().handler {
            Some(h) => extracted(h, v),
            None => v,
        }
    }
}

/// How many of the rules have a handler.
pub open spec fn handler_count(rules: Seq<RuleView>) -> nat
    decreases rules.len(),
{
    if rules.len() == 0 {
        0
    } else {
        handler_count(rules.drop_last()) + if rules.last().handler is Some {
            1nat
        } else {
            0nat
        }
    }
}

/// The pairs whose names no rule strips, in order.
pub open spec fn kept_pairs(ps: Seq<(Seq<char>, Seq<char>)>, rules: Seq<RuleView>) -> Seq<
    (Seq<char>, Seq<char>),
>
    decreases ps.len(),
{
    if ps.len() == 0 {
        Seq::empty()
    } else {
        let k = kept_pairs(ps.drop_last(), rules);
        if strips(rules, encode_utf8(ps.last().0)) {
            k
        } else {
            k.push(ps.last())
        }
    }
}

/// A URL with its query cleaned: the stripped pairs leave, and a query with
/// no pair left goes entirely.
pub open spec fn query_cleaned(u: UrlView, rules: Seq<RuleView>) -> UrlView {
    match u.query {
        None => u,
        Some(ps) => {
            let k = kept_pairs(ps, rules);
            UrlView { query: if k.len() == 0 { None } else { Some(k) }, ..u }
        },
    }
}

/// The `&`-separated items of a text; there is always at least one.
pub open spec fn split_items(s: Seq<char>) -> Seq<Seq<char>>
    decreases s.len(),
{
    if s.len() == 0 {
        seq![Seq::empty()]
    } else {
        let p = split_items(s.drop_last());
        if s.last() == '&' {
            p.push(Seq::empty())
        } else {
            p.update(p.len() - 1, p.last().push(s.last()))
        }
    }
}

/// Where the first `=` of a text stands, or its length.
pub open spec fn eq_pos(s: Seq<char>) -> int
    decreases s.len(),
{
    if s.len() == 0 || s[0] == '=' {
        0
    } else {
        1 + eq_pos(s.drop_first())
    }
}

/// The key of a fragment item: what comes before its first `=`.
pub open spec fn item_key(s: Seq<char>) -> Seq<char> {
    s.take(eq_pos(s))
}

/// The items whose keys no rule strips, in order.
pub open spec fn kept_items(items: Seq<Seq<char>>, rules: Seq<RuleView>) -> Seq<Seq<char>>
    decreases items.len(),
{
    if items.len() == 0 {
        Seq::empty()
    } else {
        let k = kept_items(items.drop_last(), rules);
        if strips(rules, encode_utf8(item_key(items.last()))) {
            k
        } else {
            k.push(items.last())
        }
    }
}

/// Items joined by `&`.
pub open spec fn joined(items: Seq<Seq<char>>) -> Seq<char>
    decreases items.len(),
{
    if items.len() == 0 {
        Seq::empty()
    } else if items.len() == 1 {
        items[0]
    } else {
        joined(items.drop_last()) + seq!['&'] + items.last()
    }
}

/// A fragment with its stripped items gone; `None` where nothing is left.
pub open spec fn fragment_text_cleaned(f: Seq<char>, rules: Seq<RuleView>) -> Option<Seq<char>> {
    let j = joined(kept_items(split_items(f), rules));
    if j.len() == 0 {
        None
    } else {
        Some(j)
    }
}

/// A URL with its fragment cleaned.
pub open spec fn fragment_cleaned(u: UrlView, rules: Seq<RuleView>) -> UrlView {
    match u.fragment {
        None => u,
        Some(f) => UrlView { fragment: fragment_text_cleaned(f, rules), ..u },
    }
}

/// The rules that apply to a URL, out of `registry`.
pub open spec fn rules_for(registry: Seq<RuleView>, u: UrlView) -> Seq<RuleView> {
    matched(registry, host_path_key(u))
}

/// The cleaned URL: the handlers of the rules that apply to `u` run in order,
/// then the query and the fragment are cleaned by those same rules.
pub open spec fn cleaned(registry: Seq<RuleView>, u: UrlView) -> UrlView {
    let m = rules_for(registry, u);
    fragment_cleaned(query_cleaned(rewritten(m, u), m), m)
}

/// The views of a sequence of rule references.
pub open spec fn refs_view(v: Seq<&Rule>) -> Seq<RuleView> {
    v.map_values(|r: &Rule| r@)
}

/// The host-path key of a URL.
fn host_path_bytes(url: &ParsedUrl) -> (r: Vec<u8>)
    ensures
        r@ == host_path_key(url@),
{
    let host: &str = match &url.host {
        Some(h) => h.as_str(),
        None => "",
    };
    proof {
        reveal_strlit("");
    }
    let hb = host.as_bytes();
    let mut n: usize = hb.len();
    assert(hb@.take(n as int) =~= hb@);
    while n > 0 && hb[n - 1] == 0x2f
        invariant
            n <= hb@.len(),
            trim_slashes(hb@.take(n as int)) == trim_slashes(hb@),
        decreases n,
    {
        assert(hb@.take(n as int).drop_last() =~= hb@.take(n - 1));
        n -= 1;
    }
    let mut key: Vec<u8> = Vec::new();
    let mut i: usize = 0;
    while i < n
        invariant
            i <= n <= hb@.len(),
            key@ == hb@.take(i as int),
        decreases n - i,
    {
        key.push(hb[i]);
        assert(hb@.take(i + 1) =~= hb@.take(i as int).push(hb@[i as int]));
        i += 1;
    }
    let ghost trimmed = key@;
    let pb = url.path.as_str().as_bytes();
    let mut j: usize = 0;
    while j < pb.len()
        invariant
            j <= pb@.len(),
            key@ == trimmed + pb@.take(j as int),
        decreases pb@.len() - j,
    {
        key.push(pb[j]);
        assert(pb@.take(j + 1) =~= pb@.take(j as int).push(pb@[j as int]));
        j += 1;
    }
    assert(pb@.take(pb@.len() as int) =~= pb@);
    key
}

/// Whether one of the matchers accepts the key.
fn any_accepts(ms: &Vec<M>, key: &[u8]) -> (r: bool)
    ensures
        r == exists|j: int| 0 <= j < ms@.len() && #[trigger] ms@[j]@.accepts(Some(key@)),
{
    let mut j: usize = 0;
    while j < ms.len()
        invariant
            j <= ms@.len(),
            forall|k: int| 0 <= k < j ==> !#[trigger] ms@[k]@.accepts(Some(key@)),
        decreases ms@.len() - j,
    {
        if ms[j].matches(Some(key)) {
            return true;
        }
        j += 1;
    }
    false
}

/// The rules that apply to the key, in order.
fn matching_rules<'a>(rules: &'a Vec<Rule>, key: &[u8]) -> (r: Vec<&'a Rule>)
    ensures
        refs_view(r@) == matched(rules@.map_values(|x: Rule| x@), key@),
{
    let ghost all = rules@.map_values(|x: Rule| x@);
    let mut out: Vec<&'a Rule> = Vec::new();
    let mut i: usize = 0;
    while i < rules.len()
        invariant
            i <= rules@.len(),
            all == rules@.map_values(|x: Rule| x@),
            refs_view(out@) == matched(all.take(i as int), key@),
        decreases rules@.len() - i,
    {
        let r = &rules[i];
        let applies = any_accepts(&r.host_path, key);
        proof {
            let t = all.take(i + 1);
            assert(t.drop_last() =~= all.take(i as int));
            assert(t.last() == r@);
            let hp = r@.host_path;
            assert forall|j: int| 0 <= j < hp.len() implies hp[j] == r.host_path@[j]@ by {}
            if applies {
                let j = choose|j: int|
                    0 <= j < r.host_path@.len() && #[trigger] r.host_path@[j]@.accepts(Some(key@));
                assert(hp[j].accepts(Some(key@)));
            } else {
                assert forall|j: int| 0 <= j < hp.len() implies !#[trigger] hp[j].accepts(
                    Some(key@),
                ) by {
                    assert(!r.host_path@[j]@.accepts(Some(key@)));
                }
            }
        }
        if applies {
            out.push(r);
            assert(refs_view(out@) =~= matched(all.take(i as int), key@).push(r@));
        }
        i += 1;
    }
    assert(all.take(rules@.len() as int) =~= all);
    out
}

/// Whether one of the rules strips the name.
fn strips_name(rules: &Vec<&Rule>, name: &str) -> (r: bool)
    ensures
        r == strips(refs_view(rules@), encode_utf8(name@)),
{
    let ghost rs = refs_view(rules@);
    let ghost nb = encode_utf8(name@);
    let mut i: usize = 0;
    while i < rules.len()
        invariant
            i <= rules@.len(),
            rs == refs_view(rules@),
            nb == encode_utf8(name@),
            forall|a: int, b: int|
                0 <= a < i && 0 <= b < rs[a].params.len() ==> !#[trigger] rs[a].params[b].accepts(
                    Some(nb),
                ),
        decreases rules@.len() - i,
    {
        let ps = &rules[i].params;
        let mut j: usize = 0;
        while j < ps.len()
            invariant
                i < rules@.len(),
                j <= ps@.len(),
                ps == &rules@[i as int].params,
                rs == refs_view(rules@),
                nb == encode_utf8(name@),
                forall|b: int| 0 <= b < j ==> !#[trigger] rs[i as int].params[b].accepts(Some(nb)),
            decreases ps@.len() - j,
        {
            assert(rs[i as int].params[j as int] == ps@[j as int]@);
            if ps[j].matches_str(Some(name)) {
                return true;
            }
            j += 1;
        }
        i += 1;
    }
    false
}

/// The view of an optional URL.
pub open spec fn opt_url(r: Option<ParsedUrl>) -> Option<UrlView> {
    match r {
        Some(u) => Some(u@),
        None => None,
    }
}

/// The view of a handler's names and path condition.
pub open spec fn handler_of(names: Seq<&'static str>, path_match: Option<Vec<&'static str>>) -> HandlerView {
    HandlerView {
        params: strs_view(names),
        path_match: match path_match {
            Some(p) => Some(strs_view(p@)),
            None => None,
        },
    }
}

/// The first link over `names`, each name's pairs in query order.
fn find_link(url: &ParsedUrl, names: &Vec<&'static str>) -> (r: Option<ParsedUrl>)
    ensures
        opt_url(r) == link_for(query_pairs(url@), strs_view(names@), 0),
{
    let empty: Vec<QueryPair> = Vec::new();
    let ps: &Vec<QueryPair> = match &url.query {
        Some(ps) => ps,
        None => &empty,
    };
    let ghost pv = query_pairs(url@);
    let ghost nv = strs_view(names@);
    assert(pairs_view(ps@) =~= pv);
    let mut j: usize = 0;
    while j < names.len()
        invariant
            j <= names@.len(),
            pv == pairs_view(ps@),
            pv == query_pairs(url@),
            nv == strs_view(names@),
            link_for(pv, nv, 0) == link_for(pv, nv, j as int),
        decreases names@.len() - j,
    {
        let name = names[j];
        let mut i: usize = 0;
        while i < ps.len()
            invariant
                j < names@.len(),
                i <= ps@.len(),
                name == names@[j as int],
                pv == pairs_view(ps@),
                pv == query_pairs(url@),
                nv == strs_view(names@),
                link_for(pv, nv, 0) == link_for(pv, nv, j as int),
                link_from(pv, nv[j as int], 0) == link_from(pv, nv[j as int], i as int),
            decreases ps@.len() - i,
        {
            let p = &ps[i];
            let same = same_bytes(p.key.as_str().as_bytes(), name.as_bytes());
            proof {
                encode_utf8_decode_utf8(p.key@);
                encode_utf8_decode_utf8(name@);
                assert(pv[i as int] == p@);
                assert(same == (pv[i as int].0 == nv[j as int]));
            }
            if same {
                match percent_decode(p.value.as_str()) {
                    Some(d) => match ParsedUrl::parse(d.as_str()) {
                        Ok(u) => {
                            assert(link_at(pv[i as int].1) == Some(u@));
                            assert(link_from(pv, nv[j as int], i as int) == Some(u@));
                            assert(link_for(pv, nv, j as int) == Some(u@));
                            return Some(u);
                        },
                        Err(_) => {},
                    },
                    None => {},
                }
            }
            i += 1;
        }
        j += 1;
    }
    None
}

/// Replaces a URL by the first absolute URL embedded in one of its query
/// values: the names in `queries` are tried in order, and the pairs of each
/// name in query order; a value counts where it percent-decodes and parses.
/// With `path_match`, the URL's path must contain each of its texts. Where
/// nothing is found the URL comes back unchanged.
pub fn extract_link_from_query_string(
    url: ParsedUrl,
    queries: &Vec<&'static str>,
    path_match: &Option<Vec<&'static str>>,
) -> (r: ParsedUrl)
    ensures
        r@ == extracted(handler_of(queries@, *path_match), url@),
{
    if let Some(pm) = path_match {
        if !occurs_all(pm, url.path.as_str().as_bytes()) {
            return url;
        }
    }
    match find_link(&url, queries) {
        Some(found) => found,
        None => url,
    }
}

/// Runs a handler on a URL.
fn run_handler(h: &Handler, url: ParsedUrl) -> (r: ParsedUrl)
    ensures
        r@ == extracted(h@, url@),
{
    match h {
        Handler::ExtractLink { params, path_match } => extract_link_from_query_string(
            url,
            params,
            path_match,
        ),
    }
}

/// Removes from the query the pairs whose names a rule strips; a query with
/// no pair left goes entirely, leaving no `?`.
fn clean_query_string(url: ParsedUrl, rules: &Vec<&Rule>) -> (r: ParsedUrl)
    ensures
        r@ == query_cleaned(url@, refs_view(rules@)),
{
    let ghost rs = refs_view(rules@);
    let mut url = url;
    let query = url.query.take();
    match query {
        None => url,
        Some(ps) => {
            let ghost pv = pairs_view(ps@);
            let mut kept: Vec<QueryPair> = Vec::new();
            let mut i: usize = 0;
            while i < ps.len()
                invariant
                    i <= ps@.len(),
                    pv == pairs_view(ps@),
                    rs == refs_view(rules@),
                    pairs_view(kept@) == kept_pairs(pv.take(i as int), rs),
                decreases ps@.len() - i,
            {
                let p = &ps[i];
                let strip = strips_name(rules, p.key.as_str());
                proof {
                    let t = pv.take(i + 1);
                    assert(t.drop_last() =~= pv.take(i as int));
                    assert(t.last() == p@);
                }
                if !strip {
                    kept.push(p.duplicate());
                    assert(pairs_view(kept@) =~= kept_pairs(pv.take(i as int), rs).push(p@));
                }
                i += 1;
            }
            assert(pv.take(ps@.len() as int) =~= pv);
            if kept.len() == 0 {
                url.query = None;
            } else {
                url.query = Some(kept);
            }
            url
        },
    }
}


/// The key of a fragment item.
fn item_key_of(item: &Vec<char>) -> (r: String)
    ensures
        r@ == item_key(item@),
{
    let mut k: usize = 0;
    while k < item.len() && item[k] != '='
        invariant
            k <= item@.len(),
            forall|j: int| 0 <= j < k ==> item@[j] != '=',
        decreases item@.len() - k,
    {
        k += 1;
    }
    proof {
        lemma_eq_pos(item@, k as int);
    }
    let key = string_of(slice_subrange(item.as_slice(), 0, k));
    key
}

/// Where the first `=` stands, from what a scan found.
proof fn lemma_eq_pos(s: Seq<char>, i: int)
    requires
        0 <= i <= s.len(),
        forall|j: int| 0 <= j < i ==> s[j] != '=',
        i == s.len() || s[i] == '=',
    ensures
        eq_pos(s) == i,
    decreases i,
{
    if i > 0 {
        lemma_eq_pos(s.drop_first(), i - 1);
    }
}

/// Adds an item to the kept ones, joined by `&`, where no rule strips its key.
fn keep_item(item: &Vec<char>, rules: &Vec<&Rule>, out: &mut Vec<char>, any: &mut bool, done: Ghost<Seq<Seq<char>>>)
    requires
        old(out)@ == joined(kept_items(done@, refs_view(rules@))),
        *old(any) == (kept_items(done@, refs_view(rules@)).len() > 0),
    ensures
        final(out)@ == joined(kept_items(done@.push(item@), refs_view(rules@))),
        *final(any) == (kept_items(done@.push(item@), refs_view(rules@)).len() > 0),
{
    let ghost rs = refs_view(rules@);
    let ghost k = kept_items(done@, rs);
    let key = item_key_of(item);
    let strip = strips_name(rules, key.as_str());
    assert(done@.push(item@).drop_last() =~= done@);
    if !strip {
        if *any {
            out.push('&');
        }
        let mut i: usize = 0;
        let ghost start = out@;
        while i < item.len()
            invariant
                i <= item@.len(),
                out@ == start + item@.take(i as int),
            decreases item@.len() - i,
        {
            out.push(item[i]);
            assert(item@.take(i + 1) =~= item@.take(i as int).push(item@[i as int]));
            i += 1;
        }
        assert(item@.take(item@.len() as int) =~= item@);
        proof {
            let k2 = k.push(item@);
            assert(k2.drop_last() =~= k);
            if k.len() == 0 {
                assert(out@ =~= joined(k2));
            } else {
                assert(out@ =~= joined(k2));
            }
        }
        *any = true;
    }
}

/// Removes from a fragment the `&`-separated items whose keys a rule strips;
/// kept items pass through unchanged. `None` where nothing is left.
fn clean_fragment_text(f: &str, rules: &Vec<&Rule>) -> (r: Option<String>)
    ensures
        opt_chars(r) == fragment_text_cleaned(f@, refs_view(rules@)),
{
    let cs = chars_of(f);
    let ghost rs = refs_view(rules@);
    let mut out: Vec<char> = Vec::new();
    let mut any = false;
    let mut cur: Vec<char> = Vec::new();
    let ghost mut done: Seq<Seq<char>> = Seq::empty();
    let mut i: usize = 0;
    assert(cs@.take(0) =~= Seq::<char>::empty());
    assert(done.push(cur@) =~= seq![Seq::<char>::empty()]);
    while i < cs.len()
        invariant
            i <= cs@.len(),
            rs == refs_view(rules@),
            split_items(cs@.take(i as int)) == done.push(cur@),
            out@ == joined(kept_items(done, rs)),
            any == (kept_items(done, rs).len() > 0),
        decreases cs@.len() - i,
    {
        let c = cs[i];
        proof {
            let t = cs@.take(i + 1);
            assert(t.drop_last() =~= cs@.take(i as int));
            assert(t.last() == c);
        }
        if c == '&' {
            keep_item(&cur, rules, &mut out, &mut any, Ghost(done));
            proof {
                done = done.push(cur@);
            }
            cur = Vec::new();
            assert(split_items(cs@.take(i + 1)) =~= done.push(cur@));
        } else {
            cur.push(c);
            assert(split_items(cs@.take(i + 1)) =~= done.push(cur@));
        }
        i += 1;
    }
    keep_item(&cur, rules, &mut out, &mut any, Ghost(done));
    assert(cs@.take(cs@.len() as int) =~= cs@);
    if out.len() == 0 {
        None
    } else {
        Some(string_of(out.as_slice()))
    }
}

/// Removes from the fragment the items whose keys a rule strips; a fragment
/// with nothing left goes entirely, leaving no `#`.
fn clean_hash_params(url: ParsedUrl, rules: &Vec<&Rule>) -> (r: ParsedUrl)
    ensures
        r@ == fragment_cleaned(url@, refs_view(rules@)),
{
    let mut url = url;
    let fragment = url.fragment.take();
    match fragment {
        None => url,
        Some(f) => {
            url.fragment = clean_fragment_text(f.as_str(), rules);
            url
        },
    }
}

/// How many rules apply to a key at most.
proof fn lemma_matched_len(rules: Seq<RuleView>, key: Seq<u8>)
    ensures
        matched(rules, key).len() <= rules.len(),
    decreases rules.len(),
{
    if rules.len() > 0 {
        lemma_matched_len(rules.drop_last(), key);
    }
}

/// The text of a cleaned URL: its rendering without one trailing `=`, which
/// form serialization leaves after a name that had no value.
pub open spec fn display_text(u: UrlView) -> Seq<char> {
    let t = rendered(u);
    if t.len() > 0 && t.last() == '=' {
        t.drop_last()
    } else {
        t
    }
}

/// A cleaned URL, with the number of rewrite handlers that ran on it.
#[derive(Debug)]
pub struct Cleaned {
    result: ParsedUrl,
    handlers_used: i32,
}

impl View for Cleaned {
    type V = (UrlView, int);

    closed spec fn view(&self) -> (UrlView, int) {
        (self.result@, self.handlers_used as int)
    }
}

impl std::ops::Deref for Cleaned {
    type Target = ParsedUrl;

    fn deref(&self) -> (r: &ParsedUrl)
        ensures
            r@ == self@.0,
    {
        &self.result
    }
}

impl Cleaned {
    /// The cleaned URL.
    pub fn url(&self) -> (r: &ParsedUrl)
        ensures
            r@ == self@.0,
    {
        &self.result
    }

    /// How many rewrite handlers ran.
    pub fn number_of_handlers_used(&self) -> (r: i32)
        ensures
            r == self@.1,
    {
        self.handlers_used
    }

    /// The text of the cleaned URL, without one trailing `=`.
    pub fn to_string(&self) -> (r: String)
        ensures
            r@ == display_text(self@.0),
    {
        let text = self.result.as_string();
        let mut cs = chars_of(text.as_str());
        if cs.len() > 0 && cs[cs.len() - 1] == '=' {
            cs.pop();
            assert(cs@ =~= rendered(self@.0).drop_last());
        }
        string_of(cs.as_slice())
    }
}

/// Cleans a URL by the given rules: the handlers of the rules that apply to
/// its host-path key run in order, then the query and the fragment lose the
/// parameters that those same rules strip.
pub fn clean_with_rules(rules: &Vec<Rule>, url: ParsedUrl) -> (r: Cleaned)
    requires
        rules@.len() <= i32::MAX,
    ensures
        r@.0 == cleaned(rules_view(rules@), url@),
        r@.1 == handler_count(rules_for(rules_view(rules@), url@)),
{
    let ghost u0 = url@;
    let key = host_path_bytes(&url);
    let matching = matching_rules(rules, key.as_slice());
    let ghost m = refs_view(matching@);
    proof {
        assert(rules@.map_values(|x: Rule| x@) =~= rules_view(rules@));
        lemma_matched_len(rules_view(rules@), key@);
    }
    let mut url = url;
    let mut count: i32 = 0;
    let mut k: usize = 0;
    assert(m.take(0) =~= Seq::<RuleView>::empty());
    while k < matching.len()
        invariant
            k <= matching@.len() <= i32::MAX,
            m == refs_view(matching@),
            url@ == rewritten(m.take(k as int), u0),
            count == handler_count(m.take(k as int)),
            count <= k,
        decreases matching@.len() - k,
    {
        proof {
            let t = m.take(k + 1);
            assert(t.drop_last() =~= m.take(k as int));
            assert(t.last() == matching@[k as int]@);
        }
        match &matching[k].handler {
            Some(h) => {
                url = run_handler(h, url);
                count += 1;
            },
            None => {},
        }
        k += 1;
    }
    assert(m.take(matching@.len() as int) =~= m);
    let url = clean_query_string(url, &matching);
    let url = clean_hash_params(url, &matching);
    Cleaned { result: url, handlers_used: count }
}

/// Removes tracking parameters from a URL, by the built-in rules.
pub fn clean(url: ParsedUrl) -> (r: Cleaned)
    ensures
        r@.0 == cleaned(registry(), url@),
        r@.1 == handler_count(rules_for(registry(), url@)),
{
    let rules = default_rules();
    clean_with_rules(&rules, url)
}

/// Parses a text as a URL and cleans it; the error is the parser's.
pub fn clean_str_raw(url: &str) -> (r: Result<Cleaned, url::ParseError>)
    ensures
        r is Ok <==> parsed(url@) is Some,
        r matches Ok(c) ==> c@.0 == cleaned(registry(), parsed(url@)->0) && c@.1 == handler_count(
            rules_for(registry(), parsed(url@)->0),
        ),
{
    match ParsedUrl::parse(url) {
        Ok(u) => Ok(clean(u)),
        Err(e) => Err(e),
    }
}

/// Parses a text as a URL, cleans it and renders it; the error is the
/// parser's.
pub fn clean_str(url: &str) -> (r: Result<String, url::ParseError>)
    ensures
        r is Ok <==> parsed(url@) is Some,
        r matches Ok(t) ==> t@ == display_text(cleaned(registry(), parsed(url@)->0)),
{
    match clean_str_raw(url) {
        Ok(c) => Ok(c.to_string()),
        Err(e) => Err(e),
    }
}

} // verus!
