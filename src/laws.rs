//! What holds of every cleaning, proved over the specification of `clean`.
use vstd::prelude::*;
use vstd::utf8::encode_utf8;

use crate::clean::{
    cleaned, fragment_cleaned, host_path_key, item_key, joined, kept_items, kept_pairs, link_at,
    link_for, link_from, path_allows, query_cleaned, query_pairs, rewritten, rules_for,
    split_items, strips,
};
use crate::parsed_url::{rendered, UrlView};
use crate::rules::{registry, HandlerView, RuleView};

verus! {

/// The link that a handler finds in a URL, if any.
pub open spec fn handler_link(h: HandlerView, u: UrlView) -> Option<UrlView> {
    if path_allows(h, u) {
        link_for(query_pairs(u), h.params, 0)
    } else {
        None
    }
}

/// Whether no handler of the rules finds a link in the URL, so that none
/// rewrites it.
pub open spec fn finds_no_link(rules: Seq<RuleView>, u: UrlView) -> bool {
    forall|i: int|
        0 <= i < rules.len() && rules[i].handler is Some ==> #[trigger] handler_link(
            rules[i].handler->0,
            u,
        ) is None
}

/// Every value of a pair list that no link comes from.
proof fn lemma_link_from_none(ps: Seq<(Seq<char>, Seq<char>)>, name: Seq<char>, i: int)
    requires
        0 <= i,
    ensures
        link_from(ps, name, i) is None <==> forall|k: int|
            i <= k < ps.len() ==> !(#[trigger] ps[k].0 == name && link_at(ps[k].1) is Some),
    decreases ps.len() - i,
{
    if i < ps.len() {
        lemma_link_from_none(ps, name, i + 1);
    }
}

/// A pair list whose pairs all stand in `ps` yields no link where `ps` yields none.
proof fn lemma_link_for_sub(
    ps: Seq<(Seq<char>, Seq<char>)>,
    sub: Seq<(Seq<char>, Seq<char>)>,
    names: Seq<Seq<char>>,
    j: int,
)
    requires
        0 <= j,
        forall|k: int| 0 <= k < sub.len() ==> ps.contains(#[trigger] sub[k]),
        link_for(ps, names, j) is None,
    ensures
        link_for(sub, names, j) is None,
    decreases names.len() - j,
{
    if j < names.len() {
        lemma_link_from_none(ps, names[j], 0);
        lemma_link_from_none(sub, names[j], 0);
        assert forall|k: int| 0 <= k < sub.len() implies !(#[trigger] sub[k].0 == names[j] && link_at(
            sub[k].1,
        ) is Some) by {
            let w = choose|w: int| 0 <= w < ps.len() && ps[w] == sub[k];
            assert(!(ps[w].0 == names[j] && link_at(ps[w].1) is Some));
        }
        lemma_link_for_sub(ps, sub, names, j + 1);
    }
}

/// The kept pairs are pairs of the list that no rule strips.
proof fn lemma_kept_pairs(ps: Seq<(Seq<char>, Seq<char>)>, rules: Seq<RuleView>)
    ensures
        forall|k: int|
            0 <= k < kept_pairs(ps, rules).len() ==> ps.contains(#[trigger] kept_pairs(ps, rules)[k])
                && !strips(rules, encode_utf8(kept_pairs(ps, rules)[k].0)),
    decreases ps.len(),
{
    if ps.len() > 0 {
        lemma_kept_pairs(ps.drop_last(), rules);
        let k0 = kept_pairs(ps.drop_last(), rules);
        assert forall|k: int| 0 <= k < k0.len() implies ps.contains(#[trigger] k0[k]) by {
            let w = choose|w: int| 0 <= w < ps.drop_last().len() && ps.drop_last()[w] == k0[k];
            assert(ps[w] == k0[k]);
        }
        assert(ps[ps.len() - 1] == ps.last());
    }
}

/// Pairs that no rule strips are all kept.
proof fn lemma_kept_pairs_all(ps: Seq<(Seq<char>, Seq<char>)>, rules: Seq<RuleView>)
    requires
        forall|k: int| 0 <= k < ps.len() ==> !strips(rules, encode_utf8(#[trigger] ps[k].0)),
    ensures
        kept_pairs(ps, rules) == ps,
    decreases ps.len(),
{
    if ps.len() > 0 {
        lemma_kept_pairs_all(ps.drop_last(), rules);
        assert(!strips(rules, encode_utf8(ps[ps.len() - 1].0)));
        assert(ps.drop_last().push(ps.last()) =~= ps);
    }
}

/// The kept items are items of the list that no rule strips.
proof fn lemma_kept_items(items: Seq<Seq<char>>, rules: Seq<RuleView>)
    ensures
        forall|k: int|
            0 <= k < kept_items(items, rules).len() ==> items.contains(
                #[trigger] kept_items(items, rules)[k],
            ) && !strips(rules, encode_utf8(item_key(kept_items(items, rules)[k]))),
    decreases items.len(),
{
    if items.len() > 0 {
        lemma_kept_items(items.drop_last(), rules);
        let k0 = kept_items(items.drop_last(), rules);
        assert forall|k: int| 0 <= k < k0.len() implies items.contains(#[trigger] k0[k]) by {
            let w = choose|w: int|
                0 <= w < items.drop_last().len() && items.drop_last()[w] == k0[k];
            assert(items[w] == k0[k]);
        }
        assert(items[items.len() - 1] == items.last());
    }
}

/// Items that no rule strips are all kept.
proof fn lemma_kept_items_all(items: Seq<Seq<char>>, rules: Seq<RuleView>)
    requires
        forall|k: int|
            0 <= k < items.len() ==> !strips(rules, encode_utf8(item_key(#[trigger] items[k]))),
    ensures
        kept_items(items, rules) == items,
    decreases items.len(),
{
    if items.len() > 0 {
        lemma_kept_items_all(items.drop_last(), rules);
        assert(!strips(rules, encode_utf8(item_key(items[items.len() - 1]))));
        assert(items.drop_last().push(items.last()) =~= items);
    }
}

/// Whether a text holds no `&`.
pub open spec fn no_amp(s: Seq<char>) -> bool {
    forall|k: int| 0 <= k < s.len() ==> #[trigger] s[k] != '&'
}

/// No item of a split holds an `&`.
proof fn lemma_split_items_no_amp(s: Seq<char>)
    ensures
        split_items(s).len() >= 1,
        forall|i: int| 0 <= i < split_items(s).len() ==> no_amp(#[trigger] split_items(s)[i]),
    decreases s.len(),
{
    if s.len() > 0 {
        lemma_split_items_no_amp(s.drop_last());
        let p = split_items(s.drop_last());
        if s.last() != '&' {
            let q = p.last().push(s.last());
            assert(no_amp(p[p.len() - 1]));
            assert forall|k: int| 0 <= k < q.len() implies #[trigger] q[k] != '&' by {
                if k < q.len() - 1 {
                    assert(q[k] == p[p.len() - 1][k]);
                }
            }
            let r = p.update(p.len() - 1, q);
            assert forall|i: int| 0 <= i < r.len() implies no_amp(#[trigger] r[i]) by {
                if i < r.len() - 1 {
                    assert(r[i] == p[i]);
                }
            }
        } else {
            let r = p.push(Seq::<char>::empty());
            assert forall|i: int| 0 <= i < r.len() implies no_amp(#[trigger] r[i]) by {
                if i < r.len() - 1 {
                    assert(r[i] == p[i]);
                }
            }
        }
    }
}

/// Splitting `a`, an `&` and `b` without `&` gives the items of `a` and `b`.
proof fn lemma_split_after_amp(a: Seq<char>, b: Seq<char>)
    requires
        no_amp(b),
    ensures
        split_items(a + seq!['&'] + b) == split_items(a).push(b),
    decreases b.len(),
{
    let s = a + seq!['&'] + b;
    if b.len() == 0 {
        assert(s.drop_last() =~= a);
        assert(b =~= Seq::<char>::empty());
    } else {
        let b0 = b.drop_last();
        assert(no_amp(b0)) by {
            assert forall|k: int| 0 <= k < b0.len() implies #[trigger] b0[k] != '&' by {
                assert(b0[k] == b[k]);
            }
        }
        lemma_split_after_amp(a, b0);
        assert(s.drop_last() =~= a + seq!['&'] + b0);
        assert(s.last() == b[b.len() - 1]);
        assert(split_items(s) =~= split_items(a).push(b0).update(
            split_items(a).push(b0).len() - 1,
            b0.push(b.last()),
        ));
        assert(b0.push(b.last()) =~= b);
        assert(split_items(s) =~= split_items(a).push(b));
    }
}

/// A text without `&` is a single item.
proof fn lemma_split_single(b: Seq<char>)
    requires
        no_amp(b),
    ensures
        split_items(b) == seq![b],
    decreases b.len(),
{
    if b.len() > 0 {
        let b0 = b.drop_last();
        assert(no_amp(b0)) by {
            assert forall|k: int| 0 <= k < b0.len() implies #[trigger] b0[k] != '&' by {
                assert(b0[k] == b[k]);
            }
        }
        lemma_split_single(b0);
        assert(b[b.len() - 1] != '&');
        assert(b0.push(b.last()) =~= b);
        assert(split_items(b) =~= seq![b]);
    } else {
        assert(b =~= Seq::<char>::empty());
    }
}

/// Joining items without `&` and splitting again gives the items back.
proof fn lemma_split_joined(items: Seq<Seq<char>>)
    requires
        items.len() >= 1,
        forall|i: int| 0 <= i < items.len() ==> no_amp(#[trigger] items[i]),
    ensures
        split_items(joined(items)) == items,
    decreases items.len(),
{
    if items.len() == 1 {
        lemma_split_single(items[0]);
        assert(items =~= seq![items[0]]);
    } else {
        let front = items.drop_last();
        assert forall|i: int| 0 <= i < front.len() implies no_amp(#[trigger] front[i]) by {
            assert(front[i] == items[i]);
        }
        lemma_split_joined(front);
        assert(no_amp(items[items.len() - 1]));
        lemma_split_after_amp(joined(front), items.last());
        assert(front.push(items.last()) =~= items);
    }
}

/// The handlers change nothing where none finds a link.
proof fn lemma_rewritten_unchanged(rules: Seq<RuleView>, u: UrlView)
    requires
        finds_no_link(rules, u),
    ensures
        rewritten(rules, u) == u,
    decreases rules.len(),
{
    if rules.len() > 0 {
        let front = rules.drop_last();
        assert forall|i: int| 0 <= i < front.len() && front[i].handler is Some implies #[trigger] handler_link(
            front[i].handler->0,
            u,
        ) is None by {
            assert(front[i] == rules[i]);
        }
        lemma_rewritten_unchanged(front, u);
        assert(rules[rules.len() - 1] == rules.last());
        if rules.last().handler is Some {
            assert(handler_link(rules[rules.len() - 1].handler->0, u) is None);
        }
    }
}

/// Without a query no handler finds a link.
proof fn lemma_link_for_empty(names: Seq<Seq<char>>, j: int)
    requires
        0 <= j,
    ensures
        link_for(Seq::empty(), names, j) is None,
    decreases names.len() - j,
{
    if j < names.len() {
        lemma_link_for_empty(names, j + 1);
    }
}

/// A URL without query and fragment comes out of cleaning as it went in:
/// no handler finds a link in a URL without a query, and there is nothing to
/// strip.
pub proof fn law_no_query_no_fragment(u: UrlView)
    requires
        u.query is None,
        u.fragment is None,
    ensures
        cleaned(registry(), u) == u,
{
    let m = rules_for(registry(), u);
    assert forall|i: int| 0 <= i < m.len() && m[i].handler is Some implies #[trigger] handler_link(
        m[i].handler->0,
        u,
    ) is None by {
        lemma_link_for_empty(m[i].handler->0.params, 0);
    }
    lemma_rewritten_unchanged(m, u);
}

/// Cleaning is idempotent where no handler rewrites the URL: a second
/// cleaning of a cleaned URL changes nothing.
pub proof fn law_idempotent(u: UrlView)
    requires
        finds_no_link(rules_for(registry(), u), u),
    ensures
        cleaned(registry(), cleaned(registry(), u)) == cleaned(registry(), u),
{
    let m = rules_for(registry(), u);
    lemma_rewritten_unchanged(m, u);
    let q = query_cleaned(u, m);
    let c = fragment_cleaned(q, m);
    assert(host_path_key(c) == host_path_key(u));
    assert(rules_for(registry(), c) == m);
    // the query of `c` is made of pairs of the query of `u`
    lemma_kept_pairs(query_pairs(u), m);
    let kp = kept_pairs(query_pairs(u), m);
    assert forall|k: int| 0 <= k < query_pairs(c).len() implies query_pairs(u).contains(
        #[trigger] query_pairs(c)[k],
    ) by {
        assert(query_pairs(c)[k] == kp[k]);
    }
    assert forall|i: int| 0 <= i < m.len() && m[i].handler is Some implies #[trigger] handler_link(
        m[i].handler->0,
        c,
    ) is None by {
        let h = m[i].handler->0;
        assert(handler_link(h, u) is None);
        if path_allows(h, c) {
            lemma_link_for_sub(query_pairs(u), query_pairs(c), h.params, 0);
        }
    }
    lemma_rewritten_unchanged(m, c);
    // the query is already clean
    if c.query is Some {
        assert forall|k: int| 0 <= k < kp.len() implies !strips(m, encode_utf8(#[trigger] kp[k].0)) by {}
        lemma_kept_pairs_all(kp, m);
    }
    assert(query_cleaned(c, m) == c);
    // the fragment is already clean
    match u.fragment {
        None => {},
        Some(f) => {
            let items = kept_items(split_items(f), m);
            if joined(items).len() > 0 {
                lemma_kept_items(split_items(f), m);
                lemma_split_items_no_amp(f);
                assert forall|i: int| 0 <= i < items.len() implies no_amp(#[trigger] items[i]) by {
                    let w = choose|w: int|
                        0 <= w < split_items(f).len() && split_items(f)[w] == items[i];
                    assert(no_amp(split_items(f)[w]));
                }
                assert(items.len() >= 1);
                lemma_split_joined(items);
                assert forall|k: int| 0 <= k < items.len() implies !strips(
                    m,
                    encode_utf8(item_key(#[trigger] items[k])),
                ) by {}
                lemma_kept_items_all(items, m);
            }
        },
    }
}

/// A query name that a rule of the URL strips is gone from the cleaned
/// query; every other pair stays, with its value, in its order: the cleaned
/// query is the rewritten URL's query with exactly the stripped pairs left out.
pub proof fn law_query_keys(u: UrlView)
    ensures
        ({
            let m = rules_for(registry(), u);
            let c = cleaned(registry(), u);
            let before = query_pairs(rewritten(m, u));
            &&& query_pairs(c) == kept_pairs(before, m)
            &&& forall|k: int|
                0 <= k < query_pairs(c).len() ==> !strips(m, encode_utf8(#[trigger] query_pairs(c)[k].0))
            &&& forall|k: int|
                0 <= k < before.len() && !strips(m, encode_utf8(before[k].0)) ==> query_pairs(
                    c,
                ).contains(#[trigger] before[k])
        }),
{
    let m = rules_for(registry(), u);
    let before = query_pairs(rewritten(m, u));
    lemma_kept_pairs(before, m);
    lemma_kept_pairs_keeps(before, m);
}

/// A pair that no rule strips is kept.
proof fn lemma_kept_pairs_keeps(ps: Seq<(Seq<char>, Seq<char>)>, rules: Seq<RuleView>)
    ensures
        forall|k: int|
            0 <= k < ps.len() && !strips(rules, encode_utf8(ps[k].0)) ==> kept_pairs(
                ps,
                rules,
            ).contains(#[trigger] ps[k]),
    decreases ps.len(),
{
    if ps.len() > 0 {
        lemma_kept_pairs_keeps(ps.drop_last(), rules);
        let k0 = kept_pairs(ps.drop_last(), rules);
        assert forall|k: int| 0 <= k < ps.len() && !strips(rules, encode_utf8(ps[k].0)) implies kept_pairs(
            ps,
            rules,
        ).contains(#[trigger] ps[k]) by {
            if k < ps.len() - 1 {
                assert(ps[k] == ps.drop_last()[k]);
                let w = choose|w: int| 0 <= w < k0.len() && k0[w] == ps.drop_last()[k];
                if !strips(rules, encode_utf8(ps.last().0)) {
                    assert(k0.push(ps.last())[w] == ps[k]);
                }
            } else {
                assert(ps[k] == ps.last());
                assert(k0.push(ps.last())[k0.len() as int] == ps[k]);
            }
        }
    }
}

/// Where every query pair is stripped the cleaned URL has no query, so its
/// text holds no `?` separator; where every fragment item is stripped it has
/// no fragment and no `#`.
pub proof fn law_all_stripped(u: UrlView)
    ensures
        ({
            let m = rules_for(registry(), u);
            let v = rewritten(m, u);
            let c = cleaned(registry(), u);
            &&& (forall|k: int|
                0 <= k < query_pairs(v).len() ==> strips(m, encode_utf8(#[trigger] query_pairs(v)[k].0)))
                ==> c.query is None && rendered(c) == c.before_path + c.path + match c.fragment {
                Some(f) => seq!['#'] + f,
                None => Seq::empty(),
            }
            &&& (v.fragment matches Some(f) && forall|k: int|
                0 <= k < split_items(f).len() ==> strips(
                    m,
                    encode_utf8(item_key(#[trigger] split_items(f)[k])),
                )) ==> c.fragment is None
        }),
{
    let m = rules_for(registry(), u);
    let v = rewritten(m, u);
    let c = cleaned(registry(), u);
    if forall|k: int|
        0 <= k < query_pairs(v).len() ==> strips(m, encode_utf8(#[trigger] query_pairs(v)[k].0)) {
        lemma_kept_pairs(query_pairs(v), m);
        let kp = kept_pairs(query_pairs(v), m);
        if kp.len() > 0 {
            let w = choose|w: int| 0 <= w < query_pairs(v).len() && query_pairs(v)[w] == kp[0];
            assert(strips(m, encode_utf8(query_pairs(v)[w].0)));
        }
        assert(rendered(c) =~= c.before_path + c.path + match c.fragment {
            Some(f) => seq!['#'] + f,
            None => Seq::empty(),
        });
    }
    match v.fragment {
        Some(f) => {
            if forall|k: int|
                0 <= k < split_items(f).len() ==> strips(
                    m,
                    encode_utf8(item_key(#[trigger] split_items(f)[k])),
                ) {
                lemma_kept_items(split_items(f), m);
                let ki = kept_items(split_items(f), m);
                if ki.len() > 0 {
                    let w = choose|w: int| 0 <= w < split_items(f).len() && split_items(f)[w] == ki[0];
                    assert(strips(m, encode_utf8(item_key(split_items(f)[w]))));
                }
                assert(ki.len() == 0);
                assert(joined(ki).len() == 0);
            }
        },
        None => {},
    }
}

} // verus!
