//! The rule table: for each family of destinations, the parameters to strip
//! and, for redirector links, where the real destination is embedded.
//!
//! See also <https://maxchadwick.xyz/tracking-query-params-registry/>.
use vstd::prelude::*;

use crate::matcher::{MatcherView, M};

verus! {

/// A rewrite that replaces a URL by a destination embedded in its query.
pub enum Handler {
    /// Takes the first value, over the names in `params` in order and then
    /// over the pairs of each name in query order, that percent-decodes to an
    /// absolute URL. With `path_match`, only where the path contains each of
    /// its texts.
    ExtractLink { params: Vec<&'static str>, path_match: Option<Vec<&'static str>> },
}

/// The mathematical content of a handler.
pub struct HandlerView {
    pub params: Seq<Seq<char>>,
    pub path_match: Option<Seq<Seq<char>>>,
}

/// The views of a sequence of static strings.
pub open spec fn strs_view(v: Seq<&'static str>) -> Seq<Seq<char>> {
    v.map_values(|s: &'static str| s@)
}

impl View for Handler {
    type V = HandlerView;

    open spec fn view(&self) -> HandlerView {
        match self {
            Handler::ExtractLink { params, path_match } => HandlerView {
                params: strs_view(params@),
                path_match: match path_match {
                    Some(p) => Some(strs_view(p@)),
                    None => None,
                },
            },
        }
    }
}

/// The views of a sequence of matchers.
pub open spec fn matchers_view(v: Seq<M>) -> Seq<MatcherView> {
    v.map_values(|m: M| m@)
}

/// A rule: where it applies, which parameters it strips, and its rewrite.
pub struct Rule {
    /// Matchers of the host-path key; the rule applies where any matches.
    pub host_path: Vec<M>,
    /// Matchers of the query and fragment parameter names to strip.
    pub params: Vec<M>,
    /// A rewrite that runs before any parameter is stripped.
    pub handler: Option<Handler>,
}

/// The mathematical content of a rule.
pub struct RuleView {
    pub host_path: Seq<MatcherView>,
    pub params: Seq<MatcherView>,
    pub handler: Option<HandlerView>,
}

impl View for Rule {
    type V = RuleView;

    open spec fn view(&self) -> RuleView {
        RuleView {
            host_path: matchers_view(self.host_path@),
            params: matchers_view(self.params@),
            handler: match self.handler {
                Some(h) => Some(h@),
                None => None,
            },
        }
    }
}

/// The views of a sequence of rules.
pub open spec fn rules_view(v: Seq<Rule>) -> Seq<RuleView> {
    v.map_values(|r: Rule| r@)
}

/// Tracking parameters of every site.
pub open spec fn universal_rule() -> RuleView {
    RuleView {
        host_path: seq![MatcherView::Any],
        params: seq![
            MatcherView::Exact("__twitter_impression"@),
            MatcherView::Exact("_hsenc"@),
            MatcherView::Exact("_openstat"@),
            MatcherView::Exact("action_object_map"@),
            MatcherView::Exact("action_ref_map"@),
            MatcherView::Exact("action_type_map"@),
            MatcherView::Exact("adgroupid"@),
            MatcherView::Exact("amp"@),
            MatcherView::Exact("campaignid"@),
            MatcherView::Exact("CNDID"@),
            MatcherView::Exact("fb_action_ids"@),
            MatcherView::Exact("fb_action_types"@),
            MatcherView::Exact("fb_ref"@),
            MatcherView::Exact("fb_source"@),
            MatcherView::Exact("fbclid"@),
            MatcherView::Exact("feeditemid"@),
            MatcherView::Exact("ga_campaign"@),
            MatcherView::Exact("ga_content"@),
            MatcherView::Exact("ga_medium"@),
            MatcherView::Exact("ga_place"@),
            MatcherView::Exact("ga_source"@),
            MatcherView::Exact("ga_term"@),
            MatcherView::Exact("gclid"@),
            MatcherView::Exact("gs_l"@),
            MatcherView::Exact("hmb_campaign"@),
            MatcherView::Exact("hmb_medium"@),
            MatcherView::Exact("hmb_source"@),
            MatcherView::Exact("mbid"@),
            MatcherView::Exact("mc_cid"@),
            MatcherView::Exact("mc_eid"@),
            MatcherView::Exact("mkt_tok"@),
            MatcherView::Exact("referrer"@),
            MatcherView::Exact("spJobID"@),
            MatcherView::Exact("spMailingID"@),
            MatcherView::Exact("spReportId"@),
            MatcherView::Exact("spUserID"@),
            MatcherView::Exact("wt_mc_o"@),
            MatcherView::Exact("WT.mc_ev"@),
            MatcherView::Exact("WT.mc_id"@),
            MatcherView::Exact("WT.srch"@),
            MatcherView::Exact("yclid"@),
            MatcherView::StartsWith("pd_rd"@),
            MatcherView::StartsWith("pf_rd"@),
            MatcherView::StartsWith("utm_"@),
            MatcherView::StartsWith("mtm_"@),
            MatcherView::StartsWith("matomo_"@),
            MatcherView::StartsWith("hsa_"@),
            MatcherView::StartsWith("pk_"@),
            MatcherView::StartsWith("trk_"@),
            MatcherView::Exact("msclkid"@),
            MatcherView::Exact("_ga"@),
            MatcherView::Exact("gclid"@),
            MatcherView::Exact("gclsrc"@),
            MatcherView::Exact("ref_src"@),
        ],
        handler: None,
    }
}

/// Amazon: its parameters, and the destination of its `gp/r.html` redirector in `U`.
pub open spec fn amazon_rule() -> RuleView {
    RuleView {
        host_path: seq![MatcherView::Contains("amazon"@)],
        params: seq![
            MatcherView::Exact("_encoding"@),
            MatcherView::Exact("creative"@),
            MatcherView::Exact("creativeASIN"@),
            MatcherView::Exact("dchild"@),
            MatcherView::Exact("ie"@),
            MatcherView::Exact("linkCode"@),
            MatcherView::Exact("linkId"@),
            MatcherView::Exact("orig"@),
            MatcherView::Exact("psc"@),
            MatcherView::Exact("qid"@),
            MatcherView::Exact("ref"@),
            MatcherView::Exact("refRID"@),
            MatcherView::Exact("sr"@),
            MatcherView::Exact("tag"@),
        ],
        handler: Some(HandlerView { params: seq!["U"@], path_match: Some(seq!["gp/r.html"@]) }),
    }
}

/// Bing.
pub open spec fn bing_rule() -> RuleView {
    RuleView {
        host_path: seq![MatcherView::Contains("bing"@)],
        params: seq![
            MatcherView::Exact("cvid"@),
            MatcherView::Exact("form"@),
            MatcherView::Exact("pq"@),
            MatcherView::Exact("qs"@),
            MatcherView::Exact("sc"@),
            MatcherView::Exact("sk"@),
            MatcherView::Exact("sp"@),
        ],
        handler: None,
    }
}

/// Google.
pub open spec fn google_rule() -> RuleView {
    RuleView {
        host_path: seq![MatcherView::Contains("google"@)],
        params: seq![
            MatcherView::Exact("cvid"@),
            MatcherView::Exact("ei"@),
            MatcherView::Exact("gws_rd"@),
            MatcherView::Exact("sei"@),
            MatcherView::Exact("ved"@),
        ],
        handler: None,
    }
}

/// Google's `/url` redirector: the destination is in `q` or `url`.
pub open spec fn google_redirect_rule() -> RuleView {
    RuleView {
        host_path: seq![MatcherView::ContainsAll(seq!["google"@, "/url"@])],
        params: seq![MatcherView::Exact("usg"@)],
        handler: Some(HandlerView { params: seq!["q"@, "url"@], path_match: None }),
    }
}

/// Instagram.
pub open spec fn instagram_rule() -> RuleView {
    RuleView {
        host_path: seq![MatcherView::Contains("instagram"@)],
        params: seq![MatcherView::Exact("igshid"@)],
        handler: None,
    }
}

/// The New York Times.
pub open spec fn nytimes_rule() -> RuleView {
    RuleView {
        host_path: seq![MatcherView::Contains("nytimes"@)],
        params: seq![MatcherView::Exact("emc"@), MatcherView::Exact("partner"@)],
        handler: None,
    }
}

/// Reddit.
pub open spec fn reddit_rule() -> RuleView {
    RuleView {
        host_path: seq![MatcherView::Contains("reddit"@)],
        params: seq![
            MatcherView::Exact("context"@),
            MatcherView::Exact("ref"@),
            MatcherView::Exact("ref_source"@),
            MatcherView::Exact("st"@),
        ],
        handler: None,
    }
}

/// Twitter.
pub open spec fn twitter_rule() -> RuleView {
    RuleView {
        host_path: seq![MatcherView::Contains("twitter"@)],
        params: seq![
            MatcherView::Exact("context"@),
            MatcherView::Exact("vertical"@),
            MatcherView::Exact("src"@),
            MatcherView::Exact("s"@),
            MatcherView::Exact("ref_src"@),
            MatcherView::Exact("ref_url"@),
        ],
        handler: None,
    }
}

/// YouTube: its parameters, and the destination of its `redirect` links in `q`.
pub open spec fn youtube_rule() -> RuleView {
    RuleView {
        host_path: seq![MatcherView::Contains("youtube"@)],
        params: seq![
            MatcherView::Contains("ab_channel"@),
            MatcherView::Contains("attr_tag"@),
            MatcherView::Contains("feature"@),
            MatcherView::Contains("kw"@),
        ],
        handler: Some(HandlerView { params: seq!["q"@], path_match: Some(seq!["redirect"@]) }),
    }
}

/// Spotify.
pub open spec fn spotify_rule() -> RuleView {
    RuleView {
        host_path: seq![MatcherView::Contains("spotify"@)],
        params: seq![MatcherView::Exact("si"@)],
        handler: None,
    }
}

/// eBay partner network links.
pub open spec fn ebay_rule() -> RuleView {
    RuleView {
        host_path: seq![MatcherView::Contains("ebay"@)],
        params: seq![
            MatcherView::Exact("mkevt"@),
            MatcherView::Exact("mkcid"@),
            MatcherView::Exact("mkrid"@),
            MatcherView::Exact("campid"@),
            MatcherView::Exact("toolid"@),
            MatcherView::Exact("customid"@),
        ],
        handler: None,
    }
}

fn new_universal_rule() -> (r: Rule)
    ensures
        r@ == universal_rule(),
{
    let host_path = vec![M::Any];
    let params = vec![
        M::Exact("__twitter_impression"),
        M::Exact("_hsenc"),
        M::Exact("_openstat"),
        M::Exact("action_object_map"),
        M::Exact("action_ref_map"),
        M::Exact("action_type_map"),
        M::Exact("adgroupid"),
        M::Exact("amp"),
        M::Exact("campaignid"),
        M::Exact("CNDID"),
        M::Exact("fb_action_ids"),
        M::Exact("fb_action_types"),
        M::Exact("fb_ref"),
        M::Exact("fb_source"),
        M::Exact("fbclid"),
        M::Exact("feeditemid"),
        M::Exact("ga_campaign"),
        M::Exact("ga_content"),
        M::Exact("ga_medium"),
        M::Exact("ga_place"),
        M::Exact("ga_source"),
        M::Exact("ga_term"),
        M::Exact("gclid"),
        M::Exact("gs_l"),
        M::Exact("hmb_campaign"),
        M::Exact("hmb_medium"),
        M::Exact("hmb_source"),
        M::Exact("mbid"),
        M::Exact("mc_cid"),
        M::Exact("mc_eid"),
        M::Exact("mkt_tok"),
        M::Exact("referrer"),
        M::Exact("spJobID"),
        M::Exact("spMailingID"),
        M::Exact("spReportId"),
        M::Exact("spUserID"),
        M::Exact("wt_mc_o"),
        M::Exact("WT.mc_ev"),
        M::Exact("WT.mc_id"),
        M::Exact("WT.srch"),
        M::Exact("yclid"),
        M::StartsWith("pd_rd"),
        M::StartsWith("pf_rd"),
        M::StartsWith("utm_"),
        M::StartsWith("mtm_"),
        M::StartsWith("matomo_"),
        M::StartsWith("hsa_"),
        M::StartsWith("pk_"),
        M::StartsWith("trk_"),
        M::Exact("msclkid"),
        M::Exact("_ga"),
        M::Exact("gclid"),
        M::Exact("gclsrc"),
        M::Exact("ref_src"),
    ];
    assert(matchers_view(host_path@) =~= universal_rule().host_path);
    assert(matchers_view(params@) =~= universal_rule().params);
    Rule { host_path, params, handler: None }
}

fn new_amazon_rule() -> (r: Rule)
    ensures
        r@ == amazon_rule(),
{
    let host_path = vec![M::Contains("amazon")];
    let params = vec![
        M::Exact("_encoding"),
        M::Exact("creative"),
        M::Exact("creativeASIN"),
        M::Exact("dchild"),
        M::Exact("ie"),
        M::Exact("linkCode"),
        M::Exact("linkId"),
        M::Exact("orig"),
        M::Exact("psc"),
        M::Exact("qid"),
        M::Exact("ref"),
        M::Exact("refRID"),
        M::Exact("sr"),
        M::Exact("tag"),
    ];
    assert(matchers_view(host_path@) =~= amazon_rule().host_path);
    assert(matchers_view(params@) =~= amazon_rule().params);
    let names = vec!["U"];
    assert(strs_view(names@) =~= amazon_rule().handler->0.params);
    let path_match = vec!["gp/r.html"];
    assert(strs_view(path_match@) =~= amazon_rule().handler->0.path_match->0);
    let handler = Handler::ExtractLink { params: names, path_match: Some(path_match) };
    Rule { host_path, params, handler: Some(handler) }
}

fn new_bing_rule() -> (r: Rule)
    ensures
        r@ == bing_rule(),
{
    let host_path = vec![M::Contains("bing")];
    let params = vec![
        M::Exact("cvid"),
        M::Exact("form"),
        M::Exact("pq"),
        M::Exact("qs"),
        M::Exact("sc"),
        M::Exact("sk"),
        M::Exact("sp"),
    ];
    assert(matchers_view(host_path@) =~= bing_rule().host_path);
    assert(matchers_view(params@) =~= bing_rule().params);
    Rule { host_path, params, handler: None }
}

fn new_google_rule() -> (r: Rule)
    ensures
        r@ == google_rule(),
{
    let host_path = vec![M::Contains("google")];
    let params = vec![
        M::Exact("cvid"),
        M::Exact("ei"),
        M::Exact("gws_rd"),
        M::Exact("sei"),
        M::Exact("ved"),
    ];
    assert(matchers_view(host_path@) =~= google_rule().host_path);
    assert(matchers_view(params@) =~= google_rule().params);
    Rule { host_path, params, handler: None }
}

fn new_google_redirect_rule() -> (r: Rule)
    ensures
        r@ == google_redirect_rule(),
{
    let signature = vec!["google", "/url"];
    assert(signature@.map_values(|s: &'static str| s@) =~= seq!["google"@, "/url"@]);
    let host_path = vec![M::ContainsAll(signature)];
    let params = vec![M::Exact("usg")];
    assert(matchers_view(host_path@) =~= google_redirect_rule().host_path);
    assert(matchers_view(params@) =~= google_redirect_rule().params);
    let names = vec!["q", "url"];
    assert(strs_view(names@) =~= google_redirect_rule().handler->0.params);
    let handler = Handler::ExtractLink { params: names, path_match: None };
    Rule { host_path, params, handler: Some(handler) }
}

fn new_instagram_rule() -> (r: Rule)
    ensures
        r@ == instagram_rule(),
{
    let host_path = vec![M::Contains("instagram")];
    let params = vec![M::Exact("igshid")];
    assert(matchers_view(host_path@) =~= instagram_rule().host_path);
    assert(matchers_view(params@) =~= instagram_rule().params);
    Rule { host_path, params, handler: None }
}

fn new_nytimes_rule() -> (r: Rule)
    ensures
        r@ == nytimes_rule(),
{
    let host_path = vec![M::Contains("nytimes")];
    let params = vec![M::Exact("emc"), M::Exact("partner")];
    assert(matchers_view(host_path@) =~= nytimes_rule().host_path);
    assert(matchers_view(params@) =~= nytimes_rule().params);
    Rule { host_path, params, handler: None }
}

fn new_reddit_rule() -> (r: Rule)
    ensures
        r@ == reddit_rule(),
{
    let host_path = vec![M::Contains("reddit")];
    let params = vec![
        M::Exact("context"),
        M::Exact("ref"),
        M::Exact("ref_source"),
        M::Exact("st"),
    ];
    assert(matchers_view(host_path@) =~= reddit_rule().host_path);
    assert(matchers_view(params@) =~= reddit_rule().params);
    Rule { host_path, params, handler: None }
}

fn new_twitter_rule() -> (r: Rule)
    ensures
        r@ == twitter_rule(),
{
    let host_path = vec![M::Contains("twitter")];
    let params = vec![
        M::Exact("context"),
        M::Exact("vertical"),
        M::Exact("src"),
        M::Exact("s"),
        M::Exact("ref_src"),
        M::Exact("ref_url"),
    ];
    assert(matchers_view(host_path@) =~= twitter_rule().host_path);
    assert(matchers_view(params@) =~= twitter_rule().params);
    Rule { host_path, params, handler: None }
}

fn new_youtube_rule() -> (r: Rule)
    ensures
        r@ == youtube_rule(),
{
    let host_path = vec![M::Contains("youtube")];
    let params = vec![
        M::Contains("ab_channel"),
        M::Contains("attr_tag"),
        M::Contains("feature"),
        M::Contains("kw"),
    ];
    assert(matchers_view(host_path@) =~= youtube_rule().host_path);
    assert(matchers_view(params@) =~= youtube_rule().params);
    let names = vec!["q"];
    assert(strs_view(names@) =~= youtube_rule().handler->0.params);
    let path_match = vec!["redirect"];
    assert(strs_view(path_match@) =~= youtube_rule().handler->0.path_match->0);
    let handler = Handler::ExtractLink { params: names, path_match: Some(path_match) };
    Rule { host_path, params, handler: Some(handler) }
}

fn new_spotify_rule() -> (r: Rule)
    ensures
        r@ == spotify_rule(),
{
    let host_path = vec![M::Contains("spotify")];
    let params = vec![M::Exact("si")];
    assert(matchers_view(host_path@) =~= spotify_rule().host_path);
    assert(matchers_view(params@) =~= spotify_rule().params);
    Rule { host_path, params, handler: None }
}

fn new_ebay_rule() -> (r: Rule)
    ensures
        r@ == ebay_rule(),
{
    let host_path = vec![M::Contains("ebay")];
    let params = vec![
        M::Exact("mkevt"),
        M::Exact("mkcid"),
        M::Exact("mkrid"),
        M::Exact("campid"),
        M::Exact("toolid"),
        M::Exact("customid"),
    ];
    assert(matchers_view(host_path@) =~= ebay_rule().host_path);
    assert(matchers_view(params@) =~= ebay_rule().params);
    Rule { host_path, params, handler: None }
}

/// The rules in the order in which they are tried.
pub open spec fn registry() -> Seq<RuleView> {
    seq![
        universal_rule(),
        amazon_rule(),
        bing_rule(),
        google_rule(),
        google_redirect_rule(),
        instagram_rule(),
        nytimes_rule(),
        reddit_rule(),
        twitter_rule(),
        youtube_rule(),
        spotify_rule(),
        ebay_rule(),
    ]
}

/// The built-in rules, in their order.
pub fn default_rules() -> (r: Vec<Rule>)
    ensures
        rules_view(r@) == registry(),
{
    let r = vec![
        new_universal_rule(),
        new_amazon_rule(),
        new_bing_rule(),
        new_google_rule(),
        new_google_redirect_rule(),
        new_instagram_rule(),
        new_nytimes_rule(),
        new_reddit_rule(),
        new_twitter_rule(),
        new_youtube_rule(),
        new_spotify_rule(),
        new_ebay_rule(),
    ];
    assert(rules_view(r@) =~= registry());
    r
}

} // verus!
