//! Link extraction: scans free text for URL-shaped spans, keeps those that
//! use the secure scheme, an allow-listed host and the
//! `/<handle>/status/<digits>` path shape, and yields the numeric post ids in
//! order of appearance.

use vstd::prelude::*;
use crate::text::{parse_u64, parse_u64_spec, str_eq};

verus! {

/// The URL-shaped spans that the link scanner finds in `text`, in order of
/// first appearance. Named: the scan is a pure function of the text alone.
pub uninterp spec fn link_spans_of(text: Seq<char>) -> Seq<Seq<char>>;

/// The scheme of `u` when it parses as an absolute URL, or `None` when it
/// does not parse.
pub uninterp spec fn url_scheme_of(u: Seq<char>) -> Option<Seq<char>>;

/// The host of `u` when it parses and has one.
pub uninterp spec fn url_host_of(u: Seq<char>) -> Option<Seq<char>>;

/// The path segments of `u` when it parses and its path is segmented.
pub uninterp spec fn url_segments_of(u: Seq<char>) -> Option<Seq<Seq<char>>>;

/// Relies on linkify::LinkFinder::links, restricted to LinkKind::Url: the
/// scan depends on the text alone and yields the URL-shaped spans in order.
#[verifier::external_body]
fn find_links(text: &str) -> (r: Vec<String>)
    ensures
        r.deep_view() == link_spans_of(text@),
{
    let mut finder = linkify::LinkFinder::new();
    finder.kinds(&[linkify::LinkKind::Url]);
    finder.links(text).map(|l| l.as_str().to_owned()).collect()
}

/// The parts of a parsed URL that link recognition reads.
pub struct UrlParts {
    pub scheme: String,
    pub host: Option<String>,
    pub segments: Option<Vec<String>>,
}

/// Relies on url::Url::parse and its accessors scheme, host_str and
/// path_segments: parsing depends on the input string alone; a parsed URL
/// always has a scheme, while host and path segments can be absent.
#[verifier::external_body]
fn parse_url(u: &str) -> (r: Option<UrlParts>)
    ensures
        r is Some <==> url_scheme_of(u@) is Some,
        r matches Some(p) ==> {
            &&& Some(p.scheme@) == url_scheme_of(u@)
            &&& (match p.host {
                Some(h) => url_host_of(u@) == Some(h@),
                None => url_host_of(u@) is None,
            })
            &&& (match p.segments {
                Some(sv) => url_segments_of(u@) == Some(sv.deep_view()),
                None => url_segments_of(u@) is None,
            })
        },
{
    let url = url::Url::parse(u).ok()?;
    Some(UrlParts {
        scheme: url.scheme().to_owned(),
        host: url.host_str().map(|h| h.to_owned()),
        segments: url.path_segments().map(|s| s.map(|x| x.to_owned()).collect()),
    })
}

/// The fixed allow-list of host names for the post-sharing site: the bare
/// domain and its known subdomain aliases.
pub open spec fn allowed_host(h: Seq<char>) -> bool {
    ||| h == "twitter.com"@
    ||| h == "www.twitter.com"@
    ||| h == "mobile.twitter.com"@
    ||| h == "m.twitter.com"@
}

/// What makes `u` a recognized link to the post `id`: it parses as a URL
/// with the secure scheme, an allow-listed host, and a path of exactly the
/// shape `/<handle>/status/<digits>`, where the digits read as `id`.
pub open spec fn secure_post_link(u: Seq<char>, id: u64) -> bool {
    &&& url_scheme_of(u) == Some("https"@)
    &&& url_host_of(u) matches Some(h) && allowed_host(h)
    &&& url_segments_of(u) matches Some(segs) && segs.len() == 3 && segs[1] == "status"@
        && parse_u64_spec(segs[2]) == Some(id)
}

/// The post id that `u` names, if `u` is a recognized link to one.
pub open spec fn tweet_id_of_url(u: Seq<char>) -> Option<u64> {
    match (url_scheme_of(u), url_host_of(u), url_segments_of(u)) {
        (Some(sch), Some(h), Some(segs)) => {
            if sch == "https"@ && allowed_host(h) && segs.len() == 3 && segs[1] == "status"@ {
                parse_u64_spec(segs[2])
            } else {
                None
            }
        },
        _ => None,
    }
}

/// The two readings of a recognized link agree.
pub proof fn lemma_tweet_id_is_secure_link(u: Seq<char>, id: u64)
    ensures
        tweet_id_of_url(u) == Some(id) <==> secure_post_link(u, id),
{
}

/// Reads the post id out of one URL candidate; anything malformed or
/// unrecognized yields `None`.
pub fn get_tweet(url_str: &str) -> (r: Option<u64>)
    ensures
        r == tweet_id_of_url(url_str@),
{
    let parts = match parse_url(url_str) {
        Some(p) => p,
        None => {
            return None;
        },
    };
    if !str_eq(parts.scheme.as_str(), "https") {
        return None;
    }
    let host = match parts.host {
        Some(h) => h,
        None => {
            return None;
        },
    };
    let host_ok = str_eq(host.as_str(), "twitter.com") || str_eq(host.as_str(), "www.twitter.com")
        || str_eq(host.as_str(), "mobile.twitter.com") || str_eq(host.as_str(), "m.twitter.com");
    if !host_ok {
        return None;
    }
    let segments = match parts.segments {
        Some(s) => s,
        None => {
            return None;
        },
    };
    if segments.len() != 3 {
        proof {
            assert(url_segments_of(url_str@)->0.len() == segments.deep_view().len());
        }
        return None;
    }
    if !str_eq(segments[1].as_str(), "status") {
        proof {
            assert(url_segments_of(url_str@)->0[1] == segments.deep_view()[1]);
        }
        return None;
    }
    let r = parse_u64(segments[2].as_str());
    proof {
        assert(url_segments_of(url_str@)->0[2] == segments.deep_view()[2]);
    }
    r
}

/// The ids recognized in a sequence of URL candidates, in order; candidates
/// that are not recognized links contribute nothing.
pub open spec fn ids_of(links: Seq<Seq<char>>) -> Seq<u64>
    decreases links.len(),
{
    if links.len() == 0 {
        Seq::empty()
    } else {
        ids_of(links.drop_last()) + (match tweet_id_of_url(links.last()) {
            Some(id) => seq![id],
            None => Seq::empty(),
        })
    }
}

/// The post ids that link extraction yields for `text`.
pub open spec fn extract_spec(text: Seq<char>) -> Seq<u64> {
    ids_of(link_spans_of(text))
}

/// Scans `text` for links and returns every recognized post id, in order of
/// first appearance and without deduplication.
pub fn extract(text: &str) -> (r: Vec<u64>)
    ensures
        r@ == extract_spec(text@),
{
    let links = find_links(text);
    let ghost spans = link_spans_of(text@);
    let mut r: Vec<u64> = Vec::new();
    let mut i: usize = 0;
    while i < links.len()
        invariant
            links.deep_view() == spans,
            links@.len() == spans.len(),
            0 <= i <= links.len(),
            r@ == ids_of(spans.take(i as int)),
        decreases links.len() - i,
    {
        proof {
            assert(spans.take(i + 1).drop_last() =~= spans.take(i as int));
            assert(spans.take(i + 1).last() == spans[i as int]);
            assert(spans[i as int] == links@[i as int]@);
        }
        match get_tweet(links[i].as_str()) {
            Some(id) => {
                r.push(id);
                assert(r@ =~= ids_of(spans.take(i + 1)));
            },
            None => {
                assert(r@ =~= ids_of(spans.take(i + 1)));
            },
        }
        i = i + 1;
    }
    proof {
        assert(spans.take(links@.len() as int) =~= spans);
    }
    r
}

proof fn lemma_ids_of_sound(links: Seq<Seq<char>>, k: int)
    requires
        0 <= k < ids_of(links).len(),
    ensures
        exists|j: int|
            0 <= j < links.len() && tweet_id_of_url(links[j]) == Some(ids_of(links)[k]),
    decreases links.len(),
{
    if links.len() > 0 {
        let prefix = ids_of(links.drop_last());
        if k < prefix.len() {
            lemma_ids_of_sound(links.drop_last(), k);
            let j = choose|j: int|
                0 <= j < links.drop_last().len() && tweet_id_of_url(links.drop_last()[j]) == Some(
                    prefix[k],
                );
            assert(links.drop_last()[j] == links[j]);
            assert(tweet_id_of_url(links[j]) == Some(ids_of(links)[k]));
        } else {
            let j = links.len() - 1;
            assert(tweet_id_of_url(links[j]) == Some(ids_of(links)[k]));
        }
    }
}

/// Every id that extraction yields comes from a scanned span that is a
/// recognized link: secure scheme, allow-listed host, and a path of the
/// shape `/<handle>/status/<digits>` naming that id. Any other span
/// contributes no id.
pub proof fn lemma_extract_sound(text: Seq<char>, k: int)
    requires
        0 <= k < extract_spec(text).len(),
    ensures
        exists|j: int|
            0 <= j < link_spans_of(text).len() && secure_post_link(
                link_spans_of(text)[j],
                extract_spec(text)[k],
            ),
{
    lemma_ids_of_sound(link_spans_of(text), k);
    let j = choose|j: int|
        0 <= j < link_spans_of(text).len() && tweet_id_of_url(link_spans_of(text)[j]) == Some(
            extract_spec(text)[k],
        );
    lemma_tweet_id_is_secure_link(link_spans_of(text)[j], extract_spec(text)[k]);
    assert(secure_post_link(link_spans_of(text)[j], extract_spec(text)[k]));
}

} // verus!
