//! Which source a client asks for: the `url` query parameter of its request
//! target.

use vstd::prelude::*;

verus! {

/// The path and the decoded query pairs of request target `target`, resolved
/// against "http://127.0.0.1" by the `url` crate (`Url::parse` of the base,
/// `Url::join`, then `Url::path` and `Url::query_pairs`); `None` where the target
/// does not resolve.
pub uninterp spec fn request_target(target: Seq<char>) -> Option<(Seq<char>, Seq<(Seq<char>, Seq<char>)>)>;

pub open spec fn pairs_view(v: Seq<(String, String)>) -> Seq<(Seq<char>, Seq<char>)> {
    v.map_values(|p: (String, String)| (p.0@, p.1@))
}

/// Resolves request target `target` against "http://127.0.0.1" with
/// `url::Url::parse` and `url::Url::join`, and reads off its path
/// (`url::Url::path`) and its decoded query pairs (`url::Url::query_pairs`).
#[verifier::external_body]
fn resolve_request_target(target: &str) -> (r: Option<(String, Vec<(String, String)>)>)
    ensures
        match r {
            Some(t) => request_target(target@) == Some((t.0@, pairs_view(t.1@))),
            None => request_target(target@) is None,
        },
{
    let base = url::Url::parse("http://127.0.0.1").ok()?;
    let url = base.join(target).ok()?;
    let pairs = url.query_pairs().map(|(k, v)| (k.into_owned(), v.into_owned())).collect();
    Some((url.path().to_string(), pairs))
}

/// The value of the first pair named `key`.
pub open spec fn first_value(pairs: Seq<(Seq<char>, Seq<char>)>, key: Seq<char>) -> Option<Seq<char>>
    decreases pairs.len(),
{
    if pairs.len() == 0 {
        None
    } else if pairs[0].0 == key {
        Some(pairs[0].1)
    } else {
        first_value(pairs.drop_first(), key)
    }
}

/// The source a request target asks for: the first `url` query parameter, where
/// the target resolves and, when `stream_path` is given, its path is that path.
pub open spec fn source_of(target: Seq<char>, stream_path: Option<Seq<char>>) -> Option<Seq<char>> {
    match request_target(target) {
        None => None,
        Some((path, query)) => if stream_path matches Some(p) && path != p {
            None
        } else {
            first_value(query, "url"@)
        },
    }
}

pub open spec fn opt_str_view(o: Option<&str>) -> Option<Seq<char>> {
    match o {
        Some(s) => Some(s@),
        None => None,
    }
}

/// The source a request target asks for: the first `url` query parameter, where
/// the target resolves and, when `stream_path` is given, its path is that path.
pub fn requested_source(target: &str, stream_path: Option<&str>) -> (r: Option<String>)
    ensures
        match r {
            Some(s) => source_of(target@, opt_str_view(stream_path)) == Some(s@),
            None => source_of(target@, opt_str_view(stream_path)) is None,
        },
{
    let (path, query) = match resolve_request_target(target) {
        Some(t) => t,
        None => {
            return None;
        },
    };
    match stream_path {
        Some(p) => {
            let wanted = p.to_owned();
            if !(path == wanted) {
                return None;
            }
        },
        None => {},
    }
    let key = "url".to_owned();
    let ghost pv = pairs_view(query@);
    let mut i: usize = 0;
    assert(pv.subrange(0, pv.len() as int) =~= pv);
    while i < query.len()
        invariant
            0 <= i <= query@.len(),
            pv == pairs_view(query@),
            key@ == "url"@,
            source_of(target@, opt_str_view(stream_path)) == first_value(pv, "url"@),
            first_value(pv, "url"@) == first_value(pv.subrange(i as int, pv.len() as int), "url"@),
        decreases query@.len() - i,
    {
        proof {
            assert(pv.subrange(i as int, pv.len() as int).drop_first() =~= pv.subrange(
                i + 1,
                pv.len() as int,
            ));
        }
        if query[i].0 == key {
            assert(pv.subrange(i as int, pv.len() as int)[0] == pv[i as int]);
            return Some(query[i].1.clone());
        }
        i = i + 1;
    }
    None
}

} // verus!
