//! Building request URIs from an API base, a path and an endpoint.
use vstd::prelude::*;
use crate::text::{trim_leading_slashes, trim_trailing_slashes, trim_start_slashes, trim_end_slashes, same_text};

verus! {

/// The endpoint as it is appended: an endpoint other than `""` and `"/"`
/// is written with exactly one leading slash; those two stay as they are.
pub open spec fn endpoint_suffix(endpoint: Seq<char>) -> Seq<char> {
    if endpoint != Seq::<char>::empty() && endpoint != seq!['/'] {
        seq!['/'] + trim_leading_slashes(endpoint)
    } else {
        endpoint
    }
}

/// `market_api` without trailing slashes, one slash, `uri` without leading
/// slashes, then the endpoint suffix.
pub open spec fn uri_of(market_api: Seq<char>, uri: Seq<char>, endpoint: Seq<char>) -> Seq<char> {
    trim_trailing_slashes(market_api) + seq!['/'] + trim_leading_slashes(uri) + endpoint_suffix(endpoint)
}

/// Extra slashes at the join do not change the URI: a base ending in `/`
/// and a path starting with `/` give the URI of the bare base and path.
pub proof fn law_build_uri_ignores_join_slashes(market_api: Seq<char>, uri: Seq<char>, endpoint: Seq<char>)
    ensures
        uri_of(market_api.push('/'), seq!['/'] + uri, endpoint) == uri_of(market_api, uri, endpoint),
{
    assert(market_api.push('/').drop_last() =~= market_api);
    assert((seq!['/'] + uri).drop_first() =~= uri);
}

/// A leading slash of an endpoint (other than `"/"` itself) does not
/// change how it is joined: it gets exactly one slash either way.
pub proof fn law_endpoint_leading_slash(endpoint: Seq<char>)
    requires
        endpoint.len() > 0,
        endpoint[0] == '/',
        endpoint != seq!['/'],
    ensures
        endpoint_suffix(endpoint) == endpoint_suffix(endpoint.drop_first()),
{
    let rest = endpoint.drop_first();
    if rest.len() == 0 {
        assert(endpoint =~= seq!['/']);
    }
    assert(trim_leading_slashes(endpoint) == trim_leading_slashes(rest));
    if rest =~= seq!['/'] {
        assert(rest.drop_first() =~= Seq::<char>::empty());
        assert(trim_leading_slashes(rest) == trim_leading_slashes(rest.drop_first()));
        assert(trim_leading_slashes(rest.drop_first()) == rest.drop_first());
        assert(seq!['/'] + Seq::<char>::empty() =~= seq!['/']);
        assert(endpoint_suffix(rest) == rest);
    }
}

/// Joins an API base, a path and an endpoint into one URI with single
/// slashes between the parts.
pub fn build_uri(market_api: &str, uri: &str, endpoint: &str) -> (r: String)
    ensures
        r@ == uri_of(market_api@, uri@, endpoint@),
{
    proof {
        reveal_strlit("/");
        assert("/"@ =~= seq!['/']);
    }
    let mut r = String::from_str(trim_end_slashes(market_api));
    r.append("/");
    r.append(trim_start_slashes(uri));
    if endpoint.unicode_len() != 0 && !same_text(endpoint, "/") {
        r.append("/");
        r.append(trim_start_slashes(endpoint));
        assert(r@ =~= uri_of(market_api@, uri@, endpoint@));
    } else {
        r.append(endpoint);
        proof {
            if endpoint@.len() == 0 {
                assert(endpoint@ =~= Seq::<char>::empty());
            }
        }
        assert(r@ =~= uri_of(market_api@, uri@, endpoint@));
    }
    r
}

} // verus!
