//! The sync engine's decisions: which upstream URL each phase requests,
//! how a response's revision header is read, and how a response is folded
//! into the cache. The surrounding loop — issuing the blocking long-poll,
//! sleeping before a retry — is outside work; on any error the cache and
//! its revision are left untouched, so the next attempt watches from the
//! same revision.

use vstd::prelude::*;
use vstd::string::StringExecFns;
use crate::cache::{Cache, Rec};
use crate::errors::MirrorError;
use crate::etcd::EtcdNode;
use crate::flatten::{flatten_map, node_keys_ok, store_node_recursive};
use crate::settings::UpstreamSettings;
use crate::strutil::{dec_str, is_dec_seq, dec_val, parse_dec_u64, push_dec_u64};

verus! {

/// The URL of the one-shot recursive read that seeds the cache.
pub open spec fn initial_url_spec(host: Seq<char>, port: u16, prefix: Seq<char>) -> Seq<char> {
    "https://"@ + host + ":"@ + dec_str(port as int) + "/v2/keys"@ + prefix
        + "/resource?recursive=true"@
}

/// The URL of a long-poll watch resuming just past `revision`.
pub open spec fn watch_url_spec(
    host: Seq<char>,
    port: u16,
    prefix: Seq<char>,
    revision: u64,
) -> Seq<char> {
    "https://"@ + host + ":"@ + dec_str(port as int) + "/v2/keys"@ + prefix
        + "/resource?wait=true&waitIndex="@ + dec_str(revision as int + 1) + "&recursive=true"@
}

/// Builds the initial-load URL from the upstream settings.
pub fn initial_load_url(upstream: &UpstreamSettings) -> (r: String)
    requires
        upstream.server_names@.len() > 0,
    ensures
        r@ == initial_url_spec(
            upstream.server_names@[0]@,
            upstream.server_port,
            upstream.key_prefix@,
        ),
{
    let mut url = String::from_str("https://");
    url.append(upstream.server_names[0].as_str());
    url.append(":");
    push_dec_u64(upstream.server_port as u64, &mut url);
    url.append("/v2/keys");
    url.append(upstream.key_prefix.as_str());
    url.append("/resource?recursive=true");
    proof {
        assert(url@ =~= initial_url_spec(
            upstream.server_names@[0]@,
            upstream.server_port,
            upstream.key_prefix@,
        ));
    }
    url
}

/// Builds the watch URL resuming just past `revision`.
pub fn watch_url(upstream: &UpstreamSettings, revision: u64) -> (r: String)
    requires
        upstream.server_names@.len() > 0,
        revision < u64::MAX,
    ensures
        r@ == watch_url_spec(
            upstream.server_names@[0]@,
            upstream.server_port,
            upstream.key_prefix@,
            revision,
        ),
{
    let mut url = String::from_str("https://");
    url.append(upstream.server_names[0].as_str());
    url.append(":");
    push_dec_u64(upstream.server_port as u64, &mut url);
    url.append("/v2/keys");
    url.append(upstream.key_prefix.as_str());
    url.append("/resource?wait=true&waitIndex=");
    push_dec_u64(revision + 1, &mut url);
    url.append("&recursive=true");
    proof {
        assert(url@ =~= watch_url_spec(
            upstream.server_names@[0]@,
            upstream.server_port,
            upstream.key_prefix@,
            revision,
        ));
    }
    url
}

/// Reads the store's revision header: a decimal unsigned integer; anything
/// else is a malformed response.
pub fn parse_etcd_index(s: &str) -> (r: Result<u64, MirrorError>)
    ensures
        r is Ok <==> is_dec_seq(s@) && dec_val(s@) <= u64::MAX,
        r is Ok ==> r->Ok_0 as int == dec_val(s@),
        r is Err ==> r->Err_0 == MirrorError::Upstream,
{
    match parse_dec_u64(s) {
        Option::Some(n) => Ok(n),
        Option::None => Err(MirrorError::Upstream),
    }
}

/// Builds the cache from the initial load: the response tree flattened
/// into a brand-new mapping, at the revision the response reported.
pub fn apply_initial(node: &EtcdNode, etcd_index: u64, prefix: &str) -> (r: Result<
    Cache,
    MirrorError,
>)
    ensures
        r is Ok <==> node_keys_ok(*node, prefix@),
        r is Ok ==> {
            &&& r->Ok_0.wf()
            &&& r->Ok_0@ == flatten_map(Map::<Seq<char>, Rec>::empty(), *node, prefix@)
            &&& r->Ok_0.revision() == etcd_index
        },
        r is Err ==> r->Err_0 == MirrorError::Consistency,
{
    let mut cache = Cache::empty();
    match store_node_recursive(&mut cache, node, prefix) {
        Ok(_) => {
            cache.set_watch_revision(etcd_index);
            Ok(cache)
        },
        Err(e) => Err(e),
    }
}

/// Folds one successful watch response into the cache, merging into the
/// existing mapping, and advances the watch revision to the revision the
/// response reported.
///
/// Revision monotonicity: on success the new revision is exactly the
/// response's, and never below the old one; a response whose revision lies
/// below the current one is rejected as a protocol violation, and any
/// rejection leaves mapping and revision untouched, so the next attempt
/// resumes from the same revision.
pub fn apply_watch(cache: &mut Cache, node: &EtcdNode, new_index: u64, prefix: &str) -> (r:
    Result<(), MirrorError>)
    requires
        old(cache).wf(),
    ensures
        final(cache).wf(),
        r is Ok <==> node_keys_ok(*node, prefix@) && new_index >= old(cache).revision(),
        r is Ok ==> {
            &&& final(cache)@ == flatten_map(old(cache)@, *node, prefix@)
            &&& final(cache).revision() == new_index
            &&& final(cache).revision() >= old(cache).revision()
        },
        r is Err ==> {
            &&& final(cache)@ == old(cache)@
            &&& final(cache).revision() == old(cache).revision()
            &&& r->Err_0 == MirrorError::Consistency
        },
{
    if new_index < cache.watch_revision() {
        return Err(MirrorError::Consistency);
    }
    match store_node_recursive(cache, node, prefix) {
        Ok(_) => {
            cache.set_watch_revision(new_index);
            Ok(())
        },
        Err(e) => Err(e),
    }
}

} // verus!
