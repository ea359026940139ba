//! Backend metrics: where to ask a backend for its server info, and what the
//! reply says of its KV-cache capacity.

use vstd::prelude::*;

use crate::counting;
use crate::counting::saturating_product;
use crate::text;

verus! {

/// Capacity snapshot returned by a metrics fetch.
#[derive(Debug, Clone)]
pub struct BackendCapacity {
    /// Total KV cache capacity in tokens. 0 means "could not determine".
    pub capacity_tokens: u64,
    /// Backend-reported model name (informational).
    pub model_name: Option<String>,
}

/// Client that fetches capacities over HTTP.
#[derive(Debug, Default)]
pub struct HttpMetricsClient;

/// The part of a `/get_server_info` reply that capacities are read from.
#[derive(Debug, Clone)]
pub struct GetServerInfoResponse {
    pub cache_config: Option<CacheConfig>,
    pub model_config: Option<ModelConfig>,
}

#[derive(Debug, Clone, Copy)]
pub struct CacheConfig {
    /// Tokens per KV-cache block (e.g. 16).
    pub block_size: Option<u64>,
    /// Number of KV-cache blocks allocated on the GPU.
    pub num_gpu_blocks: Option<u64>,
    /// Convenience field exposed by some backends: preferred over
    /// `block_size * num_gpu_blocks` when present.
    pub total_kv_cache_tokens: Option<u64>,
}

#[derive(Debug, Clone)]
pub struct ModelConfig {
    pub model: Option<String>,
}

/// How a request for server info ended.
#[derive(Debug, Clone)]
pub enum ServerInfoReply {
    /// The request could not be sent, for the given reason.
    Unreachable(String),
    /// The backend answered with the given status, which is no success.
    Refused(String),
    /// The backend's answer could not be read, for the given reason.
    Unreadable(String),
    /// The backend gave its info.
    Info(GetServerInfoResponse),
}

/// Whether an HTTP status says that the request succeeded.
pub fn is_success(status: u16) -> (ok: bool)
    ensures
        ok == (200 <= status < 300),
{
    200 <= status && status < 300
}

/// What the status of an answer decides: a status that is no success ends the
/// request as refused, with the status in words. Otherwise the answer is to be
/// read.
pub fn refusal(status: u16, text: String) -> (reply: Option<ServerInfoReply>)
    ensures
        200 <= status < 300 ==> reply is None,
        !(200 <= status < 300) ==> reply == Some(ServerInfoReply::Refused(text)),
{
    if is_success(status) {
        None
    } else {
        Some(ServerInfoReply::Refused(text))
    }
}

/// `url` names a scheme that requests can be sent to.
pub open spec fn has_http_scheme(url: Seq<char>) -> bool {
    "http://"@.is_prefix_of(url) || "https://"@.is_prefix_of(url)
}

/// The HTTP base of a worker URL: with a scheme, and without slashes at its end.
pub open spec fn base_of(url: Seq<char>) -> Seq<char> {
    if has_http_scheme(url) {
        text::trim_end(url, '/')
    } else {
        "http://"@ + text::trim_end(text::trim_start(url, "grpc://"@), '/')
    }
}

/// The URL of the server info of a worker.
pub open spec fn info_url_of(worker_url: Seq<char>) -> Seq<char> {
    base_of(worker_url) + "/get_server_info"@
}

/// The capacity that a cache configuration gives: the total where it is given,
/// else the product of block size and block count where both are given, else
/// zero.
pub open spec fn cache_capacity(config: CacheConfig) -> u64 {
    match config.total_kv_cache_tokens {
        Some(total) => total,
        None => match (config.block_size, config.num_gpu_blocks) {
            (Some(size), Some(blocks)) => counting::saturate((size * blocks) as nat),
            _ => 0,
        },
    }
}

/// The capacity that a reply gives; zero without a cache configuration.
pub open spec fn info_capacity(info: GetServerInfoResponse) -> u64 {
    match info.cache_config {
        Some(config) => cache_capacity(config),
        None => 0,
    }
}

/// The model name that a reply gives.
pub open spec fn info_model(info: GetServerInfoResponse) -> Option<String> {
    match info.model_config {
        Some(config) => config.model,
        None => None,
    }
}

/// The message of a failed fetch: what failed, for which URL, and why.
pub open spec fn failure(what: Seq<char>, url: Seq<char>, why: Seq<char>) -> Seq<char> {
    what + " "@ + url + ": "@ + why
}

/// Put pieces of text together.
fn join(a: &str, b: &str, c: &str, d: &str, e: &str) -> (joined: String)
    ensures
        joined@ == a@ + b@ + c@ + d@ + e@,
{
    let mut joined = a.to_owned();
    joined.append(b);
    joined.append(c);
    joined.append(d);
    joined.append(e);
    joined
}

/// Normalize a worker URL to an HTTP base. Workers may be registered as
/// `host:port` without a scheme; a request needs an absolute URL.
pub fn http_base(url: &str) -> (base: String)
    ensures
        base@ == base_of(url@),
{
    if text::starts_with(url, "http://") || text::starts_with(url, "https://") {
        text::trim_end_matches(url, '/').to_owned()
    } else {
        proof {
            reveal_strlit("grpc://");
        }
        let stripped = text::trim_end_matches(text::trim_start_matches(url, "grpc://"), '/');
        let mut base = "http://".to_owned();
        base.append(stripped);
        base
    }
}

impl HttpMetricsClient {
    /// The URL to ask for the server info of a worker.
    pub fn server_info_url(&self, worker_url: &str) -> (url: String)
        ensures
            url@ == info_url_of(worker_url@),
            url@ == base_of(worker_url@) + "/get_server_info"@,
    {
        let mut url = http_base(worker_url);
        url.append("/get_server_info");
        url
    }

    /// What a fetch from `url` comes to, given how the request ended.
    pub fn capacity(&self, url: &str, reply: ServerInfoReply) -> (fetched: Result<
        BackendCapacity,
        String,
    >)
        ensures
            match (reply, fetched) {
                (ServerInfoReply::Info(info), Ok(capacity)) => {
                    &&& capacity.capacity_tokens == info_capacity(info)
                    &&& capacity.model_name == info_model(info)
                },
                (ServerInfoReply::Unreachable(why), Err(message)) => message@ == failure(
                    "connect"@,
                    url@,
                    why@,
                ),
                (ServerInfoReply::Unreadable(why), Err(message)) => message@ == failure(
                    "parse"@,
                    url@,
                    why@,
                ),
                (ServerInfoReply::Refused(status), Err(message)) => message@ == "status "@
                    + status@ + " from "@ + url@,
                _ => false,
            },
    {
        match reply {
            ServerInfoReply::Unreachable(why) => Err(
                join("connect", " ", url, ": ", why.as_str()),
            ),
            ServerInfoReply::Unreadable(why) => Err(join("parse", " ", url, ": ", why.as_str())),
            ServerInfoReply::Refused(status) => {
                let mut message = "status ".to_owned();
                message.append(status.as_str());
                message.append(" from ");
                message.append(url);
                Err(message)
            },
            ServerInfoReply::Info(info) => Ok(read_capacity(info)),
        }
    }
}

/// The capacity snapshot that a reply gives.
pub fn read_capacity(info: GetServerInfoResponse) -> (capacity: BackendCapacity)
    ensures
        capacity.capacity_tokens == info_capacity(info),
        capacity.model_name == info_model(info),
        info.cache_config matches Some(config) ==> match (
            config.total_kv_cache_tokens,
            config.block_size,
            config.num_gpu_blocks,
        ) {
            (Some(total), _, _) => capacity.capacity_tokens == total,
            (None, Some(size), Some(blocks)) => {
                &&& size * blocks <= u64::MAX ==> capacity.capacity_tokens == size * blocks
                &&& size * blocks > u64::MAX ==> capacity.capacity_tokens == u64::MAX
            },
            _ => capacity.capacity_tokens == 0,
        },
        info.cache_config is None ==> capacity.capacity_tokens == 0,
        info.model_config matches Some(config) ==> capacity.model_name == config.model,
        info.model_config is None ==> capacity.model_name is None,
{
    proof {
        if let Some(config) = info.cache_config {
            law_capacity_from_blocks(info, config);
        }
    }
    let capacity_tokens: u64 = match info.cache_config {
        // Prefer the total when the backend exposes it, else derive it from block
        // size and block count.
        Some(config) => match config.total_kv_cache_tokens {
            Some(total) => total,
            None => match (config.block_size, config.num_gpu_blocks) {
                (Some(size), Some(blocks)) => saturating_product(size, blocks),
                _ => 0,
            },
        },
        None => 0,
    };
    let model_name = match info.model_config {
        Some(config) => config.model,
        None => None,
    };
    BackendCapacity { capacity_tokens, model_name }
}

/// A worker URL names a host: something other than slashes stands behind its
/// scheme.
pub open spec fn names_host(url: Seq<char>) -> bool {
    if "http://"@.is_prefix_of(url) {
        text::trim_end(url, '/').len() > "http://"@.len()
    } else if "https://"@.is_prefix_of(url) {
        text::trim_end(url, '/').len() > "https://"@.len()
    } else {
        text::trim_end(text::trim_start(url, "grpc://"@), '/').len() > 0
    }
}

/// The base of a worker URL that names a host is an absolute URL, and no slash
/// stands at its end.
pub proof fn law_base_absolute(url: Seq<char>)
    requires
        names_host(url),
    ensures
        has_http_scheme(base_of(url)),
        base_of(url).last() != '/',
{
    reveal_strlit("http://");
    reveal_strlit("https://");
    text::lemma_trim_end(url, '/');
    let trimmed = text::trim_end(url, '/');
    if "http://"@.is_prefix_of(url) {
        assert("http://"@ =~= trimmed.subrange(0, "http://"@.len() as int));
    } else if "https://"@.is_prefix_of(url) {
        assert("https://"@ =~= trimmed.subrange(0, "https://"@.len() as int));
    } else {
        let rest = text::trim_end(text::trim_start(url, "grpc://"@), '/');
        text::lemma_trim_end(text::trim_start(url, "grpc://"@), '/');
        assert("http://"@ =~= base_of(url).subrange(0, "http://"@.len() as int));
        assert(base_of(url).last() == rest.last());
    }
}

/// Normalizing the base of a worker URL that names a host changes nothing.
pub proof fn law_base_idempotent(url: Seq<char>)
    requires
        names_host(url),
    ensures
        base_of(base_of(url)) == base_of(url),
{
    law_base_absolute(url);
}

/// A total that is given is the capacity, whether block size and block count are
/// given or not.
pub proof fn law_capacity_total(info: GetServerInfoResponse, config: CacheConfig, total: u64)
    requires
        info.cache_config == Some(config),
        config.total_kv_cache_tokens == Some(total),
    ensures
        info_capacity(info) == total,
{
}

/// Without a total the capacity is the product of block size and block count, up
/// to the largest number, where both are given, and zero where one is not.
pub proof fn law_capacity_from_blocks(info: GetServerInfoResponse, config: CacheConfig)
    requires
        info.cache_config == Some(config),
    ensures
        config.total_kv_cache_tokens is None ==> match (config.block_size, config.num_gpu_blocks) {
            (Some(size), Some(blocks)) => {
                &&& size * blocks <= u64::MAX ==> info_capacity(info) == size * blocks
                &&& size * blocks > u64::MAX ==> info_capacity(info) == u64::MAX
            },
            _ => info_capacity(info) == 0,
        },
{
    if let (Some(size), Some(blocks)) = (config.block_size, config.num_gpu_blocks) {
        assert(size * blocks >= 0) by (nonlinear_arith);
    }
}

/// A reply without a cache configuration gives no capacity, and the model is the
/// one that the model configuration names.
pub proof fn law_info_parts(info: GetServerInfoResponse)
    ensures
        info.cache_config is None ==> info_capacity(info) == 0,
        info.model_config is None ==> info_model(info) is None,
        info.model_config matches Some(config) ==> info_model(info) == config.model,
{
}

/// A failed fetch says what failed, for which URL and why.
pub proof fn law_failure_message(what: Seq<char>, url: Seq<char>, why: Seq<char>)
    ensures
        failure(what, url, why) == what + " "@ + url + ": "@ + why,
{
}

/// A URL with an HTTP scheme is its own base, but for the slashes at its end.
pub proof fn law_base_keeps_scheme(base: Seq<char>, slashes: Seq<char>)
    requires
        "http://"@.is_prefix_of(base + slashes) || "https://"@.is_prefix_of(base + slashes),
        base.len() == 0 || base[base.len() - 1] != '/',
        forall|i: int| 0 <= i < slashes.len() ==> slashes[i] == '/',
    ensures
        base_of(base + slashes) == base,
{
    text::law_trim_end(base, slashes, '/');
}

/// A host without a scheme gets the HTTP scheme, and loses the slashes at its
/// end.
pub proof fn law_base_adds_scheme(host: Seq<char>, slashes: Seq<char>)
    requires
        !"http://"@.is_prefix_of(host + slashes),
        !"https://"@.is_prefix_of(host + slashes),
        !"grpc://"@.is_prefix_of(host + slashes),
        host.len() == 0 || host[host.len() - 1] != '/',
        forall|i: int| 0 <= i < slashes.len() ==> slashes[i] == '/',
    ensures
        base_of(host + slashes) == "http://"@ + host,
{
    reveal_strlit("grpc://");
    text::law_trim_start(host + slashes, "grpc://"@);
    text::law_trim_end(host, slashes, '/');
}

/// A gRPC scheme before a URL without an HTTP scheme makes no difference.
pub proof fn law_base_drops_grpc(url: Seq<char>)
    requires
        !"http://"@.is_prefix_of(url),
        !"https://"@.is_prefix_of(url),
    ensures
        base_of("grpc://"@ + url) == base_of(url),
{
    reveal_strlit("grpc://");
    reveal_strlit("http://");
    reveal_strlit("https://");
    let all = "grpc://"@ + url;
    assert(all[0] == 'g');
    assert(!"http://"@.is_prefix_of(all)) by {
        if "http://"@.is_prefix_of(all) {
            assert(all.subrange(0, 7)[0] == 'h');
        }
    }
    assert(!"https://"@.is_prefix_of(all)) by {
        if "https://"@.is_prefix_of(all) {
            assert(all.subrange(0, 8)[0] == 'h');
        }
    }
    text::law_trim_start(url, "grpc://"@);
}

} // verus!
