//! The network-tag grammar of the RPC target: `provider:<id>`,
//! `custom:<url>`, bare `http(s)://` URLs, and the preset tags that pick a
//! built-in provider.

use vstd::prelude::*;
use vstd::string::StringSliceAdditionalSpecFns;
use crate::errors::RelayError;
use crate::hexfmt::{bytes_to_string, spec_str_matches_bytes, spec_trim_ascii, trim_ascii};

verus! {

/// The JSON-RPC backend a network tag names.
pub enum RpcService {
    Provider(u64),
    Custom { url: String },
    EthMainnetPublicNode,
    EthSepoliaPublicNode,
    ArbitrumOnePublicNode,
    BaseMainnetPublicNode,
    OptimismMainnetPublicNode,
}

/// The bytes of `provider:`.
pub open spec fn spec_provider_prefix() -> Seq<u8> {
    seq![0x70u8, 0x72u8, 0x6fu8, 0x76u8, 0x69u8, 0x64u8, 0x65u8, 0x72u8, 0x3au8]
}

/// The bytes of `custom:`.
pub open spec fn spec_custom_prefix() -> Seq<u8> {
    seq![0x63u8, 0x75u8, 0x73u8, 0x74u8, 0x6fu8, 0x6du8, 0x3au8]
}

/// The bytes of `http://`.
pub open spec fn spec_http_prefix() -> Seq<u8> {
    seq![0x68u8, 0x74u8, 0x74u8, 0x70u8, 0x3au8, 0x2fu8, 0x2fu8]
}

/// The bytes of `https://`.
pub open spec fn spec_https_prefix() -> Seq<u8> {
    seq![0x68u8, 0x74u8, 0x74u8, 0x70u8, 0x73u8, 0x3au8, 0x2fu8, 0x2fu8]
}

/// The bytes of `polygon-amoy`.
pub open spec fn spec_tag_polygon_amoy() -> Seq<u8> {
    seq![0x70u8, 0x6fu8, 0x6cu8, 0x79u8, 0x67u8, 0x6fu8, 0x6eu8, 0x2du8, 0x61u8, 0x6du8, 0x6fu8,
        0x79u8]
}

/// The bytes of `polygon-mainnet`.
pub open spec fn spec_tag_polygon_mainnet() -> Seq<u8> {
    seq![0x70u8, 0x6fu8, 0x6cu8, 0x79u8, 0x67u8, 0x6fu8, 0x6eu8, 0x2du8, 0x6du8, 0x61u8, 0x69u8,
        0x6eu8, 0x6eu8, 0x65u8, 0x74u8]
}

/// The bytes of `eth-mainnet`.
pub open spec fn spec_tag_eth_mainnet() -> Seq<u8> {
    seq![0x65u8, 0x74u8, 0x68u8, 0x2du8, 0x6du8, 0x61u8, 0x69u8, 0x6eu8, 0x6eu8, 0x65u8, 0x74u8]
}

/// The bytes of `eth-sepolia`.
pub open spec fn spec_tag_eth_sepolia() -> Seq<u8> {
    seq![0x65u8, 0x74u8, 0x68u8, 0x2du8, 0x73u8, 0x65u8, 0x70u8, 0x6fu8, 0x6cu8, 0x69u8, 0x61u8]
}

/// The bytes of `arbitrum-one`.
pub open spec fn spec_tag_arbitrum_one() -> Seq<u8> {
    seq![0x61u8, 0x72u8, 0x62u8, 0x69u8, 0x74u8, 0x72u8, 0x75u8, 0x6du8, 0x2du8, 0x6fu8, 0x6eu8,
        0x65u8]
}

/// The bytes of `base-mainnet`.
pub open spec fn spec_tag_base_mainnet() -> Seq<u8> {
    seq![0x62u8, 0x61u8, 0x73u8, 0x65u8, 0x2du8, 0x6du8, 0x61u8, 0x69u8, 0x6eu8, 0x6eu8, 0x65u8,
        0x74u8]
}

/// The bytes of `optimism-mainnet`.
pub open spec fn spec_tag_optimism_mainnet() -> Seq<u8> {
    seq![0x6fu8, 0x70u8, 0x74u8, 0x69u8, 0x6du8, 0x69u8, 0x73u8, 0x6du8, 0x2du8, 0x6du8, 0x61u8,
        0x69u8, 0x6eu8, 0x6eu8, 0x65u8, 0x74u8]
}

/// The numeric value of a string of decimal digit bytes.
pub open spec fn spec_dec_val(s: Seq<u8>) -> nat
    decreases s.len(),
{
    if s.len() == 0 {
        0
    } else {
        spec_dec_val(s.drop_last()) * 10 + (s.last() - 48) as nat
    }
}

/// Whether every byte is a decimal digit.
pub open spec fn spec_all_digits(s: Seq<u8>) -> bool {
    forall|i: int| 0 <= i < s.len() ==> 48 <= #[trigger] s[i] <= 57
}

/// What `str::parse::<u64>` accepts: an optional `+`, then digits whose
/// value fits 64 bits.
pub open spec fn spec_parse_u64(s: Seq<u8>) -> Option<u64> {
    let body = if s.len() > 0 && s[0] == 0x2b {
        s.drop_first()
    } else {
        s
    };
    if body.len() == 0 || !spec_all_digits(body) || spec_dec_val(body) > u64::MAX {
        None
    } else {
        Some(spec_dec_val(body) as u64)
    }
}

proof fn lemma_dec_val_monotone(s: Seq<u8>, i: int)
    requires
        0 <= i <= s.len(),
    ensures
        spec_dec_val(s.take(i)) <= spec_dec_val(s),
    decreases s.len() - i,
{
    if i < s.len() {
        lemma_dec_val_monotone(s, i + 1);
        assert(s.take(i + 1).drop_last() =~= s.take(i));
        assert(spec_dec_val(s.take(i + 1)) == spec_dec_val(s.take(i)) * 10 + (s.take(
            i + 1,
        ).last() - 48) as nat);
        assert(spec_dec_val(s.take(i)) * 10 >= spec_dec_val(s.take(i))) by (nonlinear_arith);
    } else {
        assert(s.take(i) =~= s);
    }
}

/// Parses decimal digit bytes (with an optional `+`) as `str::parse::<u64>`
/// does.
#[verifier::loop_isolation(false)]
pub fn parse_u64_bytes(s: &[u8]) -> (r: Option<u64>)
    ensures
        r == spec_parse_u64(s@),
{
    let start: usize = if s.len() > 0 && s[0] == 0x2b {
        1
    } else {
        0
    };
    let ghost body = if s@.len() > 0 && s@[0] == 0x2b {
        s@.drop_first()
    } else {
        s@
    };
    proof {
        assert(body =~= s@.subrange(start as int, s@.len() as int));
    }
    if start == s.len() {
        return None;
    }
    let mut acc: u64 = 0;
    let mut i: usize = start;
    while i < s.len()
        invariant
            start <= i <= s@.len(),
            body == s@.subrange(start as int, s@.len() as int),
            spec_all_digits(body.take(i - start)),
            acc == spec_dec_val(body.take(i - start)),
        decreases s@.len() - i,
    {
        let b = s[i];
        if b < 48 || b > 57 {
            proof {
                assert(body[i - start] == b);
                assert(!spec_all_digits(body));
            }
            return None;
        }
        let d = (b - 48) as u64;
        if acc > (u64::MAX - d) / 10 {
            proof {
                assert(body.take(i - start + 1).drop_last() =~= body.take(i - start));
                assert(body.take(i - start + 1).last() == b);
                assert(spec_dec_val(body.take(i - start + 1)) == acc * 10 + d);
                assert(acc * 10 + d > u64::MAX) by (nonlinear_arith)
                    requires
                        acc > (u64::MAX - d) / 10,
                        d <= 9,
                        acc <= u64::MAX,
                ;
                lemma_dec_val_monotone(body, i - start + 1);
            }
            return None;
        }
        proof {
            assert(acc * 10 + d <= u64::MAX) by (nonlinear_arith)
                requires
                    acc <= (u64::MAX - d) / 10,
                    d <= 9,
            ;
            assert(body.take(i - start + 1).drop_last() =~= body.take(i - start));
            assert(body.take(i - start + 1).last() == b);
        }
        acc = acc * 10 + d;
        i = i + 1;
    }
    proof {
        assert(body.take(s@.len() - start) =~= body);
    }
    Some(acc)
}

fn starts_with_bytes(s: &[u8], prefix: &[u8]) -> (r: bool)
    ensures
        r == (s@.len() >= prefix@.len() && s@.take(prefix@.len() as int) == prefix@),
{
    if s.len() < prefix.len() {
        return false;
    }
    let mut i: usize = 0;
    while i < prefix.len()
        invariant
            i <= prefix@.len() <= s@.len(),
            forall|j: int| 0 <= j < i ==> s@[j] == prefix@[j],
        decreases prefix@.len() - i,
    {
        if s[i] != prefix[i] {
            proof {
                assert(s@.take(prefix@.len() as int)[i as int] != prefix@[i as int]);
            }
            return false;
        }
        i = i + 1;
    }
    proof {
        assert(s@.take(prefix@.len() as int) =~= prefix@);
    }
    true
}

fn bytes_are(s: &[u8], expected: &[u8]) -> (r: bool)
    ensures
        r == (s@ == expected@),
{
    if s.len() != expected.len() {
        proof {
            assert(s@.len() != expected@.len());
        }
        return false;
    }
    let mut i: usize = 0;
    while i < s.len()
        invariant
            i <= s@.len(),
            s@.len() == expected@.len(),
            forall|j: int| 0 <= j < i ==> s@[j] == expected@[j],
        decreases s@.len() - i,
    {
        if s[i] != expected[i] {
            return false;
        }
        i = i + 1;
    }
    proof {
        assert(s@ =~= expected@);
    }
    true
}

fn sub_bytes(s: &[u8], from: usize) -> (out: Vec<u8>)
    requires
        from <= s@.len(),
    ensures
        out@ == s@.skip(from as int),
{
    let mut out: Vec<u8> = Vec::new();
    let mut i: usize = from;
    while i < s.len()
        invariant
            from <= i <= s@.len(),
            out@ == s@.subrange(from as int, i as int),
        decreases s@.len() - i,
    {
        out.push(s[i]);
        proof {
            assert(s@.subrange(from as int, i as int) + seq![s@[i as int]] =~= s@.subrange(
                from as int,
                i + 1,
            ));
        }
        i = i + 1;
    }
    proof {
        assert(out@ =~= s@.skip(from as int));
    }
    out
}

/// The trimmed tag after `provider:`, itself trimmed.
pub open spec fn spec_provider_rest(t: Seq<u8>) -> Seq<u8> {
    spec_trim_ascii(t.skip(spec_provider_prefix().len() as int))
}

/// The trimmed tag after `custom:`, itself trimmed.
pub open spec fn spec_custom_rest(t: Seq<u8>) -> Seq<u8> {
    spec_trim_ascii(t.skip(spec_custom_prefix().len() as int))
}

/// Whether the trimmed tag begins with the given prefix.
pub open spec fn spec_has_prefix(t: Seq<u8>, prefix: Seq<u8>) -> bool {
    t.len() >= prefix.len() && t.take(prefix.len() as int) == prefix
}

/// Resolves a network tag to the backend it names. `provider:<id>` picks a
/// numbered provider; `custom:<url>` and bare `http(s)://` URLs pass
/// through; the polygon presets resolve to their public endpoints; the
/// other presets pick the PublicNode service of their chain. An empty tag,
/// a bad provider id, an empty custom URL and an unknown tag are refused
/// as missing configuration. Trimming covers ASCII whitespace only.
pub fn resolve_rpc_service(network: &str) -> (r: Result<RpcService, RelayError>)
    ensures
        ({
            let t = spec_trim_ascii(network.spec_bytes());
            match r {
                Ok(svc) => match svc {
                    RpcService::Provider(id) => spec_has_prefix(t, spec_provider_prefix())
                        && spec_parse_u64(spec_provider_rest(t)) == Some(id),
                    RpcService::Custom { url } => {
                        ||| spec_has_prefix(t, spec_custom_prefix()) && spec_custom_rest(t).len()
                            > 0 && spec_str_matches_bytes(url@, spec_custom_rest(t))
                        ||| !spec_has_prefix(t, spec_custom_prefix()) && !spec_has_prefix(
                            t,
                            spec_provider_prefix(),
                        ) && (spec_has_prefix(t, spec_http_prefix()) || spec_has_prefix(
                            t,
                            spec_https_prefix(),
                        )) && spec_str_matches_bytes(url@, t)
                        ||| t == spec_tag_polygon_amoy() && url@
                            == "https://rpc-amoy.polygon.technology"@
                        ||| t == spec_tag_polygon_mainnet() && url@ == "https://polygon-rpc.com"@
                    },
                    RpcService::EthMainnetPublicNode => t == spec_tag_eth_mainnet(),
                    RpcService::EthSepoliaPublicNode => t == spec_tag_eth_sepolia(),
                    RpcService::ArbitrumOnePublicNode => t == spec_tag_arbitrum_one(),
                    RpcService::BaseMainnetPublicNode => t == spec_tag_base_mainnet(),
                    RpcService::OptimismMainnetPublicNode => t == spec_tag_optimism_mainnet(),
                },
                Err(e) => (e matches RelayError::ConfigurationMissing { .. }) && {
                    ||| t.len() == 0
                    ||| spec_has_prefix(t, spec_provider_prefix()) && spec_parse_u64(
                        spec_provider_rest(t),
                    ) is None
                    ||| spec_has_prefix(t, spec_custom_prefix()) && spec_custom_rest(t).len() == 0
                    ||| t.len() > 0 && !spec_has_prefix(t, spec_provider_prefix())
                        && !spec_has_prefix(t, spec_custom_prefix()) && !spec_has_prefix(
                        t,
                        spec_http_prefix(),
                    ) && !spec_has_prefix(t, spec_https_prefix()) && t != spec_tag_polygon_amoy()
                        && t != spec_tag_polygon_mainnet() && t != spec_tag_eth_mainnet() && t
                        != spec_tag_eth_sepolia() && t != spec_tag_arbitrum_one() && t
                        != spec_tag_base_mainnet() && t != spec_tag_optimism_mainnet()
                },
            }
        }),
{
    let trimmed = trim_ascii(network.as_bytes());
    if trimmed.len() == 0 {
        return Err(
            RelayError::ConfigurationMissing { field: String::from_str("rpc_target.network") },
        );
    }
    let provider_prefix: Vec<u8> = vec![0x70, 0x72, 0x6f, 0x76, 0x69, 0x64, 0x65, 0x72, 0x3a];
    proof {
        assert(provider_prefix@ =~= spec_provider_prefix());
    }
    if starts_with_bytes(trimmed.as_slice(), provider_prefix.as_slice()) {
        let rest = sub_bytes(trimmed.as_slice(), provider_prefix.len());
        let rest_trimmed = trim_ascii(rest.as_slice());
        match parse_u64_bytes(rest_trimmed.as_slice()) {
            Some(id) => {
                return Ok(RpcService::Provider(id));
            },
            None => {
                let mut msg = String::from_str("invalid provider id '");
                msg.append(bytes_to_string(rest).as_str());
                msg.append("'");
                return Err(RelayError::ConfigurationMissing { field: msg });
            },
        }
    }
    let custom_prefix: Vec<u8> = vec![0x63, 0x75, 0x73, 0x74, 0x6f, 0x6d, 0x3a];
    proof {
        assert(custom_prefix@ =~= spec_custom_prefix());
    }
    if starts_with_bytes(trimmed.as_slice(), custom_prefix.as_slice()) {
        let rest = sub_bytes(trimmed.as_slice(), custom_prefix.len());
        let url_bytes = trim_ascii(rest.as_slice());
        if url_bytes.len() == 0 {
            return Err(
                RelayError::ConfigurationMissing {
                    field: String::from_str("rpc_target.network (custom url)"),
                },
            );
        }
        return Ok(RpcService::Custom { url: bytes_to_string(url_bytes) });
    }
    let http_prefix: Vec<u8> = vec![0x68, 0x74, 0x74, 0x70, 0x3a, 0x2f, 0x2f];
    let https_prefix: Vec<u8> = vec![0x68, 0x74, 0x74, 0x70, 0x73, 0x3a, 0x2f, 0x2f];
    proof {
        assert(http_prefix@ =~= spec_http_prefix());
        assert(https_prefix@ =~= spec_https_prefix());
    }
    if starts_with_bytes(trimmed.as_slice(), http_prefix.as_slice()) || starts_with_bytes(
        trimmed.as_slice(),
        https_prefix.as_slice(),
    ) {
        return Ok(RpcService::Custom { url: bytes_to_string(trimmed) });
    }
    let tag: Vec<u8> = vec![0x70, 0x6f, 0x6c, 0x79, 0x67, 0x6f, 0x6e, 0x2d, 0x61, 0x6d, 0x6f,
        0x79];
    proof {
        assert(tag@ =~= spec_tag_polygon_amoy());
    }
    if bytes_are(trimmed.as_slice(), tag.as_slice()) {
        return Ok(
            RpcService::Custom { url: String::from_str("https://rpc-amoy.polygon.technology") },
        );
    }
    let tag: Vec<u8> = vec![0x70, 0x6f, 0x6c, 0x79, 0x67, 0x6f, 0x6e, 0x2d, 0x6d, 0x61, 0x69,
        0x6e, 0x6e, 0x65, 0x74];
    proof {
        assert(tag@ =~= spec_tag_polygon_mainnet());
    }
    if bytes_are(trimmed.as_slice(), tag.as_slice()) {
        return Ok(RpcService::Custom { url: String::from_str("https://polygon-rpc.com") });
    }
    let tag: Vec<u8> = vec![0x65, 0x74, 0x68, 0x2d, 0x6d, 0x61, 0x69, 0x6e, 0x6e, 0x65, 0x74];
    proof {
        assert(tag@ =~= spec_tag_eth_mainnet());
    }
    if bytes_are(trimmed.as_slice(), tag.as_slice()) {
        return Ok(RpcService::EthMainnetPublicNode);
    }
    let tag: Vec<u8> = vec![0x65, 0x74, 0x68, 0x2d, 0x73, 0x65, 0x70, 0x6f, 0x6c, 0x69, 0x61];
    proof {
        assert(tag@ =~= spec_tag_eth_sepolia());
    }
    if bytes_are(trimmed.as_slice(), tag.as_slice()) {
        return Ok(RpcService::EthSepoliaPublicNode);
    }
    let tag: Vec<u8> = vec![0x61, 0x72, 0x62, 0x69, 0x74, 0x72, 0x75, 0x6d, 0x2d, 0x6f, 0x6e,
        0x65];
    proof {
        assert(tag@ =~= spec_tag_arbitrum_one());
    }
    if bytes_are(trimmed.as_slice(), tag.as_slice()) {
        return Ok(RpcService::ArbitrumOnePublicNode);
    }
    let tag: Vec<u8> = vec![0x62, 0x61, 0x73, 0x65, 0x2d, 0x6d, 0x61, 0x69, 0x6e, 0x6e, 0x65,
        0x74];
    proof {
        assert(tag@ =~= spec_tag_base_mainnet());
    }
    if bytes_are(trimmed.as_slice(), tag.as_slice()) {
        return Ok(RpcService::BaseMainnetPublicNode);
    }
    let tag: Vec<u8> = vec![0x6f, 0x70, 0x74, 0x69, 0x6d, 0x69, 0x73, 0x6d, 0x2d, 0x6d, 0x61,
        0x69, 0x6e, 0x6e, 0x65, 0x74];
    proof {
        assert(tag@ =~= spec_tag_optimism_mainnet());
    }
    if bytes_are(trimmed.as_slice(), tag.as_slice()) {
        return Ok(RpcService::OptimismMainnetPublicNode);
    }
    let mut msg = String::from_str("unsupported rpc network: ");
    msg.append(bytes_to_string(trimmed).as_str());
    Err(RelayError::ConfigurationMissing { field: msg })
}

} // verus!
