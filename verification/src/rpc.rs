//! JSON-RPC 2.0 framing with monotonic ids, interpretation of response
//! bodies, and normalisation of the transport's failure variants.

use vstd::prelude::*;
use crate::bignum::BigNum;
use crate::errors::{append_dec, amount_string, RelayError, spec_amount_chars, spec_dec_chars};

verus! {

/// What the injected transport hands back: a response body, or one of its
/// structured failure variants.
pub enum RequestOutcome {
    Body(String),
    Failed(RpcFailure),
}

/// The transport's failure variants.
pub enum RpcFailure {
    JsonRpc { code: i64, message: String },
    Provider(ProviderFailure),
    Validation(ValidationFailure),
    HttpOutcall(HttpOutcallFailure),
}

pub enum ProviderFailure {
    TooFewCycles { expected: BigNum, received: BigNum },
    MissingRequiredProvider,
    ProviderNotFound,
    NoPermission,
    InvalidRpcConfig(String),
}

pub enum ValidationFailure {
    Custom(String),
    InvalidHex(String),
}

pub enum HttpOutcallFailure {
    IcError { code: RejectionKind, message: String },
    InvalidHttpJsonRpcResponse { status: u16, body: String, parsing_error: Option<String> },
}

#[derive(PartialEq, Eq, Structural)]
pub enum RejectionKind {
    NoError,
    CanisterError,
    SysTransient,
    DestinationInvalid,
    Unknown,
    SysFatal,
    CanisterReject,
}

/// The debug name of a rejection kind.
pub open spec fn spec_rejection_chars(k: RejectionKind) -> Seq<char> {
    match k {
        RejectionKind::NoError => "NoError"@,
        RejectionKind::CanisterError => "CanisterError"@,
        RejectionKind::SysTransient => "SysTransient"@,
        RejectionKind::DestinationInvalid => "DestinationInvalid"@,
        RejectionKind::Unknown => "Unknown"@,
        RejectionKind::SysFatal => "SysFatal"@,
        RejectionKind::CanisterReject => "CanisterReject"@,
    }
}

pub fn rejection_string(k: &RejectionKind) -> (r: String)
    ensures
        r@ == spec_rejection_chars(*k),
{
    match k {
        RejectionKind::NoError => String::from_str("NoError"),
        RejectionKind::CanisterError => String::from_str("CanisterError"),
        RejectionKind::SysTransient => String::from_str("SysTransient"),
        RejectionKind::DestinationInvalid => String::from_str("DestinationInvalid"),
        RejectionKind::Unknown => String::from_str("Unknown"),
        RejectionKind::SysFatal => String::from_str("SysFatal"),
        RejectionKind::CanisterReject => String::from_str("CanisterReject"),
    }
}

/// The description of a provider failure.
pub open spec fn spec_provider_chars(e: ProviderFailure) -> Seq<char> {
    match e {
        ProviderFailure::TooFewCycles { expected, received } => "too few cycles: expected "@
            + spec_amount_chars(expected.bytes@) + ", received "@ + spec_amount_chars(
            received.bytes@,
        ),
        ProviderFailure::MissingRequiredProvider => "missing required provider"@,
        ProviderFailure::ProviderNotFound => "provider not found"@,
        ProviderFailure::NoPermission => "no permission to use provider"@,
        ProviderFailure::InvalidRpcConfig(config) => "invalid rpc config: "@ + config@,
    }
}

pub fn describe_provider_error(err: &ProviderFailure) -> (r: String)
    ensures
        r@ == spec_provider_chars(*err),
{
    match err {
        ProviderFailure::TooFewCycles { expected, received } => {
            let mut s = String::from_str("too few cycles: expected ");
            let e = amount_string(expected);
            s.append(e.as_str());
            s.append(", received ");
            let g = amount_string(received);
            s.append(g.as_str());
            s
        },
        ProviderFailure::MissingRequiredProvider => String::from_str("missing required provider"),
        ProviderFailure::ProviderNotFound => String::from_str("provider not found"),
        ProviderFailure::NoPermission => String::from_str("no permission to use provider"),
        ProviderFailure::InvalidRpcConfig(config) => {
            let mut s = String::from_str("invalid rpc config: ");
            s.append(config.as_str());
            s
        },
    }
}

/// The description of a validation failure.
pub open spec fn spec_validation_chars(e: ValidationFailure) -> Seq<char> {
    match e {
        ValidationFailure::Custom(msg) => msg@,
        ValidationFailure::InvalidHex(value) => "invalid hex value: "@ + value@,
    }
}

pub fn describe_validation_error(err: &ValidationFailure) -> (r: String)
    ensures
        r@ == spec_validation_chars(*err),
{
    match err {
        ValidationFailure::Custom(msg) => msg.clone(),
        ValidationFailure::InvalidHex(value) => {
            let mut s = String::from_str("invalid hex value: ");
            s.append(value.as_str());
            s
        },
    }
}

/// The description of an HTTP outcall failure.
pub open spec fn spec_http_outcall_chars(e: HttpOutcallFailure) -> Seq<char> {
    match e {
        HttpOutcallFailure::IcError { code, message } => "ic error "@ + spec_rejection_chars(code)
            + ": "@ + message@,
        HttpOutcallFailure::InvalidHttpJsonRpcResponse { status, body, parsing_error } => {
            let parsing = match parsing_error {
                Some(p) => ", parsing_error: "@ + p@,
                None => Seq::<char>::empty(),
            };
            "invalid http json rpc response (status "@ + spec_dec_chars(status as nat) + parsing
                + "), body: "@ + body@
        },
    }
}

pub fn describe_http_outcall_error(err: &HttpOutcallFailure) -> (r: String)
    ensures
        r@ == spec_http_outcall_chars(*err),
{
    match err {
        HttpOutcallFailure::IcError { code, message } => {
            let mut s = String::from_str("ic error ");
            let c = rejection_string(code);
            s.append(c.as_str());
            s.append(": ");
            s.append(message.as_str());
            s
        },
        HttpOutcallFailure::InvalidHttpJsonRpcResponse { status, body, parsing_error } => {
            let mut s = String::from_str("invalid http json rpc response (status ");
            append_dec(&mut s, *status as u64);
            match parsing_error {
                Some(p) => {
                    s.append(", parsing_error: ");
                    s.append(p.as_str());
                },
                None => {},
            }
            s.append("), body: ");
            s.append(body.as_str());
            s
        },
    }
}

/// The relay error each transport failure maps to: node-level JSON-RPC
/// errors keep their code, validation failures become node errors with
/// code `-32000`, and everything below the JSON-RPC layer becomes a
/// transport error.
pub fn relay_error_from_rpc_failure(err: RpcFailure) -> (r: RelayError)
    ensures
        match err {
            RpcFailure::JsonRpc { code, message } => r == RelayError::RpcError { code, message },
            RpcFailure::Provider(p) => r matches RelayError::RpcTransportError { code, message }
                && code@ == "ProviderError"@ && message@ == spec_provider_chars(p),
            RpcFailure::Validation(v) => r matches RelayError::RpcError { code, message } && code
                == -32000 && message@ == spec_validation_chars(v),
            RpcFailure::HttpOutcall(h) => r matches RelayError::RpcTransportError {
                code,
                message,
            } && code@ == "HttpOutcallError"@ && message@ == spec_http_outcall_chars(h),
        },
{
    match err {
        RpcFailure::JsonRpc { code, message } => RelayError::RpcError { code, message },
        RpcFailure::Provider(provider) => RelayError::RpcTransportError {
            code: String::from_str("ProviderError"),
            message: describe_provider_error(&provider),
        },
        RpcFailure::Validation(validation) => RelayError::RpcError {
            code: -32000,
            message: describe_validation_error(&validation),
        },
        RpcFailure::HttpOutcall(http) => RelayError::RpcTransportError {
            code: String::from_str("HttpOutcallError"),
            message: describe_http_outcall_error(&http),
        },
    }
}

/// The next correlation id: the counter's value, which then advances,
/// wrapping at the top like the fetch-and-add it stands for.
pub fn next_json_rpc_id(counter: &mut u64) -> (r: u64)
    ensures
        r == *old(counter),
        *final(counter) == if *old(counter) == u64::MAX {
            0u64
        } else {
            (*old(counter) + 1) as u64
        },
{
    let id = *counter;
    if id == u64::MAX {
        *counter = 0;
    } else {
        *counter = id + 1;
    }
    id
}

/// Whether the body parses as a JSON document. serde_json's `from_str`
/// is deterministic in the text, so this is a function of the body alone.
pub uninterp spec fn spec_body_parses(body: Seq<char>) -> bool;

/// Whether the parsed document carries an `error` member
/// (serde_json's `Value::get("error")` finds one).
pub uninterp spec fn spec_body_has_error(body: Seq<char>) -> bool;

/// The error object's `code` as an integer (serde_json's `Value::as_i64`),
/// where there is one.
pub uninterp spec fn spec_error_code_of(body: Seq<char>) -> Option<i64>;

/// The error object's `message` as text (serde_json's `Value::as_str`),
/// where there is one.
pub uninterp spec fn spec_error_message_of(body: Seq<char>) -> Option<Seq<char>>;

/// Whether the parsed document carries a `result` member.
pub uninterp spec fn spec_body_has_result(body: Seq<char>) -> bool;

/// The `result` member's text, where it is a JSON string.
pub uninterp spec fn spec_result_str_of(body: Seq<char>) -> Option<Seq<char>>;

/// Whether the `result` member is a JSON object.
pub uninterp spec fn spec_result_is_object_of(body: Seq<char>) -> bool;

/// The text of the `result` object's `baseFeePerGas` member, where it is
/// a JSON string.
pub uninterp spec fn spec_base_fee_of(body: Seq<char>) -> Option<Seq<char>>;

/// Relies on serde_json's `from_str`: whether a body parses depends on
/// the text alone; the parse error's display form comes back on failure.
#[verifier::external_body]
fn scan_parse(body: &str) -> (r: Option<String>)
    ensures
        r is None <==> spec_body_parses(body@),
{
    serde_json::from_str::<serde_json::Value>(body).err().map(|e| e.to_string())
}

/// Relies on serde_json's `from_str`, `Value::get`, `Value::as_i64` and
/// `Value::as_str`: the error object's presence, code and message are
/// functions of the body alone.
#[verifier::external_body]
fn scan_error_object(body: &str) -> (r: (bool, Option<i64>, Option<String>))
    requires
        spec_body_parses(body@),
    ensures
        r.0 == spec_body_has_error(body@),
        r.1 == spec_error_code_of(body@),
        r.2 is Some <==> spec_error_message_of(body@) is Some,
        r.2 matches Some(m) ==> spec_error_message_of(body@) == Some(m@),
{
    let v: serde_json::Value = match serde_json::from_str(body) {
        Ok(v) => v,
        Err(_) => return (false, None, None),
    };
    match v.get("error") {
        Some(e) => (true, e.get("code").and_then(serde_json::Value::as_i64),
            e.get("message").and_then(serde_json::Value::as_str).map(str::to_string)),
        None => (false, None, None),
    }
}

/// Relies on serde_json's `from_str`, `Value::get` and `Value::as_str`:
/// the result member's presence and text are functions of the body alone.
#[verifier::external_body]
fn scan_result_string(body: &str) -> (r: (bool, Option<String>))
    requires
        spec_body_parses(body@),
    ensures
        r.0 == spec_body_has_result(body@),
        r.1 is Some <==> spec_result_str_of(body@) is Some,
        r.1 matches Some(s) ==> spec_result_str_of(body@) == Some(s@),
{
    let v: serde_json::Value = match serde_json::from_str(body) {
        Ok(v) => v,
        Err(_) => return (false, None),
    };
    match v.get("result") {
        Some(res) => (true, res.as_str().map(str::to_string)),
        None => (false, None),
    }
}

/// Relies on serde_json's `from_str`, `Value::get`, `Value::is_object`
/// and `Value::as_str`: the block object's shape and its `baseFeePerGas`
/// text are functions of the body alone.
#[verifier::external_body]
fn scan_result_base_fee(body: &str) -> (r: (bool, bool, Option<String>))
    requires
        spec_body_parses(body@),
    ensures
        r.0 == spec_body_has_result(body@),
        r.1 == spec_result_is_object_of(body@),
        r.2 is Some <==> spec_base_fee_of(body@) is Some,
        r.2 matches Some(s) ==> spec_base_fee_of(body@) == Some(s@),
{
    let v: serde_json::Value = match serde_json::from_str(body) {
        Ok(v) => v,
        Err(_) => return (false, false, None),
    };
    match v.get("result") {
        Some(res) => (true, res.is_object(),
            res.get("baseFeePerGas").and_then(serde_json::Value::as_str).map(str::to_string)),
        None => (false, false, None),
    }
}

/// The code a node error surfaces: the error object's, or `-32000`.
pub open spec fn spec_rpc_error_code(body: Seq<char>) -> i64 {
    match spec_error_code_of(body) {
        Some(c) => c,
        None => -32000i64,
    }
}

/// The message a node error surfaces: the error object's, or
/// `unknown error`.
pub open spec fn spec_rpc_error_message(body: Seq<char>) -> Seq<char> {
    match spec_error_message_of(body) {
        Some(m) => m,
        None => "unknown error"@,
    }
}

/// A well-formed success response whose result is a string: it parses,
/// carries no error object, and its `result` member is present and is a
/// JSON string.
pub open spec fn spec_ok_string_body(body: Seq<char>) -> bool {
    &&& spec_body_parses(body)
    &&& !spec_body_has_error(body)
    &&& spec_body_has_result(body)
    &&& spec_result_str_of(body) is Some
}

/// A well-formed block-header response: it parses, carries no error
/// object, and its `result` is an object whose `baseFeePerGas` is a
/// string.
pub open spec fn spec_ok_base_fee_body(body: Seq<char>) -> bool {
    &&& spec_body_parses(body)
    &&& !spec_body_has_error(body)
    &&& spec_body_has_result(body)
    &&& spec_result_is_object_of(body)
    &&& spec_base_fee_of(body) is Some
}

/// The node error assembled from what the error object carried: the code
/// defaults to `-32000`, the message to `unknown error`.
pub fn rpc_error_from_fields(code: Option<i64>, message: Option<String>) -> (r: RelayError)
    ensures
        r matches RelayError::RpcError { code: c, message: m } && c == (match code {
            Some(c0) => c0,
            None => -32000i64,
        }) && m@ == (match message {
            Some(m0) => m0@,
            None => "unknown error"@,
        }),
{
    let c = match code {
        Some(c0) => c0,
        None => -32000,
    };
    let m = match message {
        Some(m0) => m0,
        None => String::from_str("unknown error"),
    };
    RelayError::RpcError { code: c, message: m }
}

/// Interprets a JSON-RPC response body whose result must be a string
/// (every quantity and hash comes back that way): `Ok` exactly when the
/// body parses, holds no error object, and its result is a string. A
/// non-JSON body is a `JsonError`; an error object surfaces as `RpcError`
/// with its code and message (defaulted when absent); a missing result is
/// `RpcResultTypeMismatch` naming `result`, a non-string one names
/// `expected`.
pub fn rpc_result_string(body: &str, expected: &str) -> (r: Result<String, RelayError>)
    ensures
        match r {
            Ok(s) => spec_ok_string_body(body@) && spec_result_str_of(body@) == Some(s@),
            Err(e) => {
                ||| !spec_body_parses(body@) && (e matches RelayError::JsonError { .. })
                ||| spec_body_parses(body@) && spec_body_has_error(body@) && (e
                    matches RelayError::RpcError { code, message } && code == spec_rpc_error_code(
                    body@,
                ) && message@ == spec_rpc_error_message(body@))
                ||| spec_body_parses(body@) && !spec_body_has_error(body@)
                    && !spec_body_has_result(body@) && (e
                    matches RelayError::RpcResultTypeMismatch { expected: ex } && ex@
                    == "result"@)
                ||| spec_body_parses(body@) && !spec_body_has_error(body@)
                    && spec_body_has_result(body@) && spec_result_str_of(body@) is None && (e
                    matches RelayError::RpcResultTypeMismatch { expected: ex } && ex@
                    == expected@)
            },
        },
{
    match scan_parse(body) {
        Some(message) => {
            return Err(RelayError::JsonError { message });
        },
        None => {},
    }
    let (has_error, code, message) = scan_error_object(body);
    if has_error {
        return Err(rpc_error_from_fields(code, message));
    }
    let (has_result, text) = scan_result_string(body);
    if !has_result {
        return Err(RelayError::RpcResultTypeMismatch { expected: String::from_str("result") });
    }
    match text {
        Some(s) => Ok(s),
        None => Err(RelayError::RpcResultTypeMismatch { expected: expected.to_owned() }),
    }
}

/// Interprets a JSON-RPC response body that carries no payload the
/// pipeline reads (the simulation call): `Ok` exactly when the body
/// parses, holds no error object, and has a result member.
pub fn rpc_result_ok(body: &str) -> (r: Result<(), RelayError>)
    ensures
        r is Ok <==> spec_body_parses(body@) && !spec_body_has_error(body@)
            && spec_body_has_result(body@),
        r matches Err(e) ==> {
            ||| !spec_body_parses(body@) && (e matches RelayError::JsonError { .. })
            ||| spec_body_parses(body@) && spec_body_has_error(body@) && (e
                matches RelayError::RpcError { code, message } && code == spec_rpc_error_code(
                body@,
            ) && message@ == spec_rpc_error_message(body@))
            ||| spec_body_parses(body@) && !spec_body_has_error(body@)
                && !spec_body_has_result(body@) && (e
                matches RelayError::RpcResultTypeMismatch { expected: ex } && ex@ == "result"@)
        },
{
    match scan_parse(body) {
        Some(message) => {
            return Err(RelayError::JsonError { message });
        },
        None => {},
    }
    let (has_error, code, message) = scan_error_object(body);
    if has_error {
        return Err(rpc_error_from_fields(code, message));
    }
    let (has_result, _) = scan_result_string(body);
    if !has_result {
        return Err(RelayError::RpcResultTypeMismatch { expected: String::from_str("result") });
    }
    Ok(())
}

/// Interprets an `eth_getBlockByNumber` response body: `Ok` exactly when
/// the body parses, holds no error object, and its result is a block
/// object whose `baseFeePerGas` is a string.
pub fn rpc_result_base_fee(body: &str) -> (r: Result<String, RelayError>)
    ensures
        match r {
            Ok(s) => spec_ok_base_fee_body(body@) && spec_base_fee_of(body@) == Some(s@),
            Err(e) => {
                ||| !spec_body_parses(body@) && (e matches RelayError::JsonError { .. })
                ||| spec_body_parses(body@) && spec_body_has_error(body@) && (e
                    matches RelayError::RpcError { code, message } && code == spec_rpc_error_code(
                    body@,
                ) && message@ == spec_rpc_error_message(body@))
                ||| spec_body_parses(body@) && !spec_body_has_error(body@)
                    && !spec_body_has_result(body@) && (e
                    matches RelayError::RpcResultTypeMismatch { expected: ex } && ex@
                    == "result"@)
                ||| spec_body_parses(body@) && !spec_body_has_error(body@)
                    && spec_body_has_result(body@) && !spec_result_is_object_of(body@) && (e
                    matches RelayError::RpcResultTypeMismatch { expected: ex } && ex@
                    == "block object"@)
                ||| spec_body_parses(body@) && !spec_body_has_error(body@)
                    && spec_body_has_result(body@) && spec_result_is_object_of(body@)
                    && spec_base_fee_of(body@) is None && (e
                    matches RelayError::RpcResultTypeMismatch { expected: ex } && ex@
                    == "baseFeePerGas"@)
            },
        },
{
    match scan_parse(body) {
        Some(message) => {
            return Err(RelayError::JsonError { message });
        },
        None => {},
    }
    let (has_error, code, message) = scan_error_object(body);
    if has_error {
        return Err(rpc_error_from_fields(code, message));
    }
    let (has_result, is_object, fee) = scan_result_base_fee(body);
    if !has_result {
        return Err(RelayError::RpcResultTypeMismatch { expected: String::from_str("result") });
    }
    if !is_object {
        return Err(
            RelayError::RpcResultTypeMismatch { expected: String::from_str("block object") },
        );
    }
    match fee {
        Some(s) => Ok(s),
        None => Err(
            RelayError::RpcResultTypeMismatch { expected: String::from_str("baseFeePerGas") },
        ),
    }
}

/// An `eth_call` payload against `to` with calldata, at the latest block.
pub open spec fn spec_frame_eth_call(id: nat, to: Seq<char>, data: Seq<char>) -> Seq<char> {
    "{\"id\":"@ + spec_dec_chars(id)
        + ",\"jsonrpc\":\"2.0\",\"method\":\"eth_call\",\"params\":[{\"data\":\""@ + data
        + "\",\"to\":\""@ + to + "\"},\"latest\"]}"@
}

pub fn frame_eth_call(id: u64, to: &str, data: &str) -> (r: String)
    ensures
        r@ == spec_frame_eth_call(id as nat, to@, data@),
{
    let mut s = String::from_str("{\"id\":");
    append_dec(&mut s, id);
    s.append(",\"jsonrpc\":\"2.0\",\"method\":\"eth_call\",\"params\":[{\"data\":\"");
    s.append(data);
    s.append("\",\"to\":\"");
    s.append(to);
    s.append("\"},\"latest\"]}");
    s
}

/// An `eth_call` payload with an explicit caller (the simulation).
pub open spec fn spec_frame_eth_call_from(
    id: nat,
    from: Seq<char>,
    to: Seq<char>,
    data: Seq<char>,
) -> Seq<char> {
    "{\"id\":"@ + spec_dec_chars(id)
        + ",\"jsonrpc\":\"2.0\",\"method\":\"eth_call\",\"params\":[{\"data\":\""@ + data
        + "\",\"from\":\""@ + from + "\",\"to\":\""@ + to + "\"},\"latest\"]}"@
}

pub fn frame_eth_call_from(id: u64, from: &str, to: &str, data: &str) -> (r: String)
    ensures
        r@ == spec_frame_eth_call_from(id as nat, from@, to@, data@),
{
    let mut s = String::from_str("{\"id\":");
    append_dec(&mut s, id);
    s.append(",\"jsonrpc\":\"2.0\",\"method\":\"eth_call\",\"params\":[{\"data\":\"");
    s.append(data);
    s.append("\",\"from\":\"");
    s.append(from);
    s.append("\",\"to\":\"");
    s.append(to);
    s.append("\"},\"latest\"]}");
    s
}

/// An `eth_estimateGas` payload.
pub open spec fn spec_frame_estimate_gas(
    id: nat,
    from: Seq<char>,
    to: Seq<char>,
    data: Seq<char>,
) -> Seq<char> {
    "{\"id\":"@ + spec_dec_chars(id)
        + ",\"jsonrpc\":\"2.0\",\"method\":\"eth_estimateGas\",\"params\":[{\"data\":\""@ + data
        + "\",\"from\":\""@ + from + "\",\"to\":\""@ + to + "\"}]}"@
}

pub fn frame_estimate_gas(id: u64, from: &str, to: &str, data: &str) -> (r: String)
    ensures
        r@ == spec_frame_estimate_gas(id as nat, from@, to@, data@),
{
    let mut s = String::from_str("{\"id\":");
    append_dec(&mut s, id);
    s.append(",\"jsonrpc\":\"2.0\",\"method\":\"eth_estimateGas\",\"params\":[{\"data\":\"");
    s.append(data);
    s.append("\",\"from\":\"");
    s.append(from);
    s.append("\",\"to\":\"");
    s.append(to);
    s.append("\"}]}");
    s
}

/// An address-and-block payload (`eth_getBalance`,
/// `eth_getTransactionCount`).
pub open spec fn spec_frame_address_block(
    id: nat,
    method: Seq<char>,
    address: Seq<char>,
    block: Seq<char>,
) -> Seq<char> {
    "{\"id\":"@ + spec_dec_chars(id) + ",\"jsonrpc\":\"2.0\",\"method\":\""@ + method
        + "\",\"params\":[\""@ + address + "\",\""@ + block + "\"]}"@
}

pub fn frame_address_block(id: u64, method: &str, address: &str, block: &str) -> (r: String)
    ensures
        r@ == spec_frame_address_block(id as nat, method@, address@, block@),
{
    let mut s = String::from_str("{\"id\":");
    append_dec(&mut s, id);
    s.append(",\"jsonrpc\":\"2.0\",\"method\":\"");
    s.append(method);
    s.append("\",\"params\":[\"");
    s.append(address);
    s.append("\",\"");
    s.append(block);
    s.append("\"]}");
    s
}

/// An `eth_maxPriorityFeePerGas` payload.
pub open spec fn spec_frame_max_priority_fee(id: nat) -> Seq<char> {
    "{\"id\":"@ + spec_dec_chars(id)
        + ",\"jsonrpc\":\"2.0\",\"method\":\"eth_maxPriorityFeePerGas\",\"params\":[]}"@
}

pub fn frame_max_priority_fee(id: u64) -> (r: String)
    ensures
        r@ == spec_frame_max_priority_fee(id as nat),
{
    let mut s = String::from_str("{\"id\":");
    append_dec(&mut s, id);
    s.append(",\"jsonrpc\":\"2.0\",\"method\":\"eth_maxPriorityFeePerGas\",\"params\":[]}");
    s
}

/// An `eth_getBlockByNumber` payload for the latest block's header.
pub open spec fn spec_frame_block_by_number(id: nat) -> Seq<char> {
    "{\"id\":"@ + spec_dec_chars(id)
        + ",\"jsonrpc\":\"2.0\",\"method\":\"eth_getBlockByNumber\",\"params\":[\"latest\",false]}"@
}

pub fn frame_block_by_number(id: u64) -> (r: String)
    ensures
        r@ == spec_frame_block_by_number(id as nat),
{
    let mut s = String::from_str("{\"id\":");
    append_dec(&mut s, id);
    s.append(
        ",\"jsonrpc\":\"2.0\",\"method\":\"eth_getBlockByNumber\",\"params\":[\"latest\",false]}",
    );
    s
}

/// An `eth_sendRawTransaction` payload.
pub open spec fn spec_frame_send_raw_transaction(id: nat, raw: Seq<char>) -> Seq<char> {
    "{\"id\":"@ + spec_dec_chars(id)
        + ",\"jsonrpc\":\"2.0\",\"method\":\"eth_sendRawTransaction\",\"params\":[\""@ + raw
        + "\"]}"@
}

pub fn frame_send_raw_transaction(id: u64, raw: &str) -> (r: String)
    ensures
        r@ == spec_frame_send_raw_transaction(id as nat, raw@),
{
    let mut s = String::from_str("{\"id\":");
    append_dec(&mut s, id);
    s.append(",\"jsonrpc\":\"2.0\",\"method\":\"eth_sendRawTransaction\",\"params\":[\"");
    s.append(raw);
    s.append("\"]}");
    s
}

} // verus!
