//! The pure core of the JSON-RPC front end: request and response shapes,
//! method dispatch, and response envelope construction.
//!
//! Transport (HTTP listeners, JSON parsing and serialization) lives
//! outside the library; it hands a parsed request in and carries the
//! structured response out.

use vstd::prelude::*;

verus! {

use vstd::string::StringExecFns;

/// A JSON value as this RPC layer produces it: a boolean, a string, or an
/// ordered array of values.
pub enum RpcValue {
    Bool(bool),
    Str(String),
    Array(Vec<RpcValue>),
}

/// The errors an RPC handler can report.
pub enum RpcErr {
    MethodNotFound,
}

/// The numeric code a JSON-RPC error response carries for `e`.
pub open spec fn err_code(e: RpcErr) -> int {
    match e {
        RpcErr::MethodNotFound => -32601,
    }
}

/// The message a JSON-RPC error response carries for `e`.
pub open spec fn err_message(e: RpcErr) -> Seq<char> {
    match e {
        RpcErr::MethodNotFound => "Method Not Found"@,
    }
}

/// Code and message of a JSON-RPC error, as the wire envelope carries it.
pub struct RpcErrorMetadata {
    pub code: i32,
    pub message: String,
}

impl RpcErr {
    /// The error envelope metadata for this error.
    pub fn into_metadata(self) -> (m: RpcErrorMetadata)
        ensures
            m.code == err_code(self),
            m.message@ == err_message(self),
    {
        match self {
            RpcErr::MethodNotFound => RpcErrorMetadata {
                code: -32601,
                message: String::from_str("Method Not Found"),
            },
        }
    }
}

/// A parsed JSON-RPC request. `params` holds the raw parameter text, if
/// any came with the call; none of the supported methods read it.
pub struct RpcRequest {
    pub id: i32,
    pub method: String,
    pub jsonrpc: String,
    pub params: Option<String>,
}

/// A successful JSON-RPC response envelope.
pub struct RpcSuccessResponse {
    pub id: i32,
    pub jsonrpc: String,
    pub result: RpcValue,
}

/// A failed JSON-RPC response envelope.
pub struct RpcErrorResponse {
    pub id: i32,
    pub jsonrpc: String,
    pub error: RpcErrorMetadata,
}

/// Either response envelope.
pub enum RpcResponse {
    Success(RpcSuccessResponse),
    Error(RpcErrorResponse),
}

/// Joins a host and a port into the `host:port` form a listener binds to.
pub fn create_url(addr: &str, port: &str) -> (url: String)
    ensures
        url@ == addr@ + ":"@ + port@,
{
    let mut url = String::from_str(addr);
    url.append(":");
    url.append(port);
    url
}

/// Reports the engine capabilities: none yet, so the empty array.
pub fn exchange_capabilities() -> (res: Result<RpcValue, RpcErr>)
    ensures
        res matches Ok(v) && v matches RpcValue::Array(items) && items@.len() == 0,
{
    Ok(RpcValue::Array(Vec::new()))
}

/// Reports the chain id this client answers for.
pub fn chain_id() -> (res: Result<RpcValue, RpcErr>)
    ensures
        res matches Ok(v) && v matches RpcValue::Str(s) && s@ == "0x52B25D"@,
{
    Ok(RpcValue::Str(String::from_str("0x52B25D")))
}

/// Reports the sync status: this client is never syncing.
pub fn syncing() -> (res: Result<RpcValue, RpcErr>)
    ensures
        res matches Ok(v) && v == RpcValue::Bool(false),
{
    Ok(RpcValue::Bool(false))
}

/// Wraps a handler's outcome in the JSON-RPC response envelope, echoing
/// the request id and stamping protocol version 2.0.
pub fn rpc_response(req: &RpcRequest, res: Result<RpcValue, RpcErr>) -> (r: RpcResponse)
    ensures
        res matches Ok(v) ==> r matches RpcResponse::Success(s) && s.id == req.id
            && s.jsonrpc@ == "2.0"@ && s.result == v,
        res matches Err(e) ==> r matches RpcResponse::Error(er) && er.id == req.id
            && er.jsonrpc@ == "2.0"@ && er.error.code == err_code(e)
            && er.error.message@ == err_message(e),
{
    match res {
        Ok(result) => RpcResponse::Success(
            RpcSuccessResponse { id: req.id, jsonrpc: String::from_str("2.0"), result },
        ),
        Err(error) => RpcResponse::Error(
            RpcErrorResponse {
                id: req.id,
                jsonrpc: String::from_str("2.0"),
                error: error.into_metadata(),
            },
        ),
    }
}

/// The method names the public HTTP endpoint serves.
pub open spec fn http_method_known(m: Seq<char>) -> bool {
    ||| m == "engine_exchangeCapabilities"@
    ||| m == "eth_chainId"@
    ||| m == "eth_syncing"@
}

/// The three served method names are pairwise distinct.
proof fn lemma_method_names_distinct()
    ensures
        "engine_exchangeCapabilities"@ != "eth_chainId"@,
        "engine_exchangeCapabilities"@ != "eth_syncing"@,
        "eth_chainId"@ != "eth_syncing"@,
{
    reveal_strlit("engine_exchangeCapabilities");
    reveal_strlit("eth_chainId");
    reveal_strlit("eth_syncing");
    assert("engine_exchangeCapabilities"@.len() == 27);
    assert("eth_chainId"@.len() == 11);
    assert("eth_syncing"@.len() == 11);
    assert("eth_chainId"@[4] != "eth_syncing"@[4]);
}

/// Serves a request on the public HTTP endpoint: routes the method to its
/// handler and wraps the outcome in the response envelope.
pub fn handle_http_request(req: &RpcRequest) -> (r: RpcResponse)
    ensures
        req.method@ == "engine_exchangeCapabilities"@ ==> ({
            &&& r matches RpcResponse::Success(s)
            &&& s.id == req.id
            &&& s.jsonrpc@ == "2.0"@
            &&& s.result matches RpcValue::Array(items)
            &&& items@.len() == 0
        }),
        req.method@ == "eth_chainId"@ ==> ({
            &&& r matches RpcResponse::Success(s)
            &&& s.id == req.id
            &&& s.jsonrpc@ == "2.0"@
            &&& s.result matches RpcValue::Str(cid)
            &&& cid@ == "0x52B25D"@
        }),
        req.method@ == "eth_syncing"@ ==> (r matches RpcResponse::Success(s) && s.id == req.id
            && s.jsonrpc@ == "2.0"@ && s.result == RpcValue::Bool(false)),
        !http_method_known(req.method@) ==> (r matches RpcResponse::Error(er) && er.id == req.id
            && er.jsonrpc@ == "2.0"@ && er.error.code == -32601
            && er.error.message@ == "Method Not Found"@),
{
    proof {
        lemma_method_names_distinct();
    }
    let res: Result<RpcValue, RpcErr> = if req.method == String::from_str(
        "engine_exchangeCapabilities",
    ) {
        exchange_capabilities()
    } else if req.method == String::from_str("eth_chainId") {
        chain_id()
    } else if req.method == String::from_str("eth_syncing") {
        syncing()
    } else {
        Err(RpcErr::MethodNotFound)
    };
    rpc_response(req, res)
}

/// Serves a request on the authenticated endpoint, which exposes only the
/// capability exchange.
pub fn handle_authrpc_request(req: &RpcRequest) -> (r: RpcResponse)
    ensures
        req.method@ == "engine_exchangeCapabilities"@ ==> ({
            &&& r matches RpcResponse::Success(s)
            &&& s.id == req.id
            &&& s.jsonrpc@ == "2.0"@
            &&& s.result matches RpcValue::Array(items)
            &&& items@.len() == 0
        }),
        req.method@ != "engine_exchangeCapabilities"@ ==> (r matches RpcResponse::Error(er)
            && er.id == req.id && er.jsonrpc@ == "2.0"@ && er.error.code == -32601
            && er.error.message@ == "Method Not Found"@),
{
    let res: Result<RpcValue, RpcErr> = if req.method == String::from_str(
        "engine_exchangeCapabilities",
    ) {
        exchange_capabilities()
    } else {
        Err(RpcErr::MethodNotFound)
    };
    rpc_response(req, res)
}

} // verus!
