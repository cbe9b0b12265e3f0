use reec::rpc::{
    chain_id, create_url, exchange_capabilities, handle_authrpc_request, handle_http_request,
    rpc_response, syncing, RpcErr, RpcRequest, RpcResponse, RpcValue,
};

fn request(method: &str) -> RpcRequest {
    RpcRequest {
        id: 7,
        method: method.to_string(),
        jsonrpc: "2.0".to_string(),
        params: None,
    }
}

#[test]
fn create_url_joins_host_and_port() {
    assert_eq!(create_url("127.0.0.1", "8545"), "127.0.0.1:8545");
    assert_eq!(create_url("localhost", "8551"), "localhost:8551");
}

#[test]
fn handlers_report_fixed_results() {
    match exchange_capabilities() {
        Ok(RpcValue::Array(items)) => assert!(items.is_empty()),
        _ => panic!("capability exchange must return the empty array"),
    }
    match chain_id() {
        Ok(RpcValue::Str(s)) => assert_eq!(s, "0x52B25D"),
        _ => panic!("chain id must be a string"),
    }
    match syncing() {
        Ok(RpcValue::Bool(b)) => assert!(!b),
        _ => panic!("sync status must be a boolean"),
    }
}

#[test]
fn http_dispatch_routes_each_method() {
    match handle_http_request(&request("eth_chainId")) {
        RpcResponse::Success(s) => {
            assert_eq!(s.id, 7);
            assert_eq!(s.jsonrpc, "2.0");
            match s.result {
                RpcValue::Str(cid) => assert_eq!(cid, "0x52B25D"),
                _ => panic!("eth_chainId must return a string"),
            }
        }
        RpcResponse::Error(_) => panic!("eth_chainId must succeed"),
    }
    match handle_http_request(&request("eth_syncing")) {
        RpcResponse::Success(s) => match s.result {
            RpcValue::Bool(b) => assert!(!b),
            _ => panic!("eth_syncing must return a boolean"),
        },
        RpcResponse::Error(_) => panic!("eth_syncing must succeed"),
    }
    match handle_http_request(&request("engine_exchangeCapabilities")) {
        RpcResponse::Success(s) => match s.result {
            RpcValue::Array(items) => assert!(items.is_empty()),
            _ => panic!("capability exchange must return an array"),
        },
        RpcResponse::Error(_) => panic!("capability exchange must succeed"),
    }
}

#[test]
fn unknown_method_reports_not_found() {
    match handle_http_request(&request("eth_getBalance")) {
        RpcResponse::Error(er) => {
            assert_eq!(er.id, 7);
            assert_eq!(er.jsonrpc, "2.0");
            assert_eq!(er.error.code, -32601);
            assert_eq!(er.error.message, "Method Not Found");
        }
        RpcResponse::Success(_) => panic!("an unserved method must fail"),
    }
}

#[test]
fn authrpc_serves_only_capability_exchange() {
    match handle_authrpc_request(&request("engine_exchangeCapabilities")) {
        RpcResponse::Success(s) => match s.result {
            RpcValue::Array(items) => assert!(items.is_empty()),
            _ => panic!("capability exchange must return an array"),
        },
        RpcResponse::Error(_) => panic!("capability exchange must succeed"),
    }
    match handle_authrpc_request(&request("eth_chainId")) {
        RpcResponse::Error(er) => assert_eq!(er.error.code, -32601),
        RpcResponse::Success(_) => panic!("the authenticated endpoint serves nothing else"),
    }
}

#[test]
fn response_envelope_echoes_id_and_version() {
    let req = request("eth_chainId");
    match rpc_response(&req, Ok(RpcValue::Bool(true))) {
        RpcResponse::Success(s) => {
            assert_eq!(s.id, 7);
            assert_eq!(s.jsonrpc, "2.0");
            assert!(matches!(s.result, RpcValue::Bool(true)));
        }
        RpcResponse::Error(_) => panic!("an Ok outcome must wrap as success"),
    }
    match rpc_response(&req, Err(RpcErr::MethodNotFound)) {
        RpcResponse::Error(er) => {
            assert_eq!(er.id, 7);
            assert_eq!(er.jsonrpc, "2.0");
            assert_eq!(er.error.code, -32601);
            assert_eq!(er.error.message, "Method Not Found");
        }
        RpcResponse::Success(_) => panic!("an Err outcome must wrap as error"),
    }
}
