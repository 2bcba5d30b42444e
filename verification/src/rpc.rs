//! Request routing for the node's call surface.
//!
//! The wire protocol, sockets and serialization are external
//! collaborators; what is decided here, and verified, is which operation a
//! method name and its parameters select. The application shell performs
//! the selected operation and serializes its result.

use vstd::prelude::*;

verus! {

/// The operation a request selects.
pub enum RpcRoute {
    /// Look a block up by its hash, spelled in hex.
    GetBlock { hash_hex: String },
    /// Look a contract up by its id.
    GetContract { id: String },
    /// Submit a transaction, handed over in its wire spelling.
    SendTransaction { payload: String },
}

/// Why a request routes nowhere.
#[derive(Clone, Copy, Debug, PartialEq, Eq)]
pub enum RpcError {
    /// No operation carries the method name.
    MethodNotFound,
    /// The method needs a parameter the request does not carry.
    MissingParam,
}

/// Routes a request: `get_block`, `get_contract` and `send_transaction`
/// each take their first parameter; anything else is unknown. A known
/// method without its parameter is refused, not served.
pub fn route(method: &str, params: &Vec<String>) -> (r: Result<RpcRoute, RpcError>)
    ensures
        method@ == "get_block"@ ==> ({
            if params@.len() >= 1 {
                r matches Ok(RpcRoute::GetBlock { hash_hex }) && hash_hex@ == params@[0]@
            } else {
                r == Err::<RpcRoute, RpcError>(RpcError::MissingParam)
            }
        }),
        method@ == "get_contract"@ ==> ({
            if params@.len() >= 1 {
                r matches Ok(RpcRoute::GetContract { id }) && id@ == params@[0]@
            } else {
                r == Err::<RpcRoute, RpcError>(RpcError::MissingParam)
            }
        }),
        method@ == "send_transaction"@ ==> ({
            if params@.len() >= 1 {
                r matches Ok(RpcRoute::SendTransaction { payload }) && payload@ == params@[0]@
            } else {
                r == Err::<RpcRoute, RpcError>(RpcError::MissingParam)
            }
        }),
        method@ != "get_block"@ && method@ != "get_contract"@ && method@ != "send_transaction"@
            ==> r == Err::<RpcRoute, RpcError>(RpcError::MethodNotFound),
    {
    proof {
        reveal_strlit("get_block");
        reveal_strlit("get_contract");
        reveal_strlit("send_transaction");
        assert("get_block"@.len() == 9);
        assert("get_contract"@.len() == 12);
        assert("send_transaction"@.len() == 16);
        assert("get_block"@ != "get_contract"@);
        assert("get_block"@ != "send_transaction"@);
        assert("get_contract"@ != "send_transaction"@);
    }
    let m: String = method.to_owned();
    if m == "get_block".to_owned() {
        if params.len() >= 1 {
            Ok(RpcRoute::GetBlock { hash_hex: params[0].clone() })
        } else {
            Err(RpcError::MissingParam)
        }
    } else if m == "get_contract".to_owned() {
        if params.len() >= 1 {
            Ok(RpcRoute::GetContract { id: params[0].clone() })
        } else {
            Err(RpcError::MissingParam)
        }
    } else if m == "send_transaction".to_owned() {
        if params.len() >= 1 {
            Ok(RpcRoute::SendTransaction { payload: params[0].clone() })
        } else {
            Err(RpcError::MissingParam)
        }
    } else {
        Err(RpcError::MethodNotFound)
    }
}

} // verus!
