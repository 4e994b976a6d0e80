//! The signing endpoints of the gateway surface.
//!
//! The gateway cannot sign transactions: it never holds a wallet key. Every
//! signing call therefore fails, with a message pointing the caller at its
//! own wallet setup. The methods take and return plain bytes; the RPC
//! plumbing around them lives with the caller.

use vstd::prelude::*;

verus! {

/// The error text every signing call fails with.
pub open spec fn unsupported_signing_text(call_name: Seq<char>) -> Seq<char> {
    call_name
        + " is not implemented because the gateway cannot sign transactions. Make sure that the wallet is setup correctly in the client in case transaction signing is expected to happen transparently"@
}

/// Eth signing rpc implementation.
pub struct EthSigningClient {}

impl EthSigningClient {
    pub fn new() -> EthSigningClient {
        EthSigningClient {  }
    }

    /// Sign a message with an account's key: always unsupported.
    pub fn sign(&self, _address: &Vec<u8>, _data: &Vec<u8>) -> (r: Result<Vec<u8>, String>)
        ensures
            r matches Err(m) && m@ == unsupported_signing_text("eth_sign"@),
    {
        let mut msg = String::from_str("eth_sign");
        msg.append(
            " is not implemented because the gateway cannot sign transactions. Make sure that the wallet is setup correctly in the client in case transaction signing is expected to happen transparently",
        );
        Err(msg)
    }

    /// Sign and submit a transaction: always unsupported.
    pub fn send_transaction(&self, _request: &Vec<u8>) -> (r: Result<Vec<u8>, String>)
        ensures
            r matches Err(m) && m@ == unsupported_signing_text("eth_sendTransaction"@),
    {
        let mut msg = String::from_str("eth_sendTransaction");
        msg.append(
            " is not implemented because the gateway cannot sign transactions. Make sure that the wallet is setup correctly in the client in case transaction signing is expected to happen transparently",
        );
        Err(msg)
    }

    /// Sign a transaction and hand it back: always unsupported.
    pub fn sign_transaction(&self, _request: &Vec<u8>) -> (r: Result<Vec<u8>, String>)
        ensures
            r matches Err(m) && m@ == unsupported_signing_text("eth_signTransaction"@),
    {
        let mut msg = String::from_str("eth_signTransaction");
        msg.append(
            " is not implemented because the gateway cannot sign transactions. Make sure that the wallet is setup correctly in the client in case transaction signing is expected to happen transparently",
        );
        Err(msg)
    }
}

} // verus!
