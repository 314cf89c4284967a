//! The core side of the client façade: lowering an operation to request
//! bytes, and gating a parsed response on its status code. The transport
//! that carries the bytes is the embedding program's concern.

use vstd::prelude::*;

use crate::operation::IppOperation;
use crate::request::{enc_msg, sp_msg, wf_msg, IppRequestResponse, MsgV};
use crate::IppError;

verus! {

/// A client bound to one printer URI.
pub struct IppClient {
    pub uri: String,
}

impl IppClient {
    /// Creates a client for the given printer URI.
    pub fn new(uri: &str) -> (r: IppClient)
        ensures
            r.uri@ == uri@,
    {
        IppClient { uri: uri.to_owned() }
    }

    /// The printer URI this client sends to.
    pub fn uri(&self) -> (r: &String)
        ensures
            r@ == self.uri@,
    {
        &self.uri
    }

    /// Lowers an operation to the request bytes to be sent to this
    /// client's URI.
    pub fn prepare<T: IppOperation>(&self, operation: T) -> (r: Result<Vec<u8>, IppError>)
        ensures
            r matches Ok(v) ==> exists|m: MsgV|
                wf_msg(m) && m.header.operation_status == operation.op_code()
                    && m.header.request_id != 0 && v@ == enc_msg(m),
    {
        let req = match operation.into_ipp_request(self.uri.as_str()) {
            Ok(req) => req,
            Err(e) => {
                return Err(e);
            },
        };
        let bytes = match req.to_bytes() {
            Ok(v) => v,
            Err(e) => {
                return Err(e);
            },
        };
        proof {
            let m = req@;
            assert(wf_msg(m) && m.header.operation_status == operation.op_code()
                && m.header.request_id != 0 && bytes@ == enc_msg(m));
        }
        Ok(bytes)
    }

    /// Parses a response body and gates it on the status code: the parsed
    /// response exactly when the operation status is in the successful
    /// range, `StatusError` with the code otherwise, `MalformedStream` when
    /// the body does not parse.
    pub fn handle_response(&self, data: &[u8]) -> (r: Result<IppRequestResponse, IppError>)
        ensures
            match sp_msg(data@) {
                None => r matches Err(e) && e == IppError::MalformedStream,
                Some(m) => {
                    if m.header.operation_status <= 0x00FF {
                        r matches Ok(resp) && resp@ == m
                    } else {
                        r matches Err(e) && e == IppError::StatusError(
                            m.header.operation_status,
                        )
                    }
                },
            },
    {
        let resp = match IppRequestResponse::from_bytes(data) {
            Ok(resp) => resp,
            Err(e) => {
                return Err(e);
            },
        };
        let status = resp.header().operation_status;
        if crate::statuscode::is_success(status) {
            Ok(resp)
        } else {
            Err(IppError::StatusError(status))
        }
    }
}

} // verus!
