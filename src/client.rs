use vstd::prelude::*;
use crate::ipc::{Request, Response};

verus! {

/// The client side of a connection to the daemon: where it connects, and the
/// id its next request will carry. The stream itself is held by the caller.
#[derive(Clone, Debug)]
pub struct DaemonClient {
    pub socket_path: String,
    pub next_id: u64,
}

/// Why a call to the daemon failed on the client's side.
#[derive(Clone, Debug, PartialEq, Eq)]
pub enum ClientError {
    /// Every request id has been used on this connection.
    IdsExhausted,
    /// The daemon answered another request than the one just sent.
    WrongResponse { expected: u64, got: u64 },
    /// The daemon answered with an error.
    Remote(String),
}

impl DaemonClient {
    /// A client for the daemon listening on `socket_path`, whose first
    /// request carries id 1.
    pub fn connect(socket_path: &str) -> (r: DaemonClient)
        ensures
            r.socket_path@ == socket_path@,
            r.next_id == 1,
    {
        DaemonClient { socket_path: String::from_str(socket_path), next_id: 1 }
    }

    /// Wraps `content` in a request with the next id. Ids grow by one per
    /// request and never repeat.
    pub fn request<A>(&mut self, content: A) -> (r: Result<Request<A>, ClientError>)
        ensures
            final(self).socket_path == old(self).socket_path,
            old(self).next_id < u64::MAX ==> r == Ok::<Request<A>, ClientError>(
                Request { id: old(self).next_id, content },
            ) && final(self).next_id == old(self).next_id + 1,
            old(self).next_id == u64::MAX ==> r == Err::<Request<A>, ClientError>(
                ClientError::IdsExhausted,
            ) && final(self).next_id == old(self).next_id,
    {
        if self.next_id == u64::MAX {
            return Err(ClientError::IdsExhausted);
        }
        let id = self.next_id;
        self.next_id = self.next_id + 1;
        Ok(Request { id, content })
    }

    /// The outcome of request `sent_id` from the daemon's response to it.
    pub fn accept<B>(&self, sent_id: u64, resp: Response<B>) -> (r: Result<B, ClientError>)
        ensures
            resp.for_id != sent_id ==> r == Err::<B, ClientError>(
                ClientError::WrongResponse { expected: sent_id, got: resp.for_id },
            ),
            resp.for_id == sent_id ==> r == match resp.result {
                Ok(b) => Ok::<B, ClientError>(b),
                Err(e) => Err::<B, ClientError>(ClientError::Remote(e)),
            },
    {
        if resp.for_id != sent_id {
            return Err(ClientError::WrongResponse { expected: sent_id, got: resp.for_id });
        }
        match resp.result {
            Ok(b) => Ok(b),
            Err(e) => Err(ClientError::Remote(e)),
        }
    }
}

} // verus!
