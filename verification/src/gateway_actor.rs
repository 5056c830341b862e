//! Bookkeeping of the gateway actor: prompts waiting for the reply of the
//! actor system.
//!
//! Every prompt gets a fresh request id from a counter; the id goes out with
//! the prompt, and the reply that comes back with the same id is handed to
//! the waiting requester. `T` is the requester's reply channel.
use vstd::prelude::*;
use std::collections::BTreeMap;
use vstd::utf8::{decode_utf8, valid_utf8};
use vstd::slice::slice_to_vec;
use vstd::string::StringSliceAdditionalSpecFns;

verus! {

broadcast use vstd::laws_cmp::group_laws_cmp;

/// A message of the actor system: data for function `func` of actor
/// `actor_id`, tagged with request id `req_id`.
#[derive(Clone, Debug, PartialEq, Eq)]
pub struct TellReq {
    pub actor_id: String,
    pub func: String,
    pub req_id: u64,
    pub data: Vec<u8>,
}

/// A prompt posted to the gateway.
#[derive(Clone, Debug, PartialEq, Eq)]
pub struct PromptReq {
    pub prompt: String,
}

/// The reply to a prompt.
#[derive(Clone, Debug, PartialEq, Eq)]
pub struct PromptResp {
    pub response: String,
}

/// Errors of the gateway actor.
#[derive(Clone, Copy, Debug, PartialEq, Eq, Structural)]
pub enum GatewayError {
    /// No prompt waits for a reply with this request id.
    NotExist(u64),
}

/// The waiting prompts and the identity of the gateway actor.
pub struct GatewayActorInner<T> {
    pub requests: BTreeMap<u64, T>,
    pub last_req_id: u64,
    pub gateway_actor_id: String,
    pub gateway_func: String,
    pub http_port: u16,
}

/// Every waiting request id was issued before the counter's current value.
pub open spec fn requests_wf<T>(requests: Map<u64, T>, last_req_id: u64) -> bool {
    forall|id: u64| #[trigger] requests.contains_key(id) ==> id < last_req_id
}

/// The counter after issuing an id: the next integer, wrapping to 0 after
/// the largest one.
pub open spec fn next_req_id(last_req_id: u64) -> u64 {
    if last_req_id < u64::MAX {
        (last_req_id + 1) as u64
    } else {
        0
    }
}

/// The string `String::from_utf8` gives for `bytes`, when they are UTF-8.
///
/// Calls `String::from_utf8`; its documentation promises success exactly on
/// valid UTF-8, and then the string whose characters the bytes encode.
#[verifier::external_body]
fn utf8_to_string(bytes: Vec<u8>) -> (r: Option<String>)
    ensures
        r is Some <==> valid_utf8(bytes@),
        r matches Some(s) ==> s@ == decode_utf8(bytes@),
{
    String::from_utf8(bytes).ok()
}

impl<T> GatewayActorInner<T> {
    pub open spec fn wf(&self) -> bool {
        requests_wf(self.requests@, self.last_req_id)
    }

    /// A gateway actor with no waiting prompt, whose first request id is 1.
    #[allow(non_snake_case)]
    pub fn New(gateway_actor_id: &str, gateway_func: &str, http_port: u16) -> (s: Self)
        ensures
            s.requests@ == Map::<u64, T>::empty(),
            s.last_req_id == 1,
            s.gateway_actor_id@ == gateway_actor_id@,
            s.gateway_func@ == gateway_func@,
            s.http_port == http_port,
            s.wf(),
    {
        GatewayActorInner {
            requests: BTreeMap::new(),
            last_req_id: 1,
            gateway_actor_id: gateway_actor_id.to_owned(),
            gateway_func: gateway_func.to_owned(),
            http_port,
        }
    }

    /// Registers a prompt whose reply goes to `tx`: it takes the next request
    /// id and returns the message that carries the prompt to the gateway
    /// function.
    #[allow(non_snake_case)]
    pub fn NewPrompt(&mut self, prompt: &str, tx: T) -> (tell: TellReq)
        ensures
            tell.req_id == old(self).last_req_id,
            tell.actor_id@ == old(self).gateway_actor_id@,
            tell.func@ == old(self).gateway_func@,
            tell.data@ == prompt.spec_bytes(),
            final(self).last_req_id == next_req_id(old(self).last_req_id),
            final(self).requests@ == old(self).requests@.insert(old(self).last_req_id, tx),
            final(self).gateway_actor_id == old(self).gateway_actor_id,
            final(self).gateway_func == old(self).gateway_func,
            final(self).http_port == old(self).http_port,
            old(self).wf() && old(self).last_req_id < u64::MAX ==> final(self).wf(),
    {
        let req_id = self.last_req_id;
        self.last_req_id = self.last_req_id.wrapping_add(1);
        self.requests.insert(req_id, tx);
        let data = slice_to_vec(prompt.as_bytes());
        TellReq {
            actor_id: self.gateway_actor_id.clone(),
            func: self.gateway_func.clone(),
            req_id,
            data,
        }
    }

    /// Takes the reply of the actor system: the prompt waiting under the
    /// reply's request id is removed, and its channel is returned with the
    /// reply text; a reply nobody waits for is an error.
    #[allow(non_snake_case)]
    pub fn HandleTell(&mut self, tell: TellReq) -> (r: Result<(T, PromptResp), GatewayError>)
        requires
            old(self).requests@.contains_key(tell.req_id) ==> valid_utf8(tell.data@),
        ensures
            old(self).requests@.contains_key(tell.req_id) ==> (r matches Ok((tx, resp)) && tx
                == old(self).requests@[tell.req_id] && resp.response@ == decode_utf8(tell.data@)
                && final(self).requests@ == old(self).requests@.remove(tell.req_id)),
            !old(self).requests@.contains_key(tell.req_id) ==> (r == Err::<
                (T, PromptResp),
                GatewayError,
            >(GatewayError::NotExist(tell.req_id)) && final(self).requests@ == old(
                self,
            ).requests@),
            final(self).last_req_id == old(self).last_req_id,
            final(self).gateway_actor_id == old(self).gateway_actor_id,
            final(self).gateway_func == old(self).gateway_func,
            final(self).http_port == old(self).http_port,
            old(self).wf() ==> final(self).wf(),
    {
        let req_id = tell.req_id;
        let tx = match self.requests.remove(&req_id) {
            None => {
                return Err(GatewayError::NotExist(req_id));
            },
            Some(req) => req,
        };
        let response = match utf8_to_string(tell.data) {
            Some(s) => s,
            None => {
                proof {
                    assert(false);
                }
                String::new()
            },
        };
        Ok((tx, PromptResp { response }))
    }
}

/// A prompt never replaces a waiting one while the counter has not wrapped:
/// the id it takes is not waiting, and its reply is answered exactly once —
/// the first reply with that id gets the prompt's channel, and afterwards the
/// id is unknown again while the other waiting prompts stay.
pub proof fn lemma_prompt_answered_once<T>(requests: Map<u64, T>, last_req_id: u64, tx: T)
    requires
        requests_wf(requests, last_req_id),
        last_req_id < u64::MAX,
    ensures
        !requests.contains_key(last_req_id),
        requests.insert(last_req_id, tx).contains_key(last_req_id),
        requests.insert(last_req_id, tx)[last_req_id] == tx,
        requests.insert(last_req_id, tx).remove(last_req_id) == requests,
        !requests.insert(last_req_id, tx).remove(last_req_id).contains_key(last_req_id),
        requests_wf(requests.insert(last_req_id, tx), next_req_id(last_req_id)),
{
    assert(requests.insert(last_req_id, tx).remove(last_req_id) =~= requests);
}

} // verus!
