//! Messages of the wire-level sync protocol between a client and the
//! remote collaboration service.

use vstd::prelude::*;

use crate::entity::{CollabOrigin, CollabType};

verus! {

/// A message a collaboration sink can queue and send.
pub trait CollabSinkMessage: Sized + Clone {
    /// The length of the message's payload in bytes.
    fn length(&self) -> usize;

    /// Whether the message can be merged with other messages.
    fn mergeable(&self) -> bool;

    /// Merges another message into this one, where mergeable.
    fn merge(&mut self, other: Self);

    /// Whether this is an initialization message.
    fn is_init_msg(&self) -> bool;

    /// Whether sending the message can be deferred.
    fn deferrable(&self) -> bool;
}

/// The identifier a client assigns to a tracked message.
pub type MsgId = u64;

/// One protocol message.
#[derive(Debug)]
pub enum CollabMessage {
    ClientInit(ClientCollabInit),
    ServerSync(CollabServerSync),
    ClientUpdate(ClientCollabUpdate),
    AwarenessUpdate(CSAwarenessUpdate),
    ServerResponse(CollabServerResponse),
    ServerBroadcast(CollabServerBroadcast),
    ServerAck(CollabServerAck),
}

impl CollabMessage {
    /// The message id carried by messages that track one: acknowledged
    /// client traffic and server sync. Broadcasts, responses and
    /// awareness updates carry none.
    pub open spec fn spec_msg_id(self) -> Option<MsgId> {
        match self {
            CollabMessage::ClientInit(value) => Some(value.msg_id),
            CollabMessage::ServerSync(value) => Some(value.msg_id),
            CollabMessage::ClientUpdate(value) => Some(value.msg_id),
            CollabMessage::ServerResponse(_) => None,
            CollabMessage::ServerBroadcast(_) => None,
            CollabMessage::AwarenessUpdate(_) => None,
            CollabMessage::ServerAck(value) => Some(value.msg_id),
        }
    }

    /// The payload bytes, where the message carries any.
    pub open spec fn spec_payload(self) -> Option<Seq<u8>> {
        match self {
            CollabMessage::ClientInit(value) => Some(value.payload@),
            CollabMessage::ServerSync(value) => Some(value.payload@),
            CollabMessage::ClientUpdate(value) => Some(value.payload@),
            CollabMessage::ServerResponse(value) => Some(value.payload@),
            CollabMessage::ServerBroadcast(value) => Some(value.payload@),
            CollabMessage::AwarenessUpdate(value) => Some(value.payload@),
            CollabMessage::ServerAck(value) => match value.payload {
                Some(p) => Some(p@),
                None => None,
            },
        }
    }

    /// The identifier of the object the message is about.
    pub open spec fn spec_object_id(self) -> Seq<char> {
        match self {
            CollabMessage::ClientInit(value) => value.object_id@,
            CollabMessage::ServerSync(value) => value.object_id@,
            CollabMessage::ClientUpdate(value) => value.object_id@,
            CollabMessage::ServerResponse(value) => value.object_id@,
            CollabMessage::ServerBroadcast(value) => value.object_id@,
            CollabMessage::AwarenessUpdate(value) => value.object_id@,
            CollabMessage::ServerAck(value) => value.object_id@,
        }
    }

    /// There is one business line so far, numbered 1.
    pub fn business_id(&self) -> (r: u8)
        ensures
            r == 1,
    {
        1
    }

    /// Whether this is a client initialization message.
    pub fn is_init(&self) -> (r: bool)
        ensures
            r == (self is ClientInit),
    {
        match self {
            CollabMessage::ClientInit(_) => true,
            _ => false,
        }
    }

    /// The message id, for the kinds that track one.
    pub fn msg_id(&self) -> (r: Option<MsgId>)
        ensures
            r == self.spec_msg_id(),
    {
        match self {
            CollabMessage::ClientInit(value) => Some(value.msg_id),
            CollabMessage::ServerSync(value) => Some(value.msg_id),
            CollabMessage::ClientUpdate(value) => Some(value.msg_id),
            CollabMessage::ServerResponse(_) => None,
            CollabMessage::ServerBroadcast(_) => None,
            CollabMessage::AwarenessUpdate(_) => None,
            CollabMessage::ServerAck(value) => Some(value.msg_id),
        }
    }

    /// Whether the message carries no payload bytes.
    pub fn is_empty(&self) -> (r: bool)
        ensures
            r == match self.spec_payload() {
                Some(p) => p.len() == 0,
                None => true,
            },
    {
        match self {
            CollabMessage::ClientInit(value) => value.payload.len() == 0,
            CollabMessage::ServerSync(value) => value.payload.len() == 0,
            CollabMessage::ClientUpdate(value) => value.payload.len() == 0,
            CollabMessage::ServerResponse(value) => value.payload.len() == 0,
            CollabMessage::ServerBroadcast(value) => value.payload.len() == 0,
            CollabMessage::AwarenessUpdate(value) => value.payload.len() == 0,
            CollabMessage::ServerAck(value) => match &value.payload {
                Some(payload) => payload.len() == 0,
                None => true,
            },
        }
    }

    /// The origin of the message, for the kinds that carry one.
    pub fn origin(&self) -> (r: Option<&CollabOrigin>)
        ensures
            match self {
                CollabMessage::ClientInit(value) => r matches Some(o) && *o == value.origin,
                CollabMessage::ServerSync(value) => r matches Some(o) && *o == value.origin,
                CollabMessage::ClientUpdate(value) => r matches Some(o) && *o == value.origin,
                CollabMessage::ServerResponse(value) => match &value.origin {
                    Some(og) => r matches Some(o) && *o == og,
                    None => r is None,
                },
                CollabMessage::ServerBroadcast(value) => r matches Some(o) && *o == value.origin,
                CollabMessage::AwarenessUpdate(_) => r is None,
                CollabMessage::ServerAck(_) => r is None,
            },
    {
        match self {
            CollabMessage::ClientInit(value) => Some(&value.origin),
            CollabMessage::ServerSync(value) => Some(&value.origin),
            CollabMessage::ClientUpdate(value) => Some(&value.origin),
            CollabMessage::ServerResponse(value) => value.origin.as_ref(),
            CollabMessage::ServerBroadcast(value) => Some(&value.origin),
            CollabMessage::AwarenessUpdate(_) => None,
            CollabMessage::ServerAck(_) => None,
        }
    }

    /// The identifier of the object the message is about.
    pub fn object_id(&self) -> (r: &str)
        ensures
            r@ == self.spec_object_id(),
    {
        match self {
            CollabMessage::ClientInit(value) => value.object_id.as_str(),
            CollabMessage::ServerSync(value) => value.object_id.as_str(),
            CollabMessage::ClientUpdate(value) => value.object_id.as_str(),
            CollabMessage::ServerResponse(value) => value.object_id.as_str(),
            CollabMessage::ServerBroadcast(value) => value.object_id.as_str(),
            CollabMessage::AwarenessUpdate(value) => value.object_id.as_str(),
            CollabMessage::ServerAck(value) => value.object_id.as_str(),
        }
    }

    /// Consumes the message and hands out its payload; messages without
    /// one yield no bytes.
    pub fn into_payload(self) -> (r: Vec<u8>)
        ensures
            match self.spec_payload() {
                Some(p) => r@ == p,
                None => r@ == Seq::<u8>::empty(),
            },
    {
        match self {
            CollabMessage::ClientInit(value) => value.payload,
            CollabMessage::ServerSync(value) => value.payload,
            CollabMessage::ClientUpdate(value) => value.payload,
            CollabMessage::ServerResponse(value) => value.payload,
            CollabMessage::ServerBroadcast(value) => value.payload,
            CollabMessage::AwarenessUpdate(value) => value.payload,
            CollabMessage::ServerAck(value) => match value.payload {
                Some(payload) => payload,
                None => {
                    let empty: Vec<u8> = Vec::new();
                    empty
                },
            },
        }
    }

    /// The payload, borrowed, for the kinds that carry one.
    pub fn payload(&self) -> (r: Option<&Vec<u8>>)
        ensures
            match r {
                Some(p) => self.spec_payload() == Some(p@),
                None => self.spec_payload() is None,
            },
    {
        match self {
            CollabMessage::ClientInit(value) => Some(&value.payload),
            CollabMessage::ServerSync(value) => Some(&value.payload),
            CollabMessage::ClientUpdate(value) => Some(&value.payload),
            CollabMessage::ServerResponse(value) => Some(&value.payload),
            CollabMessage::ServerBroadcast(value) => Some(&value.payload),
            CollabMessage::AwarenessUpdate(value) => Some(&value.payload),
            CollabMessage::ServerAck(value) => value.payload.as_ref(),
        }
    }

    /// How two messages are ordered in a sink's queue: initialization
    /// first, then server sync, then the remaining kinds by descending
    /// message id.
    pub open spec fn spec_sink_order(self, other: CollabMessage) -> core::cmp::Ordering {
        if self is ClientInit && other is ClientInit {
            core::cmp::Ordering::Equal
        } else if self is ClientInit {
            core::cmp::Ordering::Greater
        } else if other is ClientInit {
            core::cmp::Ordering::Less
        } else if self is ServerSync && other is ServerSync {
            core::cmp::Ordering::Equal
        } else if self is ServerSync {
            core::cmp::Ordering::Greater
        } else if other is ServerSync {
            core::cmp::Ordering::Less
        } else if self.spec_msg_id() == other.spec_msg_id() {
            core::cmp::Ordering::Equal
        } else if spec_opt_id_lt(self.spec_msg_id(), other.spec_msg_id()) {
            core::cmp::Ordering::Greater
        } else {
            core::cmp::Ordering::Less
        }
    }

    /// The sink ordering, computed.
    pub fn sink_order(&self, other: &CollabMessage) -> (r: core::cmp::Ordering)
        ensures
            r == self.spec_sink_order(*other),
    {
        let self_init = self.is_init();
        let other_init = other.is_init();
        if self_init && other_init {
            core::cmp::Ordering::Equal
        } else if self_init {
            core::cmp::Ordering::Greater
        } else if other_init {
            core::cmp::Ordering::Less
        } else {
            let self_sync = match self {
                CollabMessage::ServerSync(_) => true,
                _ => false,
            };
            let other_sync = match other {
                CollabMessage::ServerSync(_) => true,
                _ => false,
            };
            if self_sync && other_sync {
                core::cmp::Ordering::Equal
            } else if self_sync {
                core::cmp::Ordering::Greater
            } else if other_sync {
                core::cmp::Ordering::Less
            } else {
                let a = self.msg_id();
                let b = other.msg_id();
                match (a, b) {
                    (Some(x), Some(y)) => {
                        if x == y {
                            core::cmp::Ordering::Equal
                        } else if x < y {
                            core::cmp::Ordering::Greater
                        } else {
                            core::cmp::Ordering::Less
                        }
                    },
                    (Some(_), None) => core::cmp::Ordering::Less,
                    (None, Some(_)) => core::cmp::Ordering::Greater,
                    (None, None) => core::cmp::Ordering::Equal,
                }
            }
        }
    }
}

/// Whether the left message id sorts strictly before the right one:
/// absent ids first, then ascending.
pub open spec fn spec_opt_id_lt(a: Option<MsgId>, b: Option<MsgId>) -> bool {
    match (a, b) {
        (Some(x), Some(y)) => x < y,
        (Some(_), None) => false,
        (None, Some(_)) => true,
        (None, None) => false,
    }
}

impl Clone for CollabMessage {
    fn clone(&self) -> (r: Self)
        ensures
            r.spec_msg_id() == self.spec_msg_id(),
            r.spec_object_id() == self.spec_object_id(),
            r.spec_payload() == self.spec_payload(),
    {
        match self {
            CollabMessage::ClientInit(value) => CollabMessage::ClientInit(value.clone()),
            CollabMessage::ServerSync(value) => CollabMessage::ServerSync(value.clone()),
            CollabMessage::ClientUpdate(value) => CollabMessage::ClientUpdate(value.clone()),
            CollabMessage::AwarenessUpdate(value) => CollabMessage::AwarenessUpdate(value.clone()),
            CollabMessage::ServerResponse(value) => CollabMessage::ServerResponse(value.clone()),
            CollabMessage::ServerBroadcast(value) => CollabMessage::ServerBroadcast(
                value.clone(),
            ),
            CollabMessage::ServerAck(value) => CollabMessage::ServerAck(value.clone()),
        }
    }
}

impl CollabSinkMessage for CollabMessage {
    fn length(&self) -> usize {
        match self.payload() {
            Some(payload) => payload.len(),
            None => 0,
        }
    }

    fn mergeable(&self) -> bool {
        false
    }

    fn merge(&mut self, _other: Self) {
        // Nothing to do: these messages never merge.
    }

    fn is_init_msg(&self) -> bool {
        self.is_init()
    }

    fn deferrable(&self) -> bool {
        !self.is_init()
    }
}

impl PartialEq for CollabMessage {
    /// Two messages are the same traffic when they track the same id.
    fn eq(&self, other: &Self) -> (r: bool) {
        let a = self.msg_id();
        let b = other.msg_id();
        match (a, b) {
            (Some(x), Some(y)) => x == y,
            (None, None) => true,
            _ => false,
        }
    }
}

impl vstd::std_specs::cmp::PartialEqSpecImpl for CollabMessage {
    open spec fn obeys_eq_spec() -> bool {
        true
    }

    open spec fn eq_spec(&self, other: &Self) -> bool {
        self.spec_msg_id() == other.spec_msg_id()
    }
}

impl Eq for CollabMessage {

}

/// An awareness (presence) update relayed between client and server.
#[derive(Debug)]
pub struct CSAwarenessUpdate {
    pub object_id: String,
    pub payload: Vec<u8>,
}

impl Clone for CSAwarenessUpdate {
    fn clone(&self) -> (r: Self)
        ensures
            r.object_id@ == self.object_id@,
            r.payload@ == self.payload@,
    {
        CSAwarenessUpdate { object_id: self.object_id.clone(), payload: self.payload.clone() }
    }
}

impl CSAwarenessUpdate {
    pub fn new(object_id: String, payload: Vec<u8>) -> (r: Self)
        ensures
            r.object_id@ == object_id@,
            r.payload@ == payload@,
    {
        CSAwarenessUpdate { object_id, payload }
    }
}

/// An incremental update a client sends for one object.
#[derive(Debug)]
pub struct ClientCollabUpdate {
    pub origin: CollabOrigin,
    pub object_id: String,
    pub msg_id: MsgId,
    pub payload: Vec<u8>,
}

impl Clone for ClientCollabUpdate {
    fn clone(&self) -> (r: Self)
        ensures
            r.object_id@ == self.object_id@,
            r.msg_id == self.msg_id,
            r.payload@ == self.payload@,
    {
        ClientCollabUpdate {
            origin: self.origin.clone(),
            object_id: self.object_id.clone(),
            msg_id: self.msg_id,
            payload: self.payload.clone(),
        }
    }
}

impl ClientCollabUpdate {
    pub fn new(origin: CollabOrigin, object_id: String, msg_id: MsgId, payload: Vec<u8>) -> (r:
        Self)
        ensures
            r.object_id@ == object_id@,
            r.msg_id == msg_id,
            r.payload@ == payload@,
            r.origin == origin,
    {
        ClientCollabUpdate { origin, object_id, msg_id, payload }
    }
}

/// The server's acknowledgement of one tracked client message.
#[derive(Debug)]
pub struct CollabServerAck {
    pub object_id: String,
    pub msg_id: MsgId,
    pub payload: Option<Vec<u8>>,
}

impl Clone for CollabServerAck {
    fn clone(&self) -> (r: Self)
        ensures
            r.object_id@ == self.object_id@,
            r.msg_id == self.msg_id,
            r.payload is Some <==> self.payload is Some,
            r.payload matches Some(p) ==> (self.payload matches Some(q) && p@ == q@),
    {
        let payload = match &self.payload {
            Some(p) => {
                let p2 = p.clone();
                proof {
                    assert(p2@ =~= p@);
                }
                Some(p2)
            },
            None => None,
        };
        CollabServerAck { object_id: self.object_id.clone(), msg_id: self.msg_id, payload }
    }
}

impl CollabServerAck {
    pub fn new(object_id: String, msg_id: MsgId, payload: Option<Vec<u8>>) -> (r: Self)
        ensures
            r.object_id@ == object_id@,
            r.msg_id == msg_id,
            r.payload == payload,
    {
        CollabServerAck { object_id, msg_id, payload }
    }
}

/// A client's request to initialize one object's sync, carrying the full
/// encoded state and its digest.
#[derive(Debug)]
pub struct ClientCollabInit {
    pub origin: CollabOrigin,
    pub object_id: String,
    pub collab_type: CollabType,
    pub workspace_id: String,
    pub msg_id: MsgId,
    pub payload: Vec<u8>,
    pub md5: String,
}

impl Clone for ClientCollabInit {
    fn clone(&self) -> (r: Self)
        ensures
            r.object_id@ == self.object_id@,
            r.msg_id == self.msg_id,
            r.payload@ == self.payload@,
            r.md5@ == self.md5@,
    {
        ClientCollabInit {
            origin: self.origin.clone(),
            object_id: self.object_id.clone(),
            collab_type: self.collab_type,
            workspace_id: self.workspace_id.clone(),
            msg_id: self.msg_id,
            payload: self.payload.clone(),
            md5: self.md5.clone(),
        }
    }
}

impl ClientCollabInit {
    /// The digest field is derived from the payload on construction.
    pub fn new(
        origin: CollabOrigin,
        object_id: String,
        collab_type: CollabType,
        workspace_id: String,
        msg_id: MsgId,
        payload: Vec<u8>,
    ) -> (r: Self)
        ensures
            r.object_id@ == object_id@,
            r.collab_type == collab_type,
            r.workspace_id@ == workspace_id@,
            r.msg_id == msg_id,
            r.payload@ == payload@,
            r.md5@ == md5_hex(payload@),
    {
        let digest = md5(payload.as_slice());
        ClientCollabInit {
            origin,
            object_id,
            collab_type,
            workspace_id,
            msg_id,
            payload,
            md5: digest,
        }
    }
}

/// The lowercase hexadecimal MD5 digest of the bytes. Stands for what
/// `md5::compute` yields, a function of the bytes alone.
pub uninterp spec fn md5_hex(data: Seq<u8>) -> Seq<char>;

/// Relies on `md5::compute`: the MD5 digest of the bytes, rendered as
/// lowercase hexadecimal.
#[verifier::external_body]
pub fn md5(data: &[u8]) -> (r: String)
    ensures
        r@ == md5_hex(data@),
{
    let digest = md5::compute(data);
    format!("{:x}", digest)
}

/// The server's reply carrying a missing object's state.
#[derive(Debug)]
pub struct CollabServerResponse {
    pub origin: Option<CollabOrigin>,
    pub object_id: String,
    pub payload: Vec<u8>,
}

impl Clone for CollabServerResponse {
    fn clone(&self) -> (r: Self)
        ensures
            r.object_id@ == self.object_id@,
            r.payload@ == self.payload@,
    {
        let origin = match &self.origin {
            Some(o) => Some(o.clone()),
            None => None,
        };
        CollabServerResponse {
            origin,
            object_id: self.object_id.clone(),
            payload: self.payload.clone(),
        }
    }
}

impl CollabServerResponse {
    pub fn new(origin: Option<CollabOrigin>, object_id: String, payload: Vec<u8>) -> (r: Self)
        ensures
            r.object_id@ == object_id@,
            r.payload@ == payload@,
            r.origin == origin,
    {
        CollabServerResponse { origin, object_id, payload }
    }
}

/// An update the server broadcasts to every subscriber of one object.
#[derive(Debug)]
pub struct CollabServerBroadcast {
    pub origin: CollabOrigin,
    pub object_id: String,
    pub payload: Vec<u8>,
}

impl Clone for CollabServerBroadcast {
    fn clone(&self) -> (r: Self)
        ensures
            r.object_id@ == self.object_id@,
            r.payload@ == self.payload@,
    {
        CollabServerBroadcast {
            origin: self.origin.clone(),
            object_id: self.object_id.clone(),
            payload: self.payload.clone(),
        }
    }
}

impl CollabServerBroadcast {
    pub fn new(origin: CollabOrigin, object_id: String, payload: Vec<u8>) -> (r: Self)
        ensures
            r.object_id@ == object_id@,
            r.payload@ == payload@,
            r.origin == origin,
    {
        CollabServerBroadcast { origin, object_id, payload }
    }
}

/// The server's request that a client sync one object, tracked by id.
#[derive(Debug)]
pub struct CollabServerSync {
    pub origin: CollabOrigin,
    pub object_id: String,
    pub payload: Vec<u8>,
    pub msg_id: MsgId,
}

impl Clone for CollabServerSync {
    fn clone(&self) -> (r: Self)
        ensures
            r.object_id@ == self.object_id@,
            r.payload@ == self.payload@,
            r.msg_id == self.msg_id,
    {
        CollabServerSync {
            origin: self.origin.clone(),
            object_id: self.object_id.clone(),
            payload: self.payload.clone(),
            msg_id: self.msg_id,
        }
    }
}

impl CollabServerSync {
    pub fn new(origin: CollabOrigin, object_id: String, payload: Vec<u8>, msg_id: MsgId) -> (r:
        Self)
        ensures
            r.object_id@ == object_id@,
            r.payload@ == payload@,
            r.msg_id == msg_id,
            r.origin == origin,
    {
        CollabServerSync { origin, object_id, payload, msg_id }
    }
}

} // verus!
