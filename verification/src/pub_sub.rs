//! The publish/subscribe transport: the capability contracts the core needs
//! from it, and the kinds of transport a deployment can pick.
//!
//! The publisher's contract keeps a history of the publications attempted on
//! it, so that the flows' contracts can say what a flow published, how often,
//! and on which topic — whatever the transport answered.

use vstd::prelude::*;

use crate::errors::PubSubError;

verus! {

/// One publication on the transport: the topic, the payload, and whether the
/// transport accepted it.
pub struct PublishEvent {
    pub topic: Seq<char>,
    pub payload: Seq<char>,
    pub ok: bool,
}

/// The publishing half of the transport.
pub trait TPublisher {
    /// All publications attempted so far, oldest first.  An implementation
    /// outside the verifier leaves the default model; verified callers rely
    /// only on the contract below.
    open spec fn publish_events(&self) -> Seq<PublishEvent> {
        Seq::empty()
    }

    /// Hands the payload to the transport under the given topic.
    fn publish(&mut self, topic: String, message: String) -> (r: Result<(), PubSubError>)
        ensures
            final(self).publish_events() == old(self).publish_events().push(PublishEvent {
                topic: topic@,
                payload: message@,
                ok: r is Ok,
            }),
    ;
}

/// The subscribing half of the transport.
pub trait TSubscriber {
    /// The topics subscribed to so far.
    open spec fn subscriptions(&self) -> Seq<Seq<char>> {
        Seq::empty()
    }

    /// Registers interest in the given topics.
    fn subscribe(&mut self, topics: Vec<String>) -> (r: Result<(), PubSubError>)
        ensures
            r is Ok ==> final(self).subscriptions() == old(self).subscriptions() + topics.deep_view(),
            r is Err ==> final(self).subscriptions() == old(self).subscriptions(),
    ;

    /// Blocks until a message arrives on a subscribed topic; yields the
    /// payload and the topic it arrived on.
    fn listen_until_receive_message(&mut self) -> (r: Result<(String, String), PubSubError>);
}

/// The whole transport: both halves on one connection.
pub trait PubSubProvider: TPublisher + TSubscriber {
}

/// The kinds of transport a deployment can pick.
#[derive(Clone, Debug, PartialEq, Eq, Structural)]
pub enum PubSubType {
    Redis,
}

impl core::str::FromStr for PubSubType {
    type Err = ();

    fn from_str(input: &str) -> Result<PubSubType, ()> {
        if input == "Redis" {
            Ok(PubSubType::Redis)
        } else {
            Err(())
        }
    }
}

} // verus!
