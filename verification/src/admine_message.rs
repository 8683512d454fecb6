//! The event envelope exchanged over the bus: an origin naming the sender
//! category, a set of tags naming the event kind, and a single payload string.

use vstd::prelude::*;

verus! {

/// Mathematical view of an envelope: each field as a sequence of characters.
#[verifier::ext_equal]
pub struct AdmineMessageView {
    pub origin: Seq<char>,
    pub tags: Seq<Seq<char>>,
    pub message: Seq<char>,
}

impl AdmineMessageView {
    /// Whether one of the tags equals `tag`.
    pub open spec fn has_tag(self, tag: Seq<char>) -> bool {
        exists|i: int| 0 <= i < self.tags.len() && self.tags[i] == tag
    }
}

/// The event envelope: the fixed message unit flowing over the bus.
#[derive(Debug, Clone)]
pub struct AdmineMessage {
    origin: String,
    tags: Vec<String>,
    message: String,
}

impl View for AdmineMessage {
    type V = AdmineMessageView;

    closed spec fn view(&self) -> AdmineMessageView {
        AdmineMessageView {
            origin: self.origin.view(),
            tags: self.tags.deep_view(),
            message: self.message.view(),
        }
    }
}

impl AdmineMessage {
    /// Builds an envelope with the given tags and payload and an empty origin;
    /// the sender fills in its own origin before publishing.
    pub fn new(tags: Vec<String>, message: String) -> (r: Self)
        ensures
            r@.origin.len() == 0,
            r@.tags == tags.deep_view(),
            r@.message == message@,
    {
        Self { origin: String::new(), tags, message }
    }

    /// The origin of the envelope: the logical sender category.
    pub fn origin(&self) -> (r: &String)
        ensures
            r@ == self@.origin,
    {
        &self.origin
    }

    /// The tags of the envelope.
    pub fn tags(&self) -> (r: &Vec<String>)
        ensures
            r.deep_view() == self@.tags,
    {
        &self.tags
    }

    /// The payload string of the envelope.
    pub fn message(&self) -> (r: &String)
        ensures
            r@ == self@.message,
    {
        &self.message
    }

    /// Replaces the origin.
    pub fn set_origin(&mut self, origin: String)
        ensures
            final(self)@.origin == origin@,
            final(self)@.tags == old(self)@.tags,
            final(self)@.message == old(self)@.message,
    {
        self.origin = origin;
    }

    /// Replaces the tags.
    pub fn set_tags(&mut self, tags: Vec<String>)
        ensures
            final(self)@.tags == tags.deep_view(),
            final(self)@.origin == old(self)@.origin,
            final(self)@.message == old(self)@.message,
    {
        self.tags = tags;
    }

    /// Replaces the payload string.
    pub fn set_message(&mut self, message: String)
        ensures
            final(self)@.message == message@,
            final(self)@.origin == old(self)@.origin,
            final(self)@.tags == old(self)@.tags,
    {
        self.message = message;
    }

    /// Whether the envelope carries the given tag.
    pub fn has_tag(&self, tag: &str) -> (r: bool)
        ensures
            r == self@.has_tag(tag@),
    {
        let tag_owned: String = tag.to_owned();
        let n = self.tags.len();
        let mut i: usize = 0;
        while i < n
            invariant
                0 <= i <= n,
                n == self.tags.len(),
                tag_owned@ == tag@,
                forall|j: int| 0 <= j < i ==> self@.tags[j] != tag@,
            decreases n - i,
        {
            if self.tags[i] == tag_owned {
                assert(self@.tags[i as int] == tag@);
                return true;
            }
            i = i + 1;
        }
        false
    }
}

} // verus!
