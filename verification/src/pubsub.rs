use vstd::prelude::*;

use crate::log::Entry;

verus! {

/// A message published on a channel.
#[derive(Debug, PartialEq, Eq)]
pub struct Message {
    pub content: String,
    pub channel: String,
}

impl Clone for Message {
    fn clone(&self) -> (res: Self)
        ensures
            res == *self,
    {
        Message { content: self.content.clone(), channel: self.channel.clone() }
    }
}

impl Entry for Message {
    fn deliver(&mut self) {
    }
}

impl Message {
    /// JSON-like form: `{ "content": "..", "channel":".." }`.
    pub fn to_display_string(&self) -> (res: String)
        ensures
            res@ == "{ \"content\": \""@ + self.content@ + "\", \"channel\":\""@ + self.channel@
                + "\" }"@,
    {
        let mut s = String::from_str("{ \"content\": \"");
        s.append(self.content.as_str());
        s.append("\", \"channel\":\"");
        s.append(self.channel.as_str());
        s.append("\" }");
        s
    }
}

/// What a publisher sends to register `topic`: `PUB topic`.
pub fn publisher_registration(topic: &str) -> (res: String)
    ensures
        res@ == "PUB "@ + topic@,
{
    let mut s = String::from_str("PUB ");
    s.append(topic);
    s
}

/// What a subscriber sends to register for `topic`: `SUB topic`.
pub fn subscriber_registration(topic: &str) -> (res: String)
    ensures
        res@ == "SUB "@ + topic@,
{
    let mut s = String::from_str("SUB ");
    s.append(topic);
    s
}

} // verus!
