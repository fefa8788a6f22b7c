//! The messages that controller apps send over the web socket, and what
//! the host does with each.

use vstd::prelude::*;
use crate::host::{Entry, Host, first_with, without_first};
use crate::text::chars_of;

verus! {

/// What a message asks for, by its `rtype` field.
#[derive(Clone, Copy, Debug, PartialEq, Eq, Structural)]
pub enum MessageKind {
    Connect,
    Controls,
    Disconnect,
    GetAudio,
    Other,
}

/// The kind of a message with the given `rtype`; a message without a
/// string `rtype`, or one that is not JSON, asks for nothing.
pub open spec fn kind_of(rtype: Option<Seq<char>>) -> MessageKind {
    match rtype {
        Some(r) => if r == "connect"@ {
            MessageKind::Connect
        } else if r == "controls"@ {
            MessageKind::Controls
        } else if r == "disconnect"@ {
            MessageKind::Disconnect
        } else if r == "get_audio"@ {
            MessageKind::GetAudio
        } else {
            MessageKind::Other
        },
        None => MessageKind::Other,
    }
}

/// Each kind of message is asked for by exactly one `rtype`, and a
/// message without a string `rtype` asks for nothing.
pub proof fn law_each_kind_has_one_rtype(r: Seq<char>)
    ensures
        kind_of(Some(r)) == MessageKind::Connect <==> r == "connect"@,
        kind_of(Some(r)) == MessageKind::Controls <==> r == "controls"@,
        kind_of(Some(r)) == MessageKind::Disconnect <==> r == "disconnect"@,
        kind_of(Some(r)) == MessageKind::GetAudio <==> r == "get_audio"@,
        kind_of(None) == MessageKind::Other,
{
    reveal_strlit("connect");
    reveal_strlit("controls");
    reveal_strlit("disconnect");
    reveal_strlit("get_audio");
    assert("connect"@.len() == 7);
    assert("controls"@.len() == 8);
    assert("disconnect"@.len() == 10);
    assert("get_audio"@.len() == 9);
}

/// The string in the field `rtype` of the JSON text `json`, if the text is
/// JSON and that field holds a string.
pub uninterp spec fn json_rtype(json: Seq<char>) -> Option<Seq<char>>;

/// Reads `json` with `serde_json::from_str` into a `serde_json::Value` and
/// takes `as_str` of its `"rtype"` entry. The result is named, not stated:
/// it is `json_rtype` of the text.
#[verifier::external_body]
fn read_rtype(json: &str) -> (r: Option<String>)
    ensures
        match r {
            Some(s) => json_rtype(json@) == Some(s@),
            None => json_rtype(json@) == None::<Seq<char>>,
        },
{
    match serde_json::from_str::<serde_json::Value>(json) {
        Ok(data) => match data["rtype"].as_str() {
            Some(rtype) => Some(rtype.to_string()),
            None => None,
        },
        Err(_) => None,
    }
}

fn is_word(name: &Vec<char>, word: &str) -> (b: bool)
    ensures
        b == (name@ == word@),
{
    let w = chars_of(word);
    assert(name@.subrange(0, name.len() as int) =~= name@);
    crate::text::equals_at(name, 0, name.len(), &w)
}

/// The kind of a message whose `rtype` is `rtype`.
pub fn message_kind(rtype: Option<&str>) -> (k: MessageKind)
    ensures
        k == kind_of(
            match rtype {
                Some(r) => Some(r@),
                None => None,
            },
        ),
{
    match rtype {
        Some(r) => {
            let n = chars_of(r);
            if is_word(&n, "connect") {
                MessageKind::Connect
            } else if is_word(&n, "controls") {
                MessageKind::Controls
            } else if is_word(&n, "disconnect") {
                MessageKind::Disconnect
            } else if is_word(&n, "get_audio") {
                MessageKind::GetAudio
            } else {
                MessageKind::Other
            }
        },
        None => MessageKind::Other,
    }
}

/// The kind of the JSON message `json`.
pub fn classify(json: &str) -> (k: MessageKind)
    ensures
        k == kind_of(json_rtype(json@)),
{
    match read_rtype(json) {
        Some(r) => message_kind(Some(r.as_str())),
        None => message_kind(None),
    }
}

/// A message with its content read: a client that connects (with the
/// controller made for it), readings for a client, a client that leaves,
/// a request for the audio picker, or anything else.
pub enum Message<D> {
    Connect { id: String, device: D },
    Controls { id: String, readings: Vec<(String, i32)> },
    Disconnect { id: String },
    GetAudio,
    Other,
}

/// What is left to do after a message: nothing, open the audio picker, or
/// hand readings to the client at a position.
pub enum Reply {
    Nothing,
    OpenPicker,
    Deliver { client: usize, readings: Vec<(String, i32)> },
}

/// Reads the messages of the controller apps and keeps the host's clients.
pub struct Parser<D> {
    host: Host<D>,
}

impl<D> Parser<D> {
    pub closed spec fn host_view(&self) -> Host<D> {
        self.host
    }

    /// A parser whose host has no clients.
    pub fn new() -> (r: Self)
        ensures
            r.host_view().entries() == Seq::<Entry<D>>::empty(),
    {
        Parser { host: Host::new() }
    }

    /// The host.
    pub fn host(&self) -> (r: &Host<D>)
        ensures
            *r == self.host_view(),
    {
        &self.host
    }

    /// The host, to change.
    pub fn host_mut(&mut self) -> (r: &mut Host<D>)
        ensures
            *r == old(self).host_view(),
            final(self).host_view() == *final(r),
    {
        &mut self.host
    }

    /// Acts on one message: a connect adds a client, a disconnect removes
    /// the first client with its id, readings go to the first client with
    /// their id, a request for audio opens the picker.
    pub fn parse(&mut self, msg: Message<D>) -> (r: Reply)
        ensures
            match msg {
                Message::Connect { id, device } => r is Nothing && final(self).host_view().entries()
                    == old(self).host_view().entries().push((id@, device)),
                Message::Controls { id, readings } => {
                    &&& final(self).host_view() == old(self).host_view()
                    &&& match first_with(old(self).host_view().entries(), id@) {
                        Some(i) => r == Reply::Deliver { client: i as usize, readings },
                        None => r is Nothing,
                    }
                },
                Message::Disconnect { id } => r is Nothing && final(self).host_view().entries()
                    == without_first(old(self).host_view().entries(), id@),
                Message::GetAudio => r is OpenPicker && final(self).host_view() == old(self).host_view(),
                Message::Other => r is Nothing && final(self).host_view() == old(self).host_view(),
            },
    {
        match msg {
            Message::Connect { id, device } => {
                self.host.add_client(id, device);
                Reply::Nothing
            },
            Message::Controls { id, readings } => match self.host.find_client(id.as_str()) {
                Some(i) => Reply::Deliver { client: i, readings },
                None => Reply::Nothing,
            },
            Message::Disconnect { id } => {
                let _ = self.host.remove_client(id.as_str());
                Reply::Nothing
            },
            Message::GetAudio => Reply::OpenPicker,
            Message::Other => Reply::Nothing,
        }
    }
}

} // verus!
