//! The clients connected to the host, each with its own virtual
//! controller, kept in the order they connected.

use vstd::prelude::*;
use vstd::string::*;
use crate::device::{Device, DeviceEvent, readings_view, reading_events};
use crate::gamepad::{Gamepad, pad_apply};

verus! {

/// One connected client: the id it connected with and its controller.
pub struct Client<D> {
    id: String,
    device: D,
}

/// The name of the controller made for a client with this nickname.
pub open spec fn controller_name(nickname: Seq<char>) -> Seq<char> {
    nickname + "'s Controller"@
}

/// A client as its id and its controller.
pub type Entry<D> = (Seq<char>, D);

impl<D> Client<D> {
    pub closed spec fn entry(&self) -> Entry<D> {
        (self.id@, self.device)
    }

    /// A client with the given id and controller.
    pub fn new(id: String, device: D) -> (r: Self)
        ensures
            r.entry() == (id@, device),
    {
        Client { id, device }
    }

    /// The name under which a client's controller is created.
    pub fn device_name(nickname: &str) -> (r: String)
        ensures
            r@ == controller_name(nickname@),
    {
        let mut name = nickname.to_owned();
        name.append("'s Controller");
        name
    }

    /// The id the client connected with.
    pub fn get_id(&self) -> (r: &str)
        ensures
            r@ == self.entry().0,
    {
        self.id.as_str()
    }

    /// The client's controller.
    pub fn device(&self) -> (r: &D)
        ensures
            *r == self.entry().1,
    {
        &self.device
    }

    /// The client's controller, to change.
    pub fn device_mut(&mut self) -> (r: &mut D)
        ensures
            *r == old(self).entry().1,
            final(self).entry() == (old(self).entry().0, *final(r)),
    {
        &mut self.device
    }
}

impl<H> Client<Device<H>> {
    /// The events that the client's readings become on its controller.
    pub fn set(&self, readings: &Vec<(String, i32)>) -> (r: Vec<DeviceEvent>)
        ensures
            r@ == reading_events(readings_view(readings@)).push(DeviceEvent::Sync),
    {
        self.device.set_controls(readings)
    }
}

impl<H> Client<Gamepad<H>> {
    /// Takes the client's readings into its pad.
    pub fn set(&mut self, readings: &Vec<(String, i32)>)
        requires
            old(self).entry().1.wf(),
        ensures
            final(self).entry().0 == old(self).entry().0,
            final(self).entry().1.wf(),
            final(self).entry().1.handle() == old(self).entry().1.handle(),
            final(self).entry().1.state() == pad_apply(
                old(self).entry().1.state(),
                readings_view(readings@),
            ),
    {
        self.device.set_controls(readings)
    }
}

/// The position of the first entry with the id `id`, if any.
pub open spec fn first_with<D>(s: Seq<Entry<D>>, id: Seq<char>) -> Option<int>
    decreases s.len(),
{
    if s.len() == 0 {
        None
    } else {
        match first_with(s.drop_last(), id) {
            Some(i) => Some(i),
            None => if s.last().0 == id {
                Some(s.len() - 1)
            } else {
                None
            },
        }
    }
}

/// The entries without the first one with the id `id`.
pub open spec fn without_first<D>(s: Seq<Entry<D>>, id: Seq<char>) -> Seq<Entry<D>> {
    match first_with(s, id) {
        Some(i) => s.remove(i),
        None => s,
    }
}

/// Whether no entry has the id `id`.
pub open spec fn has_none_with<D>(s: Seq<Entry<D>>, id: Seq<char>) -> bool {
    forall|j: int| 0 <= j < s.len() ==> (#[trigger] s[j]).0 != id
}

/// The first entry with `id` is at `i` when `i` holds it and no entry
/// before does; there is none when no entry holds it.
pub proof fn lemma_first_with<D>(s: Seq<Entry<D>>, id: Seq<char>, i: int)
    requires
        0 <= i <= s.len(),
        forall|j: int| 0 <= j < i ==> (#[trigger] s[j]).0 != id,
        i < s.len() ==> s[i].0 == id,
    ensures
        first_with(s, id) == (if i < s.len() {
            Some(i)
        } else {
            None::<int>
        }),
    decreases s.len(),
{
    if s.len() > 0 {
        if i < s.len() - 1 {
            lemma_first_with(s.drop_last(), id, i);
        } else {
            lemma_first_with(s.drop_last(), id, s.len() - 1);
        }
    }
}

/// What `first_with` gives: an entry with the id and none before it, or
/// no entry with the id at all.
pub proof fn lemma_first_with_meaning<D>(s: Seq<Entry<D>>, id: Seq<char>)
    ensures
        match first_with(s, id) {
            Some(i) => 0 <= i < s.len() && s[i].0 == id && forall|j: int|
                0 <= j < i ==> (#[trigger] s[j]).0 != id,
            None => has_none_with(s, id),
        },
    decreases s.len(),
{
    if s.len() > 0 {
        lemma_first_with_meaning(s.drop_last(), id);
        assert forall|j: int| 0 <= j < s.len() - 1 implies s[j] == s.drop_last()[j] by {}
    }
}

/// A client that connects with an id no other client holds, and then
/// disconnects, leaves the clients as they were before it connected.
pub proof fn law_disconnect_undoes_connect<D>(before: Seq<Entry<D>>, id: Seq<char>, device: D)
    requires
        has_none_with(before, id),
    ensures
        without_first(before.push((id, device)), id) == before,
{
    let after = before.push((id, device));
    lemma_first_with(after, id, before.len() as int);
    assert(after.remove(before.len() as int) =~= before);
}

/// Once a client has connected, readings for its id reach a client: the
/// first that connected with that id, which is the new one exactly when
/// no other client held the id.
pub proof fn law_connected_client_is_found<D>(before: Seq<Entry<D>>, id: Seq<char>, device: D)
    ensures
        first_with(before.push((id, device)), id) == match first_with(before, id) {
            Some(i) => Some(i),
            None => Some(before.len() as int),
        },
{
    let after = before.push((id, device));
    lemma_first_with_meaning(before, id);
    match first_with(before, id) {
        Some(i) => {
            assert forall|j: int| 0 <= j < i implies (#[trigger] after[j]).0 != id by {
                assert(after[j] == before[j]);
            }
            lemma_first_with(after, id, i);
        },
        None => {
            assert forall|j: int| 0 <= j < before.len() implies (#[trigger] after[j]).0 != id by {
                assert(after[j] == before[j]);
            }
            lemma_first_with(after, id, before.len() as int);
        },
    }
}

/// Disconnecting an id that no client holds changes nothing.
pub proof fn law_disconnect_unknown_changes_nothing<D>(clients: Seq<Entry<D>>, id: Seq<char>)
    requires
        has_none_with(clients, id),
    ensures
        without_first(clients, id) == clients,
{
    lemma_first_with(clients, id, clients.len() as int);
}

/// Disconnecting an id that some client holds removes exactly one client,
/// one that holds the id, and keeps the order of the others.
pub proof fn law_disconnect_removes_one<D>(clients: Seq<Entry<D>>, id: Seq<char>)
    requires
        !has_none_with(clients, id),
    ensures
        exists|i: int|
            0 <= i < clients.len() && clients[i].0 == id && without_first(clients, id)
                == clients.remove(i),
        without_first(clients, id).len() == clients.len() - 1,
{
    lemma_first_with_meaning(clients, id);
}

/// The clients connected to the host.
pub struct Host<D> {
    clients: Vec<Client<D>>,
}

impl<D> Host<D> {
    /// The clients as entries, in the order they connected.
    pub closed spec fn entries(&self) -> Seq<Entry<D>> {
        self.clients@.map_values(|c: Client<D>| c.entry())
    }

    /// A host with no clients.
    pub fn new() -> (r: Self)
        ensures
            r.entries() == Seq::<Entry<D>>::empty(),
    {
        let r = Host { clients: Vec::new() };
        assert(r.entries() =~= Seq::<Entry<D>>::empty());
        r
    }

    /// The number of clients.
    pub fn len(&self) -> (r: usize)
        ensures
            r == self.entries().len(),
    {
        self.clients.len()
    }

    /// The client at `i`.
    pub fn client(&self, i: usize) -> (r: &Client<D>)
        requires
            i < self.entries().len(),
        ensures
            r.entry() == self.entries()[i as int],
    {
        &self.clients[i]
    }

    /// The client at `i`, to change.
    pub fn client_mut(&mut self, i: usize) -> (r: &mut Client<D>)
        requires
            i < old(self).entries().len(),
        ensures
            r.entry() == old(self).entries()[i as int],
            final(self).entries() == old(self).entries().update(i as int, final(r).entry()),
    {
        let r = &mut self.clients[i];
        r
    }

    /// Connects a client with the id `id` and the controller `device`.
    pub fn add_client(&mut self, id: String, device: D)
        ensures
            final(self).entries() == old(self).entries().push((id@, device)),
    {
        let c = Client::new(id, device);
        self.clients.push(c);
        assert(self.entries() =~= old(self).entries().push((id@, device)));
    }

    /// The position of the first client with the id `id`, if there is one.
    pub fn find_client(&self, id: &str) -> (r: Option<usize>)
        ensures
            r matches Some(i) ==> i < self.entries().len(),
            match r {
                Some(i) => first_with(self.entries(), id@) == Some(i as int),
                None => first_with(self.entries(), id@) == None::<int>,
            },
    {
        let mut i: usize = 0;
        while i < self.clients.len()
            invariant
                i <= self.clients@.len(),
                forall|j: int| 0 <= j < i ==> (#[trigger] self.entries()[j]).0 != id@,
            decreases self.clients.len() - i,
        {
            if str_eq(self.clients[i].get_id(), id) {
                proof {
                    lemma_first_with(self.entries(), id@, i as int);
                }
                return Some(i);
            }
            i = i + 1;
        }
        proof {
            lemma_first_with(self.entries(), id@, self.entries().len() as int);
        }
        None
    }

    /// Disconnects the first client with the id `id`, if there is one, and
    /// hands back its controller.
    pub fn remove_client(&mut self, id: &str) -> (r: Option<D>)
        ensures
            final(self).entries() == without_first(old(self).entries(), id@),
            match first_with(old(self).entries(), id@) {
                Some(i) => r == Some(old(self).entries()[i].1),
                None => r is None,
            },
    {
        match self.find_client(id) {
            Some(i) => {
                let c = self.clients.remove(i);
                assert(self.entries() =~= old(self).entries().remove(i as int));
                Some(c.device)
            },
            None => None,
        }
    }
}

impl<H> Host<Device<H>> {
    /// Where readings for `id` go: the first client with that id, and the
    /// events they become on its controller; nothing without such a client.
    pub fn set_controls(&self, id: &str, readings: &Vec<(String, i32)>) -> (r: Option<(usize, Vec<DeviceEvent>)>)
        ensures
            match r {
                Some((i, events)) => first_with(self.entries(), id@) == Some(i as int) && events@
                    == reading_events(readings_view(readings@)).push(DeviceEvent::Sync),
                None => first_with(self.entries(), id@) == None::<int>,
            },
    {
        match self.find_client(id) {
            Some(i) => Some((i, self.clients[i].set(readings))),
            None => None,
        }
    }
}

impl<H> Host<Gamepad<H>> {
    /// Whether every client's pad is well formed.
    pub open spec fn pads_wf(&self) -> bool {
        forall|i: int| 0 <= i < self.entries().len() ==> (#[trigger] self.entries()[i]).1.wf()
    }

    /// Takes readings for `id` into the pad of the first client with that id
    /// and says which client that was; without such a client nothing changes.
    pub fn set_controls(&mut self, id: &str, readings: &Vec<(String, i32)>) -> (r: Option<usize>)
        requires
            old(self).pads_wf(),
        ensures
            final(self).pads_wf(),
            r == match first_with(old(self).entries(), id@) {
                Some(i) => Some(i as usize),
                None => None::<usize>,
            },
            match first_with(old(self).entries(), id@) {
                Some(i) => exists|g: Gamepad<H>|
                    final(self).entries() == old(self).entries().update(i, (id@, g)) && g.wf()
                        && g.handle() == old(self).entries()[i].1.handle() && g.state() == pad_apply(
                        old(self).entries()[i].1.state(),
                        readings_view(readings@),
                    ),
                None => final(self).entries() == old(self).entries(),
            },
    {
        match self.find_client(id) {
            Some(i) => {
                proof {
                    lemma_first_with_meaning(old(self).entries(), id@);
                }
                let c = self.client_mut(i);
                c.set(readings);
                Some(i)
            },
            None => None,
        }
    }
}

/// Whether two strings are equal.
fn str_eq(a: &str, b: &str) -> (r: bool)
    ensures
        r == (a@ == b@),
{
    let x = a.to_owned();
    let y = b.to_owned();
    x == y
}

} // verus!
