//! Numbers for client connections: the display names a client by an opaque
//! id, the session by a number.

use crate::wayland::same_client;
use vstd::prelude::*;
use wayland_server::backend::ClientId;

verus! {

/// No id occurs twice in `ids`.
pub open spec fn distinct(ids: Seq<ClientId>) -> bool {
    forall|i: int, j: int| 0 <= i < j < ids.len() ==> ids[i] != ids[j]
}

/// The client ids seen once `id` has been seen too.
pub open spec fn seen(clients: Seq<ClientId>, id: ClientId) -> Seq<ClientId> {
    if clients.contains(id) {
        clients
    } else {
        clients.push(id)
    }
}

/// The number under which the session knows the client `id`.
pub open spec fn number(clients: Seq<ClientId>, id: ClientId) -> u64 {
    clients.index_of(id) as u64
}

/// In a table that holds every id once, an id stands where its number says
/// and nowhere else.
pub proof fn lemma_number(clients: Seq<ClientId>, id: ClientId, key: u64)
    requires
        distinct(clients),
        key < clients.len(),
        clients[key as int] == id,
    ensures
        number(clients, id) == key,
{
    let at = clients.index_of(id);
    assert(clients.contains(id));
    if at < key {
        assert(clients[at] != clients[key as int]);
    }
    if key < at {
        assert(clients[key as int] != clients[at]);
    }
}

/// Seeing a client keeps the table sound and makes the client known; every
/// client that was known stays known.
pub proof fn law_seen_is_sound(clients: Seq<ClientId>, id: ClientId)
    requires
        distinct(clients),
    ensures
        distinct(seen(clients, id)),
        seen(clients, id).contains(id),
        forall|other: ClientId| clients.contains(other) ==> seen(clients, id).contains(other),
        seen(seen(clients, id), id) == seen(clients, id),
{
    let after = seen(clients, id);
    if !clients.contains(id) {
        assert(after[clients.len() as int] == id);
        assert forall|i: int, j: int| 0 <= i < j < after.len() implies after[i] != after[j] by {
            if j < clients.len() {
                assert(clients[i] != clients[j]);
            } else {
                assert(clients.contains(clients[i]));
            }
        }
        assert forall|other: ClientId| clients.contains(other) implies after.contains(other) by {
            let at = clients.index_of(other);
            assert(after[at] == other);
        }
    }
}

/// The number of a client names that client and no other: two clients that
/// were seen have different numbers.
pub proof fn law_numbers_differ(clients: Seq<ClientId>, one: ClientId, other: ClientId)
    requires
        distinct(clients),
        clients.len() <= usize::MAX,
        clients.contains(one),
        clients.contains(other),
        one != other,
    ensures
        number(clients, one) < clients.len(),
        clients[number(clients, one) as int] == one,
        number(clients, one) != number(clients, other),
{
}

/// A client keeps its number whoever is seen after it.
pub proof fn law_number_is_kept(clients: Seq<ClientId>, id: ClientId, later: ClientId)
    requires
        distinct(clients),
        seen(clients, later).len() <= usize::MAX,
        clients.contains(id),
    ensures
        number(seen(clients, later), id) == number(clients, id),
{
    law_seen_is_sound(clients, later);
    let at = clients.index_of(id);
    assert(seen(clients, later)[at] == id);
    lemma_number(seen(clients, later), id, at as u64);
}

/// The client ids that were seen, each at the place of its number.
#[derive(Debug)]
pub struct ClientTable {
    ids: Vec<ClientId>,
}

impl View for ClientTable {
    type V = Seq<ClientId>;

    closed spec fn view(&self) -> Seq<ClientId> {
        self.ids@
    }
}

impl ClientTable {
    /// What holds of every table: no id stands in it twice, and it is no
    /// longer than a vector can be.
    #[verifier::type_invariant]
    pub closed spec fn inv(self) -> bool {
        distinct(self.ids@) && self.ids@.len() <= usize::MAX
    }

    /// A table that meets its invariant holds every id once, and every number
    /// that it gives fits the machine.
    pub proof fn lemma_sound(self)
        requires
            self.inv(),
        ensures
            distinct(self@),
            self@.len() <= usize::MAX,
    {
    }

    /// A table that has seen no client.
    pub fn new() -> (table: ClientTable)
        ensures
            table@ == Seq::<ClientId>::empty(),
    {
        ClientTable { ids: Vec::new() }
    }

    /// The number of `id`: the one it got when it was first seen, or a new
    /// one. Two ids have the same number only if they are the same.
    pub fn key_of(&mut self, id: ClientId) -> (key: u64)
        ensures
            distinct(old(self)@),
            distinct(final(self)@),
            old(self)@.len() <= usize::MAX,
            final(self)@.len() <= usize::MAX,
            key < final(self)@.len(),
            final(self)@[key as int] == id,
            old(self)@.contains(id) ==> final(self)@ == old(self)@,
            !old(self)@.contains(id) ==> final(self)@ == old(self)@.push(id),
    {
        proof {
            use_type_invariant(&*self);
        }
        let mut i: usize = 0;
        while i < self.ids.len()
            invariant
                i <= self.ids@.len(),
                self.ids@ == old(self).ids@,
                distinct(self.ids@),
                self.ids@.len() <= usize::MAX,
                forall|j: int| 0 <= j < i ==> self.ids@[j] != id,
            decreases self.ids@.len() - i,
        {
            if same_client(&self.ids[i], &id) {
                return i as u64;
            }
            i = i + 1;
        }
        let mut ids: Vec<ClientId> = Vec::new();
        core::mem::swap(&mut self.ids, &mut ids);
        ids.push(id);
        let seen = ids.len();
        self.ids = ids;
        (seen - 1) as u64
    }
}

} // verus!
