//! The clients, by the id of their connection.

use vstd::prelude::*;
use crate::server::connection::ClientConnection;

verus! {

/// The clients, held in a `hashbrown::HashMap`.
#[verifier::external_body]
pub struct ClientMap {
    inner: hashbrown::HashMap<Vec<u8>, ClientConnection>,
}

/// The clients that a map holds, by the bytes of their connection ids.
pub uninterp spec fn clients_of(map: ClientMap) -> Map<Seq<u8>, ClientConnection>;

impl View for ClientMap {
    type V = Map<Seq<u8>, ClientConnection>;

    open spec fn view(&self) -> Map<Seq<u8>, ClientConnection> {
        clients_of(*self)
    }
}

/// The ids of a list, as sequences of bytes.
pub open spec fn id_views(ids: Seq<Vec<u8>>) -> Seq<Seq<u8>> {
    ids.map_values(|id: Vec<u8>| id@)
}

impl ClientMap {
    /// `hashbrown::HashMap::new`: there are no clients.
    #[verifier::external_body]
    pub(crate) fn new() -> (map: ClientMap)
        ensures
            clients_of(map).dom() == Set::<Seq<u8>>::empty(),
    {
        ClientMap { inner: hashbrown::HashMap::new() }
    }

    /// `hashbrown::HashMap::len`: the number of clients.
    #[verifier::external_body]
    pub(crate) fn len(&self) -> (n: usize)
        ensures
            n == clients_of(*self).dom().len(),
            n == 0 <==> clients_of(*self).dom() == Set::<Seq<u8>>::empty(),
    {
        self.inner.len()
    }

    /// `hashbrown::HashMap::get`: the client with an id, if there is one.
    #[verifier::external_body]
    pub(crate) fn get(&self, id: &Vec<u8>) -> (found: Option<&ClientConnection>)
        ensures
            match found {
                Some(client) => clients_of(*self).contains_key(id@) && *client == clients_of(
                    *self,
                )[id@],
                None => !clients_of(*self).contains_key(id@),
            },
    {
        self.inner.get(id)
    }

    /// `hashbrown::HashMap::get_mut`: lends the client with an id, if there is
    /// one, and keeps every other client.
    #[verifier::external_body]
    pub(crate) fn get_mut(&mut self, id: &Vec<u8>) -> (found: Option<&mut ClientConnection>)
        ensures
            match found {
                Some(client) => clients_of(*old(self)).contains_key(id@) && *client == clients_of(
                    *old(self),
                )[id@] && clients_of(*final(self)) == clients_of(*old(self)).insert(
                    id@,
                    *final(client),
                ),
                None => !clients_of(*old(self)).contains_key(id@) && clients_of(*final(self))
                    == clients_of(*old(self)),
            },
    {
        self.inner.get_mut(id)
    }

    /// `hashbrown::HashMap::entry` and `Entry::or_insert`: adds a client,
    /// unless there is one with the same id, which is then kept.
    #[verifier::external_body]
    pub(crate) fn insert_if_absent(&mut self, id: Vec<u8>, client: ClientConnection)
        ensures
            clients_of(*final(self)) == if clients_of(*old(self)).contains_key(id@) {
                clients_of(*old(self))
            } else {
                clients_of(*old(self)).insert(id@, client)
            },
    {
        self.inner.entry(id).or_insert(client);
    }

    /// `hashbrown::HashMap::remove`: there is no client with the id afterwards.
    #[verifier::external_body]
    pub(crate) fn remove(&mut self, id: &Vec<u8>)
        ensures
            clients_of(*final(self)) == clients_of(*old(self)).remove(id@),
    {
        self.inner.remove(id);
    }

    /// `hashbrown::HashMap::keys`: every id once, in no particular order.
    #[verifier::external_body]
    pub(crate) fn ids(&self) -> (ids: Vec<Vec<u8>>)
        ensures
            id_views(ids@).no_duplicates(),
            id_views(ids@).to_set() == clients_of(*self).dom(),
    {
        self.inner.keys().cloned().collect()
    }
}

} // verus!
