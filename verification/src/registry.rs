//! The connection registry: who is listening, by connection identifier, and
//! which connections belong to a room.
//!
//! In production the registry is a table of a durable store, written by the
//! connect and disconnect handlers and by the dispatcher's pruning. This
//! module holds what all of them agree on: the shape of a connection and of
//! its row, and the meaning of the four operations, as an in-memory registry
//! that keeps to it.

use crate::item::{
    number_attribute, number_of, string_attribute, string_of, AttributeValue, Item, ItemView,
};
use crate::string_map::{
    entries_map, keys_distinct, lemma_entries_map_dom, lemma_entries_map_value, StringMap,
};
use crate::text::{
    decimal_i64, decimal_text, i64_to_text, lemma_decimal_round_trip, same_text, texts_view,
};
use crate::types::Millis;
use vstd::prelude::*;
use vstd::string::StringExecFns;

verus! {

/// One live connection of a subscriber.
#[derive(Debug)]
pub struct Connection {
    /// The transport's name for the connection; the key of the registry.
    pub connection_id: String,
    /// The room whose messages the connection receives.
    pub room_id: String,
    pub username: String,
    /// When the connection was made.
    pub connected_at: Millis,
    /// The endpoint through which the connection was made.
    pub domain: String,
    pub stage: String,
    /// The second, counted from 1970-01-01T00:00:00Z, after which the store
    /// may drop the row by itself.
    pub ttl: i64,
}

/// A connection as contracts speak of it.
pub struct ConnectionView {
    pub connection_id: Seq<char>,
    pub room_id: Seq<char>,
    pub username: Seq<char>,
    pub connected_at: Millis,
    pub domain: Seq<char>,
    pub stage: Seq<char>,
    pub ttl: i64,
}

impl View for Connection {
    type V = ConnectionView;

    open spec fn view(&self) -> ConnectionView {
        ConnectionView {
            connection_id: self.connection_id@,
            room_id: self.room_id@,
            username: self.username@,
            connected_at: self.connected_at,
            domain: self.domain@,
            stage: self.stage@,
            ttl: self.ttl,
        }
    }
}

impl Clone for Connection {
    fn clone(&self) -> (copy: Self)
        ensures
            copy@ == self@,
    {
        Connection {
            connection_id: self.connection_id.clone(),
            room_id: self.room_id.clone(),
            username: self.username.clone(),
            connected_at: self.connected_at,
            domain: self.domain.clone(),
            stage: self.stage.clone(),
            ttl: self.ttl,
        }
    }
}

/// The row under which a connection is stored.
pub open spec fn connection_item(connection: ConnectionView) -> ItemView {
    Map::<Seq<char>, crate::item::AttributeValueView>::empty().insert(
        "connection_id"@,
        string_attribute(connection.connection_id),
    ).insert("room_id"@, string_attribute(connection.room_id)).insert(
        "username"@,
        string_attribute(connection.username),
    ).insert("connected_at"@, number_attribute(decimal_text(connection.connected_at as int))).insert(
        "domain"@,
        string_attribute(connection.domain),
    ).insert("stage"@, string_attribute(connection.stage)).insert(
        "ttl"@,
        number_attribute(decimal_text(connection.ttl as int)),
    )
}

/// The row of a connection holds the connection: its identifier and its room
/// can be read off it as strings, and its two numbers read back as they were
/// written.
pub proof fn lemma_connection_item(connection: ConnectionView)
    ensures
        string_of(connection_item(connection), "connection_id"@) == Some(
            connection.connection_id,
        ),
        string_of(connection_item(connection), "room_id"@) == Some(connection.room_id),
        string_of(connection_item(connection), "username"@) == Some(connection.username),
        number_of(connection_item(connection), "connected_at"@) == Some(
            decimal_text(connection.connected_at as int),
        ),
        number_of(connection_item(connection), "ttl"@) == Some(
            decimal_text(connection.ttl as int),
        ),
        decimal_i64(decimal_text(connection.connected_at as int)) == Some(
            connection.connected_at,
        ),
        decimal_i64(decimal_text(connection.ttl as int)) == Some(connection.ttl),
{
    reveal_strlit("connection_id");
    reveal_strlit("room_id");
    reveal_strlit("username");
    reveal_strlit("connected_at");
    reveal_strlit("domain");
    reveal_strlit("stage");
    reveal_strlit("ttl");
    assert("connection_id"@.len() != "room_id"@.len());
    assert("connection_id"@.len() != "username"@.len());
    assert("connection_id"@.len() != "connected_at"@.len());
    assert("connection_id"@.len() != "domain"@.len());
    assert("connection_id"@.len() != "stage"@.len());
    assert("connection_id"@.len() != "ttl"@.len());
    assert("room_id"@.len() != "username"@.len());
    assert("room_id"@.len() != "connected_at"@.len());
    assert("room_id"@.len() != "domain"@.len());
    assert("room_id"@.len() != "stage"@.len());
    assert("room_id"@.len() != "ttl"@.len());
    assert("username"@.len() != "connected_at"@.len());
    assert("username"@.len() != "domain"@.len());
    assert("username"@.len() != "stage"@.len());
    assert("username"@.len() != "ttl"@.len());
    assert("connected_at"@.len() != "domain"@.len());
    assert("connected_at"@.len() != "stage"@.len());
    assert("connected_at"@.len() != "ttl"@.len());
    assert("domain"@.len() != "stage"@.len());
    assert("domain"@.len() != "ttl"@.len());
    assert("stage"@.len() != "ttl"@.len());
    lemma_decimal_round_trip(connection.connected_at);
    lemma_decimal_round_trip(connection.ttl);
}

impl Connection {
    /// The row under which the connection is stored.
    pub fn to_item(&self) -> (item: Item)
        ensures
            item@ == connection_item(self@),
    {
        let mut item: Item = StringMap::new();
        item.insert(
            String::from_str("connection_id"),
            AttributeValue::string(self.connection_id.clone()),
        );
        item.insert(String::from_str("room_id"), AttributeValue::string(self.room_id.clone()));
        item.insert(String::from_str("username"), AttributeValue::string(self.username.clone()));
        item.insert(
            String::from_str("connected_at"),
            AttributeValue::number(i64_to_text(self.connected_at)),
        );
        item.insert(String::from_str("domain"), AttributeValue::string(self.domain.clone()));
        item.insert(String::from_str("stage"), AttributeValue::string(self.stage.clone()));
        item.insert(String::from_str("ttl"), AttributeValue::number(i64_to_text(self.ttl)));
        item
    }
}

/// The registry as contracts speak of it: connections by their identifier.
pub type RegistryView = Map<Seq<char>, ConnectionView>;

/// Every connection is filed under its own identifier.
pub open spec fn filed_by_id(registry: RegistryView) -> bool {
    forall|id: Seq<char>| #[trigger]
        registry.contains_key(id) ==> registry[id].connection_id == id
}

/// Whether `connection` is registered and listens to `room_id`.
pub open spec fn listens_to(
    registry: RegistryView,
    connection: ConnectionView,
    room_id: Seq<char>,
) -> bool {
    &&& registry.contains_key(connection.connection_id)
    &&& registry[connection.connection_id] == connection
    &&& connection.room_id == room_id
}

/// The views of a list of connections.
pub open spec fn connections_view(connections: Seq<Connection>) -> Seq<ConnectionView> {
    connections.map_values(|c: Connection| c@)
}

/// Whether `listeners` are the connections of a room, each once and in any
/// order.
pub open spec fn are_listeners(
    registry: RegistryView,
    room_id: Seq<char>,
    listeners: Seq<ConnectionView>,
) -> bool {
    &&& forall|i: int|
        0 <= i < listeners.len() ==> listens_to(registry, #[trigger] listeners[i], room_id)
    &&& forall|i: int, j: int|
        0 <= i < j < listeners.len() ==> (#[trigger] listeners[i]).connection_id != (
        #[trigger] listeners[j]).connection_id
    &&& forall|id: Seq<char>|
        registry.contains_key(id) && (#[trigger] registry[id]).room_id == room_id ==> exists|
            i: int,
        |
            0 <= i < listeners.len() && (#[trigger] listeners[i]).connection_id == id
}

/// An in-memory registry.
#[derive(Debug)]
pub struct Registry {
    connections: StringMap<Connection>,
}

impl View for Registry {
    type V = RegistryView;

    closed spec fn view(&self) -> RegistryView {
        self.connections@
    }
}

impl Registry {
    #[verifier::type_invariant]
    spec fn each_filed_by_id(self) -> bool {
        filed_by_id(self.connections@)
    }

    /// The registry without connections.
    pub fn new() -> (registry: Self)
        ensures
            registry@ == Map::<Seq<char>, ConnectionView>::empty(),
    {
        Registry { connections: StringMap::new() }
    }

    /// Registers a connection, in place of the one that had its identifier.
    pub fn put(&mut self, connection: Connection)
        ensures
            final(self)@ == old(self)@.insert(connection@.connection_id, connection@),
    {
        proof {
            use_type_invariant(&*self);
        }
        let mut connections: StringMap<Connection> = StringMap::new();
        std::mem::swap(&mut self.connections, &mut connections);
        connections.insert(connection.connection_id.clone(), connection);
        self.connections = connections;
    }

    /// The connection with the identifier, if it is registered.
    pub fn get(&self, connection_id: &str) -> (found: Option<&Connection>)
        ensures
            found is Some <==> self@.contains_key(connection_id@),
            found matches Some(connection) ==> connection@ == self@[connection_id@]
                && connection@.connection_id == connection_id@,
    {
        proof {
            use_type_invariant(self);
        }
        self.connections.get(connection_id)
    }

    /// Takes the connection with the identifier out of the registry, and says
    /// whether it was there. Deleting a connection that is not registered
    /// succeeds and changes nothing.
    pub fn delete(&mut self, connection_id: &str) -> (was_registered: bool)
        ensures
            final(self)@ == old(self)@.remove(connection_id@),
            was_registered == old(self)@.contains_key(connection_id@),
    {
        proof {
            use_type_invariant(&*self);
        }
        let mut connections: StringMap<Connection> = StringMap::new();
        std::mem::swap(&mut self.connections, &mut connections);
        let was_registered = connections.remove(connection_id);
        self.connections = connections;
        was_registered
    }

    /// Takes every connection of a list out of the registry: what the
    /// dispatcher asks for when deliveries found connections gone.
    pub fn prune(&mut self, stale: &Vec<String>)
        ensures
            final(self)@ == pruned(old(self)@, texts_view(stale@)),
    {
        let mut i: usize = 0;
        proof {
            assert(texts_view(stale@).take(0) =~= Seq::<Seq<char>>::empty());
        }
        while i < stale.len()
            invariant
                i <= stale.len(),
                self@ == pruned(old(self)@, texts_view(stale@).take(i as int)),
            decreases stale.len() - i,
        {
            proof {
                let upto = texts_view(stale@).take(i + 1);
                assert(upto.drop_last() =~= texts_view(stale@).take(i as int));
                assert(upto.last() == stale@[i as int]@);
            }
            self.delete(stale[i].as_str());
            i = i + 1;
        }
        proof {
            assert(texts_view(stale@).take(i as int) =~= texts_view(stale@));
        }
    }

    /// The connections of a room, each once, in no particular order.
    pub fn query_by_room(&self, room_id: &str) -> (listeners: Vec<Connection>)
        ensures
            are_listeners(self@, room_id@, connections_view(listeners@)),
    {
        proof {
            use_type_invariant(self);
        }
        let mut listeners: Vec<Connection> = Vec::new();
        let count = self.connections.len();
        let ghost entries = self.connections.entries_view();
        let mut i: usize = 0;
        while i < count
            invariant
                i <= count,
                count == entries.len(),
                entries == self.connections.entries_view(),
                keys_distinct(entries),
                self.connections@ == entries_map(entries),
                filed_by_id(self.connections@),
                found_among(entries, i as int, room_id@, connections_view(listeners@)),
            decreases count - i,
        {
            let ghost before = connections_view(listeners@);
            let (key, connection) = self.connections.entry_at(i);
            if same_text(connection.room_id.as_str(), room_id) {
                let copy = connection.clone();
                listeners.push(copy);
                proof {
                    assert(connections_view(listeners@) =~= before.push(entries[i as int].1@));
                    lemma_found_among_taken(entries, i as int, room_id@, before);
                }
            } else {
                proof {
                    lemma_found_among_skipped(entries, i as int, room_id@, before);
                }
            }
            i = i + 1;
        }
        proof {
            lemma_found_among_all(entries, room_id@, connections_view(listeners@));
        }
        listeners
    }
}

/// Whether `listeners` are those of the first `seen` entries whose connection
/// listens to the room, each once.
pub open spec fn found_among(
    entries: Seq<(String, Connection)>,
    seen: int,
    room_id: Seq<char>,
    listeners: Seq<ConnectionView>,
) -> bool {
    &&& forall|k: int|
        0 <= k < listeners.len() ==> (#[trigger] listeners[k]).room_id == room_id && exists|e: int|
            0 <= e < seen && (#[trigger] entries[e]).1@ == listeners[k]
    &&& forall|k: int, l: int|
        0 <= k < l < listeners.len() ==> (#[trigger] listeners[k]).connection_id != (
        #[trigger] listeners[l]).connection_id
    &&& forall|e: int|
        0 <= e < seen && (#[trigger] entries[e]).1@.room_id == room_id ==> exists|k: int|
            0 <= k < listeners.len() && #[trigger] listeners[k] == entries[e].1@
}

/// Whether each entry of the list is filed under its connection's identifier.
pub open spec fn keyed_by_id(entries: Seq<(String, Connection)>) -> bool {
    forall|e: int|
        0 <= e < entries.len() ==> (#[trigger] entries[e]).0@ == entries[e].1@.connection_id
}

/// In a registry whose connections are filed by identifier, so are the
/// entries behind it.
pub proof fn lemma_keyed_by_id(entries: Seq<(String, Connection)>)
    requires
        keys_distinct(entries),
        filed_by_id(entries_map(entries)),
    ensures
        keyed_by_id(entries),
{
    assert forall|e: int| 0 <= e < entries.len() implies (#[trigger] entries[e]).0@
        == entries[e].1@.connection_id by {
        lemma_entries_map_value(entries, e);
        assert(entries_map(entries).contains_key(entries[e].0@));
    }
}

/// An entry whose connection listens to another room adds no listener.
pub proof fn lemma_found_among_skipped(
    entries: Seq<(String, Connection)>,
    seen: int,
    room_id: Seq<char>,
    listeners: Seq<ConnectionView>,
)
    requires
        0 <= seen < entries.len(),
        found_among(entries, seen, room_id, listeners),
        entries[seen].1@.room_id != room_id,
    ensures
        found_among(entries, seen + 1, room_id, listeners),
{
    assert forall|k: int| 0 <= k < listeners.len() implies (#[trigger] listeners[k]).room_id
        == room_id && exists|e: int|
        0 <= e < seen + 1 && (#[trigger] entries[e]).1@ == listeners[k] by {
        let e = choose|e: int| 0 <= e < seen && (#[trigger] entries[e]).1@ == listeners[k];
        assert(0 <= e < seen + 1 && entries[e].1@ == listeners[k]);
    }
}

/// An entry whose connection listens to the room adds that connection.
pub proof fn lemma_found_among_taken(
    entries: Seq<(String, Connection)>,
    seen: int,
    room_id: Seq<char>,
    listeners: Seq<ConnectionView>,
)
    requires
        0 <= seen < entries.len(),
        keys_distinct(entries),
        filed_by_id(entries_map(entries)),
        found_among(entries, seen, room_id, listeners),
        entries[seen].1@.room_id == room_id,
    ensures
        found_among(entries, seen + 1, room_id, listeners.push(entries[seen].1@)),
{
    lemma_keyed_by_id(entries);
    let more = listeners.push(entries[seen].1@);
    assert forall|k: int| 0 <= k < more.len() implies (#[trigger] more[k]).room_id == room_id
        && exists|e: int| 0 <= e < seen + 1 && (#[trigger] entries[e]).1@ == more[k] by {
        if k < listeners.len() {
            assert(more[k] == listeners[k]);
            let e = choose|e: int| 0 <= e < seen && (#[trigger] entries[e]).1@ == listeners[k];
            assert(0 <= e < seen + 1 && entries[e].1@ == more[k]);
        } else {
            assert(entries[seen].1@ == more[k]);
        }
    }
    assert forall|k: int, l: int| 0 <= k < l < more.len() implies (#[trigger] more[k]).connection_id
        != (#[trigger] more[l]).connection_id by {
        assert(more[k] == listeners[k]);
        if l < listeners.len() {
            assert(more[l] == listeners[l]);
        } else {
            let e = choose|e: int| 0 <= e < seen && (#[trigger] entries[e]).1@ == listeners[k];
            assert(entries[e].0@ != entries[seen].0@);
        }
    }
    assert forall|e: int|
        0 <= e < seen + 1 && (#[trigger] entries[e]).1@.room_id == room_id implies exists|k: int|
        0 <= k < more.len() && #[trigger] more[k] == entries[e].1@ by {
        if e < seen {
            let k = choose|k: int|
                0 <= k < listeners.len() && #[trigger] listeners[k] == entries[e].1@;
            assert(more[k] == entries[e].1@);
        } else {
            assert(more[listeners.len() as int] == entries[e].1@);
        }
    }
}

/// Once every entry has been seen, what was found are the room's listeners.
pub proof fn lemma_found_among_all(
    entries: Seq<(String, Connection)>,
    room_id: Seq<char>,
    listeners: Seq<ConnectionView>,
)
    requires
        keys_distinct(entries),
        filed_by_id(entries_map(entries)),
        found_among(entries, entries.len() as int, room_id, listeners),
    ensures
        are_listeners(entries_map(entries), room_id, listeners),
{
    let registry = entries_map(entries);
    lemma_keyed_by_id(entries);
    assert forall|k: int| 0 <= k < listeners.len() implies listens_to(
        registry,
        #[trigger] listeners[k],
        room_id,
    ) by {
        let e = choose|e: int|
            0 <= e < entries.len() && (#[trigger] entries[e]).1@ == listeners[k];
        lemma_entries_map_value(entries, e);
    }
    assert forall|id: Seq<char>|
        registry.contains_key(id) && (#[trigger] registry[id]).room_id == room_id implies exists|
        k: int,
    |
        0 <= k < listeners.len() && (#[trigger] listeners[k]).connection_id == id by {
        lemma_entries_map_dom(entries, id);
        let e = choose|e: int| 0 <= e < entries.len() && (#[trigger] entries[e]).0@ == id;
        lemma_entries_map_value(entries, e);
        let k = choose|k: int| 0 <= k < listeners.len() && #[trigger] listeners[k] == entries[e].1@;
        assert(listeners[k].connection_id == id);
    }
}

/// The registry after each connection of a list has been deleted from it.
pub open spec fn pruned(registry: RegistryView, stale: Seq<Seq<char>>) -> RegistryView
    decreases stale.len(),
{
    if stale.len() == 0 {
        registry
    } else {
        pruned(registry, stale.drop_last()).remove(stale.last())
    }
}

/// Pruning takes out the listed connections and nothing else: a connection
/// is registered afterwards exactly if it was registered before and is not
/// listed, and it is then registered as it was.
pub proof fn lemma_pruned(registry: RegistryView, stale: Seq<Seq<char>>)
    ensures
        forall|id: Seq<char>| #[trigger]
            pruned(registry, stale).contains_key(id) <==> registry.contains_key(id)
                && !stale.contains(id),
        forall|id: Seq<char>| #[trigger]
            pruned(registry, stale).contains_key(id) ==> pruned(registry, stale)[id]
                == registry[id],
        filed_by_id(registry) ==> filed_by_id(pruned(registry, stale)),
    decreases stale.len(),
{
    if stale.len() > 0 {
        let init = stale.drop_last();
        let before = pruned(registry, init);
        lemma_pruned(registry, init);
        assert(pruned(registry, stale) == before.remove(stale.last()));
        assert forall|id: Seq<char>|
            stale.contains(id) <==> init.contains(id) || stale.last() == id by {
            if stale.contains(id) {
                let k = choose|k: int| 0 <= k < stale.len() && stale[k] == id;
                if k < init.len() {
                    assert(init[k] == id);
                }
            }
            if init.contains(id) {
                let k = choose|k: int| 0 <= k < init.len() && init[k] == id;
                assert(stale[k] == id);
            }
            if stale.last() == id {
                assert(stale[stale.len() - 1] == id);
            }
        }
        assert forall|id: Seq<char>| #[trigger]
            pruned(registry, stale).contains_key(id) <==> registry.contains_key(id)
                && !stale.contains(id) by {
            assert(before.contains_key(id) <==> registry.contains_key(id) && !init.contains(id));
        }
        assert forall|id: Seq<char>| #[trigger]
            pruned(registry, stale).contains_key(id) implies pruned(registry, stale)[id]
            == registry[id] by {
            assert(before.contains_key(id));
        }
        if filed_by_id(registry) {
            assert forall|id: Seq<char>| #[trigger]
                pruned(registry, stale).contains_key(id) implies pruned(
                registry,
                stale,
            )[id].connection_id == id by {
                assert(registry.contains_key(id));
            }
        }
    }
}

/// Idempotent pruning of a list. Pruning the same connections a second time
/// changes nothing, whether or not they were ever registered.
pub proof fn lemma_prune_is_idempotent(registry: RegistryView, stale: Seq<Seq<char>>)
    ensures
        pruned(pruned(registry, stale), stale) == pruned(registry, stale),
{
    let once = pruned(registry, stale);
    let twice = pruned(once, stale);
    lemma_pruned(registry, stale);
    lemma_pruned(once, stale);
    assert(twice =~= once);
}

/// Idempotent pruning. Deleting a connection twice in a row leaves the
/// registry as deleting it once does, and deleting a connection that was
/// never registered leaves the registry as it was. This holds of every
/// identifier.
pub proof fn lemma_delete_is_idempotent(registry: RegistryView, connection_id: Seq<char>)
    ensures
        registry.remove(connection_id).remove(connection_id) == registry.remove(connection_id),
        !registry.remove(connection_id).contains_key(connection_id),
        !registry.contains_key(connection_id) ==> registry.remove(connection_id) == registry,
        forall|other: Seq<char>|
            other != connection_id ==> (registry.remove(connection_id).contains_key(other)
                <==> registry.contains_key(other)),
{
    assert(registry.remove(connection_id).remove(connection_id) =~= registry.remove(connection_id));
    if !registry.contains_key(connection_id) {
        assert(registry.remove(connection_id) =~= registry);
    }
}

} // verus!
