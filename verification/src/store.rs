//! In-memory keyed storage for agent and bot sessions: a read gives back the
//! last value written under its key.

use crate::bots::{BotSession, ConversationKey};
use crate::run::Session;
use crate::types::{messages_view, MessageV};
use vstd::prelude::*;

verus! {

/// A key of a table: compared by its model.
pub trait TableKey: View + Sized {
    /// Whether two keys are the same.
    fn same_key(&self, other: &Self) -> (b: bool)
        ensures
            b == (self@ == other@),
    ;
}

/// A value of a table: copied with its model kept.
pub trait TableValue: View + Sized {
    /// A copy of the value.
    fn value_copy(&self) -> (r: Self)
        ensures
            r@ == self@,
    ;
}

impl TableKey for String {
    fn same_key(&self, other: &Self) -> (b: bool) {
        *self == *other
    }
}

impl View for ConversationKey {
    type V = (Seq<char>, Seq<char>);

    open spec fn view(&self) -> (Seq<char>, Seq<char>) {
        (self.platform@, self.id@)
    }
}

impl TableKey for ConversationKey {
    fn same_key(&self, other: &Self) -> (b: bool) {
        self.platform == other.platform && self.id.same(&other.id)
    }
}

/// The model of an agent session.
pub struct SessionV {
    pub id: Seq<char>,
    pub history: Seq<MessageV>,
}

impl View for Session {
    type V = SessionV;

    open spec fn view(&self) -> SessionV {
        SessionV { id: self.id@, history: messages_view(self.history@) }
    }
}

impl TableValue for Session {
    fn value_copy(&self) -> (r: Self) {
        self.clone()
    }
}

impl View for BotSession {
    type V = ((Seq<char>, Seq<char>), u64);

    open spec fn view(&self) -> ((Seq<char>, Seq<char>), u64) {
        (self.key@, self.messages_seen)
    }
}

impl TableValue for BotSession {
    fn value_copy(&self) -> (r: Self) {
        BotSession { key: self.key.copy(), messages_seen: self.messages_seen }
    }
}

/// The value of the last entry whose key is `k`.
pub open spec fn lookup<K: View, V: View>(entries: Seq<(K, V)>, k: K::V) -> Option<V::V>
    decreases entries.len(),
{
    if entries.len() == 0 {
        None
    } else if entries.last().0@ == k {
        Some(entries.last().1@)
    } else {
        lookup(entries.drop_last(), k)
    }
}

/// `i` is the last position whose key is `k`.
pub open spec fn last_with_key<K: View, V: View>(entries: Seq<(K, V)>, k: K::V, i: int) -> bool {
    &&& 0 <= i < entries.len()
    &&& entries[i].0@ == k
    &&& forall|t: int| i < t < entries.len() ==> (#[trigger] entries[t].0)@ != k
}

/// The lookup of a key finds the last entry with that key.
proof fn lemma_lookup_last<K: View, V: View>(entries: Seq<(K, V)>, k: K::V, i: int)
    requires
        last_with_key(entries, k, i),
    ensures
        lookup(entries, k) == Some(entries[i].1@),
    decreases entries.len(),
{
    if i < entries.len() - 1 {
        let t = entries.len() - 1;
        assert(entries[t].0@ != k);
        lemma_lookup_last(entries.drop_last(), k, i);
    }
}

/// The lookup of a key no entry has is empty.
proof fn lemma_lookup_none<K: View, V: View>(entries: Seq<(K, V)>, k: K::V)
    requires
        forall|t: int| 0 <= t < entries.len() ==> (#[trigger] entries[t].0)@ != k,
    ensures
        lookup(entries, k) is None,
    decreases entries.len(),
{
    if entries.len() > 0 {
        let t = entries.len() - 1;
        assert(entries[t].0@ != k);
        lemma_lookup_none(entries.drop_last(), k);
    }
}

/// Replacing the last entry of a key changes the lookup of that key only.
proof fn lemma_lookup_update<K: View, V: View>(entries: Seq<(K, V)>, k: K::V, i: int, e: (K, V))
    requires
        last_with_key(entries, k, i),
        e.0@ == k,
    ensures
        forall|k2: K::V|
            #[trigger] lookup(entries.update(i, e), k2) == if k2 == k {
                Some(e.1@)
            } else {
                lookup(entries, k2)
            },
    decreases entries.len(),
{
    let n = entries.update(i, e);
    assert(n.len() == entries.len());
    if i == entries.len() - 1 {
        assert(n.drop_last() =~= entries.drop_last());
        assert forall|k2: K::V| #[trigger] lookup(n, k2) == if k2 == k {
            Some(e.1@)
        } else {
            lookup(entries, k2)
        } by {
            assert(n.last() == e);
        }
    } else {
        assert(n.drop_last() =~= entries.drop_last().update(i, e));
        let t = entries.len() - 1;
        assert(entries[t].0@ != k);
        lemma_lookup_update(entries.drop_last(), k, i, e);
        assert forall|k2: K::V| #[trigger] lookup(n, k2) == if k2 == k {
            Some(e.1@)
        } else {
            lookup(entries, k2)
        } by {
            assert(n.last() == entries.last());
            assert(lookup(entries.drop_last().update(i, e), k2) == if k2 == k {
                Some(e.1@)
            } else {
                lookup(entries.drop_last(), k2)
            });
        }
    }
}

/// Appending an entry makes it the answer for its key.
proof fn lemma_lookup_push<K: View, V: View>(entries: Seq<(K, V)>, e: (K, V))
    ensures
        forall|k2: K::V|
            #[trigger] lookup(entries.push(e), k2) == if k2 == e.0@ {
                Some(e.1@)
            } else {
                lookup(entries, k2)
            },
{
    assert(entries.push(e).drop_last() =~= entries);
}

/// A table of values by key; writing a key replaces its value.
pub struct Table<K, V> {
    entries: Vec<(K, V)>,
}

impl<K: TableKey, V: TableValue> Table<K, V> {
    /// The value stored under `k`, if any.
    pub closed spec fn spec_get(&self, k: K::V) -> Option<V::V> {
        lookup(self.entries@, k)
    }

    /// An empty table.
    pub fn new() -> (t: Self)
        ensures
            forall|k: K::V| #[trigger] t.spec_get(k) is None,
    {
        Table { entries: Vec::new() }
    }

    /// The last position whose key is `key`.
    fn position(&self, key: &K) -> (r: Option<usize>)
        ensures
            match r {
                Some(i) => last_with_key(self.entries@, key@, i as int),
                None => forall|t: int|
                    0 <= t < self.entries@.len() ==> (#[trigger] self.entries@[t].0)@ != key@,
            },
    {
        let mut j: usize = self.entries.len();
        while j > 0
            invariant
                j <= self.entries@.len(),
                forall|t: int| j <= t < self.entries@.len() ==> (#[trigger] self.entries@[t].0)@ != key@,
            decreases j,
        {
            j = j - 1;
            if self.entries[j].0.same_key(key) {
                return Some(j);
            }
        }
        None
    }

    /// A copy of the value stored under `key`.
    pub fn get(&self, key: &K) -> (r: Option<V>)
        ensures
            match self.spec_get(key@) {
                Some(v) => r matches Some(x) && x@ == v,
                None => r is None,
            },
    {
        match self.position(key) {
            Some(i) => {
                proof {
                    lemma_lookup_last(self.entries@, key@, i as int);
                }
                Some(self.entries[i].1.value_copy())
            },
            None => {
                proof {
                    lemma_lookup_none(self.entries@, key@);
                }
                None
            },
        }
    }

    /// Stores `value` under `key`, replacing what was stored there.
    pub fn insert(&mut self, key: K, value: V)
        ensures
            forall|k: K::V|
                #[trigger] final(self).spec_get(k) == if k == key@ {
                    Some(value@)
                } else {
                    old(self).spec_get(k)
                },
    {
        let ghost e = (key, value);
        match self.position(&key) {
            Some(i) => {
                proof {
                    lemma_lookup_update(self.entries@, key@, i as int, e);
                }
                self.entries.set(i, (key, value));
            },
            None => {
                proof {
                    lemma_lookup_push(self.entries@, e);
                }
                self.entries.push((key, value));
            },
        }
    }
}

/// The sessions of an agent, by id.
pub struct InMemorySessionStore {
    sessions: Table<String, Session>,
}

impl InMemorySessionStore {
    /// The session stored under `id`.
    pub closed spec fn spec_load(&self, id: Seq<char>) -> Option<SessionV> {
        self.sessions.spec_get(id)
    }

    /// A store without sessions.
    pub fn new() -> (s: Self)
        ensures
            forall|id: Seq<char>| #[trigger] s.spec_load(id) is None,
    {
        InMemorySessionStore { sessions: Table::new() }
    }

    /// A copy of the session stored under `id`.
    pub fn load(&self, id: &str) -> (r: Option<Session>)
        ensures
            match self.spec_load(id@) {
                Some(s) => r matches Some(x) && x@ == s,
                None => r is None,
            },
    {
        let key = id.to_owned();
        self.sessions.get(&key)
    }

    /// Stores a session under its id, replacing the one stored there.
    pub fn save(&mut self, session: Session)
        ensures
            forall|id: Seq<char>|
                #[trigger] final(self).spec_load(id) == if id == session.id@ {
                    Some(session@)
                } else {
                    old(self).spec_load(id)
                },
    {
        let key = session.id.clone();
        self.sessions.insert(key, session);
    }
}

/// The sessions of a bot, by conversation.
pub struct InMemoryBotSessionStore {
    sessions: Table<ConversationKey, BotSession>,
}

impl InMemoryBotSessionStore {
    /// The session stored for a conversation: its key and how many events it
    /// has seen.
    pub closed spec fn spec_load(&self, key: (Seq<char>, Seq<char>)) -> Option<((Seq<char>, Seq<char>), u64)> {
        self.sessions.spec_get(key)
    }

    /// A store without sessions.
    pub fn new() -> (s: Self)
        ensures
            forall|k: (Seq<char>, Seq<char>)| #[trigger] s.spec_load(k) is None,
    {
        InMemoryBotSessionStore { sessions: Table::new() }
    }

    /// A copy of the session stored for a conversation.
    pub fn load(&self, key: &ConversationKey) -> (r: Option<BotSession>)
        ensures
            match self.spec_load(key@) {
                Some(s) => r matches Some(x) && x@ == s,
                None => r is None,
            },
    {
        self.sessions.get(key)
    }

    /// Stores a session under its conversation, replacing the one stored
    /// there.
    pub fn save(&mut self, session: BotSession)
        ensures
            forall|k: (Seq<char>, Seq<char>)|
                #[trigger] final(self).spec_load(k) == if k == session.key@ {
                    Some(session@)
                } else {
                    old(self).spec_load(k)
                },
    {
        let key = session.key.copy();
        self.sessions.insert(key, session);
    }
}

} // verus!
