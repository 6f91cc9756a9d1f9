//! Which clusters are connected.
use vstd::prelude::*;
use crate::list::{
    collect, first_index, lemma_collect_step, lemma_first_index, lemma_first_index_props,
    lemma_take_all,
};
use crate::text::{lemma_texts_push, same, texts};

verus! {

broadcast use {lemma_take_all, lemma_texts_push};

/// How far the connection to a cluster has come.
#[derive(Debug)]
pub enum ConnectionStatus {
    Discovering,
    Connected,
    Failed(String),
}

/// The status of a connection as a value.
#[verifier::ext_equal]
pub enum StatusModel {
    Discovering,
    Connected,
    Failed(Seq<char>),
}

impl View for ConnectionStatus {
    type V = StatusModel;

    open spec fn view(&self) -> StatusModel {
        match *self {
            ConnectionStatus::Discovering => StatusModel::Discovering,
            ConnectionStatus::Connected => StatusModel::Connected,
            ConnectionStatus::Failed(error) => StatusModel::Failed(error@),
        }
    }
}

/// The status of a cluster's connection, by the cluster's name.
#[derive(Debug)]
pub struct ConnectionTable {
    pub entries: Vec<(String, ConnectionStatus)>,
}

/// Whether an entry is that of a cluster.
pub open spec fn entry_of(name: Seq<char>) -> spec_fn((String, ConnectionStatus)) -> bool {
    |e: (String, ConnectionStatus)| e.0@ == name
}

impl View for ConnectionTable {
    type V = Map<Seq<char>, StatusModel>;

    /// Each name with the status of its first entry.
    closed spec fn view(&self) -> Map<Seq<char>, StatusModel> {
        Map::new(
            |name: Seq<char>| first_index(self.entries@, entry_of(name)) < self.entries@.len(),
            |name: Seq<char>| self.entries@[first_index(self.entries@, entry_of(name))].1@,
        )
    }
}

/// Whether a connection has failed.
pub open spec fn entry_failed() -> spec_fn((String, ConnectionStatus)) -> bool {
    |e: (String, ConnectionStatus)| e.1 is Failed
}

/// The name of an entry.
pub open spec fn entry_name() -> spec_fn((String, ConnectionStatus)) -> Seq<char> {
    |e: (String, ConnectionStatus)| e.0@
}

impl ConnectionTable {
    /// Whether no cluster has two entries.
    pub open spec fn wf(self) -> bool {
        forall|i: int, j: int|
            0 <= i < j < self.entries@.len() ==> (#[trigger] self.entries@[i]).0@ != (
            #[trigger] self.entries@[j]).0@
    }

    /// A table without entries.
    pub fn new() -> (r: ConnectionTable)
        ensures
            r.wf(),
            r.entries@.len() == 0,
            r@ == Map::<Seq<char>, StatusModel>::empty(),
    {
        let r = ConnectionTable { entries: Vec::new() };
        assert(r@ =~= Map::<Seq<char>, StatusModel>::empty());
        r
    }

    /// The position of a cluster's entry.
    fn find(&self, name: &str) -> (r: Option<usize>)
        ensures
            match r {
                Some(i) => i < self.entries@.len() && i == first_index(
                    self.entries@,
                    entry_of(name@),
                ),
                None => first_index(self.entries@, entry_of(name@)) == self.entries@.len(),
            },
    {
        let mut i: usize = 0;
        while i < self.entries.len()
            invariant
                i <= self.entries@.len(),
                forall|j: int| 0 <= j < i ==> !entry_of(name@)(#[trigger] self.entries@[j]),
            decreases self.entries@.len() - i,
        {
            if same(self.entries[i].0.as_str(), name) {
                proof {
                    lemma_first_index(self.entries@, i as int, entry_of(name@));
                }
                return Some(i);
            }
            i += 1;
        }
        proof {
            lemma_first_index(self.entries@, i as int, entry_of(name@));
        }
        None
    }

    /// The status of a cluster's connection.
    pub fn get(&self, name: &str) -> (r: Option<&ConnectionStatus>)
        ensures
            r is Some == self@.contains_key(name@),
            r is Some ==> r->0@ == self@[name@],
    {
        proof {
            lemma_first_index_props(self.entries@, entry_of(name@));
        }
        match self.find(name) {
            Some(i) => Some(&self.entries[i].1),
            None => None,
        }
    }

    /// Sets the status of a cluster's connection.
    pub fn insert(&mut self, name: String, status: ConnectionStatus)
        requires
            old(self).wf(),
        ensures
            final(self).wf(),
            final(self)@ == old(self)@.insert(name@, status@),
    {
        let ghost before = self.entries@;
        let ghost old_view = self@;
        let ghost key = name@;
        let ghost value = status@;
        match self.find(name.as_str()) {
            Some(i) => {
                proof {
                    lemma_first_index_props(before, entry_of(key));
                }
                self.entries[i].1 = status;
                proof {
                    let after = self.entries@;
                    assert forall|k: Seq<char>| first_index(after, entry_of(k)) == first_index(
                        before,
                        entry_of(k),
                    ) by {
                        lemma_first_index_props(before, entry_of(k));
                        let f = first_index(before, entry_of(k));
                        assert forall|j: int| 0 <= j < f implies !entry_of(k)(
                            #[trigger] after[j],
                        ) by {
                            assert(after[j].0 == before[j].0);
                        }
                        if f < after.len() {
                            assert(after[f].0 == before[f].0);
                        }
                        lemma_first_index(after, f, entry_of(k));
                    }
                    assert forall|k: Seq<char>| self@.contains_key(k) implies self@[k]
                        == old_view.insert(key, value)[k] by {
                        let f = first_index(before, entry_of(k));
                        lemma_first_index_props(before, entry_of(k));
                        assert(first_index(after, entry_of(k)) == f);
                        if k == key {
                            assert(f == i);
                        } else {
                            assert(f != i);
                            assert(after[f] == before[f]);
                        }
                    }
                    assert forall|k: Seq<char>| self@.contains_key(k) == old_view.insert(
                        key,
                        value,
                    ).contains_key(k) by {
                        assert(first_index(after, entry_of(k)) == first_index(before, entry_of(k)));
                    }
                    assert(self@ =~= old_view.insert(key, value));
                    assert forall|a: int, b: int| 0 <= a < b < after.len() implies (
                    #[trigger] after[a]).0@ != (#[trigger] after[b]).0@ by {
                        assert(after[a].0 == before[a].0 && after[b].0 == before[b].0);
                    }
                }
            },
            None => {
                self.entries.push((name, status));
                proof {
                    let after = self.entries@;
                    lemma_first_index_props(before, entry_of(key));
                    assert forall|j: int| 0 <= j < before.len() implies (#[trigger] before[j]).0@
                        != key by {
                        assert(!entry_of(key)(before[j]));
                    }
                    assert forall|k: Seq<char>|
                        #[trigger] self@.contains_key(k) == old_view.insert(
                            key,
                            value,
                        ).contains_key(k) && (self@.contains_key(k) ==> self@[k]
                            == old_view.insert(key, value)[k]) by {
                        lemma_first_index_props(before, entry_of(k));
                        let f = first_index(before, entry_of(k));
                        assert forall|j: int| 0 <= j < f implies !entry_of(k)(
                            #[trigger] after[j],
                        ) by {
                            assert(after[j] == before[j]);
                        }
                        if f < before.len() {
                            assert(after[f] == before[f]);
                            lemma_first_index(after, f, entry_of(k));
                        } else if k == key {
                            lemma_first_index(after, f, entry_of(k));
                        } else {
                            lemma_first_index(after, after.len() as int, entry_of(k));
                        }
                    }
                    assert(self@ =~= old_view.insert(key, value));
                }
            },
        }
    }

    /// Tests whether there are no entries.
    pub fn is_empty(&self) -> (r: bool)
        ensures
            r == (self.entries@.len() == 0),
    {
        self.entries.len() == 0
    }

    /// Tests whether all connections have failed.
    pub fn all_failed(&self) -> (r: bool)
        ensures
            r == forall|i: int| 0 <= i < self.entries@.len() ==> (#[trigger] self.entries@[i]).1 is Failed,
    {
        let mut i: usize = 0;
        while i < self.entries.len()
            invariant
                i <= self.entries@.len(),
                forall|j: int| 0 <= j < i ==> (#[trigger] self.entries@[j]).1 is Failed,
            decreases self.entries@.len() - i,
        {
            match &self.entries[i].1 {
                ConnectionStatus::Failed(_) => {},
                _ => {
                    return false;
                },
            }
            i += 1;
        }
        true
    }

    /// The names of the clusters whose connection has failed.
    pub fn failed_names(&self) -> (r: Vec<String>)
        ensures
            texts(r@) == collect(self.entries@, entry_failed(), entry_name()),
    {
        let mut out: Vec<String> = Vec::new();
        let mut i: usize = 0;
        proof {
            assert(texts(out@) =~= collect(self.entries@.take(0), entry_failed(), entry_name()));
        }
        while i < self.entries.len()
            invariant
                i <= self.entries@.len(),
                texts(out@) == collect(self.entries@.take(i as int), entry_failed(), entry_name()),
            decreases self.entries@.len() - i,
        {
            proof {
                lemma_collect_step(self.entries@, i as int, entry_failed(), entry_name());
            }
            if let ConnectionStatus::Failed(_) = &self.entries[i].1 {
                out.push(self.entries[i].0.clone());
            }
            i += 1;
        }
        out
    }
}

} // verus!
