//! The model routing table: which public proxy port serves each running
//! model. Each name appears once; registering a name again moves it.
use vstd::prelude::*;
use crate::text::str_eq;

verus! {

/// The names and ports of `entries` as a map, later entries winning.
pub open spec fn entries_map(entries: Seq<(String, u16)>) -> Map<Seq<char>, u16>
    decreases entries.len(),
{
    if entries.len() == 0 {
        Map::empty()
    } else {
        entries_map(entries.drop_last()).insert(entries.last().0@, entries.last().1)
    }
}

/// No name appears twice.
pub open spec fn distinct_names(entries: Seq<(String, u16)>) -> bool {
    forall|i: int, j: int| 0 <= i < j < entries.len() ==> entries[i].0@ != entries[j].0@
}

/// A model name → proxy port routing table.
pub struct ModelRouter {
    entries: Vec<(String, u16)>,
}

impl View for ModelRouter {
    type V = Map<Seq<char>, u16>;

    closed spec fn view(&self) -> Map<Seq<char>, u16> {
        entries_map(self.entries@)
    }
}

/// A name is in the map exactly when some entry carries it.
pub proof fn lemma_entries_map_domain(entries: Seq<(String, u16)>, k: Seq<char>)
    ensures
        entries_map(entries).dom().contains(k) <==> exists|i: int| 0 <= i < entries.len() && entries[i].0@ == k,
    decreases entries.len(),
{
    if entries.len() > 0 {
        lemma_entries_map_domain(entries.drop_last(), k);
        if entries.last().0@ == k {
            assert(entries[entries.len() - 1].0@ == k);
        }
        if exists|i: int| 0 <= i < entries.len() - 1 && entries.drop_last()[i].0@ == k {
            let i = choose|i: int| 0 <= i < entries.len() - 1 && entries.drop_last()[i].0@ == k;
            assert(entries[i].0@ == k);
        }
        if exists|i: int| 0 <= i < entries.len() && entries[i].0@ == k {
            let i = choose|i: int| 0 <= i < entries.len() && entries[i].0@ == k;
            if i < entries.len() - 1 {
                assert(entries.drop_last()[i].0@ == k);
            }
        }
    }
}

/// With distinct names, each entry's port is the map's value for its name.
pub proof fn lemma_entries_map_value(entries: Seq<(String, u16)>, i: int)
    requires
        distinct_names(entries),
        0 <= i < entries.len(),
    ensures
        entries_map(entries).dom().contains(entries[i].0@),
        entries_map(entries)[entries[i].0@] == entries[i].1,
    decreases entries.len(),
{
    if i < entries.len() - 1 {
        lemma_entries_map_value(entries.drop_last(), i);
        assert(entries.drop_last()[i] == entries[i]);
    }
}

/// Replacing the port of entry `i` updates the map at its name.
pub proof fn lemma_entries_map_update(entries: Seq<(String, u16)>, i: int, name: String, port: u16)
    requires
        distinct_names(entries),
        0 <= i < entries.len(),
        entries[i].0@ == name@,
    ensures
        entries_map(entries.update(i, (name, port))) == entries_map(entries).insert(name@, port),
    decreases entries.len(),
{
    let u = entries.update(i, (name, port));
    if i == entries.len() - 1 {
        assert(u.drop_last() =~= entries.drop_last());
        lemma_entries_map_domain(entries.drop_last(), name@);
        assert(entries_map(u) =~= entries_map(entries).insert(name@, port));
    } else {
        lemma_entries_map_update(entries.drop_last(), i, name, port);
        assert(u.drop_last() =~= entries.drop_last().update(i, (name, port)));
        assert(entries.last().0@ != name@);
        assert(entries_map(u) =~= entries_map(entries).insert(name@, port));
    }
}

/// Removing entry `i` removes its name from the map.
pub proof fn lemma_entries_map_remove(entries: Seq<(String, u16)>, i: int)
    requires
        distinct_names(entries),
        0 <= i < entries.len(),
    ensures
        entries_map(entries.remove(i)) == entries_map(entries).remove(entries[i].0@),
    decreases entries.len(),
{
    let k = entries[i].0@;
    let r = entries.remove(i);
    if i == entries.len() - 1 {
        assert(r =~= entries.drop_last());
        lemma_entries_map_domain(entries.drop_last(), k);
        assert(entries_map(r) =~= entries_map(entries).remove(k));
    } else {
        lemma_entries_map_remove(entries.drop_last(), i);
        assert(r.drop_last() =~= entries.drop_last().remove(i));
        assert(r.last() == entries.last());
        assert(entries_map(r) =~= entries_map(entries).remove(k));
    }
}

impl ModelRouter {
    #[verifier::type_invariant]
    spec fn wf(self) -> bool {
        distinct_names(self.entries@)
    }

    /// The entries in the order the names were first registered.
    pub closed spec fn entry_seq(self) -> Seq<(String, u16)> {
        self.entries@
    }

    /// An empty routing table.
    pub fn new() -> (r: ModelRouter)
        ensures
            r@ == Map::<Seq<char>, u16>::empty(),
            r.entry_seq().len() == 0,
    {
        ModelRouter { entries: Vec::new() }
    }

    fn find(&self, name: &str) -> (r: Option<usize>)
        ensures
            match r {
                Some(i) => i < self.entries@.len() && self.entries@[i as int].0@ == name@,
                None => forall|i: int| 0 <= i < self.entries@.len() ==> self.entries@[i].0@ != name@,
            },
    {
        let mut i: usize = 0;
        while i < self.entries.len()
            invariant
                i <= self.entries@.len(),
                forall|j: int| 0 <= j < i ==> self.entries@[j].0@ != name@,
            decreases self.entries@.len() - i,
        {
            if str_eq(self.entries[i].0.as_str(), name) {
                return Some(i);
            }
            i += 1;
        }
        None
    }

    /// The port registered for `name`.
    pub fn get(&self, name: &str) -> (r: Option<u16>)
        ensures
            r == (if self@.dom().contains(name@) {
                Some(self@[name@])
            } else {
                None
            }),
    {
        proof {
            use_type_invariant(self);
            lemma_entries_map_domain(self.entries@, name@);
        }
        match self.find(name) {
            Some(i) => {
                proof {
                    lemma_entries_map_value(self.entries@, i as int);
                }
                Some(self.entries[i].1)
            },
            None => None,
        }
    }

    /// Registers `name` at `port`, replacing an earlier port of the same name.
    pub fn insert(&mut self, name: String, port: u16)
        ensures
            final(self)@ == old(self)@.insert(name@, port),
    {
        proof {
            use_type_invariant(&*self);
        }
        let ghost old_entries = self.entries@;
        match self.find(name.as_str()) {
            Some(i) => {
                proof {
                    lemma_entries_map_update(old_entries, i as int, name, port);
                }
                let mut entries: Vec<(String, u16)> = Vec::new();
                std::mem::swap(&mut entries, &mut self.entries);
                entries.set(i, (name, port));
                assert(entries@ == old_entries.update(i as int, (name, port)));
                self.entries = entries;
            },
            None => {
                let mut entries: Vec<(String, u16)> = Vec::new();
                std::mem::swap(&mut entries, &mut self.entries);
                entries.push((name, port));
                assert(entries@.drop_last() =~= old_entries);
                self.entries = entries;
            },
        }
    }

    /// Removes `name`, if registered.
    pub fn remove(&mut self, name: &str)
        ensures
            final(self)@ == old(self)@.remove(name@),
    {
        proof {
            use_type_invariant(&*self);
            lemma_entries_map_domain(self.entries@, name@);
        }
        let ghost old_entries = self.entries@;
        match self.find(name) {
            Some(i) => {
                proof {
                    lemma_entries_map_remove(old_entries, i as int);
                }
                let mut entries: Vec<(String, u16)> = Vec::new();
                std::mem::swap(&mut entries, &mut self.entries);
                entries.remove(i);
                self.entries = entries;
            },
            None => {
                assert(old(self)@.remove(name@) =~= old(self)@);
            },
        }
    }

    /// Removes every name.
    pub fn clear(&mut self)
        ensures
            final(self)@ == Map::<Seq<char>, u16>::empty(),
    {
        self.entries = Vec::new();
    }

    /// The registered names and ports, each name once.
    pub fn entries(&self) -> (r: &Vec<(String, u16)>)
        ensures
            r@ == self.entry_seq(),
            distinct_names(r@),
            entries_map(r@) == self@,
    {
        proof {
            use_type_invariant(self);
        }
        &self.entries
    }
}

/// The routing table the launcher starts with: empty. The application keeps
/// the one table that every proxy consults.
pub fn get_model_router() -> (r: ModelRouter)
    ensures
        r@ == Map::<Seq<char>, u16>::empty(),
{
    ModelRouter::new()
}

/// What the routing table gives back for a name is the port last registered
/// for it; after its removal it gives nothing; other names are untouched.
pub proof fn law_router_read_after_write(routes: Map<Seq<char>, u16>, name: Seq<char>, port: u16, other: Seq<char>)
    requires
        other != name,
    ensures
        routes.insert(name, port).dom().contains(name),
        routes.insert(name, port)[name] == port,
        !routes.remove(name).dom().contains(name),
        routes.insert(name, port).dom().contains(other) == routes.dom().contains(other),
        routes.dom().contains(other) ==> routes.insert(name, port)[other] == routes[other],
        routes.remove(name).dom().contains(other) == routes.dom().contains(other),
{
}

} // verus!
