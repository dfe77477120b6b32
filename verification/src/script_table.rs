//! The scripts that a manifest declares, by name.

use vstd::prelude::*;
use vstd::string::*;
use crate::text::texts;

verus! {

/// The map that a list of name and body pairs declares; of two pairs with
/// one name the later one counts.
pub open spec fn declared_scripts(pairs: Seq<(Seq<char>, Seq<char>)>) -> Map<Seq<char>, Seq<char>>
    decreases pairs.len(),
{
    if pairs.len() == 0 {
        Map::empty()
    } else {
        declared_scripts(pairs.drop_last()).insert(pairs.last().0, pairs.last().1)
    }
}

/// The names of a list of pairs, each once, in the order in which they
/// first occur.
pub open spec fn declared_names(pairs: Seq<(Seq<char>, Seq<char>)>) -> Seq<Seq<char>>
    decreases pairs.len(),
{
    if pairs.len() == 0 {
        Seq::empty()
    } else if declared_names(pairs.drop_last()).contains(pairs.last().0) {
        declared_names(pairs.drop_last())
    } else {
        declared_names(pairs.drop_last()).push(pairs.last().0)
    }
}

/// Whether `names` lists the keys of `scripts`, each exactly once.
pub open spec fn lists_keys(names: Seq<Seq<char>>, scripts: Map<Seq<char>, Seq<char>>) -> bool {
    &&& names.no_duplicates()
    &&& forall|name: Seq<char>| names.contains(name) <==> scripts.contains_key(name)
}

/// A name that the table does not hold.
#[derive(Debug)]
pub struct NotFoundError {
    /// the name that was asked for
    pub name: String,
}

#[derive(Debug)]
struct Script {
    name: String,
    body: String,
}

/// A mapping from script name to script body. It holds the scripts that
/// were put in and no others, and remembers the order in which their names
/// first came.
#[derive(Debug)]
pub struct ScriptTable {
    scripts: Vec<Script>,
}

impl View for ScriptTable {
    type V = Map<Seq<char>, Seq<char>>;

    closed spec fn view(&self) -> Map<Seq<char>, Seq<char>> {
        Map::new(
            |name: Seq<char>| self.holds(name),
            |name: Seq<char>| self.scripts[self.place(name)].body@,
        )
    }
}

impl ScriptTable {
    #[verifier::type_invariant]
    spec fn distinct_names(&self) -> bool {
        forall|i: int, j: int|
            0 <= i < j < self.scripts.len() ==> self.scripts[i].name@ != self.scripts[j].name@
    }

    spec fn holds(&self, name: Seq<char>) -> bool {
        exists|i: int| 0 <= i < self.scripts.len() && #[trigger] self.scripts[i].name@ == name
    }

    spec fn place(&self, name: Seq<char>) -> int {
        choose|i: int| 0 <= i < self.scripts.len() && #[trigger] self.scripts[i].name@ == name
    }

    /// The names of the table in the order in which they were first put in.
    pub closed spec fn name_list(&self) -> Seq<Seq<char>> {
        Seq::new(self.scripts.len() as nat, |i: int| self.scripts[i].name@)
    }

    /// The names of a table are its keys, each once.
    proof fn names_are_keys(&self)
        requires
            self.distinct_names(),
        ensures
            lists_keys(self.name_list(), self@),
    {
        let names = self.name_list();
        assert forall|name: Seq<char>| names.contains(name) <==> self@.contains_key(name) by {
            if names.contains(name) {
                let i = choose|i: int| 0 <= i < names.len() && names[i] == name;
                assert(self.scripts[i].name@ == name);
            }
            if self@.contains_key(name) {
                let i = self.place(name);
                assert(names[i] == name);
            }
        }
    }

    /// A table without scripts.
    pub fn new() -> (r: ScriptTable)
        ensures
            r@ == Map::<Seq<char>, Seq<char>>::empty(),
            r.name_list() == Seq::<Seq<char>>::empty(),
            lists_keys(r.name_list(), r@),
    {
        let r = ScriptTable { scripts: Vec::new() };
        assert(r@ =~= Map::<Seq<char>, Seq<char>>::empty());
        assert(r.name_list() =~= Seq::<Seq<char>>::empty());
        r
    }

    /// Number of scripts.
    pub fn len(&self) -> (n: usize)
        ensures
            n == self.name_list().len(),
            n == self@.dom().len(),
            self@.dom().finite(),
    {
        proof {
            use_type_invariant(self);
            self.names_are_keys();
            let names = self.name_list();
            names.unique_seq_to_set();
            assert(names.to_set() =~= self@.dom());
        }
        self.scripts.len()
    }

    /// Whether the table holds no script.
    pub fn is_empty(&self) -> (b: bool)
        ensures
            b == (self.name_list().len() == 0),
            b == (self@ == Map::<Seq<char>, Seq<char>>::empty()),
    {
        proof {
            use_type_invariant(self);
            self.names_are_keys();
            if self.scripts.len() == 0 {
                assert(self@ =~= Map::<Seq<char>, Seq<char>>::empty());
            } else {
                assert(self.name_list().contains(self.name_list()[0]));
            }
        }
        self.scripts.len() == 0
    }

    /// Where `name` stands in the table.
    fn position(&self, name: &String) -> (r: Option<usize>)
        ensures
            match r {
                Some(i) => i < self.scripts.len() && self.scripts[i as int].name@ == name@
                    && self.holds(name@) && self.place(name@) == i,
                None => !self.holds(name@),
            },
    {
        proof {
            use_type_invariant(self);
        }
        let mut i: usize = 0;
        while i < self.scripts.len()
            invariant
                i <= self.scripts.len(),
                self.distinct_names(),
                forall|k: int| 0 <= k < i ==> self.scripts[k].name@ != name@,
            decreases self.scripts.len() - i,
        {
            if self.scripts[i].name == *name {
                assert(self.scripts[i as int].name@ == name@);
                return Some(i);
            }
            i += 1;
        }
        None
    }

    /// Puts a script into the table. A script of that name that is there
    /// already gets the new body and keeps its place among the names.
    pub fn insert(&mut self, name: String, body: String)
        ensures
            final(self)@ == old(self)@.insert(name@, body@),
            final(self).name_list() == (if old(self)@.contains_key(name@) {
                old(self).name_list()
            } else {
                old(self).name_list().push(name@)
            }),
            lists_keys(final(self).name_list(), final(self)@),
    {
        proof {
            use_type_invariant(&*self);
        }
        let ghost before = *self;
        let ghost key = name@;
        let ghost text = body@;
        match self.position(&name) {
            Some(i) => {
                let mut scripts: Vec<Script> = Vec::new();
                core::mem::swap(&mut self.scripts, &mut scripts);
                scripts.set(i, Script { name, body });
                core::mem::swap(&mut self.scripts, &mut scripts);
                assert(self.name_list() =~= before.name_list());
                assert forall|other: Seq<char>| self.holds(other) <==> before.holds(other) by {
                    if self.holds(other) {
                        assert(before.scripts[self.place(other)].name@ == other);
                    }
                    if before.holds(other) {
                        assert(self.scripts[before.place(other)].name@ == other);
                    }
                }
                assert forall|other: Seq<char>| self.holds(other) && other != key implies self@[other]
                    == before@[other] by {
                    assert(self.place(other) == before.place(other));
                }
                assert(self.place(key) == i);
            },
            None => {
                let mut scripts: Vec<Script> = Vec::new();
                core::mem::swap(&mut self.scripts, &mut scripts);
                scripts.push(Script { name, body });
                core::mem::swap(&mut self.scripts, &mut scripts);
                assert(self.name_list() =~= before.name_list().push(key));
                assert(self.scripts[before.scripts.len() as int].name@ == key);
                assert forall|other: Seq<char>| self.holds(other) <==> (before.holds(other)
                    || other == key) by {
                    if self.holds(other) && other != key {
                        assert(before.scripts[self.place(other)].name@ == other);
                    }
                    if before.holds(other) {
                        assert(self.scripts[before.place(other)].name@ == other);
                    }
                }
                assert forall|other: Seq<char>| before.holds(other) implies self@[other]
                    == before@[other] by {
                    assert(self.scripts[before.place(other)].name@ == other);
                    assert(self.place(other) == before.place(other));
                }
                assert(self.place(key) == before.scripts.len());
            },
        }
        assert(self@ =~= before@.insert(key, text));
        proof {
            self.names_are_keys();
        }
    }

    /// Looks `name` up as an exact key. A hit gives the body as it was put
    /// in; a miss gives the name back.
    pub fn resolve(&self, name: &str) -> (r: Result<String, NotFoundError>)
        ensures
            match r {
                Ok(body) => self@.contains_key(name@) && body@ == self@[name@],
                Err(miss) => !self@.contains_key(name@) && miss.name@ == name@,
            },
    {
        let wanted = String::from_str(name);
        match self.position(&wanted) {
            Some(i) => Ok(self.scripts[i].body.clone()),
            None => Err(NotFoundError { name: wanted }),
        }
    }

    /// Whether the table holds a script of that name.
    pub fn contains(&self, name: &str) -> (b: bool)
        ensures
            b == self@.contains_key(name@),
    {
        let wanted = String::from_str(name);
        self.position(&wanted).is_some()
    }

    /// All names of the table, each once, in the order in which they were
    /// first put in.
    pub fn names(&self) -> (r: Vec<String>)
        ensures
            texts(r@) == self.name_list(),
            lists_keys(self.name_list(), self@),
    {
        proof {
            use_type_invariant(self);
            self.names_are_keys();
        }
        let mut out: Vec<String> = Vec::new();
        let mut i: usize = 0;
        while i < self.scripts.len()
            invariant
                i <= self.scripts.len(),
                out.len() == i,
                forall|k: int| 0 <= k < i ==> out[k]@ == self.scripts[k].name@,
            decreases self.scripts.len() - i,
        {
            out.push(self.scripts[i].name.clone());
            i += 1;
        }
        assert(texts(out@) =~= self.name_list());
        out
    }
}

} // verus!
