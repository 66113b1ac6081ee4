//! Named command registry: assigns stable numeric identifiers to command
//! names, in registration order, and resolves commands by name or by
//! identifier. Registering a name again gives it a fresh identifier; the
//! newest identifier wins on lookup by name.

use vstd::prelude::*;

verus! {

/// A registered command: its numeric identifier and its name.
#[derive(Clone, Debug, PartialEq)]
pub struct Command {
    pub id: u32,
    pub name: String,
}

/// The command registry. Identifier `i` belongs to the `i`-th registration;
/// looking a name up yields the newest identifier registered under it.
#[derive(Debug)]
pub struct CommandDirectory {
    /// All registered names, in registration order; the index is the id.
    names: Vec<String>,
    /// The distinct registered names, in order of first registration.
    distinct: Vec<String>,
}

impl CommandDirectory {
    /// The sequence of all registered names, in registration order; the
    /// identifier of a registration is its position here.
    pub closed spec fn names(self) -> Seq<Seq<char>> {
        self.names@.map_values(|s: String| s@)
    }

    /// Whether some registration used the name `n`.
    pub open spec fn registered(self, n: Seq<char>) -> bool {
        exists|i: int| 0 <= i < self.names().len() && self.names()[i] == n
    }

    /// The set of distinct registered names.
    pub open spec fn distinct_names(self) -> Set<Seq<char>> {
        self.names().to_set()
    }

    /// Whether `id` is the newest identifier registered under the name `n`.
    pub open spec fn name_maps_to(self, n: Seq<char>, id: u32) -> bool {
        &&& 0 <= id < self.names().len()
        &&& self.names()[id as int] == n
        &&& forall|j: int| id < j < self.names().len() ==> self.names()[j] != n
    }

    /// Whether the distinct-name list has an entry equal to `n`.
    spec fn distinct_has(self, n: Seq<char>) -> bool {
        exists|j: int| 0 <= j < self.distinct@.len() && (#[trigger] self.distinct@[j])@ == n
    }

    /// Internal consistency: identifiers fit in `u32`, and `distinct` lists
    /// each registered name exactly once.
    pub closed spec fn wf(self) -> bool {
        &&& self.names@.len() <= u32::MAX
        &&& (forall|i: int, j: int|
            0 <= i < j < self.distinct@.len() ==> (#[trigger] self.distinct@[i])@ != (
            #[trigger] self.distinct@[j])@)
        &&& (forall|i: int|
            0 <= i < self.distinct@.len() ==> self.registered((#[trigger] self.distinct@[i])@))
        &&& (forall|i: int|
            0 <= i < self.names@.len() ==> self.distinct_has((#[trigger] self.names@[i])@))
    }

    pub fn new() -> (d: CommandDirectory)
        ensures
            d.names() == Seq::<Seq<char>>::empty(),
            d.wf(),
    {
        let d = CommandDirectory { names: Vec::new(), distinct: Vec::new() };
        proof {
            assert(d.names() =~= Seq::<Seq<char>>::empty());
        }
        d
    }

    /// Registers `name` under a fresh identifier (the number of earlier
    /// registrations) and returns the command. A name registered twice gets
    /// a second, newer identifier.
    pub fn register_command(&mut self, name: String) -> (c: Command)
        requires
            old(self).wf(),
            old(self).names().len() < u32::MAX,
        ensures
            final(self).wf(),
            final(self).names() == old(self).names().push(name@),
            c.id == old(self).names().len(),
            c.name@ == name@,
    {
        let ghost pre = *old(self);
        let id: u32 = self.names.len() as u32;
        let named = name.clone();
        self.names.push(name.clone());
        proof {
            assert(self.names() =~= pre.names().push(name@));
        }

        let mut found = false;
        let mut j: usize = 0;
        while j < self.distinct.len()
            invariant
                0 <= j <= self.distinct@.len(),
                named@ == name@,
                !found ==> forall|i: int| 0 <= i < j ==> (#[trigger] self.distinct@[i])@ != name@,
                found ==> exists|i: int|
                    0 <= i < self.distinct@.len() && (#[trigger] self.distinct@[i])@ == name@,
            decreases self.distinct@.len() - j,
        {
            if self.distinct[j].eq(&named) {
                found = true;
            }
            j += 1;
        }
        if !found {
            self.distinct.push(named);
        }
        proof {
            let post = *self;
            assert forall|a: int, b: int|
                0 <= a < b < post.distinct@.len() implies (#[trigger] post.distinct@[a])@ != (
            #[trigger] post.distinct@[b])@ by {
                if b < pre.distinct@.len() {
                    assert(pre.distinct@[a]@ != pre.distinct@[b]@);
                } else {
                    assert(!found);
                    assert(post.distinct@[b]@ == name@);
                    assert(post.distinct@[a] == pre.distinct@[a]);
                    assert(pre.distinct@[a]@ != name@);
                }
            }
            assert forall|i: int|
                0 <= i < post.distinct@.len() implies post.registered(
                (#[trigger] post.distinct@[i])@,
            ) by {
                if i < pre.distinct@.len() {
                    let di = pre.distinct@[i];
                    assert(pre.registered(di@));
                    let k = choose|k: int|
                        0 <= k < pre.names().len() && pre.names()[k] == di@;
                    assert(post.names()[k] == pre.names()[k]);
                    assert(post.distinct@[i] == di);
                } else {
                    assert(post.distinct@[i]@ == name@);
                    assert(post.names()[post.names().len() - 1] == name@);
                }
            }
            assert forall|i: int|
                0 <= i < post.names@.len() implies post.distinct_has(
                (#[trigger] post.names@[i])@,
            ) by {
                if i < post.names@.len() - 1 {
                    let ni = pre.names@[i];
                    assert(post.names@[i] == ni);
                    assert(pre.distinct_has(ni@));
                    let k = choose|k: int|
                        0 <= k < pre.distinct@.len() && (#[trigger] pre.distinct@[k])@ == ni@;
                    assert(post.distinct@[k] == pre.distinct@[k]);
                    assert(post.distinct@[k]@ == post.names@[i]@);
                } else {
                    assert(post.names@[i]@ == name@);
                    if found {
                        let k = choose|k: int|
                            0 <= k < post.distinct@.len() && (#[trigger] post.distinct@[k])@
                                == name@;
                        assert(post.distinct@[k]@ == post.names@[i]@);
                    } else {
                        let k = post.distinct@.len() - 1;
                        assert(post.distinct@[k]@ == name@);
                        assert(post.distinct@[k]@ == post.names@[i]@);
                    }
                }
            }
            assert(pre.names().len() == pre.names@.len());
            assert(post.names@.len() <= u32::MAX);
        }
        Command { id, name }
    }

    /// The number of distinct registered names.
    pub fn len(&self) -> (r: usize)
        requires
            self.wf(),
        ensures
            r == self.distinct_names().len(),
    {
        proof {
            self.lemma_distinct_counts_names();
        }
        self.distinct.len()
    }

    /// Whether no command has been registered.
    pub fn is_empty(&self) -> (r: bool)
        requires
            self.wf(),
        ensures
            r == (self.names().len() == 0),
    {
        proof {
            if self.names@.len() > 0 {
                let n0 = self.names@[0];
                assert(self.distinct_has(n0@));
                let j = choose|j: int|
                    0 <= j < self.distinct@.len() && (#[trigger] self.distinct@[j])@ == n0@;
                assert(self.distinct@.len() > 0);
            }
            if self.distinct@.len() > 0 {
                let d0 = self.distinct@[0];
                assert(self.registered(d0@));
            }
        }
        self.distinct.is_empty()
    }

    /// Resolves a name to its newest identifier: `Some` exactly when the
    /// name was registered.
    pub fn get_command_by_name(&self, name: &str) -> (r: Option<Command>)
        requires
            self.wf(),
        ensures
            r is Some <==> self.registered(name@),
            match r {
                Option::Some(c) => self.name_maps_to(name@, c.id) && c.name@ == name@,
                Option::None => true,
            },
    {
        let owned: String = name.to_owned();
        let mut i: usize = self.names.len();
        while i > 0
            invariant
                0 <= i <= self.names@.len(),
                owned@ == name@,
                self.wf(),
                forall|j: int| i <= j < self.names().len() ==> self.names()[j] != name@,
            decreases i,
        {
            i -= 1;
            if self.names[i].eq(&owned) {
                proof {
                    assert(self.names()[i as int] == name@);
                }
                return Some(Command { id: i as u32, name: self.names[i].clone() });
            }
            proof {
                assert(self.names()[i as int] != name@);
            }
        }
        None
    }

    /// Resolves an identifier to its command: `Some` exactly when the
    /// identifier was handed out by an earlier registration.
    pub fn get_command_by_id(&self, id: u32) -> (r: Option<Command>)
        ensures
            r is Some <==> id < self.names().len(),
            match r {
                Option::Some(c) => c.id == id && c.name@ == self.names()[id as int],
                Option::None => true,
            },
    {
        if (id as usize) < self.names.len() {
            Some(Command { id, name: self.names[id as usize].clone() })
        } else {
            None
        }
    }

    /// The `distinct` list has exactly one entry per distinct registered
    /// name, so its length is the cardinality of the set of names.
    proof fn lemma_distinct_counts_names(self)
        requires
            self.wf(),
        ensures
            self.distinct@.len() == self.distinct_names().len(),
    {
        let firsts = self.distinct@.map_values(|s: String| s@);
        assert forall|i: int, j: int|
            0 <= i < firsts.len() && 0 <= j < firsts.len() && i != j implies firsts[i]
            != firsts[j] by {
            assert(firsts[i] == self.distinct@[i]@);
            assert(firsts[j] == self.distinct@[j]@);
            if i < j {
                assert(self.distinct@[i]@ != self.distinct@[j]@);
            } else {
                assert(self.distinct@[j]@ != self.distinct@[i]@);
            }
        }
        assert(firsts.no_duplicates());
        firsts.unique_seq_to_set();
        assert forall|n: Seq<char>| firsts.to_set().contains(n) implies self.names().to_set()
            .contains(n) by {
            let i = choose|i: int| 0 <= i < firsts.len() && firsts[i] == n;
            let di = self.distinct@[i];
            assert(self.registered(di@));
            let k = choose|k: int| 0 <= k < self.names().len() && self.names()[k] == n;
            assert(self.names().to_set().contains(self.names()[k]));
        }
        assert forall|n: Seq<char>| self.names().to_set().contains(n) implies firsts.to_set()
            .contains(n) by {
            let i = choose|i: int| 0 <= i < self.names().len() && self.names()[i] == n;
            let ni = self.names@[i];
            assert(self.distinct_has(ni@));
            let j = choose|j: int|
                0 <= j < self.distinct@.len() && (#[trigger] self.distinct@[j])@ == ni@;
            assert(firsts[j] == n);
            assert(firsts.to_set().contains(firsts[j]));
        }
        assert(firsts.to_set() =~= self.names().to_set());
    }
}

} // verus!
