//! How often each property has failed so far.

use vstd::prelude::*;

verus! {

/// A name with the number of times it was seen.
#[derive(Debug)]
pub struct Occurrence {
    name: String,
    count: u64,
}

/// A table from names to counts. No name stands in it twice, and a name that
/// stands in it was seen at least once.
#[derive(Debug)]
pub struct Occurrences {
    entries: Vec<Occurrence>,
}

/// `name` stands at position `i`.
spec fn holds_at(entries: Seq<Occurrence>, name: Seq<char>, i: int) -> bool {
    0 <= i < entries.len() && entries[i].name@ == name
}

/// No name stands at two positions, and no count is zero.
spec fn well_formed(entries: Seq<Occurrence>) -> bool {
    &&& forall|i: int, j: int|
        0 <= i < j < entries.len() ==> #[trigger] entries[i].name@ != #[trigger] entries[j].name@
    &&& forall|i: int| 0 <= i < entries.len() ==> (#[trigger] entries[i]).count > 0
}

/// The table as a map: the names seen, each with its count.
spec fn table(entries: Seq<Occurrence>) -> Map<Seq<char>, nat> {
    Map::new(
        |name: Seq<char>| exists|i: int| holds_at(entries, name, i),
        |name: Seq<char>| entries[choose|i: int| holds_at(entries, name, i)].count as nat,
    )
}

proof fn lemma_table_at(entries: Seq<Occurrence>, i: int)
    requires
        well_formed(entries),
        0 <= i < entries.len(),
    ensures
        table(entries).contains_key(entries[i].name@),
        table(entries)[entries[i].name@] == entries[i].count,
{
    let name = entries[i].name@;
    assert(holds_at(entries, name, i));
    let k = choose|k: int| holds_at(entries, name, k);
    assert(holds_at(entries, name, k));
    if k < i {
        assert(entries[k].name@ != entries[i].name@);
    }
    if i < k {
        assert(entries[i].name@ != entries[k].name@);
    }
}

/// How often `name` has been seen according to `counts`: nothing where the
/// map does not hold it.
pub open spec fn seen(counts: Map<Seq<char>, nat>, name: Seq<char>) -> nat {
    if counts.contains_key(name) {
        counts[name]
    } else {
        0
    }
}

impl View for Occurrences {
    type V = Map<Seq<char>, nat>;

    closed spec fn view(&self) -> Map<Seq<char>, nat> {
        table(self.entries@)
    }
}

impl Occurrences {
    #[verifier::type_invariant]
    spec fn distinct(self) -> bool {
        well_formed(self.entries@)
    }

    /// The empty table.
    pub fn new() -> (r: Self)
        ensures
            r@ == Map::<Seq<char>, nat>::empty(),
    {
        let r = Self { entries: Vec::new() };
        assert(r@ =~= Map::<Seq<char>, nat>::empty());
        r
    }

    /// How often `name` has been counted.
    pub fn count_of(&self, name: &str) -> (count: u64)
        ensures
            count == seen(self@, name@),
    {
        proof {
            use_type_invariant(self);
        }
        let wanted: String = name.to_string();
        let mut i: usize = 0;
        while i < self.entries.len()
            invariant
                i <= self.entries.len(),
                wanted@ == name@,
                well_formed(self.entries@),
                forall|j: int| 0 <= j < i ==> !holds_at(self.entries@, name@, j),
            decreases self.entries.len() - i,
        {
            if self.entries[i].name == wanted {
                proof {
                    lemma_table_at(self.entries@, i as int);
                }
                return self.entries[i].count;
            }
            i += 1;
        }
        assert(!table(self.entries@).contains_key(name@));
        0
    }

    /// Counts one more occurrence of `name` and returns how many there are
    /// now.
    pub fn bump(&mut self, name: &str) -> (count: u64)
        requires
            seen(old(self)@, name@) < u64::MAX,
        ensures
            count == seen(old(self)@, name@) + 1,
            final(self)@ == old(self)@.insert(name@, count as nat),
    {
        proof {
            use_type_invariant(&*self);
        }
        let ghost before = self.entries@;
        let wanted: String = name.to_string();
        let mut entries: Vec<Occurrence> = Vec::new();
        core::mem::swap(&mut self.entries, &mut entries);
        let mut i: usize = 0;
        while i < entries.len()
            invariant
                i <= entries.len(),
                wanted@ == name@,
                entries@ == before,
                old(self)@ == table(before),
                seen(table(before), name@) < u64::MAX,
                well_formed(before),
                forall|j: int| 0 <= j < i ==> !holds_at(before, name@, j),
            decreases entries.len() - i,
        {
            if entries[i].name == wanted {
                proof {
                    lemma_table_at(before, i as int);
                }
                let count: u64 = entries[i].count + 1;
                entries.set(i, Occurrence { name: wanted, count });
                proof {
                    let after = entries@;
                    assert(well_formed(after)) by {
                        assert forall|a: int, b: int| 0 <= a < b < after.len() implies after[a].name@
                            != after[b].name@ by {
                            assert(before[a].name@ != before[b].name@);
                        }
                    }
                    assert forall|n: Seq<char>| #[trigger]
                        table(after).contains_key(n) == table(before).contains_key(n) by {
                        if table(before).contains_key(n) {
                            let k = choose|k: int| holds_at(before, n, k);
                            assert(holds_at(after, n, k));
                        }
                        if table(after).contains_key(n) {
                            let k = choose|k: int| holds_at(after, n, k);
                            assert(holds_at(before, n, k));
                        }
                    }
                    assert forall|n: Seq<char>| table(after).contains_key(n) implies #[trigger]
                        table(after)[n] == table(before).insert(name@, count as nat)[n] by {
                        let k = choose|k: int| holds_at(after, n, k);
                        assert(holds_at(after, n, k));
                        lemma_table_at(after, k);
                        if k != i {
                            lemma_table_at(before, k);
                        }
                    }
                    assert(table(after) =~= table(before).insert(name@, count as nat));
                }
                self.entries = entries;
                return count;
            }
            i += 1;
        }
        entries.push(Occurrence { name: wanted, count: 1 });
        proof {
            let after = entries@;
            let last = before.len() as int;
            assert(!table(before).contains_key(name@));
            assert(well_formed(after)) by {
                assert forall|a: int, b: int| 0 <= a < b < after.len() implies after[a].name@
                    != after[b].name@ by {
                    if b == last {
                        assert(!holds_at(before, name@, a));
                    } else {
                        assert(before[a].name@ != before[b].name@);
                    }
                }
            }
            assert forall|n: Seq<char>| #[trigger]
                table(after).contains_key(n) == table(before).insert(name@, 1).contains_key(
                    n,
                ) by {
                if table(before).contains_key(n) {
                    let k = choose|k: int| holds_at(before, n, k);
                    assert(holds_at(after, n, k));
                }
                if n == name@ {
                    assert(holds_at(after, n, last));
                }
                if table(after).contains_key(n) {
                    let k = choose|k: int| holds_at(after, n, k);
                    if k != last {
                        assert(holds_at(before, n, k));
                    }
                }
            }
            assert forall|n: Seq<char>| table(after).contains_key(n) implies #[trigger]
                table(after)[n] == table(before).insert(name@, 1)[n] by {
                let k = choose|k: int| holds_at(after, n, k);
                assert(holds_at(after, n, k));
                lemma_table_at(after, k);
                if k != last {
                    lemma_table_at(before, k);
                }
            }
            assert(table(after) =~= table(before).insert(name@, 1));
        }
        self.entries = entries;
        1
    }
}

} // verus!
