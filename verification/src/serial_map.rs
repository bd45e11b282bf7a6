//! A map keyed by serial number.

use vstd::prelude::*;

use crate::text::same_text;

verus! {

/// A map from serial numbers to values, kept in the order in which the serials
/// first came. Its view is the map.
#[derive(Debug)]
pub struct SerialMap<V> {
    entries: Vec<(String, V)>,
}

/// True where no two entries have the same serial.
pub open spec fn distinct_serials<V>(entries: Seq<(String, V)>) -> bool {
    forall|i: int, j: int|
        0 <= i < j < entries.len() ==> #[trigger] entries[i].0@ != #[trigger] entries[j].0@
}

/// True where an entry has the serial.
pub open spec fn lists<V>(entries: Seq<(String, V)>, serial: Seq<char>) -> bool {
    exists|i: int| 0 <= i < entries.len() && #[trigger] entries[i].0@ == serial
}

/// The map that a list of entries stands for.
pub open spec fn map_of<V>(entries: Seq<(String, V)>) -> Map<Seq<char>, V> {
    Map::new(
        |serial: Seq<char>| lists(entries, serial),
        |serial: Seq<char>|
            entries[choose|i: int| 0 <= i < entries.len() && #[trigger] entries[i].0@ == serial].1,
    )
}

/// Every entry of a list is in its map.
pub proof fn lemma_entry<V>(entries: Seq<(String, V)>, i: int)
    requires
        distinct_serials(entries),
        0 <= i < entries.len(),
    ensures
        map_of(entries).contains_key(entries[i].0@),
        map_of(entries)[entries[i].0@] == entries[i].1,
{
    let serial = entries[i].0@;
    assert(lists(entries, serial));
    let j = choose|j: int| 0 <= j < entries.len() && #[trigger] entries[j].0@ == serial;
    assert(i == j);
}

proof fn lemma_push<V>(entries: Seq<(String, V)>, serial: String, value: V)
    requires
        distinct_serials(entries),
        !lists(entries, serial@),
    ensures
        distinct_serials(entries.push((serial, value))),
        map_of(entries.push((serial, value))) == map_of(entries).insert(serial@, value),
{
    let more = entries.push((serial, value));
    assert forall|i: int, j: int| 0 <= i < j < more.len() implies #[trigger] more[i].0@
        != #[trigger] more[j].0@ by {
        if j == entries.len() {
            assert(entries[i].0@ == more[i].0@);
        } else {
            assert(entries[i].0@ != entries[j].0@);
        }
    }
    assert forall|s: Seq<char>| #[trigger] lists(more, s) == (lists(entries, s) || s == serial@) by {
        if lists(entries, s) {
            let i = choose|i: int| 0 <= i < entries.len() && #[trigger] entries[i].0@ == s;
            assert(more[i].0@ == s);
        }
        if s == serial@ {
            assert(more[entries.len() as int].0@ == s);
        }
        if lists(more, s) && s != serial@ {
            let i = choose|i: int| 0 <= i < more.len() && #[trigger] more[i].0@ == s;
            assert(entries[i].0@ == s);
        }
    }
    assert forall|s: Seq<char>| #[trigger]
        map_of(more).contains_key(s) implies map_of(more)[s] == map_of(entries).insert(
        serial@,
        value,
    )[s] by {
        let i = choose|i: int| 0 <= i < more.len() && #[trigger] more[i].0@ == s;
        lemma_entry(more, i);
        if i < entries.len() {
            lemma_entry(entries, i);
            assert(entries[i].0@ == s);
        }
    }
    assert(map_of(more) =~= map_of(entries).insert(serial@, value));
}

proof fn lemma_update<V>(entries: Seq<(String, V)>, at: int, serial: String, value: V)
    requires
        distinct_serials(entries),
        0 <= at < entries.len(),
        entries[at].0@ == serial@,
    ensures
        distinct_serials(entries.update(at, (serial, value))),
        map_of(entries.update(at, (serial, value))) == map_of(entries).insert(serial@, value),
{
    let other = entries.update(at, (serial, value));
    assert forall|i: int, j: int| 0 <= i < j < other.len() implies #[trigger] other[i].0@
        != #[trigger] other[j].0@ by {
        assert(entries[i].0@ != entries[j].0@);
    }
    assert forall|s: Seq<char>| #[trigger] lists(other, s) == lists(entries, s) by {
        if lists(entries, s) {
            let i = choose|i: int| 0 <= i < entries.len() && #[trigger] entries[i].0@ == s;
            assert(other[i].0@ == s);
        }
        if lists(other, s) {
            let i = choose|i: int| 0 <= i < other.len() && #[trigger] other[i].0@ == s;
            assert(entries[i].0@ == s);
        }
    }
    assert(lists(entries, serial@));
    assert forall|s: Seq<char>| #[trigger]
        map_of(other).contains_key(s) implies map_of(other)[s] == map_of(entries).insert(
        serial@,
        value,
    )[s] by {
        let i = choose|i: int| 0 <= i < other.len() && #[trigger] other[i].0@ == s;
        lemma_entry(other, i);
        lemma_entry(entries, i);
        assert(entries[i].0@ == s);
        if i != at {
            assert(entries[i].0@ != entries[at].0@);
        }
    }
    assert(map_of(other) =~= map_of(entries).insert(serial@, value));
}

/// One more entry of a list adds its serial and its value to the map.
pub proof fn lemma_map_of_prefix<V>(entries: Seq<(String, V)>, i: int)
    requires
        distinct_serials(entries),
        0 <= i < entries.len(),
    ensures
        map_of(entries.take(i + 1)) == map_of(entries.take(i)).insert(
            entries[i].0@,
            entries[i].1,
        ),
{
    let fewer = entries.take(i);
    assert(entries.take(i + 1) =~= fewer.push(entries[i]));
    assert forall|a: int, b: int| 0 <= a < b < fewer.len() implies #[trigger] fewer[a].0@
        != #[trigger] fewer[b].0@ by {
        assert(entries[a].0@ != entries[b].0@);
    }
    if lists(fewer, entries[i].0@) {
        let k = choose|k: int| 0 <= k < fewer.len() && #[trigger] fewer[k].0@ == entries[i].0@;
        assert(entries[k].0@ == entries[i].0@);
    }
    lemma_push(fewer, entries[i].0, entries[i].1);
    assert(fewer.push(entries[i]) =~= fewer.push((entries[i].0, entries[i].1)));
}

impl<V> View for SerialMap<V> {
    type V = Map<Seq<char>, V>;

    closed spec fn view(&self) -> Map<Seq<char>, V> {
        map_of(self.entries@)
    }
}

impl<V> SerialMap<V> {
    #[verifier::type_invariant]
    spec fn wf(self) -> bool {
        distinct_serials(self.entries@)
    }

    /// A map without entries.
    pub fn new() -> (r: Self)
        ensures
            r@ == Map::<Seq<char>, V>::empty(),
    {
        let r = SerialMap { entries: Vec::new() };
        assert(r@ =~= Map::<Seq<char>, V>::empty());
        r
    }

    fn position(&self, serial: &str) -> (r: Option<usize>)
        ensures
            match r {
                Some(i) => i < self.entries.len() && self.entries@[i as int].0@ == serial@,
                None => !lists(self.entries@, serial@),
            },
    {
        let mut i: usize = 0;
        while i < self.entries.len()
            invariant
                i <= self.entries.len(),
                forall|k: int| 0 <= k < i ==> #[trigger] self.entries@[k].0@ != serial@,
            decreases self.entries.len() - i,
        {
            if same_text(self.entries[i].0.as_str(), serial) {
                return Some(i);
            }
            i += 1;
        }
        None
    }

    /// The value of a serial.
    pub fn get(&self, serial: &str) -> (r: Option<&V>)
        ensures
            match r {
                Some(v) => self@.contains_key(serial@) && *v == self@[serial@],
                None => !self@.contains_key(serial@),
            },
    {
        proof {
            use_type_invariant(self);
        }
        match self.position(serial) {
            Some(i) => {
                proof {
                    lemma_entry(self.entries@, i as int);
                }
                Some(&self.entries[i].1)
            },
            None => None,
        }
    }

    /// Gives a serial a value, in place of the one that it has.
    pub fn insert(&mut self, serial: String, value: V)
        ensures
            final(self)@ == old(self)@.insert(serial@, value),
    {
        proof {
            use_type_invariant(&*self);
        }
        let found = self.position(serial.as_str());
        let mut entries: Vec<(String, V)> = Vec::new();
        std::mem::swap(&mut entries, &mut self.entries);
        match found {
            Some(i) => {
                proof {
                    lemma_update(entries@, i as int, serial, value);
                }
                entries.set(i, (serial, value));
            },
            None => {
                proof {
                    lemma_push(entries@, serial, value);
                }
                entries.push((serial, value));
            },
        }
        self.entries = entries;
    }

    /// Tests for a map without entries.
    pub fn is_empty(&self) -> (r: bool)
        ensures
            r == (self@ == Map::<Seq<char>, V>::empty()),
    {
        proof {
            use_type_invariant(self);
            if self.entries.len() > 0 {
                lemma_entry(self.entries@, 0);
            } else {
                assert(self@ =~= Map::<Seq<char>, V>::empty());
            }
        }
        self.entries.len() == 0
    }

    /// The entries: every serial of the map once, with its value.
    pub fn entries(&self) -> (r: &Vec<(String, V)>)
        ensures
            distinct_serials(r@),
            self@ == map_of(r@),
    {
        proof {
            use_type_invariant(self);
        }
        &self.entries
    }
}

} // verus!
