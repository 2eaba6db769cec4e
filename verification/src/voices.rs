//! The table from voice names to Kokoro speaker ids.
use vstd::prelude::*;
use vstd::string::*;

use crate::text::{lowercase, owned, to_lowercase};

verus! {

/// The map that a list of (name, id) entries describes; a later entry for a name
/// replaces an earlier one.
pub open spec fn entries_map(entries: Seq<(Seq<char>, i32)>) -> Map<Seq<char>, i32>
    decreases entries.len(),
{
    if entries.len() == 0 {
        Map::empty()
    } else {
        entries_map(entries.drop_last()).insert(entries.last().0, entries.last().1)
    }
}

/// The entries with each name lowercased.
pub open spec fn lowercase_entries(entries: Seq<(Seq<char>, i32)>) -> Seq<(Seq<char>, i32)> {
    entries.map_values(|e: (Seq<char>, i32)| (lowercase(e.0), e.1))
}

/// The characters of each entry's name, with its id.
pub open spec fn entries_view(entries: Seq<(String, i32)>) -> Seq<(Seq<char>, i32)> {
    entries.map_values(|e: (String, i32)| (e.0@, e.1))
}

/// Voice names mapped to speaker ids.
#[derive(Clone, Debug)]
pub struct VoiceMap {
    entries: Vec<(String, i32)>,
}

impl VoiceMap {
    /// The entries in the order they were first inserted.
    pub closed spec fn entries(&self) -> Seq<(Seq<char>, i32)> {
        entries_view(self.entries@)
    }
}

impl View for VoiceMap {
    type V = Map<Seq<char>, i32>;

    open spec fn view(&self) -> Map<Seq<char>, i32> {
        entries_map(self.entries())
    }
}

/// Index `j` holds the last entry for `key`.
pub open spec fn last_entry_for(entries: Seq<(Seq<char>, i32)>, key: Seq<char>, j: int) -> bool {
    &&& 0 <= j < entries.len()
    &&& entries[j].0 == key
    &&& forall|k: int| j < k < entries.len() ==> (#[trigger] entries[k]).0 != key
}

proof fn lemma_entries_map_last(entries: Seq<(Seq<char>, i32)>, key: Seq<char>, j: int)
    requires
        last_entry_for(entries, key, j),
    ensures
        entries_map(entries).contains_key(key),
        entries_map(entries)[key] == entries[j].1,
    decreases entries.len(),
{
    if j < entries.len() - 1 {
        let e = entries.drop_last();
        assert(entries[entries.len() - 1].0 != key);
        assert forall|k: int| j < k < e.len() implies (#[trigger] e[k]).0 != key by {
            assert(e[k] == entries[k]);
        }
        lemma_entries_map_last(e, key, j);
    }
}

proof fn lemma_entries_map_absent(entries: Seq<(Seq<char>, i32)>, key: Seq<char>)
    requires
        forall|k: int| 0 <= k < entries.len() ==> (#[trigger] entries[k]).0 != key,
    ensures
        !entries_map(entries).contains_key(key),
    decreases entries.len(),
{
    if entries.len() > 0 {
        let e = entries.drop_last();
        assert forall|k: int| 0 <= k < e.len() implies (#[trigger] e[k]).0 != key by {
            assert(e[k] == entries[k]);
        }
        assert(entries[entries.len() - 1].0 != key);
        lemma_entries_map_absent(e, key);
    }
}

proof fn lemma_entries_map_update(entries: Seq<(Seq<char>, i32)>, key: Seq<char>, j: int, id: i32)
    requires
        last_entry_for(entries, key, j),
    ensures
        entries_map(entries.update(j, (key, id))) == entries_map(entries).insert(key, id),
    decreases entries.len(),
{
    let u = entries.update(j, (key, id));
    if j == entries.len() - 1 {
        assert(u.drop_last() =~= entries.drop_last());
        assert(entries_map(u) =~= entries_map(entries).insert(key, id));
    } else {
        let e = entries.drop_last();
        assert forall|k: int| j < k < e.len() implies (#[trigger] e[k]).0 != key by {
            assert(e[k] == entries[k]);
        }
        lemma_entries_map_update(e, key, j, id);
        assert(u.drop_last() =~= e.update(j, (key, id)));
        assert(entries[entries.len() - 1].0 != key);
        assert(u.last() == entries.last());
        assert(entries_map(u) =~= entries_map(entries).insert(key, id));
    }
}

impl VoiceMap {
    /// An empty table.
    pub fn new() -> (r: VoiceMap)
        ensures
            r@ == Map::<Seq<char>, i32>::empty(),
            r.entries() == Seq::<(Seq<char>, i32)>::empty(),
    {
        let r = VoiceMap { entries: Vec::new() };
        proof {
            assert(r.entries() =~= Seq::<(Seq<char>, i32)>::empty());
        }
        r
    }

    /// The position of the last entry for `name`, if any.
    fn find(&self, name: &str) -> (r: Option<usize>)
        ensures
            match r {
                Some(j) => last_entry_for(self.entries(), name@, j as int),
                None => forall|k: int|
                    0 <= k < self.entries().len() ==> (#[trigger] self.entries()[k]).0 != name@,
            },
    {
        let key = owned(name);
        let mut i: usize = self.entries.len();
        while i > 0
            invariant
                i <= self.entries@.len(),
                key@ == name@,
                forall|k: int|
                    i <= k < self.entries().len() ==> (#[trigger] self.entries()[k]).0 != name@,
            decreases i,
        {
            i = i - 1;
            if self.entries[i].0 == key {
                return Some(i);
            }
            proof {
                assert(self.entries()[i as int] == (self.entries@[i as int].0@, self.entries@[i as int].1));
            }
        }
        None
    }

    /// The speaker id for `name`, if the table has one.
    pub fn get(&self, name: &str) -> (r: Option<&i32>)
        ensures
            match r {
                Some(id) => self@.contains_key(name@) && self@[name@] == *id,
                None => !self@.contains_key(name@),
            },
    {
        match self.find(name) {
            Some(j) => {
                proof {
                    lemma_entries_map_last(self.entries(), name@, j as int);
                }
                Some(&self.entries[j].1)
            },
            None => {
                proof {
                    lemma_entries_map_absent(self.entries(), name@);
                }
                None
            },
        }
    }

    /// Sets the speaker id of `name`, replacing the one it had.
    pub fn insert(&mut self, name: String, id: i32)
        ensures
            final(self)@ == old(self)@.insert(name@, id),
    {
        match self.find(name.as_str()) {
            Some(j) => {
                proof {
                    lemma_entries_map_update(self.entries(), name@, j as int, id);
                }
                let ghost before = self.entries@;
                self.entries.set(j, (name, id));
                proof {
                    assert(self.entries() =~= entries_view(before).update(j as int, (name@, id)));
                }
            },
            None => {
                let ghost before = self.entries();
                let ghost n = name@;
                self.entries.push((name, id));
                proof {
                    assert(self.entries() =~= before.push((n, id)));
                    assert(self.entries().drop_last() =~= before);
                }
            },
        }
    }
}

/// The six OpenAI voice names mapped to Kokoro speakers 0 to 5.
pub open spec fn spec_default_voices() -> Map<Seq<char>, i32> {
    Map::empty().insert("alloy"@, 0i32).insert("echo"@, 1i32).insert("fable"@, 2i32).insert(
        "onyx"@,
        3i32,
    ).insert("nova"@, 4i32).insert("shimmer"@, 5i32)
}

/// The entries of the built-in table, in order.
pub open spec fn spec_default_voice_entries() -> Seq<(Seq<char>, i32)> {
    seq![
        ("alloy"@, 0i32),
        ("echo"@, 1i32),
        ("fable"@, 2i32),
        ("onyx"@, 3i32),
        ("nova"@, 4i32),
        ("shimmer"@, 5i32),
    ]
}

/// The built-in table: `alloy` 0, `echo` 1, `fable` 2, `onyx` 3, `nova` 4, `shimmer` 5,
/// entered in this order.
pub fn default_voice_map() -> (r: VoiceMap)
    ensures
        r@ == spec_default_voices(),
        r.entries() == spec_default_voice_entries(),
{
    let mut entries: Vec<(String, i32)> = Vec::new();
    entries.push((owned("alloy"), 0));
    entries.push((owned("echo"), 1));
    entries.push((owned("fable"), 2));
    entries.push((owned("onyx"), 3));
    entries.push((owned("nova"), 4));
    entries.push((owned("shimmer"), 5));
    let m = VoiceMap { entries };
    proof {
        assert(m.entries() =~= spec_default_voice_entries());
        reveal_with_fuel(entries_map, 7);
        let e = spec_default_voice_entries();
        assert(e.drop_last().drop_last().drop_last().drop_last().drop_last().drop_last()
            =~= Seq::<(Seq<char>, i32)>::empty());
        assert(e.drop_last().drop_last().drop_last().drop_last().drop_last() =~= seq![("alloy"@, 0i32)]);
        assert(e.drop_last().drop_last().drop_last().drop_last() =~= seq![("alloy"@, 0i32), ("echo"@, 1i32)]);
        assert(e.drop_last().drop_last().drop_last() =~= seq![("alloy"@, 0i32), ("echo"@, 1i32), ("fable"@, 2i32)]);
        assert(e.drop_last().drop_last() =~= seq![("alloy"@, 0i32), ("echo"@, 1i32), ("fable"@, 2i32), ("onyx"@, 3i32)]);
        assert(e.drop_last() =~= seq![("alloy"@, 0i32), ("echo"@, 1i32), ("fable"@, 2i32), ("onyx"@, 3i32), ("nova"@, 4i32)]);
        assert(entries_map(e) =~= spec_default_voices());
    }
    m
}

/// The same table keyed by lowercased names; where two names lowercase alike, the one
/// of the later entry wins.
pub fn lowercase_keys(map: &VoiceMap) -> (r: VoiceMap)
    ensures
        r@ == entries_map(lowercase_entries(map.entries())),
{
    let mut out = VoiceMap::new();
    let n = map.entries.len();
    let mut i: usize = 0;
    while i < n
        invariant
            n == map.entries@.len(),
            i <= n,
            out@ == entries_map(lowercase_entries(map.entries().take(i as int))),
        decreases n - i,
    {
        let name = to_lowercase(map.entries[i].0.as_str());
        let id = map.entries[i].1;
        proof {
            let t = map.entries().take(i + 1);
            assert(lowercase_entries(t).drop_last() =~= lowercase_entries(
                map.entries().take(i as int),
            ));
            assert(map.entries()[i as int] == (map.entries@[i as int].0@, id));
            assert(lowercase_entries(t).last() == (name@, id));
        }
        out.insert(name, id);
        i = i + 1;
    }
    proof {
        assert(map.entries().take(n as int) =~= map.entries());
    }
    out
}

/// With no two names that lowercase alike, every name is found by its lowercase form
/// with its own speaker id.
pub proof fn lemma_lowercase_keys_keep_ids(map: VoiceMap, name: Seq<char>)
    requires
        map@.contains_key(name),
        forall|i: int, j: int|
            0 <= i < map.entries().len() && 0 <= j < map.entries().len() && i != j ==> lowercase(
                #[trigger] map.entries()[i].0,
            ) != lowercase(#[trigger] map.entries()[j].0),
    ensures
        entries_map(lowercase_entries(map.entries())).contains_key(lowercase(name)),
        entries_map(lowercase_entries(map.entries()))[lowercase(name)] == map@[name],
{
    let es = map.entries();
    let j = lemma_contains_key_has_entry(es, name);
    let ls = lowercase_entries(es);
    assert(ls[j] == (lowercase(es[j].0), es[j].1));
    assert forall|k: int| j < k < ls.len() implies (#[trigger] ls[k]).0 != lowercase(name) by {
        assert(ls[k] == (lowercase(es[k].0), es[k].1));
    }
    lemma_entries_map_last(ls, lowercase(name), j);
    assert forall|k: int| j < k < es.len() implies (#[trigger] es[k]).0 != name by {
        if es[k].0 == name {
            assert(lowercase(es[k].0) == lowercase(es[j].0));
        }
    }
    lemma_entries_map_last(es, name, j);
}

/// A name in the map has a last entry.
proof fn lemma_contains_key_has_entry(entries: Seq<(Seq<char>, i32)>, key: Seq<char>) -> (j: int)
    requires
        entries_map(entries).contains_key(key),
    ensures
        last_entry_for(entries, key, j),
    decreases entries.len(),
{
    if entries.last().0 == key {
        entries.len() - 1
    } else {
        let e = entries.drop_last();
        let j = lemma_contains_key_has_entry(e, key);
        assert(entries[entries.len() - 1].0 != key);
        assert forall|k: int| j < k < entries.len() implies (#[trigger] entries[k]).0 != key by {
            if k < e.len() {
                assert(e[k] == entries[k]);
            }
        }
        j
    }
}

/// Reading a name back after setting it gives the id set; every other name keeps what
/// it had.
pub proof fn lemma_get_after_insert(table: Map<Seq<char>, i32>, name: Seq<char>, id: i32, other: Seq<char>)
    ensures
        table.insert(name, id).contains_key(name),
        table.insert(name, id)[name] == id,
        other != name ==> (table.insert(name, id).contains_key(other) == table.contains_key(other)),
        other != name && table.contains_key(other) ==> table.insert(name, id)[other] == table[other],
{
}

} // verus!
