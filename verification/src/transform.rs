use crate::param::{stripped_key, Parameter};
use vstd::prelude::*;

verus! {

/// The map a sequence of key/value entries denotes, folding left to right:
/// a later entry with the same key overwrites an earlier one.
pub open spec fn map_of(entries: Seq<(String, String)>) -> Map<Seq<char>, Seq<char>>
    decreases entries.len(),
{
    if entries.len() == 0 {
        Map::empty()
    } else {
        map_of(entries.drop_last()).insert(entries.last().0@, entries.last().1@)
    }
}

/// No two entries share a key.
pub open spec fn keys_unique(entries: Seq<(String, String)>) -> bool {
    forall|i: int, j: int|
        0 <= i < j < entries.len() ==> (#[trigger] entries[i]).0@ != (#[trigger] entries[j]).0@
}

/// The map a parameter sequence flattens to under a prefix of `strip`
/// characters: every parameter with both name and value present puts its
/// stripped name and its value into the map, in order, so that on a key
/// collision the later parameter wins; a parameter missing either field is
/// dropped.
pub open spec fn flat_of(params: Seq<Parameter>, strip: int) -> Map<Seq<char>, Seq<char>>
    decreases params.len(),
{
    if params.len() == 0 {
        Map::empty()
    } else {
        let rest = flat_of(params.drop_last(), strip);
        let p = params.last();
        if p.is_complete() {
            rest.insert(stripped_key(p.name_chars(), strip), p.value_chars())
        } else {
            rest
        }
    }
}

proof fn lemma_map_of_contains(entries: Seq<(String, String)>, k: Seq<char>)
    ensures
        map_of(entries).contains_key(k) <==> (exists|i: int|
            0 <= i < entries.len() && (#[trigger] entries[i]).0@ == k),
    decreases entries.len(),
{
    if entries.len() > 0 {
        lemma_map_of_contains(entries.drop_last(), k);
        if entries.last().0@ == k {
            assert(entries[entries.len() - 1].0@ == k);
        } else {
            if map_of(entries).contains_key(k) {
                let i = choose|i: int|
                    0 <= i < entries.drop_last().len() && (#[trigger] entries.drop_last()[i]).0@
                        == k;
                assert(entries[i].0@ == k);
            }
            if exists|i: int| 0 <= i < entries.len() && (#[trigger] entries[i]).0@ == k {
                let i = choose|i: int| 0 <= i < entries.len() && (#[trigger] entries[i]).0@ == k;
                assert(i < entries.len() - 1);
                assert(entries.drop_last()[i].0@ == k);
            }
        }
    }
}

proof fn lemma_map_of_at(entries: Seq<(String, String)>, i: int)
    requires
        keys_unique(entries),
        0 <= i < entries.len(),
    ensures
        map_of(entries).contains_key(entries[i].0@),
        map_of(entries)[entries[i].0@] == entries[i].1@,
    decreases entries.len(),
{
    if i < entries.len() - 1 {
        assert(entries.drop_last()[i] == entries[i]);
        lemma_map_of_at(entries.drop_last(), i);
        assert(entries.last().0@ != entries[i].0@);
    }
}

proof fn lemma_map_of_dom_len(entries: Seq<(String, String)>)
    requires
        keys_unique(entries),
    ensures
        map_of(entries).dom().finite(),
        map_of(entries).dom().len() == entries.len(),
    decreases entries.len(),
{
    if entries.len() == 0 {
        assert(map_of(entries).dom() =~= Set::<Seq<char>>::empty());
    } else {
        lemma_map_of_dom_len(entries.drop_last());
        lemma_map_of_contains(entries.drop_last(), entries.last().0@);
        assert forall|i: int| 0 <= i < entries.drop_last().len() implies (#[trigger] entries.drop_last()[i]).0@
            != entries.last().0@ by {
            assert(entries[i] == entries.drop_last()[i]);
        }
        assert(!map_of(entries.drop_last()).contains_key(entries.last().0@));
        assert(map_of(entries).dom() =~= map_of(entries.drop_last()).dom().insert(
            entries.last().0@,
        ));
    }
}

proof fn lemma_map_of_update(entries: Seq<(String, String)>, i: int, pair: (String, String))
    requires
        keys_unique(entries),
        0 <= i < entries.len(),
        pair.0@ == entries[i].0@,
    ensures
        keys_unique(entries.update(i, pair)),
        map_of(entries.update(i, pair)) == map_of(entries).insert(pair.0@, pair.1@),
    decreases entries.len(),
{
    let upd = entries.update(i, pair);
    assert forall|a: int, b: int| 0 <= a < b < upd.len() implies (#[trigger] upd[a]).0@
        != (#[trigger] upd[b]).0@ by {
        assert(upd[a].0@ == entries[a].0@);
        assert(upd[b].0@ == entries[b].0@);
    }
    if i == entries.len() - 1 {
        assert(upd.drop_last() =~= entries.drop_last());
        assert(map_of(upd) =~= map_of(entries).insert(pair.0@, pair.1@));
    } else {
        assert(entries.drop_last()[i] == entries[i]);
        lemma_map_of_update(entries.drop_last(), i, pair);
        assert(upd.drop_last() =~= entries.drop_last().update(i, pair));
        assert(upd.last() == entries.last());
        assert(entries.last().0@ != pair.0@);
        assert(map_of(upd) =~= map_of(entries).insert(pair.0@, pair.1@));
    }
}

/// The flat configuration map: string keys to string values, keys unique,
/// built by folding flattened parameters with last-write-wins on key
/// collisions.
pub struct FlatConfigMap {
    entries: Vec<(String, String)>,
}

impl View for FlatConfigMap {
    type V = Map<Seq<char>, Seq<char>>;

    closed spec fn view(&self) -> Map<Seq<char>, Seq<char>> {
        map_of(self.entries@)
    }
}

impl FlatConfigMap {
    /// The entries hold no duplicate key.
    pub closed spec fn wf(self) -> bool {
        keys_unique(self.entries@)
    }

    /// An empty map.
    pub fn new() -> (m: Self)
        ensures
            m.wf(),
            m@ == Map::<Seq<char>, Seq<char>>::empty(),
    {
        FlatConfigMap { entries: Vec::new() }
    }

    /// The position of `key` among the entries, if it is present.
    fn position_of(&self, key: &String) -> (r: Option<usize>)
        ensures
            match r {
                Some(i) => i < self.entries@.len() && self.entries@[i as int].0@ == key@,
                None => forall|i: int|
                    0 <= i < self.entries@.len() ==> (#[trigger] self.entries@[i]).0@ != key@,
            },
    {
        let mut i: usize = 0;
        while i < self.entries.len()
            invariant
                0 <= i <= self.entries@.len(),
                forall|j: int| 0 <= j < i ==> (#[trigger] self.entries@[j]).0@ != key@,
            decreases self.entries@.len() - i,
        {
            if self.entries[i].0 == *key {
                return Some(i);
            }
            i = i + 1;
        }
        None
    }

    /// Put `value` under `key`, overwriting the value of an entry that
    /// already carries the key.
    pub fn insert(&mut self, key: String, value: String)
        requires
            old(self).wf(),
        ensures
            final(self).wf(),
            final(self)@ == old(self)@.insert(key@, value@),
    {
        let ghost old_entries = self.entries@;
        match self.position_of(&key) {
            Some(i) => {
                let ghost pair_view = (key@, value@);
                let slot = &mut self.entries[i];
                *slot = (key, value);
                proof {
                    assert(self.entries@ == old_entries.update(
                        i as int,
                        self.entries@[i as int],
                    ));
                    assert(self.entries@[i as int].0@ == pair_view.0);
                    assert(self.entries@[i as int].1@ == pair_view.1);
                    lemma_map_of_update(old_entries, i as int, self.entries@[i as int]);
                }
            },
            None => {
                self.entries.push((key, value));
                proof {
                    assert(self.entries@.drop_last() =~= old_entries);
                }
            },
        }
    }

    /// The value under `key`, if the map holds one.
    pub fn get(&self, key: &String) -> (r: Option<&String>)
        requires
            self.wf(),
        ensures
            match r {
                Some(v) => self@.contains_key(key@) && v@ == self@[key@],
                None => !self@.contains_key(key@),
            },
    {
        match self.position_of(key) {
            Some(i) => {
                proof {
                    lemma_map_of_at(self.entries@, i as int);
                }
                Some(&self.entries[i].1)
            },
            None => {
                proof {
                    lemma_map_of_contains(self.entries@, key@);
                }
                None
            },
        }
    }

    /// How many keys the map holds.
    pub fn len(&self) -> (n: usize)
        requires
            self.wf(),
        ensures
            n == self@.dom().len(),
    {
        proof {
            lemma_map_of_dom_len(self.entries@);
        }
        self.entries.len()
    }

    /// Hand the entries out as plain pairs, for a consumer such as a typed
    /// deserializer; they still denote exactly this map, one pair per key.
    pub fn into_pairs(self) -> (pairs: Vec<(String, String)>)
        requires
            self.wf(),
        ensures
            map_of(pairs@) == self@,
            keys_unique(pairs@),
    {
        self.entries
    }
}

/// Strip the prefix and fold: every complete parameter's name, with the
/// first `prefix_strip` characters removed, keyed to its value; incomplete
/// parameters dropped; later parameters overwriting earlier ones on equal
/// keys.
pub fn flatten(prefix_strip: usize, parameters: Vec<Parameter>) -> (m: FlatConfigMap)
    requires
        forall|i: int|
            0 <= i < parameters@.len() ==> (#[trigger] parameters@[i]).name_fits(
                prefix_strip as int,
            ),
    ensures
        m.wf(),
        m@ == flat_of(parameters@, prefix_strip as int),
{
    let mut m = FlatConfigMap::new();
    let mut i: usize = 0;
    while i < parameters.len()
        invariant
            0 <= i <= parameters@.len(),
            forall|k: int|
                0 <= k < parameters@.len() ==> (#[trigger] parameters@[k]).name_fits(
                    prefix_strip as int,
                ),
            m.wf(),
            m@ == flat_of(parameters@.take(i as int), prefix_strip as int),
        decreases parameters@.len() - i,
    {
        let p = &parameters[i];
        proof {
            assert(parameters@.take(i + 1).drop_last() =~= parameters@.take(i as int));
            assert(parameters@.take(i + 1).last() == parameters@[i as int]);
        }
        match (&p.name, &p.value) {
            (Some(name), Some(value)) => {
                let name_len = name.as_str().unicode_len();
                let key = name.as_str().substring_char(prefix_strip, name_len).to_owned();
                m.insert(key, value.clone());
            },
            _ => {
                assert(!parameters@[i as int].is_complete());
            },
        }
        i = i + 1;
    }
    proof {
        assert(parameters@.take(parameters@.len() as int) =~= parameters@);
    }
    m
}

/// Drop-on-missing-field: a parameter with its name or its value absent
/// contributes nothing — appending it leaves the flattened map unchanged.
pub proof fn lemma_drop_on_missing_field(params: Seq<Parameter>, p: Parameter, strip: int)
    requires
        !p.is_complete(),
    ensures
        flat_of(params.push(p), strip) == flat_of(params, strip),
{
    assert(params.push(p).drop_last() =~= params);
    assert(params.push(p).last() == p);
}

/// Last-write-wins: when the parameter at position `j` is the last one to
/// flatten to its key, the finished map carries its value under that key —
/// even where an earlier parameter, such as one at position `i`, flattened
/// to the same key.
pub proof fn lemma_last_write_wins(params: Seq<Parameter>, strip: int, i: int, j: int)
    requires
        0 <= i < j < params.len(),
        params[i].is_complete(),
        params[j].is_complete(),
        stripped_key(params[i].name_chars(), strip) == stripped_key(params[j].name_chars(), strip),
        forall|l: int|
            j < l < params.len() && (#[trigger] params[l]).is_complete() ==> stripped_key(
                params[l].name_chars(),
                strip,
            ) != stripped_key(params[j].name_chars(), strip),
    ensures
        flat_of(params, strip).contains_key(stripped_key(params[j].name_chars(), strip)),
        flat_of(params, strip)[stripped_key(params[j].name_chars(), strip)]
            == params[j].value_chars(),
    decreases params.len(),
{
    let k = stripped_key(params[j].name_chars(), strip);
    if j == params.len() - 1 {
        assert(params.last() == params[j]);
    } else {
        assert(params.drop_last()[i] == params[i]);
        assert(params.drop_last()[j] == params[j]);
        assert forall|l: int|
            j < l < params.drop_last().len() && (#[trigger] params.drop_last()[l]).is_complete() implies stripped_key(
            params.drop_last()[l].name_chars(),
            strip,
        ) != stripped_key(params.drop_last()[j].name_chars(), strip) by {
            assert(params.drop_last()[l] == params[l]);
        }
        lemma_last_write_wins(params.drop_last(), strip, i, j);
        let last = params.last();
        if last.is_complete() {
            assert(stripped_key(last.name_chars(), strip) != k);
        }
    }
}

} // verus!
