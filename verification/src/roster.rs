//! Who is connected, and who speaks from which source.

use crate::gateway::value::DiscordId;
use std::collections::{HashMap, HashSet};
use vstd::prelude::*;
use vstd::std_specs::hash::group_hash_axioms;

verus! {

broadcast use group_hash_axioms;

/// The sources in a map, each once.
pub fn keys_of<V>(map: &HashMap<u32, V>) -> (keys: Vec<u32>)
    ensures
        keys@.no_duplicates(),
        keys@.to_set() == map@.dom(),
{
    let mut keys: Vec<u32> = Vec::new();
    for key in iter: map.keys()
        invariant
            keys@ == iter.seq().unref().take(iter.index() as int),
            iter.seq().unref().to_set() == map@.dom(),
            iter.seq().no_duplicates(),
            iter.index() == iter.seq().len() ==> keys@ == iter.seq().unref(),
    {
        keys.push(*key);
        assert(keys@ =~= iter.seq().unref().take(iter.index() + 1));
    }
    keys
}

/// The ids in a set, each once.
pub fn ids_of(set: &HashSet<u64>) -> (ids: Vec<u64>)
    ensures
        ids@.no_duplicates(),
        ids@.to_set() == set@,
{
    let mut ids: Vec<u64> = Vec::new();
    for id in iter: set.iter()
        invariant
            ids@ == iter.seq().unref().take(iter.index() as int),
            iter.seq().unref().to_set() == set@,
            iter.seq().no_duplicates(),
            iter.index() == iter.seq().len() ==> ids@ == iter.seq().unref(),
    {
        ids.push(*id);
        assert(ids@ =~= iter.seq().unref().take(iter.index() + 1));
    }
    ids
}

/// A second set of the same ids.
pub fn copy_ids(set: &HashSet<u64>) -> (copy: HashSet<u64>)
    ensures
        copy@ == set@,
{
    let ids = ids_of(set);
    let mut copy: HashSet<u64> = HashSet::new();
    let len = ids.len();
    let mut i: usize = 0;
    assert(copy@ =~= ids@.take(0).to_set());
    while i < len
        invariant
            len == ids@.len(),
            i <= len,
            copy@ == ids@.take(i as int).to_set(),
        decreases len - i,
    {
        let ghost before = ids@.take(i as int);
        let _ = copy.insert(ids[i]);
        proof {
            lemma_grown_set(ids@, i as int);
        }
        i = i + 1;
    }
    assert(ids@.take(i as int) =~= ids@);
    copy
}

pub proof fn lemma_grown_set<K>(keys: Seq<K>, i: int)
    requires
        0 <= i < keys.len(),
    ensures
        keys.take(i + 1).to_set() == keys.take(i).to_set().insert(keys[i]),
{
    let before = keys.take(i);
    let after = keys.take(i + 1);
    assert forall|key: K| after.to_set().contains(key) implies before.to_set().insert(
        keys[i],
    ).contains(key) by {
        let j = choose|j: int| 0 <= j < after.len() && after[j] == key;
        if j < i {
            assert(before[j] == key);
        }
    }
    assert forall|key: K| before.to_set().insert(keys[i]).contains(key) implies after.to_set()
        .contains(key) by {
        if before.contains(key) {
            let j = choose|j: int| 0 <= j < before.len() && before[j] == key;
            assert(after[j] == key);
        } else {
            assert(after[i] == key);
        }
    }
    assert(after.to_set() =~= before.to_set().insert(keys[i]));
}

/// A second map of the same content.
pub fn copy_map<V: Copy>(map: &HashMap<u32, V>) -> (copy: HashMap<u32, V>)
    ensures
        copy@ == map@,
{
    let keys = keys_of(map);
    let mut copy: HashMap<u32, V> = HashMap::new();
    let len = keys.len();
    let mut i: usize = 0;
    assert(copy@.dom() =~= keys@.take(0).to_set());
    while i < len
        invariant
            len == keys@.len(),
            i <= len,
            keys@.to_set() == map@.dom(),
            copy@.dom() == keys@.take(i as int).to_set(),
            forall|key: u32| copy@.dom().contains(key) ==> copy@[key] == #[trigger] map@[key],
        decreases len - i,
    {
        let key: u32 = keys[i];
        assert(keys@.contains(key));
        assert(map@.dom().contains(key));
        if let Some(value) = map.get(&key) {
            let _ = copy.insert(key, *value);
        }
        proof {
            lemma_grown_set(keys@, i as int);
            assert(copy@.dom() =~= keys@.take(i + 1).to_set());
        }
        i = i + 1;
    }
    assert(keys@.take(i as int) =~= keys@);
    assert(copy@ =~= map@);
    copy
}

/// The sources that are not one user's.
pub open spec fn others(users: Map<u32, u64>, user_id: u64) -> Map<u32, u64> {
    users.restrict(Set::new(|ssrc: u32| users.dom().contains(ssrc) && users[ssrc] != user_id))
}

/// The sources that are one user's.
pub open spec fn sources_of(users: Map<u32, u64>, user_id: u64) -> Set<u32> {
    Set::new(|ssrc: u32| users.dom().contains(ssrc) && users[ssrc] == user_id)
}

/// Forgets the sources of a user, and returns them.
pub fn remove_sources(users: &mut HashMap<u32, u64>, user_id: u64) -> (removed: Vec<u32>)
    ensures
        final(users)@ == others(old(users)@, user_id),
        removed@.to_set() == sources_of(old(users)@, user_id),
        removed@.no_duplicates(),
{
    let keys = keys_of(users);
    let ghost before = users@;
    let mut removed: Vec<u32> = Vec::new();
    let len = keys.len();
    let mut i: usize = 0;
    while i < len
        invariant
            len == keys@.len(),
            i <= len,
            keys@.to_set() == before.dom(),
            keys@.no_duplicates(),
            removed@.no_duplicates(),
            forall|ssrc: u32| #[trigger]
                users@.dom().contains(ssrc) <==> before.dom().contains(ssrc) && !(before[ssrc]
                    == user_id && keys@.take(i as int).contains(ssrc)),
            forall|ssrc: u32| users@.dom().contains(ssrc) ==> #[trigger] users@[ssrc]
                == before[ssrc],
            forall|ssrc: u32| #[trigger]
                removed@.contains(ssrc) <==> before[ssrc] == user_id && keys@.take(
                    i as int,
                ).contains(ssrc),
        decreases len - i,
    {
        let ssrc: u32 = keys[i];
        assert(keys@.contains(ssrc));
        assert(before.dom().contains(ssrc));
        assert(!keys@.take(i as int).contains(ssrc)) by {
            if keys@.take(i as int).contains(ssrc) {
                let j = choose|j: int| 0 <= j < i && keys@.take(i as int)[j] == ssrc;
                assert(keys@[j] == keys@[i as int]);
            }
        }
        let own = match users.get(&ssrc) {
            Some(owner) => *owner == user_id,
            None => false,
        };
        let ghost seen = removed@;
        assert(!seen.contains(ssrc));
        if own {
            let _ = users.remove(&ssrc);
            removed.push(ssrc);
            assert(removed@.no_duplicates()) by {
                assert forall|a: int, b: int| 0 <= a < removed@.len() && 0 <= b < removed@.len() && a
                    != b implies removed@[a] != removed@[b] by {
                    if a == seen.len() {
                        assert(seen[b] == removed@[b]);
                        assert(seen.contains(seen[b]));
                    } else if b == seen.len() {
                        assert(seen[a] == removed@[a]);
                        assert(seen.contains(seen[a]));
                    } else {
                        assert(seen[a] == removed@[a] && seen[b] == removed@[b]);
                    }
                }
            }
        }
        proof {
            let now = keys@.take(i as int);
            let next = keys@.take(i + 1);
            assert(next =~= now.push(ssrc));
            assert forall|other: u32| next.contains(other) <==> now.contains(other) || other
                == ssrc by {
                if now.contains(other) {
                    let j = choose|j: int| 0 <= j < now.len() && now[j] == other;
                    assert(next[j] == other);
                }
                if other == ssrc {
                    assert(next[i as int] == other);
                }
            }
            assert forall|other: u32| #[trigger] removed@.contains(other) <==> before[other]
                == user_id && next.contains(other) by {
                if own {
                    assert(removed@ =~= seen.push(ssrc));
                    if seen.contains(other) {
                        let j = choose|j: int| 0 <= j < seen.len() && seen[j] == other;
                        assert(removed@[j] == other);
                    }
                    if other == ssrc {
                        assert(removed@[seen.len() as int] == other);
                    }
                    if removed@.contains(other) && other != ssrc {
                        let j = choose|j: int| 0 <= j < removed@.len() && removed@[j] == other;
                        assert(seen[j] == other);
                    }
                }
            }
        }
        i = i + 1;
    }
    proof {
        assert(keys@.take(i as int) =~= keys@);
        assert forall|ssrc: u32| keys@.contains(ssrc) <==> before.dom().contains(ssrc) by {
            assert(keys@.to_set().contains(ssrc) <==> before.dom().contains(ssrc));
        }
        assert(users@ =~= others(before, user_id));
        assert(removed@.to_set() =~= sources_of(before, user_id));
    }
    removed
}

/// Adds users.
pub fn add_ids(set: &mut HashSet<u64>, ids: &Vec<DiscordId>)
    ensures
        final(set)@ == old(set)@.union(id_numbers(ids@).to_set()),
{
    let ghost before = set@;
    let len = ids.len();
    let mut i: usize = 0;
    assert(set@ =~= before.union(id_numbers(ids@).take(0).to_set()));
    while i < len
        invariant
            len == ids@.len(),
            i <= len,
            set@ == before.union(id_numbers(ids@).take(i as int).to_set()),
        decreases len - i,
    {
        let _ = set.insert(ids[i].get());
        proof {
            lemma_grown_set(id_numbers(ids@), i as int);
            assert(set@ =~= before.union(id_numbers(ids@).take(i + 1).to_set()));
        }
        i = i + 1;
    }
    assert(id_numbers(ids@).take(i as int) =~= id_numbers(ids@));
}

/// The set of some sources.
pub fn source_set(sources: &Vec<u32>) -> (set: HashSet<u32>)
    ensures
        set@ == sources@.to_set(),
{
    let mut set: HashSet<u32> = HashSet::new();
    let len = sources.len();
    let mut i: usize = 0;
    assert(set@ =~= sources@.take(0).to_set());
    while i < len
        invariant
            len == sources@.len(),
            i <= len,
            set@ == sources@.take(i as int).to_set(),
        decreases len - i,
    {
        let _ = set.insert(sources[i]);
        proof {
            lemma_grown_set(sources@, i as int);
            assert(set@ =~= sources@.take(i + 1).to_set());
        }
        i = i + 1;
    }
    assert(sources@.take(i as int) =~= sources@);
    set
}

pub open spec fn id_numbers(ids: Seq<DiscordId>) -> Seq<u64> {
    ids.map_values(|id: DiscordId| id@)
}

} // verus!
