//! Shortest unique prefixes of session identifiers.

use vstd::prelude::*;
use vstd::string::*;
use crate::digest::DIGEST_LEN;
use crate::session::{sessions_view, SessionInfo, SessionView};
use crate::text::{leading, same_text, to_chars};

verus! {

/// One entry of a `PrefixMap`.
#[derive(Clone, Debug)]
struct PrefixEntry {
    name: String,
    prefix: String,
}

/// A mapping from session names to the prefixes assigned to them. No name
/// occurs twice in it.
#[derive(Clone, Debug)]
pub struct PrefixMap {
    entries: Vec<PrefixEntry>,
}

/// Whether entry `i` is the entry of `name`.
spec fn entry_of(entries: Seq<PrefixEntry>, name: Seq<char>, i: int) -> bool {
    0 <= i < entries.len() && entries[i].name@ == name
}

/// Whether no name occurs twice among the entries.
spec fn distinct_names(entries: Seq<PrefixEntry>) -> bool {
    forall|i: int, j: int|
        0 <= i < j < entries.len() ==> (#[trigger] entries[i]).name@ != (
        #[trigger] entries[j]).name@
}

/// Among entries with distinct names, a name has one entry at most.
proof fn lemma_one_entry(entries: Seq<PrefixEntry>, name: Seq<char>, a: int, b: int)
    requires
        distinct_names(entries),
        entry_of(entries, name, a),
        entry_of(entries, name, b),
    ensures
        a == b,
{
}

/// The mapping that a sequence of entries stands for.
spec fn entries_map(entries: Seq<PrefixEntry>) -> Map<Seq<char>, Seq<char>> {
    Map::new(
        |name: Seq<char>| exists|i: int| entry_of(entries, name, i),
        |name: Seq<char>| entries[choose|i: int| entry_of(entries, name, i)].prefix@,
    )
}

/// Replacing the entry of a name, or adding one for a name that has none,
/// is an insertion into the mapping.
proof fn lemma_entries_insert(
    before: Seq<PrefixEntry>,
    after: Seq<PrefixEntry>,
    at: int,
    entry: PrefixEntry,
)
    requires
        distinct_names(before),
        0 <= at <= before.len(),
        at < before.len() ==> before[at].name@ == entry.name@ && after == before.update(at, entry),
        at == before.len() ==> after == before.push(entry) && forall|k: int| !entry_of(
            before,
            entry.name@,
            k,
        ),
    ensures
        distinct_names(after),
        entries_map(after) == entries_map(before).insert(entry.name@, entry.prefix@),
{
    assert forall|key: Seq<char>, k: int|
        entry_of(after, key, k) == (if k == at {
            key == entry.name@
        } else {
            entry_of(before, key, k)
        }) by {}
    assert forall|i: int, j: int| 0 <= i < j < after.len() implies (#[trigger] after[i]).name@ != (
    #[trigger] after[j]).name@ by {
        if j == at {
            assert(!entry_of(before, entry.name@, i) || at < before.len());
        }
    }
    let wanted = entries_map(before).insert(entry.name@, entry.prefix@);
    assert forall|key: Seq<char>| #[trigger]
        entries_map(after).contains_key(key) == wanted.contains_key(key) by {
        if key == entry.name@ {
            assert(entry_of(after, key, at));
        } else if wanted.contains_key(key) {
            let k = choose|k: int| entry_of(before, key, k);
            assert(entry_of(after, key, k));
        }
    }
}

impl View for PrefixMap {
    type V = Map<Seq<char>, Seq<char>>;

    closed spec fn view(&self) -> Map<Seq<char>, Seq<char>> {
        entries_map(self.entries@)
    }
}

impl PrefixMap {
    /// The mapping is well formed when no name occurs twice among its entries.
    pub closed spec fn wf(&self) -> bool {
        distinct_names(self.entries@)
    }

    /// A mapping without entries.
    pub fn new() -> (map: PrefixMap)
        ensures
            map.wf(),
            map@ == Map::<Seq<char>, Seq<char>>::empty(),
    {
        let map = PrefixMap { entries: Vec::new() };
        map
    }

    /// Assigns `prefix` to `name`, in place of what was assigned to it before.
    pub fn insert(&mut self, name: String, prefix: String)
        requires
            old(self).wf(),
        ensures
            final(self).wf(),
            final(self)@ == old(self)@.insert(name@, prefix@),
    {
        let ghost before = self.entries@;
        let entry = PrefixEntry { name: name, prefix: prefix };
        let mut i: usize = 0;
        while i < self.entries.len()
            invariant
                i <= self.entries@.len(),
                self.entries@ == before,
                before == old(self).entries@,
                distinct_names(before),
                entry.name@ == name@,
                entry.prefix@ == prefix@,
                forall|k: int| 0 <= k < i ==> !entry_of(before, entry.name@, k),
            decreases self.entries@.len() - i,
        {
            if same_text(self.entries[i].name.as_str(), entry.name.as_str()) {
                self.entries.set(i, entry);
                proof {
                    lemma_entries_insert(before, self.entries@, i as int, entry);
                }
                return ;
            }
            i += 1;
        }
        self.entries.push(entry);
        proof {
            lemma_entries_insert(before, self.entries@, i as int, entry);
        }
    }

    /// The prefix assigned to `name`, if one is.
    pub fn get(&self, name: &str) -> (found: Option<&String>)
        requires
            self.wf(),
        ensures
            match found {
                Some(prefix) => self@.contains_key(name@) && self@[name@] == prefix@,
                None => !self@.contains_key(name@),
            },
    {
        let mut i: usize = 0;
        while i < self.entries.len()
            invariant
                i <= self.entries@.len(),
                self.wf(),
                forall|k: int| 0 <= k < i ==> !entry_of(self.entries@, name@, k),
            decreases self.entries@.len() - i,
        {
            if same_text(self.entries[i].name.as_str(), name) {
                proof {
                    assert(entry_of(self.entries@, name@, i as int));
                    let k = choose|k: int| entry_of(self.entries@, name@, k);
                    lemma_one_entry(self.entries@, name@, k, i as int);
                }
                return Some(&self.entries[i].prefix);
            }
            i += 1;
        }
        None
    }
}

/// Whether `prefix` starts the identifier of a session whose name is not
/// `name`.
pub open spec fn shared_prefix(sessions: Seq<SessionView>, name: Seq<char>, prefix: Seq<char>)
    -> bool {
    exists|j: int|
        0 <= j < sessions.len() && (#[trigger] sessions[j]).name != name && prefix.is_prefix_of(
            sessions[j].hash_prefix,
        )
}

/// The least length from `len` up to `DIGEST_LEN` at which the identifier of
/// session `i`, cut to that length, starts the identifier of no session of
/// another name; `None` where there is no such length.
pub open spec fn unique_len_from(sessions: Seq<SessionView>, i: int, len: int) -> Option<int>
    decreases DIGEST_LEN + 1 - len,
{
    if len < 1 || len > DIGEST_LEN {
        None
    } else if !shared_prefix(sessions, sessions[i].name, leading(sessions[i].hash_prefix, len)) {
        Some(len)
    } else {
        unique_len_from(sessions, i, len + 1)
    }
}

/// The prefix assigned to session `i`: its identifier cut to the least
/// length, from 1 up, at which it is unique among the sessions; the whole
/// identifier where no length up to `DIGEST_LEN` makes it unique.
pub open spec fn assigned_prefix(sessions: Seq<SessionView>, i: int) -> Seq<char> {
    match unique_len_from(sessions, i, 1) {
        Some(len) => leading(sessions[i].hash_prefix, len),
        None => sessions[i].hash_prefix,
    }
}

/// The mapping from the names of the first `count` sessions to the prefixes
/// assigned to them.
pub open spec fn prefix_map_upto(sessions: Seq<SessionView>, count: int) -> Map<
    Seq<char>,
    Seq<char>,
>
    decreases count,
{
    if count <= 0 {
        Map::empty()
    } else {
        prefix_map_upto(sessions, count - 1).insert(
            sessions[count - 1].name,
            assigned_prefix(sessions, count - 1),
        )
    }
}

/// The mapping from the name of each session to the prefix assigned to it.
pub open spec fn prefix_map(sessions: Seq<SessionView>) -> Map<Seq<char>, Seq<char>> {
    prefix_map_upto(sessions, sessions.len() as int)
}

/// Whether the first `len` characters of `digest` (all of it where it is
/// shorter) start `other`.
fn starts_with_leading(other: &[char], digest: &[char], len: usize) -> (starts: bool)
    ensures
        starts == leading(digest@, len as int).is_prefix_of(other@),
{
    let count = if len <= digest.len() {
        len
    } else {
        digest.len()
    };
    if count > other.len() {
        return false;
    }
    let mut k: usize = 0;
    while k < count
        invariant
            k <= count <= digest@.len(),
            count <= other@.len(),
            leading(digest@, len as int) == digest@.take(count as int),
            forall|n: int| 0 <= n < k ==> digest@[n] == other@[n],
        decreases count - k,
    {
        if digest[k] != other[k] {
            assert(digest@.take(count as int)[k as int] != other@.subrange(
                0,
                count as int,
            )[k as int]);
            return false;
        }
        k += 1;
    }
    true
}

/// Whether the identifier of session `i`, cut to `len` characters, starts
/// the identifier of a session of another name.
fn is_shared(sessions: &[SessionInfo], digests: &[Vec<char>], i: usize, len: usize) -> (shared:
    bool)
    requires
        i < sessions@.len(),
        digests@.len() == sessions@.len(),
        forall|k: int|
            0 <= k < sessions@.len() ==> (#[trigger] digests@[k])@ == sessions@[k].hash_prefix@,
    ensures
        shared == shared_prefix(
            sessions_view(sessions@),
            sessions@[i as int].name@,
            leading(sessions@[i as int].hash_prefix@, len as int),
        ),
{
    let ghost all = sessions_view(sessions@);
    let ghost name = sessions@[i as int].name@;
    let ghost prefix = leading(sessions@[i as int].hash_prefix@, len as int);
    let mut j: usize = 0;
    while j < sessions.len()
        invariant
            i < sessions@.len(),
            j <= sessions@.len(),
            digests@.len() == sessions@.len(),
            forall|k: int|
                0 <= k < sessions@.len() ==> (#[trigger] digests@[k])@ == sessions@[k].hash_prefix@,
            all == sessions_view(sessions@),
            name == sessions@[i as int].name@,
            prefix == leading(sessions@[i as int].hash_prefix@, len as int),
            forall|k: int|
                0 <= k < j ==> !((#[trigger] all[k]).name != name && prefix.is_prefix_of(
                    all[k].hash_prefix,
                )),
        decreases sessions@.len() - j,
    {
        assert(all[j as int] == sessions@[j as int]@);
        if !same_text(sessions[j].name.as_str(), sessions[i].name.as_str()) && starts_with_leading(
            &digests[j],
            &digests[i],
            len,
        ) {
            return true;
        }
        j += 1;
    }
    false
}

/// Computes the prefix assigned to session `i`.
fn shortest_prefix(sessions: &[SessionInfo], digests: &[Vec<char>], i: usize) -> (prefix:
    String)
    requires
        i < sessions@.len(),
        digests@.len() == sessions@.len(),
        forall|k: int|
            0 <= k < sessions@.len() ==> (#[trigger] digests@[k])@ == sessions@[k].hash_prefix@,
    ensures
        prefix@ == assigned_prefix(sessions_view(sessions@), i as int),
{
    let ghost all = sessions_view(sessions@);
    let digest = &sessions[i].hash_prefix;
    let mut len: usize = 1;
    while len <= DIGEST_LEN
        invariant
            1 <= len <= DIGEST_LEN + 1,
            i < sessions@.len(),
            digests@.len() == sessions@.len(),
            forall|k: int|
                0 <= k < sessions@.len() ==> (#[trigger] digests@[k])@ == sessions@[k].hash_prefix@,
            all == sessions_view(sessions@),
            all[i as int] == sessions@[i as int]@,
            *digest == sessions@[i as int].hash_prefix,
            unique_len_from(all, i as int, 1) == unique_len_from(all, i as int, len as int),
        decreases DIGEST_LEN + 1 - len,
    {
        if !is_shared(sessions, digests, i, len) {
            let count = if len <= digests[i].len() {
                len
            } else {
                digests[i].len()
            };
            return digest.as_str().substring_char(0, count).to_owned();
        }
        len += 1;
    }
    digest.clone()
}

/// Assigns to each session the shortest prefix of its identifier that starts
/// the identifier of no session of another name. The sessions may come in
/// any order.
pub fn find_shortest_prefixes(sessions: &[SessionInfo]) -> (prefixes: PrefixMap)
    ensures
        prefixes.wf(),
        prefixes@ == prefix_map(sessions_view(sessions@)),
{
    let ghost all = sessions_view(sessions@);
    let mut digests: Vec<Vec<char>> = Vec::new();
    let mut k: usize = 0;
    while k < sessions.len()
        invariant
            k <= sessions@.len(),
            digests@.len() == k,
            forall|n: int| 0 <= n < k ==> (#[trigger] digests@[n])@ == sessions@[n].hash_prefix@,
        decreases sessions@.len() - k,
    {
        digests.push(to_chars(sessions[k].hash_prefix.as_str()));
        k += 1;
    }
    let mut prefixes = PrefixMap::new();
    let mut i: usize = 0;
    while i < sessions.len()
        invariant
            i <= sessions@.len(),
            digests@.len() == sessions@.len(),
            forall|n: int|
                0 <= n < sessions@.len() ==> (#[trigger] digests@[n])@ == sessions@[n].hash_prefix@,
            all == sessions_view(sessions@),
            prefixes.wf(),
            prefixes@ == prefix_map_upto(all, i as int),
        decreases sessions@.len() - i,
    {
        let prefix = shortest_prefix(sessions, &digests, i);
        prefixes.insert(sessions[i].name.clone(), prefix);
        i += 1;
    }
    prefixes
}

/// Whether every identifier has the full length, as that of a valid record
/// has.
pub open spec fn full_length_digests(sessions: Seq<SessionView>) -> bool {
    forall|k: int|
        0 <= k < sessions.len() ==> (#[trigger] sessions[k]).hash_prefix.len() == DIGEST_LEN
}

/// Whether no two sessions have the same name.
pub open spec fn distinct_session_names(sessions: Seq<SessionView>) -> bool {
    forall|a: int, b: int|
        0 <= a < b < sessions.len() ==> (#[trigger] sessions[a]).name != (
        #[trigger] sessions[b]).name
}

/// Whether no two sessions have the same identifier.
pub open spec fn distinct_digests(sessions: Seq<SessionView>) -> bool {
    forall|a: int, b: int|
        0 <= a < b < sessions.len() ==> (#[trigger] sessions[a]).hash_prefix != (
        #[trigger] sessions[b]).hash_prefix
}

/// Where identifiers have the full length and no two are equal, the search
/// from `len` finds a length: the least from `len` up at which the identifier
/// of session `i` is unique.
proof fn lemma_unique_len(sessions: Seq<SessionView>, i: int, len: int)
    requires
        0 <= i < sessions.len(),
        1 <= len <= DIGEST_LEN,
        full_length_digests(sessions),
        distinct_digests(sessions),
    ensures
        unique_len_from(sessions, i, len) is Some,
        len <= unique_len_from(sessions, i, len)->0 <= DIGEST_LEN,
        !shared_prefix(
            sessions,
            sessions[i].name,
            leading(sessions[i].hash_prefix, unique_len_from(sessions, i, len)->0),
        ),
        forall|shorter: int|
            len <= shorter < unique_len_from(sessions, i, len)->0 ==> shared_prefix(
                sessions,
                sessions[i].name,
                #[trigger] leading(sessions[i].hash_prefix, shorter),
            ),
    decreases DIGEST_LEN - len,
{
    let digest = sessions[i].hash_prefix;
    if shared_prefix(sessions, sessions[i].name, leading(digest, len)) {
        if len == DIGEST_LEN {
            let j = choose|j: int|
                0 <= j < sessions.len() && (#[trigger] sessions[j]).name != sessions[i].name
                    && leading(digest, len).is_prefix_of(sessions[j].hash_prefix);
            assert(leading(digest, len) =~= digest);
            assert(sessions[j].hash_prefix.subrange(0, DIGEST_LEN as int)
                =~= sessions[j].hash_prefix);
        } else {
            lemma_unique_len(sessions, i, len + 1);
        }
    }
}

/// Where no two sessions have the same name, the mapping of the first
/// `count` sessions assigns to each of them its own prefix.
proof fn lemma_prefix_lookup(sessions: Seq<SessionView>, count: int, i: int)
    requires
        0 <= i < count <= sessions.len(),
        distinct_session_names(sessions),
    ensures
        prefix_map_upto(sessions, count).contains_key(sessions[i].name),
        prefix_map_upto(sessions, count)[sessions[i].name] == assigned_prefix(sessions, i),
    decreases count,
{
    if i < count - 1 {
        lemma_prefix_lookup(sessions, count - 1, i);
    }
}

/// The names in the mapping are those of the sessions.
pub proof fn lemma_prefix_map_names(sessions: Seq<SessionView>, name: Seq<char>)
    ensures
        prefix_map(sessions).contains_key(name) <==> exists|i: int|
            0 <= i < sessions.len() && (#[trigger] sessions[i]).name == name,
{
    lemma_prefix_map_names_upto(sessions, sessions.len() as int, name);
}

proof fn lemma_prefix_map_names_upto(sessions: Seq<SessionView>, count: int, name: Seq<char>)
    requires
        0 <= count <= sessions.len(),
    ensures
        prefix_map_upto(sessions, count).contains_key(name) <==> exists|i: int|
            0 <= i < count && (#[trigger] sessions[i]).name == name,
    decreases count,
{
    if count > 0 {
        lemma_prefix_map_names_upto(sessions, count - 1, name);
    }
}

/// Law: in a snapshot without repeated names, whose identifiers have the
/// full length and are pairwise distinct, the prefix assigned to a session
/// is its identifier cut to a length between 1 and `DIGEST_LEN`, starts the
/// identifier of no other session, and is the shortest such cut.
pub proof fn lemma_assigned_prefix_is_shortest(sessions: Seq<SessionView>, i: int)
    requires
        0 <= i < sessions.len(),
        full_length_digests(sessions),
        distinct_session_names(sessions),
        distinct_digests(sessions),
    ensures
        prefix_map(sessions).contains_key(sessions[i].name),
        1 <= prefix_map(sessions)[sessions[i].name].len() <= DIGEST_LEN,
        prefix_map(sessions)[sessions[i].name].is_prefix_of(sessions[i].hash_prefix),
        forall|j: int|
            0 <= j < sessions.len() && j != i ==> !prefix_map(
                sessions,
            )[sessions[i].name].is_prefix_of((#[trigger] sessions[j]).hash_prefix),
        forall|shorter: int, |
            1 <= shorter < prefix_map(sessions)[sessions[i].name].len() ==> exists|j: int|
                0 <= j < sessions.len() && j != i && (#[trigger] sessions[i].hash_prefix.take(
                    shorter,
                )).is_prefix_of((#[trigger] sessions[j]).hash_prefix),
{
    lemma_prefix_lookup(sessions, sessions.len() as int, i);
    lemma_unique_len(sessions, i, 1);
    let digest = sessions[i].hash_prefix;
    let prefix = prefix_map(sessions)[sessions[i].name];
    assert forall|shorter: int| 1 <= shorter < prefix.len() implies exists|j: int|
        0 <= j < sessions.len() && j != i && (#[trigger] digest.take(shorter)).is_prefix_of(
            (#[trigger] sessions[j]).hash_prefix,
        ) by {
        assert(shared_prefix(sessions, sessions[i].name, leading(digest, shorter)));
    }
}

/// Where the identifier of session `i` is also that of a session of another
/// name, the search finds no length from `len` up.
proof fn lemma_no_unique_len(sessions: Seq<SessionView>, i: int, j: int, len: int)
    requires
        0 <= i < sessions.len(),
        0 <= j < sessions.len(),
        sessions[j].name != sessions[i].name,
        sessions[j].hash_prefix == sessions[i].hash_prefix,
    ensures
        unique_len_from(sessions, i, len) is None,
    decreases DIGEST_LEN + 1 - len,
{
    if 1 <= len <= DIGEST_LEN {
        lemma_no_unique_len(sessions, i, j, len + 1);
    }
}

/// Law: a session whose identifier is also that of a session of another name
/// is assigned its whole identifier, and so is the other.
pub proof fn lemma_equal_digests_fall_back(sessions: Seq<SessionView>, i: int, j: int)
    requires
        0 <= i < sessions.len(),
        0 <= j < sessions.len(),
        sessions[j].name != sessions[i].name,
        sessions[j].hash_prefix == sessions[i].hash_prefix,
    ensures
        assigned_prefix(sessions, i) == sessions[i].hash_prefix,
        assigned_prefix(sessions, j) == sessions[j].hash_prefix,
{
    lemma_no_unique_len(sessions, i, j, 1);
    lemma_no_unique_len(sessions, j, i, 1);
}

/// Law: in a snapshot without repeated names, whose identifiers have the
/// full length and are pairwise distinct, the prefixes assigned to two
/// sessions are not prefixes of one another; so they differ.
pub proof fn lemma_prefixes_not_nested(sessions: Seq<SessionView>, i: int, j: int)
    requires
        0 <= i < sessions.len(),
        0 <= j < sessions.len(),
        i != j,
        full_length_digests(sessions),
        distinct_session_names(sessions),
        distinct_digests(sessions),
    ensures
        prefix_map(sessions).contains_key(sessions[i].name),
        prefix_map(sessions).contains_key(sessions[j].name),
        !prefix_map(sessions)[sessions[i].name].is_prefix_of(
            prefix_map(sessions)[sessions[j].name],
        ),
        !prefix_map(sessions)[sessions[j].name].is_prefix_of(
            prefix_map(sessions)[sessions[i].name],
        ),
        prefix_map(sessions)[sessions[i].name] != prefix_map(sessions)[sessions[j].name],
{
    lemma_assigned_prefix_is_shortest(sessions, i);
    lemma_assigned_prefix_is_shortest(sessions, j);
}

} // verus!
