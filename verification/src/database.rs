//! The authoritative in-memory store of chats and personalities, with
//! dirty-set tracking for incremental, partial-failure-tolerant
//! persistence.
//!
//! The store never touches a disk itself. `flush_plan` names the entity
//! files one flush cycle should write or remove; once the caller reports
//! which operations succeeded, `flush_commit` clears exactly those dirty
//! marks, so anything that failed stays pending for the next cycle.

use vstd::prelude::*;
use vstd::string::*;
use crate::text::str_eq;
use crate::types::Chat;
use crate::types::ChatMeta;
use crate::types::ChatView;
use crate::types::Personality;
use crate::types::PersonalityView;
use crate::types::clone_opt_string;
use crate::types::opt_str_view;

verus! {

/// The tagged union persisted inside one entity file.
pub enum FileContent {
    Chat(Chat),
    Personality(Personality),
}

/// The mathematical shape of a persisted entity.
#[verifier::ext_equal]
pub enum FileContentView {
    Chat(ChatView),
    Personality(PersonalityView),
}

impl View for FileContent {
    type V = FileContentView;

    open spec fn view(&self) -> FileContentView {
        match self {
            FileContent::Chat(c) => FileContentView::Chat(c@),
            FileContent::Personality(p) => FileContentView::Personality(p@),
        }
    }
}

/// One entity file's document: a format version and the entity.
pub struct FileDocument {
    pub version: u32,
    pub content: FileContent,
}

/// The disk operations one flush cycle asks for: entity files to write,
/// and personality files to remove.
pub struct FlushPlan {
    pub chat_writes: Vec<FileDocument>,
    pub personality_writes: Vec<FileDocument>,
    pub deletes: Vec<String>,
}

/// The set of string views a list of identifiers holds.
pub open spec fn key_set(s: Seq<String>) -> Set<Seq<char>> {
    Set::new(|k: Seq<char>| exists|i: int| 0 <= i < s.len() && s[i]@ == k)
}

/// No identifier is listed twice.
pub open spec fn unique_ids(s: Seq<String>) -> bool {
    forall|i: int, j: int| 0 <= i < j < s.len() ==> s[i]@ != s[j]@
}

/// Whether an association list holds the key.
pub open spec fn assoc_has<V>(s: Seq<(Seq<char>, V)>, k: Seq<char>) -> bool {
    exists|i: int| 0 <= i < s.len() && s[i].0 == k
}

/// An association list's keys are pairwise distinct.
pub open spec fn assoc_unique<V>(s: Seq<(Seq<char>, V)>) -> bool {
    forall|i: int, j: int| 0 <= i < j < s.len() ==> s[i].0 != s[j].0
}

/// The finite map an association list stands for.
pub open spec fn assoc_map<V>(s: Seq<(Seq<char>, V)>) -> Map<Seq<char>, V> {
    Map::new(
        |k: Seq<char>| assoc_has(s, k),
        |k: Seq<char>| s[choose|i: int| 0 <= i < s.len() && s[i].0 == k].1,
    )
}

/// A chat list as an association list keyed by chat id.
pub open spec fn chat_pairs_of(s: Seq<Chat>) -> Seq<(Seq<char>, ChatView)> {
    s.map_values(|c: Chat| (c.id@, c@))
}

/// A personality list as an association list keyed by personality id.
pub open spec fn personality_pairs_of(s: Seq<Personality>) -> Seq<(Seq<char>, PersonalityView)> {
    s.map_values(|p: Personality| (p.id@, p@))
}

/// In-memory maps of chats and personalities, and the three dirty sets
/// of pending persistence work.
pub struct Database {
    chats: Vec<Chat>,
    personalities: Vec<Personality>,
    save_chat_ids: Vec<String>,
    save_personality_ids: Vec<String>,
    deleted_personality_ids: Vec<String>,
}

impl Database {
    /// The stored chats, in internal order.
    pub closed spec fn chat_views(self) -> Seq<ChatView> {
        self.chats@.map_values(|c: Chat| c@)
    }

    /// The stored personalities, in internal order.
    pub closed spec fn personality_views(self) -> Seq<PersonalityView> {
        self.personalities@.map_values(|p: Personality| p@)
    }

    pub closed spec fn chat_pairs(self) -> Seq<(Seq<char>, ChatView)> {
        chat_pairs_of(self.chats@)
    }

    pub closed spec fn personality_pairs(self) -> Seq<(Seq<char>, PersonalityView)> {
        personality_pairs_of(self.personalities@)
    }

    /// The chats, keyed by their own ids.
    pub open spec fn chats_map(self) -> Map<Seq<char>, ChatView> {
        assoc_map(self.chat_pairs())
    }

    /// The personalities, keyed by their own ids.
    pub open spec fn personalities_map(self) -> Map<Seq<char>, PersonalityView> {
        assoc_map(self.personality_pairs())
    }

    /// Chats with unflushed changes.
    pub closed spec fn dirty_chats(self) -> Set<Seq<char>> {
        key_set(self.save_chat_ids@)
    }

    /// Personalities with unflushed changes.
    pub closed spec fn dirty_personalities(self) -> Set<Seq<char>> {
        key_set(self.save_personality_ids@)
    }

    /// Personalities whose backing files still await removal.
    pub closed spec fn deleted_personalities(self) -> Set<Seq<char>> {
        key_set(self.deleted_personality_ids@)
    }

    /// The store's invariant: ids are unique everywhere, every dirty id
    /// names a stored entity, and nothing pending deletion is stored.
    pub closed spec fn wf(self) -> bool {
        &&& assoc_unique(self.chat_pairs())
        &&& assoc_unique(self.personality_pairs())
        &&& unique_ids(self.save_chat_ids@)
        &&& unique_ids(self.save_personality_ids@)
        &&& unique_ids(self.deleted_personality_ids@)
        &&& self.dirty_chats().subset_of(self.chats_map().dom())
        &&& self.dirty_personalities().subset_of(self.personalities_map().dom())
        &&& self.deleted_personalities().disjoint(self.personalities_map().dom())
    }

    /// An empty store: no entities, nothing dirty.
    pub fn new() -> (r: Database)
        ensures
            r.wf(),
            r.chats_map() == Map::<Seq<char>, ChatView>::empty(),
            r.personalities_map() == Map::<Seq<char>, PersonalityView>::empty(),
            r.dirty_chats() == Set::<Seq<char>>::empty(),
            r.dirty_personalities() == Set::<Seq<char>>::empty(),
            r.deleted_personalities() == Set::<Seq<char>>::empty(),
            r.chat_views().len() == 0,
            r.personality_views().len() == 0,
    {
        let r = Database {
            chats: Vec::new(),
            personalities: Vec::new(),
            save_chat_ids: Vec::new(),
            save_personality_ids: Vec::new(),
            deleted_personality_ids: Vec::new(),
        };
        proof {
            assert(r.chats_map() =~= Map::<Seq<char>, ChatView>::empty());
            assert(r.personalities_map() =~= Map::<Seq<char>, PersonalityView>::empty());
            assert(r.dirty_chats() =~= Set::<Seq<char>>::empty());
            assert(r.dirty_personalities() =~= Set::<Seq<char>>::empty());
            assert(r.deleted_personalities() =~= Set::<Seq<char>>::empty());
        }
        r
    }
}

fn find_chat_idx(chats: &Vec<Chat>, id: &str) -> (r: Option<usize>)
    ensures
        match r {
            Option::Some(i) => i < chats@.len() && chats@[i as int].id@ == id@,
            Option::None => forall|j: int| 0 <= j < chats@.len() ==> chats@[j].id@ != id@,
        },
{
    let mut t: usize = 0;
    while t < chats.len()
        invariant
            t <= chats@.len(),
            forall|j: int| 0 <= j < t ==> chats@[j].id@ != id@,
        decreases chats@.len() - t,
    {
        if str_eq(chats[t].id.as_str(), id) {
            return Some(t);
        }
        t = t + 1;
    }
    None
}

fn find_personality_idx(ps: &Vec<Personality>, id: &str) -> (r: Option<usize>)
    ensures
        match r {
            Option::Some(i) => i < ps@.len() && ps@[i as int].id@ == id@,
            Option::None => forall|j: int| 0 <= j < ps@.len() ==> ps@[j].id@ != id@,
        },
{
    let mut t: usize = 0;
    while t < ps.len()
        invariant
            t <= ps@.len(),
            forall|j: int| 0 <= j < t ==> ps@[j].id@ != id@,
        decreases ps@.len() - t,
    {
        if str_eq(ps[t].id.as_str(), id) {
            return Some(t);
        }
        t = t + 1;
    }
    None
}

fn id_set_contains(v: &Vec<String>, k: &str) -> (r: bool)
    ensures
        r == key_set(v@).contains(k@),
{
    let mut t: usize = 0;
    while t < v.len()
        invariant
            t <= v@.len(),
            forall|j: int| 0 <= j < t ==> v@[j]@ != k@,
        decreases v@.len() - t,
    {
        if str_eq(v[t].as_str(), k) {
            return true;
        }
        t = t + 1;
    }
    proof {
        assert(!key_set(v@).contains(k@));
    }
    false
}

fn id_set_insert(v: &mut Vec<String>, k: String)
    requires
        unique_ids(old(v)@),
    ensures
        unique_ids(final(v)@),
        key_set(final(v)@) == key_set(old(v)@).insert(k@),
{
    let present = id_set_contains(v, k.as_str());
    if !present {
        v.push(k);
        proof {
            assert(key_set(v@) =~= key_set(old(v)@).insert(k@)) by {
                assert(forall|x: Seq<char>|
                    key_set(old(v)@).contains(x) ==> key_set(v@).contains(x)) by {
                    assert(forall|i: int|
                        0 <= i < old(v)@.len() ==> v@[i]@ == old(v)@[i]@);
                }
                assert(v@[old(v)@.len() as int]@ == k@);
            }
        }
    } else {
        proof {
            assert(key_set(v@) =~= key_set(old(v)@).insert(k@));
        }
    }
}

fn id_set_remove(v: &mut Vec<String>, k: &str)
    requires
        unique_ids(old(v)@),
    ensures
        unique_ids(final(v)@),
        key_set(final(v)@) == key_set(old(v)@).remove(k@),
{
    let mut out: Vec<String> = Vec::new();
    let mut t: usize = 0;
    while t < v.len()
        invariant
            t <= v@.len(),
            v@ == old(v)@,
            unique_ids(v@),
            forall|j: int| 0 <= j < out@.len() ==> out@[j]@ != k@,
            forall|j: int|
                0 <= j < out@.len() ==> exists|i: int|
                    0 <= i < t && v@[i]@ == (#[trigger] out@[j])@,
            forall|i: int|
                0 <= i < t && (#[trigger] v@[i])@ != k@ ==> exists|j: int|
                    0 <= j < out@.len() && out@[j]@ == v@[i]@,
            unique_ids(out@),
        decreases v@.len() - t,
    {
        let ghost out0 = out@;
        let keep = !str_eq(v[t].as_str(), k);
        if keep {
            proof {
                assert forall|j: int| 0 <= j < out@.len() implies out@[j]@ != v@[t as int]@ by {
                    let i = choose|i: int| 0 <= i < t && v@[i]@ == out@[j]@;
                    assert(v@[i]@ != v@[t as int]@);
                }
            }
            out.push(v[t].clone());
        }
        proof {
            assert forall|i: int|
                0 <= i < t + 1 && (#[trigger] v@[i])@ != k@ implies exists|j: int|
                    0 <= j < out@.len() && out@[j]@ == v@[i]@ by {
                if i < t {
                    let j = choose|j: int| 0 <= j < out0.len() && out0[j]@ == v@[i]@;
                    assert(out@[j]@ == v@[i]@);
                } else {
                    assert(keep);
                    assert(out@[out@.len() - 1]@ == v@[i]@);
                }
            }
        }
        t = t + 1;
    }
    proof {
        assert(key_set(out@) =~= key_set(v@).remove(k@)) by {
            assert forall|x: Seq<char>| key_set(out@).contains(x) implies key_set(v@).remove(
                k@,
            ).contains(x) by {
                let j = choose|j: int| 0 <= j < out@.len() && out@[j]@ == x;
                let i = choose|i: int| 0 <= i < v@.len() && v@[i]@ == out@[j]@;
            }
            assert forall|x: Seq<char>| key_set(v@).remove(k@).contains(x) implies key_set(
                out@,
            ).contains(x) by {
                let i = choose|i: int| 0 <= i < v@.len() && v@[i]@ == x;
                assert(exists|j: int| 0 <= j < out@.len() && out@[j]@ == v@[i]@);
            }
        }
    }
    *v = out;
}

proof fn lemma_assoc_index<V>(s: Seq<(Seq<char>, V)>, i: int)
    requires
        assoc_unique(s),
        0 <= i < s.len(),
    ensures
        assoc_map(s).contains_key(s[i].0),
        assoc_map(s)[s[i].0] == s[i].1,
{
    let k = s[i].0;
    assert(assoc_has(s, k));
    let j = choose|j: int| 0 <= j < s.len() && s[j].0 == k;
    if j < i {
        assert(s[j].0 != s[i].0);
    } else if i < j {
        assert(s[i].0 != s[j].0);
    }
}

proof fn lemma_assoc_update_is_insert<V>(s: Seq<(Seq<char>, V)>, i: int, k: Seq<char>, v: V)
    requires
        assoc_unique(s),
        0 <= i < s.len(),
        s[i].0 == k,
    ensures
        assoc_unique(s.update(i, (k, v))),
        assoc_map(s.update(i, (k, v))) == assoc_map(s).insert(k, v),
{
    let s2 = s.update(i, (k, v));
    assert(forall|j: int| 0 <= j < s.len() ==> (#[trigger] s2[j]).0 == s[j].0);
    assert(assoc_map(s2) =~= assoc_map(s).insert(k, v)) by {
        assert forall|x: Seq<char>| assoc_has(s2, x) implies assoc_has(s, x) by {
            let j = choose|j: int| 0 <= j < s2.len() && s2[j].0 == x;
            assert(s[j].0 == x);
        }
        assert forall|x: Seq<char>| assoc_has(s, x) implies assoc_has(s2, x) by {
            let j = choose|j: int| 0 <= j < s.len() && s[j].0 == x;
            assert(s2[j].0 == x);
        }
        assert(assoc_has(s, k));
        assert forall|x: Seq<char>| assoc_has(s2, x) implies assoc_map(s2)[x] == assoc_map(
            s,
        ).insert(k, v)[x] by {
            let j2 = choose|j: int| 0 <= j < s2.len() && s2[j].0 == x;
            let j1 = choose|j: int| 0 <= j < s.len() && s[j].0 == x;
            assert(s[j2].0 == x);
            if j1 < j2 {
                assert(s[j1].0 != s[j2].0);
            } else if j2 < j1 {
                assert(s[j2].0 != s[j1].0);
            }
            if x == k {
                if j2 < i {
                    assert(s[j2].0 != s[i].0);
                } else if i < j2 {
                    assert(s[i].0 != s[j2].0);
                }
                assert(s2[j2].1 == v);
            } else {
                assert(j2 != i);
                assert(s2[j2] == s[j2]);
            }
        }
    }
}

proof fn lemma_assoc_push_is_insert<V>(s: Seq<(Seq<char>, V)>, k: Seq<char>, v: V)
    requires
        assoc_unique(s),
        !assoc_has(s, k),
    ensures
        assoc_unique(s.push((k, v))),
        assoc_map(s.push((k, v))) == assoc_map(s).insert(k, v),
{
    let s2 = s.push((k, v));
    assert(forall|j: int| 0 <= j < s.len() ==> s2[j] == s[j]);
    assert(s2[s.len() as int] == (k, v));
    assert(assoc_unique(s2)) by {
        assert forall|i: int, j: int| 0 <= i < j < s2.len() implies s2[i].0 != s2[j].0 by {
            if j < s.len() {
            } else {
                assert(s2[j].0 == k);
                assert(s2[i].0 == s[i].0);
                assert(s[i].0 != k);
            }
        }
    }
    assert(assoc_map(s2) =~= assoc_map(s).insert(k, v)) by {
        assert forall|x: Seq<char>| assoc_has(s2, x) implies (x == k || assoc_has(s, x)) by {
            let j = choose|j: int| 0 <= j < s2.len() && s2[j].0 == x;
            if j < s.len() {
                assert(s[j].0 == x);
            }
        }
        assert forall|x: Seq<char>| assoc_has(s2, x) implies assoc_map(s2)[x] == assoc_map(
            s,
        ).insert(k, v)[x] by {
            let j2 = choose|j: int| 0 <= j < s2.len() && s2[j].0 == x;
            if x == k {
                if j2 < s.len() {
                    assert(s[j2].0 == k);
                    assert(false);
                }
                assert(s2[j2].1 == v);
            } else {
                assert(j2 < s.len());
                let j1 = choose|j: int| 0 <= j < s.len() && s[j].0 == x;
                if j1 < j2 {
                    assert(s[j1].0 != s[j2].0);
                } else if j2 < j1 {
                    assert(s[j2].0 != s[j1].0);
                }
                assert(s2[j2] == s[j2]);
            }
        }
    }
}

proof fn lemma_assoc_remove_is_remove<V>(s: Seq<(Seq<char>, V)>, i: int)
    requires
        assoc_unique(s),
        0 <= i < s.len(),
    ensures
        assoc_unique(s.remove(i)),
        assoc_map(s.remove(i)) == assoc_map(s).remove(s[i].0),
{
    let k = s[i].0;
    let s2 = s.remove(i);
    s.remove_ensures(i);
    assert(assoc_unique(s2)) by {
        assert forall|a: int, b: int| 0 <= a < b < s2.len() implies s2[a].0 != s2[b].0 by {
            if b < i {
            } else if a < i {
                assert(s2[b] == s[b + 1]);
            } else {
                assert(s2[a] == s[a + 1]);
                assert(s2[b] == s[b + 1]);
            }
        }
    }
    assert(assoc_map(s2) =~= assoc_map(s).remove(k)) by {
        assert forall|x: Seq<char>| assoc_has(s2, x) implies (assoc_has(s, x) && x != k) by {
            let j = choose|j: int| 0 <= j < s2.len() && s2[j].0 == x;
            if j < i {
                assert(s[j].0 == x);
                if j < i {
                    assert(s[j].0 != s[i].0);
                }
            } else {
                assert(s2[j] == s[j + 1]);
                assert(s[j + 1].0 == x);
                assert(s[i].0 != s[j + 1].0);
            }
        }
        assert forall|x: Seq<char>| assoc_has(s, x) && x != k implies assoc_has(s2, x) by {
            let j = choose|j: int| 0 <= j < s.len() && s[j].0 == x;
            assert(j != i);
            if j < i {
                assert(s2[j].0 == x);
            } else {
                assert(s2[j - 1] == s[j]);
            }
        }
        assert forall|x: Seq<char>| assoc_has(s2, x) implies assoc_map(s2)[x] == assoc_map(s).remove(
            k,
        )[x] by {
            let j2 = choose|j: int| 0 <= j < s2.len() && s2[j].0 == x;
            let j1 = choose|j: int| 0 <= j < s.len() && s[j].0 == x;
            let w: int = if j2 < i {
                j2
            } else {
                j2 + 1
            };
            assert(s2[j2] == s[w]);
            assert(s[w].0 == x);
            if j1 < w {
                assert(s[j1].0 != s[w].0);
            } else if w < j1 {
                assert(s[w].0 != s[j1].0);
            }
            assert(j1 == w);
        }
    }
}
fn upsert_chat(chats: &mut Vec<Chat>, chat: Chat)
    requires
        assoc_unique(chat_pairs_of(old(chats)@)),
    ensures
        assoc_unique(chat_pairs_of(final(chats)@)),
        assoc_map(chat_pairs_of(final(chats)@)) == assoc_map(chat_pairs_of(old(chats)@)).insert(
            chat.id@,
            chat@,
        ),
{
    let ghost cid = chat.id@;
    let ghost cv = chat@;
    let ghost pairs0 = chat_pairs_of(chats@);
    let r = find_chat_idx(chats, chat.id.as_str());
    match r {
        Option::Some(i) => {
            proof {
                lemma_assoc_update_is_insert(pairs0, i as int, cid, cv);
            }
            chats[i] = chat;
            proof {
                assert(chat_pairs_of(chats@) =~= pairs0.update(i as int, (cid, cv)));
            }
        },
        Option::None => {
            proof {
                if assoc_has(pairs0, cid) {
                    let j = choose|j: int| 0 <= j < pairs0.len() && pairs0[j].0 == cid;
                    assert(old(chats)@[j].id@ == cid);
                }
                lemma_assoc_push_is_insert(pairs0, cid, cv);
            }
            chats.push(chat);
            proof {
                assert(chat_pairs_of(chats@) =~= pairs0.push((cid, cv)));
            }
        },
    }
}

fn upsert_personality(ps: &mut Vec<Personality>, p: Personality)
    requires
        assoc_unique(personality_pairs_of(old(ps)@)),
    ensures
        assoc_unique(personality_pairs_of(final(ps)@)),
        assoc_map(personality_pairs_of(final(ps)@)) == assoc_map(
            personality_pairs_of(old(ps)@),
        ).insert(p.id@, p@),
{
    let ghost pid = p.id@;
    let ghost pv = p@;
    let ghost pairs0 = personality_pairs_of(ps@);
    let r = find_personality_idx(ps, p.id.as_str());
    match r {
        Option::Some(i) => {
            proof {
                lemma_assoc_update_is_insert(pairs0, i as int, pid, pv);
            }
            ps[i] = p;
            proof {
                assert(personality_pairs_of(ps@) =~= pairs0.update(i as int, (pid, pv)));
            }
        },
        Option::None => {
            proof {
                if assoc_has(pairs0, pid) {
                    let j = choose|j: int| 0 <= j < pairs0.len() && pairs0[j].0 == pid;
                    assert(old(ps)@[j].id@ == pid);
                }
                lemma_assoc_push_is_insert(pairs0, pid, pv);
            }
            ps.push(p);
            proof {
                assert(personality_pairs_of(ps@) =~= pairs0.push((pid, pv)));
            }
        },
    }
}
impl Database {
    /// Looks up a chat; the result is a copy of the stored chat.
    pub fn get_chat(&self, chat_id: &str) -> (r: Option<Chat>)
        requires
            self.wf(),
        ensures
            match r {
                Option::Some(c) => self.chats_map().contains_key(chat_id@) && c@
                    == self.chats_map()[chat_id@],
                Option::None => !self.chats_map().contains_key(chat_id@),
            },
    {
        match find_chat_idx(&self.chats, chat_id) {
            Option::Some(i) => {
                let c = self.chats[i].clone();
                proof {
                    lemma_assoc_index(self.chat_pairs(), i as int);
                }
                Option::Some(c)
            },
            Option::None => {
                proof {
                    if self.chats_map().contains_key(chat_id@) {
                        let j = choose|j: int|
                            0 <= j < self.chat_pairs().len() && self.chat_pairs()[j].0 == chat_id@;
                        assert(self.chats@[j].id@ == chat_id@);
                    }
                }
                Option::None
            },
        }
    }

    /// Upserts a chat under its id and marks it dirty, so the next flush
    /// cycle writes it out.
    pub fn save_chat(&mut self, chat: Chat)
        requires
            old(self).wf(),
        ensures
            final(self).wf(),
            final(self).chats_map() == old(self).chats_map().insert(chat.id@, chat@),
            final(self).dirty_chats() == old(self).dirty_chats().insert(chat.id@),
            final(self).personalities_map() == old(self).personalities_map(),
            final(self).personality_views() == old(self).personality_views(),
            final(self).dirty_personalities() == old(self).dirty_personalities(),
            final(self).deleted_personalities() == old(self).deleted_personalities(),
    {
        let ghost cid = chat.id@;
        let id = chat.id.clone();
        upsert_chat(&mut self.chats, chat);
        id_set_insert(&mut self.save_chat_ids, id);
        proof {
            assert(self.dirty_chats().subset_of(self.chats_map().dom())) by {
                assert forall|x: Seq<char>| self.dirty_chats().contains(x) implies self.chats_map(
                ).dom().contains(x) by {
                    if x != cid {
                        assert(old(self).dirty_chats().contains(x));
                    }
                }
            }
        }
    }

    /// Looks up a personality; the result is a copy.
    pub fn get_personality(&self, id: &str) -> (r: Option<Personality>)
        requires
            self.wf(),
        ensures
            match r {
                Option::Some(p) => self.personalities_map().contains_key(id@) && p@
                    == self.personalities_map()[id@],
                Option::None => !self.personalities_map().contains_key(id@),
            },
    {
        match find_personality_idx(&self.personalities, id) {
            Option::Some(i) => {
                let p = self.personalities[i].clone();
                proof {
                    lemma_assoc_index(self.personality_pairs(), i as int);
                }
                Option::Some(p)
            },
            Option::None => {
                proof {
                    if self.personalities_map().contains_key(id@) {
                        let j = choose|j: int|
                            0 <= j < self.personality_pairs().len() && self.personality_pairs()[j].0
                                == id@;
                        assert(self.personalities@[j].id@ == id@);
                    }
                }
                Option::None
            },
        }
    }

    /// Every stored personality, copied, in internal order.
    pub fn get_personalities(&self) -> (r: Vec<Personality>)
        ensures
            r@.map_values(|p: Personality| p@) == self.personality_views(),
    {
        let mut r: Vec<Personality> = Vec::new();
        let mut t: usize = 0;
        while t < self.personalities.len()
            invariant
                t <= self.personalities@.len(),
                r@ =~= self.personalities@.subrange(0, t as int),
            decreases self.personalities@.len() - t,
        {
            r.push(self.personalities[t].clone());
            t = t + 1;
        }
        proof {
            assert(r@ =~= self.personalities@);
            assert(r@.map_values(|p: Personality| p@) =~= self.personality_views());
        }
        r
    }

    /// Upserts a personality and marks it dirty; a pending deletion of
    /// the same id is cancelled, since the entity exists again.
    pub fn save_personality(&mut self, personality: Personality)
        requires
            old(self).wf(),
        ensures
            final(self).wf(),
            final(self).personalities_map() == old(self).personalities_map().insert(
                personality.id@,
                personality@,
            ),
            final(self).dirty_personalities() == old(self).dirty_personalities().insert(
                personality.id@,
            ),
            final(self).deleted_personalities() == old(self).deleted_personalities().remove(
                personality.id@,
            ),
            final(self).chats_map() == old(self).chats_map(),
            final(self).chat_views() == old(self).chat_views(),
            final(self).dirty_chats() == old(self).dirty_chats(),
    {
        let ghost pid = personality.id@;
        let id = personality.id.clone();
        upsert_personality(&mut self.personalities, personality);
        id_set_insert(&mut self.save_personality_ids, id.clone());
        id_set_remove(&mut self.deleted_personality_ids, id.as_str());
        proof {
            assert(self.dirty_personalities().subset_of(self.personalities_map().dom())) by {
                assert forall|x: Seq<char>|
                    self.dirty_personalities().contains(x) implies self.personalities_map(
                ).dom().contains(x) by {
                    if x != pid {
                        assert(old(self).dirty_personalities().contains(x));
                    }
                }
            }
            assert(self.deleted_personalities().disjoint(self.personalities_map().dom())) by {
                assert forall|x: Seq<char>|
                    self.deleted_personalities().contains(x) implies !self.personalities_map(
                ).dom().contains(x) by {
                    assert(old(self).deleted_personalities().contains(x));
                    assert(x != pid);
                }
            }
        }
    }

    /// Removes a personality from memory at once and marks its backing
    /// file for removal at the next flush.
    pub fn del_personality(&mut self, id: &str)
        requires
            old(self).wf(),
        ensures
            final(self).wf(),
            final(self).personalities_map() == old(self).personalities_map().remove(id@),
            final(self).dirty_personalities() == old(self).dirty_personalities().remove(id@),
            final(self).deleted_personalities() == old(self).deleted_personalities().insert(id@),
            final(self).chats_map() == old(self).chats_map(),
            final(self).chat_views() == old(self).chat_views(),
            final(self).dirty_chats() == old(self).dirty_chats(),
    {
        let ghost pairs0 = self.personality_pairs();
        let r = find_personality_idx(&self.personalities, id);
        match r {
            Option::Some(i) => {
                proof {
                    lemma_assoc_remove_is_remove(pairs0, i as int);
                }
                self.personalities.remove(i);
                proof {
                    assert(self.personality_pairs() =~= pairs0.remove(i as int)) by {
                        old(self).personalities@.remove_ensures(i as int);
                        pairs0.remove_ensures(i as int);
                        assert forall|j: int|
                            0 <= j < self.personality_pairs().len()
                            implies self.personality_pairs()[j] == pairs0.remove(i as int)[j] by {
                            if j < i {
                            } else {
                                assert(self.personalities@[j] == old(self).personalities@[j + 1]);
                                assert(pairs0.remove(i as int)[j] == pairs0[j + 1]);
                            }
                        }
                    }
                }
            },
            Option::None => {
                proof {
                    assert(self.personalities_map() =~= old(self).personalities_map().remove(id@))
                        by {
                        if assoc_has(self.personality_pairs(), id@) {
                            let j = choose|j: int|
                                0 <= j < self.personality_pairs().len()
                                    && self.personality_pairs()[j].0 == id@;
                            assert(self.personalities@[j].id@ == id@);
                        }
                    }
                }
            },
        }
        id_set_remove(&mut self.save_personality_ids, id);
        id_set_insert(&mut self.deleted_personality_ids, String::from_str(id));
        proof {
            assert(self.dirty_personalities().subset_of(self.personalities_map().dom())) by {
                assert forall|x: Seq<char>|
                    self.dirty_personalities().contains(x) implies self.personalities_map(
                ).dom().contains(x) by {
                    assert(old(self).dirty_personalities().contains(x));
                    assert(x != id@);
                }
            }
            assert(self.deleted_personalities().disjoint(self.personalities_map().dom())) by {
                assert forall|x: Seq<char>|
                    self.deleted_personalities().contains(x) implies !self.personalities_map(
                ).dom().contains(x) by {
                    if x != id@ {
                        assert(old(self).deleted_personalities().contains(x));
                    }
                }
            }
        }
    }

    /// The id and title of every stored chat, in internal order.
    pub fn get_chat_metas(&self) -> (r: Vec<ChatMeta>)
        ensures
            r@.len() == self.chat_views().len(),
            forall|i: int|
                0 <= i < r@.len() ==> (#[trigger] r@[i]).id@ == self.chat_views()[i].id
                    && opt_str_view(r@[i].title) == self.chat_views()[i].title && r@[i].last_msg_datetime is None,
    {
        let mut r: Vec<ChatMeta> = Vec::new();
        let mut t: usize = 0;
        while t < self.chats.len()
            invariant
                t <= self.chats@.len(),
                r@.len() == t,
                forall|i: int|
                    0 <= i < t ==> (#[trigger] r@[i]).id@ == self.chat_views()[i].id
                        && opt_str_view(r@[i].title) == self.chat_views()[i].title
                        && r@[i].last_msg_datetime is None,
            decreases self.chats@.len() - t,
        {
            let c = &self.chats[t];
            r.push(
                ChatMeta { id: c.id.clone(), last_msg_datetime: None, title: clone_opt_string(&c.title) },
            );
            t = t + 1;
        }
        r
    }

    /// Installs one decoded entity file into memory, keyed by the
    /// entity's own id; a later load of the same id wins. Nothing is
    /// marked dirty: what was just read matches its file.
    pub fn load_entity(&mut self, doc: FileDocument)
        requires
            old(self).wf(),
        ensures
            final(self).wf(),
            match doc.content {
                FileContent::Chat(c) => {
                    &&& final(self).chats_map() == old(self).chats_map().insert(c.id@, c@)
                    &&& final(self).personalities_map() == old(self).personalities_map()
                    &&& final(self).dirty_personalities() == old(self).dirty_personalities()
                    &&& final(self).deleted_personalities() == old(self).deleted_personalities()
                    &&& final(self).dirty_chats() == old(self).dirty_chats()
                },
                FileContent::Personality(p) => {
                    &&& final(self).personalities_map() == old(self).personalities_map().insert(
                        p.id@,
                        p@,
                    )
                    &&& final(self).chats_map() == old(self).chats_map()
                    &&& final(self).dirty_chats() == old(self).dirty_chats()
                    &&& final(self).dirty_personalities() == old(self).dirty_personalities()
                    &&& final(self).deleted_personalities() == old(
                        self,
                    ).deleted_personalities().remove(p.id@)
                },
            },
    {
        match doc.content {
            FileContent::Chat(c) => {
                upsert_chat(&mut self.chats, c);
                proof {
                    assert(self.dirty_chats().subset_of(self.chats_map().dom())) by {
                        assert forall|x: Seq<char>|
                            self.dirty_chats().contains(x) implies self.chats_map().dom().contains(
                            x,
                        ) by {
                            assert(old(self).dirty_chats().contains(x));
                        }
                    }
                }
            },
            FileContent::Personality(p) => {
                let ghost pid = p.id@;
                let id = p.id.clone();
                upsert_personality(&mut self.personalities, p);
                id_set_remove(&mut self.deleted_personality_ids, id.as_str());
                proof {
                    assert(self.dirty_personalities().subset_of(self.personalities_map().dom()))
                        by {
                        assert forall|x: Seq<char>|
                            self.dirty_personalities().contains(x) implies self.personalities_map(
                        ).dom().contains(x) by {
                            assert(old(self).dirty_personalities().contains(x));
                        }
                    }
                    assert(self.deleted_personalities().disjoint(self.personalities_map().dom()))
                        by {
                        assert forall|x: Seq<char>|
                            self.deleted_personalities().contains(x)
                                implies !self.personalities_map().dom().contains(x) by {
                            assert(old(self).deleted_personalities().contains(x));
                            assert(x != pid);
                        }
                    }
                }
            },
        }
    }
}
/// The id under which a document's entity is filed.
pub open spec fn doc_id(d: FileDocument) -> Seq<char> {
    match d.content {
        FileContent::Chat(c) => c.id@,
        FileContent::Personality(p) => p.id@,
    }
}

/// Whether a write for the id stands in the list.
pub open spec fn has_write(ws: Seq<FileDocument>, id: Seq<char>) -> bool {
    exists|i: int| 0 <= i < ws.len() && doc_id(ws[i]) == id
}

/// The ids written by a list of documents.
pub open spec fn write_ids(ws: Seq<FileDocument>) -> Set<Seq<char>> {
    Set::new(|id: Seq<char>| has_write(ws, id))
}

/// The content written for an id.
pub open spec fn write_at(ws: Seq<FileDocument>, id: Seq<char>) -> FileContentView {
    ws[choose|i: int| 0 <= i < ws.len() && doc_id(ws[i]) == id].content@
}

proof fn lemma_key_set_push(s: Seq<String>, e: String)
    ensures
        key_set(s.push(e)) == key_set(s).insert(e@),
{
    assert(key_set(s.push(e)) =~= key_set(s).insert(e@)) by {
        assert forall|x: Seq<char>| key_set(s.push(e)).contains(x) implies key_set(s).insert(
            e@,
        ).contains(x) by {
            let i = choose|i: int| 0 <= i < s.push(e).len() && s.push(e)[i]@ == x;
            if i < s.len() {
                assert(s[i]@ == x);
            }
        }
        assert forall|x: Seq<char>| key_set(s).insert(e@).contains(x) implies key_set(
            s.push(e),
        ).contains(x) by {
            if x == e@ {
                assert(s.push(e)[s.len() as int]@ == x);
            } else {
                let i = choose|i: int| 0 <= i < s.len() && s[i]@ == x;
                assert(s.push(e)[i]@ == x);
            }
        }
    }
}
impl Database {
    /// What a correct flush plan says of this store: one versioned write
    /// per dirty entity, holding its current content, no write twice,
    /// and one removal per pending deletion.
    pub open spec fn plan_ok(self, plan: FlushPlan) -> bool {
        &&& forall|i: int|
            0 <= i < plan.chat_writes@.len() ==> (#[trigger] plan.chat_writes@[i]).version == 1
        &&& forall|i: int|
            0 <= i < plan.chat_writes@.len() ==> (#[trigger] plan.chat_writes@[i]).content is Chat
        &&& forall|i: int|
            0 <= i < plan.chat_writes@.len() ==> self.dirty_chats().contains(
                doc_id(#[trigger] plan.chat_writes@[i]),
            )
        &&& forall|i: int|
            0 <= i < plan.chat_writes@.len() ==> (#[trigger] plan.chat_writes@[i]).content@
                == FileContentView::Chat(self.chats_map()[doc_id(plan.chat_writes@[i])])
        &&& forall|id: Seq<char>|
            self.dirty_chats().contains(id) ==> #[trigger] has_write(plan.chat_writes@, id)
        &&& forall|i: int, j: int|
            0 <= i < j < plan.chat_writes@.len() ==> doc_id(plan.chat_writes@[i]) != doc_id(
                plan.chat_writes@[j],
            )
        &&& forall|i: int|
            0 <= i < plan.personality_writes@.len() ==> (
            #[trigger] plan.personality_writes@[i]).version == 1
        &&& forall|i: int|
            0 <= i < plan.personality_writes@.len() ==> (
            #[trigger] plan.personality_writes@[i]).content is Personality
        &&& forall|i: int|
            0 <= i < plan.personality_writes@.len() ==> self.dirty_personalities().contains(
                doc_id(#[trigger] plan.personality_writes@[i]),
            )
        &&& forall|i: int|
            0 <= i < plan.personality_writes@.len() ==> (
            #[trigger] plan.personality_writes@[i]).content@ == FileContentView::Personality(
                self.personalities_map()[doc_id(plan.personality_writes@[i])],
            )
        &&& forall|id: Seq<char>|
            self.dirty_personalities().contains(id) ==> #[trigger] has_write(
                plan.personality_writes@,
                id,
            )
        &&& forall|i: int, j: int|
            0 <= i < j < plan.personality_writes@.len() ==> doc_id(plan.personality_writes@[i])
                != doc_id(plan.personality_writes@[j])
        &&& key_set(plan.deletes@) == self.deleted_personalities()
        &&& unique_ids(plan.deletes@)
    }

    /// Gathers one flush cycle's worth of disk work: a write for every
    /// dirty chat and personality, a removal for every pending deletion.
    pub fn flush_plan(&self) -> (plan: FlushPlan)
        requires
            self.wf(),
        ensures
            self.plan_ok(plan),
    {
        let mut chat_writes: Vec<FileDocument> = Vec::new();
        let mut t: usize = 0;
        while t < self.save_chat_ids.len()
            invariant
                self.wf(),
                t <= self.save_chat_ids@.len(),
                chat_writes@.len() == t,
                forall|i: int| 0 <= i < t ==> (#[trigger] chat_writes@[i]).version == 1,
                forall|i: int| 0 <= i < t ==> (#[trigger] chat_writes@[i]).content is Chat,
                forall|i: int|
                    0 <= i < t ==> doc_id(#[trigger] chat_writes@[i]) == self.save_chat_ids@[i]@,
                forall|i: int|
                    0 <= i < t ==> (#[trigger] chat_writes@[i]).content@ == FileContentView::Chat(
                        self.chats_map()[doc_id(chat_writes@[i])],
                    ),
            decreases self.save_chat_ids@.len() - t,
        {
            let ghost idv = self.save_chat_ids@[t as int]@;
            proof {
                assert(self.dirty_chats().contains(idv));
            }
            let r = find_chat_idx(&self.chats, self.save_chat_ids[t].as_str());
            match r {
                Option::Some(i) => {
                    let c = self.chats[i].clone();
                    proof {
                        lemma_assoc_index(self.chat_pairs(), i as int);
                    }
                    chat_writes.push(FileDocument { version: 1, content: FileContent::Chat(c) });
                },
                Option::None => {
                    proof {
                        assert(self.chats_map().dom().contains(idv));
                        let j = choose|j: int|
                            0 <= j < self.chat_pairs().len() && self.chat_pairs()[j].0 == idv;
                        assert(self.chats@[j].id@ == idv);
                        assert(false);
                    }
                },
            }
            t = t + 1;
        }
        let mut personality_writes: Vec<FileDocument> = Vec::new();
        let mut u: usize = 0;
        while u < self.save_personality_ids.len()
            invariant
                self.wf(),
                u <= self.save_personality_ids@.len(),
                personality_writes@.len() == u,
                forall|i: int| 0 <= i < u ==> (#[trigger] personality_writes@[i]).version == 1,
                forall|i: int|
                    0 <= i < u ==> (#[trigger] personality_writes@[i]).content is Personality,
                forall|i: int|
                    0 <= i < u ==> doc_id(#[trigger] personality_writes@[i])
                        == self.save_personality_ids@[i]@,
                forall|i: int|
                    0 <= i < u ==> (#[trigger] personality_writes@[i]).content@
                        == FileContentView::Personality(
                        self.personalities_map()[doc_id(personality_writes@[i])],
                    ),
            decreases self.save_personality_ids@.len() - u,
        {
            let ghost idv = self.save_personality_ids@[u as int]@;
            proof {
                assert(self.dirty_personalities().contains(idv));
            }
            let r = find_personality_idx(
                &self.personalities,
                self.save_personality_ids[u].as_str(),
            );
            match r {
                Option::Some(i) => {
                    let p = self.personalities[i].clone();
                    proof {
                        lemma_assoc_index(self.personality_pairs(), i as int);
                    }
                    personality_writes.push(
                        FileDocument { version: 1, content: FileContent::Personality(p) },
                    );
                },
                Option::None => {
                    proof {
                        assert(self.personalities_map().dom().contains(idv));
                        let j = choose|j: int|
                            0 <= j < self.personality_pairs().len()
                                && self.personality_pairs()[j].0 == idv;
                        assert(self.personalities@[j].id@ == idv);
                        assert(false);
                    }
                },
            }
            u = u + 1;
        }
        let mut deletes: Vec<String> = Vec::new();
        let mut w: usize = 0;
        while w < self.deleted_personality_ids.len()
            invariant
                w <= self.deleted_personality_ids@.len(),
                deletes@ =~= self.deleted_personality_ids@.subrange(0, w as int),
            decreases self.deleted_personality_ids@.len() - w,
        {
            deletes.push(self.deleted_personality_ids[w].clone());
            w = w + 1;
        }
        proof {
            assert(deletes@ =~= self.deleted_personality_ids@);
        }
        let plan = FlushPlan { chat_writes, personality_writes, deletes };
        proof {
            assert forall|id: Seq<char>| self.dirty_chats().contains(id) implies #[trigger]
                has_write(plan.chat_writes@, id) by {
                let i = choose|i: int|
                    0 <= i < self.save_chat_ids@.len() && self.save_chat_ids@[i]@ == id;
                assert(doc_id(plan.chat_writes@[i]) == id);
            }
            assert forall|id: Seq<char>| self.dirty_personalities().contains(id) implies #[trigger]
                has_write(plan.personality_writes@, id) by {
                let i = choose|i: int|
                    0 <= i < self.save_personality_ids@.len() && self.save_personality_ids@[i]@
                        == id;
                assert(doc_id(plan.personality_writes@[i]) == id);
            }
        }
        plan
    }

    /// Clears exactly the dirty marks whose disk operations the caller
    /// reports done; everything else stays pending for the next cycle.
    /// A reported id is cleared even if a mutation re-dirtied it after
    /// the plan was gathered, so the caller keeps each plan-and-commit
    /// cycle under one exclusive turn at the store; content that lands
    /// between cycles is dirty again and waits for its own flush.
    pub fn flush_commit(
        &mut self,
        saved_chats: &Vec<String>,
        saved_personalities: &Vec<String>,
        removed_personalities: &Vec<String>,
    )
        requires
            old(self).wf(),
        ensures
            final(self).wf(),
            final(self).chats_map() == old(self).chats_map(),
            final(self).chat_views() == old(self).chat_views(),
            final(self).personalities_map() == old(self).personalities_map(),
            final(self).personality_views() == old(self).personality_views(),
            final(self).dirty_chats() == old(self).dirty_chats().difference(
                key_set(saved_chats@),
            ),
            final(self).dirty_personalities() == old(self).dirty_personalities().difference(
                key_set(saved_personalities@),
            ),
            final(self).deleted_personalities() == old(self).deleted_personalities().difference(
                key_set(removed_personalities@),
            ),
    {
        let mut t: usize = 0;
        while t < saved_chats.len()
            invariant
                t <= saved_chats@.len(),
                self.chats@ == old(self).chats@,
                self.personalities@ == old(self).personalities@,
                self.save_personality_ids@ == old(self).save_personality_ids@,
                self.deleted_personality_ids@ == old(self).deleted_personality_ids@,
                unique_ids(self.save_chat_ids@),
                key_set(self.save_chat_ids@) == key_set(old(self).save_chat_ids@).difference(
                    key_set(saved_chats@.subrange(0, t as int)),
                ),
            decreases saved_chats@.len() - t,
        {
            id_set_remove(&mut self.save_chat_ids, saved_chats[t].as_str());
            proof {
                assert(saved_chats@.subrange(0, t + 1) =~= saved_chats@.subrange(0, t as int).push(
                    saved_chats@[t as int],
                ));
                lemma_key_set_push(saved_chats@.subrange(0, t as int), saved_chats@[t as int]);
                assert(key_set(self.save_chat_ids@) =~= key_set(
                    old(self).save_chat_ids@,
                ).difference(key_set(saved_chats@.subrange(0, t + 1))));
            }
            t = t + 1;
        }
        proof {
            assert(saved_chats@.subrange(0, saved_chats@.len() as int) =~= saved_chats@);
        }
        let ghost sc_done = self.save_chat_ids@;
        let mut u: usize = 0;
        while u < saved_personalities.len()
            invariant
                u <= saved_personalities@.len(),
                self.chats@ == old(self).chats@,
                self.personalities@ == old(self).personalities@,
                self.save_chat_ids@ == sc_done,
                self.deleted_personality_ids@ == old(self).deleted_personality_ids@,
                unique_ids(self.save_personality_ids@),
                key_set(self.save_personality_ids@) == key_set(
                    old(self).save_personality_ids@,
                ).difference(key_set(saved_personalities@.subrange(0, u as int))),
            decreases saved_personalities@.len() - u,
        {
            id_set_remove(&mut self.save_personality_ids, saved_personalities[u].as_str());
            proof {
                assert(saved_personalities@.subrange(0, u + 1) =~= saved_personalities@.subrange(
                    0,
                    u as int,
                ).push(saved_personalities@[u as int]));
                lemma_key_set_push(
                    saved_personalities@.subrange(0, u as int),
                    saved_personalities@[u as int],
                );
                assert(key_set(self.save_personality_ids@) =~= key_set(
                    old(self).save_personality_ids@,
                ).difference(key_set(saved_personalities@.subrange(0, u + 1))));
            }
            u = u + 1;
        }
        proof {
            assert(saved_personalities@.subrange(0, saved_personalities@.len() as int)
                =~= saved_personalities@);
        }
        let ghost sp_done = self.save_personality_ids@;
        let mut w: usize = 0;
        while w < removed_personalities.len()
            invariant
                w <= removed_personalities@.len(),
                self.chats@ == old(self).chats@,
                self.personalities@ == old(self).personalities@,
                self.save_chat_ids@ == sc_done,
                self.save_personality_ids@ == sp_done,
                unique_ids(self.deleted_personality_ids@),
                key_set(self.deleted_personality_ids@) == key_set(
                    old(self).deleted_personality_ids@,
                ).difference(key_set(removed_personalities@.subrange(0, w as int))),
            decreases removed_personalities@.len() - w,
        {
            id_set_remove(&mut self.deleted_personality_ids, removed_personalities[w].as_str());
            proof {
                assert(removed_personalities@.subrange(0, w + 1)
                    =~= removed_personalities@.subrange(0, w as int).push(
                    removed_personalities@[w as int],
                ));
                lemma_key_set_push(
                    removed_personalities@.subrange(0, w as int),
                    removed_personalities@[w as int],
                );
                assert(key_set(self.deleted_personality_ids@) =~= key_set(
                    old(self).deleted_personality_ids@,
                ).difference(key_set(removed_personalities@.subrange(0, w + 1))));
            }
            w = w + 1;
        }
        proof {
            assert(removed_personalities@.subrange(0, removed_personalities@.len() as int)
                =~= removed_personalities@);
            assert(self.dirty_chats().subset_of(self.chats_map().dom()));
            assert(self.dirty_personalities().subset_of(self.personalities_map().dom()));
            assert(self.deleted_personalities().disjoint(self.personalities_map().dom()));
        }
    }
}
/// Idempotent upsert: saving twice under one id has exactly the effect
/// of the later save alone — one stored chat, holding the later
/// content, and a single dirty mark, so one file is written for it.
/// The nested `insert`s are what two `save_chat` calls leave behind,
/// by `save_chat`'s own contract.
pub proof fn lemma_save_chat_idempotent(
    m: Map<Seq<char>, ChatView>,
    d: Set<Seq<char>>,
    id: Seq<char>,
    c1: ChatView,
    c2: ChatView,
)
    ensures
        m.insert(id, c1).insert(id, c2) == m.insert(id, c2),
        d.insert(id).insert(id) == d.insert(id),
{
    assert(m.insert(id, c1).insert(id, c2) =~= m.insert(id, c2));
    assert(d.insert(id).insert(id) =~= d.insert(id));
}

/// What one flush cycle leaves on an abstract disk, keyed by entity id:
/// every planned write lands (personality writes after chat writes),
/// then every planned removal takes its file away.
pub open spec fn disk_after(
    disk: Map<Seq<char>, FileContentView>,
    plan: FlushPlan,
) -> Map<Seq<char>, FileContentView> {
    Map::new(
        |id: Seq<char>|
            !key_set(plan.deletes@).contains(id) && (disk.contains_key(id) || has_write(
                plan.chat_writes@,
                id,
            ) || has_write(plan.personality_writes@, id)),
        |id: Seq<char>|
            if has_write(plan.personality_writes@, id) {
                write_at(plan.personality_writes@, id)
            } else if has_write(plan.chat_writes@, id) {
                write_at(plan.chat_writes@, id)
            } else {
                disk[id]
            },
    )
}

/// Dirty-set convergence: when every operation of a flush plan
/// succeeds, the disk afterwards holds exactly the store's content —
/// every chat and personality under its own id, nothing for a deleted
/// personality — and committing the whole plan leaves every dirty set
/// empty. Entities whose ids collide across kinds are left out by the
/// two disjointness premises: ids are drawn from one identifier space.
pub proof fn lemma_flush_convergence(
    db: Database,
    plan: FlushPlan,
    disk: Map<Seq<char>, FileContentView>,
)
    requires
        db.wf(),
        db.plan_ok(plan),
        db.chats_map().dom().disjoint(db.personalities_map().dom()),
        db.deleted_personalities().disjoint(db.chats_map().dom()),
        forall|id: Seq<char>|
            #[trigger] db.chats_map().contains_key(id) && !db.dirty_chats().contains(id)
                ==> disk.contains_key(id) && disk[id] == FileContentView::Chat(
                db.chats_map()[id],
            ),
        forall|id: Seq<char>|
            #[trigger] db.personalities_map().contains_key(id) && !db.dirty_personalities().contains(
                id,
            ) ==> disk.contains_key(id) && disk[id] == FileContentView::Personality(
                db.personalities_map()[id],
            ),
    ensures
        forall|id: Seq<char>|
            #[trigger] db.chats_map().contains_key(id) ==> disk_after(disk, plan).contains_key(id)
                && disk_after(disk, plan)[id] == FileContentView::Chat(db.chats_map()[id]),
        forall|id: Seq<char>|
            #[trigger] db.personalities_map().contains_key(id) ==> disk_after(
                disk,
                plan,
            ).contains_key(id) && disk_after(disk, plan)[id] == FileContentView::Personality(
                db.personalities_map()[id],
            ),
        forall|id: Seq<char>|
            #[trigger] db.deleted_personalities().contains(id) ==> !disk_after(
                disk,
                plan,
            ).contains_key(id),
        db.dirty_chats().difference(write_ids(plan.chat_writes@)) == Set::<Seq<char>>::empty(),
        db.dirty_personalities().difference(write_ids(plan.personality_writes@)) == Set::<
            Seq<char>,
        >::empty(),
        db.deleted_personalities().difference(key_set(plan.deletes@)) == Set::<
            Seq<char>,
        >::empty(),
{
    assert forall|id: Seq<char>| #[trigger]
        db.chats_map().contains_key(id) implies disk_after(disk, plan).contains_key(id)
        && disk_after(disk, plan)[id] == FileContentView::Chat(db.chats_map()[id]) by {
        assert(!db.personalities_map().contains_key(id));
        assert(!has_write(plan.personality_writes@, id)) by {
            if has_write(plan.personality_writes@, id) {
                let i = choose|i: int|
                    0 <= i < plan.personality_writes@.len() && doc_id(plan.personality_writes@[i])
                        == id;
                assert(db.dirty_personalities().contains(id));
            }
        }
        assert(!key_set(plan.deletes@).contains(id));
        if db.dirty_chats().contains(id) {
            assert(has_write(plan.chat_writes@, id));
            assert(write_at(plan.chat_writes@, id) == FileContentView::Chat(db.chats_map()[id]))
                by {
                let j = choose|j: int|
                    0 <= j < plan.chat_writes@.len() && doc_id(plan.chat_writes@[j]) == id;
                assert(plan.chat_writes@[j].content@ == FileContentView::Chat(
                    db.chats_map()[doc_id(plan.chat_writes@[j])],
                ));
            }
        } else {
            assert(!has_write(plan.chat_writes@, id)) by {
                if has_write(plan.chat_writes@, id) {
                    let i = choose|i: int|
                        0 <= i < plan.chat_writes@.len() && doc_id(plan.chat_writes@[i]) == id;
                    assert(db.dirty_chats().contains(id));
                }
            }
            assert(disk.contains_key(id) && disk[id] == FileContentView::Chat(
                db.chats_map()[id],
            ));
        }
    }
    assert forall|id: Seq<char>| #[trigger]
        db.personalities_map().contains_key(id) implies disk_after(disk, plan).contains_key(id)
        && disk_after(disk, plan)[id] == FileContentView::Personality(
        db.personalities_map()[id],
    ) by {
        assert(!db.deleted_personalities().contains(id));
        assert(!key_set(plan.deletes@).contains(id));
        if db.dirty_personalities().contains(id) {
            assert(has_write(plan.personality_writes@, id));
            assert(write_at(plan.personality_writes@, id) == FileContentView::Personality(
                db.personalities_map()[id],
            )) by {
                let j = choose|j: int|
                    0 <= j < plan.personality_writes@.len() && doc_id(plan.personality_writes@[j])
                        == id;
                assert(plan.personality_writes@[j].content@ == FileContentView::Personality(
                    db.personalities_map()[doc_id(plan.personality_writes@[j])],
                ));
            }
        } else {
            assert(!has_write(plan.personality_writes@, id)) by {
                if has_write(plan.personality_writes@, id) {
                    let i = choose|i: int|
                        0 <= i < plan.personality_writes@.len()
                            && doc_id(plan.personality_writes@[i]) == id;
                    assert(db.dirty_personalities().contains(id));
                }
            }
            assert(disk.contains_key(id) && disk[id] == FileContentView::Personality(
                db.personalities_map()[id],
            ));
        }
    }
    assert(db.dirty_chats().difference(write_ids(plan.chat_writes@)) =~= Set::<
        Seq<char>,
    >::empty());
    assert(db.dirty_personalities().difference(write_ids(plan.personality_writes@)) =~= Set::<
        Seq<char>,
    >::empty());
    assert(db.deleted_personalities().difference(key_set(plan.deletes@)) =~= Set::<
        Seq<char>,
    >::empty());
}
/// Every stored chat sits in the map under its own id.
pub proof fn lemma_chats_keyed_by_id(db: Database)
    requires
        db.wf(),
    ensures
        forall|k: Seq<char>| #[trigger]
            db.chats_map().contains_key(k) ==> db.chats_map()[k].id == k,
{
    assert forall|k: Seq<char>| #[trigger]
        db.chats_map().contains_key(k) implies db.chats_map()[k].id == k by {
        let i = choose|i: int| 0 <= i < db.chat_pairs().len() && db.chat_pairs()[i].0 == k;
        assert(db.chat_pairs()[i].1.id == db.chat_pairs()[i].0);
    }
}

} // verus!
