//! The conversation transcript and the store of persisted snapshots.
//!
//! A [`Session`] owns the ordered message history of the running
//! conversation; a [`SessionStore`] holds named snapshot texts, keyed by a
//! session id, with each id present at most once.

use vstd::prelude::*;

use crate::snapshot::{parse_snapshot, parse_snapshot_str, snapshot_string, snapshot_text};
use crate::text::str_eq;
use crate::{Message, MessageView, Role};

verus! {

/// The transcript with every System message removed, order kept.
pub open spec fn without_system(msgs: Seq<MessageView>) -> Seq<MessageView>
    decreases msgs.len(),
{
    if msgs.len() == 0 {
        msgs
    } else if msgs[0].role == Role::System {
        without_system(msgs.drop_first())
    } else {
        seq![msgs[0]] + without_system(msgs.drop_first())
    }
}

/// How many System messages the transcript holds.
pub open spec fn system_count(msgs: Seq<MessageView>) -> int
    decreases msgs.len(),
{
    if msgs.len() == 0 {
        0
    } else {
        (if msgs[0].role == Role::System {
            1int
        } else {
            0int
        }) + system_count(msgs.drop_first())
    }
}

/// The first System message of the transcript, if any.
pub open spec fn first_system(msgs: Seq<MessageView>) -> Option<MessageView>
    decreases msgs.len(),
{
    if msgs.len() == 0 {
        None
    } else if msgs[0].role == Role::System {
        Some(msgs[0])
    } else {
        first_system(msgs.drop_first())
    }
}

/// Stripping a single message keeps it exactly when it is not a System
/// message.
pub proof fn lemma_without_system_singleton(m: MessageView)
    ensures
        without_system(seq![m]) == if m.role == Role::System {
            Seq::<MessageView>::empty()
        } else {
            seq![m]
        },
{
    assert(seq![m].drop_first() =~= Seq::<MessageView>::empty());
    assert(without_system(Seq::<MessageView>::empty()) =~= Seq::<MessageView>::empty());
    if m.role != Role::System {
        assert(seq![m] + Seq::<MessageView>::empty() =~= seq![m]);
    }
}

/// Removing System messages distributes over concatenation.
pub proof fn lemma_without_system_append(a: Seq<MessageView>, b: Seq<MessageView>)
    ensures
        without_system(a + b) == without_system(a) + without_system(b),
    decreases a.len(),
{
    if a.len() == 0 {
        assert(a + b =~= b);
        assert(without_system(a) + without_system(b) =~= without_system(b));
    } else {
        assert((a + b).drop_first() =~= a.drop_first() + b);
        lemma_without_system_append(a.drop_first(), b);
        if a[0].role != Role::System {
            assert(seq![a[0]] + (without_system(a.drop_first()) + without_system(b)) =~= (seq![
                a[0],
            ] + without_system(a.drop_first())) + without_system(b));
        }
    }
}

/// A transcript stripped of System messages holds none.
pub proof fn lemma_without_system_has_none(msgs: Seq<MessageView>)
    ensures
        system_count(without_system(msgs)) == 0,
    decreases msgs.len(),
{
    if msgs.len() > 0 {
        lemma_without_system_has_none(msgs.drop_first());
        if msgs[0].role != Role::System {
            let rest = without_system(msgs.drop_first());
            assert((seq![msgs[0]] + rest).drop_first() =~= rest);
        }
    }
}

/// Stripping System messages twice is the same as stripping them once.
pub proof fn lemma_without_system_idempotent(msgs: Seq<MessageView>)
    ensures
        without_system(without_system(msgs)) == without_system(msgs),
    decreases msgs.len(),
{
    if msgs.len() > 0 {
        lemma_without_system_idempotent(msgs.drop_first());
        if msgs[0].role != Role::System {
            let rest = without_system(msgs.drop_first());
            lemma_without_system_append(seq![msgs[0]], rest);
            lemma_without_system_singleton(msgs[0]);
        }
    }
}

/// Setting a System message always leaves exactly one System message, the
/// given one, at the front; setting it twice therefore keeps exactly one,
/// with the latest content, whatever was set before.
pub proof fn lemma_set_system_twice(msgs: Seq<MessageView>, first: MessageView, second: MessageView)
    requires
        first.role == Role::System,
        second.role == Role::System,
    ensures
        ({
            let once = seq![first] + without_system(msgs);
            let twice = seq![second] + without_system(once);
            &&& twice == seq![second] + without_system(msgs)
            &&& system_count(twice) == 1
            &&& twice[0] == second
        }),
{
    let stripped = without_system(msgs);
    lemma_without_system_append(seq![first], stripped);
    lemma_without_system_singleton(first);
    lemma_without_system_idempotent(msgs);
    assert(Seq::<MessageView>::empty() + without_system(stripped) =~= without_system(stripped));
    let twice = seq![second] + without_system(seq![first] + stripped);
    assert(twice.drop_first() =~= stripped);
    lemma_without_system_has_none(msgs);
}

/// The live conversation transcript: an ordered message sequence.
#[derive(Debug)]
pub struct Session {
    pub messages: Vec<Message>,
}

impl Session {
    /// The empty transcript every session starts from.
    pub fn new() -> (session: Self)
        ensures
            session.messages.deep_view() == Seq::<MessageView>::empty(),
    {
        let session = Self { messages: Vec::new() };
        proof {
            assert(session.messages.deep_view() =~= Seq::<MessageView>::empty());
        }
        session
    }

    /// Appends one message at the end of the transcript.
    pub fn add_message(&mut self, role: Role, content: String)
        ensures
            final(self).messages.deep_view() == old(self).messages.deep_view().push(
                MessageView { role, content: content@ },
            ),
    {
        let ghost prior = self.messages.deep_view();
        let ghost mv = MessageView { role, content: content@ };
        self.messages.push(Message::new(role, content));
        proof {
            assert(self.messages.deep_view() =~= prior.push(mv));
        }
    }

    /// Empties the transcript unconditionally, any System message included.
    pub fn clear(&mut self)
        ensures
            final(self).messages.deep_view() == Seq::<MessageView>::empty(),
    {
        self.messages.clear();
        proof {
            assert(self.messages.deep_view() =~= Seq::<MessageView>::empty());
        }
    }

    /// Replaces the System message: any prior System message is removed and
    /// the given one is inserted at the front.
    pub fn set_system(&mut self, prompt: Message)
        requires
            prompt@.role == Role::System,
        ensures
            final(self).messages.deep_view() == seq![prompt@] + without_system(
                old(self).messages.deep_view(),
            ),
            system_count(final(self).messages.deep_view()) == 1,
            final(self).messages.deep_view()[0] == prompt@,
    {
        let ghost view = self.messages.deep_view();
        let ghost target = seq![prompt@] + without_system(view);
        let n = self.messages.len();
        let mut result: Vec<Message> = Vec::new();
        let ghost prompt_view = prompt@;
        result.push(prompt);
        proof {
            assert(result.deep_view() =~= seq![prompt_view]);
            assert(without_system(view.take(0)) =~= Seq::<MessageView>::empty());
            assert(result.deep_view() =~= seq![prompt_view] + without_system(view.take(0)));
        }
        let mut i: usize = 0;
        while i < n
            invariant
                i <= n,
                n == self.messages@.len(),
                view == self.messages.deep_view(),
                view.len() == n,
                result.deep_view() == seq![prompt_view] + without_system(view.take(i as int)),
            decreases n - i,
        {
            let msg = &self.messages[i];
            proof {
                assert(view.take(i + 1) =~= view.take(i as int) + seq![view[i as int]]);
                lemma_without_system_append(view.take(i as int), seq![view[i as int]]);
                lemma_without_system_singleton(view[i as int]);
                assert(view[i as int] == msg@);
            }
            if !(matches!(msg.role, Role::System)) {
                let ghost prior = result.deep_view();
                result.push(msg.clone());
                proof {
                    assert(result.deep_view() =~= prior.push(view[i as int]));
                    assert(prior.push(view[i as int]) =~= prior + seq![view[i as int]]);
                    assert((seq![prompt_view] + without_system(view.take(i as int))) + seq![
                        view[i as int],
                    ] =~= seq![prompt_view] + (without_system(view.take(i as int)) + seq![
                        view[i as int],
                    ]));
                }
            } else {
                proof {
                    assert(without_system(view.take(i as int)) + Seq::<MessageView>::empty()
                        =~= without_system(view.take(i as int)));
                }
            }
            i = i + 1;
        }
        proof {
            assert(view.take(n as int) =~= view);
        }
        self.messages = result;
        proof {
            lemma_without_system_has_none(view);
            assert((seq![prompt_view] + without_system(view)).drop_first() =~= without_system(
                view,
            ));
        }
    }

    /// The System message of the transcript, if one is present.
    pub fn system_message(&self) -> (found: Option<&Message>)
        ensures
            match found {
                Some(msg) => first_system(self.messages.deep_view()) == Some(msg@),
                None => first_system(self.messages.deep_view()) is None,
            },
    {
        let ghost view = self.messages.deep_view();
        let n = self.messages.len();
        let mut i: usize = 0;
        proof {
            assert(view.skip(0) =~= view);
        }
        while i < n
            invariant
                i <= n,
                n == self.messages@.len(),
                view == self.messages.deep_view(),
                view.len() == n,
                first_system(view) == first_system(view.skip(i as int)),
            decreases n - i,
        {
            proof {
                assert(view.skip(i as int)[0] == view[i as int]);
                assert(view.skip(i as int).drop_first() =~= view.skip(i + 1));
            }
            if matches!(self.messages[i].role, Role::System) {
                return Some(&self.messages[i]);
            }
            i = i + 1;
        }
        proof {
            assert(view.skip(n as int).len() == 0);
        }
        None
    }
}

/// A failure of the snapshot store.
#[derive(Debug, PartialEq, Eq, Structural, Clone, Copy)]
pub enum SessionError {
    /// A stored snapshot text could not be read back as a transcript.
    Serialize,
    /// No snapshot with the given id exists.
    NotFound,
}

impl SessionError {
    /// A user-readable description of this failure.
    pub fn message(&self) -> (text: String)
        ensures
            self == SessionError::Serialize ==> text@
                == "Failed to serialize or deserialize session."@,
            self == SessionError::NotFound ==> text@ == "Session not found."@,
    {
        match self {
            Self::Serialize => String::from_str("Failed to serialize or deserialize session."),
            Self::NotFound => String::from_str("Session not found."),
        }
    }
}

/// The first index at or after `i` whose entry has the given id, or the
/// table's length if none has.
pub open spec fn find_id(table: Seq<(Seq<char>, Seq<char>)>, id: Seq<char>, i: int) -> int
    decreases table.len() - i,
{
    if i >= table.len() {
        table.len() as int
    } else if i >= 0 && table[i].0 != id {
        find_id(table, id, i + 1)
    } else {
        i
    }
}

pub proof fn lemma_find_id(table: Seq<(Seq<char>, Seq<char>)>, id: Seq<char>, i: int)
    requires
        0 <= i <= table.len(),
    ensures
        i <= find_id(table, id, i) <= table.len(),
        forall|j: int| i <= j < find_id(table, id, i) ==> table[j].0 != id,
        find_id(table, id, i) < table.len() ==> table[find_id(table, id, i)].0 == id,
    decreases table.len() - i,
{
    if i < table.len() && table[i].0 != id {
        lemma_find_id(table, id, i + 1);
    }
}

/// `find_id` is pinned by exhibiting the first matching index directly.
pub proof fn lemma_find_id_pin(table: Seq<(Seq<char>, Seq<char>)>, id: Seq<char>, p: int)
    requires
        0 <= p <= table.len(),
        forall|j: int| 0 <= j < p ==> table[j].0 != id,
        p < table.len() ==> table[p].0 == id,
    ensures
        find_id(table, id, 0) == p,
{
    lemma_find_id(table, id, 0);
}

/// The in-memory store of persisted session snapshots: id and snapshot
/// text pairs, each id present at most once, in first-save order.
#[derive(Debug)]
pub struct SessionStore {
    pub entries: Vec<(String, String)>,
}

impl SessionStore {
    /// The id and snapshot text pairs the store holds, in order.
    pub open spec fn table(&self) -> Seq<(Seq<char>, Seq<char>)> {
        self.entries.deep_view()
    }

    /// The stored ids, in order.
    pub open spec fn ids(&self) -> Seq<Seq<char>> {
        self.table().map_values(|entry: (Seq<char>, Seq<char>)| entry.0)
    }

    /// The snapshot text stored under `id`, if any.
    pub open spec fn lookup(&self, id: Seq<char>) -> Option<Seq<char>> {
        let i = find_id(self.table(), id, 0);
        if i < self.table().len() {
            Some(self.table()[i].1)
        } else {
            None
        }
    }

    /// Whether a snapshot is stored under `id`.
    pub open spec fn contains_id(&self, id: Seq<char>) -> bool {
        self.lookup(id) is Some
    }

    /// Every id is present at most once.
    pub open spec fn wf(&self) -> bool {
        forall|i: int, j: int|
            0 <= i < j < self.table().len() ==> self.table()[i].0 != self.table()[j].0
    }

    /// The empty store.
    pub fn new() -> (store: Self)
        ensures
            store.table() == Seq::<(Seq<char>, Seq<char>)>::empty(),
            store.wf(),
    {
        let store = Self { entries: Vec::new() };
        proof {
            assert(store.table() =~= Seq::<(Seq<char>, Seq<char>)>::empty());
        }
        store
    }

    /// The index of the entry with the given id, or the table's length.
    fn position_of(&self, id: &str) -> (position: usize)
        ensures
            position as int == find_id(self.table(), id@, 0),
    {
        let ghost table = self.table();
        let n = self.entries.len();
        let mut i: usize = 0;
        while i < n
            invariant
                i <= n,
                n == self.entries@.len(),
                table == self.table(),
                table.len() == n,
                forall|j: int| 0 <= j < i ==> table[j].0 != id@,
            decreases n - i,
        {
            proof {
                assert(table[i as int] == self.entries@[i as int].deep_view());
            }
            if str_eq(self.entries[i].0.as_str(), id) {
                proof {
                    lemma_find_id_pin(table, id@, i as int);
                }
                return i;
            }
            i = i + 1;
        }
        proof {
            lemma_find_id_pin(table, id@, n as int);
        }
        n
    }

    /// Stores the transcript's snapshot under `id`, replacing any snapshot
    /// already stored under it.
    pub fn save(&mut self, id: &str, session: &Session)
        requires
            old(self).wf(),
        ensures
            final(self).wf(),
            ({
                let text = snapshot_text(session.messages.deep_view());
                let i = find_id(old(self).table(), id@, 0);
                &&& final(self).table() == if i < old(self).table().len() {
                    old(self).table().update(i, (id@, text))
                } else {
                    old(self).table().push((id@, text))
                }
                &&& final(self).lookup(id@) == Some(text)
            }),
    {
        let ghost old_table = self.table();
        let ghost text = snapshot_text(session.messages.deep_view());
        let snap = snapshot_string(&session.messages);
        let key = String::from_str(id);
        let i = self.position_of(id);
        proof {
            lemma_find_id(old_table, id@, 0);
        }
        if i < self.entries.len() {
            let _ = self.entries.remove(i);
            self.entries.insert(i, (key, snap));
            proof {
                assert(self.table() =~= old_table.update(i as int, (id@, text)));
                assert forall|a: int, b: int|
                    0 <= a < b < self.table().len() implies self.table()[a].0
                    != self.table()[b].0 by {
                    assert(self.table()[a].0 == old_table[a].0);
                    assert(self.table()[b].0 == old_table[b].0);
                }
                lemma_find_id_pin(self.table(), id@, i as int);
            }
        } else {
            self.entries.push((key, snap));
            proof {
                assert(self.table() =~= old_table.push((id@, text)));
                assert forall|a: int, b: int|
                    0 <= a < b < self.table().len() implies self.table()[a].0
                    != self.table()[b].0 by {
                    if b < old_table.len() {
                        assert(self.table()[a].0 == old_table[a].0);
                        assert(self.table()[b].0 == old_table[b].0);
                    } else {
                        assert(self.table()[a].0 == old_table[a].0);
                        assert(self.table()[b].0 == id@);
                    }
                }
                lemma_find_id_pin(self.table(), id@, i as int);
            }
        }
    }

    /// Loads the transcript stored under `id`: `NotFound` without a
    /// snapshot under that id, `Serialize` where the stored text cannot be
    /// read back.
    pub fn load(&self, id: &str) -> (loaded: Result<Session, SessionError>)
        ensures
            match loaded {
                Ok(session) => self.lookup(id@) matches Some(text) && parse_snapshot(text)
                    == Some(session.messages.deep_view()),
                Err(SessionError::NotFound) => self.lookup(id@) is None,
                Err(SessionError::Serialize) => self.lookup(id@) matches Some(text)
                    && parse_snapshot(text) is None,
            },
    {
        let i = self.position_of(id);
        if i >= self.entries.len() {
            return Err(SessionError::NotFound);
        }
        proof {
            assert(self.table()[i as int] == self.entries@[i as int].deep_view());
        }
        match parse_snapshot_str(self.entries[i].1.as_str()) {
            Some(messages) => Ok(Session { messages }),
            None => Err(SessionError::Serialize),
        }
    }

    /// Deletes the snapshot stored under `id`. With no snapshot under that
    /// id the store is left unmodified and `NotFound` is returned.
    pub fn delete(&mut self, id: &str) -> (deleted: Result<(), SessionError>)
        requires
            old(self).wf(),
        ensures
            final(self).wf(),
            old(self).contains_id(id@) ==> deleted is Ok && final(self).table() == old(
                self,
            ).table().remove(find_id(old(self).table(), id@, 0)),
            !old(self).contains_id(id@) ==> deleted == Err::<(), _>(SessionError::NotFound)
                && *final(self) == *old(self),
    {
        let ghost old_table = self.table();
        let i = self.position_of(id);
        proof {
            lemma_find_id(old_table, id@, 0);
        }
        if i < self.entries.len() {
            let _ = self.entries.remove(i);
            proof {
                assert(self.table() =~= old_table.remove(i as int));
                assert forall|a: int, b: int|
                    0 <= a < b < self.table().len() implies self.table()[a].0
                    != self.table()[b].0 by {
                    let pa = if a < i as int {
                        a
                    } else {
                        a + 1
                    };
                    let pb = if b < i as int {
                        b
                    } else {
                        b + 1
                    };
                    assert(self.table()[a].0 == old_table[pa].0);
                    assert(self.table()[b].0 == old_table[pb].0);
                }
            }
            Ok(())
        } else {
            Err(SessionError::NotFound)
        }
    }

    /// The stored ids, in order.
    pub fn list(&self) -> (ids: Vec<String>)
        ensures
            ids.deep_view() == self.ids(),
    {
        let ghost table = self.table();
        let n = self.entries.len();
        let mut ids: Vec<String> = Vec::new();
        let mut i: usize = 0;
        while i < n
            invariant
                i <= n,
                n == self.entries@.len(),
                table == self.table(),
                table.len() == n,
                ids.deep_view() == table.map_values(
                    |entry: (Seq<char>, Seq<char>)| entry.0,
                ).take(i as int),
            decreases n - i,
        {
            let ghost prior = ids.deep_view();
            proof {
                assert(table[i as int] == self.entries@[i as int].deep_view());
            }
            ids.push(self.entries[i].0.clone());
            proof {
                let mapped = table.map_values(|entry: (Seq<char>, Seq<char>)| entry.0);
                assert(ids.deep_view() =~= prior.push(table[i as int].0));
                assert(mapped.take(i + 1) =~= mapped.take(i as int).push(mapped[i as int]));
            }
            i = i + 1;
        }
        proof {
            let mapped = table.map_values(|entry: (Seq<char>, Seq<char>)| entry.0);
            assert(mapped.take(n as int) =~= mapped);
        }
        ids
    }
}

} // verus!
