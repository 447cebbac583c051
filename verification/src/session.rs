//! The session collaborator's contract, as a verified model: a keyed store
//! of message histories with full-replace save, ordered by recency, and
//! the bookkeeping of deleted-file backups. A stored turn is the message
//! as it stood — role, content, any `tool_calls` list, and the tool-call
//! linkage id — so a resumed session is the same structure that was
//! saved. The surrounding persistence (paths, clock, database) stays
//! outside and feeds this model plain values.
use vstd::prelude::*;
use vstd::string::*;

use crate::msg::{Message, MessageView};
use crate::strutil::{push_str_chars, string_from_chars};

verus! {

/// One stored session: its identifier, the stored turns, and when it was
/// created and last updated.
pub struct Session {
    pub id: String,
    pub messages: Vec<Message>,
    pub created_at: String,
    pub updated_at: String,
}

pub ghost struct SessionView {
    pub id: Seq<char>,
    pub messages: Seq<MessageView>,
    pub created_at: Seq<char>,
    pub updated_at: Seq<char>,
}

impl View for Session {
    type V = SessionView;

    open spec fn view(&self) -> SessionView {
        SessionView {
            id: self.id@,
            messages: self.messages.deep_view(),
            created_at: self.created_at@,
            updated_at: self.updated_at@,
        }
    }
}

impl DeepView for Session {
    type V = SessionView;

    open spec fn deep_view(&self) -> SessionView {
        self.view()
    }
}

/// One recorded deletion: the path that was deleted, where its backup
/// went, and when.
pub struct DeletedFile {
    pub original_path: String,
    pub backup_path: String,
    pub deleted_at: String,
}

pub ghost struct DeletedFileView {
    pub original_path: Seq<char>,
    pub backup_path: Seq<char>,
    pub deleted_at: Seq<char>,
}

impl View for DeletedFile {
    type V = DeletedFileView;

    open spec fn view(&self) -> DeletedFileView {
        DeletedFileView {
            original_path: self.original_path@,
            backup_path: self.backup_path@,
            deleted_at: self.deleted_at@,
        }
    }
}

impl DeepView for DeletedFile {
    type V = DeletedFileView;

    open spec fn deep_view(&self) -> DeletedFileView {
        self.view()
    }
}

/// The first session under `id`, scanning in order.
pub open spec fn spec_find_session(ss: Seq<SessionView>, id: Seq<char>) -> Option<SessionView>
    decreases ss.len(),
{
    if ss.len() == 0 {
        None
    } else if ss[0].id == id {
        Some(ss[0])
    } else {
        spec_find_session(ss.drop_first(), id)
    }
}

/// The sessions with the first one under `id` removed.
pub open spec fn spec_remove_session(ss: Seq<SessionView>, id: Seq<char>) -> Seq<SessionView>
    decreases ss.len(),
{
    if ss.len() == 0 {
        Seq::empty()
    } else if ss[0].id == id {
        ss.drop_first()
    } else {
        seq![ss[0]] + spec_remove_session(ss.drop_first(), id)
    }
}

/// Saving is a full replace: the session's stored turns become exactly
/// the given history, its update stamp becomes `now`, its creation stamp
/// survives when the session existed, and the session moves to the
/// most-recent end of the order.
pub open spec fn spec_save(
    ss: Seq<SessionView>,
    id: Seq<char>,
    ms: Seq<MessageView>,
    now: Seq<char>,
) -> Seq<SessionView> {
    spec_remove_session(ss, id).push(
        SessionView {
            id: id,
            messages: ms,
            created_at: match spec_find_session(ss, id) {
                Some(s) => s.created_at,
                None => now,
            },
            updated_at: now,
        },
    )
}

/// What loading a session yields: its stored turns, or nothing for an
/// unknown identifier.
pub open spec fn spec_load(ss: Seq<SessionView>, id: Seq<char>) -> Seq<MessageView> {
    match spec_find_session(ss, id) {
        Some(s) => s.messages,
        None => Seq::empty(),
    }
}

/// No two sessions share an identifier.
pub open spec fn spec_ids_unique(ss: Seq<SessionView>) -> bool {
    forall|i: int, j: int| 0 <= i < j < ss.len() ==> (#[trigger] ss[i]).id != (#[trigger] ss[j]).id
}

/// Scanning past sessions under other identifiers leaves a find alone.
proof fn lemma_find_skip(ss: Seq<SessionView>, id: Seq<char>, i: int)
    requires
        0 <= i <= ss.len(),
        forall|k: int| 0 <= k < i ==> (#[trigger] ss[k]).id != id,
    ensures
        spec_find_session(ss, id) == spec_find_session(ss.skip(i), id),
    decreases i,
{
    if i > 0 {
        assert(ss[0].id != id);
        assert(spec_find_session(ss, id) == spec_find_session(ss.drop_first(), id));
        assert(ss.drop_first().skip(i - 1) =~= ss.skip(i));
        assert forall|k: int| 0 <= k < i - 1 implies (#[trigger] ss.drop_first()[k]).id != id by {
            assert(ss.drop_first()[k] == ss[k + 1]);
        }
        lemma_find_skip(ss.drop_first(), id, i - 1);
    } else {
        assert(ss.skip(0) =~= ss);
    }
}

/// Scanning past sessions under other identifiers leaves a removal's
/// effect on the remainder.
proof fn lemma_remove_skip(ss: Seq<SessionView>, id: Seq<char>, i: int)
    requires
        0 <= i <= ss.len(),
        forall|k: int| 0 <= k < i ==> (#[trigger] ss[k]).id != id,
    ensures
        spec_remove_session(ss, id) == ss.take(i) + spec_remove_session(ss.skip(i), id),
    decreases i,
{
    if i == 0 {
        assert(ss.skip(0) =~= ss);
        assert(ss.take(0) + spec_remove_session(ss, id) =~= spec_remove_session(ss, id));
    } else {
        assert(ss[0].id != id);
        assert forall|k: int| 0 <= k < i - 1 implies (#[trigger] ss.drop_first()[k]).id != id by {
            assert(ss.drop_first()[k] == ss[k + 1]);
        }
        lemma_remove_skip(ss.drop_first(), id, i - 1);
        assert(ss.drop_first().skip(i - 1) =~= ss.skip(i));
        assert(ss.drop_first().take(i - 1) =~= ss.take(i).drop_first());
        assert(seq![ss[0]] + (ss.take(i).drop_first() + spec_remove_session(ss.skip(i), id))
            =~= ss.take(i) + spec_remove_session(ss.skip(i), id));
    }
}

/// After removing `id` from sessions with unique identifiers, no session
/// under `id` remains.
proof fn lemma_remove_clears(ss: Seq<SessionView>, id: Seq<char>)
    requires
        spec_ids_unique(ss),
    ensures
        forall|k: int|
            0 <= k < spec_remove_session(ss, id).len() ==> (#[trigger] spec_remove_session(
                ss,
                id,
            )[k]).id != id,
        spec_remove_session(ss, id).len() >= ss.len() - 1,
        spec_ids_unique(spec_remove_session(ss, id)),
    decreases ss.len(),
{
    if ss.len() > 0 {
        if ss[0].id == id {
            assert(spec_remove_session(ss, id) == ss.drop_first());
            assert forall|k: int| 0 <= k < ss.drop_first().len() implies (
            #[trigger] ss.drop_first()[k]).id != id by {
                assert(ss.drop_first()[k] == ss[k + 1]);
                assert(ss[0].id != ss[k + 1].id);
            }
            assert forall|a: int, b: int|
                0 <= a < b < ss.drop_first().len() implies (#[trigger] ss.drop_first()[a]).id != (
            #[trigger] ss.drop_first()[b]).id by {
                assert(ss.drop_first()[a] == ss[a + 1]);
                assert(ss.drop_first()[b] == ss[b + 1]);
            }
        } else {
            assert forall|a: int, b: int|
                0 <= a < b < ss.drop_first().len() implies (#[trigger] ss.drop_first()[a]).id != (
            #[trigger] ss.drop_first()[b]).id by {
                assert(ss.drop_first()[a] == ss[a + 1]);
                assert(ss.drop_first()[b] == ss[b + 1]);
            }
            lemma_remove_clears(ss.drop_first(), id);
            let r = seq![ss[0]] + spec_remove_session(ss.drop_first(), id);
            assert(spec_remove_session(ss, id) == r);
            assert forall|k: int| 0 <= k < r.len() implies (#[trigger] r[k]).id != id by {
                if k > 0 {
                    assert(r[k] == spec_remove_session(ss.drop_first(), id)[k - 1]);
                }
            }
            assert forall|a: int, b: int| 0 <= a < b < r.len() implies (#[trigger] r[a]).id != (
            #[trigger] r[b]).id by {
                if a == 0 {
                    lemma_remove_member(ss.drop_first(), id, b - 1);
                } else {
                    assert(r[a] == spec_remove_session(ss.drop_first(), id)[a - 1]);
                    assert(r[b] == spec_remove_session(ss.drop_first(), id)[b - 1]);
                }
            }
        }
    }
}

/// Every session that survives a removal stood somewhere in the order
/// it was removed from.
proof fn lemma_remove_member(ss: Seq<SessionView>, id: Seq<char>, k: int)
    requires
        0 <= k < spec_remove_session(ss, id).len(),
    ensures
        exists|j: int|
            0 <= j < ss.len() && ss[j] == spec_remove_session(ss, id)[k] && (k == 0 ==> j <= 1)
                && j >= k,
    decreases ss.len(),
{
    if ss.len() > 0 {
        if ss[0].id == id {
            assert(spec_remove_session(ss, id)[k] == ss[k + 1]);
        } else if k == 0 {
            assert(spec_remove_session(ss, id)[0] == ss[0]);
        } else {
            lemma_remove_member(ss.drop_first(), id, k - 1);
            let j0 = choose|j: int|
                0 <= j < ss.drop_first().len() && ss.drop_first()[j] == spec_remove_session(
                    ss.drop_first(),
                    id,
                )[k - 1] && j >= k - 1;
            assert(ss.drop_first()[j0] == ss[j0 + 1]);
            assert(spec_remove_session(ss, id)[k] == spec_remove_session(ss.drop_first(), id)[k
                - 1]);
            assert(ss[j0 + 1] == spec_remove_session(ss, id)[k] && j0 + 1 >= k);
        }
    }
}

/// Law: a saved session loads back as exactly the sequence that was
/// saved — order, roles, contents, tool-call lists and tool linkage all
/// preserved.
pub proof fn lemma_save_load_round_trip(
    ss: Seq<SessionView>,
    id: Seq<char>,
    ms: Seq<MessageView>,
    now: Seq<char>,
)
    requires
        spec_ids_unique(ss),
    ensures
        spec_load(spec_save(ss, id, ms, now), id) == ms,
{
    let removed = spec_remove_session(ss, id);
    lemma_remove_clears(ss, id);
    let saved = spec_save(ss, id, ms, now);
    assert(saved == removed.push(saved[saved.len() - 1]));
    assert forall|k: int| 0 <= k < removed.len() implies (#[trigger] saved[k]).id != id by {
        assert(saved[k] == removed[k]);
    }
    lemma_find_skip(saved, id, removed.len() as int);
    assert(saved.skip(removed.len() as int) =~= seq![saved[saved.len() - 1]]);
    assert(spec_find_session(saved, id) == Some(saved[saved.len() - 1]));
}

/// Whether `a` comes at or before `b` in character order — the order
/// timestamp texts of a fixed shape compare in.
pub open spec fn spec_text_le(a: Seq<char>, b: Seq<char>) -> bool
    decreases a.len(),
{
    if a.len() == 0 {
        true
    } else if b.len() == 0 {
        false
    } else if (a[0] as u32) < (b[0] as u32) {
        true
    } else if (a[0] as u32) > (b[0] as u32) {
        false
    } else {
        spec_text_le(a.drop_first(), b.drop_first())
    }
}

/// Character order is reflexive.
proof fn lemma_text_le_refl(a: Seq<char>)
    ensures
        spec_text_le(a, a),
    decreases a.len(),
{
    if a.len() > 0 {
        lemma_text_le_refl(a.drop_first());
    }
}

/// Every stored update stamp is at or before `now`.
pub open spec fn spec_stamps_bounded(ss: Seq<SessionView>, now: Seq<char>) -> bool {
    forall|k: int| 0 <= k < ss.len() ==> spec_text_le((#[trigger] ss[k]).updated_at, now)
}

/// Law: when the clock never runs backward — the stamp of each save
/// bounds every stamp already stored — the most recently saved session,
/// the one `last` returns, also carries the maximal `updated_at` of the
/// whole store.
pub proof fn lemma_last_has_latest_stamp(
    ss: Seq<SessionView>,
    id: Seq<char>,
    ms: Seq<MessageView>,
    now: Seq<char>,
)
    requires
        spec_stamps_bounded(ss, now),
    ensures
        spec_save(ss, id, ms, now).last().updated_at == now,
        forall|k: int|
            0 <= k < spec_save(ss, id, ms, now).len() ==> spec_text_le(
                (#[trigger] spec_save(ss, id, ms, now)[k]).updated_at,
                now,
            ),
{
    let saved = spec_save(ss, id, ms, now);
    let removed = spec_remove_session(ss, id);
    lemma_text_le_refl(now);
    assert forall|k: int| 0 <= k < saved.len() implies spec_text_le(
        (#[trigger] saved[k]).updated_at,
        now,
    ) by {
        if k < removed.len() {
            assert(saved[k] == removed[k]);
            lemma_remove_member(ss, id, k);
            let j = choose|j: int|
                0 <= j < ss.len() && ss[j] == removed[k] && (k == 0 ==> j <= 1) && j >= k;
            assert(spec_text_le(ss[j].updated_at, now));
        } else {
            assert(saved[k].updated_at == now);
        }
    }
}

/// The session store: sessions in recency order (most recently saved
/// last, identifiers unique) and the recorded deletions in the order they
/// happened.
pub struct SessionStore {
    pub sessions: Vec<Session>,
    pub deleted: Vec<DeletedFile>,
}

impl SessionStore {
    pub open spec fn wf(&self) -> bool {
        spec_ids_unique(self.sessions.deep_view())
    }

    /// An empty store.
    pub fn new() -> (r: SessionStore)
        ensures
            r.sessions.deep_view() =~= Seq::<SessionView>::empty(),
            r.deleted.deep_view() =~= Seq::<DeletedFileView>::empty(),
            r.wf(),
    {
        SessionStore { sessions: Vec::new(), deleted: Vec::new() }
    }

    /// The identifier of the most recently saved session, if any.
    pub fn last(&self) -> (r: Option<String>)
        ensures
            match r {
                Some(id) => self.sessions.deep_view().len() > 0 && id@ == self.sessions.deep_view().last().id,
                None => self.sessions.deep_view().len() == 0,
            },
    {
        let n = self.sessions.len();
        if n == 0 {
            None
        } else {
            Some(self.sessions[n - 1].id.clone())
        }
    }

    /// The stored turns of the session under `id`, empty for an unknown
    /// identifier.
    pub fn load(&self, id: &String) -> (r: Vec<Message>)
        ensures
            r.deep_view() == spec_load(self.sessions.deep_view(), id@),
    {
        let ghost ss = self.sessions.deep_view();
        let n = self.sessions.len();
        let mut i: usize = 0;
        while i < n
            invariant
                n == self.sessions@.len(),
                ss == self.sessions.deep_view(),
                i <= n,
                forall|k: int| 0 <= k < i ==> (#[trigger] ss[k]).id != id@,
            decreases n - i,
        {
            if crate::strutil::str_eq(self.sessions[i].id.as_str(), id.as_str()) {
                proof {
                    lemma_find_skip(ss, id@, i as int);
                    assert(ss.skip(i as int)[0] == ss[i as int]);
                }
                let out = duplicate_messages(&self.sessions[i].messages);
                return out;
            }
            i = i + 1;
        }
        proof {
            lemma_find_skip(ss, id@, n as int);
            assert(ss.skip(n as int) =~= Seq::<SessionView>::empty());
        }
        Vec::new()
    }

    /// Save `messages` under `id`: a full replace of the session's stored
    /// turns with exactly the given history, stamped with `now`, moving
    /// the session to the most recent end.
    pub fn save(&mut self, id: &String, messages: &Vec<Message>, now: String)
        requires
            old(self).wf(),
        ensures
            final(self).sessions.deep_view() == spec_save(
                old(self).sessions.deep_view(),
                id@,
                messages.deep_view(),
                now@,
            ),
            final(self).deleted == old(self).deleted,
            final(self).wf(),
    {
        let ghost ss = self.sessions.deep_view();
        let stored = duplicate_messages(messages);
        match find_session_index(&self.sessions, id) {
            Some(i) => {
                proof {
                    lemma_find_skip(ss, id@, i as int);
                    assert(ss.skip(i as int)[0] == ss[i as int]);
                    lemma_remove_skip(ss, id@, i as int);
                    assert(ss.skip(i as int).drop_first() =~= ss.skip(i as int + 1));
                }
                let created_at = self.sessions[i].created_at.clone();
                let _removed = self.sessions.remove(i);
                proof {
                    assert(self.sessions.deep_view() =~= ss.take(i as int) + ss.skip(i as int + 1));
                    assert(spec_remove_session(ss.skip(i as int), id@) == ss.skip(
                        i as int,
                    ).drop_first());
                    assert(self.sessions.deep_view() =~= spec_remove_session(ss, id@));
                    assert(spec_find_session(ss, id@) == Some(ss[i as int]));
                }
                let entry = Session {
                    id: id.clone(),
                    messages: stored,
                    created_at,
                    updated_at: now,
                };
                self.sessions.push(entry);
                proof {
                    assert(self.sessions.deep_view() =~= spec_save(
                        ss,
                        id@,
                        messages.deep_view(),
                        now@,
                    ));
                    finish_save_proof(
                        ss,
                        id@,
                        messages.deep_view(),
                        now@,
                        self.sessions.deep_view(),
                    );
                }
            },
            None => {
                proof {
                    let n = ss.len() as int;
                    lemma_find_skip(ss, id@, n);
                    lemma_remove_skip(ss, id@, n);
                    assert(ss.skip(n) =~= Seq::<SessionView>::empty());
                    assert(ss.take(n) =~= ss);
                    assert(spec_remove_session(Seq::<SessionView>::empty(), id@) =~= Seq::<
                        SessionView,
                    >::empty());
                    assert(spec_remove_session(ss, id@) =~= ss);
                    assert(spec_find_session(ss, id@) is None);
                }
                let entry = Session {
                    id: id.clone(),
                    messages: stored,
                    created_at: now.clone(),
                    updated_at: now,
                };
                self.sessions.push(entry);
                proof {
                    assert(self.sessions.deep_view() =~= spec_save(
                        ss,
                        id@,
                        messages.deep_view(),
                        now@,
                    ));
                    finish_save_proof(
                        ss,
                        id@,
                        messages.deep_view(),
                        now@,
                        self.sessions.deep_view(),
                    );
                }
            },
        }
    }

    /// Record that `original_path` was deleted and backed up at
    /// `backup_path` at time `now`.
    pub fn record_deleted(&mut self, original_path: &str, backup_path: &str, now: String)
        ensures
            final(self).deleted.deep_view() == old(self).deleted.deep_view().push(
                DeletedFileView {
                    original_path: original_path@,
                    backup_path: backup_path@,
                    deleted_at: now@,
                },
            ),
            final(self).sessions == old(self).sessions,
    {
        let entry = DeletedFile {
            original_path: str_to_string(original_path),
            backup_path: str_to_string(backup_path),
            deleted_at: now,
        };
        self.deleted.push(entry);
        proof {
            assert(self.deleted.deep_view() =~= old(self).deleted.deep_view().push(
                DeletedFileView {
                    original_path: original_path@,
                    backup_path: backup_path@,
                    deleted_at: now@,
                },
            ));
        }
    }
}

/// The position of the first session under `id`, if any.
fn find_session_index(sessions: &Vec<Session>, id: &String) -> (r: Option<usize>)
    ensures
        match r {
            Some(i) => i < sessions.deep_view().len() && sessions.deep_view()[i as int].id == id@
                && forall|k: int|
                0 <= k < i ==> (#[trigger] sessions.deep_view()[k]).id != id@,
            None => forall|k: int|
                0 <= k < sessions.deep_view().len() ==> (#[trigger] sessions.deep_view()[k]).id
                    != id@,
        },
{
    let ghost ss = sessions.deep_view();
    let n = sessions.len();
    let mut i: usize = 0;
    while i < n
        invariant
            n == sessions@.len(),
            ss == sessions.deep_view(),
            i <= n,
            forall|k: int| 0 <= k < i ==> (#[trigger] ss[k]).id != id@,
        decreases n - i,
    {
        if crate::strutil::str_eq(sessions[i].id.as_str(), id.as_str()) {
            proof {
                assert(ss[i as int] == sessions@[i as int]@);
            }
            return Some(i);
        }
        i = i + 1;
    }
    None
}

/// The last recorded deletion of `path`, scanning from the newest end.
pub open spec fn spec_last_deleted(ds: Seq<DeletedFileView>, path: Seq<char>) -> Option<
    DeletedFileView,
>
    decreases ds.len(),
{
    if ds.len() == 0 {
        None
    } else if ds.last().original_path == path {
        Some(ds.last())
    } else {
        spec_last_deleted(ds.drop_last(), path)
    }
}

/// The recorded deletions with the last one of `path` taken out.
pub open spec fn spec_pop_deleted(ds: Seq<DeletedFileView>, path: Seq<char>) -> Seq<
    DeletedFileView,
>
    decreases ds.len(),
{
    if ds.len() == 0 {
        Seq::empty()
    } else if ds.last().original_path == path {
        ds.drop_last()
    } else {
        spec_pop_deleted(ds.drop_last(), path).push(ds.last())
    }
}

/// Scanning back past deletions of other paths leaves both the found
/// record and the popped order alone.
proof fn lemma_deleted_skip_back(ds: Seq<DeletedFileView>, path: Seq<char>, i: int)
    requires
        0 <= i <= ds.len(),
        forall|k: int| i <= k < ds.len() ==> (#[trigger] ds[k]).original_path != path,
    ensures
        spec_last_deleted(ds, path) == spec_last_deleted(ds.take(i), path),
        spec_pop_deleted(ds, path) == spec_pop_deleted(ds.take(i), path) + ds.skip(i),
    decreases ds.len() - i,
{
    if i == ds.len() {
        assert(ds.take(i) =~= ds);
        assert(ds.skip(i) =~= Seq::<DeletedFileView>::empty());
        assert(spec_pop_deleted(ds, path) + ds.skip(i) =~= spec_pop_deleted(ds, path));
    } else {
        assert(ds.last().original_path != path);
        lemma_deleted_skip_back(ds.drop_last(), path, i);
        assert(ds.drop_last().take(i) =~= ds.take(i));
        assert(ds.drop_last().skip(i) =~= ds.skip(i).drop_last());
        assert(spec_pop_deleted(ds, path) == spec_pop_deleted(ds.drop_last(), path).push(
            ds.last(),
        ));
        assert((spec_pop_deleted(ds.take(i), path) + ds.skip(i).drop_last()).push(ds.last())
            =~= spec_pop_deleted(ds.take(i), path) + ds.skip(i));
    }
}

impl SessionStore {
    /// Take the latest recorded deletion of `original_path` out of the
    /// record and return its backup path, or nothing when no deletion of
    /// that path is on record.
    pub fn pop_latest_deleted(&mut self, original_path: &str) -> (r: Option<String>)
        ensures
            final(self).sessions == old(self).sessions,
            match r {
                Some(b) => {
                    &&& spec_last_deleted(old(self).deleted.deep_view(), original_path@) is Some
                    &&& b@ == spec_last_deleted(
                        old(self).deleted.deep_view(),
                        original_path@,
                    )->0.backup_path
                    &&& final(self).deleted.deep_view() == spec_pop_deleted(
                        old(self).deleted.deep_view(),
                        original_path@,
                    )
                },
                None => {
                    &&& spec_last_deleted(old(self).deleted.deep_view(), original_path@) is None
                    &&& final(self).deleted == old(self).deleted
                },
            },
    {
        let ghost ds = self.deleted.deep_view();
        let n = self.deleted.len();
        let mut i: usize = n;
        while i > 0
            invariant
                self.sessions == old(self).sessions,
                self.deleted == old(self).deleted,
                n == self.deleted@.len(),
                ds == self.deleted.deep_view(),
                ds == old(self).deleted.deep_view(),
                i <= n,
                forall|k: int| i <= k < n ==> (#[trigger] ds[k]).original_path != original_path@,
            decreases i,
        {
            i = i - 1;
            if crate::strutil::str_eq(
                self.deleted[i].original_path.as_str(),
                original_path,
            ) {
                proof {
                    lemma_deleted_skip_back(ds, original_path@, i as int + 1);
                    assert(ds.take(i as int + 1).last() == ds[i as int]);
                    assert(ds.take(i as int + 1).drop_last() =~= ds.take(i as int));
                    assert(spec_last_deleted(ds, original_path@) == Some(ds[i as int]));
                    assert(spec_pop_deleted(ds.take(i as int + 1), original_path@) == ds.take(
                        i as int,
                    ));
                }
                let backup = self.deleted[i].backup_path.clone();
                let _removed = self.deleted.remove(i);
                proof {
                    assert(self.deleted.deep_view() =~= ds.take(i as int) + ds.skip(i as int + 1));
                    assert(spec_pop_deleted(ds, original_path@) == ds.take(i as int) + ds.skip(
                        i as int + 1,
                    ));
                }
                return Some(backup);
            }
            proof {
                assert(ds[i as int] == self.deleted@[i as int]@);
            }
        }
        proof {
            lemma_deleted_skip_back(ds, original_path@, 0);
            assert(ds.take(0) =~= Seq::<DeletedFileView>::empty());
        }
        None
    }

    /// The directory deleted-file backups live under, inside the data
    /// directory.
    pub fn backups_dir(data_dir: &str) -> (r: String)
        ensures
            r@ == data_dir@ + "/undelete"@,
    {
        let mut out: Vec<char> = Vec::new();
        push_str_chars(&mut out, data_dir);
        push_str_chars(&mut out, "/undelete");
        string_from_chars(&out)
    }

    /// The session database's path, inside the data directory.
    pub fn db_path(data_dir: &str) -> (r: String)
        ensures
            r@ == data_dir@ + "/sessions.db"@,
    {
        let mut out: Vec<char> = Vec::new();
        push_str_chars(&mut out, data_dir);
        push_str_chars(&mut out, "/sessions.db");
        string_from_chars(&out)
    }

    /// The most recent `limit` recorded deletions, newest first, each as
    /// the deleted path and the time of its deletion.
    pub fn list_deleted(&self, limit: usize) -> (r: Vec<(String, String)>)
        ensures
            r@.len() == if limit < self.deleted.deep_view().len() {
                limit as int
            } else {
                self.deleted.deep_view().len() as int
            },
            forall|k: int|
                0 <= k < r@.len() ==> (#[trigger] r@[k]).0@ == self.deleted.deep_view()[
                    self.deleted.deep_view().len() - 1 - k
                ].original_path && r@[k].1@ == self.deleted.deep_view()[
                    self.deleted.deep_view().len() - 1 - k
                ].deleted_at,
    {
        let ghost ds = self.deleted.deep_view();
        let n = self.deleted.len();
        let count = if limit < n {
            limit
        } else {
            n
        };
        let mut out: Vec<(String, String)> = Vec::new();
        let mut k: usize = 0;
        while k < count
            invariant
                n == self.deleted@.len(),
                ds == self.deleted.deep_view(),
                count <= n,
                k <= count,
                out@.len() == k,
                forall|j: int|
                    0 <= j < k ==> (#[trigger] out@[j]).0@ == ds[n - 1 - j].original_path && out@[
                        j
                    ].1@ == ds[n - 1 - j].deleted_at,
            decreases count - k,
        {
            let d = &self.deleted[n - 1 - k];
            out.push((d.original_path.clone(), d.deleted_at.clone()));
            proof {
                assert(ds[n - 1 - k as int] == self.deleted@[n - 1 - k as int]@);
            }
            k = k + 1;
        }
        out
    }
}

/// A `String` holding the characters of `s`.
fn str_to_string(s: &str) -> (r: String)
    ensures
        r@ == s@,
{
    String::from_str(s)
}

/// An exact copy of a message history.
pub fn duplicate_messages(ms: &Vec<Message>) -> (r: Vec<Message>)
    ensures
        r.deep_view() == ms.deep_view(),
{
    let mut out: Vec<Message> = Vec::new();
    let mut i: usize = 0;
    while i < ms.len()
        invariant
            i <= ms.len(),
            out@.len() == i,
            forall|j: int| 0 <= j < i ==> out@[j]@ == ms@[j]@,
        decreases ms.len() - i,
    {
        out.push(crate::msg::duplicate_message(&ms[i]));
        i = i + 1;
    }
    proof {
        assert forall|j: int| 0 <= j < ms@.len() implies out.deep_view()[j] == ms.deep_view()[j] by {
            assert(out@[j]@ == ms@[j]@);
        }
        assert(out.deep_view() =~= ms.deep_view());
    }
    out
}

/// The pushed entry completes a save: wrap up both postconditions.
proof fn finish_save_proof(
    ss: Seq<SessionView>,
    id: Seq<char>,
    ms: Seq<MessageView>,
    now: Seq<char>,
    result: Seq<SessionView>,
)
    requires
        spec_ids_unique(ss),
        result =~= spec_save(ss, id, ms, now),
    ensures
        result == spec_save(ss, id, ms, now),
        spec_ids_unique(result),
{
    lemma_remove_clears(ss, id);
    let removed = spec_remove_session(ss, id);
    let saved = spec_save(ss, id, ms, now);
    assert forall|a: int, b: int| 0 <= a < b < saved.len() implies (#[trigger] saved[a]).id != (
    #[trigger] saved[b]).id by {
        if b < removed.len() {
            assert(saved[a] == removed[a]);
            assert(saved[b] == removed[b]);
        } else {
            assert(saved[a] == removed[a]);
            assert(saved[b].id == id);
        }
    }
}

} // verus!
