//! Reminder rounds. Each round first retries clearing the reminders of notes
//! whose notification was shown but whose reminder could not be cleared (the
//! pending ones), then notifies the due notes that are not pending and clears
//! their reminders. A pending note is never notified again; it leaves the
//! pending set once its reminder is cleared.
use vstd::prelude::*;
use rusqlite::Connection;
use crate::db::{cleared, failed_statement, in_transaction, same_transaction, stored_notes, stored_settings};
use crate::notes::{shows, Note, StoredNote};
use crate::store::{cleared_at_some_time, clear_note_reminder, is_clock_text, outside_failure};
use crate::text::{same_text, views};

verus! {

/// The ids of notes whose notification was shown but whose reminder is not
/// cleared yet.
pub struct ReminderState {
    pending: Vec<String>,
}

impl ReminderState {
    /// The pending ids.
    pub closed spec fn pending_ids(self) -> Set<Seq<char>> {
        views(self.pending@).to_set()
    }

    /// Each pending id is held once.
    #[verifier::type_invariant]
    closed spec fn wf(self) -> bool {
        views(self.pending@).no_duplicates()
    }

    /// No pending ids.
    pub fn new() -> (s: Self)
        ensures
            s.pending_ids() == Set::<Seq<char>>::empty(),
    {
        let s = ReminderState { pending: Vec::new() };
        assert(views(s.pending@).to_set() =~= Set::<Seq<char>>::empty());
        s
    }

    /// Whether an id is pending.
    pub fn is_pending(&self, id: &str) -> (r: bool)
        ensures
            r == self.pending_ids().contains(id@),
    {
        let mut i: usize = 0;
        while i < self.pending.len()
            invariant
                i <= self.pending@.len(),
                forall|k: int| 0 <= k < i ==> self.pending@[k]@ != id@,
            decreases self.pending@.len() - i,
        {
            if same_text(self.pending[i].as_str(), id) {
                assert(views(self.pending@)[i as int] == id@);
                return true;
            }
            i = i + 1;
        }
        assert(!views(self.pending@).contains(id@)) by {
            if views(self.pending@).contains(id@) {
                let k = choose|k: int| 0 <= k < views(self.pending@).len() && views(self.pending@)[k] == id@;
                assert(self.pending@[k]@ == id@);
            }
        }
        false
    }

    /// The pending ids, in the order they became pending.
    pub fn pending_list(&self) -> (r: Vec<String>)
        ensures
            views(r@).to_set() == self.pending_ids(),
            views(r@).no_duplicates(),
    {
        proof {
            use_type_invariant(self);
        }
        let mut r: Vec<String> = Vec::new();
        let mut i: usize = 0;
        while i < self.pending.len()
            invariant
                i <= self.pending@.len(),
                views(r@) == views(self.pending@).take(i as int),
            decreases self.pending@.len() - i,
        {
            let ghost before = views(r@);
            r.push(self.pending[i].clone());
            assert(views(r@) =~= before.push(self.pending@[i as int]@));
            assert(views(self.pending@).take(i + 1) =~= views(self.pending@).take(i as int).push(
                self.pending@[i as int]@,
            ));
            i = i + 1;
        }
        assert(views(self.pending@).take(self.pending@.len() as int) =~= views(self.pending@));
        r
    }

    fn insert(&mut self, id: &str)
        ensures
            final(self).pending_ids() == old(self).pending_ids().insert(id@),
    {
        proof {
            use_type_invariant(&*self);
        }
        if self.is_pending(id) {
            assert(self.pending_ids().insert(id@) =~= self.pending_ids());
            return;
        }
        let ghost before = views(self.pending@);
        let ghost old_ids = self.pending_ids();
        let mut p: Vec<String> = Vec::new();
        std::mem::swap(&mut p, &mut self.pending);
        p.push(String::from_str(id));
        proof {
            assert(views(p@) =~= before.push(id@));
            assert(!before.contains(id@));
            assert(views(p@).no_duplicates()) by {
                assert forall|a: int, b: int|
                    0 <= a < b < views(p@).len() implies views(p@)[a] != views(p@)[b] by {
                    if b == before.len() {
                        assert(before[a] != id@);
                    }
                }
            }
            assert(before.push(id@) =~= before + seq![id@]);
            Seq::<Seq<char>>::lemma_to_set_insert_commutes(before, id@);
            assert(views(p@).to_set() =~= old_ids.insert(id@));
        }
        self.pending = p;
    }

    fn remove(&mut self, id: &str)
        ensures
            final(self).pending_ids() == old(self).pending_ids().remove(id@),
    {
        proof {
            use_type_invariant(&*self);
        }
        let ghost old_ids = self.pending_ids();
        let mut p: Vec<String> = Vec::new();
        std::mem::swap(&mut p, &mut self.pending);
        let ghost before = views(p@);
        let mut i: usize = 0;
        while i < p.len()
            invariant
                i <= p@.len(),
                views(p@) == before,
                before.no_duplicates(),
                old_ids == before.to_set(),
                old_ids == old(self).pending_ids(),
                forall|k: int| 0 <= k < i ==> p@[k]@ != id@,
            decreases p@.len() - i,
        {
            if same_text(p[i].as_str(), id) {
                p.remove(i);
                proof {
                    assert(views(p@) =~= before.remove(i as int));
                    assert(before[i as int] == id@);
                    assert forall|a: int, b: int|
                        0 <= a < b < views(p@).len() implies views(p@)[a] != views(p@)[b] by {
                        let a2 = if a < i { a } else { a + 1 };
                        let b2 = if b < i { b } else { b + 1 };
                        assert(views(p@)[a] == before[a2]);
                        assert(views(p@)[b] == before[b2]);
                    }
                    assert forall|x: Seq<char>| views(p@).to_set().contains(x) <==> old_ids.remove(id@).contains(
                        x,
                    ) by {
                        if views(p@).contains(x) {
                            let k = choose|k: int| 0 <= k < views(p@).len() && views(p@)[k] == x;
                            let k2 = if k < i { k } else { k + 1 };
                            assert(before[k2] == x);
                            assert(k2 != i);
                            assert(before[k2] != before[i as int]);
                            assert(before.contains(x));
                        }
                        if before.contains(x) && x != id@ {
                            let k = choose|k: int| 0 <= k < before.len() && before[k] == x;
                            assert(k != i);
                            let k2 = if k < i { k } else { k - 1 };
                            assert(views(p@)[k2] == x);
                        }
                    }
                    assert(views(p@).to_set() =~= old_ids.remove(id@));
                }
                self.pending = p;
                return;
            }
            i = i + 1;
        }
        proof {
            assert(!before.contains(id@)) by {
                if before.contains(id@) {
                    let k = choose|k: int| 0 <= k < before.len() && before[k] == id@;
                    assert(p@[k]@ == id@);
                }
            }
            assert(old_ids.remove(id@) =~= old_ids);
        }
        self.pending = p;
    }
}

/// What retrying the pending clears did: the notes whose reminder is now
/// cleared, and for the others the id and the error.
pub struct RetryOutcome {
    pub cleared: Vec<Note>,
    pub failed: Vec<(String, String)>,
}

/// The ids of the notes whose reminder a retry cleared.
pub open spec fn cleared_ids(v: Seq<Note>) -> Set<Seq<char>> {
    v.map_values(|n: Note| n.id@).to_set()
}

/// The ids whose reminder a retry could not clear.
pub open spec fn failed_ids(v: Seq<(String, String)>) -> Set<Seq<char>> {
    v.map_values(|f: (String, String)| f.0@).to_set()
}

/// What a retry did to the notes: each cleared note lost its reminder at
/// its update time and shows as stored; a note whose clear failed is as it
/// was, or lost its reminder when only reading it back failed; every other
/// note is as it was, and no note comes or goes.
pub open spec fn retry_effect(
    before: Map<Seq<char>, StoredNote>,
    after: Map<Seq<char>, StoredNote>,
    done: Seq<Note>,
    failed: Set<Seq<char>>,
) -> bool {
    &&& after.dom() == before.dom()
    &&& forall|i: int|
        0 <= i < done.len() ==> {
            let id = (#[trigger] done[i]).id@;
            &&& before.contains_key(id)
            &&& after[id] == cleared(before[id], done[i].updated_at@)
            &&& shows(done[i], id, after[id])
        }
    &&& forall|k: Seq<char>|
        #![trigger after[k]]
        after.contains_key(k) && !cleared_ids(done).contains(k) && !failed.contains(k) ==> after[k] == before[k]
    &&& forall|k: Seq<char>|
        #![trigger after[k]]
        after.contains_key(k) && failed.contains(k) ==> after[k] == before[k] || exists|t: Seq<char>|
            after[k] == cleared(before[k], t)
}

/// Whether the error of a failed clear fits the note as it was: for a note
/// with a reminder the error comes from outside (SQLite or the clock);
/// otherwise it says that the reminder is already cleared or the note is
/// gone, or comes from outside.
pub open spec fn failure_fits(before: Map<Seq<char>, StoredNote>, f: (String, String)) -> bool {
    if before.contains_key(f.0@) && before[f.0@].4 is Some {
        outside_failure(f.1@)
    } else {
        f.1@ == "Reminder already cleared or note not found"@ || outside_failure(f.1@)
    }
}

/// Appending an id to a list adds it to the set of its ids.
proof fn lemma_push_to_set(v: Seq<Seq<char>>, x: Seq<char>)
    ensures
        v.push(x).to_set() == v.to_set().insert(x),
{
    assert(v.push(x) =~= v + seq![x]);
    Seq::<Seq<char>>::lemma_to_set_insert_commutes(v, x);
}

/// Taking the next id of a list without repeats moves it from the ids still
/// to come to the ids already seen, where it was not before.
proof fn lemma_next_id(all: Seq<Seq<char>>, i: int)
    requires
        all.no_duplicates(),
        0 <= i < all.len(),
    ensures
        all.skip(i).to_set() == all.skip(i + 1).to_set().insert(all[i]),
        !all.skip(i + 1).to_set().contains(all[i]),
        all.take(i + 1).to_set() == all.take(i).to_set().insert(all[i]),
        !all.take(i).to_set().contains(all[i]),
{
    let x = all[i];
    let rest = all.skip(i);
    let rest1 = all.skip(i + 1);
    assert forall|y: Seq<char>| rest.to_set().contains(y) <==> rest1.to_set().insert(x).contains(y) by {
        if rest.contains(y) {
            let k = choose|k: int| 0 <= k < rest.len() && rest[k] == y;
            if k > 0 {
                assert(rest1[k - 1] == y);
            }
        }
        if rest1.contains(y) {
            let k = choose|k: int| 0 <= k < rest1.len() && rest1[k] == y;
            assert(rest[k + 1] == y);
        }
        if y == x {
            assert(rest[0] == x);
        }
    }
    assert(rest.to_set() =~= rest1.to_set().insert(x));
    assert(!rest1.contains(x)) by {
        if rest1.contains(x) {
            let k = choose|k: int| 0 <= k < rest1.len() && rest1[k] == x;
            assert(all[i + 1 + k] == all[i]);
        }
    }
    let head = all.take(i);
    assert(!head.contains(x)) by {
        if head.contains(x) {
            let k = choose|k: int| 0 <= k < head.len() && head[k] == x;
            assert(all[k] == all[i]);
        }
    }
    assert(all.take(i + 1) =~= head.push(x));
    lemma_push_to_set(head, x);
}

/// A clear that succeeded for an id not handled yet.
proof fn lemma_retry_cleared(
    before: Map<Seq<char>, StoredNote>,
    cur: Map<Seq<char>, StoredNote>,
    done: Seq<Note>,
    failed: Set<Seq<char>>,
    note: Note,
)
    requires
        retry_effect(before, cur, done, failed),
        !cleared_ids(done).contains(note.id@),
        !failed.contains(note.id@),
        cur.contains_key(note.id@),
        shows(note, note.id@, cur.insert(note.id@, cleared(cur[note.id@], note.updated_at@))[note.id@]),
    ensures
        retry_effect(before, cur.insert(note.id@, cleared(cur[note.id@], note.updated_at@)), done.push(note), failed),
        cleared_ids(done.push(note)) == cleared_ids(done).insert(note.id@),
{
    let x = note.id@;
    let after = cur.insert(x, cleared(cur[x], note.updated_at@));
    let ids = done.map_values(|n: Note| n.id@);
    assert(done.push(note).map_values(|n: Note| n.id@) =~= ids.push(x));
    lemma_push_to_set(ids, x);
    assert(after.dom() =~= cur.dom());
    let d = done.push(note);
    assert forall|i: int| 0 <= i < d.len() implies {
        let id = (#[trigger] d[i]).id@;
        &&& before.contains_key(id)
        &&& after[id] == cleared(before[id], d[i].updated_at@)
        &&& shows(d[i], id, after[id])
    } by {
        if i < done.len() {
            assert(d[i] == done[i]);
            assert(ids[i] == done[i].id@);
            assert(cleared_ids(done).contains(done[i].id@));
        }
    }
}

/// A clear that failed for an id not handled yet.
proof fn lemma_retry_failed(
    before: Map<Seq<char>, StoredNote>,
    cur: Map<Seq<char>, StoredNote>,
    after: Map<Seq<char>, StoredNote>,
    done: Seq<Note>,
    failed: Set<Seq<char>>,
    x: Seq<char>,
)
    requires
        retry_effect(before, cur, done, failed),
        !cleared_ids(done).contains(x),
        !failed.contains(x),
        after == cur || (cur.contains_key(x) && exists|t: Seq<char>| after == cur.insert(x, cleared(cur[x], t))),
    ensures
        retry_effect(before, after, done, failed.insert(x)),
{
    if after != cur {
        let t = choose|t: Seq<char>| after == cur.insert(x, cleared(cur[x], t));
        assert(after.dom() =~= cur.dom());
        assert(after[x] == cleared(before[x], t));
        assert forall|i: int| 0 <= i < done.len() implies {
            let id = (#[trigger] done[i]).id@;
            &&& before.contains_key(id)
            &&& after[id] == cleared(before[id], done[i].updated_at@)
            &&& shows(done[i], id, after[id])
        } by {
            let ids = done.map_values(|n: Note| n.id@);
            assert(ids[i] == done[i].id@);
            assert(cleared_ids(done).contains(done[i].id@));
        }
    }
}

/// Retries clearing the reminder of every pending note. Each pending id ends
/// up either cleared (and no longer pending) or failed (and still pending);
/// afterwards exactly the failed ids are pending. Outside a transaction, the
/// cleared notes lost their reminder in the store (see `retry_effect`) and
/// the settings are untouched.
pub fn retry_pending_clears(state: &mut ReminderState, db: &mut Connection) -> (r: RetryOutcome)
    ensures
        final(state).pending_ids() == failed_ids(r.failed@),
        cleared_ids(r.cleared@).union(failed_ids(r.failed@)) == old(state).pending_ids(),
        cleared_ids(r.cleared@).disjoint(failed_ids(r.failed@)),
        forall|i: int| 0 <= i < r.cleared@.len() ==> (#[trigger] r.cleared@[i]).remind_at is None,
        !in_transaction(*old(db)) ==> retry_effect(
            stored_notes(*old(db)),
            stored_notes(*final(db)),
            r.cleared@,
            failed_ids(r.failed@),
        ),
        !in_transaction(*old(db)) ==> stored_settings(*final(db)) == stored_settings(*old(db)),
        !in_transaction(*old(db)) ==> forall|i: int|
            0 <= i < r.failed@.len() ==> failure_fits(stored_notes(*old(db)), #[trigger] r.failed@[i]),
{
    let ids = state.pending_list();
    let ghost all = views(ids@);
    let ghost start = *db;
    let mut cleared: Vec<Note> = Vec::new();
    let mut failed: Vec<(String, String)> = Vec::new();
    let mut i: usize = 0;
    assert(all.skip(0) =~= all);
    assert(all.take(0).to_set() =~= Set::<Seq<char>>::empty());
    assert(cleared_ids(cleared@) =~= Set::<Seq<char>>::empty());
    assert(failed_ids(failed@) =~= Set::<Seq<char>>::empty());
    assert(stored_notes(*db).dom() =~= stored_notes(start).dom());
    while i < ids.len()
        invariant
            i <= ids@.len(),
            all == views(ids@),
            all.no_duplicates(),
            all.to_set() == old(state).pending_ids(),
            state.pending_ids() == failed_ids(failed@).union(all.skip(i as int).to_set()),
            cleared_ids(cleared@).union(failed_ids(failed@)) == all.take(i as int).to_set(),
            cleared_ids(cleared@).disjoint(failed_ids(failed@)),
            forall|k: int| 0 <= k < cleared@.len() ==> (#[trigger] cleared@[k]).remind_at is None,
            start == *old(db),
            !in_transaction(start) ==> {
                &&& !in_transaction(*db)
                &&& stored_settings(*db) == stored_settings(start)
                &&& retry_effect(stored_notes(start), stored_notes(*db), cleared@, failed_ids(failed@))
                &&& forall|k: int| 0 <= k < failed@.len() ==> failure_fits(stored_notes(start), #[trigger] failed@[k])
            },
        decreases ids@.len() - i,
    {
        let id = ids[i].as_str();
        let ghost x = all[i as int];
        assert(x == id@);
        proof {
            lemma_next_id(all, i as int);
        }
        let ghost cur = *db;
        match clear_note_reminder(db, id) {
            Ok(note) => {
                let ghost before = cleared@;
                state.remove(id);
                cleared.push(note);
                proof {
                    assert(cleared@ == before.push(note));
                    if !in_transaction(start) {
                        lemma_retry_cleared(stored_notes(start), stored_notes(cur), before, failed_ids(failed@), note);
                    }
                    let v = before.map_values(|n: Note| n.id@);
                    assert(cleared@.map_values(|n: Note| n.id@) =~= v.push(x));
                    lemma_push_to_set(v, x);
                    assert(!failed_ids(failed@).contains(x));
                    assert(state.pending_ids() =~= failed_ids(failed@).union(all.skip(i + 1).to_set()));
                    assert(cleared_ids(cleared@).union(failed_ids(failed@)) =~= all.take(i + 1).to_set());
                }
            },
            Err(error) => {
                let ghost before = failed@;
                let ghost message = error@;
                failed.push((ids[i].clone(), error));
                proof {
                    if !in_transaction(start) {
                        let m0 = stored_notes(start);
                        let mc = stored_notes(cur);
                        assert(!failed_ids(before).contains(x));
                        assert(!cleared_ids(cleared@).contains(x));
                        assert(mc.contains_key(x) == m0.contains_key(x));
                        assert(mc.contains_key(x) ==> mc[x] == m0[x]);
                        assert(failed@[failed@.len() - 1].0@ == x);
                        assert(failed@[failed@.len() - 1].1@ == message);
                        assert(failure_fits(m0, failed@[failed@.len() - 1]));
                        assert forall|k: int| 0 <= k < failed@.len() implies failure_fits(m0, #[trigger] failed@[k]) by {
                            if k < before.len() {
                                assert(failed@[k] == before[k]);
                            }
                        }
                    }
                    let v = before.map_values(|f: (String, String)| f.0@);
                    assert(failed@.map_values(|f: (String, String)| f.0@) =~= v.push(x));
                    lemma_push_to_set(v, x);
                    if !in_transaction(start) {
                        lemma_retry_failed(
                            stored_notes(start),
                            stored_notes(cur),
                            stored_notes(*db),
                            cleared@,
                            failed_ids(before),
                            x,
                        );
                    }
                    assert(!cleared_ids(cleared@).contains(x));
                    assert(state.pending_ids() =~= failed_ids(failed@).union(all.skip(i + 1).to_set()));
                    assert(cleared_ids(cleared@).union(failed_ids(failed@)) =~= all.take(i + 1).to_set());
                }
            },
        }
        i = i + 1;
    }
    proof {
        assert(all.skip(ids@.len() as int).to_set() =~= Set::<Seq<char>>::empty());
        assert(all.take(ids@.len() as int) =~= all);
        assert(state.pending_ids() =~= failed_ids(failed@));
    }
    RetryOutcome { cleared, failed }
}

/// The due notes to notify, in order: those that are not pending.
pub fn reminders_to_notify(state: &ReminderState, due: &Vec<Note>) -> (r: Vec<Note>)
    ensures
        r@ == due@.filter(|n: Note| !state.pending_ids().contains(n.id@)),
{
    let ghost pred = |n: Note| !state.pending_ids().contains(n.id@);
    let mut r: Vec<Note> = Vec::new();
    let mut i: usize = 0;
    while i < due.len()
        invariant
            i <= due@.len(),
            r@ == due@.take(i as int).filter(pred),
            pred == (|n: Note| !state.pending_ids().contains(n.id@)),
        decreases due@.len() - i,
    {
        reveal_with_fuel(Seq::filter, 1);
        let ghost t = due@.take(i + 1);
        assert(t.drop_last() =~= due@.take(i as int));
        if !state.is_pending(due[i].id.as_str()) {
            r.push(copy_note(&due[i]));
            assert(t.filter(pred) == t.drop_last().filter(pred).push(t.last()));
        } else {
            assert(t.filter(pred) == t.drop_last().filter(pred));
        }
        i = i + 1;
    }
    assert(due@.take(due@.len() as int) =~= due@);
    r
}

fn copy_note(n: &Note) -> (c: Note)
    ensures
        c == *n,
{
    Note {
        id: n.id.clone(),
        text: n.text.clone(),
        created_at: n.created_at.clone(),
        updated_at: n.updated_at.clone(),
        favorite: n.favorite,
        remind_at: n.remind_at.clone(),
    }
}

/// After a notification for a note was shown: clears its reminder, and when
/// that fails marks the note pending, so that it is not notified again.
pub fn after_notification(state: &mut ReminderState, db: &mut Connection, id: &str) -> (r: Result<Note, String>)
    ensures
        r is Ok ==> final(state).pending_ids() == old(state).pending_ids(),
        r is Err ==> final(state).pending_ids() == old(state).pending_ids().insert(id@),
        stored_notes(*old(db)).contains_key(id@) && stored_notes(*old(db))[id@].4 is Some ==> r is Ok || (r matches Err(
            e,
        ) && outside_failure(e@)),
        !(stored_notes(*old(db)).contains_key(id@) && stored_notes(*old(db))[id@].4 is Some) ==> (r matches Err(e)
            && (e@ == "Reminder already cleared or note not found"@ || outside_failure(e@))),
        r is Err ==> failed_statement(*old(db), *final(db)) || cleared_at_some_time(*old(db), *final(db), id@),
        r matches Ok(n) ==> {
            &&& stored_notes(*old(db)).contains_key(id@)
            &&& is_clock_text(n.updated_at@)
            &&& stored_notes(*final(db)) == stored_notes(*old(db)).insert(
                id@,
                cleared(stored_notes(*old(db))[id@], n.updated_at@),
            )
            &&& shows(n, id@, stored_notes(*final(db))[id@])
            &&& stored_settings(*final(db)) == stored_settings(*old(db))
            &&& same_transaction(*old(db), *final(db))
        },
{
    match clear_note_reminder(db, id) {
        Ok(note) => Ok(note),
        Err(error) => {
            state.insert(id);
            Err(error)
        },
    }
}

} // verus!
