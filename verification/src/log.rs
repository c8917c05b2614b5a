//! The audit trail: one record for each creation or change of a task,
//! holding the task as it was at that moment.
use crate::task::{clone_text, Task};
use crate::text::{lemma_lex_le_total, lemma_lex_le_trans, lex_le, str_le};
use crate::utils::{get_date, stamp_of};
use vstd::prelude::*;

verus! {

/// A snapshot of a task, with the moment and the kind of the action
/// (`"created"` or `"updated"`) that it records.
#[derive(Debug)]
pub struct Log {
    pub id: Option<i32>,
    pub name: String,
    pub list: i32,
    pub note: Option<String>,
    pub place: Option<String>,
    pub members: Option<String>,
    pub timestamp: String,
    pub action: String,
    pub task_id: i32,
    pub deadline: String,
    pub subtasks: String,
    pub points: i32,
    pub tags: String,
}

impl Clone for Log {
    fn clone(&self) -> (r: Self)
        ensures
            r == *self,
    {
        Log {
            id: self.id,
            name: self.name.clone(),
            list: self.list,
            note: clone_text(&self.note),
            place: clone_text(&self.place),
            members: clone_text(&self.members),
            timestamp: self.timestamp.clone(),
            action: self.action.clone(),
            task_id: self.task_id,
            deadline: self.deadline.clone(),
            subtasks: self.subtasks.clone(),
            points: self.points,
            tags: self.tags.clone(),
        }
    }
}

/// The predicate "records an action on task `id`".
pub open spec fn about_task(id: i32) -> spec_fn(Log) -> bool {
    |l: Log| l.task_id == id
}

/// The records come latest first: no record is older than one after it.
pub open spec fn latest_first(logs: Seq<Log>) -> bool {
    forall|i: int, j: int|
        0 <= i < j < logs.len() ==> lex_le(
            (#[trigger] logs[j]).timestamp@,
            (#[trigger] logs[i]).timestamp@,
        )
}

impl Log {
    /// The record of `action` on `task`: a new record without an id that
    /// copies the task's fields. It is filed under `id`, whatever id the
    /// task value itself carries.
    pub open spec fn records(&self, task: Task, id: i32, action: String) -> bool {
        &&& self.id is None
        &&& self.name == task.name
        &&& self.list == task.list
        &&& self.note == task.note
        &&& self.place == task.place
        &&& self.members == task.members
        &&& self.action == action
        &&& self.task_id == id
        &&& self.deadline == task.deadline
        &&& self.subtasks == task.subtasks
        &&& self.points == task.points
        &&& self.tags == task.tags
    }

    /// The record of `action` on `task` at the moment `timestamp`.
    pub fn stamped(task: Task, id: i32, action: String, timestamp: String) -> (r: Log)
        ensures
            r.records(task, id, action),
            r.timestamp == timestamp,
    {
        Log {
            id: None,
            name: task.name,
            list: task.list,
            note: task.note,
            place: task.place,
            members: task.members,
            timestamp,
            action,
            task_id: id,
            deadline: task.deadline,
            subtasks: task.subtasks,
            points: task.points,
            tags: task.tags,
        }
    }

    /// The record of `action` on `task` at the present moment, stamped with
    /// the date and time that the clock gives; none where it gives none.
    pub fn from_task(task: Task, id: i32, action: String) -> (r: Option<Log>)
        ensures
            r matches Some(log) ==> log.records(task, id, action) && exists|secs: u64, nanos: u32|
                nanos < 1_000_000_000 && #[trigger] stamp_of(secs, nanos) == Some(log.timestamp@),
    {
        match get_date() {
            Some(timestamp) => Some(Self::stamped(task, id, action, timestamp)),
            None => None,
        }
    }

    /// The records about task `id`, latest first: each record of `logs`
    /// about the task once, ordered by timestamp.
    pub fn get(id: i32, logs: &Vec<Log>) -> (r: Vec<Log>)
        ensures
            r@.to_multiset() == logs@.filter(about_task(id)).to_multiset(),
            r.len() == logs@.filter(about_task(id)).len(),
            latest_first(r@),
    {
        let ghost pred = about_task(id);
        let mut out: Vec<Log> = Vec::new();
        let mut i: usize = 0;
        proof {
            reveal(Seq::filter);
            assert(logs@.subrange(0, 0) =~= Seq::<Log>::empty());
            assert(Seq::<Log>::empty().filter(pred) =~= Seq::<Log>::empty());
        }
        while i < logs.len()
            invariant
                i <= logs.len(),
                pred == about_task(id),
                out@.to_multiset() == logs@.subrange(0, i as int).filter(pred).to_multiset(),
                out.len() == logs@.subrange(0, i as int).filter(pred).len(),
                latest_first(out@),
            decreases logs.len() - i,
        {
            let ghost seen = logs@.subrange(0, i as int);
            proof {
                seen.lemma_filter_push(logs@[i as int], pred);
                assert(logs@.subrange(0, i + 1) =~= seen.push(logs@[i as int]));
            }
            if logs[i].task_id == id {
                let entry = logs[i].clone();
                let mut at: usize = 0;
                while at < out.len() && str_le(
                    entry.timestamp.as_str(),
                    out[at].timestamp.as_str(),
                )
                    invariant
                        at <= out.len(),
                        forall|k: int|
                            0 <= k < at ==> lex_le(entry.timestamp@, (#[trigger] out[k]).timestamp@),
                    decreases out.len() - at,
                {
                    at += 1;
                }
                let ghost before = out@;
                proof {
                    assert forall|k: int| at <= k < before.len() implies lex_le(
                        (#[trigger] before[k]).timestamp@,
                        entry.timestamp@,
                    ) by {
                        lemma_lex_le_total(entry.timestamp@, before[at as int].timestamp@);
                        if k > at {
                            lemma_lex_le_trans(
                                before[k].timestamp@,
                                before[at as int].timestamp@,
                                entry.timestamp@,
                            );
                        }
                    }
                }
                out.insert(at, entry);
                proof {
                    let after = out@;
                    assert(after == before.insert(at as int, entry));
                    assert forall|a: int, b: int| 0 <= a < b < after.len() implies lex_le(
                        (#[trigger] after[b]).timestamp@,
                        (#[trigger] after[a]).timestamp@,
                    ) by {
                        if b < at {
                            assert(after[a] == before[a] && after[b] == before[b]);
                        } else if b == at {
                            assert(after[a] == before[a]);
                        } else if a < at {
                            assert(after[a] == before[a] && after[b] == before[b - 1]);
                        } else if a == at {
                            assert(after[b] == before[b - 1]);
                        } else {
                            assert(after[a] == before[a - 1] && after[b] == before[b - 1]);
                        }
                    }
                    vstd::seq_lib::to_multiset_build(seen.filter(pred), entry);
                    vstd::seq_lib::to_multiset_insert(before, at as int, entry);
                }
            }
            i += 1;
        }
        proof {
            assert(logs@.subrange(0, logs@.len() as int) =~= logs@);
        }
        out
    }
}

} // verus!
