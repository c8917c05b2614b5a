//! Tasks and the query that narrows a list's tasks by a filter.
use crate::log::Log;
use crate::text::{
    contains, contains_all, contains_all_terms, lex_le, occurs_at, spec_contains, spec_split,
    str_le, text_of,
};
use crate::types::TaskFilter;
use vstd::prelude::*;

verus! {

/// One task of a list. `done` is `0` or `1`; `members`, `tags` and `subtasks`
/// are lists joined by `;`.
#[derive(Debug)]
pub struct Task {
    pub id: Option<i32>,
    pub name: String,
    pub list: i32,
    pub note: Option<String>,
    pub place: Option<String>,
    pub members: Option<String>,
    pub deadline: String,
    pub subtasks: String,
    pub points: i32,
    pub tags: String,
    pub done: i32,
    pub milestone: Option<i32>,
}

/// A copy of an optional text.
pub fn clone_text(field: &Option<String>) -> (r: Option<String>)
    ensures
        r == *field,
{
    match field {
        Some(s) => Some(s.clone()),
        None => None,
    }
}

/// The text of an optional field, the empty text where it is absent.
fn field_text(field: &Option<String>) -> (r: &str)
    ensures
        r@ == text_of(*field),
{
    match field {
        Some(s) => s.as_str(),
        None => {
            proof {
                reveal_strlit("");
            }
            ""
        },
    }
}

impl Clone for Task {
    fn clone(&self) -> (r: Self)
        ensures
            r == *self,
    {
        Task {
            id: self.id,
            name: self.name.clone(),
            list: self.list,
            note: clone_text(&self.note),
            place: clone_text(&self.place),
            members: clone_text(&self.members),
            deadline: self.deadline.clone(),
            subtasks: self.subtasks.clone(),
            points: self.points,
            tags: self.tags.clone(),
            done: self.done,
            milestone: self.milestone,
        }
    }
}

/// The predicate "belongs to list `id`".
pub open spec fn in_list(id: i32) -> spec_fn(Task) -> bool {
    |t: Task| t.list == id
}

/// The predicate "belongs to list `id` and meets every criterion of `f`".
pub open spec fn meets(id: i32, f: TaskFilter) -> spec_fn(Task) -> bool {
    |t: Task| t.matches_filter(id, &f)
}

impl Task {
    /// The task lies within the optional inclusive bounds on its points.
    pub open spec fn points_within(&self, min: Option<i32>, max: Option<i32>) -> bool {
        &&& (min matches Some(lo) ==> self.points >= lo)
        &&& (max matches Some(hi) ==> self.points <= hi)
    }

    /// The task's deadline lies within the inclusive bounds, compared as
    /// texts; an empty bound constrains nothing.
    pub open spec fn deadline_within(&self, start: Seq<char>, end: Seq<char>) -> bool {
        &&& (start.len() > 0 ==> lex_le(start, self.deadline@))
        &&& (end.len() > 0 ==> lex_le(self.deadline@, end))
    }

    /// The task belongs to list `list_id` and meets every criterion of `f`:
    /// name and place hold the given texts, points and deadline lie within
    /// their bounds, and members and tags hold each `;`-separated term.
    pub open spec fn matches_filter(&self, list_id: i32, f: &TaskFilter) -> bool {
        &&& self.list == list_id
        &&& spec_contains(self.name@, f.name@)
        &&& spec_contains(text_of(self.place), f.place@)
        &&& self.points_within(f.points_min, f.points_max)
        &&& self.deadline_within(f.deadline_start@, f.deadline_end@)
        &&& contains_all(text_of(self.members), spec_split(f.members@, ';'))
        &&& contains_all(self.tags@, spec_split(f.tags@, ';'))
    }

    /// Whether the task belongs to list `id` and meets every criterion.
    pub fn satisfies(&self, id: i32, data: &TaskFilter) -> (r: bool)
        ensures
            r == self.matches_filter(id, data),
    {
        if self.list != id {
            return false;
        }
        if !contains(self.name.as_str(), data.name.as_str()) {
            return false;
        }
        if !contains(field_text(&self.place), data.place.as_str()) {
            return false;
        }
        match data.points_min {
            Some(lo) => {
                if self.points < lo {
                    return false;
                }
            },
            None => {},
        }
        match data.points_max {
            Some(hi) => {
                if self.points > hi {
                    return false;
                }
            },
            None => {},
        }
        if data.deadline_start.as_str().unicode_len() > 0 && !str_le(
            data.deadline_start.as_str(),
            self.deadline.as_str(),
        ) {
            return false;
        }
        if data.deadline_end.as_str().unicode_len() > 0 && !str_le(
            self.deadline.as_str(),
            data.deadline_end.as_str(),
        ) {
            return false;
        }
        if !contains_all_terms(field_text(&self.members), data.members.as_str()) {
            return false;
        }
        contains_all_terms(self.tags.as_str(), data.tags.as_str())
    }

    /// The tasks of list `id`, in the order of `tasks`.
    pub fn get(id: i32, tasks: &Vec<Task>) -> (r: Vec<Task>)
        ensures
            r@ == tasks@.filter(in_list(id)),
    {
        let ghost pred = in_list(id);
        let mut out: Vec<Task> = Vec::new();
        let mut i: usize = 0;
        proof {
            assert(tasks@.subrange(0, 0) =~= Seq::<Task>::empty());
            assert(Seq::<Task>::empty().filter(pred) =~= Seq::<Task>::empty()) by {
                reveal(Seq::filter);
            }
        }
        while i < tasks.len()
            invariant
                i <= tasks.len(),
                pred == in_list(id),
                out@ == tasks@.subrange(0, i as int).filter(pred),
            decreases tasks.len() - i,
        {
            proof {
                tasks@.subrange(0, i as int).lemma_filter_push(tasks@[i as int], pred);
                assert(tasks@.subrange(0, i + 1) =~= tasks@.subrange(0, i as int).push(
                    tasks@[i as int],
                ));
            }
            if tasks[i].list == id {
                out.push(tasks[i].clone());
            }
            i += 1;
        }
        proof {
            assert(tasks@.subrange(0, tasks@.len() as int) =~= tasks@);
        }
        out
    }

    /// The tasks of list `id` that meet every criterion of `data`, in the
    /// order of `tasks`.
    pub fn filter(id: i32, data: TaskFilter, tasks: &Vec<Task>) -> (r: Vec<Task>)
        ensures
            r@ == tasks@.filter(meets(id, data)),
    {
        let ghost pred = meets(id, data);
        let mut out: Vec<Task> = Vec::new();
        let mut i: usize = 0;
        proof {
            assert(tasks@.subrange(0, 0) =~= Seq::<Task>::empty());
            assert(Seq::<Task>::empty().filter(pred) =~= Seq::<Task>::empty()) by {
                reveal(Seq::filter);
            }
        }
        while i < tasks.len()
            invariant
                i <= tasks.len(),
                pred == meets(id, data),
                out@ == tasks@.subrange(0, i as int).filter(pred),
            decreases tasks.len() - i,
        {
            proof {
                tasks@.subrange(0, i as int).lemma_filter_push(tasks@[i as int], pred);
                assert(tasks@.subrange(0, i + 1) =~= tasks@.subrange(0, i as int).push(
                    tasks@[i as int],
                ));
            }
            if tasks[i].satisfies(id, &data) {
                out.push(tasks[i].clone());
            }
            i += 1;
        }
        proof {
            assert(tasks@.subrange(0, tasks@.len() as int) =~= tasks@);
        }
        out
    }

    /// The audit record to file after an attempt to store the new task
    /// `task`: a record of the action `"created"` at the moment `timestamp`
    /// under the id `id` that the store gave the task, and none where the
    /// task was not stored.
    pub fn create(task: Task, stored: bool, id: i32, timestamp: String) -> (r: Option<Log>)
        ensures
            r is Some <==> stored,
            r matches Some(log) ==> log.records(task, id, log.action) && log.action@
                == "created"@ && log.timestamp == timestamp,
    {
        if stored {
            Some(Log::stamped(task, id, "created".to_owned(), timestamp))
        } else {
            None
        }
    }

    /// The audit record to file after an attempt to store a change of
    /// `task`: a record of the action `"updated"` at the moment `timestamp`
    /// under the task's own id, and none where the change was not stored.
    pub fn update(task: Task, stored: bool, timestamp: String) -> (r: Option<Log>)
        requires
            task.id is Some,
        ensures
            r is Some <==> stored,
            r matches Some(log) ==> log.records(task, task.id.unwrap(), log.action) && log.action@
                == "updated"@ && log.timestamp == timestamp,
    {
        if stored {
            let id = task.id.unwrap();
            Some(Log::stamped(task, id, "updated".to_owned(), timestamp))
        } else {
            None
        }
    }

    /// The first task with the given id, if there is one.
    pub fn get_single(id: i32, tasks: &Vec<Task>) -> (r: Option<Task>)
        ensures
            match r {
                Some(t) => exists|i: int|
                    0 <= i < tasks.len() && tasks[i] == t && t.id == Some(id) && forall|j: int|
                        0 <= j < i ==> tasks[j].id != Some(id),
                None => forall|j: int| 0 <= j < tasks.len() ==> tasks[j].id != Some(id),
            },
    {
        let mut i: usize = 0;
        while i < tasks.len()
            invariant
                i <= tasks.len(),
                forall|j: int| 0 <= j < i ==> tasks[j].id != Some(id),
            decreases tasks.len() - i,
        {
            if crate::utils::matches(tasks[i].id, id) {
                return Some(tasks[i].clone());
            }
            i += 1;
        }
        None
    }
}

/// The empty text occurs in every text.
pub proof fn lemma_empty_occurs(hay: Seq<char>, needle: Seq<char>)
    requires
        needle.len() == 0,
    ensures
        spec_contains(hay, needle),
{
    assert(hay.subrange(0, 0) =~= needle);
    assert(occurs_at(hay, needle, 0));
}

/// An unconstrained filter lets through exactly the tasks of the list: the
/// query is then the plain listing of the list's tasks.
pub proof fn lemma_unconstrained_filter(tasks: Seq<Task>, id: i32, f: TaskFilter)
    requires
        f.is_unconstrained(),
    ensures
        forall|t: Task| #[trigger] t.matches_filter(id, &f) <==> t.list == id,
        tasks.filter(meets(id, f)) == tasks.filter(in_list(id)),
{
    let empty = Seq::<char>::empty();
    assert(spec_split(f.members@, ';') =~= seq![empty]);
    assert(spec_split(f.tags@, ';') =~= seq![empty]);
    assert(f.members@ =~= empty);
    assert forall|t: Task| #[trigger] t.matches_filter(id, &f) <==> t.list == id by {
        lemma_empty_occurs(t.name@, f.name@);
        lemma_empty_occurs(text_of(t.place), f.place@);
        lemma_empty_occurs(text_of(t.members), empty);
        lemma_empty_occurs(t.tags@, empty);
    }
    let p = meets(id, f);
    let q = in_list(id);
    assert(p =~= q) by {
        assert forall|t: Task| #[trigger] p(t) == q(t) by {
            assert(t.matches_filter(id, &f) <==> t.list == id);
        }
    }
}

} // verus!
