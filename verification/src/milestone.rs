//! Milestones and their completion statistics, which are computed from the
//! tasks of the owning board each time they are asked for.
use crate::list::{on_board, List};
use crate::task::{in_list, Task};
use vstd::prelude::*;

verus! {

/// A named target on a board that tasks can refer to.
#[derive(Debug)]
pub struct Milestone {
    pub id: Option<i32>,
    pub name: String,
    pub board_id: i32,
    pub board_type: String,
}

/// A milestone with its statistics: `total` counts the tasks that refer to
/// it, `done` those of them that are done.
#[derive(Debug)]
pub struct MilestoneResponse {
    pub id: Option<i32>,
    pub name: String,
    pub done: i32,
    pub total: i32,
    pub board_id: i32,
    pub board_type: String,
}

impl Clone for Milestone {
    fn clone(&self) -> (r: Self)
        ensures
            r == *self,
    {
        Milestone {
            id: self.id,
            name: self.name.clone(),
            board_id: self.board_id,
            board_type: self.board_type.clone(),
        }
    }
}

impl Clone for MilestoneResponse {
    fn clone(&self) -> (r: Self)
        ensures
            r == *self,
    {
        MilestoneResponse {
            id: self.id,
            name: self.name.clone(),
            done: self.done,
            total: self.total,
            board_id: self.board_id,
            board_type: self.board_type.clone(),
        }
    }
}

/// The predicate "refers to milestone `id`".
pub open spec fn refers_to(id: i32) -> spec_fn(Task) -> bool {
    |t: Task| t.milestone == Some(id)
}

/// The predicate "is done and refers to milestone `id`".
pub open spec fn done_for(id: i32) -> spec_fn(Task) -> bool {
    |t: Task| t.done == 1 && t.milestone == Some(id)
}

/// The predicate "is a milestone of the board `board_id` of kind `board_type`".
pub open spec fn milestone_of(board_type: Seq<char>, board_id: i32) -> spec_fn(Milestone) -> bool {
    |m: Milestone| m.board_id == board_id && m.board_type@ == board_type
}

/// Every list has an id, as every stored list does.
pub open spec fn lists_stored(ls: Seq<List>) -> bool {
    forall|i: int| 0 <= i < ls.len() ==> (#[trigger] ls[i]).id is Some
}

/// The tasks of the given lists: list by list, the tasks of each in the
/// order of `tasks`. A list that occurs twice contributes twice.
pub open spec fn tasks_of_lists(ls: Seq<List>, tasks: Seq<Task>) -> Seq<Task>
    decreases ls.len(),
{
    if ls.len() == 0 {
        Seq::<Task>::empty()
    } else {
        tasks_of_lists(ls.drop_last(), tasks) + tasks.filter(in_list(ls.last().id.unwrap()))
    }
}

/// All tasks on the lists of one board.
pub open spec fn board_tasks(
    lists: Seq<List>,
    tasks: Seq<Task>,
    board_type: Seq<char>,
    board_id: i32,
) -> Seq<Task> {
    tasks_of_lists(lists.filter(on_board(board_type, board_id)), tasks)
}

/// How many of `ts` refer to milestone `id`.
pub open spec fn total_count(ts: Seq<Task>, id: i32) -> nat {
    ts.filter(refers_to(id)).len()
}

/// How many of `ts` are done and refer to milestone `id`.
pub open spec fn done_count(ts: Seq<Task>, id: i32) -> nat {
    ts.filter(done_for(id)).len()
}

/// The statistics of milestone `m` over the tasks of its board.
pub open spec fn stats_of(m: Milestone, lists: Seq<List>, tasks: Seq<Task>) -> MilestoneResponse {
    let on_board = board_tasks(lists, tasks, m.board_type@, m.board_id);
    MilestoneResponse {
        id: m.id,
        name: m.name,
        done: done_count(on_board, m.id.unwrap()) as i32,
        total: total_count(on_board, m.id.unwrap()) as i32,
        board_id: m.board_id,
        board_type: m.board_type,
    }
}

/// The lists of the board are stored rows, and the board's tasks can be
/// counted in an `i32`.
pub open spec fn board_countable(
    lists: Seq<List>,
    tasks: Seq<Task>,
    board_type: Seq<char>,
    board_id: i32,
) -> bool {
    &&& lists_stored(lists.filter(on_board(board_type, board_id)))
    &&& board_tasks(lists, tasks, board_type, board_id).len() <= i32::MAX
}

/// What `get_stats` asks of its input: the milestone is a stored row, and
/// so are the lists of its board, whose tasks can be counted in an `i32`.
pub open spec fn stats_defined(m: Milestone, lists: Seq<List>, tasks: Seq<Task>) -> bool {
    &&& m.id is Some
    &&& board_countable(lists, tasks, m.board_type@, m.board_id)
}

/// What `get` asks of its input: the statistics of every milestone of the
/// board are defined.
pub open spec fn board_stats_defined(
    board_type: Seq<char>,
    board_id: i32,
    milestones: Seq<Milestone>,
    lists: Seq<List>,
    tasks: Seq<Task>,
) -> bool {
    forall|i: int|
        0 <= i < milestones.len() && milestone_of(board_type, board_id)(#[trigger] milestones[i])
            ==> stats_defined(milestones[i], lists, tasks)
}

/// The tasks of the first lists are no more than the tasks of all.
pub proof fn lemma_tasks_of_prefix(ls: Seq<List>, tasks: Seq<Task>, k: int)
    requires
        0 <= k <= ls.len(),
    ensures
        tasks_of_lists(ls.subrange(0, k), tasks).len() <= tasks_of_lists(ls, tasks).len(),
    decreases ls.len(),
{
    if k == ls.len() {
        assert(ls.subrange(0, k) =~= ls);
    } else {
        lemma_tasks_of_prefix(ls.drop_last(), tasks, k);
        assert(ls.drop_last().subrange(0, k) =~= ls.subrange(0, k));
    }
}

/// Whether the lists of the board are stored rows and its tasks can be
/// counted in an `i32`.
pub fn countable(board_type: &String, board_id: i32, lists: &Vec<List>, tasks: &Vec<Task>) -> (r:
    bool)
    ensures
        r == board_countable(lists@, tasks@, board_type@, board_id),
{
    let own = List::get(board_type.clone(), board_id, lists);
    let mut total: usize = 0;
    let mut k: usize = 0;
    proof {
        assert(own@.subrange(0, 0) =~= Seq::<List>::empty());
    }
    while k < own.len()
        invariant
            k <= own.len(),
            own@ == lists@.filter(on_board(board_type@, board_id)),
            forall|q: int| 0 <= q < k ==> (#[trigger] own[q]).id is Some,
            total == tasks_of_lists(own@.subrange(0, k as int), tasks@).len(),
            total <= i32::MAX,
        decreases own.len() - k,
    {
        let id = match own[k].id {
            Some(id) => id,
            None => {
                return false;
            },
        };
        let ghost wanted = in_list(id);
        let ghost base = total;
        let mut j: usize = 0;
        proof {
            reveal(Seq::filter);
            assert(own@.subrange(0, k + 1).drop_last() =~= own@.subrange(0, k as int));
            assert(own@.subrange(0, k + 1).last() == own@[k as int]);
            assert(tasks@.subrange(0, 0) =~= Seq::<Task>::empty());
            assert(Seq::<Task>::empty().filter(wanted) =~= Seq::<Task>::empty());
        }
        while j < tasks.len()
            invariant
                j <= tasks.len(),
                k < own.len(),
                wanted == in_list(id),
                own@[k as int].id == Some(id),
                base == tasks_of_lists(own@.subrange(0, k as int), tasks@).len(),
                tasks_of_lists(own@.subrange(0, k + 1), tasks@).len() == base + tasks@.filter(
                    wanted,
                ).len(),
                own@ == lists@.filter(on_board(board_type@, board_id)),
                total == base + tasks@.subrange(0, j as int).filter(wanted).len(),
                total <= i32::MAX,
            decreases tasks.len() - j,
        {
            proof {
                tasks@.subrange(0, j as int).lemma_filter_push(tasks@[j as int], wanted);
                assert(tasks@.subrange(0, j + 1) =~= tasks@.subrange(0, j as int).push(
                    tasks@[j as int],
                ));
            }
            if tasks[j].list == id {
                if total == 2147483647 {
                    proof {
                        tasks@.lemma_filter_take_len(wanted, j + 1);
                        assert(tasks@.take(j + 1) =~= tasks@.subrange(0, j + 1));
                        lemma_tasks_of_prefix(own@, tasks@, k + 1);
                    }
                    return false;
                }
                total += 1;
            }
            j += 1;
        }
        proof {
            assert(tasks@.subrange(0, tasks@.len() as int) =~= tasks@);
        }
        k += 1;
    }
    proof {
        assert(own@.subrange(0, own@.len() as int) =~= own@);
    }
    true
}

/// Among any tasks, no more are done for a milestone than refer to it, and
/// no more refer to it than there are tasks.
pub proof fn lemma_done_le_total(ts: Seq<Task>, id: i32)
    ensures
        done_count(ts, id) <= total_count(ts, id) <= ts.len(),
    decreases ts.len(),
{
    if ts.len() == 0 {
        reveal(Seq::filter);
        assert(ts.filter(done_for(id)) =~= Seq::<Task>::empty());
        assert(ts.filter(refers_to(id)) =~= Seq::<Task>::empty());
    } else {
        let front = ts.drop_last();
        lemma_done_le_total(front, id);
        assert(ts =~= front.push(ts.last()));
        front.lemma_filter_push(ts.last(), done_for(id));
        front.lemma_filter_push(ts.last(), refers_to(id));
    }
}

/// A task that refers to no milestone, or to another one, changes neither
/// count; one that refers to `id` adds one to the total, and one to the
/// done count exactly when it is done.
pub proof fn lemma_counts_push(ts: Seq<Task>, t: Task, id: i32)
    ensures
        total_count(ts.push(t), id) == total_count(ts, id) + (if t.milestone == Some(id) {
            1nat
        } else {
            0nat
        }),
        done_count(ts.push(t), id) == done_count(ts, id) + (if t.done == 1 && t.milestone == Some(
            id,
        ) {
            1nat
        } else {
            0nat
        }),
{
    ts.lemma_filter_push(t, done_for(id));
    ts.lemma_filter_push(t, refers_to(id));
}

impl Milestone {
    /// Whether the statistics of this milestone are defined over the given
    /// rows, so that `get_stats` can be asked for them.
    pub fn can_get_stats(&self, lists: &Vec<List>, tasks: &Vec<Task>) -> (r: bool)
        ensures
            r == stats_defined(*self, lists@, tasks@),
    {
        self.id.is_some() && countable(&self.board_type, self.board_id, lists, tasks)
    }

    /// Whether the statistics of every milestone of the board are defined
    /// over the given rows, so that `get` can be asked for them.
    pub fn can_get(
        board_id: i32,
        board_type: &String,
        milestones: &Vec<Milestone>,
        lists: &Vec<List>,
        tasks: &Vec<Task>,
    ) -> (r: bool)
        ensures
            r == board_stats_defined(board_type@, board_id, milestones@, lists@, tasks@),
    {
        let mut any = false;
        let mut i: usize = 0;
        while i < milestones.len()
            invariant
                i <= milestones.len(),
                any == exists|j: int|
                    0 <= j < i && milestone_of(board_type@, board_id)(#[trigger] milestones[j]),
                forall|j: int|
                    0 <= j < i && milestone_of(board_type@, board_id)(#[trigger] milestones[j])
                        ==> milestones[j].id is Some,
            decreases milestones.len() - i,
        {
            if milestones[i].board_id == board_id && milestones[i].board_type == *board_type {
                if milestones[i].id.is_none() {
                    return false;
                }
                any = true;
            }
            i += 1;
        }
        if !any {
            return true;
        }
        let ok = countable(board_type, board_id, lists, tasks);
        proof {
            let j = choose|j: int|
                0 <= j < milestones.len() && milestone_of(board_type@, board_id)(
                    #[trigger] milestones[j],
                );
            assert(milestone_of(board_type@, board_id)(milestones[j]));
        }
        ok
    }

    /// The statistics of one milestone: its own fields, the number of tasks
    /// on its board's lists that refer to it, and how many of those are done.
    pub fn get_stats(milestone: Milestone, lists: &Vec<List>, tasks: &Vec<Task>) -> (r:
        MilestoneResponse)
        requires
            stats_defined(milestone, lists@, tasks@),
        ensures
            r == stats_of(milestone, lists@, tasks@),
            r.total == total_count(
                board_tasks(lists@, tasks@, milestone.board_type@, milestone.board_id),
                milestone.id.unwrap(),
            ),
            r.done == done_count(
                board_tasks(lists@, tasks@, milestone.board_type@, milestone.board_id),
                milestone.id.unwrap(),
            ),
            0 <= r.done <= r.total,
    {
        let board_type = milestone.board_type.clone();
        let own = List::get(milestone.board_type, milestone.board_id, lists);
        let mut gathered: Vec<Task> = Vec::new();
        let mut k: usize = 0;
        proof {
            assert(own@.subrange(0, 0) =~= Seq::<List>::empty());
        }
        while k < own.len()
            invariant
                k <= own.len(),
                lists_stored(own@),
                gathered@ == tasks_of_lists(own@.subrange(0, k as int), tasks@),
            decreases own.len() - k,
        {
            proof {
                assert(own@.subrange(0, k + 1).drop_last() =~= own@.subrange(0, k as int));
                assert(own@.subrange(0, k + 1).last() == own@[k as int]);
            }
            let list_id = own[k].id.unwrap();
            let mut on_list = Task::get(list_id, tasks);
            gathered.append(&mut on_list);
            k += 1;
        }
        proof {
            assert(own@.subrange(0, own@.len() as int) =~= own@);
            lemma_done_le_total(gathered@, milestone.id.unwrap());
        }
        let id = milestone.id.unwrap();
        let mut total: usize = 0;
        let mut done: usize = 0;
        let mut i: usize = 0;
        proof {
            reveal(Seq::filter);
            assert(gathered@.subrange(0, 0) =~= Seq::<Task>::empty());
            assert(Seq::<Task>::empty().filter(refers_to(id)) =~= Seq::<Task>::empty());
            assert(Seq::<Task>::empty().filter(done_for(id)) =~= Seq::<Task>::empty());
        }
        while i < gathered.len()
            invariant
                i <= gathered.len(),
                total == total_count(gathered@.subrange(0, i as int), id),
                done == done_count(gathered@.subrange(0, i as int), id),
                done <= total <= i,
            decreases gathered.len() - i,
        {
            proof {
                lemma_counts_push(gathered@.subrange(0, i as int), gathered@[i as int], id);
                assert(gathered@.subrange(0, i + 1) =~= gathered@.subrange(0, i as int).push(
                    gathered@[i as int],
                ));
            }
            if crate::utils::matches(gathered[i].milestone, id) {
                total += 1;
                if gathered[i].done == 1 {
                    done += 1;
                }
            }
            i += 1;
        }
        proof {
            assert(gathered@.subrange(0, gathered@.len() as int) =~= gathered@);
        }
        MilestoneResponse {
            total: total as i32,
            done: done as i32,
            id: milestone.id,
            board_id: milestone.board_id,
            name: milestone.name,
            board_type,
        }
    }

    /// The statistics of every milestone of the given board, in the order of
    /// `milestones`.
    pub fn get(
        board_id: i32,
        board_type: String,
        milestones: &Vec<Milestone>,
        lists: &Vec<List>,
        tasks: &Vec<Task>,
    ) -> (r: Vec<MilestoneResponse>)
        requires
            board_stats_defined(board_type@, board_id, milestones@, lists@, tasks@),
        ensures
            r@ == milestones@.filter(milestone_of(board_type@, board_id)).map_values(
                |m: Milestone| stats_of(m, lists@, tasks@),
            ),
            forall|i: int| 0 <= i < r.len() ==> 0 <= (#[trigger] r[i]).done <= r[i].total,
    {
        let ghost pred = milestone_of(board_type@, board_id);
        let ghost stat = |m: Milestone| stats_of(m, lists@, tasks@);
        let mut out: Vec<MilestoneResponse> = Vec::new();
        let mut i: usize = 0;
        proof {
            reveal(Seq::filter);
            assert(milestones@.subrange(0, 0) =~= Seq::<Milestone>::empty());
            assert(Seq::<Milestone>::empty().filter(pred).map_values(stat) =~= Seq::<
                MilestoneResponse,
            >::empty());
        }
        while i < milestones.len()
            invariant
                i <= milestones.len(),
                pred == milestone_of(board_type@, board_id),
                stat == (|m: Milestone| stats_of(m, lists@, tasks@)),
                forall|j: int|
                    0 <= j < milestones.len() && pred(#[trigger] milestones[j]) ==> stats_defined(
                        milestones[j],
                        lists@,
                        tasks@,
                    ),
                out@ == milestones@.subrange(0, i as int).filter(pred).map_values(stat),
                forall|j: int| 0 <= j < out.len() ==> 0 <= (#[trigger] out[j]).done <= out[j].total,
            decreases milestones.len() - i,
        {
            let ghost seen = milestones@.subrange(0, i as int);
            proof {
                seen.lemma_filter_push(milestones@[i as int], pred);
                assert(milestones@.subrange(0, i + 1) =~= seen.push(milestones@[i as int]));
            }
            if milestones[i].board_id == board_id && milestones[i].board_type == board_type {
                let stats = Self::get_stats(milestones[i].clone(), lists, tasks);
                out.push(stats);
                proof {
                    assert(seen.filter(pred).push(milestones@[i as int]).map_values(stat)
                        =~= seen.filter(pred).map_values(stat).push(stat(milestones@[i as int])));
                }
            }
            i += 1;
        }
        proof {
            assert(milestones@.subrange(0, milestones@.len() as int) =~= milestones@);
        }
        out
    }
}

} // verus!
