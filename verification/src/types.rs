//! Plain request and response values exchanged with callers.
use crate::board::TeamBoard;
use crate::text::{spec_split, split_terms};
use vstd::prelude::*;

verus! {

/// A username with the password presented for it.
#[derive(Debug)]
pub struct Credentials {
    pub username: String,
    pub password: String,
}

impl Clone for Credentials {
    fn clone(&self) -> (r: Self)
        ensures
            r == *self,
    {
        Credentials { username: self.username.clone(), password: self.password.clone() }
    }
}

/// The answer to a login: whether it succeeded, and the issued token.
#[derive(Debug)]
pub struct TokenResponse {
    pub success: bool,
    pub token: String,
}

impl TokenResponse {
    pub fn new(success: bool, token: String) -> (r: TokenResponse)
        ensures
            r.success == success,
            r.token == token,
    {
        TokenResponse { success, token }
    }
}

/// A team board with the name of the team that owns it.
#[derive(Debug)]
pub struct TeamBoardWithName {
    pub id: Option<i32>,
    pub name: String,
    pub owner: i32,
    pub team_name: String,
}

/// The given boards, each with the team name beside it.
pub open spec fn named_boards(boards: Seq<TeamBoard>, name: String) -> Seq<TeamBoardWithName> {
    boards.map_values(
        |b: TeamBoard| TeamBoardWithName { id: b.id, name: b.name, owner: b.owner, team_name: name },
    )
}

impl TeamBoardWithName {
    /// Each of the boards with the team name `name` beside it, in order.
    pub fn new(boards: Vec<TeamBoard>, name: String) -> (r: Vec<TeamBoardWithName>)
        ensures
            r@ == named_boards(boards@, name),
    {
        let mut out: Vec<TeamBoardWithName> = Vec::new();
        let mut i: usize = 0;
        while i < boards.len()
            invariant
                i <= boards.len(),
                out@ == named_boards(boards@.subrange(0, i as int), name),
            decreases boards.len() - i,
        {
            out.push(
                TeamBoardWithName {
                    id: boards[i].id,
                    name: boards[i].name.clone(),
                    owner: boards[i].owner,
                    team_name: name.clone(),
                },
            );
            proof {
                assert(out@ =~= named_boards(boards@.subrange(0, i + 1), name));
            }
            i += 1;
        }
        proof {
            assert(boards@.subrange(0, boards@.len() as int) =~= boards@);
        }
        out
    }
}

/// The name of a private board to create.
#[derive(Debug)]
pub struct PrivateBoardData {
    pub name: String,
}

/// The name of a team board to create and the team that will own it.
#[derive(Debug)]
pub struct TeamBoardData {
    pub name: String,
    pub owner: i32,
}

/// The name of a team to create and its members' usernames, joined by `;`.
#[derive(Debug)]
pub struct TeamData {
    pub name: String,
    pub members: String,
}

/// The new name of a board.
#[derive(Debug)]
pub struct BoardUpdate {
    pub name: String,
}

/// The name of a timer to create.
#[derive(Debug)]
pub struct TimerData {
    pub name: String,
}

/// A username and password as typed into the login form.
#[derive(Debug)]
pub struct Login {
    pub username: String,
    pub password: String,
}

/// What the login endpoint answers.
#[derive(Debug)]
pub struct LoginResponse {
    pub success: bool,
    pub token: String,
}

/// A milestone to create on a board.
#[derive(Debug)]
pub struct MilestoneCreate {
    pub id: Option<i32>,
    pub name: String,
    pub board_id: i32,
    pub board_type: String,
}

/// The id of the entity a page shows.
#[derive(Debug, Clone, Copy, PartialEq, Eq, Structural)]
pub struct IdProp {
    pub id: i32,
}

/// The subtasks of a task as one text, joined by `;`.
#[derive(Debug)]
pub struct SubTasksProps {
    pub subtasks: String,
}

impl SubTasksProps {
    /// The subtasks one by one, each as its characters, in order.
    pub fn sub_tasks(&self) -> (r: Vec<Vec<char>>)
        ensures
            r.len() == spec_split(self.subtasks@, ';').len(),
            forall|k: int|
                0 <= k < r.len() ==> (#[trigger] r[k])@ == spec_split(self.subtasks@, ';')[k],
    {
        split_terms(self.subtasks.as_str())
    }
}

/// The criteria of a task query. Every field narrows the result; a field at
/// its empty value (`""`, `None`) narrows nothing.
#[derive(Debug)]
pub struct TaskFilter {
    pub name: String,
    pub place: String,
    pub members: String,
    pub deadline_start: String,
    pub deadline_end: String,
    pub points_min: Option<i32>,
    pub points_max: Option<i32>,
    pub tags: String,
}

impl TaskFilter {
    /// No field constrains anything.
    pub open spec fn is_unconstrained(&self) -> bool {
        &&& self.name@.len() == 0
        &&& self.place@.len() == 0
        &&& self.members@.len() == 0
        &&& self.deadline_start@.len() == 0
        &&& self.deadline_end@.len() == 0
        &&& self.points_min is None
        &&& self.points_max is None
        &&& self.tags@.len() == 0
    }

    /// The text that stands for an optional bound in a form field: the
    /// number as `to_string` writes it, the empty text for no bound.
    pub open spec fn bound_text(bound: Option<i32>, text: String) -> bool {
        match bound {
            Some(v) => vstd::string::to_string_from_display_ensures::<i32>(&v, text),
            None => text@.len() == 0,
        }
    }

    /// The form fields that show this filter, as pairs of a field's name and
    /// the text to put into it, in the order in which they are to be set.
    pub fn set_filters(&self) -> (r: Vec<(String, String)>)
        ensures
            r.len() == 8,
            r[0].0@ == "nameTaskFilter"@ && r[0].1 == self.name,
            r[1].0@ == "placeFilter"@ && r[1].1 == self.place,
            r[2].0@ == "membersFilter"@ && r[2].1 == self.members,
            r[3].0@ == "deadlineStart"@ && r[3].1 == self.deadline_start,
            r[4].0@ == "deadlineEnd"@ && r[4].1 == self.deadline_end,
            r[5].0@ == "pointsMin"@ && Self::bound_text(self.points_min, r[5].1),
            r[6].0@ == "pointsMax"@ && Self::bound_text(self.points_max, r[6].1),
            r[7].0@ == "tagsFilter"@ && r[7].1 == self.tags,
    {
        let mut out: Vec<(String, String)> = Vec::new();
        out.push(("nameTaskFilter".to_owned(), self.name.clone()));
        out.push(("placeFilter".to_owned(), self.place.clone()));
        out.push(("membersFilter".to_owned(), self.members.clone()));
        out.push(("deadlineStart".to_owned(), self.deadline_start.clone()));
        out.push(("deadlineEnd".to_owned(), self.deadline_end.clone()));
        out.push(("pointsMin".to_owned(), Self::bound_field(self.points_min)));
        out.push(("pointsMax".to_owned(), Self::bound_field(self.points_max)));
        out.push(("tagsFilter".to_owned(), self.tags.clone()));
        out
    }

    /// The text of an optional bound.
    fn bound_field(bound: Option<i32>) -> (r: String)
        ensures
            Self::bound_text(bound, r),
    {
        match bound {
            Some(v) => v.to_string(),
            None => String::new(),
        }
    }

    /// The filter that lets every task through.
    pub fn unconstrained() -> (r: TaskFilter)
        ensures
            r.is_unconstrained(),
    {
        TaskFilter {
            name: String::new(),
            place: String::new(),
            members: String::new(),
            deadline_start: String::new(),
            deadline_end: String::new(),
            points_min: None,
            points_max: None,
            tags: String::new(),
        }
    }
}

impl Clone for TaskFilter {
    fn clone(&self) -> (r: Self)
        ensures
            r == *self,
    {
        TaskFilter {
            name: self.name.clone(),
            place: self.place.clone(),
            members: self.members.clone(),
            deadline_start: self.deadline_start.clone(),
            deadline_end: self.deadline_end.clone(),
            points_min: self.points_min,
            points_max: self.points_max,
            tags: self.tags.clone(),
        }
    }
}

} // verus!
