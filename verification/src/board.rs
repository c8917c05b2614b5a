//! Boards: a private board belongs to one user, a team board to a team.
use crate::team::{is_member, Team, TeamUser};
use crate::types::{PrivateBoardData, TeamBoardData};
use vstd::prelude::*;

verus! {

/// A board owned by the user `owner`.
#[derive(Debug)]
pub struct PrivateBoard {
    pub id: Option<i32>,
    pub name: String,
    pub owner: i32,
}

/// A board owned by the team `owner`.
#[derive(Debug)]
pub struct TeamBoard {
    pub id: Option<i32>,
    pub name: String,
    pub owner: i32,
}

impl Clone for PrivateBoard {
    fn clone(&self) -> (r: Self)
        ensures
            r == *self,
    {
        PrivateBoard { id: self.id, name: self.name.clone(), owner: self.owner }
    }
}

impl Clone for TeamBoard {
    fn clone(&self) -> (r: Self)
        ensures
            r == *self,
    {
        TeamBoard { id: self.id, name: self.name.clone(), owner: self.owner }
    }
}

/// The predicate "is owned by user `user_id`".
pub open spec fn owned_by_user(user_id: i32) -> spec_fn(PrivateBoard) -> bool {
    |b: PrivateBoard| b.owner == user_id
}

/// The predicate "is owned by team `team_id`".
pub open spec fn owned_by_team(team_id: i32) -> spec_fn(TeamBoard) -> bool {
    |b: TeamBoard| b.owner == team_id
}

impl PrivateBoard {
    /// The board that a request to create a private board leads to: a new
    /// board of the asking user, or nothing where the user is not known.
    pub fn create(data: &PrivateBoardData, user_id: Option<i32>) -> (r: Option<PrivateBoard>)
        ensures
            r is Some <==> user_id is Some,
            r matches Some(b) ==> b.id is None && b.name == data.name && Some(b.owner) == user_id,
    {
        match user_id {
            Some(owner) => Some(PrivateBoard { id: None, owner, name: data.name.clone() }),
            None => None,
        }
    }
}

impl TeamBoard {
    /// The boards that team `team_id` owns, in the order of `boards`.
    pub fn owned_by(team_id: i32, boards: &Vec<TeamBoard>) -> (r: Vec<TeamBoard>)
        ensures
            r@ == boards@.filter(owned_by_team(team_id)),
    {
        let ghost pred = owned_by_team(team_id);
        let mut out: Vec<TeamBoard> = Vec::new();
        let mut i: usize = 0;
        proof {
            reveal(Seq::filter);
            assert(boards@.subrange(0, 0) =~= Seq::<TeamBoard>::empty());
            assert(Seq::<TeamBoard>::empty().filter(pred) =~= Seq::<TeamBoard>::empty());
        }
        while i < boards.len()
            invariant
                i <= boards.len(),
                pred == owned_by_team(team_id),
                out@ == boards@.subrange(0, i as int).filter(pred),
            decreases boards.len() - i,
        {
            proof {
                boards@.subrange(0, i as int).lemma_filter_push(boards@[i as int], pred);
                assert(boards@.subrange(0, i + 1) =~= boards@.subrange(0, i as int).push(
                    boards@[i as int],
                ));
            }
            if boards[i].owner == team_id {
                out.push(boards[i].clone());
            }
            i += 1;
        }
        proof {
            assert(boards@.subrange(0, boards@.len() as int) =~= boards@);
        }
        out
    }

    /// The board that a request to create a team board leads to. The request
    /// is refused, and nothing is to be stored, unless the asking user is
    /// known and is a member of the team that is to own the board.
    pub fn create(data: &TeamBoardData, user_id: Option<i32>, members: &Vec<TeamUser>) -> (r:
        Option<TeamBoard>)
        ensures
            r is Some <==> (user_id matches Some(u) && is_member(data.owner, u, members@)),
            r matches Some(b) ==> b.id is None && b.name == data.name && b.owner == data.owner,
    {
        match user_id {
            Some(user) => {
                if Team::has_access(data.owner, user, members) {
                    Some(TeamBoard { id: None, owner: data.owner, name: data.name.clone() })
                } else {
                    None
                }
            },
            None => None,
        }
    }
}

} // verus!
