//! Teams and who belongs to them. A user may act on a team's boards only
//! while a membership row relates the user to the team.
use crate::board::{owned_by_team, TeamBoard};
use crate::text::{spec_split, split_terms};
use crate::types::{named_boards, TeamBoardWithName, TeamData};
use crate::user::{id_of_name, users_stored, User};
use vstd::prelude::*;

verus! {

/// A team and the user who owns it.
#[derive(Debug)]
pub struct Team {
    pub id: Option<i32>,
    pub name: String,
    pub owner: i32,
}

/// A membership: user `user` belongs to team `team`.
#[derive(Debug, Clone, Copy, PartialEq, Eq, Structural)]
pub struct TeamUser {
    pub id: Option<i32>,
    pub team: i32,
    pub user: i32,
}

impl Clone for Team {
    fn clone(&self) -> (r: Self)
        ensures
            r == *self,
    {
        Team { id: self.id, name: self.name.clone(), owner: self.owner }
    }
}

/// Some membership row relates user `user_id` to team `team_id`.
pub open spec fn is_member(team_id: i32, user_id: i32, members: Seq<TeamUser>) -> bool {
    exists|i: int|
        0 <= i < members.len() && (#[trigger] members[i]).team == team_id && members[i].user
            == user_id
}

/// The predicate "is owned by user `user_id`".
pub open spec fn team_owned_by(user_id: i32) -> spec_fn(Team) -> bool {
    |t: Team| t.owner == user_id
}

/// The membership rows that creating a team adds: one for each member that
/// is known, in order, and none at all where the team itself is not known.
pub open spec fn membership_rows(members: Seq<Option<i32>>, team_id: Option<i32>) -> Seq<TeamUser>
    decreases members.len(),
{
    if members.len() == 0 || team_id is None {
        Seq::<TeamUser>::empty()
    } else {
        let before = membership_rows(members.drop_last(), team_id);
        match members.last() {
            Some(user) => before.push(TeamUser { id: None, team: team_id.unwrap(), user }),
            None => before,
        }
    }
}

/// The boards of the given teams, team by team, each with its team's name.
pub open spec fn boards_of_teams(teams: Seq<Team>, boards: Seq<TeamBoard>) -> Seq<
    TeamBoardWithName,
>
    decreases teams.len(),
{
    if teams.len() == 0 {
        Seq::<TeamBoardWithName>::empty()
    } else {
        boards_of_teams(teams.drop_last(), boards) + named_boards(
            boards.filter(owned_by_team(teams.last().id.unwrap())),
            teams.last().name,
        )
    }
}

/// The teams that the given memberships name, membership by membership:
/// for each, the teams with that id, in the order of `teams`.
pub open spec fn teams_of_memberships(rows: Seq<TeamUser>, teams: Seq<Team>) -> Seq<Team>
    decreases rows.len(),
{
    if rows.len() == 0 {
        Seq::<Team>::empty()
    } else {
        teams_of_memberships(rows.drop_last(), teams) + teams.filter(with_id(rows.last().team))
    }
}

/// The members of a team to create: the user of each name in the
/// `;`-joined list, as far as the name is known, and the creator last.
pub open spec fn named_members(names: Seq<char>, creator: Option<i32>, users: Seq<User>) -> Seq<
    Option<i32>,
> {
    spec_split(names, ';').map_values(|n: Seq<char>| id_of_name(n, users)).push(creator)
}

/// The predicate "has the id `id`".
pub open spec fn with_id(id: i32) -> spec_fn(Team) -> bool {
    |t: Team| t.id == Some(id)
}

/// The predicate "is a membership of user `user_id`".
pub open spec fn membership_of(user_id: i32) -> spec_fn(TeamUser) -> bool {
    |m: TeamUser| m.user == user_id
}

impl Team {
    /// Whether user `user_id` is a member of team `team_id`. `false` is no
    /// error: it is the answer for a team that does not exist as well.
    pub fn has_access(team_id: i32, user_id: i32, members: &Vec<TeamUser>) -> (r: bool)
        ensures
            r == is_member(team_id, user_id, members@),
    {
        let mut i: usize = 0;
        while i < members.len()
            invariant
                i <= members.len(),
                forall|j: int|
                    0 <= j < i ==> !((#[trigger] members[j]).team == team_id && members[j].user
                        == user_id),
            decreases members.len() - i,
        {
            if members[i].team == team_id && members[i].user == user_id {
                return true;
            }
            i += 1;
        }
        false
    }

    /// The members that a request to create a team names: one entry for each
    /// name in `data.members`, holding the user of that name or nothing
    /// where no user has it, and then the creator.
    pub fn resolve_members(data: &TeamData, creator: Option<i32>, users: &Vec<User>) -> (r: Vec<
        Option<i32>,
    >)
        requires
            users_stored(users@),
        ensures
            r@ == named_members(data.members@, creator, users@),
    {
        let names = split_terms(data.members.as_str());
        let ghost pieces = spec_split(data.members@, ';');
        let ghost lookup = |n: Seq<char>| id_of_name(n, users@);
        let mut out: Vec<Option<i32>> = Vec::new();
        let mut i: usize = 0;
        while i < names.len()
            invariant
                i <= names.len(),
                users_stored(users@),
                names.len() == pieces.len(),
                forall|k: int| 0 <= k < names.len() ==> (#[trigger] names[k])@ == pieces[k],
                lookup == (|n: Seq<char>| id_of_name(n, users@)),
                out@ == pieces.subrange(0, i as int).map_values(lookup),
            decreases names.len() - i,
        {
            let id = User::id_of_chars(&names[i], users);
            out.push(id);
            proof {
                assert(out@ =~= pieces.subrange(0, i + 1).map_values(lookup));
            }
            i += 1;
        }
        proof {
            assert(pieces.subrange(0, pieces.len() as int) =~= pieces);
        }
        out.push(creator);
        out
    }

    /// The membership row to store for a user joining a team: a row only
    /// where both the team and the user are known.
    pub fn add(team_id: Option<i32>, user_id: Option<i32>) -> (r: Option<TeamUser>)
        ensures
            r == (match (team_id, user_id) {
                (Some(team), Some(user)) => Some(TeamUser { id: None, team, user }),
                _ => None,
            }),
    {
        match (team_id, user_id) {
            (Some(team), Some(user)) => Some(TeamUser { id: None, team, user }),
            _ => None,
        }
    }

    /// The membership rows to store for a new team: one for each member that
    /// is known, in the order of `members`.
    pub fn create(members: Vec<Option<i32>>, team_id: Option<i32>) -> (r: Vec<TeamUser>)
        ensures
            r@ == membership_rows(members@, team_id),
    {
        let mut out: Vec<TeamUser> = Vec::new();
        let mut i: usize = 0;
        proof {
            assert(members@.subrange(0, 0) =~= Seq::<Option<i32>>::empty());
        }
        while i < members.len()
            invariant
                i <= members.len(),
                out@ == membership_rows(members@.subrange(0, i as int), team_id),
            decreases members.len() - i,
        {
            proof {
                assert(members@.subrange(0, i + 1).drop_last() =~= members@.subrange(0, i as int));
                assert(members@.subrange(0, i + 1).last() == members@[i as int]);
            }
            match Self::add(team_id, members[i]) {
                Some(row) => {
                    out.push(row);
                },
                None => {},
            }
            i += 1;
        }
        proof {
            assert(members@.subrange(0, members@.len() as int) =~= members@);
        }
        out
    }

    /// The id of the team called `name`. Where several teams carry the name,
    /// it is the least of their ids.
    pub fn get_name_id(name: String, teams: &Vec<Team>) -> (r: Option<i32>)
        requires
            forall|i: int|
                0 <= i < teams.len() && (#[trigger] teams[i]).name@ == name@ ==> teams[i].id
                    is Some,
        ensures
            match r {
                Some(id) => {
                    &&& exists|i: int|
                        0 <= i < teams.len() && (#[trigger] teams[i]).name@ == name@
                            && teams[i].id == Some(id)
                    &&& forall|j: int|
                        0 <= j < teams.len() && (#[trigger] teams[j]).name@ == name@ ==> id
                            <= teams[j].id.unwrap()
                },
                None => forall|j: int| 0 <= j < teams.len() ==> (#[trigger] teams[j]).name@ != name@,
            },
    {
        let mut best: Option<i32> = None;
        let mut i: usize = 0;
        while i < teams.len()
            invariant
                i <= teams.len(),
                forall|k: int|
                    0 <= k < teams.len() && (#[trigger] teams[k]).name@ == name@ ==> teams[k].id
                        is Some,
                match best {
                    Some(id) => {
                        &&& exists|k: int|
                            0 <= k < i && (#[trigger] teams[k]).name@ == name@ && teams[k].id
                                == Some(id)
                        &&& forall|j: int|
                            0 <= j < i && (#[trigger] teams[j]).name@ == name@ ==> id
                                <= teams[j].id.unwrap()
                    },
                    None => forall|j: int| 0 <= j < i ==> (#[trigger] teams[j]).name@ != name@,
                },
            decreases teams.len() - i,
        {
            if teams[i].name == name {
                let id = teams[i].id.unwrap();
                match best {
                    Some(least) => {
                        if id < least {
                            best = Some(id);
                        }
                    },
                    None => {
                        best = Some(id);
                    },
                }
            }
            i += 1;
        }
        best
    }

    /// The boards of every team that user `user_id` belongs to, each with
    /// its team's name: membership by membership, then team by team.
    pub fn get_teams_boards(
        user_id: i32,
        members: &Vec<TeamUser>,
        teams: &Vec<Team>,
        boards: &Vec<TeamBoard>,
    ) -> (r: Vec<TeamBoardWithName>)
        ensures
            r@ == boards_of_teams(
                teams_of_memberships(members@.filter(membership_of(user_id)), teams@),
                boards@,
            ),
    {
        let ghost mine = membership_of(user_id);
        let mut joined: Vec<Team> = Vec::new();
        let mut i: usize = 0;
        proof {
            reveal(Seq::filter);
            assert(members@.subrange(0, 0) =~= Seq::<TeamUser>::empty());
            assert(Seq::<TeamUser>::empty().filter(mine) =~= Seq::<TeamUser>::empty());
        }
        while i < members.len()
            invariant
                i <= members.len(),
                mine == membership_of(user_id),
                joined@ == teams_of_memberships(members@.subrange(0, i as int).filter(mine), teams@),
                forall|k: int| 0 <= k < joined.len() ==> (#[trigger] joined[k]).id is Some,
            decreases members.len() - i,
        {
            let ghost seen = members@.subrange(0, i as int);
            proof {
                seen.lemma_filter_push(members@[i as int], mine);
                assert(members@.subrange(0, i + 1) =~= seen.push(members@[i as int]));
            }
            if members[i].user == user_id {
                let team_id = members[i].team;
                let ghost wanted = with_id(team_id);
                let ghost start = joined@;
                proof {
                    assert(seen.filter(mine).push(members@[i as int]).drop_last() =~= seen.filter(
                        mine,
                    ));
                    assert(teams@.subrange(0, 0) =~= Seq::<Team>::empty());
                    assert(Seq::<Team>::empty().filter(wanted) =~= Seq::<Team>::empty());
                }
                let mut j: usize = 0;
                while j < teams.len()
                    invariant
                        j <= teams.len(),
                        wanted == with_id(team_id),
                        joined@ == start + teams@.subrange(0, j as int).filter(wanted),
                        forall|k: int| 0 <= k < joined.len() ==> (#[trigger] joined[k]).id is Some,
                    decreases teams.len() - j,
                {
                    proof {
                        teams@.subrange(0, j as int).lemma_filter_push(teams@[j as int], wanted);
                        assert(teams@.subrange(0, j + 1) =~= teams@.subrange(0, j as int).push(
                            teams@[j as int],
                        ));
                    }
                    if crate::utils::matches(teams[j].id, team_id) {
                        joined.push(teams[j].clone());
                    }
                    j += 1;
                }
                proof {
                    assert(teams@.subrange(0, teams@.len() as int) =~= teams@);
                }
            }
            i += 1;
        }
        proof {
            assert(members@.subrange(0, members@.len() as int) =~= members@);
            assert(joined@.subrange(0, 0) =~= Seq::<Team>::empty());
        }
        let mut out: Vec<TeamBoardWithName> = Vec::new();
        let mut t: usize = 0;
        while t < joined.len()
            invariant
                t <= joined.len(),
                forall|k: int| 0 <= k < joined.len() ==> (#[trigger] joined[k]).id is Some,
                out@ == boards_of_teams(joined@.subrange(0, t as int), boards@),
            decreases joined.len() - t,
        {
            proof {
                assert(joined@.subrange(0, t + 1).drop_last() =~= joined@.subrange(0, t as int));
                assert(joined@.subrange(0, t + 1).last() == joined@[t as int]);
            }
            let owned = TeamBoard::owned_by(joined[t].id.unwrap(), boards);
            let mut named = TeamBoardWithName::new(owned, joined[t].name.clone());
            out.append(&mut named);
            t += 1;
        }
        proof {
            assert(joined@.subrange(0, joined@.len() as int) =~= joined@);
        }
        out
    }

    /// The teams that user `user_id` owns, in the order of `teams`.
    pub fn get_owned(user_id: i32, teams: &Vec<Team>) -> (r: Vec<Team>)
        ensures
            r@ == teams@.filter(team_owned_by(user_id)),
    {
        let ghost pred = team_owned_by(user_id);
        let mut out: Vec<Team> = Vec::new();
        let mut i: usize = 0;
        proof {
            reveal(Seq::filter);
            assert(teams@.subrange(0, 0) =~= Seq::<Team>::empty());
            assert(Seq::<Team>::empty().filter(pred) =~= Seq::<Team>::empty());
        }
        while i < teams.len()
            invariant
                i <= teams.len(),
                pred == team_owned_by(user_id),
                out@ == teams@.subrange(0, i as int).filter(pred),
            decreases teams.len() - i,
        {
            proof {
                teams@.subrange(0, i as int).lemma_filter_push(teams@[i as int], pred);
                assert(teams@.subrange(0, i + 1) =~= teams@.subrange(0, i as int).push(
                    teams@[i as int],
                ));
            }
            if teams[i].owner == user_id {
                out.push(teams[i].clone());
            }
            i += 1;
        }
        proof {
            assert(teams@.subrange(0, teams@.len() as int) =~= teams@);
        }
        out
    }
}

/// No one is a member where there are no memberships, and a new row makes a
/// member of exactly the user and team it names: access comes by a
/// membership row and in no other way.
pub proof fn lemma_access_by_membership(
    team_id: i32,
    user_id: i32,
    members: Seq<TeamUser>,
    row: TeamUser,
)
    ensures
        !is_member(team_id, user_id, Seq::<TeamUser>::empty()),
        is_member(team_id, user_id, members.push(row)) == (is_member(team_id, user_id, members) || (
        row.team == team_id && row.user == user_id)),
{
    let grown = members.push(row);
    if is_member(team_id, user_id, members) {
        let i = choose|i: int|
            0 <= i < members.len() && (#[trigger] members[i]).team == team_id && members[i].user
                == user_id;
        assert(grown[i] == members[i]);
    }
    if row.team == team_id && row.user == user_id {
        assert(grown[members.len() as int] == row);
    }
    if is_member(team_id, user_id, grown) {
        let i = choose|i: int|
            0 <= i < grown.len() && (#[trigger] grown[i]).team == team_id && grown[i].user
                == user_id;
        if i < members.len() {
            assert(members[i] == grown[i]);
        }
    }
}

/// A user named among the members of a new team is a member of it once the
/// rows are stored; so the owner, who is always named, is.
pub proof fn lemma_created_member(
    members: Seq<Option<i32>>,
    team_id: i32,
    user_id: i32,
    stored: Seq<TeamUser>,
)
    requires
        members.contains(Some(user_id)),
    ensures
        is_member(team_id, user_id, stored + membership_rows(members, Some(team_id))),
    decreases members.len(),
{
    let rows = membership_rows(members, Some(team_id));
    let front = membership_rows(members.drop_last(), Some(team_id));
    let row = TeamUser { id: None, team: team_id, user: user_id };
    if members.last() == Some(user_id) {
        assert(rows == front.push(row));
        let all = stored + rows;
        assert(all[all.len() - 1] == row);
    } else {
        let k = choose|k: int| 0 <= k < members.len() && members[k] == Some(user_id);
        assert(members.drop_last()[k] == Some(user_id));
        lemma_created_member(members.drop_last(), team_id, user_id, stored);
        let earlier = stored + front;
        let i = choose|i: int|
            0 <= i < earlier.len() && (#[trigger] earlier[i]).team == team_id && earlier[i].user
                == user_id;
        let all = stored + rows;
        assert(all[i] == earlier[i]);
    }
}

/// The creator of a team is a member of it once its rows are stored,
/// whatever names the request gave besides.
pub proof fn lemma_owner_is_member(
    names: Seq<char>,
    creator: i32,
    users: Seq<User>,
    team_id: i32,
    stored: Seq<TeamUser>,
)
    ensures
        is_member(
            team_id,
            creator,
            stored + membership_rows(named_members(names, Some(creator), users), Some(team_id)),
        ),
{
    let members = named_members(names, Some(creator), users);
    assert(members[members.len() - 1] == Some(creator));
    lemma_created_member(members, team_id, creator, stored);
}

} // verus!
