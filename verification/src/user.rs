//! Users, and the lookups that turn a name into an identity.
use crate::board::{owned_by_user, PrivateBoard};
use crate::text::{chars_of, same_text};
use vstd::prelude::*;

verus! {

/// A registered user. The password is kept only to be compared.
#[derive(Debug)]
pub struct User {
    pub id: Option<i32>,
    pub username: String,
    pub password: String,
}

impl Clone for User {
    fn clone(&self) -> (r: Self)
        ensures
            r == *self,
    {
        User { id: self.id, username: self.username.clone(), password: self.password.clone() }
    }
}

/// Every user has an id, as every stored user does.
pub open spec fn users_stored(users: Seq<User>) -> bool {
    forall|i: int| 0 <= i < users.len() ==> (#[trigger] users[i]).id is Some
}

/// The least id among the users called `name`, if there is such a user.
pub open spec fn id_of_name(name: Seq<char>, users: Seq<User>) -> Option<i32>
    decreases users.len(),
{
    if users.len() == 0 {
        None
    } else {
        let rest = id_of_name(name, users.drop_last());
        let u = users.last();
        if u.username@ == name {
            match rest {
                Some(least) => if u.id.unwrap() < least {
                    u.id
                } else {
                    rest
                },
                None => u.id,
            }
        } else {
            rest
        }
    }
}

/// The position of the user that a login with these credentials finds: the
/// first, in the order of `users`, of those with the least id among the
/// users with this name and password.
pub open spec fn login_finds(
    username: Seq<char>,
    password: Seq<char>,
    users: Seq<User>,
    at: int,
) -> bool {
    &&& 0 <= at < users.len()
    &&& users[at].username@ == username
    &&& users[at].password@ == password
    &&& forall|j: int|
        0 <= j < users.len() && (#[trigger] users[j]).username@ == username && users[j].password@
            == password ==> {
            &&& users[at].id.unwrap() <= users[j].id.unwrap()
            &&& (j < at ==> users[at].id.unwrap() < users[j].id.unwrap())
        }
}

/// What `id_of_name` finds is the id of a user with that name, and no user
/// with that name has a lesser one; it finds nothing only where no user has
/// the name.
pub proof fn lemma_id_of_name(name: Seq<char>, users: Seq<User>)
    requires
        users_stored(users),
    ensures
        match id_of_name(name, users) {
            Some(id) => {
                &&& exists|i: int|
                    0 <= i < users.len() && (#[trigger] users[i]).username@ == name && users[i].id
                        == Some(id)
                &&& forall|j: int|
                    0 <= j < users.len() && (#[trigger] users[j]).username@ == name ==> id
                        <= users[j].id.unwrap()
            },
            None => forall|j: int| 0 <= j < users.len() ==> (#[trigger] users[j]).username@ != name,
        },
    decreases users.len(),
{
    if users.len() > 0 {
        let front = users.drop_last();
        assert(users_stored(front)) by {
            assert forall|i: int| 0 <= i < front.len() implies (#[trigger] front[i]).id is Some by {
                assert(front[i] == users[i]);
            }
        }
        lemma_id_of_name(name, front);
        let last = users.len() - 1;
        assert forall|j: int| 0 <= j < last implies front[j] == users[j] by {}
        match id_of_name(name, users) {
            Some(id) => {
                if users[last].username@ == name && users[last].id == Some(id) {
                    assert(users[last].username@ == name && users[last].id == Some(id));
                } else {
                    let i = choose|i: int|
                        0 <= i < front.len() && (#[trigger] front[i]).username@ == name
                            && front[i].id == Some(id);
                    assert(users[i].username@ == name && users[i].id == Some(id));
                }
                assert forall|j: int|
                    0 <= j < users.len() && (#[trigger] users[j]).username@ == name implies id
                    <= users[j].id.unwrap() by {
                    if j < last {
                        assert(front[j].username@ == name);
                    }
                }
            },
            None => {
                assert forall|j: int| 0 <= j < users.len() implies (#[trigger] users[j]).username@
                    != name by {
                    if j < last {
                        assert(front[j].username@ != name);
                    }
                }
            },
        }
    }
}

impl User {
    /// The id of the user whose name has these characters.
    pub fn id_of_chars(name: &Vec<char>, users: &Vec<User>) -> (r: Option<i32>)
        requires
            users_stored(users@),
        ensures
            r == id_of_name(name@, users@),
    {
        let mut best: Option<i32> = None;
        let mut i: usize = 0;
        proof {
            assert(users@.subrange(0, 0) =~= Seq::<User>::empty());
        }
        while i < users.len()
            invariant
                i <= users.len(),
                users_stored(users@),
                best == id_of_name(name@, users@.subrange(0, i as int)),
            decreases users.len() - i,
        {
            proof {
                assert(users@.subrange(0, i + 1).drop_last() =~= users@.subrange(0, i as int));
                assert(users@.subrange(0, i + 1).last() == users@[i as int]);
            }
            if same_text(name, users[i].username.as_str()) {
                let id = users[i].id.unwrap();
                match best {
                    Some(least) => {
                        if id < least {
                            best = Some(id);
                        }
                    },
                    None => {
                        best = Some(id);
                    },
                }
            }
            i += 1;
        }
        proof {
            assert(users@.subrange(0, users@.len() as int) =~= users@);
        }
        best
    }

    /// The id of the user called `username`: the least id where several
    /// users carry the name, nothing where none does.
    pub fn get_username_id(username: String, users: &Vec<User>) -> (r: Option<i32>)
        requires
            users_stored(users@),
        ensures
            r == id_of_name(username@, users@),
    {
        let name = chars_of(username.as_str());
        Self::id_of_chars(&name, users)
    }

    /// The user with this name and this password, if there is one; where
    /// there are several, the one with the least id.
    pub fn by_username_and_password(username_: String, password_: String, users: &Vec<User>) -> (r:
        Option<User>)
        requires
            users_stored(users@),
        ensures
            match r {
                Some(u) => exists|at: int|
                    login_finds(username_@, password_@, users@, at) && users[at] == u,
                None => forall|j: int|
                    0 <= j < users.len() ==> !((#[trigger] users[j]).username@ == username_@
                        && users[j].password@ == password_@),
            },
    {
        let mut best: Option<usize> = None;
        let mut i: usize = 0;
        while i < users.len()
            invariant
                i <= users.len(),
                users_stored(users@),
                match best {
                    Some(at) => {
                        &&& at < i
                        &&& users[at as int].username@ == username_@
                        &&& users[at as int].password@ == password_@
                        &&& forall|j: int|
                            0 <= j < i && (#[trigger] users[j]).username@ == username_@
                                && users[j].password@ == password_@ ==> {
                                &&& users[at as int].id.unwrap() <= users[j].id.unwrap()
                                &&& (j < at ==> users[at as int].id.unwrap()
                                    < users[j].id.unwrap())
                            }
                    },
                    None => forall|j: int|
                        0 <= j < i ==> !((#[trigger] users[j]).username@ == username_@
                            && users[j].password@ == password_@),
                },
            decreases users.len() - i,
        {
            if users[i].username == username_ && users[i].password == password_ {
                match best {
                    Some(at) => {
                        if users[i].id.unwrap() < users[at].id.unwrap() {
                            best = Some(i);
                        }
                    },
                    None => {
                        best = Some(i);
                    },
                }
            }
            i += 1;
        }
        match best {
            Some(at) => {
                proof {
                    assert(login_finds(username_@, password_@, users@, at as int));
                }
                Some(users[at].clone())
            },
            None => None,
        }
    }

    /// The private boards of user `user_id`, in the order of `boards`.
    pub fn get_private_boards(user_id: i32, boards: &Vec<PrivateBoard>) -> (r: Vec<PrivateBoard>)
        ensures
            r@ == boards@.filter(owned_by_user(user_id)),
    {
        let ghost pred = owned_by_user(user_id);
        let mut out: Vec<PrivateBoard> = Vec::new();
        let mut i: usize = 0;
        proof {
            reveal(Seq::filter);
            assert(boards@.subrange(0, 0) =~= Seq::<PrivateBoard>::empty());
            assert(Seq::<PrivateBoard>::empty().filter(pred) =~= Seq::<PrivateBoard>::empty());
        }
        while i < boards.len()
            invariant
                i <= boards.len(),
                pred == owned_by_user(user_id),
                out@ == boards@.subrange(0, i as int).filter(pred),
            decreases boards.len() - i,
        {
            proof {
                boards@.subrange(0, i as int).lemma_filter_push(boards@[i as int], pred);
                assert(boards@.subrange(0, i + 1) =~= boards@.subrange(0, i as int).push(
                    boards@[i as int],
                ));
            }
            if boards[i].owner == user_id {
                out.push(boards[i].clone());
            }
            i += 1;
        }
        proof {
            assert(boards@.subrange(0, boards@.len() as int) =~= boards@);
        }
        out
    }
}

} // verus!
