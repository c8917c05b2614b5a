use taskboard::auth::{login, LoginError};
use taskboard::board::{PrivateBoard, TeamBoard};
use taskboard::team::{Team, TeamUser};
use taskboard::types::{Credentials, PrivateBoardData, TeamBoardData, TeamData};
use taskboard::user::User;

fn user(id: i32, name: &str, password: &str) -> User {
    User {
        id: Some(id),
        username: name.to_string(),
        password: password.to_string(),
    }
}

fn users() -> Vec<User> {
    vec![
        user(3, "carol", "c"),
        user(1, "alice", "a"),
        user(2, "bob", "b"),
        user(5, "alice", "other"),
        user(4, "bob", "b"),
    ]
}

fn member(team: i32, user: i32) -> TeamUser {
    TeamUser { id: None, team, user }
}

#[test]
fn access_needs_a_membership() {
    let members = vec![member(1, 10), member(2, 11)];
    assert!(Team::has_access(1, 10, &members));
    assert!(Team::has_access(2, 11, &members));
    assert!(!Team::has_access(1, 11, &members));
    assert!(!Team::has_access(2, 10, &members));
    assert!(!Team::has_access(3, 10, &members));
    assert!(!Team::has_access(10, 1, &members));
    assert!(!Team::has_access(1, 10, &Vec::new()));
}

#[test]
fn team_board_is_refused_without_membership() {
    let members = vec![member(1, 10)];
    let data = TeamBoardData {
        name: "B".to_string(),
        owner: 1,
    };
    let made = TeamBoard::create(&data, Some(10), &members).unwrap();
    assert_eq!(made.id, None);
    assert_eq!(made.name, "B");
    assert_eq!(made.owner, 1);
    assert!(TeamBoard::create(&data, Some(11), &members).is_none());
    assert!(TeamBoard::create(&data, None, &members).is_none());
    let other = TeamBoardData {
        name: "B".to_string(),
        owner: 2,
    };
    assert!(TeamBoard::create(&other, Some(10), &members).is_none());
}

#[test]
fn private_board_needs_a_known_user() {
    let data = PrivateBoardData {
        name: "B".to_string(),
    };
    let made = PrivateBoard::create(&data, Some(4)).unwrap();
    assert_eq!((made.id, made.name.as_str(), made.owner), (None, "B", 4));
    assert!(PrivateBoard::create(&data, None).is_none());
}

#[test]
fn membership_rows_of_a_new_team() {
    assert_eq!(Team::add(Some(1), Some(2)), Some(member(1, 2)));
    assert_eq!(Team::add(None, Some(2)), None);
    assert_eq!(Team::add(Some(1), None), None);
    assert_eq!(Team::add(None, None), None);

    let rows = Team::create(vec![Some(7), None, Some(8), Some(7)], Some(3));
    assert_eq!(rows, vec![member(3, 7), member(3, 8), member(3, 7)]);
    assert!(Team::create(vec![Some(7), Some(8)], None).is_empty());
    assert!(Team::create(Vec::new(), Some(3)).is_empty());
}

#[test]
fn owner_becomes_a_member() {
    let all = users();
    let data = TeamData {
        name: "T".to_string(),
        members: "bob;nobody;alice".to_string(),
    };
    let creator = User::get_username_id("carol".to_string(), &all);
    let named = Team::resolve_members(&data, creator, &all);
    assert_eq!(named, vec![Some(2), None, Some(1), Some(3)]);
    let rows = Team::create(named, Some(9));
    assert!(Team::has_access(9, 3, &rows));
    assert!(Team::has_access(9, 2, &rows));
    assert!(Team::has_access(9, 1, &rows));
    assert!(!Team::has_access(9, 4, &rows));

    let alone = TeamData {
        name: "T".to_string(),
        members: "".to_string(),
    };
    assert_eq!(Team::resolve_members(&alone, Some(3), &all), vec![None, Some(3)]);
}

#[test]
fn names_resolve_to_the_least_id() {
    let all = users();
    assert_eq!(User::get_username_id("alice".to_string(), &all), Some(1));
    assert_eq!(User::get_username_id("bob".to_string(), &all), Some(2));
    assert_eq!(User::get_username_id("carol".to_string(), &all), Some(3));
    assert_eq!(User::get_username_id("dave".to_string(), &all), None);
    assert_eq!(User::get_username_id("Alice".to_string(), &all), None);
    assert_eq!(User::get_username_id("".to_string(), &all), None);
    assert_eq!(User::id_of_chars(&vec!['b', 'o', 'b'], &all), Some(2));

    let teams = vec![
        Team { id: Some(6), name: "x".to_string(), owner: 1 },
        Team { id: Some(4), name: "y".to_string(), owner: 1 },
        Team { id: Some(5), name: "x".to_string(), owner: 2 },
    ];
    assert_eq!(Team::get_name_id("x".to_string(), &teams), Some(5));
    assert_eq!(Team::get_name_id("y".to_string(), &teams), Some(4));
    assert_eq!(Team::get_name_id("z".to_string(), &teams), None);
    let owned = Team::get_owned(1, &teams);
    assert_eq!(owned.iter().map(|t| t.id.unwrap()).collect::<Vec<i32>>(), vec![6, 4]);
    assert!(Team::get_owned(3, &teams).is_empty());
}

#[test]
fn login_needs_name_and_password() {
    let all = users();
    let found = User::by_username_and_password("bob".to_string(), "b".to_string(), &all).unwrap();
    assert_eq!(found.id, Some(2));
    let found =
        User::by_username_and_password("alice".to_string(), "other".to_string(), &all).unwrap();
    assert_eq!(found.id, Some(5));
    assert!(User::by_username_and_password("alice".to_string(), "b".to_string(), &all).is_none());
    assert!(User::by_username_and_password("dave".to_string(), "a".to_string(), &all).is_none());

    let wrong = Credentials {
        username: "alice".to_string(),
        password: "wrong".to_string(),
    };
    assert_eq!(login(&wrong, &all).err(), Some(LoginError::NotFound));
    assert_eq!(login(&wrong.clone(), &Vec::new()).err(), Some(LoginError::NotFound));
}

#[test]
fn boards_of_the_teams_of_a_user() {
    let members = vec![member(1, 10), member(2, 11), member(3, 10), member(1, 10)];
    let teams = vec![
        Team { id: Some(3), name: "three".to_string(), owner: 11 },
        Team { id: Some(1), name: "one".to_string(), owner: 10 },
        Team { id: Some(2), name: "two".to_string(), owner: 11 },
    ];
    let board = |id: i32, name: &str, owner: i32| TeamBoard {
        id: Some(id),
        name: name.to_string(),
        owner,
    };
    let boards = vec![
        board(1, "a", 1),
        board(2, "b", 2),
        board(3, "c", 3),
        board(4, "d", 1),
    ];
    let got = Team::get_teams_boards(10, &members, &teams, &boards);
    let seen: Vec<(i32, String, i32, String)> = got
        .into_iter()
        .map(|b| (b.id.unwrap(), b.name, b.owner, b.team_name))
        .collect();
    let row = |id: i32, name: &str, owner: i32, team: &str| {
        (id, name.to_string(), owner, team.to_string())
    };
    assert_eq!(
        seen,
        vec![
            row(1, "a", 1, "one"),
            row(4, "d", 1, "one"),
            row(3, "c", 3, "three"),
            row(1, "a", 1, "one"),
            row(4, "d", 1, "one"),
        ]
    );
    assert!(Team::get_teams_boards(12, &members, &teams, &boards).is_empty());
    let owned = TeamBoard::owned_by(1, &boards);
    assert_eq!(owned.iter().map(|b| b.id.unwrap()).collect::<Vec<i32>>(), vec![1, 4]);

    let private = vec![
        PrivateBoard { id: Some(1), name: "p".to_string(), owner: 10 },
        PrivateBoard { id: Some(2), name: "q".to_string(), owner: 11 },
        PrivateBoard { id: Some(3), name: "r".to_string(), owner: 10 },
    ];
    let mine = User::get_private_boards(10, &private);
    assert_eq!(mine.iter().map(|b| b.id.unwrap()).collect::<Vec<i32>>(), vec![1, 3]);
}
