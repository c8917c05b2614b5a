use taskboard::list::List;
use taskboard::milestone::{countable, Milestone};
use taskboard::task::Task;

fn list(id: i32, board: i32, board_type: &str) -> List {
    List {
        id: Some(id),
        name: format!("list {}", id),
        board,
        board_type: board_type.to_string(),
    }
}

fn task(id: i32, list: i32, milestone: Option<i32>, done: i32) -> Task {
    Task {
        id: Some(id),
        name: format!("task {}", id),
        list,
        note: None,
        place: None,
        members: None,
        deadline: "".to_string(),
        subtasks: "".to_string(),
        points: 0,
        tags: "".to_string(),
        done,
        milestone,
    }
}

fn milestone(id: i32, name: &str, board_id: i32, board_type: &str) -> Milestone {
    Milestone {
        id: Some(id),
        name: name.to_string(),
        board_id,
        board_type: board_type.to_string(),
    }
}

#[test]
fn milestone_follows_its_tasks() {
    let board = 1;
    let milestones = vec![milestone(1, "M1", board, "private")];
    let lists = vec![list(10, board, "private")];
    let mut tasks: Vec<Task> = Vec::new();

    let stats = Milestone::get(board, "private".to_string(), &milestones, &lists, &tasks);
    assert_eq!(stats.len(), 1);
    assert_eq!(stats[0].name, "M1");
    assert_eq!((stats[0].done, stats[0].total), (0, 0));

    tasks.push(task(100, 10, Some(1), 0));
    let stats = Milestone::get(board, "private".to_string(), &milestones, &lists, &tasks);
    assert_eq!((stats[0].done, stats[0].total), (0, 1));

    tasks[0].done = 1;
    let stats = Milestone::get(board, "private".to_string(), &milestones, &lists, &tasks);
    assert_eq!((stats[0].done, stats[0].total), (1, 1));
}

#[test]
fn counts_only_tasks_of_the_board_and_the_milestone() {
    let milestones = vec![
        milestone(1, "first", 1, "private"),
        milestone(2, "second", 1, "private"),
        milestone(3, "of a team board", 1, "team"),
        milestone(4, "of another board", 2, "private"),
    ];
    let lists = vec![
        list(10, 1, "private"),
        list(11, 1, "private"),
        list(12, 1, "team"),
        list(13, 2, "private"),
    ];
    let tasks = vec![
        task(100, 10, Some(1), 1),
        task(101, 10, Some(1), 0),
        task(102, 11, Some(1), 1),
        task(103, 11, Some(2), 0),
        task(104, 11, None, 1),
        task(105, 12, Some(1), 1),
        task(106, 13, Some(1), 1),
        task(107, 99, Some(1), 1),
        task(108, 10, Some(2), 2),
    ];

    let stats = Milestone::get(1, "private".to_string(), &milestones, &lists, &tasks);
    assert_eq!(stats.len(), 2);
    assert_eq!(stats[0].id, Some(1));
    assert_eq!(stats[0].name, "first");
    assert_eq!(stats[0].board_id, 1);
    assert_eq!(stats[0].board_type, "private");
    assert_eq!((stats[0].done, stats[0].total), (2, 3));
    assert_eq!(stats[1].id, Some(2));
    assert_eq!((stats[1].done, stats[1].total), (0, 2));
    for s in &stats {
        assert!(0 <= s.done && s.done <= s.total);
    }

    let team = Milestone::get(1, "team".to_string(), &milestones, &lists, &tasks);
    assert_eq!(team.len(), 1);
    assert_eq!((team[0].done, team[0].total), (0, 0));

    let none = Milestone::get(5, "private".to_string(), &milestones, &lists, &tasks);
    assert!(none.is_empty());
}

#[test]
fn stats_of_one_milestone() {
    let lists = vec![list(10, 1, "private"), list(10, 1, "private")];
    let tasks = vec![task(100, 10, Some(7), 1), task(101, 10, Some(7), 0)];
    let stats = Milestone::get_stats(milestone(7, "twice", 1, "private"), &lists, &tasks);
    assert_eq!((stats.done, stats.total), (2, 4));
    assert_eq!(stats.id, Some(7));
    assert_eq!(stats.name, "twice");
    let copy = stats.clone();
    assert_eq!((copy.done, copy.total), (2, 4));

    let empty = Milestone::get_stats(milestone(7, "none", 1, "private"), &Vec::new(), &tasks);
    assert_eq!((empty.done, empty.total), (0, 0));
}

#[test]
fn statistics_need_stored_rows() {
    let private = "private".to_string();
    let lists = vec![list(10, 1, "private"), list(11, 2, "private")];
    let tasks = vec![task(100, 10, Some(1), 1)];
    let stored = milestone(1, "m", 1, "private");
    assert!(stored.can_get_stats(&lists, &tasks));
    assert!(countable(&private, 1, &lists, &tasks));

    let mut unsaved = milestone(1, "m", 1, "private");
    unsaved.id = None;
    assert!(!unsaved.can_get_stats(&lists, &tasks));

    let mut broken = vec![list(10, 1, "private"), list(11, 2, "private")];
    broken[1].id = None;
    assert!(stored.can_get_stats(&broken, &tasks));
    assert!(!milestone(2, "other", 2, "private").can_get_stats(&broken, &tasks));
    assert!(countable(&private, 1, &broken, &tasks));
    assert!(!countable(&private, 2, &broken, &tasks));
    assert!(countable(&private, 3, &broken, &tasks));
    assert!(countable(&"team".to_string(), 2, &broken, &tasks));
}

#[test]
fn a_board_can_be_asked_for_its_statistics() {
    let private = "private".to_string();
    let lists = vec![list(10, 1, "private"), list(11, 2, "private")];
    let tasks = vec![task(100, 10, Some(1), 1)];
    let mut unsaved = milestone(2, "unsaved", 2, "private");
    unsaved.id = None;
    let milestones = vec![milestone(1, "m", 1, "private"), unsaved];
    assert!(Milestone::can_get(1, &private, &milestones, &lists, &tasks));
    assert!(!Milestone::can_get(2, &private, &milestones, &lists, &tasks));
    assert!(Milestone::can_get(3, &private, &milestones, &lists, &tasks));
    assert!(Milestone::can_get(2, &"team".to_string(), &milestones, &lists, &tasks));

    let mut broken = vec![list(10, 1, "private"), list(11, 2, "private")];
    broken[0].id = None;
    assert!(!Milestone::can_get(1, &private, &milestones, &broken, &tasks));
    assert!(Milestone::can_get(1, &private, &Vec::new(), &broken, &tasks));
    assert!(Milestone::can_get(
        2,
        &private,
        &vec![milestone(5, "five", 2, "private")],
        &broken,
        &tasks
    ));
}
