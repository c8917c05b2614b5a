use taskboard::task::Task;
use taskboard::text::{chars_of, contains, contains_all_terms, same_text, split_terms, str_le};
use taskboard::types::TaskFilter;

fn task(id: i32, list: i32, name: &str) -> Task {
    Task {
        id: Some(id),
        name: name.to_string(),
        list,
        note: None,
        place: Some("office".to_string()),
        members: Some("alice;bob".to_string()),
        deadline: "2024-05-10".to_string(),
        subtasks: "".to_string(),
        points: 5,
        tags: "urgent;backend".to_string(),
        done: 0,
        milestone: None,
    }
}

fn ids(tasks: &Vec<Task>) -> Vec<i32> {
    tasks.iter().map(|t| t.id.unwrap()).collect()
}

fn sample() -> Vec<Task> {
    let mut other_list = task(3, 8, "write report");
    other_list.points = 1;
    let mut bare = task(4, 7, "plan");
    bare.place = None;
    bare.members = None;
    bare.tags = "".to_string();
    bare.deadline = "".to_string();
    bare.points = -2;
    vec![task(1, 7, "write tests"), task(2, 7, "Write docs"), other_list, bare]
}

#[test]
fn unconstrained_filter_is_plain_listing() {
    let tasks = sample();
    let all = TaskFilter::unconstrained();
    assert_eq!(ids(&Task::filter(7, all.clone(), &tasks)), vec![1, 2, 4]);
    assert_eq!(ids(&Task::filter(7, all.clone(), &tasks)), ids(&Task::get(7, &tasks)));
    assert_eq!(ids(&Task::filter(8, all.clone(), &tasks)), vec![3]);
    assert_eq!(ids(&Task::filter(9, all.clone(), &tasks)), Vec::<i32>::new());
    assert_eq!(ids(&Task::filter(7, all.clone(), &Vec::new())), Vec::<i32>::new());
}

#[test]
fn members_need_every_term() {
    let t = task(1, 7, "a");
    let mut f = TaskFilter::unconstrained();
    f.members = "alice;carol".to_string();
    assert!(!t.satisfies(7, &f));
    f.members = "alice".to_string();
    assert!(t.satisfies(7, &f));
    f.members = "bob;alice".to_string();
    assert!(t.satisfies(7, &f));
    f.members = "alice;".to_string();
    assert!(t.satisfies(7, &f));
    f.members = "carol".to_string();
    assert!(!t.satisfies(7, &f));
    f.members = "lice;bo".to_string();
    assert!(t.satisfies(7, &f));
}

#[test]
fn tags_need_every_term() {
    let t = task(1, 7, "a");
    let mut f = TaskFilter::unconstrained();
    f.tags = "urgent;backend".to_string();
    assert!(t.satisfies(7, &f));
    f.tags = "urgent;frontend".to_string();
    assert!(!t.satisfies(7, &f));
    f.tags = "end".to_string();
    assert!(t.satisfies(7, &f));
}

#[test]
fn name_is_an_exact_substring() {
    let tasks = sample();
    let mut f = TaskFilter::unconstrained();
    f.name = "write".to_string();
    assert_eq!(ids(&Task::filter(7, f.clone(), &tasks)), vec![1]);
    f.name = "rite".to_string();
    assert_eq!(ids(&Task::filter(7, f.clone(), &tasks)), vec![1, 2]);
    f.name = "w%e".to_string();
    assert_eq!(ids(&Task::filter(7, f.clone(), &tasks)), Vec::<i32>::new());
    f.name = "writ_".to_string();
    assert_eq!(ids(&Task::filter(7, f.clone(), &tasks)), Vec::<i32>::new());
}

#[test]
fn absent_field_matches_only_the_empty_pattern() {
    let tasks = sample();
    let mut f = TaskFilter::unconstrained();
    assert!(tasks[3].satisfies(7, &f));
    f.place = "office".to_string();
    assert_eq!(ids(&Task::filter(7, f.clone(), &tasks)), vec![1, 2]);
    f.place = "".to_string();
    f.members = "alice".to_string();
    assert_eq!(ids(&Task::filter(7, f.clone(), &tasks)), vec![1, 2]);
    f.members = ";".to_string();
    assert_eq!(ids(&Task::filter(7, f.clone(), &tasks)), vec![1, 2, 4]);
}

#[test]
fn points_bounds_are_inclusive() {
    let tasks = sample();
    let mut f = TaskFilter::unconstrained();
    f.points_min = Some(5);
    assert_eq!(ids(&Task::filter(7, f.clone(), &tasks)), vec![1, 2]);
    f.points_min = Some(6);
    assert_eq!(ids(&Task::filter(7, f.clone(), &tasks)), Vec::<i32>::new());
    f.points_min = None;
    f.points_max = Some(5);
    assert_eq!(ids(&Task::filter(7, f.clone(), &tasks)), vec![1, 2, 4]);
    f.points_max = Some(4);
    assert_eq!(ids(&Task::filter(7, f.clone(), &tasks)), vec![4]);
    f.points_min = Some(-2);
    f.points_max = Some(-2);
    assert_eq!(ids(&Task::filter(7, f.clone(), &tasks)), vec![4]);
    f.points_min = Some(3);
    f.points_max = Some(2);
    assert_eq!(ids(&Task::filter(7, f.clone(), &tasks)), Vec::<i32>::new());
}

#[test]
fn deadline_bounds_compare_as_text() {
    let tasks = sample();
    let mut f = TaskFilter::unconstrained();
    f.deadline_start = "2024-05-10".to_string();
    assert_eq!(ids(&Task::filter(7, f.clone(), &tasks)), vec![1, 2]);
    f.deadline_start = "2024-05-11".to_string();
    assert_eq!(ids(&Task::filter(7, f.clone(), &tasks)), Vec::<i32>::new());
    f.deadline_start = "".to_string();
    f.deadline_end = "2024-05-10".to_string();
    assert_eq!(ids(&Task::filter(7, f.clone(), &tasks)), vec![1, 2, 4]);
    f.deadline_end = "2024-05-09".to_string();
    assert_eq!(ids(&Task::filter(7, f.clone(), &tasks)), vec![4]);
    f.deadline_end = "2024-05".to_string();
    assert_eq!(ids(&Task::filter(7, f.clone(), &tasks)), vec![4]);
    f.deadline_start = "2024-01-01".to_string();
    f.deadline_end = "2024-12-31".to_string();
    assert_eq!(ids(&Task::filter(7, f.clone(), &tasks)), vec![1, 2]);
}

#[test]
fn criteria_combine() {
    let tasks = sample();
    let mut f = TaskFilter::unconstrained();
    f.name = "rite".to_string();
    f.tags = "urgent".to_string();
    f.points_min = Some(1);
    f.members = "bob".to_string();
    assert_eq!(ids(&Task::filter(7, f.clone(), &tasks)), vec![1, 2]);
    assert_eq!(ids(&Task::filter(8, f.clone(), &tasks)), vec![3]);
    f.name = "docs".to_string();
    assert_eq!(ids(&Task::filter(7, f.clone(), &tasks)), vec![2]);
    let copy = f.clone();
    assert_eq!(ids(&Task::filter(7, copy.clone(), &tasks)), vec![2]);
}

#[test]
fn get_single_finds_the_first_with_the_id() {
    let mut tasks = sample();
    tasks.push(task(2, 9, "second with id two"));
    assert_eq!(Task::get_single(2, &tasks).unwrap().name, "Write docs");
    assert!(Task::get_single(42, &tasks).is_none());
    let mut unsaved = task(1, 1, "x");
    unsaved.id = None;
    assert!(Task::get_single(1, &vec![unsaved]).is_none());
}

#[test]
fn contains_finds_substrings() {
    assert!(contains("hello world", "o w"));
    assert!(contains("hello", ""));
    assert!(contains("", ""));
    assert!(!contains("", "a"));
    assert!(!contains("hello", "hello!"));
    assert!(contains("hello", "hello"));
    assert!(contains("aab", "ab"));
    assert!(!contains("Hello", "hello"));
    assert!(contains("zażółć gęślą", "ółć"));
    assert!(!contains("abc", "ac"));
}

#[test]
fn split_gives_one_more_piece_than_separators() {
    let text = |v: &Vec<char>| v.iter().collect::<String>();
    let pieces = |s: &str| split_terms(s).iter().map(text).collect::<Vec<String>>();
    assert_eq!(pieces(""), vec![""]);
    assert_eq!(pieces("a"), vec!["a"]);
    assert_eq!(pieces("a;b"), vec!["a", "b"]);
    assert_eq!(pieces(";"), vec!["", ""]);
    assert_eq!(pieces("a;;b;"), vec!["a", "", "b", ""]);
    assert_eq!(pieces("alice;bob"), "alice;bob".split(';').collect::<Vec<&str>>());
}

#[test]
fn all_terms_must_occur() {
    assert!(contains_all_terms("alice;bob", "alice"));
    assert!(!contains_all_terms("alice;bob", "alice;carol"));
    assert!(contains_all_terms("alice;bob", ""));
    assert!(contains_all_terms("", ""));
    assert!(contains_all_terms("", ";;"));
    assert!(!contains_all_terms("", "a"));
    assert!(!contains_all_terms("abc", "a;d"));
    assert!(!contains_all_terms("abc", "d;a"));
    assert!(contains_all_terms("abc", "c;b;a"));
}

#[test]
fn texts_compare_lexically() {
    assert!(str_le("", ""));
    assert!(str_le("", "a"));
    assert!(!str_le("a", ""));
    assert!(str_le("a", "a"));
    assert!(str_le("a", "b"));
    assert!(!str_le("b", "a"));
    assert!(str_le("ab", "abc"));
    assert!(!str_le("abc", "ab"));
    assert!(str_le("2024-05-10", "2024-05-11"));
    assert!(str_le("10", "9"));
    assert!(str_le("Z", "a"));
    assert_eq!(str_le("é", "z"), "é" <= "z");
}

#[test]
fn characters_of_a_text() {
    assert_eq!(chars_of("aé✓"), vec!['a', 'é', '✓']);
    assert_eq!(chars_of(""), Vec::<char>::new());
    assert!(same_text(&vec!['a', 'b'], "ab"));
    assert!(!same_text(&vec!['a', 'b'], "abc"));
    assert!(!same_text(&vec!['a', 'b'], "ac"));
    assert!(same_text(&Vec::new(), ""));
}

#[test]
fn filter_fields_for_the_form() {
    let mut f = TaskFilter::unconstrained();
    f.name = "n".to_string();
    f.place = "p".to_string();
    f.members = "m".to_string();
    f.deadline_start = "s".to_string();
    f.deadline_end = "e".to_string();
    f.points_min = Some(-3);
    f.tags = "t".to_string();
    let pair = |a: &str, b: &str| (a.to_string(), b.to_string());
    assert_eq!(
        f.set_filters(),
        vec![
            pair("nameTaskFilter", "n"),
            pair("placeFilter", "p"),
            pair("membersFilter", "m"),
            pair("deadlineStart", "s"),
            pair("deadlineEnd", "e"),
            pair("pointsMin", "-3"),
            pair("pointsMax", ""),
            pair("tagsFilter", "t"),
        ]
    );
    f.points_max = Some(12);
    assert_eq!(f.set_filters()[6], pair("pointsMax", "12"));
    assert_eq!(f.set_filters()[5], pair("pointsMin", "-3"));
}

#[test]
fn subtasks_one_by_one() {
    let props = taskboard::types::SubTasksProps {
        subtasks: "buy;cook;;eat".to_string(),
    };
    let got: Vec<String> = props
        .sub_tasks()
        .iter()
        .map(|v| v.iter().collect::<String>())
        .collect();
    assert_eq!(got, vec!["buy", "cook", "", "eat"]);
}
