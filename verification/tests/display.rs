use task_list::{
    get_string_representation_from_task_list, try_parse_action, try_update_task_list, Action, Task,
};

#[test]
fn should_display_list() {
    let mut tasks: Vec<Task> = Vec::new();
    tasks.push(Task {
        description: String::from("Test 1"),
        is_done: true,
    });
    tasks.push(Task {
        description: String::from("Test 2"),
        is_done: false,
    });
    assert_eq!(
        String::from("1 [x] Test 1\n2 [ ] Test 2\n"),
        get_string_representation_from_task_list(&tasks)
    );
}

#[test]
fn should_display_empty_list() {
    let tasks: Vec<Task> = Vec::new();
    assert_eq!(
        String::from("No task yet"),
        get_string_representation_from_task_list(&tasks)
    )
}

#[test]
fn one_task_gives_one_line() {
    let pending = vec![Task { description: String::from("a"), is_done: false }];
    assert_eq!("1 [ ] a\n", get_string_representation_from_task_list(&pending));
    let done = vec![Task { description: String::from("a"), is_done: true }];
    assert_eq!("1 [x] a\n", get_string_representation_from_task_list(&done));
}

#[test]
fn description_is_shown_as_it_is() {
    let tasks = vec![
        Task { description: String::new(), is_done: false },
        Task { description: String::from("two words"), is_done: true },
        Task { description: String::from("caf\u{e9} \u{1F600}"), is_done: false },
        Task { description: String::from("No task yet"), is_done: false },
    ];
    assert_eq!(
        "1 [ ] \n2 [x] two words\n3 [ ] caf\u{e9} \u{1F600}\n4 [ ] No task yet\n",
        get_string_representation_from_task_list(&tasks)
    );
}

#[test]
fn positions_count_from_one_in_decimal() {
    let mut tasks: Vec<Task> = Vec::new();
    let mut expected = String::new();
    for i in 0..1234 {
        tasks.push(Task { description: format!("t{}", i), is_done: i % 3 == 0 });
        let mark = if i % 3 == 0 { "x" } else { " " };
        expected += &format!("{} [{}] t{}\n", i + 1, mark, i);
    }
    let text = get_string_representation_from_task_list(&tasks);
    assert_eq!(expected, text);
    assert!(text.starts_with("1 [x] t0\n2 [ ] t1\n"));
    assert!(text.contains("\n9 [ ] t8\n10 [x] t9\n11 [ ] t10\n"));
    assert!(text.contains("\n99 [ ] t98\n100 [x] t99\n101 [ ] t100\n"));
    assert!(text.contains("\n999 [ ] t998\n1000 [x] t999\n1001 [ ] t1000\n"));
    assert!(text.ends_with("\n1233 [ ] t1232\n1234 [x] t1233\n"));
}

#[test]
fn shown_position_selects_the_task() {
    let mut tasks: Vec<Task> = Vec::new();
    for name in ["a", "b", "c", "d", "e", "f", "g", "h", "i", "j", "k", "l"] {
        tasks.push(Task { description: String::from(name), is_done: false });
    }
    let text = get_string_representation_from_task_list(&tasks);
    let line = text.lines().find(|line| line.ends_with("] k")).unwrap();
    let position = line.split_whitespace().next().unwrap();
    assert_eq!("11", position);
    let action = try_parse_action(&format!("x {}", position)).unwrap();
    assert_eq!(Action::SetDone(10), action);
    assert_eq!(Ok(()), try_update_task_list(&mut tasks, action));
    assert!(tasks[10].is_done);
    assert!(get_string_representation_from_task_list(&tasks).contains("\n11 [x] k\n"));
}

#[test]
fn commands_in_a_row() {
    let mut tasks: Vec<Task> = Vec::new();
    let lines = ["+ bread", "+ milk", "+ eggs", "x 2", "- 1", "o 5", "+ tea", "x 3", "o 1"];
    for line in lines {
        let action = try_parse_action(line).unwrap();
        assert_eq!(Ok(()), try_update_task_list(&mut tasks, action));
    }
    assert_eq!(
        "1 [ ] milk\n2 [ ] eggs\n3 [x] tea\n",
        get_string_representation_from_task_list(&tasks)
    );
}
