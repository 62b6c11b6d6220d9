use habit_tracker::HabitTracker;
use habit_tracker::Message;

fn submit_named(t: &mut HabitTracker, name: &str) {
    t.update(Message::UpdateNewHabitName(name.to_string()));
    t.update(Message::SubmitHabit);
}

fn same_state(a: &HabitTracker, b: &HabitTracker) -> bool {
    a.new_habit_name == b.new_habit_name && a.habits.len() == b.habits.len()
        && a.habits.iter().zip(b.habits.iter()).all(
            |(x, y)| x.name == y.name && x.completed == y.completed,
        )
}

#[test]
fn save_empty_state_exact() {
    let t = HabitTracker::new();
    assert_eq!(t.save_to_string(), "{\"habits\":[],\"new_habit_name\":\"\"}");
}

#[test]
fn save_one_habit_exact() {
    let mut t = HabitTracker::new();
    submit_named(&mut t, "Run");
    t.update(Message::ToggleHabit(0, 0));
    t.update(Message::ToggleHabit(0, 19));
    let mut flags = vec!["false"; 20];
    flags[0] = "true";
    flags[19] = "true";
    let expected = format!(
        "{{\"habits\":[{{\"name\":\"Run\",\"completed\":[{}]}}],\"new_habit_name\":\"\"}}",
        flags.join(","),
    );
    assert_eq!(t.save_to_string(), expected);
}

#[test]
fn save_escapes_name_exact() {
    let mut t = HabitTracker::new();
    submit_named(&mut t, "a\"b\\c\nd\u{1}e");
    let flags = vec!["false"; 20].join(",");
    let expected = format!(
        "{{\"habits\":[{{\"name\":\"a\\\"b\\\\c\\nd\\u0001e\",\"completed\":[{}]}}],\"new_habit_name\":\"\"}}",
        flags,
    );
    assert_eq!(t.save_to_string(), expected);
}

#[test]
fn roundtrip_empty() {
    let t = HabitTracker::new();
    let back = HabitTracker::load_from_str(&t.save_to_string());
    assert!(same_state(&t, &back));
}

#[test]
fn roundtrip_habits_and_staged_name() {
    let mut t = HabitTracker::new();
    submit_named(&mut t, "Read");
    submit_named(&mut t, "Jog");
    submit_named(&mut t, "Sleep early");
    t.update(Message::ToggleHabit(0, 3));
    t.update(Message::ToggleHabit(2, 0));
    t.update(Message::ToggleHabit(2, 19));
    t.update(Message::UpdateNewHabitName("half-typed".to_string()));
    let back = HabitTracker::load_from_str(&t.save_to_string());
    assert!(same_state(&t, &back));
    assert_eq!(back.new_habit_name, "half-typed");
    assert!(back.habits[2].completed[19]);
}

#[test]
fn roundtrip_awkward_names() {
    let names = [
        "quote \" backslash \\",
        "tab\tnewline\ncarriage\rreturn",
        "control \u{1} \u{8} \u{c} \u{1f} chars",
        "caf\u{e9} \u{2615} \u{1f600}",
        "",
    ];
    let mut t = HabitTracker::new();
    for name in names.iter() {
        submit_named(&mut t, name);
    }
    // the empty name is rejected, so only four habits exist
    assert_eq!(t.habits.len(), 4);
    t.update(Message::UpdateNewHabitName("\u{7} bell \\ \"".to_string()));
    let back = HabitTracker::load_from_str(&t.save_to_string());
    assert!(same_state(&t, &back));
    for (h, name) in back.habits.iter().zip(names.iter()) {
        assert_eq!(&h.name, name);
    }
}

#[test]
fn roundtrip_many_habits() {
    let mut t = HabitTracker::new();
    for k in 0..25 {
        submit_named(&mut t, &format!("habit {}", k));
        t.update(Message::ToggleHabit(k, k % 20));
    }
    let back = HabitTracker::load_from_str(&t.save_to_string());
    assert!(same_state(&t, &back));
}

#[test]
fn load_corrupt_falls_back_to_default() {
    let corrupt = [
        "",
        "garbage",
        "null",
        "[1,2]",
        "{\"habits\":[]}",
        "{\"habits\":[],\"new_habit_name\":\"\"} ",
        " {\"habits\":[],\"new_habit_name\":\"\"}",
        "{\"habits\": [],\"new_habit_name\":\"\"}",
        "{\"habits\":[{\"name\":\"x\",\"completed\":[]}],\"new_habit_name\":\"\"}",
        "{\"habits\":[],\"new_habit_name\":\"unterminated}",
        "{\"habits\":[],\"new_habit_name\":\"bad escape \\q\"}",
        "{\"habits\":[],\"new_habit_name\":\"bad hex \\u00zz\"}",
        "{\"habits\":[],\"new_habit_name\":\"not control \\u0041\"}",
    ];
    for text in corrupt.iter() {
        let t = HabitTracker::load_from_str(text);
        assert_eq!(t.habits.len(), 0, "input: {:?}", text);
        assert_eq!(t.new_habit_name, "", "input: {:?}", text);
    }
}

#[test]
fn load_rejects_wrong_flag_count() {
    let nineteen = vec!["false"; 19].join(",");
    let text = format!(
        "{{\"habits\":[{{\"name\":\"x\",\"completed\":[{}]}}],\"new_habit_name\":\"\"}}",
        nineteen,
    );
    let t = HabitTracker::load_from_str(&text);
    assert_eq!(t.habits.len(), 0);
}

#[test]
fn load_truncated_save_falls_back() {
    let mut t = HabitTracker::new();
    submit_named(&mut t, "Read");
    let saved = t.save_to_string();
    for cut in 1..saved.len() {
        if !saved.is_char_boundary(cut) {
            continue;
        }
        let back = HabitTracker::load_from_str(&saved[..cut]);
        assert_eq!(back.habits.len(), 0);
        assert_eq!(back.new_habit_name, "");
    }
}

#[test]
fn serde_json_reads_saved_text() {
    let mut t = HabitTracker::new();
    submit_named(&mut t, "a\"b\\c\nd\u{1}e caf\u{e9}");
    t.update(Message::ToggleHabit(0, 5));
    t.update(Message::UpdateNewHabitName("next \u{2615}".to_string()));
    let saved = t.save_to_string();
    let value: serde_json::Value = serde_json::from_str(&saved).expect("saved text is JSON");
    assert_eq!(value["new_habit_name"], "next \u{2615}");
    let habits = value["habits"].as_array().expect("habits is an array");
    assert_eq!(habits.len(), 1);
    assert_eq!(habits[0]["name"], "a\"b\\c\nd\u{1}e caf\u{e9}");
    let flags = habits[0]["completed"].as_array().expect("completed is an array");
    assert_eq!(flags.len(), 20);
    for (d, flag) in flags.iter().enumerate() {
        assert_eq!(flag.as_bool(), Some(d == 5));
    }
}
