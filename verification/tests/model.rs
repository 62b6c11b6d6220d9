use habit_tracker::HabitTracker;
use habit_tracker::Message;

fn submit_named(t: &mut HabitTracker, name: &str) {
    t.update(Message::UpdateNewHabitName(name.to_string()));
    t.update(Message::SubmitHabit);
}

#[test]
fn starts_empty() {
    let t = HabitTracker::new();
    assert_eq!(t.habits.len(), 0);
    assert_eq!(t.new_habit_name, "");
    assert_eq!(t.title(), "Habit Tracker");
}

#[test]
fn update_name_replaces_buffer() {
    let mut t = HabitTracker::new();
    t.update(Message::UpdateNewHabitName("Read".to_string()));
    assert_eq!(t.new_habit_name, "Read");
    t.update(Message::UpdateNewHabitName("Write".to_string()));
    assert_eq!(t.new_habit_name, "Write");
    assert_eq!(t.habits.len(), 0);
}

#[test]
fn submit_appends_fresh_habit() {
    let mut t = HabitTracker::new();
    submit_named(&mut t, "Read");
    assert_eq!(t.habits.len(), 1);
    assert_eq!(t.habits[0].name, "Read");
    assert_eq!(t.habits[0].completed.len(), 20);
    assert!(t.habits[0].completed.iter().all(|&b| !b));
    assert_eq!(t.new_habit_name, "");
}

#[test]
fn add_habit_same_as_submit() {
    let mut a = HabitTracker::new();
    a.update(Message::UpdateNewHabitName("Jog".to_string()));
    a.update(Message::AddHabit);
    let mut b = HabitTracker::new();
    b.update(Message::UpdateNewHabitName("Jog".to_string()));
    b.update(Message::SubmitHabit);
    assert_eq!(a.save_to_string(), b.save_to_string());
    assert_eq!(a.habits.len(), 1);
}

#[test]
fn submit_empty_name_is_noop() {
    let mut t = HabitTracker::new();
    submit_named(&mut t, "Read");
    let before = t.save_to_string();
    t.update(Message::SubmitHabit);
    assert_eq!(t.save_to_string(), before);
    t.update(Message::AddHabit);
    assert_eq!(t.save_to_string(), before);
    assert_eq!(t.habits.len(), 1);
}

#[test]
fn duplicate_names_permitted() {
    let mut t = HabitTracker::new();
    submit_named(&mut t, "Read");
    submit_named(&mut t, "Read");
    assert_eq!(t.habits.len(), 2);
    assert_eq!(t.habits[0].name, "Read");
    assert_eq!(t.habits[1].name, "Read");
}

#[test]
fn toggle_flips_one_flag() {
    let mut t = HabitTracker::new();
    submit_named(&mut t, "Read");
    submit_named(&mut t, "Jog");
    t.update(Message::ToggleHabit(1, 7));
    for d in 0..20 {
        assert!(!t.habits[0].completed[d]);
        assert_eq!(t.habits[1].completed[d], d == 7);
    }
}

#[test]
fn toggle_twice_restores() {
    let mut t = HabitTracker::new();
    submit_named(&mut t, "Read");
    t.update(Message::ToggleHabit(0, 4));
    let once = t.save_to_string();
    t.update(Message::ToggleHabit(0, 11));
    t.update(Message::ToggleHabit(0, 11));
    assert_eq!(t.save_to_string(), once);
    assert!(t.habits[0].completed[4]);
    assert!(!t.habits[0].completed[11]);
}

#[test]
fn toggle_out_of_range_ignored() {
    let mut t = HabitTracker::new();
    submit_named(&mut t, "Read");
    let before = t.save_to_string();
    t.update(Message::ToggleHabit(1, 0));
    t.update(Message::ToggleHabit(100, 3));
    assert_eq!(t.save_to_string(), before);
    let mut empty = HabitTracker::new();
    let before_empty = empty.save_to_string();
    empty.update(Message::ToggleHabit(0, 0));
    assert_eq!(empty.save_to_string(), before_empty);
}

#[test]
fn scenario_exercise() {
    let mut t = HabitTracker::new();
    t.update(Message::UpdateNewHabitName("Exercise".to_string()));
    t.update(Message::SubmitHabit);
    assert_eq!(t.habits.len(), 1);
    assert_eq!(t.habits[0].name, "Exercise");
    assert_eq!(t.habits[0].completed, vec![false; 20]);
    t.update(Message::ToggleHabit(0, 3));
    assert!(t.habits[0].completed[3]);
    t.update(Message::ToggleHabit(0, 3));
    assert!(!t.habits[0].completed[3]);
}
