//! The tracker's data model and its event reducer.

use vstd::prelude::*;

verus! {

use crate::DAY_COUNT;

/// A named habit with one completion flag per tracked day.
///
/// Invariant (see [`habit_wf`]): `completed` always holds exactly
/// [`DAY_COUNT`] flags; the vector is never resized.
pub struct Habit {
    pub name: String,
    pub completed: Vec<bool>,
}

/// Mathematical model of a [`Habit`].
#[verifier::ext_equal]
pub struct HabitModel {
    pub name: Seq<char>,
    pub completed: Seq<bool>,
}

impl View for Habit {
    type V = HabitModel;

    open spec fn view(&self) -> HabitModel {
        HabitModel { name: self.name@, completed: self.completed@ }
    }
}

/// The whole application state: the habit list in insertion order
/// (duplicate names permitted) and the staging buffer for the
/// name of a not-yet-created habit.
pub struct HabitTracker {
    pub habits: Vec<Habit>,
    pub new_habit_name: String,
}

/// Mathematical model of a [`HabitTracker`].
#[verifier::ext_equal]
pub struct TrackerModel {
    pub habits: Seq<HabitModel>,
    pub new_habit_name: Seq<char>,
}

/// The habit list a vector of habits stands for.
pub open spec fn habits_model(hs: Seq<Habit>) -> Seq<HabitModel> {
    Seq::new(hs.len(), |i: int| hs[i]@)
}

impl View for HabitTracker {
    type V = TrackerModel;

    open spec fn view(&self) -> TrackerModel {
        TrackerModel {
            habits: habits_model(self.habits@),
            new_habit_name: self.new_habit_name@,
        }
    }
}

/// The four events the reducer answers to.
#[derive(Debug, Clone)]
pub enum Message {
    AddHabit,
    ToggleHabit(usize, usize),
    UpdateNewHabitName(String),
    SubmitHabit,
}

/// A habit is well formed when it tracks exactly [`DAY_COUNT`] days.
pub open spec fn habit_wf(h: HabitModel) -> bool {
    h.completed.len() == DAY_COUNT
}

/// A tracker state is well formed when every habit in it is.
pub open spec fn tracker_wf(t: TrackerModel) -> bool {
    forall|i: int| 0 <= i < t.habits.len() ==> habit_wf(#[trigger] t.habits[i])
}

/// The state a run starts from when nothing was persisted: no habits,
/// empty staging buffer.
pub open spec fn empty_model() -> TrackerModel {
    TrackerModel { habits: Seq::empty(), new_habit_name: Seq::empty() }
}

/// A habit as it is born: the staged name and all flags cleared.
pub open spec fn fresh_habit(name: Seq<char>) -> HabitModel {
    HabitModel { name: name, completed: Seq::new(DAY_COUNT as nat, |i: int| false) }
}

/// Effect of `AddHabit` / `SubmitHabit`: with a non-empty staging buffer,
/// append one fresh habit named by it and clear the buffer; with an
/// empty buffer, change nothing.
pub open spec fn submit_model(t: TrackerModel) -> TrackerModel {
    if t.new_habit_name.len() == 0 {
        t
    } else {
        TrackerModel {
            habits: t.habits.push(fresh_habit(t.new_habit_name)),
            new_habit_name: Seq::empty(),
        }
    }
}

/// Effect of `ToggleHabit(i, d)`: flip flag `d` of habit `i` when both
/// indices are in range; otherwise change nothing.
pub open spec fn toggle_model(t: TrackerModel, i: int, d: int) -> TrackerModel {
    if 0 <= i < t.habits.len() && 0 <= d < t.habits[i].completed.len() {
        TrackerModel {
            habits: t.habits.update(
                i,
                HabitModel {
                    name: t.habits[i].name,
                    completed: t.habits[i].completed.update(d, !t.habits[i].completed[d]),
                },
            ),
            new_habit_name: t.new_habit_name,
        }
    } else {
        t
    }
}

/// Effect of `UpdateNewHabitName`: replace the staging buffer, nothing else.
pub open spec fn set_name_model(t: TrackerModel, name: Seq<char>) -> TrackerModel {
    TrackerModel { habits: t.habits, new_habit_name: name }
}

/// The reducer, as one function from state and event to next state.
pub open spec fn step(t: TrackerModel, message: Message) -> TrackerModel {
    match message {
        Message::AddHabit => submit_model(t),
        Message::ToggleHabit(i, d) => toggle_model(t, i as int, d as int),
        Message::UpdateNewHabitName(name) => set_name_model(t, name@),
        Message::SubmitHabit => submit_model(t),
    }
}

impl Habit {
    /// A fully formed habit: the given name and [`DAY_COUNT`] cleared flags.
    pub fn new(name: String) -> (h: Habit)
        ensures
            h@ == fresh_habit(name@),
            habit_wf(h@),
    {
        let mut completed: Vec<bool> = Vec::new();
        let mut j: usize = 0;
        while j < DAY_COUNT
            invariant
                j <= DAY_COUNT,
                completed@ =~= Seq::new(j as nat, |i: int| false),
            decreases DAY_COUNT - j,
        {
            completed.push(false);
            j += 1;
            assert(completed@ =~= Seq::new(j as nat, |i: int| false));
        }
        let h = Habit { name, completed };
        assert(h@ =~= fresh_habit(h.name@));
        h
    }
}

impl HabitTracker {
    /// Every reachable state is well formed: each habit tracks
    /// exactly [`DAY_COUNT`] days.
    pub open spec fn wf(&self) -> bool {
        tracker_wf(self@)
    }

    /// The empty default state.
    pub fn new() -> (t: HabitTracker)
        ensures
            t@ == empty_model(),
            t.wf(),
    {
        let t = HabitTracker { habits: Vec::new(), new_habit_name: String::new() };
        assert(t@ =~= empty_model());
        t
    }

    /// The window title.
    pub fn title(&self) -> (r: String)
        ensures
            r@ == "Habit Tracker"@,
    {
        String::from_str("Habit Tracker")
    }

    /// The reducer: applies one event to the state.
    ///
    /// A `ToggleHabit` day index is bounded by the render loop that
    /// generates toggle events, so a day index in range is a
    /// precondition here, not something the reducer checks.
    pub fn update(&mut self, message: Message)
        requires
            old(self).wf(),
            match message {
                Message::ToggleHabit(i, d) => i < old(self)@.habits.len() ==> d < DAY_COUNT,
                _ => true,
            },
        ensures
            final(self).wf(),
            final(self)@ == step(old(self)@, message),
    {
        match message {
            Message::AddHabit => self.submit_staged(),
            Message::ToggleHabit(habit_index, checkbox_index) => {
                if habit_index < self.habits.len() {
                    assert(self@.habits[habit_index as int].completed.len() == DAY_COUNT);
                    let old_flag = self.habits[habit_index].completed[checkbox_index];
                    self.habits[habit_index].completed.set(checkbox_index, !old_flag);
                    assert(self@ =~= toggle_model(old(self)@, habit_index as int, checkbox_index as int));
                }
            },
            Message::UpdateNewHabitName(name) => {
                self.new_habit_name = name;
                assert(self@ =~= set_name_model(old(self)@, self.new_habit_name@));
            },
            Message::SubmitHabit => self.submit_staged(),
        }
    }

    /// `AddHabit` / `SubmitHabit`: append a fresh habit named by the
    /// staging buffer and clear the buffer; a no-op when the buffer
    /// is empty.
    pub fn submit_staged(&mut self)
        requires
            old(self).wf(),
        ensures
            final(self).wf(),
            final(self)@ == submit_model(old(self)@),
    {
        if !self.new_habit_name.as_str().is_empty() {
            let name = self.new_habit_name.clone();
            self.habits.push(Habit::new(name));
            self.new_habit_name = String::new();
            assert(self@ =~= submit_model(old(self)@));
        } else {
            assert(self@ =~= submit_model(old(self)@));
        }
    }
}

/// Submitting a non-empty staged name appends exactly one habit at the
/// end, named by the buffer, with all [`DAY_COUNT`] flags cleared, keeps
/// every habit already present, and clears the buffer.
pub proof fn lemma_submit_appends(t: TrackerModel)
    requires
        t.new_habit_name.len() > 0,
    ensures
        submit_model(t).habits.len() == t.habits.len() + 1,
        submit_model(t).habits.subrange(0, t.habits.len() as int) == t.habits,
        submit_model(t).habits.last() == fresh_habit(t.new_habit_name),
        fresh_habit(t.new_habit_name).name == t.new_habit_name,
        fresh_habit(t.new_habit_name).completed.len() == DAY_COUNT,
        forall|d: int| 0 <= d < DAY_COUNT ==> !fresh_habit(t.new_habit_name).completed[d],
        submit_model(t).new_habit_name.len() == 0,
{
    assert(submit_model(t).habits.subrange(0, t.habits.len() as int) =~= t.habits);
}

/// Submitting an empty staged name changes nothing.
pub proof fn lemma_submit_empty_name(t: TrackerModel)
    requires
        t.new_habit_name.len() == 0,
    ensures
        submit_model(t) == t,
{
}

/// Toggling the same flag twice in succession restores the whole state.
pub proof fn lemma_toggle_involution(t: TrackerModel, i: int, d: int)
    requires
        0 <= i < t.habits.len() ==> 0 <= d < t.habits[i].completed.len(),
    ensures
        toggle_model(toggle_model(t, i, d), i, d) == t,
{
    if 0 <= i < t.habits.len() {
        let t2 = toggle_model(toggle_model(t, i, d), i, d);
        assert(t2.habits[i].completed =~= t.habits[i].completed);
        assert(t2.habits[i] =~= t.habits[i]);
        assert(t2.habits =~= t.habits);
        assert(t2 =~= t);
    }
}

/// Toggling with a habit index out of range changes nothing.
pub proof fn lemma_toggle_out_of_range(t: TrackerModel, i: int, d: int)
    requires
        i >= t.habits.len(),
    ensures
        toggle_model(t, i, d) == t,
{
}

/// The reducer keeps every state well formed.
pub proof fn lemma_step_preserves_wf(t: TrackerModel, message: Message)
    requires
        tracker_wf(t),
    ensures
        tracker_wf(step(t, message)),
{
}

} // verus!
