//! Reading the persisted text back into a state.
//!
//! Each function mirrors one of the `p_` parsers of [`crate::json`] and is
//! proved to return exactly what that parser says.

use vstd::prelude::*;

verus! {

use crate::json::ctl_char;
use crate::json::dec_state;
use crate::json::lit_false;
use crate::json::lit_habit_close;
use crate::json::lit_habit_mid;
use crate::json::lit_habit_open;
use crate::json::lit_state_close;
use crate::json::lit_state_mid;
use crate::json::lit_state_open;
use crate::json::lit_true;
use crate::json::p_bool;
use crate::json::p_bools;
use crate::json::p_escape;
use crate::json::p_habit;
use crate::json::p_habits;
use crate::json::p_habits_rest;
use crate::json::p_lit;
use crate::json::p_strbody;
use crate::json::unhex_digit;
use crate::state::empty_model;
use crate::state::habit_wf;
use crate::state::habits_model;
use crate::state::Habit;
use crate::state::HabitModel;
use crate::state::HabitTracker;
use crate::state::TrackerModel;
use crate::text::chars_to_string;
use crate::text::str_to_chars;
use crate::DAY_COUNT;

/// A fixed piece of the format, given as a string literal.
fn parse_lit(v: &Vec<char>, i: usize, lit: &str) -> (r: Option<usize>)
    ensures
        match r {
            Some(j) => p_lit(v@, i as int, lit@) == Some(j as int),
            None => p_lit(v@, i as int, lit@) == None::<int>,
        },
{
    let n = lit.unicode_len();
    if i > v.len() || v.len() - i < n {
        return None;
    }
    let mut k: usize = 0;
    while k < n
        invariant
            k <= n,
            n == lit@.len(),
            i + n <= v@.len(),
            v@.len() <= usize::MAX,
            forall|m: int| 0 <= m < k ==> v@[i + m] == lit@[m],
        decreases n - k,
    {
        if v[i + k] != lit.get_char(k) {
            proof {
                let ss = v@.subrange(i as int, i as int + lit@.len());
                assert(ss[k as int] == v@[i as int + k]);
                assert(ss != lit@);
            }
            return None;
        }
        k += 1;
    }
    proof {
        assert(v@.subrange(i as int, i as int + lit@.len()) =~= lit@);
    }
    Some(i + n)
}

/// The value of a lower-case hex digit.
fn unhex_digit_exec(c: char) -> (r: Option<u32>)
    ensures
        match r {
            Some(h) => unhex_digit(c) == Some(h as int) && h < 16,
            None => unhex_digit(c) == None::<int>,
        },
{
    if c == '0' { Some(0) }
    else if c == '1' { Some(1) }
    else if c == '2' { Some(2) }
    else if c == '3' { Some(3) }
    else if c == '4' { Some(4) }
    else if c == '5' { Some(5) }
    else if c == '6' { Some(6) }
    else if c == '7' { Some(7) }
    else if c == '8' { Some(8) }
    else if c == '9' { Some(9) }
    else if c == 'a' { Some(10) }
    else if c == 'b' { Some(11) }
    else if c == 'c' { Some(12) }
    else if c == 'd' { Some(13) }
    else if c == 'e' { Some(14) }
    else if c == 'f' { Some(15) }
    else { None }
}

/// The control character with the given scalar value.
fn ctl_char_exec(val: u32) -> (r: char)
    requires
        val < 0x20,
    ensures
        r == ctl_char(val as int),
{
    if val == 0 { '\u{0}' }
    else if val == 1 { '\u{1}' }
    else if val == 2 { '\u{2}' }
    else if val == 3 { '\u{3}' }
    else if val == 4 { '\u{4}' }
    else if val == 5 { '\u{5}' }
    else if val == 6 { '\u{6}' }
    else if val == 7 { '\u{7}' }
    else if val == 8 { '\u{8}' }
    else if val == 9 { '\u{9}' }
    else if val == 10 { '\u{a}' }
    else if val == 11 { '\u{b}' }
    else if val == 12 { '\u{c}' }
    else if val == 13 { '\u{d}' }
    else if val == 14 { '\u{e}' }
    else if val == 15 { '\u{f}' }
    else if val == 16 { '\u{10}' }
    else if val == 17 { '\u{11}' }
    else if val == 18 { '\u{12}' }
    else if val == 19 { '\u{13}' }
    else if val == 20 { '\u{14}' }
    else if val == 21 { '\u{15}' }
    else if val == 22 { '\u{16}' }
    else if val == 23 { '\u{17}' }
    else if val == 24 { '\u{18}' }
    else if val == 25 { '\u{19}' }
    else if val == 26 { '\u{1a}' }
    else if val == 27 { '\u{1b}' }
    else if val == 28 { '\u{1c}' }
    else if val == 29 { '\u{1d}' }
    else if val == 30 { '\u{1e}' }
    else { '\u{1f}' }
}

/// One escape sequence, entered just after the backslash.
fn parse_escape(v: &Vec<char>, i: usize) -> (r: Option<(char, usize)>)
    ensures
        match r {
            Some((c, j)) => p_escape(v@, i as int) == Some((c, j as int)) && i < j <= v@.len(),
            None => p_escape(v@, i as int) == None::<(char, int)>,
        },
{
    if i >= v.len() {
        return None;
    }
    let c = v[i];
    if c == '"' { Some(('"', i + 1)) }
    else if c == '\\' { Some(('\\', i + 1)) }
    else if c == 'b' { Some(('\u{8}', i + 1)) }
    else if c == 'f' { Some(('\u{c}', i + 1)) }
    else if c == 'n' { Some(('\n', i + 1)) }
    else if c == 'r' { Some(('\r', i + 1)) }
    else if c == 't' { Some(('\t', i + 1)) }
    else if c == 'u' {
        if v.len() - i >= 5 && v[i + 1] == '0' && v[i + 2] == '0' {
            match unhex_digit_exec(v[i + 3]) {
                Some(h) => match unhex_digit_exec(v[i + 4]) {
                    Some(l) => {
                        let val = h * 16 + l;
                        if val < 0x20 {
                            Some((ctl_char_exec(val), i + 5))
                        } else {
                            None
                        }
                    },
                    None => None,
                },
                None => None,
            }
        } else {
            None
        }
    } else {
        None
    }
}

/// A string's characters, entered just after the opening quote; consumes
/// the closing quote.
fn parse_strbody(v: &Vec<char>, i: usize) -> (r: Option<(Vec<char>, usize)>)
    ensures
        match r {
            Some((w, j)) => p_strbody(v@, i as int) == Some((w@, j as int)) && i < j <= v@.len(),
            None => p_strbody(v@, i as int) == None::<(Seq<char>, int)>,
        },
    decreases v@.len() - i,
{
    if i >= v.len() {
        return None;
    }
    let c = v[i];
    if c == '"' {
        let w: Vec<char> = Vec::new();
        Some((w, i + 1))
    } else if c == '\\' {
        match parse_escape(v, i + 1) {
            Some((e, j)) => match parse_strbody(v, j) {
                Some((mut w, k)) => {
                    w.insert(0, e);
                    proof {
                        assert(w@ =~= seq![e] + w@.subrange(1, w@.len() as int));
                    }
                    Some((w, k))
                },
                None => None,
            },
            None => None,
        }
    } else {
        match parse_strbody(v, i + 1) {
            Some((mut w, k)) => {
                w.insert(0, c);
                proof {
                    assert(w@ =~= seq![c] + w@.subrange(1, w@.len() as int));
                }
                Some((w, k))
            },
            None => None,
        }
    }
}

/// `true` or `false`.
fn parse_bool(v: &Vec<char>, i: usize) -> (r: Option<(bool, usize)>)
    ensures
        match r {
            Some((b, j)) => p_bool(v@, i as int) == Some((b, j as int)) && i < j <= v@.len(),
            None => p_bool(v@, i as int) == None::<(bool, int)>,
        },
{
    proof {
        reveal_strlit("true");
        reveal_strlit("false");
        assert("true"@ =~= lit_true());
        assert("false"@ =~= lit_false());
    }
    match parse_lit(v, i, "true") {
        Some(j) => Some((true, j)),
        None => match parse_lit(v, i, "false") {
            Some(j) => Some((false, j)),
            None => None,
        },
    }
}

/// Exactly `n` flags, comma-separated.
fn parse_bools(v: &Vec<char>, i: usize, n: usize) -> (r: Option<(Vec<bool>, usize)>)
    requires
        n >= 1,
    ensures
        match r {
            Some((bs, j)) => p_bools(v@, i as int, n as nat) == Some((bs@, j as int)) && i < j
                <= v@.len() && bs@.len() == n,
            None => p_bools(v@, i as int, n as nat) == None::<(Seq<bool>, int)>,
        },
    decreases n,
{
    match parse_bool(v, i) {
        Some((b, j)) => {
            if n == 1 {
                let mut bs: Vec<bool> = Vec::new();
                bs.push(b);
                proof {
                    assert(bs@ =~= seq![b]);
                }
                Some((bs, j))
            } else if j < v.len() && v[j] == ',' {
                match parse_bools(v, j + 1, n - 1) {
                    Some((mut bs, k)) => {
                        bs.insert(0, b);
                        proof {
                            assert(bs@ =~= seq![b] + bs@.subrange(1, bs@.len() as int));
                        }
                        Some((bs, k))
                    },
                    None => None,
                }
            } else {
                None
            }
        },
        None => None,
    }
}

/// One habit object.
fn parse_habit(v: &Vec<char>, i: usize) -> (r: Option<(Habit, usize)>)
    ensures
        match r {
            Some((h, j)) => p_habit(v@, i as int) == Some((h@, j as int)) && j <= v@.len()
                && habit_wf(h@),
            None => p_habit(v@, i as int) == None::<(HabitModel, int)>,
        },
{
    proof {
        reveal_strlit("{\"name\":\"");
        reveal_strlit(",\"completed\":[");
        reveal_strlit("]}");
        assert("{\"name\":\""@ =~= lit_habit_open());
        assert(",\"completed\":["@ =~= lit_habit_mid());
        assert("]}"@ =~= lit_habit_close());
    }
    match parse_lit(v, i, "{\"name\":\"") {
        Some(j1) => match parse_strbody(v, j1) {
            Some((name_chars, j2)) => match parse_lit(v, j2, ",\"completed\":[") {
                Some(j3) => match parse_bools(v, j3, DAY_COUNT) {
                    Some((bs, j4)) => match parse_lit(v, j4, "]}") {
                        Some(j5) => {
                            let h = Habit { name: chars_to_string(&name_chars), completed: bs };
                            Some((h, j5))
                        },
                        None => None,
                    },
                    None => None,
                },
                None => None,
            },
            None => None,
        },
        None => None,
    }
}

/// One or more habit objects, ended by the list's closing bracket.
fn parse_habits_rest(v: &Vec<char>, i: usize, fuel: usize) -> (r: Option<(Vec<Habit>, usize)>)
    ensures
        match r {
            Some((hs, j)) => p_habits_rest(v@, i as int, fuel as nat) == Some(
                (habits_model(hs@), j as int),
            ) && j <= v@.len() && forall|m: int|
                0 <= m < hs@.len() ==> habit_wf(#[trigger] habits_model(hs@)[m]),
            None => p_habits_rest(v@, i as int, fuel as nat) == None::<(Seq<HabitModel>, int)>,
        },
    decreases fuel,
{
    if fuel == 0 {
        return None;
    }
    match parse_habit(v, i) {
        Some((h, j)) => {
            if j < v.len() && v[j] == ',' {
                match parse_habits_rest(v, j + 1, fuel - 1) {
                    Some((mut hs, k)) => {
                        let ghost prior = hs@;
                        hs.insert(0, h);
                        proof {
                            assert(hs@ =~= seq![h] + prior);
                            assert(habits_model(hs@) =~= seq![h@] + habits_model(prior));
                        }
                        Some((hs, k))
                    },
                    None => None,
                }
            } else if j < v.len() && v[j] == ']' {
                let mut hs: Vec<Habit> = Vec::new();
                hs.push(h);
                proof {
                    assert(hs@ =~= seq![h]);
                    assert(habits_model(hs@) =~= seq![h@]);
                }
                Some((hs, j + 1))
            } else {
                None
            }
        },
        None => None,
    }
}

/// The habit list, entered just after its opening bracket.
fn parse_habits(v: &Vec<char>, i: usize, fuel: usize) -> (r: Option<(Vec<Habit>, usize)>)
    ensures
        match r {
            Some((hs, j)) => p_habits(v@, i as int, fuel as nat) == Some(
                (habits_model(hs@), j as int),
            ) && j <= v@.len() && forall|m: int|
                0 <= m < hs@.len() ==> habit_wf(#[trigger] habits_model(hs@)[m]),
            None => p_habits(v@, i as int, fuel as nat) == None::<(Seq<HabitModel>, int)>,
        },
{
    if i < v.len() && v[i] == ']' {
        let hs: Vec<Habit> = Vec::new();
        proof {
            assert(habits_model(hs@) =~= Seq::<HabitModel>::empty());
        }
        Some((hs, i + 1))
    } else {
        parse_habits_rest(v, i, fuel)
    }
}

/// The whole text: `Some` exactly on the canonical writing of a state.
fn parse_state(v: &Vec<char>) -> (r: Option<HabitTracker>)
    ensures
        match r {
            Some(t) => dec_state(v@) == Some(t@) && t.wf(),
            None => dec_state(v@) == None::<TrackerModel>,
        },
{
    proof {
        reveal_strlit("{\"habits\":[");
        reveal_strlit(",\"new_habit_name\":\"");
        reveal_strlit("}");
        assert("{\"habits\":["@ =~= lit_state_open());
        assert(",\"new_habit_name\":\""@ =~= lit_state_mid());
        assert("}"@ =~= lit_state_close());
    }
    match parse_lit(v, 0, "{\"habits\":[") {
        Some(j1) => match parse_habits(v, j1, v.len()) {
            Some((hs, j2)) => match parse_lit(v, j2, ",\"new_habit_name\":\"") {
                Some(j3) => match parse_strbody(v, j3) {
                    Some((name_chars, j4)) => match parse_lit(v, j4, "}") {
                        Some(j5) => {
                            if j5 == v.len() {
                                let t = HabitTracker {
                                    habits: hs,
                                    new_habit_name: chars_to_string(&name_chars),
                                };
                                Some(t)
                            } else {
                                None
                            }
                        },
                        None => None,
                    },
                    None => None,
                },
                None => None,
            },
            None => None,
        },
        None => None,
    }
}

impl HabitTracker {
    /// Reads back what [`HabitTracker::save_to_string`] wrote. Any other
    /// text — a corrupt file's content — yields the empty default state;
    /// no error reaches the caller.
    pub fn load_from_str(s: &str) -> (t: HabitTracker)
        ensures
            t.wf(),
            match dec_state(s@) {
                Some(m) => t@ == m,
                None => t@ == empty_model(),
            },
    {
        let v = str_to_chars(s);
        match parse_state(&v) {
            Some(t) => t,
            None => HabitTracker::new(),
        }
    }
}

} // verus!
