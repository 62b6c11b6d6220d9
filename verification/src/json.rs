//! The persisted text format, as mathematics.
//!
//! A tracker state is written as one JSON object,
//! `{"habits":[{"name":...,"completed":[...]}, ...],"new_habit_name":...}`,
//! in the compact form with no whitespace, object keys in this order, and
//! strings escaped as JSON asks: `"` and `\` by a backslash, the five named
//! control escapes `\b \f \n \r \t`, and every other control character as
//! `\u00` and two lower-case hex digits. [`enc_state`] is that writing;
//! the `p_` functions parse it back. The parser is strict: it accepts
//! exactly this canonical form, and anything else counts as corrupt.

use vstd::prelude::*;

verus! {

use crate::state::HabitModel;
use crate::state::TrackerModel;
use crate::DAY_COUNT;

// ---------------------------------------------------------------------------
// Fixed pieces of the format.
// ---------------------------------------------------------------------------

/// `{"habits":[`
pub open spec fn lit_state_open() -> Seq<char> {
    seq!['{', '"', 'h', 'a', 'b', 'i', 't', 's', '"', ':', '[']
}

/// `,"new_habit_name":"` — what follows the habit list's closing bracket,
/// up to and including the opening quote of the staged name.
pub open spec fn lit_state_mid() -> Seq<char> {
    seq![',', '"', 'n', 'e', 'w', '_', 'h', 'a', 'b', 'i', 't', '_', 'n', 'a', 'm', 'e', '"', ':', '"']
}

/// `}` — what follows the staged name's closing quote.
pub open spec fn lit_state_close() -> Seq<char> {
    seq!['}']
}

/// `{"name":"` — up to and including the opening quote of the habit's name.
pub open spec fn lit_habit_open() -> Seq<char> {
    seq!['{', '"', 'n', 'a', 'm', 'e', '"', ':', '"']
}

/// `,"completed":[` — what follows the name's closing quote.
pub open spec fn lit_habit_mid() -> Seq<char> {
    seq![',', '"', 'c', 'o', 'm', 'p', 'l', 'e', 't', 'e', 'd', '"', ':', '[']
}

/// `]}`
pub open spec fn lit_habit_close() -> Seq<char> {
    seq![']', '}']
}

pub open spec fn lit_true() -> Seq<char> {
    seq!['t', 'r', 'u', 'e']
}

pub open spec fn lit_false() -> Seq<char> {
    seq!['f', 'a', 'l', 's', 'e']
}

// ---------------------------------------------------------------------------
// Encoding.
// ---------------------------------------------------------------------------

/// The lower-case hex digit of a value below sixteen.
pub open spec fn hex_digit(v: int) -> char {
    if v == 0 { '0' }
    else if v == 1 { '1' }
    else if v == 2 { '2' }
    else if v == 3 { '3' }
    else if v == 4 { '4' }
    else if v == 5 { '5' }
    else if v == 6 { '6' }
    else if v == 7 { '7' }
    else if v == 8 { '8' }
    else if v == 9 { '9' }
    else if v == 10 { 'a' }
    else if v == 11 { 'b' }
    else if v == 12 { 'c' }
    else if v == 13 { 'd' }
    else if v == 14 { 'e' }
    else { 'f' }
}

/// How one character of a string is written: itself, unless JSON
/// requires an escape.
pub open spec fn esc_char(c: char) -> Seq<char> {
    if c == '"' { seq!['\\', '"'] }
    else if c == '\\' { seq!['\\', '\\'] }
    else if c == '\u{8}' { seq!['\\', 'b'] }
    else if c == '\u{c}' { seq!['\\', 'f'] }
    else if c == '\n' { seq!['\\', 'n'] }
    else if c == '\r' { seq!['\\', 'r'] }
    else if c == '\t' { seq!['\\', 't'] }
    else if (c as u32) < 0x20 {
        seq!['\\', 'u', '0', '0', hex_digit((c as u32) as int / 16), hex_digit((c as u32) as int % 16)]
    } else {
        seq![c]
    }
}

/// A string's characters, escaped one by one (the quotes around them
/// belong to the surrounding piece of the format).
pub open spec fn enc_string(s: Seq<char>) -> Seq<char>
    decreases s.len(),
{
    if s.len() == 0 {
        Seq::empty()
    } else {
        esc_char(s[0]) + enc_string(s.drop_first())
    }
}

pub open spec fn enc_bool(b: bool) -> Seq<char> {
    if b { lit_true() } else { lit_false() }
}

/// Flags, comma-separated, without the brackets around them.
pub open spec fn enc_bools(bs: Seq<bool>) -> Seq<char>
    decreases bs.len(),
{
    if bs.len() == 0 {
        Seq::empty()
    } else if bs.len() == 1 {
        enc_bool(bs[0])
    } else {
        enc_bool(bs[0]) + seq![','] + enc_bools(bs.drop_first())
    }
}

/// One habit object.
pub open spec fn enc_habit(h: HabitModel) -> Seq<char> {
    lit_habit_open() + enc_string(h.name) + seq!['"'] + lit_habit_mid() + enc_bools(h.completed)
        + lit_habit_close()
}

/// Habit objects, comma-separated, without the brackets around them.
pub open spec fn enc_habits(hs: Seq<HabitModel>) -> Seq<char>
    decreases hs.len(),
{
    if hs.len() == 0 {
        Seq::empty()
    } else if hs.len() == 1 {
        enc_habit(hs[0])
    } else {
        enc_habit(hs[0]) + seq![','] + enc_habits(hs.drop_first())
    }
}

/// The whole persisted text of a state.
pub open spec fn enc_state(t: TrackerModel) -> Seq<char> {
    lit_state_open() + enc_habits(t.habits) + seq![']'] + lit_state_mid()
        + enc_string(t.new_habit_name) + seq!['"'] + lit_state_close()
}

// ---------------------------------------------------------------------------
// Parsing. Each function takes the text and a position and returns the
// parsed value with the position after it, or `None` where the text does
// not match the format.
// ---------------------------------------------------------------------------

/// A fixed piece: succeeds exactly where `lit` stands at `i`.
pub open spec fn p_lit(s: Seq<char>, i: int, lit: Seq<char>) -> Option<int> {
    if 0 <= i && i + lit.len() <= s.len() && s.subrange(i, i + lit.len()) == lit {
        Some(i + lit.len())
    } else {
        None
    }
}

/// The value of a lower-case hex digit.
pub open spec fn unhex_digit(c: char) -> Option<int> {
    if c == '0' { Some(0) }
    else if c == '1' { Some(1) }
    else if c == '2' { Some(2) }
    else if c == '3' { Some(3) }
    else if c == '4' { Some(4) }
    else if c == '5' { Some(5) }
    else if c == '6' { Some(6) }
    else if c == '7' { Some(7) }
    else if c == '8' { Some(8) }
    else if c == '9' { Some(9) }
    else if c == 'a' { Some(10) }
    else if c == 'b' { Some(11) }
    else if c == 'c' { Some(12) }
    else if c == 'd' { Some(13) }
    else if c == 'e' { Some(14) }
    else if c == 'f' { Some(15) }
    else { None }
}

/// The control character with the given scalar value (below `0x20`).
pub open spec fn ctl_char(v: int) -> char {
    if v == 0 { '\u{0}' }
    else if v == 1 { '\u{1}' }
    else if v == 2 { '\u{2}' }
    else if v == 3 { '\u{3}' }
    else if v == 4 { '\u{4}' }
    else if v == 5 { '\u{5}' }
    else if v == 6 { '\u{6}' }
    else if v == 7 { '\u{7}' }
    else if v == 8 { '\u{8}' }
    else if v == 9 { '\u{9}' }
    else if v == 10 { '\u{a}' }
    else if v == 11 { '\u{b}' }
    else if v == 12 { '\u{c}' }
    else if v == 13 { '\u{d}' }
    else if v == 14 { '\u{e}' }
    else if v == 15 { '\u{f}' }
    else if v == 16 { '\u{10}' }
    else if v == 17 { '\u{11}' }
    else if v == 18 { '\u{12}' }
    else if v == 19 { '\u{13}' }
    else if v == 20 { '\u{14}' }
    else if v == 21 { '\u{15}' }
    else if v == 22 { '\u{16}' }
    else if v == 23 { '\u{17}' }
    else if v == 24 { '\u{18}' }
    else if v == 25 { '\u{19}' }
    else if v == 26 { '\u{1a}' }
    else if v == 27 { '\u{1b}' }
    else if v == 28 { '\u{1c}' }
    else if v == 29 { '\u{1d}' }
    else if v == 30 { '\u{1e}' }
    else { '\u{1f}' }
}

/// An escape sequence, entered with `i` at the character after the
/// backslash; yields the escaped character.
pub open spec fn p_escape(s: Seq<char>, i: int) -> Option<(char, int)> {
    if 0 <= i && i < s.len() {
        let c = s[i];
        if c == '"' { Some(('"', i + 1)) }
        else if c == '\\' { Some(('\\', i + 1)) }
        else if c == 'b' { Some(('\u{8}', i + 1)) }
        else if c == 'f' { Some(('\u{c}', i + 1)) }
        else if c == 'n' { Some(('\n', i + 1)) }
        else if c == 'r' { Some(('\r', i + 1)) }
        else if c == 't' { Some(('\t', i + 1)) }
        else if c == 'u' {
            if i + 5 <= s.len() && s[i + 1] == '0' && s[i + 2] == '0' {
                match (unhex_digit(s[i + 3]), unhex_digit(s[i + 4])) {
                    (Some(h), Some(l)) => {
                        if h * 16 + l < 0x20 {
                            Some((ctl_char(h * 16 + l), i + 5))
                        } else {
                            None
                        }
                    },
                    _ => None,
                }
            } else {
                None
            }
        } else {
            None
        }
    } else {
        None
    }
}

/// A string's characters, entered with `i` just after the opening quote;
/// ends at, and consumes, the closing quote.
pub open spec fn p_strbody(s: Seq<char>, i: int) -> Option<(Seq<char>, int)>
    decreases s.len() - i,
{
    if 0 <= i && i < s.len() {
        let c = s[i];
        if c == '"' {
            Some((Seq::empty(), i + 1))
        } else if c == '\\' {
            match p_escape(s, i + 1) {
                Some((e, j)) => match p_strbody(s, j) {
                    Some((rest, k)) => Some((seq![e] + rest, k)),
                    None => None,
                },
                None => None,
            }
        } else {
            match p_strbody(s, i + 1) {
                Some((rest, k)) => Some((seq![c] + rest, k)),
                None => None,
            }
        }
    } else {
        None
    }
}

/// `true` or `false`.
pub open spec fn p_bool(s: Seq<char>, i: int) -> Option<(bool, int)> {
    if p_lit(s, i, lit_true()).is_some() {
        Some((true, i + 4))
    } else if p_lit(s, i, lit_false()).is_some() {
        Some((false, i + 5))
    } else {
        None
    }
}

/// Exactly `n` flags, comma-separated; does not consume what follows.
pub open spec fn p_bools(s: Seq<char>, i: int, n: nat) -> Option<(Seq<bool>, int)>
    decreases n,
{
    if n == 0 {
        Some((Seq::empty(), i))
    } else {
        match p_bool(s, i) {
            Some((b, j)) => {
                if n == 1 {
                    Some((seq![b], j))
                } else if j < s.len() && s[j] == ',' {
                    match p_bools(s, j + 1, (n - 1) as nat) {
                        Some((rest, k)) => Some((seq![b] + rest, k)),
                        None => None,
                    }
                } else {
                    None
                }
            },
            None => None,
        }
    }
}

/// One habit object, flags counted: exactly [`DAY_COUNT`] of them.
pub open spec fn p_habit(s: Seq<char>, i: int) -> Option<(HabitModel, int)> {
    match p_lit(s, i, lit_habit_open()) {
        Some(j1) => match p_strbody(s, j1) {
            Some((name, j2)) => match p_lit(s, j2, lit_habit_mid()) {
                Some(j3) => match p_bools(s, j3, DAY_COUNT as nat) {
                    Some((bs, j4)) => match p_lit(s, j4, lit_habit_close()) {
                        Some(j5) => Some((HabitModel { name, completed: bs }, j5)),
                        None => None,
                    },
                    None => None,
                },
                None => None,
            },
            None => None,
        },
        None => None,
    }
}

/// One or more habit objects, comma-separated, ended by the list's
/// closing bracket, which is consumed. `fuel` only bounds the recursion;
/// any fuel at least the number of objects ahead behaves the same.
pub open spec fn p_habits_rest(s: Seq<char>, i: int, fuel: nat) -> Option<(Seq<HabitModel>, int)>
    decreases fuel,
{
    if fuel == 0 {
        None
    } else {
        match p_habit(s, i) {
            Some((h, j)) => {
                if j < s.len() && s[j] == ',' {
                    match p_habits_rest(s, j + 1, (fuel - 1) as nat) {
                        Some((rest, k)) => Some((seq![h] + rest, k)),
                        None => None,
                    }
                } else if j < s.len() && s[j] == ']' {
                    Some((seq![h], j + 1))
                } else {
                    None
                }
            },
            None => None,
        }
    }
}

/// The habit list, entered just after its opening bracket; consumes the
/// closing bracket.
pub open spec fn p_habits(s: Seq<char>, i: int, fuel: nat) -> Option<(Seq<HabitModel>, int)> {
    if 0 <= i && i < s.len() && s[i] == ']' {
        Some((Seq::empty(), i + 1))
    } else {
        p_habits_rest(s, i, fuel)
    }
}

/// The whole text: `Some` exactly on the canonical writing of a state,
/// wholly consumed.
pub open spec fn dec_state(s: Seq<char>) -> Option<TrackerModel> {
    match p_lit(s, 0, lit_state_open()) {
        Some(j1) => match p_habits(s, j1, s.len()) {
            Some((hs, j2)) => match p_lit(s, j2, lit_state_mid()) {
                Some(j3) => match p_strbody(s, j3) {
                    Some((name, j4)) => match p_lit(s, j4, lit_state_close()) {
                        Some(j5) => if j5 == s.len() {
                            Some(TrackerModel { habits: hs, new_habit_name: name })
                        } else {
                            None
                        },
                        None => None,
                    },
                    None => None,
                },
                None => None,
            },
            None => None,
        },
        None => None,
    }
}

} // verus!
