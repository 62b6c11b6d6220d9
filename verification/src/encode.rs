//! Writing a state as its canonical persisted text.

use vstd::prelude::*;

verus! {

use crate::json::enc_bool;
use crate::json::enc_bools;
use crate::json::enc_habit;
use crate::json::enc_habits;
use crate::json::enc_state;
use crate::json::enc_string;
use crate::json::esc_char;
use crate::json::hex_digit;
use crate::json::lit_habit_mid;
use crate::json::lit_habit_open;
use crate::json::lit_state_mid;
use crate::json::lit_state_open;
use crate::state::habits_model;
use crate::state::Habit;
use crate::state::HabitTracker;
use crate::text::chars_to_string;

/// Writing one more character encodes the extended string.
proof fn lemma_enc_string_snoc(t: Seq<char>, c: char)
    ensures
        enc_string(t.push(c)) == enc_string(t) + esc_char(c),
    decreases t.len(),
{
    if t.len() == 0 {
        assert(t.push(c).drop_first() =~= Seq::<char>::empty());
        assert(enc_string(Seq::<char>::empty()) == Seq::<char>::empty());
        assert(t =~= Seq::<char>::empty());
        assert(enc_string(t.push(c)) =~= enc_string(t) + esc_char(c));
    } else {
        assert(t.push(c).drop_first() =~= t.drop_first().push(c));
        lemma_enc_string_snoc(t.drop_first(), c);
        assert(enc_string(t.push(c)) =~= enc_string(t) + esc_char(c));
    }
}

/// Writing one more flag encodes the extended flag list.
proof fn lemma_enc_bools_snoc(bs: Seq<bool>, b: bool)
    ensures
        enc_bools(bs.push(b)) == if bs.len() == 0 {
            enc_bool(b)
        } else {
            enc_bools(bs) + seq![','] + enc_bool(b)
        },
    decreases bs.len(),
{
    if bs.len() == 0 {
        assert(enc_bools(bs.push(b)) =~= enc_bool(b));
    } else if bs.len() == 1 {
        assert(bs.push(b).drop_first() =~= seq![b]);
        assert(enc_bools(seq![b]) == enc_bool(b));
        assert(bs =~= seq![bs[0]]);
        assert(enc_bools(bs) == enc_bool(bs[0]));
        assert(enc_bools(bs.push(b)) =~= enc_bools(bs) + seq![','] + enc_bool(b));
    } else {
        assert(bs.push(b).drop_first() =~= bs.drop_first().push(b));
        lemma_enc_bools_snoc(bs.drop_first(), b);
        assert(enc_bools(bs.push(b)) =~= enc_bools(bs) + seq![','] + enc_bool(b));
    }
}

/// Writing one more habit encodes the extended habit list.
proof fn lemma_enc_habits_snoc(hs: Seq<crate::state::HabitModel>, h: crate::state::HabitModel)
    ensures
        enc_habits(hs.push(h)) == if hs.len() == 0 {
            enc_habit(h)
        } else {
            enc_habits(hs) + seq![','] + enc_habit(h)
        },
    decreases hs.len(),
{
    if hs.len() == 0 {
        assert(enc_habits(hs.push(h)) =~= enc_habit(h));
    } else if hs.len() == 1 {
        assert(hs.push(h).drop_first() =~= seq![h]);
        assert(enc_habits(seq![h]) == enc_habit(h));
        assert(hs =~= seq![hs[0]]);
        assert(enc_habits(hs) == enc_habit(hs[0]));
        assert(enc_habits(hs.push(h)) =~= enc_habits(hs) + seq![','] + enc_habit(h));
    } else {
        assert(hs.push(h).drop_first() =~= hs.drop_first().push(h));
        lemma_enc_habits_snoc(hs.drop_first(), h);
        assert(enc_habits(hs.push(h)) =~= enc_habits(hs) + seq![','] + enc_habit(h));
    }
}

/// The lower-case hex digit of a value below sixteen.
fn hex_digit_exec(v: u32) -> (c: char)
    requires
        v < 16,
    ensures
        c == hex_digit(v as int),
{
    if v == 0 { '0' }
    else if v == 1 { '1' }
    else if v == 2 { '2' }
    else if v == 3 { '3' }
    else if v == 4 { '4' }
    else if v == 5 { '5' }
    else if v == 6 { '6' }
    else if v == 7 { '7' }
    else if v == 8 { '8' }
    else if v == 9 { '9' }
    else if v == 10 { 'a' }
    else if v == 11 { 'b' }
    else if v == 12 { 'c' }
    else if v == 13 { 'd' }
    else if v == 14 { 'e' }
    else { 'f' }
}

/// One character, escaped as the format asks.
fn emit_esc_char(out: &mut Vec<char>, c: char)
    ensures
        final(out)@ == old(out)@ + esc_char(c),
{
    if c == '"' {
        out.push('\\');
        out.push('"');
    } else if c == '\\' {
        out.push('\\');
        out.push('\\');
    } else if c == '\u{8}' {
        out.push('\\');
        out.push('b');
    } else if c == '\u{c}' {
        out.push('\\');
        out.push('f');
    } else if c == '\n' {
        out.push('\\');
        out.push('n');
    } else if c == '\r' {
        out.push('\\');
        out.push('r');
    } else if c == '\t' {
        out.push('\\');
        out.push('t');
    } else {
        let v = c as u32;
        if v < 0x20 {
            out.push('\\');
            out.push('u');
            out.push('0');
            out.push('0');
            out.push(hex_digit_exec(v / 16));
            out.push(hex_digit_exec(v % 16));
        } else {
            out.push(c);
        }
    }
    assert(out@ =~= old(out)@ + esc_char(c));
}

/// A string's characters, escaped one by one.
fn emit_string(out: &mut Vec<char>, s: &str)
    ensures
        final(out)@ == old(out)@ + enc_string(s@),
{
    let n = s.unicode_len();
    let mut idx: usize = 0;
    while idx < n
        invariant
            idx <= n,
            n == s@.len(),
            out@ == old(out)@ + enc_string(s@.subrange(0, idx as int)),
        decreases n - idx,
    {
        let c = s.get_char(idx);
        emit_esc_char(out, c);
        idx += 1;
        proof {
            assert(s@.subrange(0, idx as int) =~= s@.subrange(0, idx as int - 1).push(s@[idx - 1]));
            lemma_enc_string_snoc(s@.subrange(0, idx as int - 1), s@[idx - 1]);
            assert(out@ =~= old(out)@ + enc_string(s@.subrange(0, idx as int)));
        }
    }
    assert(s@.subrange(0, n as int) =~= s@);
}

/// `true` or `false`.
fn emit_bool(out: &mut Vec<char>, b: bool)
    ensures
        final(out)@ == old(out)@ + enc_bool(b),
{
    if b {
        out.push('t');
        out.push('r');
        out.push('u');
        out.push('e');
    } else {
        out.push('f');
        out.push('a');
        out.push('l');
        out.push('s');
        out.push('e');
    }
    assert(out@ =~= old(out)@ + enc_bool(b));
}

/// The flag list, comma-separated, brackets not included.
fn emit_bools(out: &mut Vec<char>, bs: &Vec<bool>)
    ensures
        final(out)@ == old(out)@ + enc_bools(bs@),
{
    let mut idx: usize = 0;
    while idx < bs.len()
        invariant
            idx <= bs@.len(),
            out@ == old(out)@ + enc_bools(bs@.subrange(0, idx as int)),
        decreases bs@.len() - idx,
    {
        if idx > 0 {
            out.push(',');
        }
        emit_bool(out, bs[idx]);
        idx += 1;
        proof {
            assert(bs@.subrange(0, idx as int) =~= bs@.subrange(0, idx as int - 1).push(bs@[idx - 1]));
            lemma_enc_bools_snoc(bs@.subrange(0, idx as int - 1), bs@[idx - 1]);
            assert(out@ =~= old(out)@ + enc_bools(bs@.subrange(0, idx as int)));
        }
    }
    assert(bs@.subrange(0, bs@.len() as int) =~= bs@);
}

/// One habit object.
fn emit_habit(out: &mut Vec<char>, h: &Habit)
    ensures
        final(out)@ == old(out)@ + enc_habit(h@),
{
    out.push('{');
    out.push('"');
    out.push('n');
    out.push('a');
    out.push('m');
    out.push('e');
    out.push('"');
    out.push(':');
    out.push('"');
    assert(out@ =~= old(out)@ + lit_habit_open());
    emit_string(out, h.name.as_str());
    out.push('"');
    out.push(',');
    out.push('"');
    out.push('c');
    out.push('o');
    out.push('m');
    out.push('p');
    out.push('l');
    out.push('e');
    out.push('t');
    out.push('e');
    out.push('d');
    out.push('"');
    out.push(':');
    out.push('[');
    assert(out@ =~= old(out)@ + lit_habit_open() + enc_string(h.name@) + seq!['"'] + lit_habit_mid());
    emit_bools(out, &h.completed);
    out.push(']');
    out.push('}');
    assert(out@ =~= old(out)@ + enc_habit(h@));
}

/// The habit list, comma-separated, brackets not included.
fn emit_habits(out: &mut Vec<char>, hs: &Vec<Habit>)
    ensures
        final(out)@ == old(out)@ + enc_habits(habits_model(hs@)),
{
    let mut idx: usize = 0;
    while idx < hs.len()
        invariant
            idx <= hs@.len(),
            out@ == old(out)@ + enc_habits(habits_model(hs@).subrange(0, idx as int)),
        decreases hs@.len() - idx,
    {
        if idx > 0 {
            out.push(',');
        }
        emit_habit(out, &hs[idx]);
        idx += 1;
        proof {
            assert(habits_model(hs@).subrange(0, idx as int) =~= habits_model(hs@).subrange(
                0,
                idx as int - 1,
            ).push(hs@[idx - 1]@));
            lemma_enc_habits_snoc(habits_model(hs@).subrange(0, idx as int - 1), hs@[idx - 1]@);
            assert(out@ =~= old(out)@ + enc_habits(habits_model(hs@).subrange(0, idx as int)));
        }
    }
    assert(habits_model(hs@).subrange(0, hs@.len() as int) =~= habits_model(hs@));
}

impl HabitTracker {
    /// The persisted text of this state: exactly the canonical writing
    /// that [`enc_state`] describes, and what [`HabitTracker::load_from_str`]
    /// reads back.
    pub fn save_to_string(&self) -> (r: String)
        ensures
            r@ == enc_state(self@),
    {
        let mut out: Vec<char> = Vec::new();
        out.push('{');
        out.push('"');
        out.push('h');
        out.push('a');
        out.push('b');
        out.push('i');
        out.push('t');
        out.push('s');
        out.push('"');
        out.push(':');
        out.push('[');
        assert(out@ =~= lit_state_open());
        emit_habits(&mut out, &self.habits);
        out.push(']');
        out.push(',');
        out.push('"');
        out.push('n');
        out.push('e');
        out.push('w');
        out.push('_');
        out.push('h');
        out.push('a');
        out.push('b');
        out.push('i');
        out.push('t');
        out.push('_');
        out.push('n');
        out.push('a');
        out.push('m');
        out.push('e');
        out.push('"');
        out.push(':');
        out.push('"');
        assert(out@ =~= lit_state_open() + enc_habits(self@.habits) + seq![']'] + lit_state_mid());
        emit_string(&mut out, self.new_habit_name.as_str());
        out.push('"');
        out.push('}');
        assert(out@ =~= enc_state(self@));
        chars_to_string(&out)
    }
}

} // verus!
