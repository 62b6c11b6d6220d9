//! The persistence laws: reading back a written state recovers it, and
//! text that is not a canonical writing falls back to the empty state.

use vstd::prelude::*;

verus! {

use crate::json::ctl_char;
use crate::json::dec_state;
use crate::json::enc_bool;
use crate::json::enc_bools;
use crate::json::enc_habit;
use crate::json::enc_habits;
use crate::json::enc_state;
use crate::json::enc_string;
use crate::json::esc_char;
use crate::json::hex_digit;
use crate::json::lit_false;
use crate::json::lit_habit_close;
use crate::json::lit_habit_mid;
use crate::json::lit_habit_open;
use crate::json::lit_state_close;
use crate::json::lit_state_mid;
use crate::json::lit_state_open;
use crate::json::lit_true;
use crate::json::p_bool;
use crate::json::p_bools;
use crate::json::p_escape;
use crate::json::p_habit;
use crate::json::p_habits;
use crate::json::p_habits_rest;
use crate::json::p_lit;
use crate::json::p_strbody;
use crate::json::unhex_digit;
use crate::state::habit_wf;
use crate::state::tracker_wf;
use crate::state::HabitModel;
use crate::state::TrackerModel;
use crate::DAY_COUNT;

/// A concatenation standing at `i` splits into its two parts.
proof fn lemma_subrange_cat<T>(s: Seq<T>, i: int, a: Seq<T>, b: Seq<T>)
    requires
        0 <= i,
        i + a.len() + b.len() <= s.len(),
        s.subrange(i, i + a.len() + b.len()) == a + b,
    ensures
        s.subrange(i, i + a.len()) == a,
        s.subrange(i + a.len(), i + a.len() + b.len()) == b,
{
    assert forall|m: int| 0 <= m < a.len() + b.len() implies s[i + m] == (a + b)[m] by {
        assert(s.subrange(i, i + a.len() + b.len())[m] == s[i + m]);
    }
    assert forall|m: int| 0 <= m < a.len() implies s.subrange(i, i + a.len())[m] == a[m] by {
        assert(s[i + m] == (a + b)[m]);
    }
    assert(s.subrange(i, i + a.len()) =~= a);
    assert forall|m: int| 0 <= m < b.len() implies s.subrange(
        i + a.len(),
        i + a.len() + b.len(),
    )[m] == b[m] by {
        assert(s[i + a.len() + m] == (a + b)[a.len() + m]);
    }
    assert(s.subrange(i + a.len(), i + a.len() + b.len()) =~= b);
}

/// Reading a hex digit back gives the value it was written from.
proof fn lemma_unhex_hex(v: int)
    requires
        0 <= v < 16,
    ensures
        unhex_digit(hex_digit(v)) == Some(v),
{
}

/// [`ctl_char`] inverts the scalar value of a control character.
proof fn lemma_ctl_of_scalar(c: char)
    requires
        (c as u32) < 0x20,
    ensures
        ctl_char((c as u32) as int) == c,
{
    vstd::utf8::char_u32_cast(c, c as u32);
}

/// The string parser recovers any string from its escaped writing
/// followed by the closing quote.
proof fn lemma_strbody_complete(s: Seq<char>, i: int, name: Seq<char>)
    requires
        0 <= i,
        i + enc_string(name).len() + 1 <= s.len(),
        s.subrange(i, i + enc_string(name).len() + 1) == enc_string(name) + seq!['"'],
    ensures
        p_strbody(s, i) == Some((name, i + enc_string(name).len() + 1)),
    decreases name.len(),
{
    if name.len() == 0 {
        assert(enc_string(name) + seq!['"'] =~= seq!['"']);
        assert(s.subrange(i, i + 1)[0] == s[i]);
        assert(s[i] == '"');
        assert(name =~= Seq::<char>::empty());
    } else {
        let c = name[0];
        let rest = name.drop_first();
        let e = esc_char(c);
        let re = enc_string(rest);
        assert(enc_string(name) == e + re);
        assert(name =~= seq![c] + rest);
        assert(enc_string(name) + seq!['"'] =~= e + (re + seq!['"']));
        lemma_subrange_cat(s, i, e, re + seq!['"']);
        let i2 = i + e.len();
        assert(s.subrange(i2, i2 + re.len() + 1) == re + seq!['"']);
        lemma_strbody_complete(s, i2, rest);
        assert forall|m: int| 0 <= m < e.len() implies s[i + m] == e[m] by {
            assert(s.subrange(i, i + e.len() as int)[m] == s[i + m]);
        }
        if c == '"' || c == '\\' || c == '\u{8}' || c == '\u{c}' || c == '\n' || c == '\r'
            || c == '\t' {
            assert(e.len() == 2);
            assert(s[i] == '\\');
            assert(p_escape(s, i + 1) == Some((c, i + 2)));
            assert(p_strbody(s, i) == Some((seq![c] + rest, i + enc_string(name).len() + 1)));
        } else if (c as u32) < 0x20 {
            let u = (c as u32) as int;
            assert(e.len() == 6);
            assert(s[i] == '\\' && s[i + 1] == 'u' && s[i + 2] == '0' && s[i + 3] == '0');
            assert(s[i + 4] == hex_digit(u / 16) && s[i + 5] == hex_digit(u % 16));
            lemma_unhex_hex(u / 16);
            lemma_unhex_hex(u % 16);
            assert((u / 16) * 16 + u % 16 == u);
            assert((u / 16) * 16 + u % 16 < 0x20);
            lemma_ctl_of_scalar(c);
            assert(p_escape(s, i + 1) == Some((c, i + 6)));
            assert(p_strbody(s, i) == Some((seq![c] + rest, i + enc_string(name).len() + 1)));
        } else {
            assert(e.len() == 1);
            assert(s[i] == c);
            assert(p_strbody(s, i) == Some((seq![c] + rest, i + enc_string(name).len() + 1)));
        }
    }
}

/// The flag parser recovers a flag from its writing.
proof fn lemma_bool_complete(s: Seq<char>, i: int, b: bool)
    requires
        0 <= i,
        i + enc_bool(b).len() <= s.len(),
        s.subrange(i, i + enc_bool(b).len()) == enc_bool(b),
    ensures
        p_bool(s, i) == Some((b, i + enc_bool(b).len())),
{
    if b {
        assert(p_lit(s, i, lit_true()) == Some(i + 4));
    } else {
        assert(s.subrange(i, i + 5)[0] == s[i]);
        assert(s[i] == 'f');
        if i + 4 <= s.len() && s.subrange(i, i + 4) == lit_true() {
            assert(s.subrange(i, i + 4)[0] == s[i]);
            assert(false);
        }
        assert(p_lit(s, i, lit_true()) == None::<int>);
        assert(p_lit(s, i, lit_false()) == Some(i + 5));
    }
}

/// The flag-list parser recovers any flag list from its writing, counted.
proof fn lemma_bools_complete(s: Seq<char>, i: int, bs: Seq<bool>)
    requires
        bs.len() >= 1,
        0 <= i,
        i + enc_bools(bs).len() <= s.len(),
        s.subrange(i, i + enc_bools(bs).len()) == enc_bools(bs),
    ensures
        p_bools(s, i, bs.len()) == Some((bs, i + enc_bools(bs).len())),
    decreases bs.len(),
{
    if bs.len() == 1 {
        assert(enc_bools(bs) == enc_bool(bs[0]));
        lemma_bool_complete(s, i, bs[0]);
        assert(bs =~= seq![bs[0]]);
    } else {
        let b = bs[0];
        let rest = bs.drop_first();
        assert(enc_bools(bs) == enc_bool(b) + seq![','] + enc_bools(rest));
        assert(enc_bools(bs) =~= enc_bool(b) + (seq![','] + enc_bools(rest)));
        lemma_subrange_cat(s, i, enc_bool(b), seq![','] + enc_bools(rest));
        lemma_bool_complete(s, i, b);
        let j = i + enc_bool(b).len();
        lemma_subrange_cat(s, j, seq![','], enc_bools(rest));
        assert(s.subrange(j, j + 1)[0] == s[j]);
        assert(s[j] == ',');
        lemma_bools_complete(s, j + 1, rest);
        assert(bs =~= seq![b] + rest);
        assert(p_bools(s, i, bs.len()) == Some((bs, i + enc_bools(bs).len())));
    }
}

/// The habit parser recovers any well-formed habit from its writing.
proof fn lemma_habit_complete(s: Seq<char>, i: int, h: HabitModel)
    requires
        habit_wf(h),
        0 <= i,
        i + enc_habit(h).len() <= s.len(),
        s.subrange(i, i + enc_habit(h).len()) == enc_habit(h),
    ensures
        p_habit(s, i) == Some((h, i + enc_habit(h).len())),
{
    let l1 = lit_habit_open();
    let names = enc_string(h.name) + seq!['"'];
    let l2 = lit_habit_mid();
    let bools = enc_bools(h.completed);
    let l3 = lit_habit_close();
    assert(enc_habit(h) =~= l1 + (names + (l2 + (bools + l3))));
    lemma_subrange_cat(s, i, l1, names + (l2 + (bools + l3)));
    let j1 = i + l1.len();
    lemma_subrange_cat(s, j1, names, l2 + (bools + l3));
    let j2 = j1 + names.len();
    lemma_subrange_cat(s, j2, l2, bools + l3);
    let j3 = j2 + l2.len();
    lemma_subrange_cat(s, j3, bools, l3);
    let j4 = j3 + bools.len();
    assert(p_lit(s, i, l1) == Some(j1));
    lemma_strbody_complete(s, j1, h.name);
    assert(p_strbody(s, j1) == Some((h.name, j2)));
    assert(p_lit(s, j2, l2) == Some(j3));
    lemma_bools_complete(s, j3, h.completed);
    assert(p_bools(s, j3, DAY_COUNT as nat) == Some((h.completed, j4)));
    assert(p_lit(s, j4, l3) == Some(j4 + 2));
    assert(HabitModel { name: h.name, completed: h.completed } =~= h);
    assert(p_habit(s, i) == Some((h, i + enc_habit(h).len())));
}

/// Each habit's writing is at least one character long.
proof fn lemma_enc_habits_len(hs: Seq<HabitModel>)
    ensures
        enc_habits(hs).len() >= hs.len(),
    decreases hs.len(),
{
    if hs.len() == 0 {
    } else if hs.len() == 1 {
    } else {
        lemma_enc_habits_len(hs.drop_first());
    }
}

/// The habit-list parser recovers any non-empty well-formed habit list
/// from its writing followed by the closing bracket, given enough fuel.
proof fn lemma_habits_rest_complete(s: Seq<char>, i: int, hs: Seq<HabitModel>, fuel: nat)
    requires
        hs.len() >= 1,
        forall|m: int| 0 <= m < hs.len() ==> habit_wf(#[trigger] hs[m]),
        fuel >= hs.len(),
        0 <= i,
        i + enc_habits(hs).len() + 1 <= s.len(),
        s.subrange(i, i + enc_habits(hs).len() + 1) == enc_habits(hs) + seq![']'],
    ensures
        p_habits_rest(s, i, fuel) == Some((hs, i + enc_habits(hs).len() + 1)),
    decreases hs.len(),
{
    if hs.len() == 1 {
        assert(enc_habits(hs) == enc_habit(hs[0]));
        lemma_subrange_cat(s, i, enc_habit(hs[0]), seq![']']);
        lemma_habit_complete(s, i, hs[0]);
        let j = i + enc_habit(hs[0]).len();
        assert(s.subrange(j, j + 1)[0] == s[j]);
        assert(s[j] == ']');
        assert(hs =~= seq![hs[0]]);
        assert(p_habits_rest(s, i, fuel) == Some((hs, j + 1)));
    } else {
        let h = hs[0];
        let rest = hs.drop_first();
        assert(enc_habits(hs) == enc_habit(h) + seq![','] + enc_habits(rest));
        assert(enc_habits(hs) + seq![']'] =~= enc_habit(h) + (seq![','] + (enc_habits(rest)
            + seq![']'])));
        lemma_subrange_cat(s, i, enc_habit(h), seq![','] + (enc_habits(rest) + seq![']']));
        lemma_habit_complete(s, i, h);
        let j = i + enc_habit(h).len();
        lemma_subrange_cat(s, j, seq![','], enc_habits(rest) + seq![']']);
        assert(s.subrange(j, j + 1)[0] == s[j]);
        assert(s[j] == ',');
        assert forall|m: int| 0 <= m < rest.len() implies habit_wf(#[trigger] rest[m]) by {
            assert(rest[m] == hs[m + 1]);
        }
        lemma_habits_rest_complete(s, j + 1, rest, (fuel - 1) as nat);
        assert(hs =~= seq![h] + rest);
        assert(p_habits_rest(s, i, fuel) == Some((hs, i + enc_habits(hs).len() + 1)));
    }
}

/// Round trip: reading the canonical writing of any well-formed state
/// yields exactly that state. With [`crate::state::HabitTracker::save_to_string`]
/// writing `enc_state` and [`crate::state::HabitTracker::load_from_str`]
/// reading by `dec_state`, loading a saved state returns it unchanged.
/// The habit-list parser recovers any well-formed habit list from its
/// writing followed by the closing bracket, given enough fuel.
proof fn lemma_habits_complete(s: Seq<char>, i: int, hs: Seq<HabitModel>, fuel: nat)
    requires
        forall|m: int| 0 <= m < hs.len() ==> habit_wf(#[trigger] hs[m]),
        fuel >= hs.len(),
        0 <= i,
        i + enc_habits(hs).len() + 1 <= s.len(),
        s.subrange(i, i + enc_habits(hs).len() + 1) == enc_habits(hs) + seq![']'],
    ensures
        p_habits(s, i, fuel) == Some((hs, i + enc_habits(hs).len() + 1)),
{
    if hs.len() == 0 {
        assert(enc_habits(hs) =~= Seq::<char>::empty());
        assert(enc_habits(hs) + seq![']'] =~= seq![']']);
        assert(s.subrange(i, i + 1)[0] == s[i]);
        assert(s[i] == ']');
        assert(hs =~= Seq::<HabitModel>::empty());
    } else {
        assert(enc_habits(hs)[0] == '{') by {
            assert(enc_habits(hs) == if hs.len() == 1 {
                enc_habit(hs[0])
            } else {
                enc_habit(hs[0]) + seq![','] + enc_habits(hs.drop_first())
            });
            assert(enc_habit(hs[0])[0] == lit_habit_open()[0]);
        }
        assert(s.subrange(i, i + enc_habits(hs).len() + 1)[0] == s[i]);
        assert(s[i] == '{');
        lemma_habits_rest_complete(s, i, hs, fuel);
    }
}

/// Round trip: reading the canonical writing of any well-formed state
/// yields exactly that state. With [`crate::state::HabitTracker::save_to_string`]
/// writing `enc_state` and [`crate::state::HabitTracker::load_from_str`]
/// reading by `dec_state`, loading a saved state returns it unchanged.
#[verifier::rlimit(100)]
pub proof fn lemma_enc_dec_roundtrip(t: TrackerModel)
    requires
        tracker_wf(t),
    ensures
        dec_state(enc_state(t)) == Some(t),
{
    let s = enc_state(t);
    let l1 = lit_state_open();
    let hpart = enc_habits(t.habits) + seq![']'];
    let l2 = lit_state_mid();
    let npart = enc_string(t.new_habit_name) + seq!['"'];
    let l3 = lit_state_close();
    assert(s =~= l1 + (hpart + (l2 + (npart + l3))));
    assert(s.subrange(0, s.len() as int) =~= s);
    lemma_subrange_cat(s, 0, l1, hpart + (l2 + (npart + l3)));
    let j1 = l1.len() as int;
    lemma_subrange_cat(s, j1, hpart, l2 + (npart + l3));
    let j2 = j1 + hpart.len();
    lemma_subrange_cat(s, j2, l2, npart + l3);
    let j3 = j2 + l2.len();
    lemma_subrange_cat(s, j3, npart, l3);
    let j4 = j3 + npart.len();
    assert(p_lit(s, 0, l1) == Some(j1));
    lemma_enc_habits_len(t.habits);
    lemma_habits_complete(s, j1, t.habits, s.len());
    assert(p_habits(s, j1, s.len()) == Some((t.habits, j2)));
    assert(p_lit(s, j2, l2) == Some(j3));
    lemma_strbody_complete(s, j3, t.new_habit_name);
    assert(p_strbody(s, j3) == Some((t.new_habit_name, j4)));
    assert(p_lit(s, j4, l3) == Some(j4 + 1));
    assert(j4 + 1 == s.len());
    assert(TrackerModel { habits: t.habits, new_habit_name: t.new_habit_name } =~= t);
    assert(dec_state(s) == Some(t));
}

} // verus!
