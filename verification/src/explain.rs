use vstd::prelude::*;
use vstd::string::StringExecFns;
use colored::Colorize;
use crate::game::training::truncated_quotient;
use crate::gamedata::GameConstants;
use crate::text::{decimal_text, push_decimal};
use crate::utils::{Array5, Array6};

verus! {

/// Writes basic values of the game for reading.
pub struct Explain;

/// The stat above which a value is shown cut.
pub const CUT_ABOVE: i32 = 1200;

/// The highest facility level that is shown.
pub const TOP_LEVEL: i32 = 5;

/// What is written for a motivation that has no name.
pub open spec fn motivation_error() -> Seq<char> {
    "干劲错误"@
}

/// The name of lane `i`, or nothing where the constants have none.
pub open spec fn lane_name(cons: GameConstants, i: int) -> Seq<char> {
    if 0 <= i < cons.train_names@.len() {
        cons.train_names@[i]@
    } else {
        Seq::<char>::empty()
    }
}

/// What is written for one stat: its lane's name, its value and a blank.
pub open spec fn stat_piece(cons: GameConstants, i: int, value: int) -> Seq<char> {
    lane_name(cons, i) + decimal_text(value) + seq![' ']
}

/// The first `k` stats written one after another, those that are zero left
/// out.
pub open spec fn status_text(cons: GameConstants, stats: Seq<i32>, k: int) -> Seq<char>
    decreases k,
{
    if k <= 0 {
        Seq::<char>::empty()
    } else {
        status_text(cons, stats, k - 1) + if stats[k - 1] != 0 {
            stat_piece(cons, k - 1, stats[k - 1] as int)
        } else {
            Seq::<char>::empty()
        }
    }
}

/// A stat as it counts: what lies above 1200 counts half.
pub open spec fn cut_stat(value: int) -> int {
    if value <= CUT_ABOVE {
        value
    } else {
        CUT_ABOVE + (value - CUT_ABOVE) / 2
    }
}

/// The escape character that starts a colour sequence.
pub open spec fn escape() -> char {
    '\u{1b}'
}

/// A text between the sequences that switch cyan on and all colours off.
pub open spec fn in_cyan(text: Seq<char>) -> Seq<char> {
    seq![escape(), '[', '3', '6', 'm'] + text + seq![escape(), '[', '0', 'm']
}

/// Whether `shown` is `text` as it comes out of the colouring: as it is where
/// colours are switched off, in cyan where they are on. Of a text that
/// holds an escape character itself nothing is said.
pub open spec fn is_cyan_of(shown: Seq<char>, text: Seq<char>) -> bool {
    text.contains(escape()) || shown == text || shown == in_cyan(text)
}

/// Whether `text` is the first `k` stats written one after another as they
/// count, those that are zero left out and those that are cut coloured.
pub open spec fn is_cut_status_text(
    cons: GameConstants,
    stats: Seq<i32>,
    k: int,
    text: Seq<char>,
) -> bool
    decreases k,
{
    if k <= 0 {
        text == Seq::<char>::empty()
    } else if stats[k - 1] == 0 {
        is_cut_status_text(cons, stats, k - 1, text)
    } else {
        let piece = stat_piece(cons, k - 1, cut_stat(stats[k - 1] as int));
        exists|before: Seq<char>, shown: Seq<char>|
            {
                &&& is_cut_status_text(cons, stats, k - 1, before)
                &&& text == before + shown
                &&& if stats[k - 1] <= CUT_ABOVE {
                    shown == piece
                } else {
                    is_cyan_of(shown, piece)
                }
            }
    }
}

/// The facility level that is shown for a count of trainings: one level for
/// every four trainings, five at most.
pub open spec fn shown_level(count: int) -> int {
    let level = truncated_quotient(count, 4) + 1;
    if level < TOP_LEVEL {
        level
    } else {
        TOP_LEVEL as int
    }
}

/// The levels of the five lanes as a list in square brackets.
pub open spec fn level_list_text(train: Seq<i32>) -> Seq<char> {
    seq!['['] + decimal_text(shown_level(train[0] as int)) + seq![',', ' '] + decimal_text(
        shown_level(train[1] as int),
    ) + seq![',', ' '] + decimal_text(shown_level(train[2] as int)) + seq![',', ' ']
        + decimal_text(shown_level(train[3] as int)) + seq![',', ' '] + decimal_text(
        shown_level(train[4] as int),
    ) + seq![']']
}

/// `Colorize::cyan` and the display of what it gives: the text in cyan, or
/// the text as it is where the environment switches colours off.
#[verifier::external_body]
fn cyan(text: &String) -> (r: String)
    ensures
        is_cyan_of(r@, text@),
{
    format!("{}", text.as_str().cyan())
}

/// Computes the level that is shown for a count of trainings.
pub fn level_shown(count: i32) -> (r: i32)
    ensures
        r == shown_level(count as int),
{
    let quarter: i32 = if count >= 0 {
        count / 4
    } else {
        -((-(count as i64)) / 4) as i32
    };
    if quarter + 1 < TOP_LEVEL {
        quarter + 1
    } else {
        TOP_LEVEL
    }
}

impl Explain {
    /// The name of a motivation level, from 1 on.
    pub fn motivation(cons: &GameConstants, m: i32) -> (r: String)
        ensures
            r@ == (if 1 <= m <= cons.motivation_names@.len() {
                cons.motivation_names@[m - 1]@
            } else {
                motivation_error()
            }),
    {
        if m >= 1 && (m as usize) <= cons.motivation_names.len() {
            cons.motivation_names[(m - 1) as usize].clone()
        } else {
            "干劲错误".to_string()
        }
    }

    /// Writes one stat: its lane's name, its value and a blank.
    pub fn piece(cons: &GameConstants, i: usize, value: i32) -> (r: String)
        ensures
            r@ == stat_piece(*cons, i as int, value as int),
    {
        let mut out = String::new();
        if i < cons.train_names.len() {
            out.append(cons.train_names[i].as_str());
        }
        push_decimal(&mut out, value as i64);
        out.push(' ');
        assert(out@ =~= stat_piece(*cons, i as int, value as int));
        out
    }

    /// The five stats, each with its lane's name; a stat of zero is left out.
    pub fn five_status(cons: &GameConstants, stats: &Array5) -> (r: String)
        ensures
            r@ == status_text(*cons, stats@, 5),
    {
        let mut out = String::new();
        let mut i: usize = 0;
        while i < 5
            invariant
                i <= 5,
                out@ == status_text(*cons, stats@, i as int),
            decreases 5 - i,
        {
            if stats[i] != 0 {
                let piece = Explain::piece(cons, i, stats[i]);
                out.append(piece.as_str());
            } else {
                assert(out@ + Seq::<char>::empty() =~= out@);
            }
            i += 1;
        }
        out
    }

    /// The five stats as they count: what lies above 1200 counts half and is
    /// shown in cyan.
    pub fn five_status_cutted(cons: &GameConstants, stats: &Array5) -> (r: String)
        ensures
            is_cut_status_text(*cons, stats@, 5, r@),
    {
        let mut out = String::new();
        let mut i: usize = 0;
        while i < 5
            invariant
                i <= 5,
                is_cut_status_text(*cons, stats@, i as int, out@),
            decreases 5 - i,
        {
            let stat: i32 = stats[i];
            if stat != 0 {
                let ghost before = out@;
                if stat <= CUT_ABOVE {
                    let piece = Explain::piece(cons, i, stat);
                    out.append(piece.as_str());
                    assert(is_cut_status_text(*cons, stats@, i + 1, out@)) by {
                        assert(is_cut_status_text(*cons, stats@, i as int, before));
                        assert(out@ == before + piece@);
                    }
                } else {
                    let cutted: i32 = CUT_ABOVE + (stat - CUT_ABOVE) / 2;
                    let piece = Explain::piece(cons, i, cutted);
                    let shown = cyan(&piece);
                    out.append(shown.as_str());
                    assert(is_cut_status_text(*cons, stats@, i + 1, out@)) by {
                        assert(is_cut_status_text(*cons, stats@, i as int, before));
                        assert(out@ == before + shown@);
                    }
                }
            }
            i += 1;
        }
        out
    }

    /// The five stats and, where there are any, the skill points.
    pub fn status_with_pt(cons: &GameConstants, stats: &Array6) -> (r: String)
        ensures
            r@ == status_text(*cons, stats@.take(5), 5) + (if stats@[5] != 0 {
                decimal_text(stats@[5] as int) + seq!['p', 't']
            } else {
                Seq::<char>::empty()
            }),
    {
        let five: Array5 = [stats[0], stats[1], stats[2], stats[3], stats[4]];
        assert(five@ =~= stats@.take(5));
        let mut out = Explain::five_status(cons, &five);
        if stats[5] != 0 {
            let ghost before = out@;
            push_decimal(&mut out, stats[5] as i64);
            out.push('p');
            out.push('t');
            assert(out@ =~= before + (decimal_text(stats@[5] as int) + seq!['p', 't']));
        } else {
            assert(out@ + Seq::<char>::empty() =~= out@);
        }
        out
    }

    /// The facility levels of the five lanes, as a list.
    pub fn train_level_count(train: &Array5) -> (r: String)
        ensures
            r@ == level_list_text(train@),
    {
        let mut out = String::new();
        out.push('[');
        push_decimal(&mut out, level_shown(train[0]) as i64);
        out.push(',');
        out.push(' ');
        push_decimal(&mut out, level_shown(train[1]) as i64);
        out.push(',');
        out.push(' ');
        push_decimal(&mut out, level_shown(train[2]) as i64);
        out.push(',');
        out.push(' ');
        push_decimal(&mut out, level_shown(train[3]) as i64);
        out.push(',');
        out.push(' ');
        push_decimal(&mut out, level_shown(train[4]) as i64);
        out.push(']');
        assert(out@ =~= level_list_text(train@));
        out
    }
}

} // verus!
