//! The library's laws: properties of the parse that hold for every input,
//! stated over the same specification functions that the parsing
//! functions' contracts use, and proved once and for all.
use vstd::prelude::*;

use crate::command::{CommandType, Easing, ErrorKindV, Vec2V, eff_fields, one_s, spec_command,
    spec_easing, zero2, zero_s};
use crate::event::EventV;
use crate::numbers::{all_digits, i32_of};
use crate::storyboard::{StV, ParseErrorV, cur_known, finalize_st, init_st, run_lines, skippable,
    spec_storyboard, step_line};
use crate::text::{leading_spaces, spec_lines, spec_split};

verus! {

/// For every accepted command line, the end time equals the start time
/// where the end-time field is empty or absent, and otherwise equals the
/// parsed value of the end-time field; the start time is always the parsed
/// value of the start-time field.
pub proof fn lemma_end_time_default(line: Seq<char>)
    requires
        spec_command(line) is Ok,
    ensures
        ({
            let raw = spec_split(line, ',');
            let c = spec_command(line)->Ok_0;
            &&& c.start_time == i32_of(raw[2])
            &&& (raw.len() == 3 || raw[3].len() == 0) ==> c.end_time == c.start_time
            &&& (raw.len() > 3 && raw[3].len() > 0) ==> c.end_time == i32_of(raw[3])
        }),
{
    let raw = spec_split(line, ',');
    let f = eff_fields(raw);
    assert(f[2] == raw[2]);
    if raw.len() == 3 {
        assert(f[3] == raw[2]);
    } else if raw[3].len() == 0 {
        assert(f[3] == raw[2]);
    } else {
        assert(f[3] == raw[3]);
    }
}

/// For every accepted two-coordinate movement command (movement or vector
/// scale), each end coordinate defaults independently to its corresponding
/// start coordinate when its field is absent, and is the parsed field
/// otherwise.
pub proof fn lemma_movement_end_defaults(line: Seq<char>)
    requires
        spec_command(line) is Ok,
        ({
            let f = eff_fields(spec_split(line, ','));
            f[0] == "M"@ || f[0] == "V"@
        }),
    ensures
        ({
            let f = eff_fields(spec_split(line, ','));
            let c = spec_command(line)->Ok_0;
            &&& c.start_vector == Vec2V { x: f[4], y: f[5] }
            &&& c.end_vector.x == if f.len() > 6 {
                f[6]
            } else {
                f[4]
            }
            &&& c.end_vector.y == if f.len() > 7 {
                f[7]
            } else {
                f[5]
            }
        }),
{
    reveal_strlit("F");
    reveal_strlit("S");
    reveal_strlit("R");
    reveal_strlit("M");
    reveal_strlit("V");
    reveal_strlit("MX");
    reveal_strlit("MY");
    reveal_strlit("C");
    reveal_strlit("P");
    let f = eff_fields(spec_split(line, ','));
    // the movement opcodes are neither of the scalar-family opcodes
    assert("M"@[0] == 'M' && "V"@[0] == 'V' && "F"@[0] == 'F' && "S"@[0] == 'S' && "R"@[0]
        == 'R');
    assert(f[0] != "F"@ && f[0] != "S"@ && f[0] != "R"@);
}

/// For every accepted single-axis movement command, the end coordinate on
/// the moving axis defaults to the start coordinate when its field is
/// absent.
pub proof fn lemma_axis_end_default(line: Seq<char>)
    requires
        spec_command(line) is Ok,
        ({
            let f = eff_fields(spec_split(line, ','));
            f[0] == "MX"@ || f[0] == "MY"@
        }),
    ensures
        ({
            let f = eff_fields(spec_split(line, ','));
            let c = spec_command(line)->Ok_0;
            f.len() <= 5 ==> c.end_vector == c.start_vector
        }),
{
    reveal_strlit("F");
    reveal_strlit("S");
    reveal_strlit("R");
    reveal_strlit("M");
    reveal_strlit("V");
    reveal_strlit("MX");
    reveal_strlit("MY");
    reveal_strlit("C");
    reveal_strlit("P");
}

/// The easing code five always selects the quadratic in-out curve, and any
/// code that is not a one- or two-digit number without a leading zero --
/// such as a three-digit code or non-numeric text -- always selects the
/// linear curve.
pub proof fn lemma_easing_code(s: Seq<char>)
    ensures
        s == seq!['5'] ==> spec_easing(s) == Easing::InOutQuad,
        s == seq!['9', '9', '9'] ==> spec_easing(s) == Easing::Linear,
        !(1 <= s.len() <= 2 && all_digits(s) && s[0] != '0') ==> spec_easing(s) == Easing::Linear,
{
    if s == seq!['5'] {
        assert(s.subrange(0, s.len() - 1) =~= Seq::<char>::empty());
        assert(crate::numbers::dec_val(Seq::<char>::empty()) == 0);
        assert(crate::numbers::dec_val(s) == 5);
    }
}

/// A parameter command with the horizontal sub-type always parses to a
/// horizontal flip whose payload slots are all zero-valued, with the fixed
/// colour alpha of one.
pub proof fn lemma_param_flip_horizontal(line: Seq<char>)
    requires
        spec_command(line) is Ok,
        ({
            let f = eff_fields(spec_split(line, ','));
            f[0] == "P"@ && f.len() > 4 && f[4] == "H"@
        }),
    ensures
        ({
            let c = spec_command(line)->Ok_0;
            &&& c.ctype == CommandType::FlipHorizontal
            &&& c.start_value == zero_s()
            &&& c.end_value == zero_s()
            &&& c.start_vector == zero2()
            &&& c.end_vector == zero2()
            &&& c.start_colour.x == zero_s()
            &&& c.start_colour.y == zero_s()
            &&& c.start_colour.z == zero_s()
            &&& c.start_colour.w == one_s()
            &&& c.end_colour == c.start_colour
        }),
{
    reveal_strlit("F");
    reveal_strlit("S");
    reveal_strlit("R");
    reveal_strlit("M");
    reveal_strlit("V");
    reveal_strlit("MX");
    reveal_strlit("MY");
    reveal_strlit("C");
    reveal_strlit("P");
    reveal_strlit("H");
    reveal_strlit("A");
}

/// A depth-one line always points the append target back at the event's
/// root scope, whatever scope was open before: a plain command on it lands
/// in the event's own command sequence, and a block opener redirects the
/// target into the new block.
pub proof fn lemma_depth_one_resets(st: StV, line: Seq<char>)
    requires
        !skippable(line),
        line.len() > 0,
        line[0] == ' ',
        leading_spaces(line) < 2,
        cur_known(st),
        step_line(st, line) is Ok,
    ensures
        ({
            let rest = line.subrange(leading_spaces(line), line.len() as int);
            let f = spec_split(rest, ',');
            let r = step_line(st, line)->Ok_0;
            &&& r.done == st.done && r.cur == st.cur
            &&& (f[0] == "T"@ || f[0] == "L"@) ==> !r.at_root && r.root == st.root
            &&& !(f[0] == "T"@ || f[0] == "L"@) ==> r.at_root && r.root == st.root.push(
                spec_command(rest)->Ok_0,
            )
        }),
{
}

/// An indented line under an unrecognized or absent event is dropped at
/// any depth: it raises no error and nothing of it reaches the document;
/// a depth-one line still resets the append target.
pub proof fn lemma_unknown_event_drops(st: StV, line: Seq<char>)
    requires
        !skippable(line),
        line.len() > 0,
        line[0] == ' ',
        !cur_known(st),
    ensures
        step_line(st, line) == Ok::<StV, ErrorKindV>(
            if leading_spaces(line) < 2 {
                StV { at_root: true, ..st }
            } else {
                st
            },
        ),
{
}

/// Parsing is deterministic: the result is a function of the input text
/// alone, so any two parses of the same text agree.
pub proof fn lemma_parse_deterministic(
    data: Seq<char>,
    r1: Result<Seq<EventV>, ParseErrorV>,
    r2: Result<Seq<EventV>, ParseErrorV>,
)
    requires
        r1 == spec_storyboard(data),
        r2 == spec_storyboard(data),
    ensures
        r1 == r2,
{
}

proof fn lemma_run_skippable(st: StV, lines: Seq<Seq<char>>, n: int)
    requires
        forall|i: int| 0 <= i < lines.len() ==> skippable(#[trigger] lines[i]),
    ensures
        run_lines(st, lines, n) == Ok::<StV, ParseErrorV>(st),
    decreases lines.len(),
{
    if lines.len() > 0 {
        assert(skippable(lines[0]));
        lemma_run_skippable(st, lines.subrange(1, lines.len() as int), n + 1);
    }
}

/// An input holding only comments, section headers and blank lines parses
/// to a storyboard with no events at all.
pub proof fn lemma_skippable_only_empty(data: Seq<char>)
    requires
        forall|i: int|
            0 <= i < spec_lines(data).len() ==> skippable(#[trigger] spec_lines(data)[i]),
    ensures
        spec_storyboard(data) == Ok::<Seq<EventV>, ParseErrorV>(Seq::<EventV>::empty()),
{
    lemma_run_skippable(init_st(), spec_lines(data), 1);
    assert(finalize_st(init_st()) =~= Seq::<EventV>::empty());
}

} // verus!

