//! A command is one timed property animation, parsed from one
//! comma-separated line. The opcode in the first field selects the kind and
//! which payload fields follow; missing optional trailing fields fall back
//! to the documented defaults.
use vstd::prelude::*;

use crate::numbers::{i32_of, valid_float, valid_i32, all_digits, dec_val, digit_val};
use crate::numbers::{check_float, parse_i32};
use crate::text::{eq_str, from_chars, seq_views, spec_split, split_on, to_chars, tail_from};
use crate::text::lemma_views_index;
use vstd::string::StringExecFns;

use crate::command_group::CommandGroup;

verus! {

#[derive(Debug, Copy, Clone, PartialEq, Eq, Structural)]
pub enum CommandType {
    Unknown,
    Movement,
    MovementX,
    MovementY,
    Fade,
    Scale,
    VectorScale,
    Rotation,
    Colour,
    FlipHorizontal,
    FlipVertical,
    BlendingMode,
}

#[derive(Debug, Copy, Clone, PartialEq, Eq, Structural)]
pub enum Easing {
    Linear,
    Out,
    In,
    InQuad,
    OutQuad,
    InOutQuad,
    InCubic,
    OutCubic,
    InOutCubic,
    InQuart,
    OutQuart,
    InOutQuart,
    InQuint,
    OutQuint,
    InOutQuint,
    InSine,
    OutSine,
    InOutSine,
    InExpo,
    OutExpo,
    InOutExpo,
    InCirc,
    OutCirc,
    InOutCirc,
    InElastic,
    OutElastic,
    OutElasticHalf,
    OutElasticQuarter,
    InOutElastic,
    InBack,
    OutBack,
    InOutBack,
    InBounce,
    OutBounce,
    InOutBounce,
}

/// A two-component vector. The components are carried as the validated
/// text of their floating-point fields; evaluating them numerically is the
/// consumer's concern.
#[derive(Debug, Clone, PartialEq)]
pub struct Vector2 {
    pub x: String,
    pub y: String,
}

/// A four-component colour value, carried as validated field text like
/// [`Vector2`].
#[derive(Debug, Clone, PartialEq)]
pub struct Vector4 {
    pub x: String,
    pub y: String,
    pub z: String,
    pub w: String,
}

pub ghost struct Vec2V {
    pub x: Seq<char>,
    pub y: Seq<char>,
}

pub ghost struct Vec4V {
    pub x: Seq<char>,
    pub y: Seq<char>,
    pub z: Seq<char>,
    pub w: Seq<char>,
}

impl View for Vector2 {
    type V = Vec2V;

    open spec fn view(&self) -> Vec2V {
        Vec2V { x: self.x@, y: self.y@ }
    }
}

impl View for Vector4 {
    type V = Vec4V;

    open spec fn view(&self) -> Vec4V {
        Vec4V { x: self.x@, y: self.y@, z: self.z@, w: self.w@ }
    }
}

/// One parsed command line. Payload slots that the command's kind does not
/// use hold zero values, not absent ones: callers dispatch on `ctype` to
/// know which slots are meaningful.
#[derive(Debug, Clone, PartialEq)]
pub struct Command {
    pub ctype: CommandType,
    pub easing: Easing,
    pub start_time: i32,
    pub end_time: i32,
    pub start_colour: Vector4,
    pub end_colour: Vector4,
    pub start_vector: Vector2,
    pub end_vector: Vector2,
    pub start_value: String,
    pub end_value: String,
}

pub ghost struct CommandV {
    pub ctype: CommandType,
    pub easing: Easing,
    pub start_time: int,
    pub end_time: int,
    pub start_colour: Vec4V,
    pub end_colour: Vec4V,
    pub start_vector: Vec2V,
    pub end_vector: Vec2V,
    pub start_value: Seq<char>,
    pub end_value: Seq<char>,
}

impl View for Command {
    type V = CommandV;

    open spec fn view(&self) -> CommandV {
        CommandV {
            ctype: self.ctype,
            easing: self.easing,
            start_time: self.start_time as int,
            end_time: self.end_time as int,
            start_colour: self.start_colour@,
            end_colour: self.end_colour@,
            start_vector: self.start_vector@,
            end_vector: self.end_vector@,
            start_value: self.start_value@,
            end_value: self.end_value@,
        }
    }
}

/// Why a line was rejected: a numeric field that does not parse, an opcode
/// or parameter sub-type outside the grammar, or a mandatory field that is
/// simply not there.
#[derive(Debug, Clone, PartialEq)]
pub enum ErrorKind {
    InvalidNumber { text: String },
    UnknownOpcode { opcode: String },
    MissingField,
}

pub ghost enum ErrorKindV {
    InvalidNumber { text: Seq<char> },
    UnknownOpcode { opcode: Seq<char> },
    MissingField,
}

impl View for ErrorKind {
    type V = ErrorKindV;

    open spec fn view(&self) -> ErrorKindV {
        match self {
            ErrorKind::InvalidNumber { text } => ErrorKindV::InvalidNumber { text: text@ },
            ErrorKind::UnknownOpcode { opcode } => ErrorKindV::UnknownOpcode { opcode: opcode@ },
            ErrorKind::MissingField => ErrorKindV::MissingField,
        }
    }
}

/// The text of a zero-valued payload slot.
pub open spec fn zero_s() -> Seq<char> {
    seq!['0']
}

/// The text of a one-valued payload slot (the fixed colour alpha).
pub open spec fn one_s() -> Seq<char> {
    seq!['1']
}

pub open spec fn zero2() -> Vec2V {
    Vec2V { x: zero_s(), y: zero_s() }
}

pub open spec fn zero4() -> Vec4V {
    Vec4V { x: zero_s(), y: zero_s(), z: zero_s(), w: zero_s() }
}

/// The easing curve selected by a small decimal code; any other text
/// quietly selects no easing rather than failing the parse.
pub open spec fn spec_easing(s: Seq<char>) -> Easing {
    if 1 <= s.len() <= 2 && all_digits(s) && s[0] != '0' {
        easing_table(dec_val(s))
    } else {
        Easing::Linear
    }
}

pub open spec fn easing_table(n: int) -> Easing {
    if n == 1 {
        Easing::Out
    } else if n == 2 {
        Easing::In
    } else if n == 3 {
        Easing::InQuad
    } else if n == 4 {
        Easing::OutQuad
    } else if n == 5 {
        Easing::InOutQuad
    } else if n == 6 {
        Easing::InCubic
    } else if n == 7 {
        Easing::OutCubic
    } else if n == 8 {
        Easing::InOutCubic
    } else if n == 9 {
        Easing::InQuart
    } else if n == 10 {
        Easing::OutQuart
    } else if n == 11 {
        Easing::InOutQuart
    } else if n == 12 {
        Easing::InQuint
    } else if n == 13 {
        Easing::OutQuint
    } else if n == 14 {
        Easing::InOutQuint
    } else if n == 15 {
        Easing::InSine
    } else if n == 16 {
        Easing::OutSine
    } else if n == 17 {
        Easing::InOutSine
    } else if n == 18 {
        Easing::InExpo
    } else if n == 19 {
        Easing::OutExpo
    } else if n == 20 {
        Easing::InOutExpo
    } else if n == 21 {
        Easing::InCirc
    } else if n == 22 {
        Easing::OutCirc
    } else if n == 23 {
        Easing::InOutCirc
    } else if n == 24 {
        Easing::InElastic
    } else if n == 25 {
        Easing::OutElastic
    } else if n == 26 {
        Easing::OutElasticHalf
    } else if n == 27 {
        Easing::OutElasticQuarter
    } else if n == 28 {
        Easing::InOutElastic
    } else if n == 29 {
        Easing::InBack
    } else if n == 30 {
        Easing::OutBack
    } else if n == 31 {
        Easing::InOutBack
    } else if n == 32 {
        Easing::InBounce
    } else if n == 33 {
        Easing::OutBounce
    } else if n == 34 {
        Easing::InOutBounce
    } else {
        Easing::Linear
    }
}

/// Maps an easing-code field to its curve.
fn easing_of(f: &Vec<char>) -> (e: Easing)
    ensures
        e == spec_easing(f@),
{
    if f.len() == 0 || f.len() > 2 {
        return Easing::Linear;
    }
    let c0 = f[0];
    if !(c0 >= '1' && c0 <= '9') {
        return Easing::Linear;
    }
    let mut n: u32 = c0 as u32 - 48;
    if f.len() == 2 {
        let c1 = f[1];
        if !(c1 >= '0' && c1 <= '9') {
            return Easing::Linear;
        }
        n = n * 10 + (c1 as u32 - 48);
        proof {
            assert(f@.subrange(0, 1) =~= seq![c0]);
            assert(seq![c0].subrange(0, 0) =~= Seq::<char>::empty());
            assert(dec_val(Seq::<char>::empty()) == 0);
            assert(dec_val(seq![c0]) == digit_val(c0));
            assert(f@.subrange(0, f@.len() - 1) =~= seq![c0]);
            assert(dec_val(f@) == n as int);
        }
    } else {
        proof {
            assert(f@.subrange(0, f@.len() - 1) =~= Seq::<char>::empty());
            assert(dec_val(Seq::<char>::empty()) == 0);
            assert(dec_val(f@) == n as int);
        }
    }
    if n == 1 {
        Easing::Out
    } else if n == 2 {
        Easing::In
    } else if n == 3 {
        Easing::InQuad
    } else if n == 4 {
        Easing::OutQuad
    } else if n == 5 {
        Easing::InOutQuad
    } else if n == 6 {
        Easing::InCubic
    } else if n == 7 {
        Easing::OutCubic
    } else if n == 8 {
        Easing::InOutCubic
    } else if n == 9 {
        Easing::InQuart
    } else if n == 10 {
        Easing::OutQuart
    } else if n == 11 {
        Easing::InOutQuart
    } else if n == 12 {
        Easing::InQuint
    } else if n == 13 {
        Easing::OutQuint
    } else if n == 14 {
        Easing::InOutQuint
    } else if n == 15 {
        Easing::InSine
    } else if n == 16 {
        Easing::OutSine
    } else if n == 17 {
        Easing::InOutSine
    } else if n == 18 {
        Easing::InExpo
    } else if n == 19 {
        Easing::OutExpo
    } else if n == 20 {
        Easing::InOutExpo
    } else if n == 21 {
        Easing::InCirc
    } else if n == 22 {
        Easing::OutCirc
    } else if n == 23 {
        Easing::InOutCirc
    } else if n == 24 {
        Easing::InElastic
    } else if n == 25 {
        Easing::OutElastic
    } else if n == 26 {
        Easing::OutElasticHalf
    } else if n == 27 {
        Easing::OutElasticQuarter
    } else if n == 28 {
        Easing::InOutElastic
    } else if n == 29 {
        Easing::InBack
    } else if n == 30 {
        Easing::OutBack
    } else if n == 31 {
        Easing::InOutBack
    } else if n == 32 {
        Easing::InBounce
    } else if n == 33 {
        Easing::OutBounce
    } else if n == 34 {
        Easing::InOutBounce
    } else {
        Easing::Linear
    }
}

/// The fields of a command line after the end-time fallback: a missing or
/// empty fourth field is replaced by a copy of the start-time field.
pub open spec fn eff_fields(raw: Seq<Seq<char>>) -> Seq<Seq<char>> {
    if raw.len() == 3 {
        raw.push(raw[2])
    } else if raw[3].len() == 0 {
        raw.update(3, raw[2])
    } else {
        raw
    }
}

/// The scalar-payload commands (fade, scale, rotation): one mandatory
/// start value, and an end value that defaults to the start value when
/// absent.
pub open spec fn spec_scalar(f: Seq<Seq<char>>, ctype: CommandType, easing: Easing, st: int, et: int) -> Result<CommandV, ErrorKindV> {
    if f.len() <= 4 {
        Err(ErrorKindV::MissingField)
    } else if !valid_float(f[4]) {
        Err(ErrorKindV::InvalidNumber { text: f[4] })
    } else if f.len() > 5 && !valid_float(f[5]) {
        Err(ErrorKindV::InvalidNumber { text: f[5] })
    } else {
        Ok(CommandV {
            ctype,
            easing,
            start_time: st,
            end_time: et,
            start_colour: zero4(),
            end_colour: zero4(),
            start_vector: zero2(),
            end_vector: zero2(),
            start_value: f[4],
            end_value: if f.len() > 5 {
                f[5]
            } else {
                f[4]
            },
        })
    }
}

/// The two-component movement commands (movement, vector scale): mandatory
/// start coordinates, and end coordinates that each default independently
/// to the matching start coordinate.
pub open spec fn spec_movement(f: Seq<Seq<char>>, ctype: CommandType, easing: Easing, st: int, et: int) -> Result<CommandV, ErrorKindV> {
    if f.len() <= 5 {
        Err(ErrorKindV::MissingField)
    } else if !valid_float(f[4]) {
        Err(ErrorKindV::InvalidNumber { text: f[4] })
    } else if !valid_float(f[5]) {
        Err(ErrorKindV::InvalidNumber { text: f[5] })
    } else if f.len() > 6 && !valid_float(f[6]) {
        Err(ErrorKindV::InvalidNumber { text: f[6] })
    } else if f.len() > 7 && !valid_float(f[7]) {
        Err(ErrorKindV::InvalidNumber { text: f[7] })
    } else {
        Ok(CommandV {
            ctype,
            easing,
            start_time: st,
            end_time: et,
            start_colour: zero4(),
            end_colour: zero4(),
            start_vector: Vec2V { x: f[4], y: f[5] },
            end_vector: Vec2V {
                x: if f.len() > 6 {
                    f[6]
                } else {
                    f[4]
                },
                y: if f.len() > 7 {
                    f[7]
                } else {
                    f[5]
                },
            },
            start_value: zero_s(),
            end_value: zero_s(),
        })
    }
}

/// The single-axis movement commands: one mandatory coordinate on the
/// named axis, an end coordinate defaulting to it, and zero on the other
/// axis.
pub open spec fn spec_axis(f: Seq<Seq<char>>, x_axis: bool, easing: Easing, st: int, et: int) -> Result<CommandV, ErrorKindV> {
    if f.len() <= 4 {
        Err(ErrorKindV::MissingField)
    } else if !valid_float(f[4]) {
        Err(ErrorKindV::InvalidNumber { text: f[4] })
    } else if f.len() > 5 && !valid_float(f[5]) {
        Err(ErrorKindV::InvalidNumber { text: f[5] })
    } else {
        let e = if f.len() > 5 {
            f[5]
        } else {
            f[4]
        };
        Ok(CommandV {
            ctype: if x_axis {
                CommandType::MovementX
            } else {
                CommandType::MovementY
            },
            easing,
            start_time: st,
            end_time: et,
            start_colour: zero4(),
            end_colour: zero4(),
            start_vector: if x_axis {
                Vec2V { x: f[4], y: zero_s() }
            } else {
                Vec2V { x: zero_s(), y: f[4] }
            },
            end_vector: if x_axis {
                Vec2V { x: e, y: zero_s() }
            } else {
                Vec2V { x: zero_s(), y: e }
            },
            start_value: zero_s(),
            end_value: zero_s(),
        })
    }
}

/// The colour command: mandatory start channels, a fixed alpha of one, and
/// end channels that each default independently to zero when absent.
pub open spec fn spec_colour(f: Seq<Seq<char>>, easing: Easing, st: int, et: int) -> Result<CommandV, ErrorKindV> {
    if f.len() <= 6 {
        Err(ErrorKindV::MissingField)
    } else if !valid_float(f[4]) {
        Err(ErrorKindV::InvalidNumber { text: f[4] })
    } else if !valid_float(f[5]) {
        Err(ErrorKindV::InvalidNumber { text: f[5] })
    } else if !valid_float(f[6]) {
        Err(ErrorKindV::InvalidNumber { text: f[6] })
    } else if f.len() > 7 && !valid_float(f[7]) {
        Err(ErrorKindV::InvalidNumber { text: f[7] })
    } else if f.len() > 8 && !valid_float(f[8]) {
        Err(ErrorKindV::InvalidNumber { text: f[8] })
    } else if f.len() > 9 && !valid_float(f[9]) {
        Err(ErrorKindV::InvalidNumber { text: f[9] })
    } else {
        Ok(CommandV {
            ctype: CommandType::Colour,
            easing,
            start_time: st,
            end_time: et,
            start_colour: Vec4V { x: f[4], y: f[5], z: f[6], w: one_s() },
            end_colour: Vec4V {
                x: if f.len() > 7 {
                    f[7]
                } else {
                    zero_s()
                },
                y: if f.len() > 8 {
                    f[8]
                } else {
                    zero_s()
                },
                z: if f.len() > 9 {
                    f[9]
                } else {
                    zero_s()
                },
                w: one_s(),
            },
            start_vector: zero2(),
            end_vector: zero2(),
            start_value: zero_s(),
            end_value: zero_s(),
        })
    }
}

/// The parameter command: a one-letter sub-type selects a flip or blending
/// toggle; every payload slot is zero-valued, with a fixed colour alpha of
/// one.
pub open spec fn spec_param(f: Seq<Seq<char>>, easing: Easing, st: int, et: int) -> Result<CommandV, ErrorKindV> {
    if f.len() <= 4 {
        Err(ErrorKindV::MissingField)
    } else {
        let ct = if f[4] == "H"@ {
            CommandType::FlipHorizontal
        } else if f[4] == "V"@ {
            CommandType::FlipVertical
        } else if f[4] == "A"@ {
            CommandType::BlendingMode
        } else {
            CommandType::Unknown
        };
        if ct == CommandType::Unknown {
            Err(ErrorKindV::UnknownOpcode { opcode: f[4] })
        } else {
            Ok(CommandV {
                ctype: ct,
                easing,
                start_time: st,
                end_time: et,
                start_colour: Vec4V { x: zero_s(), y: zero_s(), z: zero_s(), w: one_s() },
                end_colour: Vec4V { x: zero_s(), y: zero_s(), z: zero_s(), w: one_s() },
                start_vector: zero2(),
                end_vector: zero2(),
                start_value: zero_s(),
                end_value: zero_s(),
            })
        }
    }
}

/// Dispatches a command line's payload on its opcode field.
pub open spec fn spec_payload(f: Seq<Seq<char>>, easing: Easing, st: int, et: int) -> Result<CommandV, ErrorKindV> {
    let op = f[0];
    if op == "F"@ {
        spec_scalar(f, CommandType::Fade, easing, st, et)
    } else if op == "S"@ {
        spec_scalar(f, CommandType::Scale, easing, st, et)
    } else if op == "R"@ {
        spec_scalar(f, CommandType::Rotation, easing, st, et)
    } else if op == "M"@ {
        spec_movement(f, CommandType::Movement, easing, st, et)
    } else if op == "V"@ {
        spec_movement(f, CommandType::VectorScale, easing, st, et)
    } else if op == "MX"@ {
        spec_axis(f, true, easing, st, et)
    } else if op == "MY"@ {
        spec_axis(f, false, easing, st, et)
    } else if op == "C"@ {
        spec_colour(f, easing, st, et)
    } else if op == "P"@ {
        spec_param(f, easing, st, et)
    } else {
        Err(ErrorKindV::UnknownOpcode { opcode: op })
    }
}

/// What parsing one command line yields: the command, or the first error
/// in field order. The fields are the comma-separated columns of the line;
/// the easing field is read leniently, the time fields strictly, and the
/// payload as the opcode directs.
pub open spec fn spec_command(line: Seq<char>) -> Result<CommandV, ErrorKindV> {
    let raw = spec_split(line, ',');
    if raw.len() < 3 {
        Err(ErrorKindV::MissingField)
    } else {
        let f = eff_fields(raw);
        if !valid_i32(f[2]) {
            Err(ErrorKindV::InvalidNumber { text: f[2] })
        } else if !valid_i32(f[3]) {
            Err(ErrorKindV::InvalidNumber { text: f[3] })
        } else {
            spec_payload(f, spec_easing(f[1]), i32_of(f[2]), i32_of(f[3]))
        }
    }
}

impl Command {
    /// Parses one command line, already stripped of its indentation.
    pub fn from_string(data: String) -> (r: Result<Command, ErrorKind>)
        ensures
            match r {
                Ok(c) => spec_command(data@) == Ok::<CommandV, ErrorKindV>(c@),
                Err(e) => spec_command(data@) == Err::<CommandV, ErrorKindV>(e@),
            },
    {
        let chars = to_chars(data.as_str());
        let raw = split_on(&chars, ',');
        command_from_fields(raw, Ghost(data@))
    }
}

/// Parses a command from its already split fields.
pub(crate) fn command_from_fields(raw: Vec<Vec<char>>, line: Ghost<Seq<char>>) -> (r: Result<
    Command,
    ErrorKind,
>)
    requires
        seq_views(raw@) == spec_split(line@, ','),
    ensures
        match r {
            Ok(c) => spec_command(line@) == Ok::<CommandV, ErrorKindV>(c@),
            Err(e) => spec_command(line@) == Err::<CommandV, ErrorKindV>(e@),
        },
{
    let ghost rawv = spec_split(line@, ',');
    if raw.len() < 3 {
        return Err(ErrorKind::MissingField);
    }
    let mut f = raw;
    if f.len() == 3 {
        let copy2 = tail_from(&f[2], 0);
        proof {
            lemma_views_index(f@, 2);
            assert(copy2@ =~= f@[2]@);
        }
        f.push(copy2);
    } else {
        if f[3].len() == 0 {
            let copy2 = tail_from(&f[2], 0);
            proof {
                lemma_views_index(f@, 2);
                assert(copy2@ =~= f@[2]@);
            }
            f.set(3, copy2);
        }
    }
    let ghost fv = eff_fields(rawv);
    proof {
        assert(seq_views(f@) =~= fv);
    }
    proof {
        lemma_views_index(f@, 0);
        lemma_views_index(f@, 1);
        lemma_views_index(f@, 2);
        lemma_views_index(f@, 3);
    }
    let easing = easing_of(&f[1]);
    let st: i32 = match parse_i32(&f[2]) {
        Some(v) => v,
        None => {
            return Err(ErrorKind::InvalidNumber { text: from_chars(&f[2]) });
        },
    };
    let et: i32 = match parse_i32(&f[3]) {
        Some(v) => v,
        None => {
            return Err(ErrorKind::InvalidNumber { text: from_chars(&f[3]) });
        },
    };
    if eq_str(&f[0], "F") {
        scalar_cmd(&f, CommandType::Fade, easing, st, et, Ghost(fv))
    } else if eq_str(&f[0], "S") {
        scalar_cmd(&f, CommandType::Scale, easing, st, et, Ghost(fv))
    } else if eq_str(&f[0], "R") {
        scalar_cmd(&f, CommandType::Rotation, easing, st, et, Ghost(fv))
    } else if eq_str(&f[0], "M") {
        movement_cmd(&f, CommandType::Movement, easing, st, et, Ghost(fv))
    } else if eq_str(&f[0], "V") {
        movement_cmd(&f, CommandType::VectorScale, easing, st, et, Ghost(fv))
    } else if eq_str(&f[0], "MX") {
        axis_cmd(&f, true, easing, st, et, Ghost(fv))
    } else if eq_str(&f[0], "MY") {
        axis_cmd(&f, false, easing, st, et, Ghost(fv))
    } else if eq_str(&f[0], "C") {
        colour_cmd(&f, easing, st, et, Ghost(fv))
    } else if eq_str(&f[0], "P") {
        param_cmd(&f, easing, st, et, Ghost(fv))
    } else {
        Err(ErrorKind::UnknownOpcode { opcode: from_chars(&f[0]) })
    }
}

/// A zero-valued payload slot.
fn zero_string() -> (r: String)
    ensures
        r@ == zero_s(),
{
    proof {
        reveal_strlit("0");
    }
    String::from_str("0")
}

/// A one-valued payload slot.
fn one_string() -> (r: String)
    ensures
        r@ == one_s(),
{
    proof {
        reveal_strlit("1");
    }
    String::from_str("1")
}

fn zero_vector2() -> (r: Vector2)
    ensures
        r@ == zero2(),
{
    Vector2 { x: zero_string(), y: zero_string() }
}

fn zero_vector4() -> (r: Vector4)
    ensures
        r@ == zero4(),
{
    Vector4 { x: zero_string(), y: zero_string(), z: zero_string(), w: zero_string() }
}

fn scalar_cmd(
    f: &Vec<Vec<char>>,
    ctype: CommandType,
    easing: Easing,
    st: i32,
    et: i32,
    fv: Ghost<Seq<Seq<char>>>,
) -> (r: Result<Command, ErrorKind>)
    requires
        seq_views(f@) == fv@,
    ensures
        match r {
            Ok(c) => spec_scalar(fv@, ctype, easing, st as int, et as int) == Ok::<
                CommandV,
                ErrorKindV,
            >(c@),
            Err(e) => spec_scalar(fv@, ctype, easing, st as int, et as int) == Err::<
                CommandV,
                ErrorKindV,
            >(e@),
        },
{
    proof {
        if f@.len() > 4 {
            lemma_views_index(f@, 4);
        }
        if f@.len() > 5 {
            lemma_views_index(f@, 5);
        }
    }
    if f.len() <= 4 {
        return Err(ErrorKind::MissingField);
    }
    if !check_float(&f[4]) {
        return Err(ErrorKind::InvalidNumber { text: from_chars(&f[4]) });
    }
    if f.len() > 5 && !check_float(&f[5]) {
        return Err(ErrorKind::InvalidNumber { text: from_chars(&f[5]) });
    }
    let sv = from_chars(&f[4]);
    let ev = if f.len() > 5 {
        from_chars(&f[5])
    } else {
        from_chars(&f[4])
    };
    Ok(
        Command {
            ctype,
            easing,
            start_time: st,
            end_time: et,
            start_colour: zero_vector4(),
            end_colour: zero_vector4(),
            start_vector: zero_vector2(),
            end_vector: zero_vector2(),
            start_value: sv,
            end_value: ev,
        },
    )
}

fn movement_cmd(
    f: &Vec<Vec<char>>,
    ctype: CommandType,
    easing: Easing,
    st: i32,
    et: i32,
    fv: Ghost<Seq<Seq<char>>>,
) -> (r: Result<Command, ErrorKind>)
    requires
        seq_views(f@) == fv@,
    ensures
        match r {
            Ok(c) => spec_movement(fv@, ctype, easing, st as int, et as int) == Ok::<
                CommandV,
                ErrorKindV,
            >(c@),
            Err(e) => spec_movement(fv@, ctype, easing, st as int, et as int) == Err::<
                CommandV,
                ErrorKindV,
            >(e@),
        },
{
    proof {
        if f@.len() > 4 {
            lemma_views_index(f@, 4);
        }
        if f@.len() > 5 {
            lemma_views_index(f@, 5);
        }
        if f@.len() > 6 {
            lemma_views_index(f@, 6);
        }
        if f@.len() > 7 {
            lemma_views_index(f@, 7);
        }
    }
    if f.len() <= 5 {
        return Err(ErrorKind::MissingField);
    }
    if !check_float(&f[4]) {
        return Err(ErrorKind::InvalidNumber { text: from_chars(&f[4]) });
    }
    if !check_float(&f[5]) {
        return Err(ErrorKind::InvalidNumber { text: from_chars(&f[5]) });
    }
    if f.len() > 6 && !check_float(&f[6]) {
        return Err(ErrorKind::InvalidNumber { text: from_chars(&f[6]) });
    }
    if f.len() > 7 && !check_float(&f[7]) {
        return Err(ErrorKind::InvalidNumber { text: from_chars(&f[7]) });
    }
    let ex = if f.len() > 6 {
        from_chars(&f[6])
    } else {
        from_chars(&f[4])
    };
    let ey = if f.len() > 7 {
        from_chars(&f[7])
    } else {
        from_chars(&f[5])
    };
    Ok(
        Command {
            ctype,
            easing,
            start_time: st,
            end_time: et,
            start_colour: zero_vector4(),
            end_colour: zero_vector4(),
            start_vector: Vector2 { x: from_chars(&f[4]), y: from_chars(&f[5]) },
            end_vector: Vector2 { x: ex, y: ey },
            start_value: zero_string(),
            end_value: zero_string(),
        },
    )
}

fn axis_cmd(
    f: &Vec<Vec<char>>,
    x_axis: bool,
    easing: Easing,
    st: i32,
    et: i32,
    fv: Ghost<Seq<Seq<char>>>,
) -> (r: Result<Command, ErrorKind>)
    requires
        seq_views(f@) == fv@,
    ensures
        match r {
            Ok(c) => spec_axis(fv@, x_axis, easing, st as int, et as int) == Ok::<
                CommandV,
                ErrorKindV,
            >(c@),
            Err(e) => spec_axis(fv@, x_axis, easing, st as int, et as int) == Err::<
                CommandV,
                ErrorKindV,
            >(e@),
        },
{
    proof {
        if f@.len() > 4 {
            lemma_views_index(f@, 4);
        }
        if f@.len() > 5 {
            lemma_views_index(f@, 5);
        }
    }
    if f.len() <= 4 {
        return Err(ErrorKind::MissingField);
    }
    if !check_float(&f[4]) {
        return Err(ErrorKind::InvalidNumber { text: from_chars(&f[4]) });
    }
    if f.len() > 5 && !check_float(&f[5]) {
        return Err(ErrorKind::InvalidNumber { text: from_chars(&f[5]) });
    }
    let e = if f.len() > 5 {
        from_chars(&f[5])
    } else {
        from_chars(&f[4])
    };
    let (sv, ev) = if x_axis {
        (
            Vector2 { x: from_chars(&f[4]), y: zero_string() },
            Vector2 { x: e, y: zero_string() },
        )
    } else {
        (
            Vector2 { x: zero_string(), y: from_chars(&f[4]) },
            Vector2 { x: zero_string(), y: e },
        )
    };
    Ok(
        Command {
            ctype: if x_axis {
                CommandType::MovementX
            } else {
                CommandType::MovementY
            },
            easing,
            start_time: st,
            end_time: et,
            start_colour: zero_vector4(),
            end_colour: zero_vector4(),
            start_vector: sv,
            end_vector: ev,
            start_value: zero_string(),
            end_value: zero_string(),
        },
    )
}

fn colour_cmd(
    f: &Vec<Vec<char>>,
    easing: Easing,
    st: i32,
    et: i32,
    fv: Ghost<Seq<Seq<char>>>,
) -> (r: Result<Command, ErrorKind>)
    requires
        seq_views(f@) == fv@,
    ensures
        match r {
            Ok(c) => spec_colour(fv@, easing, st as int, et as int) == Ok::<CommandV, ErrorKindV>(
                c@,
            ),
            Err(e) => spec_colour(fv@, easing, st as int, et as int) == Err::<CommandV, ErrorKindV>(
                e@,
            ),
        },
{
    proof {
        if f@.len() > 4 {
            lemma_views_index(f@, 4);
        }
        if f@.len() > 5 {
            lemma_views_index(f@, 5);
        }
        if f@.len() > 6 {
            lemma_views_index(f@, 6);
        }
        if f@.len() > 7 {
            lemma_views_index(f@, 7);
        }
        if f@.len() > 8 {
            lemma_views_index(f@, 8);
        }
        if f@.len() > 9 {
            lemma_views_index(f@, 9);
        }
    }
    if f.len() <= 6 {
        return Err(ErrorKind::MissingField);
    }
    if !check_float(&f[4]) {
        return Err(ErrorKind::InvalidNumber { text: from_chars(&f[4]) });
    }
    if !check_float(&f[5]) {
        return Err(ErrorKind::InvalidNumber { text: from_chars(&f[5]) });
    }
    if !check_float(&f[6]) {
        return Err(ErrorKind::InvalidNumber { text: from_chars(&f[6]) });
    }
    if f.len() > 7 && !check_float(&f[7]) {
        return Err(ErrorKind::InvalidNumber { text: from_chars(&f[7]) });
    }
    if f.len() > 8 && !check_float(&f[8]) {
        return Err(ErrorKind::InvalidNumber { text: from_chars(&f[8]) });
    }
    if f.len() > 9 && !check_float(&f[9]) {
        return Err(ErrorKind::InvalidNumber { text: from_chars(&f[9]) });
    }
    let er = if f.len() > 7 {
        from_chars(&f[7])
    } else {
        zero_string()
    };
    let eg = if f.len() > 8 {
        from_chars(&f[8])
    } else {
        zero_string()
    };
    let eb = if f.len() > 9 {
        from_chars(&f[9])
    } else {
        zero_string()
    };
    Ok(
        Command {
            ctype: CommandType::Colour,
            easing,
            start_time: st,
            end_time: et,
            start_colour: Vector4 {
                x: from_chars(&f[4]),
                y: from_chars(&f[5]),
                z: from_chars(&f[6]),
                w: one_string(),
            },
            end_colour: Vector4 { x: er, y: eg, z: eb, w: one_string() },
            start_vector: zero_vector2(),
            end_vector: zero_vector2(),
            start_value: zero_string(),
            end_value: zero_string(),
        },
    )
}

fn param_cmd(
    f: &Vec<Vec<char>>,
    easing: Easing,
    st: i32,
    et: i32,
    fv: Ghost<Seq<Seq<char>>>,
) -> (r: Result<Command, ErrorKind>)
    requires
        seq_views(f@) == fv@,
    ensures
        match r {
            Ok(c) => spec_param(fv@, easing, st as int, et as int) == Ok::<CommandV, ErrorKindV>(
                c@,
            ),
            Err(e) => spec_param(fv@, easing, st as int, et as int) == Err::<CommandV, ErrorKindV>(
                e@,
            ),
        },
{
    proof {
        if f@.len() > 4 {
            lemma_views_index(f@, 4);
        }
    }
    if f.len() <= 4 {
        return Err(ErrorKind::MissingField);
    }
    let ct = if eq_str(&f[4], "H") {
        CommandType::FlipHorizontal
    } else if eq_str(&f[4], "V") {
        CommandType::FlipVertical
    } else if eq_str(&f[4], "A") {
        CommandType::BlendingMode
    } else {
        return Err(ErrorKind::UnknownOpcode { opcode: from_chars(&f[4]) });
    };
    Ok(
        Command {
            ctype: ct,
            easing,
            start_time: st,
            end_time: et,
            start_colour: Vector4 {
                x: zero_string(),
                y: zero_string(),
                z: zero_string(),
                w: one_string(),
            },
            end_colour: Vector4 {
                x: zero_string(),
                y: zero_string(),
                z: zero_string(),
                w: one_string(),
            },
            start_vector: zero_vector2(),
            end_vector: zero_vector2(),
            start_value: zero_string(),
            end_value: zero_string(),
        },
    )
}

/// A command block repeated a fixed number of times from a start time.
#[derive(Debug, PartialEq)]
pub struct LoopCommand {
    pub start_time: i32,
    pub count: i32,
    pub commands: CommandGroup,
}

impl LoopCommand {
    pub fn new(start_time: i32, count: i32) -> (r: LoopCommand)
        ensures
            r.start_time == start_time,
            r.count == count,
            r.commands.commands@.len() == 0,
            r.commands.loop_commands@.len() == 0,
            r.commands.trigger_commands@.len() == 0,
    {
        LoopCommand { start_time, count, commands: CommandGroup::new() }
    }
}

/// A command block activated by a named trigger condition inside a time
/// window.
#[derive(Debug, PartialEq)]
pub struct TriggerCommand {
    pub name: String,
    pub start_time: i32,
    pub end_time: i32,
    pub group_number: i32,
    pub commands: CommandGroup,
}

impl TriggerCommand {
    pub fn new(name: String, start_time: i32, end_time: i32, group_number: i32) -> (r:
        TriggerCommand)
        ensures
            r.name == name,
            r.start_time == start_time,
            r.end_time == end_time,
            r.group_number == group_number,
            r.commands.commands@.len() == 0,
            r.commands.loop_commands@.len() == 0,
            r.commands.trigger_commands@.len() == 0,
    {
        TriggerCommand { name, start_time, end_time, group_number, commands: CommandGroup::new() }
    }
}

} // verus!
