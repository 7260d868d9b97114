//! An event is one top-level timeline entry: a sprite, an animation, or an
//! audio sample, with its layer, origin anchor, file path and position.
//! An unrecognized or unsupported kind degrades to an empty placeholder
//! event rather than aborting the document parse.
use vstd::prelude::*;

use crate::command::{Command, CommandV, ErrorKind, ErrorKindV, Vec2V, Vector2, zero2, zero_s};
use crate::numbers::{i32_of, valid_float, valid_i32};
use crate::numbers::{check_float, parse_i32};
use crate::text::{eq_str, from_chars, lemma_views_index, seq_views, spec_split, split_on, to_chars, tail_from};
use vstd::string::StringExecFns;

verus! {

#[derive(Debug, Copy, Clone, PartialEq, Eq, Structural)]
pub enum EventType {
    Sprite,
    Animation,
    Sample,
    Unknown,
}

#[derive(Debug, Copy, Clone, PartialEq, Eq, Structural)]
pub enum LayerType {
    Background,
    Fail,
    Pass,
    Foreground,
    Overlay,
    Samples,
    Unknown,
}

#[derive(Debug, Copy, Clone, PartialEq, Eq, Structural)]
pub enum OriginType {
    TopLeft,
    TopCentre,
    TopRight,
    CentreLeft,
    Centre,
    CentreRight,
    BottomLeft,
    BottomCentre,
    BottomRight,
    Custom,
}

#[derive(Debug, Copy, Clone, PartialEq, Eq, Structural)]
pub enum LoopType {
    LoopForever,
    LoopOnce,
}

/// One top-level timeline entry. The animation fields and the sample
/// fields are structurally present on every event and zero-valued where
/// the event's kind does not use them; the sample fields are kept but
/// never populated by the parser, which substitutes a placeholder for
/// sample lines.
#[derive(Debug, Clone, PartialEq)]
pub struct Event {
    pub etype: EventType,
    pub layer: LayerType,
    pub file_path: String,
    pub pos: Vector2,
    pub origin: OriginType,
    pub commands: Vec<Command>,
    pub frame_count: i32,
    pub frame_delay: String,
    pub loop_type: LoopType,
    pub time: i32,
    pub volume: i32,
}

pub ghost struct EventV {
    pub etype: EventType,
    pub layer: LayerType,
    pub file_path: Seq<char>,
    pub pos: Vec2V,
    pub origin: OriginType,
    pub commands: Seq<CommandV>,
    pub frame_count: int,
    pub frame_delay: Seq<char>,
    pub loop_type: LoopType,
    pub time: int,
    pub volume: int,
}

impl View for Event {
    type V = EventV;

    open spec fn view(&self) -> EventV {
        EventV {
            etype: self.etype,
            layer: self.layer,
            file_path: self.file_path@,
            pos: self.pos@,
            origin: self.origin,
            commands: seq_views(self.commands@),
            frame_count: self.frame_count as int,
            frame_delay: self.frame_delay@,
            loop_type: self.loop_type,
            time: self.time as int,
            volume: self.volume as int,
        }
    }
}

pub open spec fn spec_etype(s: Seq<char>) -> EventType {
    if s == "Sprite"@ {
        EventType::Sprite
    } else if s == "Animation"@ {
        EventType::Animation
    } else if s == "Sample"@ {
        EventType::Sample
    } else {
        EventType::Unknown
    }
}

pub open spec fn spec_layer(s: Seq<char>) -> LayerType {
    if s == "Background"@ {
        LayerType::Background
    } else if s == "Fail"@ {
        LayerType::Fail
    } else if s == "Pass"@ {
        LayerType::Pass
    } else if s == "Foreground"@ {
        LayerType::Foreground
    } else if s == "Overlay"@ {
        LayerType::Overlay
    } else if s == "Samples"@ {
        LayerType::Samples
    } else {
        LayerType::Unknown
    }
}

pub open spec fn spec_origin(s: Seq<char>) -> OriginType {
    if s == "TopLeft"@ {
        OriginType::TopLeft
    } else if s == "TopCentre"@ {
        OriginType::TopCentre
    } else if s == "TopRight"@ {
        OriginType::TopRight
    } else if s == "CentreLeft"@ {
        OriginType::CentreLeft
    } else if s == "Centre"@ {
        OriginType::Centre
    } else if s == "CentreRight"@ {
        OriginType::CentreRight
    } else if s == "BottomLeft"@ {
        OriginType::BottomLeft
    } else if s == "BottomCentre"@ {
        OriginType::BottomCentre
    } else if s == "BottomRight"@ {
        OriginType::BottomRight
    } else {
        OriginType::Custom
    }
}

/// A file-path field loses exactly one pair of surrounding double quotes,
/// where both are present.
pub open spec fn strip_quotes(s: Seq<char>) -> Seq<char> {
    if s.len() >= 2 && s[0] == '"' && s[s.len() - 1] == '"' {
        s.subrange(1, s.len() - 1)
    } else {
        s
    }
}

/// The empty placeholder event: unknown kind and layer, top-left origin,
/// an empty path, and zero in every numeric slot.
pub open spec fn empty_event() -> EventV {
    EventV {
        etype: EventType::Unknown,
        layer: LayerType::Unknown,
        file_path: Seq::<char>::empty(),
        pos: zero2(),
        origin: OriginType::TopLeft,
        commands: Seq::<CommandV>::empty(),
        frame_count: 0,
        frame_delay: zero_s(),
        loop_type: LoopType::LoopOnce,
        time: 0,
        volume: 0,
    }
}

/// What parsing one top-level line yields. The position fields must be
/// well-formed numbers and an animation's tail fields must parse, but an
/// unrecognized or unsupported kind (including samples) yields the empty
/// placeholder event instead of an error.
pub open spec fn spec_event(line: Seq<char>) -> Result<EventV, ErrorKindV> {
    let f = spec_split(line, ',');
    if f.len() < 6 {
        Err(ErrorKindV::MissingField)
    } else if !valid_float(f[4]) {
        Err(ErrorKindV::InvalidNumber { text: f[4] })
    } else if !valid_float(f[5]) {
        Err(ErrorKindV::InvalidNumber { text: f[5] })
    } else {
        let et = spec_etype(f[0]);
        if et == EventType::Sprite {
            Ok(EventV {
                etype: EventType::Sprite,
                layer: spec_layer(f[1]),
                file_path: strip_quotes(f[3]),
                pos: Vec2V { x: f[4], y: f[5] },
                origin: spec_origin(f[2]),
                commands: Seq::<CommandV>::empty(),
                frame_count: 0,
                frame_delay: zero_s(),
                loop_type: LoopType::LoopOnce,
                time: 0,
                volume: 0,
            })
        } else if et == EventType::Animation {
            if f.len() < 8 {
                Err(ErrorKindV::MissingField)
            } else if !valid_i32(f[6]) {
                Err(ErrorKindV::InvalidNumber { text: f[6] })
            } else if !valid_float(f[7]) {
                Err(ErrorKindV::InvalidNumber { text: f[7] })
            } else {
                Ok(EventV {
                    etype: EventType::Animation,
                    layer: spec_layer(f[1]),
                    file_path: strip_quotes(f[3]),
                    pos: Vec2V { x: f[4], y: f[5] },
                    origin: spec_origin(f[2]),
                    commands: Seq::<CommandV>::empty(),
                    frame_count: i32_of(f[6]),
                    frame_delay: f[7],
                    loop_type: if f.len() > 8 && f[8] == "LoopOnce"@ {
                        LoopType::LoopOnce
                    } else {
                        LoopType::LoopForever
                    },
                    time: 0,
                    volume: 0,
                })
            }
        } else {
            Ok(empty_event())
        }
    }
}

impl Event {
    /// The empty placeholder event.
    pub fn new() -> (r: Event)
        ensures
            r@ == empty_event(),
    {
        proof {
            reveal_strlit("0");
            assert("0"@ =~= zero_s());
        }
        let r = Event {
            etype: EventType::Unknown,
            layer: LayerType::Unknown,
            file_path: String::new(),
            pos: Vector2 { x: String::from_str("0"), y: String::from_str("0") },
            origin: OriginType::TopLeft,
            commands: Vec::<Command>::new(),
            frame_count: 0,
            frame_delay: String::from_str("0"),
            loop_type: LoopType::LoopOnce,
            time: 0,
            volume: 0,
        };
        proof {
            assert(seq_views(r.commands@) =~= Seq::<CommandV>::empty());
        }
        r
    }

    /// Parses one top-level line into an event.
    pub fn from_string(data: String) -> (r: Result<Event, ErrorKind>)
        ensures
            match r {
                Ok(ev) => spec_event(data@) == Ok::<EventV, ErrorKindV>(ev@),
                Err(e) => spec_event(data@) == Err::<EventV, ErrorKindV>(e@),
            },
    {
        let chars = to_chars(data.as_str());
        let f = split_on(&chars, ',');
        let ghost fv = spec_split(data@, ',');
        if f.len() < 6 {
            return Err(ErrorKind::MissingField);
        }
        proof {
            lemma_views_index(f@, 0);
            lemma_views_index(f@, 1);
            lemma_views_index(f@, 2);
            lemma_views_index(f@, 3);
            lemma_views_index(f@, 4);
            lemma_views_index(f@, 5);
            if f@.len() > 6 {
                lemma_views_index(f@, 6);
            }
            if f@.len() > 7 {
                lemma_views_index(f@, 7);
            }
            if f@.len() > 8 {
                lemma_views_index(f@, 8);
            }
        }
        if !check_float(&f[4]) {
            return Err(ErrorKind::InvalidNumber { text: from_chars(&f[4]) });
        }
        if !check_float(&f[5]) {
            return Err(ErrorKind::InvalidNumber { text: from_chars(&f[5]) });
        }
        let layer = if eq_str(&f[1], "Background") {
            LayerType::Background
        } else if eq_str(&f[1], "Fail") {
            LayerType::Fail
        } else if eq_str(&f[1], "Pass") {
            LayerType::Pass
        } else if eq_str(&f[1], "Foreground") {
            LayerType::Foreground
        } else if eq_str(&f[1], "Overlay") {
            LayerType::Overlay
        } else if eq_str(&f[1], "Samples") {
            LayerType::Samples
        } else {
            LayerType::Unknown
        };
        let origin = if eq_str(&f[2], "TopLeft") {
            OriginType::TopLeft
        } else if eq_str(&f[2], "TopCentre") {
            OriginType::TopCentre
        } else if eq_str(&f[2], "TopRight") {
            OriginType::TopRight
        } else if eq_str(&f[2], "CentreLeft") {
            OriginType::CentreLeft
        } else if eq_str(&f[2], "Centre") {
            OriginType::Centre
        } else if eq_str(&f[2], "CentreRight") {
            OriginType::CentreRight
        } else if eq_str(&f[2], "BottomLeft") {
            OriginType::BottomLeft
        } else if eq_str(&f[2], "BottomCentre") {
            OriginType::BottomCentre
        } else if eq_str(&f[2], "BottomRight") {
            OriginType::BottomRight
        } else {
            OriginType::Custom
        };
        let path = strip_quotes_exec(&f[3]);
        if eq_str(&f[0], "Sprite") {
            let r = Event {
                etype: EventType::Sprite,
                layer,
                file_path: path,
                pos: Vector2 { x: from_chars(&f[4]), y: from_chars(&f[5]) },
                origin,
                commands: Vec::<Command>::new(),
                frame_count: 0,
                frame_delay: zero_delay(),
                loop_type: LoopType::LoopOnce,
                time: 0,
                volume: 0,
            };
            proof {
                assert(seq_views(r.commands@) =~= Seq::<CommandV>::empty());
            }
            Ok(r)
        } else if eq_str(&f[0], "Animation") {
            if f.len() < 8 {
                return Err(ErrorKind::MissingField);
            }
            let fc: i32 = match parse_i32(&f[6]) {
                Some(v) => v,
                None => {
                    return Err(ErrorKind::InvalidNumber { text: from_chars(&f[6]) });
                },
            };
            if !check_float(&f[7]) {
                return Err(ErrorKind::InvalidNumber { text: from_chars(&f[7]) });
            }
            let lt = if f.len() > 8 && eq_str(&f[8], "LoopOnce") {
                LoopType::LoopOnce
            } else {
                LoopType::LoopForever
            };
            let r = Event {
                etype: EventType::Animation,
                layer,
                file_path: path,
                pos: Vector2 { x: from_chars(&f[4]), y: from_chars(&f[5]) },
                origin,
                commands: Vec::<Command>::new(),
                frame_count: fc,
                frame_delay: from_chars(&f[7]),
                loop_type: lt,
                time: 0,
                volume: 0,
            };
            proof {
                assert(seq_views(r.commands@) =~= Seq::<CommandV>::empty());
            }
            Ok(r)
        } else {
            Ok(Event::new())
        }
    }
}

/// The text of a zero frame delay.
fn zero_delay() -> (r: String)
    ensures
        r@ == zero_s(),
{
    proof {
        reveal_strlit("0");
        assert("0"@ =~= zero_s());
    }
    String::from_str("0")
}

/// Removes one pair of surrounding double quotes, where both are present.
fn strip_quotes_exec(v: &Vec<char>) -> (r: String)
    ensures
        r@ == strip_quotes(v@),
{
    if v.len() >= 2 && v[0] == '"' && v[v.len() - 1] == '"' {
        let inner = tail_from(v, 1);
        let mut inner2 = inner;
        let _last = inner2.pop();
        proof {
            assert(inner2@ =~= v@.subrange(1, v@.len() - 1));
        }
        from_chars(&inner2)
    } else {
        from_chars(v)
    }
}

} // verus!
