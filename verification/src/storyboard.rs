//! The document parser: one linear scan over the input lines, tracking the
//! event being built, the root command scope of that event, and the scope
//! that new commands append into. A line with no indentation opens a new
//! event and finalizes the previous one; an indented line is a command, or
//! opens a loop or trigger block that deeper lines then append into; a
//! depth-one line always appends straight under the event again.
use vstd::prelude::*;

use crate::command::{Command, CommandV, ErrorKind, ErrorKindV, LoopCommand, TriggerCommand};
use crate::command::{command_from_fields, spec_command};
use crate::command_group::CommandGroup;
use crate::event::{Event, EventType, EventV, spec_event};
use crate::numbers::valid_i32;
use crate::numbers::parse_i32;
use crate::text::{count_leading_spaces, eq_str, from_chars, leading_spaces, lemma_views_index,
    seq_views, spec_lines, spec_split, split_lines, split_on, starts_with_str, tail_from, to_chars};

verus! {

/// A fatal parse error, with the one-based number of the offending line.
#[derive(Debug, Clone, PartialEq)]
pub struct ParseError {
    pub line: usize,
    pub kind: ErrorKind,
}

pub ghost struct ParseErrorV {
    pub line: int,
    pub kind: ErrorKindV,
}

impl View for ParseError {
    type V = ParseErrorV;

    open spec fn view(&self) -> ParseErrorV {
        ParseErrorV { line: self.line as int, kind: self.kind@ }
    }
}

/// The parsed document: its timeline events, in input order.
#[derive(Debug, PartialEq)]
pub struct Storyboard {
    pub events: Vec<Event>,
}

impl View for Storyboard {
    type V = Seq<EventV>;

    open spec fn view(&self) -> Seq<EventV> {
        seq_views(self.events@)
    }
}

pub open spec fn is_comment(s: Seq<char>) -> bool {
    s.len() >= 2 && s.subrange(0, 2) == "//"@
}

pub open spec fn is_header(s: Seq<char>) -> bool {
    s.len() >= 8 && s.subrange(0, 8) == "[Events]"@
}

/// The Unicode whitespace characters: the white-space code points that a
/// whitespace trim removes.
pub open spec fn is_space_char(c: char) -> bool {
    c == ' ' || c == '\t' || c == '\n' || c == '\u{000B}' || c == '\u{000C}' || c == '\r' || c
        == '\u{0085}' || c == '\u{00A0}' || c == '\u{1680}' || ('\u{2000}' <= c && c
        <= '\u{200A}') || c == '\u{2028}' || c == '\u{2029}' || c == '\u{202F}' || c
        == '\u{205F}' || c == '\u{3000}'
}

/// A line of nothing but whitespace characters, the empty line included.
pub open spec fn is_blank(s: Seq<char>) -> bool {
    forall|i: int| 0 <= i < s.len() ==> is_space_char(#[trigger] s[i])
}

/// Comment lines, the section-header line and blank lines carry nothing.
pub open spec fn skippable(s: Seq<char>) -> bool {
    is_comment(s) || is_header(s) || is_blank(s)
}

/// The parser's state between lines: the finished events, the event still
/// being built, the direct commands gathered for it, and whether new
/// commands currently append to the event itself or into an open block.
pub ghost struct StV {
    pub done: Seq<EventV>,
    pub cur: Option<EventV>,
    pub root: Seq<CommandV>,
    pub at_root: bool,
}

pub open spec fn init_st() -> StV {
    StV { done: Seq::<EventV>::empty(), cur: Option::None, root: Seq::<CommandV>::empty(), at_root: true }
}

/// Closing the event under construction: it receives the direct commands
/// gathered at the root scope and joins the finished events.
pub open spec fn finalize_st(st: StV) -> Seq<EventV> {
    match st.cur {
        Option::Some(ev) => st.done.push(EventV { commands: st.root, ..ev }),
        Option::None => st.done,
    }
}

/// True where commands can attach: the last top-level event exists and was
/// recognized.
pub open spec fn cur_known(st: StV) -> bool {
    match st.cur {
        Option::Some(ev) => ev.etype != EventType::Unknown,
        Option::None => false,
    }
}

/// One step of the line machine. A skippable line changes nothing. While
/// no recognized event is open, every indented line is dropped, at any
/// depth, raising no error; a depth-one line still points the append
/// target back at the root scope. Under a recognized event, a depth-one
/// line first resets the append target to the event's root scope; a
/// trigger or loop opener redirects the target into its block; any other
/// indented line is a command, appended at the root scope or swallowed by
/// the open block. A top-level line finalizes the previous event and opens
/// a new one. Errors from the line's own parse pass through.
pub open spec fn step_line(st: StV, line: Seq<char>) -> Result<StV, ErrorKindV> {
    if skippable(line) {
        Ok(st)
    } else if line[0] == ' ' {
        let d = leading_spaces(line);
        let rest = line.subrange(d, line.len() as int);
        if !cur_known(st) {
            // no recognized event is open: the line is dropped at any
            // depth, though a depth-one line still resets the append target
            Ok(
                if d < 2 {
                    StV { at_root: true, ..st }
                } else {
                    st
                },
            )
        } else {
            let st1 = if d < 2 {
                StV { at_root: true, ..st }
            } else {
                st
            };
            let f = spec_split(rest, ',');
            if f[0] == "T"@ {
                if f.len() < 2 {
                    Err(ErrorKindV::MissingField)
                } else if f.len() > 2 && !valid_i32(f[2]) {
                    Err(ErrorKindV::InvalidNumber { text: f[2] })
                } else if f.len() > 3 && !valid_i32(f[3]) {
                    Err(ErrorKindV::InvalidNumber { text: f[3] })
                } else if f.len() > 4 && !valid_i32(f[4]) {
                    Err(ErrorKindV::InvalidNumber { text: f[4] })
                } else {
                    Ok(StV { at_root: false, ..st1 })
                }
            } else if f[0] == "L"@ {
                if f.len() < 3 {
                    Err(ErrorKindV::MissingField)
                } else if !valid_i32(f[1]) {
                    Err(ErrorKindV::InvalidNumber { text: f[1] })
                } else if !valid_i32(f[2]) {
                    Err(ErrorKindV::InvalidNumber { text: f[2] })
                } else {
                    Ok(StV { at_root: false, ..st1 })
                }
            } else {
                match spec_command(rest) {
                    Ok(c) => Ok(
                        if st1.at_root {
                            StV { root: st1.root.push(c), ..st1 }
                        } else {
                            st1
                        },
                    ),
                    Err(e) => Err(e),
                }
            }
        }
    } else {
        match spec_event(line) {
            Ok(ev) => Ok(
                StV {
                    done: finalize_st(st),
                    cur: Option::Some(ev),
                    root: Seq::<CommandV>::empty(),
                    at_root: true,
                },
            ),
            Err(e) => Err(e),
        }
    }
}

/// Running the line machine over the remaining lines, numbering them from
/// `lineno`.
pub open spec fn run_lines(st: StV, lines: Seq<Seq<char>>, lineno: int) -> Result<StV, ParseErrorV>
    decreases lines.len(),
{
    if lines.len() == 0 {
        Ok(st)
    } else {
        match step_line(st, lines[0]) {
            Ok(st2) => run_lines(st2, lines.subrange(1, lines.len() as int), lineno + 1),
            Err(k) => Err(ParseErrorV { line: lineno, kind: k }),
        }
    }
}

/// What parsing a whole document yields: the line machine runs over the
/// lines of the input, and the last in-progress event is finalized at the
/// end of input.
pub open spec fn spec_storyboard(data: Seq<char>) -> Result<Seq<EventV>, ParseErrorV> {
    match run_lines(init_st(), spec_lines(data), 1) {
        Ok(st) => Ok(finalize_st(st)),
        Err(e) => Err(e),
    }
}

/// A loop or trigger block that is still open to deeper lines; the blocks
/// open at any moment form a chain, each next one nested in the previous.
enum OpenBlock {
    Loop(LoopCommand),
    Trigger(TriggerCommand),
}

/// Folds the chain of open blocks back into the root scope, innermost
/// first; the root scope's direct commands are untouched.
#[verifier::loop_isolation(false)]
fn collapse(root: &mut CommandGroup, open: &mut Vec<OpenBlock>)
    ensures
        final(root).commands@ == old(root).commands@,
        final(open)@.len() == 0,
{
    while open.len() > 1
        invariant
            root.commands@ == old(root).commands@,
        decreases open@.len(),
    {
        if let Option::Some(inner) = open.pop() {
            if let Option::Some(outer) = open.pop() {
                let mut outer2 = outer;
                match &mut outer2 {
                    OpenBlock::Loop(lc) => match inner {
                        OpenBlock::Loop(ilc) => lc.commands.add_loop(ilc),
                        OpenBlock::Trigger(itc) => lc.commands.add_trigger(itc),
                    },
                    OpenBlock::Trigger(tc) => match inner {
                        OpenBlock::Loop(ilc) => tc.commands.add_loop(ilc),
                        OpenBlock::Trigger(itc) => tc.commands.add_trigger(itc),
                    },
                }
                open.push(outer2);
            } else {
                proof {
                    assert(false);
                }
            }
        } else {
            proof {
                assert(false);
            }
        }
    }
    if let Option::Some(last) = open.pop() {
        match last {
            OpenBlock::Loop(lc) => root.add_loop(lc),
            OpenBlock::Trigger(tc) => root.add_trigger(tc),
        }
    }
}

fn is_blank_line(v: &Vec<char>) -> (r: bool)
    ensures
        r == is_blank(v@),
{
    let mut i: usize = 0;
    while i < v.len()
        invariant
            i <= v@.len(),
            forall|j: int| 0 <= j < i ==> is_space_char(#[trigger] v@[j]),
        decreases v@.len() - i,
    {
        let c = v[i];
        let space = c == ' ' || c == '\t' || c == '\n' || c == '\u{000B}' || c == '\u{000C}' || c
            == '\r' || c == '\u{0085}' || c == '\u{00A0}' || c == '\u{1680}' || (c >= '\u{2000}'
            && c <= '\u{200A}') || c == '\u{2028}' || c == '\u{2029}' || c == '\u{202F}' || c
            == '\u{205F}' || c == '\u{3000}';
        if !space {
            return false;
        }
        i = i + 1;
    }
    true
}

impl Storyboard {
    /// The empty document.
    pub fn new() -> (r: Storyboard)
        ensures
            r@ == Seq::<EventV>::empty(),
    {
        let r = Storyboard { events: Vec::<Event>::new() };
        proof {
            assert(seq_views(r.events@) =~= Seq::<EventV>::empty());
        }
        r
    }

    /// Parses a whole document.
    pub fn from_string(data: String) -> (r: Result<Storyboard, ParseError>)
        ensures
            match r {
                Ok(sb) => spec_storyboard(data@) == Ok::<Seq<EventV>, ParseErrorV>(sb@),
                Err(e) => spec_storyboard(data@) == Err::<Seq<EventV>, ParseErrorV>(e@),
            },
    {
        let chars = to_chars(data.as_str());
        let lines = split_lines(&chars);
        let ghost linesv = spec_lines(data@);
        let mut events: Vec<Event> = Vec::new();
        let mut cur: Option<Event> = Option::None;
        let mut root_group = CommandGroup::new();
        let mut open_blocks: Vec<OpenBlock> = Vec::new();
        let ghost mut st = init_st();
        let mut i: usize = 0;
        proof {
            assert(seq_views(events@) =~= st.done);
            assert(seq_views(root_group.commands@) =~= st.root);
            assert(linesv.subrange(0, linesv.len() as int) =~= linesv);
        }
        while i < lines.len()
            invariant
                seq_views(lines@) == linesv,
                linesv == spec_lines(data@),
                i <= lines@.len(),
                lines@.len() == linesv.len(),
                run_lines(init_st(), linesv, 1) == run_lines(
                    st,
                    linesv.subrange(i as int, linesv.len() as int),
                    i as int + 1,
                ),
                seq_views(events@) == st.done,
                cur is Some <==> st.cur is Some,
                cur is Some ==> cur->0@ == st.cur->0,
                seq_views(root_group.commands@) == st.root,
                (open_blocks@.len() == 0) == st.at_root,
            decreases lines@.len() - i,
        {
            let ghost linev = linesv[i as int];
            proof {
                lemma_views_index(lines@, i as int);
                assert(linesv.subrange(i as int, linesv.len() as int)[0] == linev);
                assert(linesv.subrange(i as int, linesv.len() as int).subrange(
                    1,
                    linesv.len() - i as int,
                ) =~= linesv.subrange(i as int + 1, linesv.len() as int));
            }
            let line = &lines[i];
            let skip = starts_with_str(line, "//") || starts_with_str(line, "[Events]")
                || is_blank_line(line);
            proof {
                reveal_strlit("//");
                reveal_strlit("[Events]");
                assert(skip == skippable(linev));
            }
            if skip {
                i = i + 1;
                continue;
            }
            proof {
                assert(linev.len() > 0);
            }
            if line[0] == ' ' {
                // an indented line: a command, or a block opener
                let d = count_leading_spaces(line);
                let rest = tail_from(line, d);
                let ghost restv = linev.subrange(d as int, linev.len() as int);
                let known = match &cur {
                    Option::Some(e) => match e.etype {
                        EventType::Unknown => false,
                        _ => true,
                    },
                    Option::None => false,
                };
                proof {
                    assert(known == cur_known(st));
                }
                if !known {
                    // the line is dropped whatever its depth; a depth-one
                    // line still resets the append target
                    let ghost st_pre = st;
                    if d < 2 {
                        collapse(&mut root_group, &mut open_blocks);
                        proof {
                            st = StV { at_root: true, ..st_pre };
                        }
                    }
                    proof {
                        assert(step_line(st_pre, linev) == Ok::<StV, ErrorKindV>(st));
                    }
                    i = i + 1;
                    continue;
                }
                if d < 2 {
                    collapse(&mut root_group, &mut open_blocks);
                    proof {
                        st = StV { at_root: true, ..st };
                    }
                }
                let fields = split_on(&rest, ',');
                proof {
                    lemma_views_index(fields@, 0);
                    if fields@.len() > 1 {
                        lemma_views_index(fields@, 1);
                    }
                    if fields@.len() > 2 {
                        lemma_views_index(fields@, 2);
                    }
                    if fields@.len() > 3 {
                        lemma_views_index(fields@, 3);
                    }
                    if fields@.len() > 4 {
                        lemma_views_index(fields@, 4);
                    }
                }
                if eq_str(&fields[0], "T") {
                    if fields.len() < 2 {
                        return Err(ParseError { line: i + 1, kind: ErrorKind::MissingField });
                    }
                    let mut t_start: i32 = 0;
                    let mut t_end: i32 = 0;
                    let mut t_group: i32 = 0;
                    if fields.len() > 2 {
                        t_start = match parse_i32(&fields[2]) {
                            Option::Some(v) => v,
                            Option::None => {
                                return Err(
                                    ParseError {
                                        line: i + 1,
                                        kind: ErrorKind::InvalidNumber {
                                            text: from_chars(&fields[2]),
                                        },
                                    },
                                );
                            },
                        };
                    }
                    if fields.len() > 3 {
                        t_end = match parse_i32(&fields[3]) {
                            Option::Some(v) => v,
                            Option::None => {
                                return Err(
                                    ParseError {
                                        line: i + 1,
                                        kind: ErrorKind::InvalidNumber {
                                            text: from_chars(&fields[3]),
                                        },
                                    },
                                );
                            },
                        };
                    }
                    if fields.len() > 4 {
                        t_group = match parse_i32(&fields[4]) {
                            Option::Some(v) => v,
                            Option::None => {
                                return Err(
                                    ParseError {
                                        line: i + 1,
                                        kind: ErrorKind::InvalidNumber {
                                            text: from_chars(&fields[4]),
                                        },
                                    },
                                );
                            },
                        };
                    }
                    let tc = TriggerCommand::new(from_chars(&fields[1]), t_start, t_end, t_group);
                    open_blocks.push(OpenBlock::Trigger(tc));
                    proof {
                        st = StV { at_root: false, ..st };
                    }
                } else if eq_str(&fields[0], "L") {
                    if fields.len() < 3 {
                        return Err(ParseError { line: i + 1, kind: ErrorKind::MissingField });
                    }
                    let l_start: i32 = match parse_i32(&fields[1]) {
                        Option::Some(v) => v,
                        Option::None => {
                            return Err(
                                ParseError {
                                    line: i + 1,
                                    kind: ErrorKind::InvalidNumber { text: from_chars(&fields[1]) },
                                },
                            );
                        },
                    };
                    let l_count: i32 = match parse_i32(&fields[2]) {
                        Option::Some(v) => v,
                        Option::None => {
                            return Err(
                                ParseError {
                                    line: i + 1,
                                    kind: ErrorKind::InvalidNumber { text: from_chars(&fields[2]) },
                                },
                            );
                        },
                    };
                    let lc = LoopCommand::new(l_start, l_count);
                    open_blocks.push(OpenBlock::Loop(lc));
                    proof {
                        st = StV { at_root: false, ..st };
                    }
                } else {
                    match command_from_fields(fields, Ghost(restv)) {
                        Ok(cmd) => {
                            if open_blocks.len() == 0 {
                                let ghost old_cmds = root_group.commands@;
                                root_group.commands.push(cmd);
                                proof {
                                    assert(seq_views(root_group.commands@) =~= seq_views(
                                        old_cmds,
                                    ).push(cmd@));
                                    st = StV { root: st.root.push(cmd@), ..st };
                                }
                            } else {
                                if let Option::Some(b) = open_blocks.pop() {
                                    let mut b2 = b;
                                    match &mut b2 {
                                        OpenBlock::Loop(lc) => lc.commands.commands.push(cmd),
                                        OpenBlock::Trigger(tc) => tc.commands.commands.push(cmd),
                                    }
                                    open_blocks.push(b2);
                                } else {
                                    proof {
                                        assert(false);
                                    }
                                }
                            }
                        },
                        Err(e) => {
                            return Err(ParseError { line: i + 1, kind: e });
                        },
                    }
                }
            } else {
                // a top-level line: finalize the previous event, open a new one
                let s = from_chars(line);
                let ev_new = match Event::from_string(s) {
                    Ok(ev) => ev,
                    Err(e) => {
                        return Err(ParseError { line: i + 1, kind: e });
                    },
                };
                collapse(&mut root_group, &mut open_blocks);
                let prev = cur;
                match prev {
                    Option::Some(pv) => {
                        let mut pv2 = pv;
                        let g = root_group;
                        root_group = CommandGroup::new();
                        pv2.commands = g.commands;
                        let ghost old_events = events@;
                        events.push(pv2);
                        proof {
                            assert(pv2@ == EventV { commands: st.root, ..st.cur->0 });
                            assert(seq_views(events@) =~= seq_views(old_events).push(pv2@));
                        }
                    },
                    Option::None => {
                        root_group = CommandGroup::new();
                    },
                }
                cur = Option::Some(ev_new);
                proof {
                    assert(seq_views(root_group.commands@) =~= Seq::<CommandV>::empty());
                    st = StV {
                        done: finalize_st(st),
                        cur: Option::Some(ev_new@),
                        root: Seq::<CommandV>::empty(),
                        at_root: true,
                    };
                }
            }
            i = i + 1;
        }
        proof {
            assert(linesv.subrange(i as int, linesv.len() as int) =~= Seq::<Seq<char>>::empty());
        }
        collapse(&mut root_group, &mut open_blocks);
        match cur {
            Option::Some(pv) => {
                let mut pv2 = pv;
                let g = root_group;
                pv2.commands = g.commands;
                let ghost old_events = events@;
                events.push(pv2);
                proof {
                    assert(pv2@ == EventV { commands: st.root, ..st.cur->0 });
                    assert(seq_views(events@) =~= seq_views(old_events).push(pv2@));
                }
            },
            Option::None => {},
        }
        let sb = Storyboard { events };
        proof {
            assert(sb@ == finalize_st(st));
        }
        Ok(sb)
    }
}

} // verus!
