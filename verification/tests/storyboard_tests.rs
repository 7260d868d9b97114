use storyboard::{CommandGroup, CommandType, ErrorKind, EventType, LoopCommand, ParseError,
    Storyboard, TriggerCommand};

fn parse_ok(text: &str) -> Storyboard {
    Storyboard::from_string(String::from(text)).expect("document should parse")
}

#[test]
fn empty_input_gives_no_events() {
    let sb = parse_ok("");
    assert!(sb.events.is_empty());
}

#[test]
fn comments_and_blanks_give_no_events() {
    let sb = parse_ok("// a comment\r\n\r\n[Events]\r\n  \t\r\n// another");
    assert!(sb.events.is_empty());
}

#[test]
fn one_sprite_with_commands() {
    let sb = parse_ok("Sprite,Background,Centre,\"a.png\",320,240\r\n F,0,0,500,1\r\n M,0,0,500,1,2");
    assert_eq!(sb.events.len(), 1);
    let ev = &sb.events[0];
    assert_eq!(ev.etype, EventType::Sprite);
    assert_eq!(ev.commands.len(), 2);
    assert_eq!(ev.commands[0].ctype, CommandType::Fade);
    assert_eq!(ev.commands[1].ctype, CommandType::Movement);
}

#[test]
fn depth_one_resets_append_target() {
    let text = "Sprite,Background,Centre,\"a.png\",0,0\r\n L,0,2\r\n  F,0,0,500,1\r\n F,0,600,700,1";
    let sb = parse_ok(text);
    assert_eq!(sb.events.len(), 1);
    let ev = &sb.events[0];
    // the loop swallowed the depth-two fade; only the depth-one fade is a
    // direct command of the event
    assert_eq!(ev.commands.len(), 1);
    assert_eq!(ev.commands[0].start_time, 600);
    assert_eq!(ev.commands[0].end_time, 700);
}

#[test]
fn trigger_block_swallows_nested_commands() {
    let text = "Sprite,Background,Centre,\"a.png\",0,0\r\n T,HitSound,100,200,3\r\n  F,0,0,100,1";
    let sb = parse_ok(text);
    assert_eq!(sb.events.len(), 1);
    assert!(sb.events[0].commands.is_empty());
}

#[test]
fn commands_under_unknown_event_are_dropped() {
    let text = "Video,Background,Centre,\"a.avi\",0,0\r\n F,0,0,500,1\r\n F,0,1,2,1";
    let sb = parse_ok(text);
    assert_eq!(sb.events.len(), 1);
    assert_eq!(sb.events[0].etype, EventType::Unknown);
    assert!(sb.events[0].commands.is_empty());
}

#[test]
fn nested_commands_under_unknown_event_are_dropped() {
    let text = "X,0,0,p,0,0\r\n  F,0,0,1,1";
    let sb = parse_ok(text);
    assert_eq!(sb.events.len(), 1);
    assert_eq!(sb.events[0].etype, EventType::Unknown);
    assert!(sb.events[0].commands.is_empty());
}

#[test]
fn malformed_lines_under_unknown_event_raise_no_error() {
    // even a malformed command or opener at any depth is dropped while no
    // recognized event is open, and the parse carries on
    let text = "Video,Background,Centre,\"a.avi\",0,0\r\n  F,0,zz,1,1\r\n   L,0,xx\r\nSprite,Background,Centre,\"b.png\",0,0\r\n F,0,0,1,1";
    let sb = parse_ok(text);
    assert_eq!(sb.events.len(), 2);
    assert_eq!(sb.events[0].etype, EventType::Unknown);
    assert!(sb.events[0].commands.is_empty());
    assert_eq!(sb.events[1].etype, EventType::Sprite);
    assert_eq!(sb.events[1].commands.len(), 1);
}

#[test]
fn two_events_split_their_commands() {
    let text = "Sprite,Background,Centre,\"a.png\",0,0\r\n F,0,0,1,1\r\nSprite,Foreground,Centre,\"b.png\",0,0\r\n S,0,0,1,2";
    let sb = parse_ok(text);
    assert_eq!(sb.events.len(), 2);
    assert_eq!(sb.events[0].commands.len(), 1);
    assert_eq!(sb.events[0].commands[0].ctype, CommandType::Fade);
    assert_eq!(sb.events[1].commands.len(), 1);
    assert_eq!(sb.events[1].commands[0].ctype, CommandType::Scale);
}

#[test]
fn trailing_line_terminator_is_harmless() {
    let sb = parse_ok("Sprite,Background,Centre,\"a.png\",0,0\r\n F,0,0,1,1\r\n");
    assert_eq!(sb.events.len(), 1);
    assert_eq!(sb.events[0].commands.len(), 1);
}

#[test]
fn parse_is_deterministic() {
    let text = "Sprite,Background,Centre,\"a.png\",0,0\r\n L,0,2\r\n  F,0,0,500,1\r\n F,0,600,700,1";
    let a = Storyboard::from_string(String::from(text));
    let b = Storyboard::from_string(String::from(text));
    assert_eq!(a, b);
}

#[test]
fn error_carries_the_line_number() {
    let text = "Sprite,Background,Centre,\"a.png\",0,0\r\n F,0,zz,300,1";
    let e = Storyboard::from_string(String::from(text)).expect_err("should fail");
    assert_eq!(
        e,
        ParseError { line: 2, kind: ErrorKind::InvalidNumber { text: String::from("zz") } }
    );
}

#[test]
fn unknown_opcode_aborts_with_its_line() {
    let text = "// top\r\nSprite,Background,Centre,\"a.png\",0,0\r\n ZZ,0,0,0";
    let e = Storyboard::from_string(String::from(text)).expect_err("should fail");
    assert_eq!(e.line, 3);
    assert_eq!(e.kind, ErrorKind::UnknownOpcode { opcode: String::from("ZZ") });
}

#[test]
fn loop_opener_with_bad_count_aborts() {
    let text = "Sprite,Background,Centre,\"a.png\",0,0\r\n L,0,xx";
    let e = Storyboard::from_string(String::from(text)).expect_err("should fail");
    assert_eq!(e.line, 2);
    assert_eq!(e.kind, ErrorKind::InvalidNumber { text: String::from("xx") });
}

#[test]
fn trigger_opener_defaults_missing_times() {
    // only the name: times and group number default, nothing fails
    let text = "Sprite,Background,Centre,\"a.png\",0,0\r\n T,HitSound\r\n  F,0,0,1,1";
    let sb = parse_ok(text);
    assert_eq!(sb.events.len(), 1);
    assert!(sb.events[0].commands.is_empty());
}

#[test]
fn trigger_opener_without_name_aborts() {
    let text = "Sprite,Background,Centre,\"a.png\",0,0\r\n T";
    let e = Storyboard::from_string(String::from(text)).expect_err("should fail");
    assert_eq!(e.kind, ErrorKind::MissingField);
}

#[test]
fn unicode_whitespace_lines_are_blank() {
    let sb = parse_ok("\u{00A0}\u{2003}\r\n\u{3000}\r\nSprite,Background,Centre,\"a.png\",0,0");
    assert_eq!(sb.events.len(), 1);
    assert_eq!(sb.events[0].etype, EventType::Sprite);
}

#[test]
fn new_storyboard_is_empty() {
    let sb = Storyboard::new();
    assert!(sb.events.is_empty());
}

#[test]
fn group_types_compose() {
    let mut g = CommandGroup::new();
    assert!(g.commands.is_empty());
    let lc = LoopCommand::new(100, 4);
    assert_eq!(lc.start_time, 100);
    assert_eq!(lc.count, 4);
    assert!(lc.commands.commands.is_empty());
    g.add_loop(lc);
    assert_eq!(g.loop_commands.len(), 1);
    let tc = TriggerCommand::new(String::from("HitSound"), 1, 2, 3);
    assert_eq!(tc.name, "HitSound");
    assert_eq!(tc.start_time, 1);
    assert_eq!(tc.end_time, 2);
    assert_eq!(tc.group_number, 3);
    g.add_trigger(tc);
    assert_eq!(g.trigger_commands.len(), 1);
    assert!(g.commands.is_empty());
}

#[test]
fn deep_nesting_still_resets_at_depth_one() {
    let text = "Sprite,Background,Centre,\"a.png\",0,0\r\n L,0,2\r\n  T,Go,0,1,0\r\n   F,0,0,1,1\r\n F,0,5,6,1";
    let sb = parse_ok(text);
    assert_eq!(sb.events.len(), 1);
    assert_eq!(sb.events[0].commands.len(), 1);
    assert_eq!(sb.events[0].commands[0].start_time, 5);
}

#[test]
fn depth_one_command_before_any_event_is_dropped() {
    let sb = parse_ok(" F,0,0,1,1\r\nSprite,Background,Centre,\"a.png\",0,0");
    assert_eq!(sb.events.len(), 1);
    assert!(sb.events[0].commands.is_empty());
}
