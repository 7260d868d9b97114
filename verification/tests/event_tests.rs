use storyboard::{ErrorKind, Event, EventType, LayerType, LoopType, OriginType};

fn parse_ok(line: &str) -> Event {
    Event::from_string(String::from(line)).expect("line should parse")
}

#[test]
fn sprite_line_parses() {
    let e = parse_ok("Sprite,Background,Centre,\"a.png\",320,240");
    assert_eq!(e.etype, EventType::Sprite);
    assert_eq!(e.layer, LayerType::Background);
    assert_eq!(e.origin, OriginType::Centre);
    assert_eq!(e.file_path, "a.png");
    assert_eq!(e.pos.x, "320");
    assert_eq!(e.pos.y, "240");
    assert!(e.commands.is_empty());
}

#[test]
fn unquoted_path_kept_as_is() {
    let e = parse_ok("Sprite,Foreground,TopLeft,b.png,0,0");
    assert_eq!(e.file_path, "b.png");
}

#[test]
fn exactly_one_quote_pair_is_stripped() {
    let e = parse_ok("Sprite,Foreground,TopLeft,\"\"c.png\"\",0,0");
    assert_eq!(e.file_path, "\"c.png\"");
}

#[test]
fn animation_line_parses() {
    let e = parse_ok("Animation,Foreground,TopLeft,\"b.png\",1,2,10,0.5,LoopOnce");
    assert_eq!(e.etype, EventType::Animation);
    assert_eq!(e.frame_count, 10);
    assert_eq!(e.frame_delay, "0.5");
    assert_eq!(e.loop_type, LoopType::LoopOnce);
}

#[test]
fn animation_loop_type_defaults_to_forever() {
    let e = parse_ok("Animation,Fail,TopRight,\"b.png\",1,2,4,16.6");
    assert_eq!(e.loop_type, LoopType::LoopForever);
    let e2 = parse_ok("Animation,Pass,BottomLeft,\"b.png\",1,2,4,16.6,Whatever");
    assert_eq!(e2.loop_type, LoopType::LoopForever);
}

#[test]
fn animation_missing_tail_fields_fail() {
    assert_eq!(
        Event::from_string(String::from("Animation,Fail,TopRight,\"b.png\",1,2")),
        Err(ErrorKind::MissingField)
    );
    assert_eq!(
        Event::from_string(String::from("Animation,Fail,TopRight,\"b.png\",1,2,x,1")),
        Err(ErrorKind::InvalidNumber { text: String::from("x") })
    );
}

#[test]
fn unknown_event_kind_gives_placeholder() {
    let e = parse_ok("Video,Background,Centre,\"a.avi\",0,0");
    assert_eq!(e.etype, EventType::Unknown);
    assert_eq!(e.layer, LayerType::Unknown);
    assert_eq!(e.file_path, "");
    assert_eq!(e.pos.x, "0");
}

#[test]
fn sample_event_gives_placeholder() {
    let e = parse_ok("Sample,Samples,Centre,\"clap.wav\",0,0");
    assert_eq!(e.etype, EventType::Unknown);
    assert_eq!(e.time, 0);
    assert_eq!(e.volume, 0);
}

#[test]
fn malformed_position_fails_even_for_unknown_kind() {
    assert_eq!(
        Event::from_string(String::from("Video,Background,Centre,\"a.avi\",x,0")),
        Err(ErrorKind::InvalidNumber { text: String::from("x") })
    );
}

#[test]
fn too_few_event_fields_fail() {
    assert_eq!(
        Event::from_string(String::from("Sprite,Background")),
        Err(ErrorKind::MissingField)
    );
}

#[test]
fn unknown_layer_and_custom_origin() {
    let e = parse_ok("Sprite,Nowhere,Elsewhere,\"a.png\",1,2");
    assert_eq!(e.layer, LayerType::Unknown);
    assert_eq!(e.origin, OriginType::Custom);
}

#[test]
fn new_event_is_the_placeholder() {
    let e = Event::new();
    assert_eq!(e.etype, EventType::Unknown);
    assert_eq!(e.layer, LayerType::Unknown);
    assert_eq!(e.file_path, "");
    assert_eq!(e.pos.x, "0");
    assert_eq!(e.pos.y, "0");
    assert_eq!(e.origin, OriginType::TopLeft);
    assert_eq!(e.frame_count, 0);
    assert_eq!(e.frame_delay, "0");
    assert_eq!(e.loop_type, LoopType::LoopOnce);
    assert!(e.commands.is_empty());
}
