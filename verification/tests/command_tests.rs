use storyboard::{Command, CommandType, Easing, ErrorKind};

fn parse_ok(line: &str) -> Command {
    Command::from_string(String::from(line)).expect("line should parse")
}

fn parse_err(line: &str) -> ErrorKind {
    Command::from_string(String::from(line)).expect_err("line should be rejected")
}

#[test]
fn end_time_defaults_to_start_time_when_empty() {
    let c = parse_ok("F,0,100,,0.5");
    assert_eq!(c.start_time, 100);
    assert_eq!(c.end_time, 100);
    assert_eq!(c.start_value, "0.5");
    assert_eq!(c.end_value, "0.5");
}

#[test]
fn end_time_defaults_to_start_time_when_absent() {
    // a three-field line falls back to the start time before the payload
    // check rejects it; a complete line shows the fallback directly
    assert!(matches!(
        Command::from_string(String::from("F,0,100")),
        Err(ErrorKind::MissingField)
    ));
    let c = parse_ok("F,0,250,,1");
    assert_eq!(c.end_time, 250);
}

#[test]
fn end_time_parsed_when_present() {
    let c = parse_ok("F,0,100,300,0.5");
    assert_eq!(c.start_time, 100);
    assert_eq!(c.end_time, 300);
}

#[test]
fn movement_end_defaults_to_start() {
    let c = parse_ok("M,0,500,600,10,20");
    assert_eq!(c.ctype, CommandType::Movement);
    assert_eq!(c.start_time, 500);
    assert_eq!(c.end_time, 600);
    assert_eq!(c.start_vector.x, "10");
    assert_eq!(c.start_vector.y, "20");
    assert_eq!(c.end_vector.x, "10");
    assert_eq!(c.end_vector.y, "20");
}

#[test]
fn movement_end_coordinates_independent() {
    let c = parse_ok("M,0,0,0,1,2,3");
    assert_eq!(c.end_vector.x, "3");
    assert_eq!(c.end_vector.y, "2");
    let c2 = parse_ok("M,0,0,0,1,2,3,4");
    assert_eq!(c2.end_vector.x, "3");
    assert_eq!(c2.end_vector.y, "4");
}

#[test]
fn vector_scale_parses_like_movement() {
    let c = parse_ok("V,0,0,0,1.5,2.5");
    assert_eq!(c.ctype, CommandType::VectorScale);
    assert_eq!(c.start_vector.x, "1.5");
    assert_eq!(c.end_vector.y, "2.5");
}

#[test]
fn movement_x_defaults() {
    let c = parse_ok("MX,0,0,0,7");
    assert_eq!(c.ctype, CommandType::MovementX);
    assert_eq!(c.start_vector.x, "7");
    assert_eq!(c.start_vector.y, "0");
    assert_eq!(c.end_vector.x, "7");
    let c2 = parse_ok("MX,0,0,0,7,9");
    assert_eq!(c2.end_vector.x, "9");
}

#[test]
fn movement_y_defaults() {
    let c = parse_ok("MY,0,0,0,7");
    assert_eq!(c.ctype, CommandType::MovementY);
    assert_eq!(c.start_vector.x, "0");
    assert_eq!(c.start_vector.y, "7");
    assert_eq!(c.end_vector.y, "7");
}

#[test]
fn easing_code_five_is_in_out_quad() {
    let c = parse_ok("F,5,0,0,1");
    assert_eq!(c.easing, Easing::InOutQuad);
}

#[test]
fn easing_code_out_of_range_is_linear() {
    let c = parse_ok("F,999,0,0,1");
    assert_eq!(c.easing, Easing::Linear);
}

#[test]
fn easing_code_non_numeric_is_linear() {
    let c = parse_ok("F,x,0,0,1");
    assert_eq!(c.easing, Easing::Linear);
    let c2 = parse_ok("F,05,0,0,1");
    assert_eq!(c2.easing, Easing::Linear);
}

#[test]
fn easing_table_ends() {
    assert_eq!(parse_ok("F,1,0,0,1").easing, Easing::Out);
    assert_eq!(parse_ok("F,34,0,0,1").easing, Easing::InOutBounce);
    assert_eq!(parse_ok("F,17,0,0,1").easing, Easing::InOutSine);
}

#[test]
fn parameter_h_is_flip_horizontal_with_zero_payload() {
    let c = parse_ok("P,0,0,,H");
    assert_eq!(c.ctype, CommandType::FlipHorizontal);
    assert_eq!(c.start_value, "0");
    assert_eq!(c.end_value, "0");
    assert_eq!(c.start_vector.x, "0");
    assert_eq!(c.start_vector.y, "0");
    assert_eq!(c.end_vector.x, "0");
    assert_eq!(c.end_vector.y, "0");
    assert_eq!(c.start_colour.x, "0");
    assert_eq!(c.start_colour.w, "1");
    assert_eq!(c.end_colour.w, "1");
}

#[test]
fn parameter_v_and_a() {
    assert_eq!(parse_ok("P,0,0,,V").ctype, CommandType::FlipVertical);
    assert_eq!(parse_ok("P,0,0,,A").ctype, CommandType::BlendingMode);
}

#[test]
fn parameter_unknown_subtype_fails() {
    let e = parse_err("P,0,0,,Q");
    assert_eq!(e, ErrorKind::UnknownOpcode { opcode: String::from("Q") });
}

#[test]
fn unknown_opcode_fails() {
    let e = parse_err("Q,0,100,200");
    assert_eq!(e, ErrorKind::UnknownOpcode { opcode: String::from("Q") });
}

#[test]
fn malformed_start_time_fails() {
    let e = parse_err("F,0,abc,,1");
    assert_eq!(e, ErrorKind::InvalidNumber { text: String::from("abc") });
}

#[test]
fn malformed_payload_fails() {
    let e = parse_err("F,0,0,0,1..2");
    assert_eq!(e, ErrorKind::InvalidNumber { text: String::from("1..2") });
}

#[test]
fn empty_payload_field_fails() {
    let e = parse_err("F,0,0,0,");
    assert_eq!(e, ErrorKind::InvalidNumber { text: String::new() });
}

#[test]
fn missing_mandatory_fields_fail() {
    assert_eq!(parse_err("F,0"), ErrorKind::MissingField);
    assert_eq!(parse_err("F,0,100,200"), ErrorKind::MissingField);
    assert_eq!(parse_err("M,0,0,0,1"), ErrorKind::MissingField);
    assert_eq!(parse_err("C,0,0,0,1,1"), ErrorKind::MissingField);
    assert_eq!(parse_err("P,0,0,0"), ErrorKind::MissingField);
}

#[test]
fn times_parse_at_the_32_bit_bounds() {
    let c = parse_ok("F,0,-2147483648,2147483647,1");
    assert_eq!(c.start_time, i32::MIN);
    assert_eq!(c.end_time, i32::MAX);
}

#[test]
fn time_overflow_fails() {
    let e = parse_err("F,0,2147483648,,1");
    assert_eq!(
        e,
        ErrorKind::InvalidNumber { text: String::from("2147483648") }
    );
}

#[test]
fn scalar_end_value_defaults_to_start_value() {
    let c = parse_ok("S,0,0,0,2.5");
    assert_eq!(c.ctype, CommandType::Scale);
    assert_eq!(c.start_value, "2.5");
    assert_eq!(c.end_value, "2.5");
    let c2 = parse_ok("R,0,0,0,0.5,1.5");
    assert_eq!(c2.ctype, CommandType::Rotation);
    assert_eq!(c2.start_value, "0.5");
    assert_eq!(c2.end_value, "1.5");
}

#[test]
fn colour_channels_default_to_zero() {
    let c = parse_ok("C,0,0,,1,0.5,0.25");
    assert_eq!(c.ctype, CommandType::Colour);
    assert_eq!(c.start_colour.x, "1");
    assert_eq!(c.start_colour.y, "0.5");
    assert_eq!(c.start_colour.z, "0.25");
    assert_eq!(c.start_colour.w, "1");
    assert_eq!(c.end_colour.x, "0");
    assert_eq!(c.end_colour.y, "0");
    assert_eq!(c.end_colour.z, "0");
    assert_eq!(c.end_colour.w, "1");
}

#[test]
fn colour_end_channels_independent() {
    let c = parse_ok("C,0,0,,1,1,1,0.1,0.2");
    assert_eq!(c.end_colour.x, "0.1");
    assert_eq!(c.end_colour.y, "0.2");
    assert_eq!(c.end_colour.z, "0");
}

#[test]
fn float_literal_shapes_accepted() {
    assert_eq!(parse_ok("F,0,0,0,+1.5e-3").start_value, "+1.5e-3");
    assert_eq!(parse_ok("F,0,0,0,1.").start_value, "1.");
    assert_eq!(parse_ok("F,0,0,0,.5").start_value, ".5");
    assert_eq!(parse_ok("F,0,0,0,inf").start_value, "inf");
    assert_eq!(parse_ok("F,0,0,0,NaN").start_value, "NaN");
    assert_eq!(parse_ok("F,0,0,0,-Infinity").start_value, "-Infinity");
}

#[test]
fn float_literal_shapes_rejected() {
    assert!(matches!(
        parse_err("F,0,0,0,1e"),
        ErrorKind::InvalidNumber { .. }
    ));
    assert!(matches!(
        parse_err("F,0,0,0,."),
        ErrorKind::InvalidNumber { .. }
    ));
    assert!(matches!(
        parse_err("F,0,0,0,1x"),
        ErrorKind::InvalidNumber { .. }
    ));
}

#[test]
fn float_field_acceptance_agrees_with_a_real_float_parse() {
    let samples = [
        "1", "1.", ".5", "1.5e3", "1.e3", "+1e-2", "-.5", "12.34", "0007",
        "inf", "Infinity", "nan", "NAN", "-inf", "+INFINITY",
        "", ".", "e5", "1e", "1..2", "1x", "--1", "+", "1e+", "0x1",
        " 1", "1 ", "1_000", "NaNa", "infini", "infinityy", "na", "e", "-",
    ];
    for s in samples {
        let line = format!("F,0,0,0,{}", s);
        let lib_ok = storyboard::Command::from_string(line).is_ok();
        let std_ok = s.parse::<f32>().is_ok();
        assert_eq!(lib_ok, std_ok, "disagreement on float field {:?}", s);
    }
}

#[test]
fn time_field_acceptance_agrees_with_a_real_integer_parse() {
    let samples = [
        "0", "-1", "+5", "2147483647", "2147483648", "-2147483648",
        "-2147483649", "01", "1 ", " 1", "", "x", "--1", "+", "1.0",
        "999999999999999999999",
    ];
    for s in samples {
        let line = format!("F,0,{},0,1", s);
        let lib_ok = storyboard::Command::from_string(line).is_ok();
        let std_ok = s.parse::<i32>().is_ok();
        assert_eq!(lib_ok, std_ok, "disagreement on time field {:?}", s);
    }
}

#[test]
fn parsed_times_agree_with_a_real_integer_parse() {
    for s in ["0", "-1", "+5", "2147483647", "-2147483648", "042"] {
        let line = format!("F,0,{},0,1", s);
        let c = storyboard::Command::from_string(line).expect("valid time");
        assert_eq!(c.start_time, s.parse::<i32>().unwrap());
    }
}
