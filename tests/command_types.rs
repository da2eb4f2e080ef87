use input_automation::command_types::{
    parse_command_from_line, ButtonAction, KeyTarget, MouseButton, ParseResult, ParsedCommand,
};
use input_automation::keys::NamedKey;
use input_automation::percentage::Percentage;

fn parse(line: &str) -> ParsedCommand {
    parse_command_from_line(&String::from(line))
}

fn is_fallback_wait(command: &ParsedCommand) -> bool {
    matches!(command, ParsedCommand::Wait(1))
}

#[test]
fn test_parse_key_sequence() {
    let line: String = String::from("key_sequence: abcdefg");
    let command: ParsedCommand = parse_command_from_line(&line);

    if let ParsedCommand::KeySequence(key_sequence) = command {
        assert_eq!(key_sequence, "abcdefg");
    } else {
        panic!("The returned command was the wrong type!");
    }
}

#[test]
fn test_parse_key_layout() {
    let line: String = String::from("key: d click");
    let command: ParsedCommand = parse_command_from_line(&line);

    if let ParsedCommand::LayoutKeyUse(parsed_key, button_action) = command {
        assert_eq!(parsed_key, 'd');
        assert_eq!(button_action, ButtonAction::Click);
    } else {
        panic!("The returned command was the wrong type!");
    }
}

#[test]
fn test_parse_key_fn() {
    let line: String = String::from("key: meta click");
    let command: ParsedCommand = parse_command_from_line(&line);

    if let ParsedCommand::FunctionKeyUse(parsed_key, button_action) = command {
        assert_eq!(parsed_key, NamedKey::Meta);
        assert_eq!(button_action, ButtonAction::Click);
    } else {
        panic!("The returned command was the wrong type!");
    }
}

#[test]
fn test_parse_wait() {
    let line: String = String::from("wait: 9");
    let command: ParsedCommand = parse_command_from_line(&line);

    if let ParsedCommand::Wait(wait_time_ms) = command {
        assert_eq!(wait_time_ms, 9);
    } else {
        panic!("The returned command was the wrong type!");
    }
}

#[test]
fn test_parse_mouse_click() {
    let line: String = String::from("mouse_click: left");
    let command: ParsedCommand = parse_command_from_line(&line);

    if let ParsedCommand::MouseClick(mouse_button) = command {
        assert_eq!(mouse_button, MouseButton::Left);
    } else {
        panic!("The returned command was the wrong type!");
    }
}

#[test]
fn test_parse_mouse_down() {
    let line: String = String::from("mouse_down: left");
    let command: ParsedCommand = parse_command_from_line(&line);

    if let ParsedCommand::MouseDown(mouse_button) = command {
        assert_eq!(mouse_button, MouseButton::Left);
    } else {
        panic!("The returned command was the wrong type!");
    }
}

#[test]
fn test_parse_mouse_release() {
    let line: String = String::from("mouse_release: left");
    let command: ParsedCommand = parse_command_from_line(&line);

    if let ParsedCommand::MouseRelease(mouse_button) = command {
        assert_eq!(mouse_button, MouseButton::Left);
    } else {
        panic!("The returned command was the wrong type!");
    }
}

#[test]
fn test_parse_mouse_move() {
    let line: String = String::from("mouse_move: 500 200");
    let command: ParsedCommand = parse_command_from_line(&line);

    if let ParsedCommand::MouseMove { x, y } = command {
        assert_eq!(x, 500);
        assert_eq!(y, 200);
    } else {
        panic!("The returned command was the wrong type!");
    }
}

#[test]
fn test_parse_mouse_move_relative() {
    let line: String = String::from("mouse_move_relative: 300 100");
    let command: ParsedCommand = parse_command_from_line(&line);

    if let ParsedCommand::MouseMoveRelative { x, y } = command {
        assert_eq!(x, 300);
        assert_eq!(y, 100);
    } else {
        panic!("The returned command was the wrong type!");
    }
}

fn threshold_as_f64(t: &Percentage) -> f64 {
    let magnitude = t.mantissa as f64 / 10f64.powi(t.scale as i32);
    if t.negative {
        -magnitude
    } else {
        magnitude
    }
}

#[test]
fn test_parse_screen_compare_key_click_layout() {
    let line: String =
        String::from("screen_compare_key_click: g 400 100 40 40 40 D:\\the space folder\\input.png");
    let command: ParsedCommand = parse_command_from_line(&line);

    if let ParsedCommand::ScreenCompareLayoutKeyClick {
        layout_key,
        input_file_path,
        start_x,
        start_y,
        screen_capture_width,
        screen_capture_height,
        match_threshold,
    } = command
    {
        assert_eq!(layout_key, 'g');
        assert_eq!(input_file_path, "D:\\the space folder\\input.png");
        assert_eq!(start_x, 400);
        assert_eq!(start_y, 100);
        assert_eq!(screen_capture_width, 40);
        assert_eq!(screen_capture_height, 40);
        assert_eq!(threshold_as_f64(&match_threshold), 40.0);
    } else {
        panic!("The returned command was the wrong type!");
    }
}

#[test]
fn test_parse_screen_compare_key_click_fn() {
    let line: String = String::from(
        "screen_compare_key_click: down_arrow 400 100 40 40 40 D:\\the space folder\\input.png",
    );
    let command: ParsedCommand = parse_command_from_line(&line);

    if let ParsedCommand::ScreenCompareFunctionKeyClick {
        function_key,
        input_file_path,
        start_x,
        start_y,
        screen_capture_width,
        screen_capture_height,
        match_threshold,
    } = command
    {
        assert_eq!(function_key, NamedKey::DownArrow);
        assert_eq!(input_file_path, "D:\\the space folder\\input.png");
        assert_eq!(start_x, 400);
        assert_eq!(start_y, 100);
        assert_eq!(screen_capture_width, 40);
        assert_eq!(screen_capture_height, 40);
        assert_eq!(threshold_as_f64(&match_threshold), 40.0);
    } else {
        panic!("The returned command was the wrong type!");
    }
}

#[test]
fn single_character_token_is_literal() {
    for action in ["press", "release", "click"] {
        let command = parse(&format!("key: f {}", action));
        assert!(matches!(command, ParsedCommand::LayoutKeyUse('f', _)));
    }
    assert!(matches!(parse("key: é press"), ParsedCommand::LayoutKeyUse('é', ButtonAction::Press)));
}

#[test]
fn longer_token_goes_through_key_table() {
    assert!(matches!(
        parse("key: f1 press"),
        ParsedCommand::FunctionKeyUse(NamedKey::F1, ButtonAction::Press)
    ));
    assert!(matches!(
        parse("key: f20 release"),
        ParsedCommand::FunctionKeyUse(NamedKey::F20, ButtonAction::Release)
    ));
    assert!(matches!(
        parse("key: back_space click"),
        ParsedCommand::FunctionKeyUse(NamedKey::Backspace, ButtonAction::Click)
    ));
    assert!(matches!(
        parse("key: option click"),
        ParsedCommand::FunctionKeyUse(NamedKey::Option, ButtonAction::Click)
    ));
    // Not in the table, and not one character.
    assert!(is_fallback_wait(&parse("key: f21 click")));
    assert!(is_fallback_wait(&parse("key: Meta click")));
    assert!(is_fallback_wait(&parse("key: ab click")));
}

#[test]
fn unknown_action_word_fails() {
    assert!(is_fallback_wait(&parse("key: d Click")));
    assert!(is_fallback_wait(&parse("key: d tap")));
    assert!(is_fallback_wait(&parse("key: d ")));
}

#[test]
fn unknown_keyword_falls_back_to_wait() {
    for line in ["jump: 5", "Key: d click", "wait:5", "x", "", " key: d click"] {
        let (command, result) = ParsedCommand::parse_command_substring(&String::from(line));
        assert!(is_fallback_wait(&command), "{}", line);
        assert_eq!(result, ParseResult::Fail);
    }
}

#[test]
fn wrong_field_count_falls_back_to_wait() {
    for line in [
        "wait: 5 6",
        "key: d",
        "key: d click now",
        "mouse_move: 1",
        "mouse_move: 1 2 3",
        "mouse_move_relative: 4",
        "mouse_click: left right",
        "mouse_down: ",
        "key_sequence: ",
        "screen_compare_key_click: g 1 2 3 4 5",
    ] {
        let (command, result) = ParsedCommand::parse_command_substring(&String::from(line));
        assert!(is_fallback_wait(&command), "{}", line);
        assert_eq!(result, ParseResult::Fail);
    }
}

#[test]
fn successful_parse_reports_success() {
    let (command, result) = ParsedCommand::parse_command_substring(&String::from("wait: 1"));
    assert!(matches!(command, ParsedCommand::Wait(1)));
    assert_eq!(result, ParseResult::Success);
}

#[test]
fn repeated_keyword_fails() {
    assert!(is_fallback_wait(&parse("key_sequence: key_sequence: x")));
    assert!(is_fallback_wait(&parse("key: akey: click")));
    assert!(matches!(parse("key_sequence: key: x"), ParsedCommand::KeySequence(ref s) if s == "key: x"));
}

#[test]
fn key_sequence_keeps_text_verbatim() {
    match parse("key_sequence: Hello,  World! ") {
        ParsedCommand::KeySequence(s) => assert_eq!(s, "Hello,  World! "),
        _ => panic!("wrong command"),
    }
}

#[test]
fn wait_field_bounds() {
    assert!(matches!(parse("wait: 0"), ParsedCommand::Wait(0)));
    assert!(matches!(parse("wait: +5"), ParsedCommand::Wait(5)));
    assert!(matches!(parse("wait: 18446744073709551615"), ParsedCommand::Wait(u64::MAX)));
    assert!(is_fallback_wait(&parse("wait: 18446744073709551616")));
    assert!(is_fallback_wait(&parse("wait: -5")));
    assert!(is_fallback_wait(&parse("wait: 5ms")));
    assert!(is_fallback_wait(&parse("wait: ")));
    assert!(is_fallback_wait(&parse("wait: +")));
}

#[test]
fn mouse_move_signed_bounds() {
    assert!(matches!(
        parse("mouse_move: -2147483648 2147483647"),
        ParsedCommand::MouseMove { x: -2147483648, y: 2147483647 }
    ));
    assert!(matches!(
        parse("mouse_move_relative: -3 +4"),
        ParsedCommand::MouseMoveRelative { x: -3, y: 4 }
    ));
    assert!(is_fallback_wait(&parse("mouse_move: 2147483648 0")));
    assert!(is_fallback_wait(&parse("mouse_move: -2147483649 0")));
    assert!(is_fallback_wait(&parse("mouse_move: 1x 0")));
    assert!(is_fallback_wait(&parse("mouse_move: - 0")));
}

#[test]
fn mouse_buttons() {
    assert!(matches!(parse("mouse_click: right"), ParsedCommand::MouseClick(MouseButton::Right)));
    assert!(matches!(parse("mouse_down: middle"), ParsedCommand::MouseDown(MouseButton::Middle)));
    assert!(is_fallback_wait(&parse("mouse_release: Left")));
}

#[test]
fn screen_compare_path_keeps_spaces() {
    let path = "C:\\my  dir\\ two\\img.png ";
    match parse(&format!("screen_compare_key_click: tab -5 7 3 2 99.5 {}", path)) {
        ParsedCommand::ScreenCompareFunctionKeyClick {
            function_key,
            input_file_path,
            start_x,
            start_y,
            screen_capture_width,
            screen_capture_height,
            match_threshold,
        } => {
            assert_eq!(function_key, NamedKey::Tab);
            assert_eq!(input_file_path, path);
            assert_eq!((start_x, start_y), (-5, 7));
            assert_eq!((screen_capture_width, screen_capture_height), (3, 2));
            assert_eq!(match_threshold, Percentage { negative: false, mantissa: 995, scale: 1 });
        },
        _ => panic!("wrong command"),
    }
}

#[test]
fn screen_compare_field_errors() {
    let base = ["g", "1", "2", "3", "4", "50", "p.png"];
    for (i, bad) in [(0, "nokey"), (1, "x"), (2, "1.5"), (3, "-3"), (4, "4294967296"), (5, "5%")] {
        let mut fields = base.to_vec();
        fields[i] = bad;
        let line = format!("screen_compare_key_click: {}", fields.join(" "));
        assert!(is_fallback_wait(&parse(&line)), "{}", line);
    }
    let line = format!("screen_compare_key_click: {}", base.join(" "));
    assert!(matches!(parse(&line), ParsedCommand::ScreenCompareLayoutKeyClick { .. }));
}

#[test]
fn threshold_forms() {
    let read = |t: &str| match parse(&format!("screen_compare_key_click: g 0 0 1 1 {} p", t)) {
        ParsedCommand::ScreenCompareLayoutKeyClick { match_threshold, .. } => Some(match_threshold),
        _ => None,
    };
    assert_eq!(read("40"), Some(Percentage { negative: false, mantissa: 40, scale: 0 }));
    assert_eq!(read("+0.25"), Some(Percentage { negative: false, mantissa: 25, scale: 2 }));
    assert_eq!(read("-7.0"), Some(Percentage { negative: true, mantissa: 70, scale: 1 }));
    assert_eq!(read(".5"), Some(Percentage { negative: false, mantissa: 5, scale: 1 }));
    assert_eq!(read("5."), Some(Percentage { negative: false, mantissa: 5, scale: 0 }));
    assert_eq!(read("."), None);
    assert_eq!(read("1.2.3"), None);
    assert_eq!(read("1e2"), None);
    assert_eq!(read("99999999999999999999"), None);
}

#[test]
fn key_targets_compare() {
    assert_eq!(KeyTarget::Layout('a'), KeyTarget::Layout('a'));
    assert_ne!(KeyTarget::Named(NamedKey::Alt), KeyTarget::Named(NamedKey::Shift));
}
