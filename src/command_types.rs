//! The commands a script line can hold, and the parser that reads one line.
//!
//! A line starts with a keyword (`key: `, `wait: `, ...) that picks the kind of
//! command; the rest of the line holds the command's fields. A line that does
//! not fit the grammar becomes `Wait(1)` and is reported as a failure.
use vstd::prelude::*;
use vstd::string::*;
use crate::keys::{key_table, lookup_named_key, NamedKey};
use crate::percentage::{percentage_at, percentage_field, Percentage};
use crate::text::{
    chars_occur_at, chars_occur_from, chars_of, i32_at, i32_field, join, occurs_at, occurs_in,
    split_on, split_ranges, token_is, u32_at, u32_field, u64_at, u64_field,
};

verus! {

#[derive(Clone, Copy, Debug, PartialEq, Eq)]
pub enum ButtonAction {
    Press,
    Release,
    Click,
}

#[derive(Clone, Copy, Debug, PartialEq, Eq)]
pub enum MouseButton {
    Left,
    Right,
    Middle,
}

/// The key a command acts on: a literal character, or a key of the table.
#[derive(Clone, Copy, Debug, PartialEq, Eq)]
pub enum KeyTarget {
    Layout(char),
    Named(NamedKey),
}

/// One parsed script instruction.
#[derive(Clone, Debug)]
pub enum ParsedCommand {
    LayoutKeyUse(char, ButtonAction),
    FunctionKeyUse(NamedKey, ButtonAction),
    KeySequence(String),
    MouseClick(MouseButton),
    MouseDown(MouseButton),
    MouseRelease(MouseButton),
    MouseMove { x: i32, y: i32 },
    MouseMoveRelative { x: i32, y: i32 },
    Wait(u64),
    ScreenCompareLayoutKeyClick {
        layout_key: char,
        input_file_path: String,
        start_x: i32,
        start_y: i32,
        screen_capture_width: u32,
        screen_capture_height: u32,
        match_threshold: Percentage,
    },
    ScreenCompareFunctionKeyClick {
        function_key: NamedKey,
        input_file_path: String,
        start_x: i32,
        start_y: i32,
        screen_capture_width: u32,
        screen_capture_height: u32,
        match_threshold: Percentage,
    },
}

/// What a `ParsedCommand` means, with text as character sequences and both
/// kinds of key target under one variant.
pub enum Command {
    KeyUse(KeyTarget, ButtonAction),
    KeySequence(Seq<char>),
    MouseClick(MouseButton),
    MouseDown(MouseButton),
    MouseRelease(MouseButton),
    MouseMove(i32, i32),
    MouseMoveRelative(i32, i32),
    Wait(u64),
    ConditionalKeyUse {
        key: KeyTarget,
        path: Seq<char>,
        x: i32,
        y: i32,
        width: u32,
        height: u32,
        threshold: Percentage,
    },
}

impl View for ParsedCommand {
    type V = Command;

    open spec fn view(&self) -> Command {
        match self {
            ParsedCommand::LayoutKeyUse(c, a) => Command::KeyUse(KeyTarget::Layout(*c), *a),
            ParsedCommand::FunctionKeyUse(k, a) => Command::KeyUse(KeyTarget::Named(*k), *a),
            ParsedCommand::KeySequence(s) => Command::KeySequence(s@),
            ParsedCommand::MouseClick(b) => Command::MouseClick(*b),
            ParsedCommand::MouseDown(b) => Command::MouseDown(*b),
            ParsedCommand::MouseRelease(b) => Command::MouseRelease(*b),
            ParsedCommand::MouseMove { x, y } => Command::MouseMove(*x, *y),
            ParsedCommand::MouseMoveRelative { x, y } => Command::MouseMoveRelative(*x, *y),
            ParsedCommand::Wait(ms) => Command::Wait(*ms),
            ParsedCommand::ScreenCompareLayoutKeyClick {
                layout_key,
                input_file_path,
                start_x,
                start_y,
                screen_capture_width,
                screen_capture_height,
                match_threshold,
            } => Command::ConditionalKeyUse {
                key: KeyTarget::Layout(*layout_key),
                path: input_file_path@,
                x: *start_x,
                y: *start_y,
                width: *screen_capture_width,
                height: *screen_capture_height,
                threshold: *match_threshold,
            },
            ParsedCommand::ScreenCompareFunctionKeyClick {
                function_key,
                input_file_path,
                start_x,
                start_y,
                screen_capture_width,
                screen_capture_height,
                match_threshold,
            } => Command::ConditionalKeyUse {
                key: KeyTarget::Named(*function_key),
                path: input_file_path@,
                x: *start_x,
                y: *start_y,
                width: *screen_capture_width,
                height: *screen_capture_height,
                threshold: *match_threshold,
            },
        }
    }
}

/// Whether a line was read as written or fell back to `Wait(1)`.
#[derive(Clone, Copy, Debug, PartialEq, Eq)]
pub enum ParseResult {
    Fail,
    Success,
}

/// The kinds of line, one per keyword.
#[derive(Clone, Copy, Debug, PartialEq, Eq)]
pub enum CommandKind {
    KeySequence,
    Key,
    Wait,
    MouseClick,
    MouseDown,
    MouseRelease,
    MouseMove,
    MouseMoveRelative,
    ScreenCompareKeyClick,
}

pub open spec fn keyword(k: CommandKind) -> Seq<char> {
    match k {
        CommandKind::KeySequence => "key_sequence: "@,
        CommandKind::Key => "key: "@,
        CommandKind::Wait => "wait: "@,
        CommandKind::MouseClick => "mouse_click: "@,
        CommandKind::MouseDown => "mouse_down: "@,
        CommandKind::MouseRelease => "mouse_release: "@,
        CommandKind::MouseMove => "mouse_move: "@,
        CommandKind::MouseMoveRelative => "mouse_move_relative: "@,
        CommandKind::ScreenCompareKeyClick => "screen_compare_key_click: "@,
    }
}

/// The order in which the keywords are tried.
pub open spec fn dispatch_order() -> Seq<CommandKind> {
    seq![
        CommandKind::KeySequence,
        CommandKind::Key,
        CommandKind::Wait,
        CommandKind::MouseClick,
        CommandKind::MouseDown,
        CommandKind::MouseRelease,
        CommandKind::MouseMove,
        CommandKind::MouseMoveRelative,
        CommandKind::ScreenCompareKeyClick,
    ]
}

pub open spec fn starts_with(s: Seq<char>, p: Seq<char>) -> bool {
    occurs_at(s, p, 0)
}

/// The first kind in `kinds` whose keyword starts `line`.
pub open spec fn first_match(line: Seq<char>, kinds: Seq<CommandKind>) -> Option<CommandKind>
    decreases kinds.len(),
{
    if kinds.len() == 0 {
        None
    } else if starts_with(line, keyword(kinds[0])) {
        Some(kinds[0])
    } else {
        first_match(line, kinds.drop_first())
    }
}

pub open spec fn classify(line: Seq<char>) -> Option<CommandKind> {
    first_match(line, dispatch_order())
}

pub open spec fn button_action(t: Seq<char>) -> Option<ButtonAction> {
    if t == "press"@ {
        Some(ButtonAction::Press)
    } else if t == "release"@ {
        Some(ButtonAction::Release)
    } else if t == "click"@ {
        Some(ButtonAction::Click)
    } else {
        None
    }
}

pub open spec fn mouse_button(t: Seq<char>) -> Option<MouseButton> {
    if t == "left"@ {
        Some(MouseButton::Left)
    } else if t == "right"@ {
        Some(MouseButton::Right)
    } else if t == "middle"@ {
        Some(MouseButton::Middle)
    } else {
        None
    }
}

/// A key token: one character is that character; anything longer (or empty)
/// must be a token of the key table.
pub open spec fn key_target(t: Seq<char>) -> Option<KeyTarget> {
    if t.len() == 1 {
        Some(KeyTarget::Layout(t[0]))
    } else {
        match key_table(t) {
            Some(k) => Some(KeyTarget::Named(k)),
            None => None,
        }
    }
}

/// The command that the fields `rest` of a line of kind `k` describe, if they
/// fit that kind's grammar.
pub open spec fn parse_fields(k: CommandKind, rest: Seq<char>) -> Option<Command> {
    let parts = split_on(rest, ' ');
    match k {
        CommandKind::KeySequence => if rest.len() > 0 {
            Some(Command::KeySequence(rest))
        } else {
            None
        },
        CommandKind::Key => if parts.len() == 2 {
            match (key_target(parts[0]), button_action(parts[1])) {
                (Some(t), Some(a)) => Some(Command::KeyUse(t, a)),
                _ => None,
            }
        } else {
            None
        },
        CommandKind::Wait => match u64_field(rest) {
            Some(ms) => Some(Command::Wait(ms)),
            None => None,
        },
        CommandKind::MouseClick => match mouse_button(rest) {
            Some(b) => Some(Command::MouseClick(b)),
            None => None,
        },
        CommandKind::MouseDown => match mouse_button(rest) {
            Some(b) => Some(Command::MouseDown(b)),
            None => None,
        },
        CommandKind::MouseRelease => match mouse_button(rest) {
            Some(b) => Some(Command::MouseRelease(b)),
            None => None,
        },
        CommandKind::MouseMove => if parts.len() == 2 {
            match (i32_field(parts[0]), i32_field(parts[1])) {
                (Some(x), Some(y)) => Some(Command::MouseMove(x, y)),
                _ => None,
            }
        } else {
            None
        },
        CommandKind::MouseMoveRelative => if parts.len() == 2 {
            match (i32_field(parts[0]), i32_field(parts[1])) {
                (Some(x), Some(y)) => Some(Command::MouseMoveRelative(x, y)),
                _ => None,
            }
        } else {
            None
        },
        CommandKind::ScreenCompareKeyClick => if parts.len() >= 7 {
            match (
                key_target(parts[0]),
                i32_field(parts[1]),
                i32_field(parts[2]),
                u32_field(parts[3]),
                u32_field(parts[4]),
                percentage_field(parts[5]),
            ) {
                (Some(key), Some(x), Some(y), Some(width), Some(height), Some(threshold)) => Some(
                    Command::ConditionalKeyUse {
                        key,
                        path: join(parts.skip(6), ' '),
                        x,
                        y,
                        width,
                        height,
                        threshold,
                    },
                ),
                _ => None,
            }
        } else {
            None
        },
    }
}

/// The command a line holds, or `None` where the line does not fit the grammar:
/// no keyword starts it, its keyword occurs again in the rest of the line, or
/// the rest does not fit the kind's fields.
pub open spec fn parse_line_checked(line: Seq<char>) -> Option<Command> {
    match classify(line) {
        Some(k) => {
            let rest = line.skip(keyword(k).len() as int);
            if occurs_in(rest, keyword(k)) {
                None
            } else {
                parse_fields(k, rest)
            }
        },
        None => None,
    }
}

/// The command a line is read as: the one it holds, or `Wait(1)`.
pub open spec fn parse_line(line: Seq<char>) -> Command {
    match parse_line_checked(line) {
        Some(c) => c,
        None => Command::Wait(1),
    }
}

/// `r` carries `o`: the command with `Success`, or `Wait(1)` with `Fail`.
pub open spec fn carries(r: (ParsedCommand, ParseResult), o: Option<Command>) -> bool {
    match o {
        Some(c) => r.0@ == c && r.1 == ParseResult::Success,
        None => r.0@ == Command::Wait(1) && r.1 == ParseResult::Fail,
    }
}


fn button_action_at(chars: &Vec<char>, a: usize, b: usize) -> (r: Option<ButtonAction>)
    requires
        a <= b <= chars@.len(),
    ensures
        r == button_action(chars@.subrange(a as int, b as int)),
{
    if token_is(chars, a, b, "press") {
        Some(ButtonAction::Press)
    } else if token_is(chars, a, b, "release") {
        Some(ButtonAction::Release)
    } else if token_is(chars, a, b, "click") {
        Some(ButtonAction::Click)
    } else {
        None
    }
}

fn mouse_button_at(chars: &Vec<char>, a: usize, b: usize) -> (r: Option<MouseButton>)
    requires
        a <= b <= chars@.len(),
    ensures
        r == mouse_button(chars@.subrange(a as int, b as int)),
{
    if token_is(chars, a, b, "left") {
        Some(MouseButton::Left)
    } else if token_is(chars, a, b, "right") {
        Some(MouseButton::Right)
    } else if token_is(chars, a, b, "middle") {
        Some(MouseButton::Middle)
    } else {
        None
    }
}

/// Reads the key token `chars[a..b]`: a single character first, then the table.
fn key_target_at(chars: &Vec<char>, a: usize, b: usize) -> (r: Option<KeyTarget>)
    requires
        a <= b <= chars@.len(),
    ensures
        r == key_target(chars@.subrange(a as int, b as int)),
{
    if b - a == 1 {
        Some(KeyTarget::Layout(chars[a]))
    } else {
        match lookup_named_key(chars, a, b) {
            Some(k) => Some(KeyTarget::Named(k)),
            None => None,
        }
    }
}

/// The pieces from `from` on, each given by its range in `s`, with one space
/// between each two of them.
fn join_from(s: &str, ranges: &Vec<(usize, usize)>, from: usize) -> (r: String)
    requires
        from < ranges@.len() == split_on(s@, ' ').len(),
        forall|k: int|
            0 <= k < ranges@.len() ==> {
                &&& (#[trigger] ranges@[k]).0 <= ranges@[k].1 <= s@.len()
                &&& s@.subrange(ranges@[k].0 as int, ranges@[k].1 as int) == split_on(s@, ' ')[k]
            },
    ensures
        r@ == join(split_on(s@, ' ').skip(from as int), ' '),
{
    let ghost parts = split_on(s@, ' ');
    let mut path = s.substring_char(ranges[from].0, ranges[from].1).to_owned();
    assert(parts.subrange(from as int, from + 1).len() == 1);
    assert(parts.subrange(from as int, from + 1)[0] == parts[from as int]);
    let n = ranges.len();
    let mut k: usize = from + 1;
    while k < n
        invariant
            from < k <= n,
            n == ranges@.len() == parts.len(),
            parts == split_on(s@, ' '),
            forall|m: int|
                0 <= m < ranges@.len() ==> {
                    &&& (#[trigger] ranges@[m]).0 <= ranges@[m].1 <= s@.len()
                    &&& s@.subrange(ranges@[m].0 as int, ranges@[m].1 as int) == parts[m]
                },
            path@ == join(parts.subrange(from as int, k as int), ' '),
        decreases ranges@.len() - k,
    {
        proof {
            reveal_strlit(" ");
        }
        path.append(" ");
        path.append(s.substring_char(ranges[k].0, ranges[k].1));
        proof {
            let grown = parts.subrange(from as int, k + 1);
            assert(grown.drop_last() =~= parts.subrange(from as int, k as int));
            assert(grown.last() == parts[k as int]);
            assert(path@ =~= join(parts.subrange(from as int, k as int), ' ').push(' ') + parts[k as int]);
        }
        k += 1;
    }
    assert(parts.subrange(from as int, parts.len() as int) =~= parts.skip(from as int));
    path
}

/// The pieces of `s` between spaces, by their ranges in `s`.
fn space_ranges(s: &str) -> (r: Vec<(usize, usize)>)
    ensures
        r@.len() == split_on(s@, ' ').len(),
        forall|k: int|
            0 <= k < r@.len() ==> {
                &&& (#[trigger] r@[k]).0 <= r@[k].1 <= s@.len()
                &&& s@.subrange(r@[k].0 as int, r@[k].1 as int) == split_on(s@, ' ')[k]
            },
{
    let chars = chars_of(s);
    assert(chars@.subrange(0, chars@.len() as int) =~= s@);
    split_ranges(&chars, 0, ' ')
}

fn fail() -> (r: (ParsedCommand, ParseResult))
    ensures
        carries(r, None),
{
    (ParsedCommand::Wait(1), ParseResult::Fail)
}

impl CommandKind {
    pub fn keyword(&self) -> (r: &'static str)
        ensures
            r@ == keyword(*self),
    {
        match self {
            CommandKind::KeySequence => "key_sequence: ",
            CommandKind::Key => "key: ",
            CommandKind::Wait => "wait: ",
            CommandKind::MouseClick => "mouse_click: ",
            CommandKind::MouseDown => "mouse_down: ",
            CommandKind::MouseRelease => "mouse_release: ",
            CommandKind::MouseMove => "mouse_move: ",
            CommandKind::MouseMoveRelative => "mouse_move_relative: ",
            CommandKind::ScreenCompareKeyClick => "screen_compare_key_click: ",
        }
    }

    /// The kinds in the order in which their keywords are tried.
    pub fn in_dispatch_order() -> (r: Vec<CommandKind>)
        ensures
            r@ == dispatch_order(),
    {
        let mut v: Vec<CommandKind> = Vec::new();
        v.push(CommandKind::KeySequence);
        v.push(CommandKind::Key);
        v.push(CommandKind::Wait);
        v.push(CommandKind::MouseClick);
        v.push(CommandKind::MouseDown);
        v.push(CommandKind::MouseRelease);
        v.push(CommandKind::MouseMove);
        v.push(CommandKind::MouseMoveRelative);
        v.push(CommandKind::ScreenCompareKeyClick);
        assert(v@ =~= dispatch_order());
        v
    }
}

impl ParsedCommand {
    fn parse_key_sequence(cmd_string: &str) -> (r: (ParsedCommand, ParseResult))
        ensures
            carries(r, parse_fields(CommandKind::KeySequence, cmd_string@)),
    {
        if !cmd_string.is_empty() {
            return (ParsedCommand::KeySequence(cmd_string.to_owned()), ParseResult::Success);
        }
        fail()
    }

    fn parse_key(cmd_string: &str) -> (r: (ParsedCommand, ParseResult))
        ensures
            carries(r, parse_fields(CommandKind::Key, cmd_string@)),
    {
        let chars = chars_of(cmd_string);
        let parts = space_ranges(cmd_string);
        if parts.len() == 2 {
            let target = key_target_at(&chars, parts[0].0, parts[0].1);
            let action = button_action_at(&chars, parts[1].0, parts[1].1);
            match (target, action) {
                (Some(KeyTarget::Layout(c)), Some(a)) => {
                    return (ParsedCommand::LayoutKeyUse(c, a), ParseResult::Success);
                },
                (Some(KeyTarget::Named(k)), Some(a)) => {
                    return (ParsedCommand::FunctionKeyUse(k, a), ParseResult::Success);
                },
                _ => {},
            }
        }
        fail()
    }

    fn parse_wait(cmd_string: &str) -> (r: (ParsedCommand, ParseResult))
        ensures
            carries(r, parse_fields(CommandKind::Wait, cmd_string@)),
    {
        let chars = chars_of(cmd_string);
        assert(chars@.subrange(0, chars@.len() as int) =~= cmd_string@);
        match u64_at(&chars, 0, chars.len()) {
            Some(ms) => (ParsedCommand::Wait(ms), ParseResult::Success),
            None => fail(),
        }
    }

    fn parse_mouse_click(cmd_string: &str) -> (r: (ParsedCommand, ParseResult))
        ensures
            carries(r, parse_fields(CommandKind::MouseClick, cmd_string@)),
    {
        let chars = chars_of(cmd_string);
        assert(chars@.subrange(0, chars@.len() as int) =~= cmd_string@);
        match mouse_button_at(&chars, 0, chars.len()) {
            Some(b) => (ParsedCommand::MouseClick(b), ParseResult::Success),
            None => fail(),
        }
    }

    fn parse_mouse_down(cmd_string: &str) -> (r: (ParsedCommand, ParseResult))
        ensures
            carries(r, parse_fields(CommandKind::MouseDown, cmd_string@)),
    {
        let chars = chars_of(cmd_string);
        assert(chars@.subrange(0, chars@.len() as int) =~= cmd_string@);
        match mouse_button_at(&chars, 0, chars.len()) {
            Some(b) => (ParsedCommand::MouseDown(b), ParseResult::Success),
            None => fail(),
        }
    }

    fn parse_mouse_release(cmd_string: &str) -> (r: (ParsedCommand, ParseResult))
        ensures
            carries(r, parse_fields(CommandKind::MouseRelease, cmd_string@)),
    {
        let chars = chars_of(cmd_string);
        assert(chars@.subrange(0, chars@.len() as int) =~= cmd_string@);
        match mouse_button_at(&chars, 0, chars.len()) {
            Some(b) => (ParsedCommand::MouseRelease(b), ParseResult::Success),
            None => fail(),
        }
    }

    /// The two signed coordinates of a `mouse_move` or `mouse_move_relative` line.
    fn parse_coordinates(cmd_string: &str) -> (r: Option<(i32, i32)>)
        ensures
            ({
                let parts = split_on(cmd_string@, ' ');
                r == if parts.len() == 2 {
                    match (i32_field(parts[0]), i32_field(parts[1])) {
                        (Some(x), Some(y)) => Some((x, y)),
                        _ => None,
                    }
                } else {
                    None
                }
            }),
    {
        let chars = chars_of(cmd_string);
        let parts = space_ranges(cmd_string);
        if parts.len() == 2 {
            let x = i32_at(&chars, parts[0].0, parts[0].1);
            let y = i32_at(&chars, parts[1].0, parts[1].1);
            match (x, y) {
                (Some(x), Some(y)) => {
                    return Some((x, y));
                },
                _ => {},
            }
        }
        None
    }

    fn parse_mouse_move(cmd_string: &str) -> (r: (ParsedCommand, ParseResult))
        ensures
            carries(r, parse_fields(CommandKind::MouseMove, cmd_string@)),
    {
        match Self::parse_coordinates(cmd_string) {
            Some((x, y)) => (ParsedCommand::MouseMove { x, y }, ParseResult::Success),
            None => fail(),
        }
    }

    fn parse_mouse_move_relative(cmd_string: &str) -> (r: (ParsedCommand, ParseResult))
        ensures
            carries(r, parse_fields(CommandKind::MouseMoveRelative, cmd_string@)),
    {
        match Self::parse_coordinates(cmd_string) {
            Some((x, y)) => (ParsedCommand::MouseMoveRelative { x, y }, ParseResult::Success),
            None => fail(),
        }
    }

    fn parse_screen_compare_key_click(cmd_string: &str) -> (r: (ParsedCommand, ParseResult))
        ensures
            carries(r, parse_fields(CommandKind::ScreenCompareKeyClick, cmd_string@)),
    {
        let chars = chars_of(cmd_string);
        let parts = space_ranges(cmd_string);
        if parts.len() < 7 {
            return fail();
        }
        let key = key_target_at(&chars, parts[0].0, parts[0].1);
        let start_x = i32_at(&chars, parts[1].0, parts[1].1);
        let start_y = i32_at(&chars, parts[2].0, parts[2].1);
        let width = u32_at(&chars, parts[3].0, parts[3].1);
        let height = u32_at(&chars, parts[4].0, parts[4].1);
        let threshold = percentage_at(&chars, parts[5].0, parts[5].1);
        match (key, start_x, start_y, width, height, threshold) {
            (Some(key), Some(start_x), Some(start_y), Some(w), Some(h), Some(t)) => {
                // The path is the rest of the fields, spaces included.
                let input_file_path = join_from(cmd_string, &parts, 6);
                match key {
                    KeyTarget::Layout(layout_key) => (
                        ParsedCommand::ScreenCompareLayoutKeyClick {
                            layout_key,
                            input_file_path,
                            start_x,
                            start_y,
                            screen_capture_width: w,
                            screen_capture_height: h,
                            match_threshold: t,
                        },
                        ParseResult::Success,
                    ),
                    KeyTarget::Named(function_key) => (
                        ParsedCommand::ScreenCompareFunctionKeyClick {
                            function_key,
                            input_file_path,
                            start_x,
                            start_y,
                            screen_capture_width: w,
                            screen_capture_height: h,
                            match_threshold: t,
                        },
                        ParseResult::Success,
                    ),
                }
            },
            _ => fail(),
        }
    }

    /// Hands the fields `rest` to the sub-parser of kind `kind`.
    fn parse_kind(kind: CommandKind, rest: &str) -> (r: (ParsedCommand, ParseResult))
        ensures
            carries(r, parse_fields(kind, rest@)),
    {
        match kind {
            CommandKind::KeySequence => Self::parse_key_sequence(rest),
            CommandKind::Key => Self::parse_key(rest),
            CommandKind::Wait => Self::parse_wait(rest),
            CommandKind::MouseClick => Self::parse_mouse_click(rest),
            CommandKind::MouseDown => Self::parse_mouse_down(rest),
            CommandKind::MouseRelease => Self::parse_mouse_release(rest),
            CommandKind::MouseMove => Self::parse_mouse_move(rest),
            CommandKind::MouseMoveRelative => Self::parse_mouse_move_relative(rest),
            CommandKind::ScreenCompareKeyClick => Self::parse_screen_compare_key_click(rest),
        }
    }

    /// Reads one line, and says whether it fitted the grammar: where it did
    /// not, the command is `Wait(1)` and the result `Fail`.
    pub fn parse_command_substring(line: &String) -> (r: (ParsedCommand, ParseResult))
        ensures
            carries(r, parse_line_checked(line@)),
    {
        let text = line.as_str();
        let chars = chars_of(text);
        let order = CommandKind::in_dispatch_order();
        let mut i: usize = 0;
        assert(dispatch_order().skip(0) =~= dispatch_order());
        while i < order.len()
            invariant
                chars@ == line@,
                text@ == line@,
                order@ == dispatch_order(),
                i <= order@.len(),
                first_match(line@, dispatch_order()) == first_match(
                    line@,
                    dispatch_order().skip(i as int),
                ),
            decreases order@.len() - i,
        {
            let kind = order[i];
            let ghost tail = dispatch_order().skip(i as int);
            assert(tail[0] == kind);
            assert(tail.drop_first() =~= dispatch_order().skip(i + 1));
            let kw = chars_of(kind.keyword());
            if chars_occur_at(&chars, &kw, 0) {
                assert(classify(line@) == Some(kind));
                let ghost rest = line@.skip(kw@.len() as int);
                assert(chars@.subrange(kw@.len() as int, chars@.len() as int) =~= rest);
                if chars_occur_from(&chars, &kw, kw.len()) {
                    return fail();
                }
                let fields = text.substring_char(kw.len(), chars.len());
                assert(fields@ =~= rest);
                return Self::parse_kind(kind, fields);
            }
            i += 1;
        }
        assert(dispatch_order().skip(i as int) =~= Seq::<CommandKind>::empty());
        fail()
    }
}

/// Reads one script line as a command; a line that does not fit the grammar
/// becomes `Wait(1)`.
pub fn parse_command_from_line(line: &String) -> (r: ParsedCommand)
    ensures
        r@ == parse_line(line@),
{
    let (command, _result) = ParsedCommand::parse_command_substring(line);
    command
}

} // verus!
