use input_automation::command_executor::{step_for, DeviceAction, Run, ScreenGate, Step};
use input_automation::command_types::{parse_command_from_line, ButtonAction, KeyTarget, MouseButton};
use input_automation::keys::NamedKey;
use input_automation::percentage::Percentage;
use input_automation::screen_compare::MatchCount;

fn step(line: &str) -> Step {
    step_for(&parse_command_from_line(&String::from(line)))
}

#[test]
fn key_actions_map_to_primitives() {
    assert!(matches!(step("key: a press"), Step::Act(DeviceAction::KeyDown(KeyTarget::Layout('a')))));
    assert!(matches!(step("key: a release"), Step::Act(DeviceAction::KeyUp(KeyTarget::Layout('a')))));
    assert!(matches!(
        step("key: shift click"),
        Step::Act(DeviceAction::KeyClick(KeyTarget::Named(NamedKey::Shift)))
    ));
}

#[test]
fn other_commands_map_to_primitives() {
    assert!(matches!(step("key_sequence: hi there"), Step::Act(DeviceAction::TypeText(ref s)) if s == "hi there"));
    assert!(matches!(step("mouse_click: middle"), Step::Act(DeviceAction::MouseClick(MouseButton::Middle))));
    assert!(matches!(step("mouse_down: right"), Step::Act(DeviceAction::MouseDown(MouseButton::Right))));
    assert!(matches!(step("mouse_release: left"), Step::Act(DeviceAction::MouseUp(MouseButton::Left))));
    assert!(matches!(step("mouse_move: 5 -6"), Step::Act(DeviceAction::MoveTo { x: 5, y: -6 })));
    assert!(matches!(step("mouse_move_relative: -1 2"), Step::Act(DeviceAction::MoveBy { x: -1, y: 2 })));
    assert!(matches!(step("wait: 250"), Step::Sleep(250)));
    assert!(matches!(step("no such line"), Step::Sleep(1)));
}

#[test]
fn screen_compare_becomes_gate() {
    match step("screen_compare_key_click: return 10 20 30 40 75 /tmp/a b.png") {
        Step::Gate(g) => {
            assert_eq!(g.key, KeyTarget::Named(NamedKey::Return));
            assert_eq!(g.input_file_path, "/tmp/a b.png");
            assert_eq!((g.start_x, g.start_y, g.width, g.height), (10, 20, 30, 40));
            assert_eq!(g.threshold, Percentage { negative: false, mantissa: 75, scale: 0 });
        },
        _ => panic!("expected a gate"),
    }
}

#[test]
fn gate_clicks_only_at_threshold() {
    let gate = ScreenGate {
        key: KeyTarget::Layout('g'),
        input_file_path: String::from("x.png"),
        start_x: 0,
        start_y: 0,
        width: 40,
        height: 40,
        threshold: Percentage { negative: false, mantissa: 40, scale: 0 },
    };
    assert!(matches!(
        gate.decide(&MatchCount { matching: 640, total: 1600 }),
        Some(DeviceAction::KeyClick(KeyTarget::Layout('g')))
    ));
    assert!(gate.decide(&MatchCount { matching: 639, total: 1600 }).is_none());
    assert!(gate.decide(&MatchCount { matching: 0, total: 0 }).is_none());
}

#[test]
fn button_action_values() {
    assert_ne!(ButtonAction::Press, ButtonAction::Release);
}

#[test]
fn run_steps_through_commands_in_order_once() {
    let commands: Vec<_> = ["wait: 3", "key: x press", "bad line", "mouse_click: left"]
        .iter()
        .map(|l| parse_command_from_line(&String::from(*l)))
        .collect();
    let mut run = Run::new();
    assert!(matches!(run.next_step(&commands), Some(Step::Sleep(3))));
    assert!(matches!(run.next_step(&commands), Some(Step::Act(DeviceAction::KeyDown(KeyTarget::Layout('x'))))));
    assert!(matches!(run.next_step(&commands), Some(Step::Sleep(1))));
    assert!(matches!(run.next_step(&commands), Some(Step::Act(DeviceAction::MouseClick(MouseButton::Left)))));
    assert!(run.next_step(&commands).is_none());
    assert!(run.next_step(&commands).is_none());
}
