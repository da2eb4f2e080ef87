//! The interpreter's decisions: what each command asks of the input device,
//! and whether a screen-gated key click goes ahead.  Whoever runs a script
//! performs the steps in order, one pass over the commands.
use vstd::prelude::*;
use crate::command_types::{ButtonAction, Command, KeyTarget, MouseButton, ParsedCommand};
use crate::percentage::Percentage;
use crate::screen_compare::MatchCount;

verus! {

/// One primitive of the input device.
#[derive(Clone, Debug)]
pub enum DeviceAction {
    KeyDown(KeyTarget),
    KeyUp(KeyTarget),
    KeyClick(KeyTarget),
    TypeText(String),
    MouseClick(MouseButton),
    MouseDown(MouseButton),
    MouseUp(MouseButton),
    MoveTo { x: i32, y: i32 },
    MoveBy { x: i32, y: i32 },
}

/// A key click to make only if the screen region matches the reference image
/// at `input_file_path` well enough.
#[derive(Clone, Debug)]
pub struct ScreenGate {
    pub key: KeyTarget,
    pub input_file_path: String,
    pub start_x: i32,
    pub start_y: i32,
    pub width: u32,
    pub height: u32,
    pub threshold: Percentage,
}

/// What running one command takes.
#[derive(Clone, Debug)]
pub enum Step {
    Act(DeviceAction),
    Sleep(u64),
    Gate(ScreenGate),
}

pub open spec fn key_action(t: KeyTarget, a: ButtonAction) -> DeviceAction {
    match a {
        ButtonAction::Press => DeviceAction::KeyDown(t),
        ButtonAction::Release => DeviceAction::KeyUp(t),
        ButtonAction::Click => DeviceAction::KeyClick(t),
    }
}

/// `s` is the step for the command `c`.
pub open spec fn step_of(c: Command, s: Step) -> bool {
    match c {
        Command::KeyUse(t, a) => s == Step::Act(key_action(t, a)),
        Command::KeySequence(text) => match s {
            Step::Act(DeviceAction::TypeText(typed)) => typed@ == text,
            _ => false,
        },
        Command::MouseClick(b) => s == Step::Act(DeviceAction::MouseClick(b)),
        Command::MouseDown(b) => s == Step::Act(DeviceAction::MouseDown(b)),
        Command::MouseRelease(b) => s == Step::Act(DeviceAction::MouseUp(b)),
        Command::MouseMove(x, y) => s == Step::Act(DeviceAction::MoveTo { x, y }),
        Command::MouseMoveRelative(x, y) => s == Step::Act(DeviceAction::MoveBy { x, y }),
        Command::Wait(ms) => s == Step::Sleep(ms),
        Command::ConditionalKeyUse { key, path, x, y, width, height, threshold } => match s {
            Step::Gate(g) => {
                &&& g.key == key
                &&& g.input_file_path@ == path
                &&& g.start_x == x
                &&& g.start_y == y
                &&& g.width == width
                &&& g.height == height
                &&& g.threshold == threshold
            },
            _ => false,
        },
    }
}

fn key_step(t: KeyTarget, a: ButtonAction) -> (r: Step)
    ensures
        r == Step::Act(key_action(t, a)),
{
    match a {
        ButtonAction::Press => Step::Act(DeviceAction::KeyDown(t)),
        ButtonAction::Release => Step::Act(DeviceAction::KeyUp(t)),
        ButtonAction::Click => Step::Act(DeviceAction::KeyClick(t)),
    }
}

/// The step that runs `command`: a device primitive, a sleep, or a screen gate.
pub fn step_for(command: &ParsedCommand) -> (r: Step)
    ensures
        step_of(command@, r),
{
    match command {
        ParsedCommand::LayoutKeyUse(c, a) => key_step(KeyTarget::Layout(*c), *a),
        ParsedCommand::FunctionKeyUse(k, a) => key_step(KeyTarget::Named(*k), *a),
        ParsedCommand::KeySequence(text) => Step::Act(DeviceAction::TypeText(text.clone())),
        ParsedCommand::MouseClick(b) => Step::Act(DeviceAction::MouseClick(*b)),
        ParsedCommand::MouseDown(b) => Step::Act(DeviceAction::MouseDown(*b)),
        ParsedCommand::MouseRelease(b) => Step::Act(DeviceAction::MouseUp(*b)),
        ParsedCommand::MouseMove { x, y } => Step::Act(DeviceAction::MoveTo { x: *x, y: *y }),
        ParsedCommand::MouseMoveRelative { x, y } => Step::Act(
            DeviceAction::MoveBy { x: *x, y: *y },
        ),
        ParsedCommand::Wait(ms) => Step::Sleep(*ms),
        ParsedCommand::ScreenCompareLayoutKeyClick {
            layout_key,
            input_file_path,
            start_x,
            start_y,
            screen_capture_width,
            screen_capture_height,
            match_threshold,
        } => Step::Gate(
            ScreenGate {
                key: KeyTarget::Layout(*layout_key),
                input_file_path: input_file_path.clone(),
                start_x: *start_x,
                start_y: *start_y,
                width: *screen_capture_width,
                height: *screen_capture_height,
                threshold: *match_threshold,
            },
        ),
        ParsedCommand::ScreenCompareFunctionKeyClick {
            function_key,
            input_file_path,
            start_x,
            start_y,
            screen_capture_width,
            screen_capture_height,
            match_threshold,
        } => Step::Gate(
            ScreenGate {
                key: KeyTarget::Named(*function_key),
                input_file_path: input_file_path.clone(),
                start_x: *start_x,
                start_y: *start_y,
                width: *screen_capture_width,
                height: *screen_capture_height,
                threshold: *match_threshold,
            },
        ),
    }
}

impl ScreenGate {
    /// After the region's comparison: a click of this gate's key where the
    /// match percentage reaches the threshold, else nothing.
    pub fn decide(&self, count: &MatchCount) -> (r: Option<DeviceAction>)
        ensures
            r == if self.threshold.met_by(count.matching as int, count.total as int) {
                Some(DeviceAction::KeyClick(self.key))
            } else {
                None
            },
    {
        if self.threshold.is_met_by(count.matching, count.total) {
            Some(DeviceAction::KeyClick(self.key))
        } else {
            None
        }
    }
}


/// A pass over a script: which command runs next.  Each call of `next_step`
/// hands out the step of the next command in source order, once, until the
/// commands run out.
#[derive(Clone, Copy, Debug)]
pub struct Run {
    position: usize,
}

impl Run {
    pub closed spec fn position(self) -> nat {
        self.position as nat
    }

    pub fn new() -> (r: Run)
        ensures
            r.position() == 0,
    {
        Run { position: 0 }
    }

    /// The step of the command at the current position, moving past it; `None`
    /// once every command has had its step.
    pub fn next_step(&mut self, commands: &Vec<ParsedCommand>) -> (r: Option<Step>)
        ensures
            old(self).position() < commands@.len() ==> {
                &&& r matches Some(s) && step_of(commands@[old(self).position() as int]@, s)
                &&& final(self).position() == old(self).position() + 1
            },
            old(self).position() >= commands@.len() ==> r is None && final(self).position()
                == old(self).position(),
    {
        if self.position < commands.len() {
            let s = step_for(&commands[self.position]);
            self.position = self.position + 1;
            Some(s)
        } else {
            None
        }
    }
}

} // verus!
