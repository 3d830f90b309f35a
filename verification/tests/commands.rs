use reovim::commands::{command_step, committed_text, mouse_step, CellPos, CommandStep, Dragging, MouseEvent, MouseAction, MouseButton, NvimCall, ParallelCommand, SerialCommand, UiCommand};
use reovim::keys::Modifiers;

fn command(text: &str) -> NvimCall {
    NvimCall::Command(text.to_string())
}

#[test]
fn names_of_actions_and_buttons() {
    assert_eq!(MouseAction::Press.as_str(), "press");
    assert_eq!(MouseAction::Release.as_str(), "release");
    assert_eq!(MouseAction::Drag.as_str(), "drag");
    assert_eq!(MouseAction::Up.as_str(), "up");
    assert_eq!(MouseButton::Left.as_str(), "left");
    assert_eq!(MouseButton::Middle.as_str(), "middle");
    assert_eq!(MouseButton::Right.as_str(), "right");
    assert_eq!(MouseButton::from_gtk_button(1), Some(MouseButton::Left));
    assert_eq!(MouseButton::from_gtk_button(2), Some(MouseButton::Middle));
    assert_eq!(MouseButton::from_gtk_button(3), Some(MouseButton::Right));
    assert_eq!(MouseButton::from_gtk_button(4), None);
}

#[test]
fn keyboard_goes_to_input() {
    let cmd = SerialCommand::Keyboard("<C-w>".to_string());
    assert_eq!(cmd.plan(), NvimCall::Input("<C-w>".to_string()));
    assert_eq!(UiCommand::from_serial(cmd.clone()), UiCommand::Serial(cmd));
}

#[test]
fn mouse_commands() {
    let shift = Modifiers { shift: true, ..Modifiers::default() };
    let press = SerialCommand::MouseButton {
        action: MouseAction::Press,
        button: MouseButton::Left,
        modifier: shift,
        grid_id: 2,
        position: CellPos { col: 4, row: 7 },
    };
    assert_eq!(
        press.plan(),
        NvimCall::InputMouse {
            button: "left".to_string(),
            action: "press".to_string(),
            modifier: String::new(),
            grid: 2,
            row: 7,
            col: 4
        }
    );
    let scroll = SerialCommand::Scroll {
        direction: "down".to_string(),
        grid_id: 1,
        position: CellPos { col: 0, row: 3 },
        modifier: Modifiers { control: true, ..Modifiers::default() },
    };
    assert_eq!(
        scroll.plan(),
        NvimCall::InputMouse {
            button: "wheel".to_string(),
            action: "down".to_string(),
            modifier: "C-".to_string(),
            grid: 1,
            row: 3,
            col: 0
        }
    );
    let drag = SerialCommand::Drag {
        button: MouseButton::Right,
        grid_id: 5,
        position: CellPos { col: 1, row: 1 },
        modifier: Modifiers { alt: true, super_: true, ..Modifiers::default() },
    };
    assert_eq!(
        drag.plan(),
        NvimCall::InputMouse {
            button: "right".to_string(),
            action: "drag".to_string(),
            modifier: "A-M-".to_string(),
            grid: 5,
            row: 1,
            col: 1
        }
    );
}

#[test]
fn parallel_commands() {
    assert_eq!(ParallelCommand::Quit.plan(), vec![command("qa!")]);
    assert_eq!(
        ParallelCommand::Resize { width: 3, height: 1 }.plan(),
        vec![NvimCall::TryResize { width: 10, height: 3 }]
    );
    assert_eq!(
        ParallelCommand::Resize { width: 120, height: 40 }.plan(),
        vec![NvimCall::TryResize { width: 120, height: 40 }]
    );
    assert_eq!(ParallelCommand::FileDrop("/tmp/a b.txt".to_string()).plan(), vec![command("e /tmp/a b.txt")]);
    assert_eq!(
        ParallelCommand::FocusLost.plan(),
        vec![command("if exists('#FocusLost') | doautocmd <nomodeline> FocusLost | endif")]
    );
    assert_eq!(
        ParallelCommand::FocusGained.plan(),
        vec![command("if exists('#FocusGained') | doautocmd <nomodeline> FocusGained | endif")]
    );
    let parallel = ParallelCommand::Quit;
    assert_eq!(UiCommand::from_parallel(parallel.clone()), UiCommand::Parallel(parallel));
}

#[test]
fn available_fonts_buffer() {
    let fonts = vec!["Fira Code".to_string(), "Hack".to_string()];
    let calls = ParallelCommand::DisplayAvailableFonts(fonts).plan();
    assert_eq!(calls.len(), 9);
    assert_eq!(calls[0], command("split"));
    assert_eq!(calls[6], command("file scratch"));
    match &calls[7] {
        NvimCall::SetBufLines(lines) => {
            assert_eq!(lines.len(), 21);
            assert_eq!(lines[17], "Available Fonts on this System");
            assert_eq!(&lines[19..], &["Fira Code".to_string(), "Hack".to_string()]);
        }
        other => panic!("unexpected call {:?}", other),
    }
}

#[test]
fn executor_steps() {
    assert_eq!(command_step(false, Some(UiCommand::Parallel(ParallelCommand::Quit))), CommandStep::Stop);
    assert_eq!(command_step(true, None), CommandStep::Quit);
    assert_eq!(
        command_step(true, Some(UiCommand::Serial(SerialCommand::Keyboard("i".to_string())))),
        CommandStep::RunSerial(NvimCall::Input("i".to_string()))
    );
    assert_eq!(
        command_step(true, Some(UiCommand::Parallel(ParallelCommand::FocusLost))),
        CommandStep::RunParallel(vec![command(
            "if exists('#FocusLost') | doautocmd <nomodeline> FocusLost | endif"
        )])
    );
}

#[test]
fn mouse_press_drag_release() {
    let m = Modifiers::default();
    let at = |col, row| CellPos { col, row };
    let (d, cmd) = mouse_step(None, MouseEvent::Press { button: 1, position: at(2, 3), modifier: m }, 4);
    assert_eq!(d, Some(Dragging { btn: MouseButton::Left, pos: at(2, 3) }));
    assert_eq!(
        cmd,
        Some(SerialCommand::MouseButton {
            action: MouseAction::Press,
            button: MouseButton::Left,
            modifier: m,
            grid_id: 4,
            position: at(2, 3)
        })
    );
    let (same, none) = mouse_step(d, MouseEvent::Motion { position: at(2, 3), modifier: m }, 4);
    assert_eq!((same, none), (d, None));
    let (moved, drag) = mouse_step(d, MouseEvent::Motion { position: at(5, 3), modifier: m }, 4);
    assert_eq!(moved, Some(Dragging { btn: MouseButton::Left, pos: at(5, 3) }));
    assert_eq!(
        drag,
        Some(SerialCommand::Drag { button: MouseButton::Left, grid_id: 4, position: at(5, 3), modifier: m })
    );
    let (gone, release) = mouse_step(moved, MouseEvent::Release { button: 1, position: at(5, 3), modifier: m }, 4);
    assert_eq!(gone, None);
    assert!(matches!(release, Some(SerialCommand::MouseButton { action: MouseAction::Release, .. })));
    assert_eq!(mouse_step(None, MouseEvent::Motion { position: at(1, 1), modifier: m }, 4), (None, None));
    assert_eq!(mouse_step(d, MouseEvent::Press { button: 8, position: at(0, 0), modifier: m }, 4), (d, None));
    assert_eq!(mouse_step(d, MouseEvent::Release { button: 8, position: at(0, 0), modifier: m }, 4), (None, None));
}

#[test]
fn committed_text_escapes_less_than() {
    assert_eq!(committed_text("a<b"), SerialCommand::Keyboard("a<lt>b".to_string()));
    assert_eq!(committed_text("<<"), SerialCommand::Keyboard("<lt><lt>".to_string()));
    assert_eq!(committed_text("中文"), SerialCommand::Keyboard("中文".to_string()));
    assert_eq!(committed_text(""), SerialCommand::Keyboard(String::new()));
}
