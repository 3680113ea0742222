//! A browser in a sandbox, driven by its command.

use suxel::bridge::CommandOutput;
use suxel::computer::{
    act_reply, action_args, button_name, observation, observe_args, observe_reply, read_observe,
    run_reply, shell_quote, ComputerAction, ComputerUseError, E2bComputerUse, MouseButton,
    ObserveDoc, NO_ACCESSIBILITY, NO_OBSERVATION,
};

fn output(stdout: &str) -> Result<CommandOutput, String> {
    Ok(CommandOutput {
        stdout: stdout.to_string(),
        stderr: String::new(),
        exit_code: 0,
    })
}

fn line(action: &ComputerAction) -> String {
    E2bComputerUse::new().command_line(&action_args(action).unwrap())
}

fn platform(e: ComputerUseError) -> String {
    match e {
        ComputerUseError::Platform(message) => message,
        ComputerUseError::InvalidAction(message) => panic!("{message}"),
    }
}

const PAGE: &str = r#"{"title":"Example","url":"https://example.com","width":1280,"height":800,
    "outline":"link: More","screenshot_b64":"aGk="}"#;

#[test]
fn observe_parses_browserctl_json() {
    let obs = observe_reply(true, true, output(PAGE)).unwrap();
    assert_eq!(obs.width, 1280);
    assert_eq!(obs.active_window_title.as_deref(), Some("Example"));
    let tree = obs.accessibility_tree.unwrap();
    assert_eq!(tree.value, "link: More");
    let shot = obs.screenshot.unwrap();
    assert_eq!(shot.data, b"hi");
    assert_eq!(shot.media_type, "image/png");
    assert_eq!((shot.width, shot.height), (1280, 800));
}

#[test]
fn actions_map_to_browserctl_verbs() {
    assert_eq!(
        line(&ComputerAction::Click {
            x: 12.4f64.round() as i64,
            y: 30.6f64.round() as i64,
            button: MouseButton::Left,
        }),
        "browserctl click 12 31 left"
    );
    assert_eq!(
        line(&ComputerAction::OpenApp {
            name: "https://e2b.dev".to_string(),
        }),
        "browserctl navigate 'https://e2b.dev'"
    );
    assert_eq!(
        line(&ComputerAction::TypeText {
            text: "it's me".to_string(),
        }),
        "browserctl type 'it'\\''s me'"
    );
    assert_eq!(act_reply("type 'x'", output(" done\n")).unwrap(), "done");
}

#[test]
fn accessibility_actions_are_rejected() {
    let err = action_args(&ComputerAction::AxPress).unwrap_err();
    assert!(matches!(err, ComputerUseError::InvalidAction(_)));
    for action in [ComputerAction::AxPress, ComputerAction::AxSetValue] {
        match action_args(&action).unwrap_err() {
            ComputerUseError::InvalidAction(message) => assert_eq!(message, NO_ACCESSIBILITY),
            ComputerUseError::Platform(message) => panic!("{message}"),
        }
    }
    for action in [ComputerAction::Observe, ComputerAction::Screenshot] {
        match action_args(&action).unwrap_err() {
            ComputerUseError::InvalidAction(message) => assert_eq!(message, NO_OBSERVATION),
            ComputerUseError::Platform(message) => panic!("{message}"),
        }
    }
}

#[test]
fn the_other_actions_have_verbs_too() {
    let args = |action: ComputerAction| action_args(&action).unwrap();
    assert_eq!(
        args(ComputerAction::DoubleClick { x: -1, y: 2 }),
        "dblclick -1 2"
    );
    assert_eq!(
        args(ComputerAction::RightClick { x: 1, y: 2 }),
        "click 1 2 right"
    );
    assert_eq!(args(ComputerAction::MoveCursor { x: 1, y: 2 }), "move 1 2");
    assert_eq!(
        args(ComputerAction::Scroll {
            x: 1,
            y: 2,
            dx: 0,
            dy: -3,
        }),
        "scroll 1 2 0 -3"
    );
    assert_eq!(
        args(ComputerAction::Drag {
            from_x: 1,
            from_y: 2,
            to_x: 3,
            to_y: 4,
        }),
        "drag 1 2 3 4"
    );
    assert_eq!(
        args(ComputerAction::KeyChord {
            keys: vec!["ctrl".to_string(), "c".to_string()],
        }),
        "key 'ctrl+c'"
    );
    assert_eq!(args(ComputerAction::Wait { millis: 250 }), "wait 250");
    assert_eq!(button_name(MouseButton::Middle), "middle");
}

#[test]
fn a_shell_reads_a_quoted_text_as_the_text() {
    assert_eq!(shell_quote(""), "''");
    assert_eq!(shell_quote("a b"), "'a b'");
    assert_eq!(shell_quote("''"), "''\\'''\\'''");
    assert_eq!(shell_quote("$(rm) \\"), "'$(rm) \\'");
}

#[test]
fn a_command_that_fails_is_an_error_of_the_platform() {
    let failed = Ok(CommandOutput {
        stdout: "x".to_string(),
        stderr: "no display".to_string(),
        exit_code: -2,
    });
    assert_eq!(
        platform(run_reply("observe", failed).unwrap_err()),
        "browserctl observe (exit -2): no display"
    );
    assert_eq!(
        platform(act_reply("wait 1", Err("gone".to_string())).unwrap_err()),
        "gone"
    );
    assert_eq!(run_reply("wait 1", output(" ok ")).unwrap(), " ok ");
}

#[test]
fn an_observation_shows_what_was_asked_for() {
    assert_eq!(observe_args(true), "observe --screenshot");
    assert_eq!(observe_args(false), "observe");
    let obs = observe_reply(false, false, output(r#"{"width":3,"height":4}"#)).unwrap();
    assert!(obs.screenshot.is_none());
    assert!(obs.accessibility_tree.is_none());
    assert!(obs.active_window_title.is_none());
    assert_eq!((obs.width, obs.height), (3, 4));
    assert!(platform(read_observe("nothing").unwrap_err()).starts_with("parsing observe output: "));
    assert!(read_observe(r#"{"width":"wide"}"#).is_err());
}

#[test]
fn a_screenshot_that_is_no_base64_is_left_out() {
    let doc = ObserveDoc {
        title: None,
        url: Some("u".to_string()),
        width: 1,
        height: 2,
        outline: None,
        screenshot_b64: Some("!".to_string()),
    };
    let obs = observation(doc, true);
    assert!(obs.screenshot.is_none());
}

#[test]
fn the_command_can_be_replaced() {
    let browser = E2bComputerUse::new().with_command("/opt/ctl");
    assert_eq!(browser.command_line("observe"), "/opt/ctl observe");
    assert_eq!(browser.platform(), "e2b-browser");
}
