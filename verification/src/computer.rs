//! A browser inside a sandbox, driven by the command line `browserctl`.
//!
//! - `browserctl observe [--screenshot]` prints one JSON object with `title`, `url`,
//!   `width`, `height`, `outline` and `screenshot_b64`.
//! - `browserctl <verb> <args>` acts: `navigate <url>`, `click <x> <y> [button]`,
//!   `dblclick <x> <y>`, `move <x> <y>`, `scroll <x> <y> <dx> <dy>`,
//!   `drag <x1> <y1> <x2> <y2>`, `type <text>`, `key <chord>`, `wait <ms>`. Exit code
//!   zero is success, and standard output tells what happened.

use vstd::prelude::*;
use vstd::string::*;

use crate::bridge::CommandOutput;
use crate::codec::{base64_padded, decode_padded, trim_text, trimmed};
use crate::document::{opt_text_from, opt_text_in};
use crate::json::{Json, JsonView};
use crate::text::{
    chars_of, concat2, concat3, concat4, decimal, decimal_text, opt_text, signed_decimal,
    signed_decimal_text,
};
use crate::wire::json_parsed;

verus! {

/// The command that drives the browser unless another is given.
pub const DEFAULT_BROWSER_CMD: &'static str = "browserctl";

/// Why an action or an observation failed.
#[derive(Debug, PartialEq, Eq)]
pub enum ComputerUseError {
    /// The browser or its command failed.
    Platform(String),
    /// The action is none that the browser takes.
    InvalidAction(String),
}

/// A mouse button.
#[derive(Clone, Copy, Debug, PartialEq, Eq, Structural)]
pub enum MouseButton {
    /// The left button.
    Left,
    /// The right button.
    Right,
    /// The middle button.
    Middle,
}

impl MouseButton {
    /// The name of a button on the command line.
    pub open spec fn name(self) -> Seq<char> {
        match self {
            MouseButton::Left => "left"@,
            MouseButton::Right => "right"@,
            MouseButton::Middle => "middle"@,
        }
    }
}

/// The name of a button on the command line.
pub fn button_name(button: MouseButton) -> (r: &'static str)
    ensures
        r@ == button.name(),
{
    match button {
        MouseButton::Left => "left",
        MouseButton::Right => "right",
        MouseButton::Middle => "middle",
    }
}

/// An action of an agent. Coordinates are whole pixels.
#[derive(Debug)]
pub enum ComputerAction {
    /// Click at a point.
    Click {
        /// From the left.
        x: i64,
        /// From the top.
        y: i64,
        /// The button.
        button: MouseButton,
    },
    /// Double-click at a point.
    DoubleClick {
        /// From the left.
        x: i64,
        /// From the top.
        y: i64,
    },
    /// Click with the right button at a point.
    RightClick {
        /// From the left.
        x: i64,
        /// From the top.
        y: i64,
    },
    /// Move the cursor to a point.
    MoveCursor {
        /// From the left.
        x: i64,
        /// From the top.
        y: i64,
    },
    /// Scroll at a point.
    Scroll {
        /// From the left.
        x: i64,
        /// From the top.
        y: i64,
        /// To the right.
        dx: i64,
        /// Down.
        dy: i64,
    },
    /// Drag from one point to another.
    Drag {
        /// The start, from the left.
        from_x: i64,
        /// The start, from the top.
        from_y: i64,
        /// The end, from the left.
        to_x: i64,
        /// The end, from the top.
        to_y: i64,
    },
    /// Type a text.
    TypeText {
        /// The text.
        text: String,
    },
    /// Press keys together.
    KeyChord {
        /// The keys.
        keys: Vec<String>,
    },
    /// Wait.
    Wait {
        /// For how many milliseconds.
        millis: u64,
    },
    /// Open an application: here, go to a URL.
    OpenApp {
        /// The URL.
        name: String,
    },
    /// Press an element of the accessibility tree.
    AxPress,
    /// Set the value of an element of the accessibility tree.
    AxSetValue,
    /// Look at the screen.
    Observe,
    /// Take a screenshot.
    Screenshot,
}

// ---- quoting -------------------------------------------------------------------

/// The characters that stand for `c` between single quotes of a shell: a single quote
/// closes the quotes, is escaped, and opens them again.
pub open spec fn quoted_char(c: char) -> Seq<char> {
    if c == '\'' {
        "'\\''"@
    } else {
        seq![c]
    }
}

/// The characters that stand for a text between single quotes of a shell.
pub open spec fn quoted_body(s: Seq<char>) -> Seq<char>
    decreases s.len(),
{
    if s.len() == 0 {
        Seq::empty()
    } else {
        quoted_body(s.drop_last()) + quoted_char(s.last())
    }
}

/// A text as one word of a shell command.
pub open spec fn quoted(s: Seq<char>) -> Seq<char> {
    "'"@ + quoted_body(s) + "'"@
}

/// A text as one word of a shell command.
pub fn shell_quote(s: &str) -> (r: String)
    ensures
        r@ == quoted(s@),
{
    let chars: Vec<char> = chars_of(s);
    let mut body: String = String::new();
    let mut i: usize = 0;
    proof {
        assert(s@.take(0) =~= Seq::<char>::empty());
    }
    while i < chars.len()
        invariant
            i <= chars@.len(),
            chars@ == s@,
            body@ == quoted_body(s@.take(i as int)),
        decreases chars@.len() - i,
    {
        let c: char = chars[i];
        proof {
            assert(s@.take(i + 1).drop_last() =~= s@.take(i as int));
        }
        let ghost before = body@;
        if c == '\'' {
            body.append("'\\''");
        } else {
            body.push(c);
            proof {
                assert(body@ =~= before + seq![c]);
            }
        }
        i = i + 1;
    }
    proof {
        assert(s@.take(s@.len() as int) =~= s@);
    }
    concat3("'", body.as_str(), "'")
}

/// Whether a character has no meaning to a shell: it is a letter or a digit of ASCII, or one
/// of `-`, `_`, `.` and `/`.
pub open spec fn plain(c: char) -> bool {
    ||| 'a' <= c <= 'z'
    ||| 'A' <= c <= 'Z'
    ||| '0' <= c <= '9'
    ||| c == '-' || c == '_' || c == '.' || c == '/'
}

/// How a shell reads a text that is one word: outside of quotes a single quote opens them, a
/// backslash takes the next character as it is, and a plain character stands for itself;
/// inside of them a single quote closes them and any other character stands for itself.
/// `None` where the text ends inside of quotes or behind a backslash, has a line break
/// behind one, or has another character outside of quotes, as that may end the word or be
/// replaced.
pub open spec fn shell_word(s: Seq<char>, inside: bool) -> Option<Seq<char>>
    decreases s.len(),
{
    if s.len() == 0 {
        if inside {
            None
        } else {
            Some(Seq::empty())
        }
    } else if s[0] == '\'' {
        shell_word(s.skip(1), !inside)
    } else if s[0] == '\\' && !inside {
        if s.len() < 2 || s[1] == '\n' {
            None
        } else {
            match shell_word(s.skip(2), inside) {
                Some(rest) => Some(seq![s[1]] + rest),
                None => None,
            }
        }
    } else if !inside && !plain(s[0]) {
        None
    } else {
        match shell_word(s.skip(1), inside) {
            Some(rest) => Some(seq![s[0]] + rest),
            None => None,
        }
    }
}

proof fn lemma_quoted_read(s: Seq<char>, tail: Seq<char>)
    ensures
        shell_word(quoted_body(s) + tail, true) == (match shell_word(tail, true) {
            Some(rest) => Some(s + rest),
            None => None,
        }),
    decreases s.len(),
{
    if s.len() == 0 {
        assert(quoted_body(s) + tail =~= tail);
        if let Some(rest) = shell_word(tail, true) {
            assert(s + rest =~= rest);
        }
    } else {
        let front = s.drop_last();
        let c = s.last();
        let more = quoted_char(c) + tail;
        lemma_quoted_read(front, more);
        assert(quoted_body(s) + tail =~= quoted_body(front) + more);
        reveal_strlit("'\\''");
        if c == '\'' {
            assert(more[0] == '\'' && more[1] == '\\' && more[2] == '\'' && more[3] == '\'');
            let a = more.skip(1);
            assert(a[0] == '\\' && a[1] == '\'');
            let b = a.skip(2);
            assert(b[0] == '\'');
            assert(b.skip(1) =~= tail);
            assert(shell_word(b, false) == shell_word(tail, true));
            assert(shell_word(a, false) == (match shell_word(b, false) {
                Some(rest) => Some(seq!['\''] + rest),
                None => None,
            }));
            assert(shell_word(more, true) == shell_word(a, false));
        } else {
            assert(more[0] == c);
            assert(more.skip(1) =~= tail);
        }
        if let Some(rest) = shell_word(tail, true) {
            assert(front + (seq![c] + rest) =~= s + rest);
        }
    }
}

/// Quoting is faithful: a shell reads a quoted text as one word, which is that text.
pub proof fn a_shell_reads_a_quoted_text_as_the_text(s: Seq<char>)
    ensures
        shell_word(quoted(s), false) == Some(s),
{
    reveal_strlit("'");
    let word = quoted(s);
    let inner = quoted_body(s) + "'"@;
    assert(word[0] == '\'');
    assert(word.skip(1) =~= inner);
    lemma_quoted_read(s, "'"@);
    assert("'"@.skip(1) =~= Seq::empty());
    assert(shell_word(Seq::<char>::empty(), false) == Some(Seq::<char>::empty()));
    assert(shell_word("'"@, true) == Some(Seq::<char>::empty()));
    assert(s + Seq::<char>::empty() =~= s);
}

// ---- acting --------------------------------------------------------------------

/// Texts put together with `+` between them.
pub open spec fn chord(keys: Seq<String>) -> Seq<char>
    decreases keys.len(),
{
    if keys.len() == 0 {
        Seq::empty()
    } else if keys.len() == 1 {
        keys[0]@
    } else {
        chord(keys.drop_last()) + "+"@ + keys.last()@
    }
}

fn chord_text(keys: &Vec<String>) -> (r: String)
    ensures
        r@ == chord(keys@),
{
    if keys.len() == 0 {
        return String::new();
    }
    let mut text: String = keys[0].clone();
    let mut i: usize = 1;
    proof {
        assert(keys@.take(1)[0] == keys@[0]);
    }
    while i < keys.len()
        invariant
            1 <= i <= keys@.len(),
            text@ == chord(keys@.take(i as int)),
        decreases keys@.len() - i,
    {
        proof {
            assert(keys@.take(i + 1).drop_last() =~= keys@.take(i as int));
        }
        text.append("+");
        text.append(keys[i].as_str());
        i = i + 1;
    }
    proof {
        assert(keys@.take(keys@.len() as int) =~= keys@);
    }
    text
}

/// A verb with two coordinates.
pub open spec fn at_point(verb: Seq<char>, x: int, y: int) -> Seq<char> {
    verb + " "@ + signed_decimal(x) + " "@ + signed_decimal(y)
}

fn at_point_text(verb: &str, x: i64, y: i64) -> (r: String)
    ensures
        r@ == at_point(verb@, x as int, y as int),
{
    let head: String = concat4(verb, " ", signed_decimal_text(x).as_str(), " ");
    concat2(head.as_str(), signed_decimal_text(y).as_str())
}

/// The arguments that an action is on the command line; `None` for an action that the
/// browser does not take.
pub open spec fn browser_args(action: ComputerAction) -> Option<Seq<char>> {
    match action {
        ComputerAction::Click { x, y, button } => Some(
            at_point("click"@, x as int, y as int) + " "@ + button.name(),
        ),
        ComputerAction::DoubleClick { x, y } => Some(at_point("dblclick"@, x as int, y as int)),
        ComputerAction::RightClick { x, y } => Some(
            at_point("click"@, x as int, y as int) + " right"@,
        ),
        ComputerAction::MoveCursor { x, y } => Some(at_point("move"@, x as int, y as int)),
        ComputerAction::Scroll { x, y, dx, dy } => Some(
            at_point(at_point("scroll"@, x as int, y as int), dx as int, dy as int),
        ),
        ComputerAction::Drag { from_x, from_y, to_x, to_y } => Some(
            at_point(at_point("drag"@, from_x as int, from_y as int), to_x as int, to_y as int),
        ),
        ComputerAction::TypeText { text } => Some("type "@ + quoted(text@)),
        ComputerAction::KeyChord { keys } => Some("key "@ + quoted(chord(keys@))),
        ComputerAction::Wait { millis } => Some("wait "@ + decimal(millis as nat)),
        ComputerAction::OpenApp { name } => Some("navigate "@ + quoted(name@)),
        _ => None,
    }
}

/// Why actions on the accessibility tree are refused.
pub const NO_ACCESSIBILITY: &'static str = "accessibility-path actions aren't supported by the browser backend; click/type at coordinates from the screenshot instead";

/// Why looking at the screen is refused as an action.
pub const NO_OBSERVATION: &'static str = "observe/screenshot are not applied via act";

/// Why an action that the browser does not take is refused.
pub open spec fn refusal(action: ComputerAction) -> Seq<char> {
    if action is AxPress || action is AxSetValue {
        NO_ACCESSIBILITY@
    } else {
        NO_OBSERVATION@
    }
}

/// The arguments that an action is on the command line. Actions on the accessibility
/// tree, and looking at the screen, are none that the browser takes.
pub fn action_args(action: &ComputerAction) -> (r: Result<String, ComputerUseError>)
    ensures
        match browser_args(*action) {
            Some(args) => r matches Ok(text) && text@ == args,
            None => r matches Err(ComputerUseError::InvalidAction(message)) && message@
                == refusal(*action),
        },
{
    match action {
        ComputerAction::Click { x, y, button } => Ok(
            concat3(at_point_text("click", *x, *y).as_str(), " ", button_name(*button)),
        ),
        ComputerAction::DoubleClick { x, y } => Ok(at_point_text("dblclick", *x, *y)),
        ComputerAction::RightClick { x, y } => Ok(
            concat2(at_point_text("click", *x, *y).as_str(), " right"),
        ),
        ComputerAction::MoveCursor { x, y } => Ok(at_point_text("move", *x, *y)),
        ComputerAction::Scroll { x, y, dx, dy } => Ok(
            at_point_text(at_point_text("scroll", *x, *y).as_str(), *dx, *dy),
        ),
        ComputerAction::Drag { from_x, from_y, to_x, to_y } => Ok(
            at_point_text(at_point_text("drag", *from_x, *from_y).as_str(), *to_x, *to_y),
        ),
        ComputerAction::TypeText { text } => Ok(
            concat2("type ", shell_quote(text.as_str()).as_str()),
        ),
        ComputerAction::KeyChord { keys } => Ok(
            concat2("key ", shell_quote(chord_text(keys).as_str()).as_str()),
        ),
        ComputerAction::Wait { millis } => Ok(
            concat2("wait ", decimal_text(*millis as u128).as_str()),
        ),
        ComputerAction::OpenApp { name } => Ok(
            concat2("navigate ", shell_quote(name.as_str()).as_str()),
        ),
        ComputerAction::AxPress | ComputerAction::AxSetValue => Err(
            ComputerUseError::InvalidAction(
                NO_ACCESSIBILITY.to_owned(),
            ),
        ),
        ComputerAction::Observe | ComputerAction::Screenshot => Err(
            ComputerUseError::InvalidAction(
                NO_OBSERVATION.to_owned(),
            ),
        ),
    }
}

/// The browser of a sandbox, by the command that drives it.
#[derive(Debug)]
pub struct E2bComputerUse {
    /// The command.
    pub cmd: String,
}

impl E2bComputerUse {
    /// A browser driven by the default command.
    pub fn new() -> (r: E2bComputerUse)
        ensures
            r.cmd@ == DEFAULT_BROWSER_CMD@,
    {
        E2bComputerUse { cmd: DEFAULT_BROWSER_CMD.to_owned() }
    }

    /// Sets the command.
    pub fn with_command(self, cmd: &str) -> (r: E2bComputerUse)
        ensures
            r.cmd@ == cmd@,
    {
        E2bComputerUse { cmd: cmd.to_owned() }
    }

    /// The command line with the given arguments.
    pub fn command_line(&self, args: &str) -> (r: String)
        ensures
            r@ == self.cmd@ + " "@ + args@,
    {
        concat3(self.cmd.as_str(), " ", args)
    }

    /// The name of the platform.
    pub fn platform(&self) -> (r: &'static str)
        ensures
            r@ == "e2b-browser"@,
    {
        "e2b-browser"
    }
}

/// What a run of the command gives: its standard output, or the message of the error where
/// it could not be run or its exit code is not zero.
pub open spec fn run_outcome(args: Seq<char>, run: Result<CommandOutput, String>) -> Result<
    Seq<char>,
    Seq<char>,
> {
    match run {
        Err(e) => Err(e@),
        Ok(output) => if output.exit_code == 0 {
            Ok(output.stdout@)
        } else {
            Err(
                "browserctl "@ + args + " (exit "@ + signed_decimal(output.exit_code as int)
                    + "): "@ + output.stderr@,
            )
        },
    }
}

/// What a run of the command gives.
pub fn run_reply(args: &str, run: Result<CommandOutput, String>) -> (r: Result<
    String,
    ComputerUseError,
>)
    ensures
        match run_outcome(args@, run) {
            Ok(stdout) => r matches Ok(text) && text@ == stdout,
            Err(e) => r matches Err(ComputerUseError::Platform(message)) && message@ == e,
        },
{
    match run {
        Err(e) => Err(ComputerUseError::Platform(e)),
        Ok(output) => {
            if output.exit_code == 0 {
                Ok(output.stdout)
            } else {
                let head: String = concat3("browserctl ", args, " (exit ");
                let code: String = signed_decimal_text(output.exit_code as i64);
                Err(
                    ComputerUseError::Platform(
                        concat4(head.as_str(), code.as_str(), "): ", output.stderr.as_str()),
                    ),
                )
            }
        },
    }
}

/// What an action is answered: the standard output of its command, without the white
/// space at its ends.
pub fn act_reply(args: &str, run: Result<CommandOutput, String>) -> (r: Result<
    String,
    ComputerUseError,
>)
    ensures
        match run_outcome(args@, run) {
            Ok(stdout) => r matches Ok(text) && text@ == trimmed(stdout),
            Err(e) => r matches Err(ComputerUseError::Platform(message)) && message@ == e,
        },
{
    match run_reply(args, run) {
        Ok(text) => Ok(trim_text(text.as_str())),
        Err(e) => Err(e),
    }
}

// ---- observing -----------------------------------------------------------------

/// The arguments that look at the screen.
pub fn observe_args(include_screenshot: bool) -> (r: &'static str)
    ensures
        r@ == (if include_screenshot {
            "observe --screenshot"@
        } else {
            "observe"@
        }),
{
    if include_screenshot {
        "observe --screenshot"
    } else {
        "observe"
    }
}

/// What `browserctl observe` prints.
#[derive(Debug)]
pub struct ObserveDoc {
    /// The page title.
    pub title: Option<String>,
    /// The page URL.
    pub url: Option<String>,
    /// The width of the view in pixels.
    pub width: u32,
    /// The height of the view in pixels.
    pub height: u32,
    /// The text outline of the page.
    pub outline: Option<String>,
    /// The screenshot in base64.
    pub screenshot_b64: Option<String>,
}

/// The model of an [`ObserveDoc`].
pub struct ObserveView {
    /// The page title.
    pub title: Option<Seq<char>>,
    /// The page URL.
    pub url: Option<Seq<char>>,
    /// The width of the view in pixels.
    pub width: u32,
    /// The height of the view in pixels.
    pub height: u32,
    /// The text outline of the page.
    pub outline: Option<Seq<char>>,
    /// The screenshot in base64.
    pub screenshot_b64: Option<Seq<char>>,
}

impl View for ObserveDoc {
    type V = ObserveView;

    open spec fn view(&self) -> ObserveView {
        ObserveView {
            title: opt_text(self.title),
            url: opt_text(self.url),
            width: self.width,
            height: self.height,
            outline: opt_text(self.outline),
            screenshot_b64: opt_text(self.screenshot_b64),
        }
    }
}

/// The number of pixels in the member `name`; zero where it is missing.
pub open spec fn pixels_in(doc: JsonView, name: Seq<char>) -> Option<u32> {
    match doc.member(name) {
        Some(value) => match value.count() {
            Some(n) => if n <= u32::MAX {
                Some(n as u32)
            } else {
                None
            },
            None => None,
        },
        None => Some(0),
    }
}

impl ObserveView {
    /// The observation that a document stands for.
    pub open spec fn of_doc(doc: JsonView) -> Option<ObserveView> {
        if doc is Object && opt_text_in(doc, "title"@) is Some && opt_text_in(doc, "url"@) is Some
            && pixels_in(doc, "width"@) is Some && pixels_in(doc, "height"@) is Some
            && opt_text_in(doc, "outline"@) is Some && opt_text_in(
            doc,
            "screenshot_b64"@,
        ) is Some {
            Some(
                ObserveView {
                    title: opt_text_in(doc, "title"@)->0,
                    url: opt_text_in(doc, "url"@)->0,
                    width: pixels_in(doc, "width"@)->0,
                    height: pixels_in(doc, "height"@)->0,
                    outline: opt_text_in(doc, "outline"@)->0,
                    screenshot_b64: opt_text_in(doc, "screenshot_b64"@)->0,
                },
            )
        } else {
            None
        }
    }
}

fn read_pixels(doc: &Json, name: &str) -> (r: Option<u32>)
    ensures
        r == pixels_in(doc@, name@),
{
    match doc.get(name) {
        Some(value) => match value.count() {
            Some(n) => if n <= 0xFFFF_FFFF {
                Some(n as u32)
            } else {
                None
            },
            None => None,
        },
        None => Some(0),
    }
}

/// The model of an observation that was read.
pub open spec fn opt_observe(doc: Option<ObserveDoc>) -> Option<ObserveView> {
    match doc {
        Some(doc) => Some(doc@),
        None => None,
    }
}

impl ObserveDoc {
    /// The observation that `doc` stands for.
    pub fn from_doc(doc: &Json) -> (r: Option<ObserveDoc>)
        ensures
            opt_observe(r) == ObserveView::of_doc(doc@),
    {
        if !doc.is_object() {
            return None;
        }
        match (
            opt_text_from(doc, "title"),
            opt_text_from(doc, "url"),
            read_pixels(doc, "width"),
            read_pixels(doc, "height"),
            opt_text_from(doc, "outline"),
            opt_text_from(doc, "screenshot_b64"),
        ) {
            (
                Some(title),
                Some(url),
                Some(width),
                Some(height),
                Some(outline),
                Some(screenshot_b64),
            ) => Some(ObserveDoc { title, url, width, height, outline, screenshot_b64 }),
            _ => None,
        }
    }
}

/// What the output of `browserctl observe` is read as, without the white space at its ends:
/// the observation, or the message of the error.
pub open spec fn observe_outcome(stdout: Seq<char>) -> Result<ObserveView, Seq<char>> {
    match json_parsed(vstd::utf8::encode_utf8(trimmed(stdout))) {
        Ok(doc) => match ObserveView::of_doc(doc) {
            Some(seen) => Ok(seen),
            None => Err("parsing observe output: not an observation"@),
        },
        Err(message) => Err("parsing observe output: "@ + message),
    }
}

/// What the output of `browserctl observe` is read as.
pub fn read_observe(stdout: &str) -> (r: Result<ObserveDoc, ComputerUseError>)
    ensures
        match observe_outcome(stdout@) {
            Ok(seen) => r matches Ok(doc) && doc@ == seen,
            Err(e) => r matches Err(ComputerUseError::Platform(message)) && message@ == e,
        },
{
    let text: String = trim_text(stdout);
    match Json::parse(text.as_str().as_bytes()) {
        Ok(doc) => match ObserveDoc::from_doc(&doc) {
            Some(seen) => Ok(seen),
            None => Err(
                ComputerUseError::Platform(
                    "parsing observe output: not an observation".to_owned(),
                ),
            ),
        },
        Err(message) => Err(
            ComputerUseError::Platform(concat2("parsing observe output: ", message.as_str())),
        ),
    }
}

/// A picture of the screen.
#[derive(Debug, PartialEq, Eq)]
pub struct Screenshot {
    /// The bytes of the picture.
    pub data: Vec<u8>,
    /// The media type.
    pub media_type: String,
    /// The width in pixels.
    pub width: u32,
    /// The height in pixels.
    pub height: u32,
}

/// The page as the one node of an accessibility tree: a web area that is enabled and
/// has the focus.
#[derive(Debug, PartialEq, Eq)]
pub struct PageNode {
    /// The path of the node.
    pub path: String,
    /// The role of the node.
    pub role: String,
    /// The URL of the page.
    pub title: Option<String>,
    /// The text outline of the page.
    pub value: String,
}

/// What was seen.
#[derive(Debug)]
pub struct Observation {
    /// The width of the view in pixels.
    pub width: u32,
    /// The height of the view in pixels.
    pub height: u32,
    /// The active application.
    pub active_app: String,
    /// The title of the active window.
    pub active_window_title: Option<String>,
    /// The accessibility tree, where it was asked for and there is one.
    pub accessibility_tree: Option<PageNode>,
    /// The screenshot, where there is one that can be decoded.
    pub screenshot: Option<Screenshot>,
}

/// Whether `seen` is what a printed observation means. A screenshot that is no base64 is
/// left out; the outline of the page is the accessibility tree, where it is asked for.
pub open spec fn sees(doc: ObserveView, include_tree: bool, seen: Observation) -> bool {
    &&& seen.width == doc.width
    &&& seen.height == doc.height
    &&& seen.active_app@ == "browser"@
    &&& opt_text(seen.active_window_title) == doc.title
    &&& match seen.accessibility_tree {
        Some(node) => {
            &&& include_tree
            &&& doc.outline == Some(node.value@)
            &&& opt_text(node.title) == doc.url
            &&& node.path@ == "0"@
            &&& node.role@ == "WebArea"@
        },
        None => !include_tree || doc.outline is None,
    }
    &&& match seen.screenshot {
        Some(shot) => {
            &&& doc.screenshot_b64 is Some
            &&& base64_padded(doc.screenshot_b64->0) == Ok::<Seq<u8>, Seq<char>>(shot.data@)
            &&& shot.media_type@ == "image/png"@
            &&& shot.width == doc.width
            &&& shot.height == doc.height
        },
        None => doc.screenshot_b64 is None || base64_padded(doc.screenshot_b64->0) is Err,
    }
}

/// What a printed observation means.
pub fn observation(doc: ObserveDoc, include_tree: bool) -> (r: Observation)
    ensures
        sees(doc@, include_tree, r),
{
    let screenshot: Option<Screenshot> = match &doc.screenshot_b64 {
        Some(text) => match decode_padded(text.as_str()) {
            Ok(data) => Some(
                Screenshot {
                    data,
                    media_type: "image/png".to_owned(),
                    width: doc.width,
                    height: doc.height,
                },
            ),
            Err(_) => None,
        },
        None => None,
    };
    let accessibility_tree: Option<PageNode> = if include_tree {
        match doc.outline {
            Some(outline) => Some(
                PageNode {
                    path: "0".to_owned(),
                    role: "WebArea".to_owned(),
                    title: doc.url,
                    value: outline,
                },
            ),
            None => None,
        }
    } else {
        None
    };
    Observation {
        width: doc.width,
        height: doc.height,
        active_app: "browser".to_owned(),
        active_window_title: doc.title,
        accessibility_tree,
        screenshot,
    }
}

/// What a look at the screen gives: `run` is what came of the command with the arguments of
/// [`observe_args`].
pub fn observe_reply(
    include_screenshot: bool,
    include_tree: bool,
    run: Result<CommandOutput, String>,
) -> (r: Result<Observation, ComputerUseError>)
    ensures
        ({
            let args = if include_screenshot {
                "observe --screenshot"@
            } else {
                "observe"@
            };
            let outcome = match run_outcome(args, run) {
                Ok(stdout) => observe_outcome(stdout),
                Err(e) => Err(e),
            };
            match outcome {
                Ok(doc) => r matches Ok(seen) && sees(doc, include_tree, seen),
                Err(e) => r matches Err(ComputerUseError::Platform(message)) && message@ == e,
            }
        }),
{
    match run_reply(observe_args(include_screenshot), run) {
        Ok(stdout) => match read_observe(stdout.as_str()) {
            Ok(doc) => Ok(observation(doc, include_tree)),
            Err(e) => Err(e),
        },
        Err(e) => Err(e),
    }
}

} // verus!
