//! What driving a browser promises.

use vstd::prelude::*;

use crate::bridge::CommandOutput;
use crate::codec::{base64_padded, trimmed, white};
use crate::computer::{
    browser_args, chord, observe_outcome, quoted, run_outcome, sees, shell_word, ComputerAction,
    MouseButton, Observation, ObserveView,
};
use crate::json::{JsonView, NumberView};
use crate::text::{decimal, opt_text, signed_decimal};
use crate::wire::json_parsed;

verus! {

/// Whether a command says `verb` and then the point, its distance from the left before its
/// distance from the top.
pub open spec fn points_at(args: Seq<char>, verb: Seq<char>, x: i64, y: i64) -> bool {
    (verb + " "@ + signed_decimal(x as int) + " "@ + signed_decimal(y as int)).is_prefix_of(args)
}

/// An action at a point names that point, and what else it takes stands behind: the button of a
/// click, how far to scroll, where to drag.
pub proof fn an_action_names_its_point(
    x: i64,
    y: i64,
    to_x: i64,
    to_y: i64,
    button: MouseButton,
)
    ensures
        browser_args(ComputerAction::Click { x, y, button }) matches Some(args) && points_at(
            args,
            "click"@,
            x,
            y,
        ) && (button is Left ==> args.skip(args.len() - 5) == " left"@) && (button is Right
            ==> args.skip(args.len() - 6) == " right"@) && (button is Middle ==> args.skip(
            args.len() - 7,
        ) == " middle"@),
        browser_args(ComputerAction::DoubleClick { x, y }) matches Some(args) && points_at(
            args,
            "dblclick"@,
            x,
            y,
        ),
        browser_args(ComputerAction::MoveCursor { x, y }) matches Some(args) && points_at(
            args,
            "move"@,
            x,
            y,
        ),
        browser_args(ComputerAction::Scroll { x, y, dx: to_x, dy: to_y }) matches Some(args)
            && points_at(args, "scroll"@, x, y) && points_at(
            args,
            "scroll"@ + " "@ + signed_decimal(x as int) + " "@ + signed_decimal(y as int),
            to_x,
            to_y,
        ),
        browser_args(ComputerAction::Drag { from_x: x, from_y: y, to_x, to_y }) matches Some(args)
            && points_at(args, "drag"@, x, y) && points_at(
            args,
            "drag"@ + " "@ + signed_decimal(x as int) + " "@ + signed_decimal(y as int),
            to_x,
            to_y,
        ),
{
    reveal_strlit(" left");
    reveal_strlit(" right");
    reveal_strlit(" middle");
    reveal_strlit("left");
    reveal_strlit("right");
    reveal_strlit("middle");
    reveal_strlit(" ");
    let args = browser_args(ComputerAction::Click { x, y, button })->0;
    let point = "click"@ + " "@ + signed_decimal(x as int) + " "@ + signed_decimal(y as int);
    assert(args =~= point + (" "@ + button.name()));
    assert(args.take(point.len() as int) =~= point);
    if button is Left {
        assert(args.skip(args.len() - 5) =~= " left"@);
    } else if button is Right {
        assert(args.skip(args.len() - 6) =~= " right"@);
    } else {
        assert(args.skip(args.len() - 7) =~= " middle"@);
    }
    let scroll = browser_args(ComputerAction::Scroll { x, y, dx: to_x, dy: to_y })->0;
    let at = "scroll"@ + " "@ + signed_decimal(x as int) + " "@ + signed_decimal(y as int);
    assert(scroll =~= at + (" "@ + signed_decimal(to_x as int) + " "@ + signed_decimal(
        to_y as int,
    )));
    assert(scroll.take(at.len() as int) =~= at);
    assert(scroll.take(scroll.len() as int) =~= scroll);
    let drag = browser_args(ComputerAction::Drag { from_x: x, from_y: y, to_x, to_y })->0;
    let from = "drag"@ + " "@ + signed_decimal(x as int) + " "@ + signed_decimal(y as int);
    assert(drag =~= from + (" "@ + signed_decimal(to_x as int) + " "@ + signed_decimal(
        to_y as int,
    )));
    assert(drag.take(from.len() as int) =~= from);
    assert(drag.take(drag.len() as int) =~= drag);
    let double = browser_args(ComputerAction::DoubleClick { x, y })->0;
    assert(double.take(double.len() as int) =~= double);
    let moved = browser_args(ComputerAction::MoveCursor { x, y })->0;
    assert(moved.take(moved.len() as int) =~= moved);
}

/// A right click is a click with the right button.
pub proof fn a_right_click_is_a_click_with_the_right_button(x: i64, y: i64)
    ensures
        browser_args(ComputerAction::RightClick { x, y }) == browser_args(
            ComputerAction::Click { x, y, button: MouseButton::Right },
        ),
{
    reveal_strlit(" right");
    reveal_strlit("right");
    reveal_strlit(" ");
    assert(" right"@ =~= " "@ + "right"@);
    let a = browser_args(ComputerAction::RightClick { x, y })->0;
    let b = browser_args(ComputerAction::Click { x, y, button: MouseButton::Right })->0;
    assert(a =~= b);
}

/// A text is typed as it is, whatever characters it has: the shell hands it on as one word. So
/// are the keys of a chord, and the place that is opened.
pub proof fn a_text_is_typed_as_it_is(text: String, keys: Vec<String>)
    ensures
        browser_args(ComputerAction::TypeText { text }) matches Some(args) && "type "@.is_prefix_of(
            args,
        ) && shell_word(args.skip(5), false) == Some(text@),
        browser_args(ComputerAction::OpenApp { name: text }) matches Some(args)
            && "navigate "@.is_prefix_of(args) && shell_word(args.skip(9), false) == Some(text@),
        browser_args(ComputerAction::KeyChord { keys }) matches Some(args) && "key "@.is_prefix_of(
            args,
        ) && shell_word(args.skip(4), false) == Some(chord(keys@)),
{
    reveal_strlit("type ");
    reveal_strlit("navigate ");
    reveal_strlit("key ");
    crate::computer::a_shell_reads_a_quoted_text_as_the_text(text@);
    crate::computer::a_shell_reads_a_quoted_text_as_the_text(chord(keys@));
    let typed = "type "@ + quoted(text@);
    assert(typed.skip(5) =~= quoted(text@));
    assert(typed.take(5) =~= "type "@);
    let opened = "navigate "@ + quoted(text@);
    assert(opened.skip(9) =~= quoted(text@));
    assert(opened.take(9) =~= "navigate "@);
    let pressed = "key "@ + quoted(chord(keys@));
    assert(pressed.skip(4) =~= quoted(chord(keys@)));
    assert(pressed.take(4) =~= "key "@);
}

/// The keys of a chord stand in their order, with a plus sign between two.
pub proof fn the_keys_of_a_chord_stand_in_order(keys: Seq<String>, key: String)
    ensures
        chord(Seq::<String>::empty()) == Seq::<char>::empty(),
        chord(seq![key]) == key@,
        keys.len() > 0 ==> chord(keys.push(key)) == chord(keys) + "+"@ + key@,
{
    assert(keys.push(key).drop_last() =~= keys);
}

/// A wait lasts for as many milliseconds as it says; looking at the screen and the actions of
/// the accessibility tree are refused.
pub proof fn a_wait_says_how_long(millis: u64)
    ensures
        browser_args(ComputerAction::Wait { millis }) == Some("wait "@ + decimal(millis as nat)),
        browser_args(ComputerAction::AxPress) is None,
        browser_args(ComputerAction::AxSetValue) is None,
        browser_args(ComputerAction::Observe) is None,
        browser_args(ComputerAction::Screenshot) is None,
{
}

/// A command that ends with zero gives its standard output; any other end is an error that
/// tells the command, the code and the standard error; a command that could not be run is its
/// own error.
pub proof fn a_command_succeeds_with_zero(args: Seq<char>, run: Result<CommandOutput, String>)
    ensures
        run_outcome(args, run) is Ok <==> (run matches Ok(output) && output.exit_code == 0),
        run matches Ok(output) ==> (output.exit_code == 0 ==> run_outcome(args, run) == Ok::<
            Seq<char>,
            Seq<char>,
        >(output.stdout@)),
        run matches Ok(output) ==> (output.exit_code != 0 ==> run_outcome(args, run) == Err::<
            Seq<char>,
            Seq<char>,
        >(
            "browserctl "@ + args + " (exit "@ + signed_decimal(output.exit_code as int) + "): "@
                + output.stderr@,
        )),
        run matches Err(message) ==> run_outcome(args, run) == Err::<Seq<char>, Seq<char>>(
            message@,
        ),
{
}

/// What was seen is what the command's output says: the title, the address, the size of the
/// screen, the outline and the screenshot, each from the member of its name.
pub proof fn what_was_seen_is_what_the_output_says(stdout: Seq<char>, seen: ObserveView)
    requires
        observe_outcome(stdout) == Ok::<ObserveView, Seq<char>>(seen),
    ensures
        json_parsed(vstd::utf8::encode_utf8(trimmed(stdout))) matches Ok(doc) && {
            &&& seen.title matches Some(text) ==> doc.member("title"@) == Some(
                JsonView::String(text),
            )
            &&& seen.title is None ==> doc.given("title"@) is None
            &&& seen.url matches Some(text) ==> doc.member("url"@) == Some(JsonView::String(text))
            &&& seen.url is None ==> doc.given("url"@) is None
            &&& doc.member("width"@) matches Some(JsonView::Number(NumberView::Unsigned(n)))
                ==> seen.width == n
            &&& doc.member("width"@) is None ==> seen.width == 0
            &&& doc.member("height"@) matches Some(JsonView::Number(NumberView::Unsigned(n)))
                ==> seen.height == n
            &&& doc.member("height"@) is None ==> seen.height == 0
            &&& seen.outline matches Some(text) ==> doc.member("outline"@) == Some(
                JsonView::String(text),
            )
            &&& seen.outline is None ==> doc.given("outline"@) is None
            &&& seen.screenshot_b64 matches Some(text) ==> doc.member("screenshot_b64"@) == Some(
                JsonView::String(text),
            )
            &&& seen.screenshot_b64 is None ==> doc.given("screenshot_b64"@) is None
        },
{
}

/// Whether a member is missing, `null` or a text.
pub open spec fn no_other_than_text(doc: JsonView, name: Seq<char>) -> bool {
    match doc.member(name) {
        Some(value) => value is Null || value is String,
        None => true,
    }
}

/// Whether a member is missing or a number of 32 bits.
pub open spec fn no_other_than_pixels(doc: JsonView, name: Seq<char>) -> bool {
    match doc.member(name) {
        Some(value) => value matches JsonView::Number(NumberView::Unsigned(n)) && n <= u32::MAX,
        None => true,
    }
}

/// The output of a command is an observation exactly where it is an object whose members, as
/// far as they are there, are texts and numbers.
pub proof fn an_output_is_an_observation_where_its_members_fit(stdout: Seq<char>)
    ensures
        observe_outcome(stdout) is Ok <==> (json_parsed(
            vstd::utf8::encode_utf8(trimmed(stdout)),
        ) matches Ok(doc) && {
            &&& doc is Object
            &&& no_other_than_text(doc, "title"@)
            &&& no_other_than_text(doc, "url"@)
            &&& no_other_than_text(doc, "outline"@)
            &&& no_other_than_text(doc, "screenshot_b64"@)
            &&& no_other_than_pixels(doc, "width"@)
            &&& no_other_than_pixels(doc, "height"@)
        }),
{
}

/// An observation tells what was seen: the size, the window's title, the tree where it was
/// asked for and there is one, and the screenshot where there is one that can be decoded.
pub proof fn an_observation_tells_what_was_seen(
    doc: ObserveView,
    include_tree: bool,
    seen: Observation,
)
    requires
        sees(doc, include_tree, seen),
    ensures
        seen.width == doc.width,
        seen.height == doc.height,
        seen.active_app@ == "browser"@,
        seen.accessibility_tree matches Some(node) ==> node.role@ == "WebArea"@ && node.path@
            == "0"@,
        seen.screenshot matches Some(shot) ==> shot.media_type@ == "image/png"@,
        opt_text(seen.active_window_title) == doc.title,
        seen.accessibility_tree is Some <==> include_tree && doc.outline is Some,
        seen.accessibility_tree matches Some(node) ==> doc.outline == Some(node.value@)
            && opt_text(node.title) == doc.url,
        seen.screenshot is Some <==> (doc.screenshot_b64 matches Some(text) && base64_padded(
            text,
        ) is Ok),
        seen.screenshot matches Some(shot) ==> (doc.screenshot_b64 matches Some(text)
            && base64_padded(text) == Ok::<Seq<u8>, Seq<char>>(shot.data@)) && shot.width
            == doc.width && shot.height == doc.height,
{
}

/// Trimming cuts white space at both ends and nothing else: what is left is a piece of the text
/// that neither begins nor ends with white space, and all that was cut is white.
pub proof fn trimming_cuts_white_space_at_the_ends(s: Seq<char>)
    ensures
        exists|a: int, b: int|
            #![trigger s.subrange(a, b)]
            {
                &&& 0 <= a <= b <= s.len()
                &&& trimmed(s) == s.subrange(a, b)
                &&& forall|i: int| 0 <= i < a || b <= i < s.len() ==> white(#[trigger] s[i])
            },
        trimmed(s).len() > 0 ==> !white(trimmed(s)[0]) && !white(trimmed(s).last()),
{
    lemma_trimmed_start(s);
    let rest = crate::codec::trimmed_start(s);
    let a = s.len() - rest.len();
    lemma_trimmed_end(rest);
    let b = a + trimmed(s).len();
    assert(s.subrange(a, b) =~= trimmed(s));
    assert forall|i: int| 0 <= i < a || b <= i < s.len() implies white(#[trigger] s[i]) by {
        if i >= b {
            assert(s[i] == rest[i - a]);
        }
    }
    if trimmed(s).len() > 0 {
        assert(trimmed(s)[0] == rest[0]);
    }
}

proof fn lemma_trimmed_start(s: Seq<char>)
    ensures
        ({
            let rest = crate::codec::trimmed_start(s);
            &&& rest.len() <= s.len()
            &&& rest == s.skip(s.len() - rest.len())
            &&& forall|i: int| 0 <= i < s.len() - rest.len() ==> white(#[trigger] s[i])
            &&& rest.len() > 0 ==> !white(rest[0])
        }),
    decreases s.len(),
{
    let rest = crate::codec::trimmed_start(s);
    if s.len() > 0 && white(s[0]) {
        lemma_trimmed_start(s.skip(1));
        assert(rest =~= s.skip(s.len() - rest.len()));
        assert forall|i: int| 0 <= i < s.len() - rest.len() implies white(#[trigger] s[i]) by {
            if i > 0 {
                assert(s[i] == s.skip(1)[i - 1]);
            }
        }
    } else {
        assert(s.skip(0) =~= s);
    }
}

proof fn lemma_trimmed_end(s: Seq<char>)
    ensures
        ({
            let rest = crate::codec::trimmed_end(s);
            &&& rest.len() <= s.len()
            &&& rest == s.take(rest.len() as int)
            &&& forall|i: int| rest.len() <= i < s.len() ==> white(#[trigger] s[i])
            &&& rest.len() > 0 ==> !white(rest.last())
        }),
    decreases s.len(),
{
    let rest = crate::codec::trimmed_end(s);
    if s.len() > 0 && white(s.last()) {
        lemma_trimmed_end(s.drop_last());
        assert(rest =~= s.take(rest.len() as int));
        assert forall|i: int| rest.len() <= i < s.len() implies white(#[trigger] s[i]) by {
            if i < s.len() - 1 {
                assert(s[i] == s.drop_last()[i]);
            }
        }
    } else {
        assert(s.take(s.len() as int) =~= s);
    }
}

/// The blank, the tabulator and the ends of lines are white; letters, digits and signs of
/// ASCII are not.
pub proof fn blanks_are_white(c: char)
    ensures
        c == ' ' || c == '\t' || c == '\n' || c == '\r' ==> white(c),
        '!' <= c <= '~' ==> !white(c),
{
}

/// A number is written with its digits, without leading zeros, and with a minus sign where it
/// is negative.
pub proof fn a_number_is_written_with_its_digits(n: nat)
    ensures
        crate::digits::digits_value(decimal(n)) == n,
        forall|i: int|
            0 <= i < decimal(n).len() ==> '0' as u32 <= (#[trigger] decimal(n)[i]) as u32
                <= '9' as u32,
        n > 0 ==> decimal(n)[0] != '0',
        signed_decimal(n as int) == decimal(n),
        n > 0 ==> signed_decimal(-(n as int)) == "-"@ + decimal(n),
    decreases n,
{
    crate::digits::lemma_decimal(n);
    if n >= 10 {
        a_number_is_written_with_its_digits(n / 10);
        assert(decimal(n)[0] == decimal(n / 10)[0]);
    }
}

} // verus!
