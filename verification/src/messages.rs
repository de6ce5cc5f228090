//! The short texts the assistant shows or hands back: greetings, labels of
//! GUI tool calls and their results, and names of capture files.
use vstd::prelude::*;
use vstd::utf8::encode_utf8;
use crate::text;
use crate::text::{chars_of, decimal_chars, extend_chars, push_str, signed_decimal_chars, string_of};

verus! {

/// `(x, y)` with both coordinates in decimal.
pub open spec fn point(x: i32, y: i32) -> Seq<char> {
    "("@ + text::signed_decimal(x as int) + ", "@ + text::signed_decimal(y as int) + ")"@
}

fn point_chars(x: i32, y: i32) -> (v: Vec<char>)
    ensures
        v@ == point(x, y),
{
    let mut v = chars_of("(");
    let xs = signed_decimal_chars(x as i64);
    extend_chars(&mut v, &xs);
    push_str(&mut v, ", ");
    let ys = signed_decimal_chars(y as i64);
    extend_chars(&mut v, &ys);
    push_str(&mut v, ")");
    v
}

/// The greeting for a name.
pub fn greet(name: &str) -> (g: String)
    ensures
        g@ == "Hello, "@ + name@ + "! You've been greeted from Rust!"@,
{
    text::concat3("Hello, ", name, "! You've been greeted from Rust!")
}

/// The label of a click: the button as given and the point.
pub fn click_label(button: &str, x: i32, y: i32) -> (l: String)
    ensures
        l@ == button@ + " click at "@ + point(x, y),
{
    let mut v = chars_of(button);
    push_str(&mut v, " click at ");
    let p = point_chars(x, y);
    extend_chars(&mut v, &p);
    string_of(&v)
}

/// The result of a click.
pub fn clicked_message(x: i32, y: i32) -> (m: String)
    ensures
        m@ == "Clicked at "@ + point(x, y),
{
    let mut v = chars_of("Clicked at ");
    let p = point_chars(x, y);
    extend_chars(&mut v, &p);
    string_of(&v)
}

/// The label of a mouse move.
pub fn move_label(x: i32, y: i32) -> (l: String)
    ensures
        l@ == point(x, y),
{
    string_of(&point_chars(x, y))
}

/// The result of a mouse move.
pub fn moved_message(x: i32, y: i32) -> (m: String)
    ensures
        m@ == "Mouse moved to "@ + point(x, y),
{
    let mut v = chars_of("Mouse moved to ");
    let p = point_chars(x, y);
    extend_chars(&mut v, &p);
    string_of(&v)
}

/// The result of typing a text: its length in bytes.
pub fn typed_message(text: &str) -> (m: String)
    ensures
        m@ == "Typed "@ + text::decimal(encode_utf8(text@).len()) + " chars"@,
{
    let n = text.as_bytes().len();
    let mut v = chars_of("Typed ");
    let d = decimal_chars(n as u64);
    extend_chars(&mut v, &d);
    push_str(&mut v, " chars");
    string_of(&v)
}

/// The result of a key combination.
pub fn pressed_message(keys: &str) -> (m: String)
    ensures
        m@ == "Pressed: "@ + keys@,
{
    text::concat2("Pressed: ", keys)
}

/// The file name of a screen capture taken at a time in seconds.
pub fn capture_file_name(secs: u64) -> (f: String)
    ensures
        f@ == "glidewin_capture_"@ + text::decimal(secs as nat) + ".png"@,
{
    let mut v = chars_of("glidewin_capture_");
    let d = decimal_chars(secs);
    extend_chars(&mut v, &d);
    push_str(&mut v, ".png");
    string_of(&v)
}

/// The file name of a microphone recording started at a time in seconds.
pub fn recording_file_name(secs: u64) -> (f: String)
    ensures
        f@ == "glidewin_recording_"@ + text::decimal(secs as nat) + ".wav"@,
{
    let mut v = chars_of("glidewin_recording_");
    let d = decimal_chars(secs);
    extend_chars(&mut v, &d);
    push_str(&mut v, ".wav");
    string_of(&v)
}

} // verus!
