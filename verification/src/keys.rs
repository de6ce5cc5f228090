//! Keyboard and mouse vocabulary of the GUI tools: key names, key
//! combinations such as `ctrl+shift+t`, and mouse buttons.
use vstd::prelude::*;
use crate::text;
use crate::text::{chars_of, string_of, trim_chars};

verus! {

/// What `str::to_lowercase` returns for a string (the Unicode lowercase
/// mapping).
pub uninterp spec fn lowercase(s: Seq<char>) -> Seq<char>;

/// `str::to_lowercase`. Claimed: the result is the Unicode lowercase form of
/// the argument, as named by [`lowercase`]; for an ASCII argument it is the
/// argument with `A`-`Z` turned into `a`-`z` (Unicode maps no other ASCII
/// character to another one). Beyond ASCII nothing more is claimed.
#[verifier::external_body]
pub(crate) fn to_lowercase(s: &str) -> (res: String)
    ensures
        res@ == lowercase(s@),
        text::all_ascii(s@) ==> res@ == text::ascii_lower_seq(s@),
{
    s.to_lowercase()
}

/// A key to press, by name.
#[derive(Clone, Copy, Debug, PartialEq, Eq, Structural)]
pub enum KeyName {
    Return,
    Escape,
    Tab,
    Space,
    Backspace,
    Delete,
    UpArrow,
    DownArrow,
    LeftArrow,
    RightArrow,
    Home,
    End,
    PageUp,
    PageDown,
    F1,
    F2,
    F3,
    F4,
    F5,
    F6,
    F7,
    F8,
    F9,
    F10,
    F11,
    F12,
    /// A key that types this character.
    Unicode(char),
}

/// A modifier key held during a combination.
#[derive(Clone, Copy, Debug, PartialEq, Eq, Structural)]
pub enum Modifier {
    Control,
    Shift,
    Alt,
    Meta,
}

/// One step of playing a key combination.
#[derive(Clone, Copy, Debug, PartialEq, Eq, Structural)]
pub enum KeyAction {
    /// Hold a modifier down.
    Press(Modifier),
    /// Press and release a key.
    Click(KeyName),
    /// Let a modifier go.
    Release(Modifier),
}

/// A mouse button.
#[derive(Clone, Copy, Debug, PartialEq, Eq, Structural)]
pub enum MouseButton {
    Left,
    Right,
    Middle,
}

/// The key that a (lower-case) name stands for. Unknown names of a single
/// one-byte character type that character; any other name types a space.
pub open spec fn key_for_name(n: Seq<char>) -> KeyName {
    if n == seq!['e', 'n', 't', 'e', 'r'] || n == seq!['r', 'e', 't', 'u', 'r', 'n'] {
        KeyName::Return
    } else if n == seq!['e', 's', 'c'] || n == seq!['e', 's', 'c', 'a', 'p', 'e'] {
        KeyName::Escape
    } else if n == seq!['t', 'a', 'b'] {
        KeyName::Tab
    } else if n == seq!['s', 'p', 'a', 'c', 'e'] {
        KeyName::Space
    } else if n == seq!['b', 'a', 'c', 'k', 's', 'p', 'a', 'c', 'e'] {
        KeyName::Backspace
    } else if n == seq!['d', 'e', 'l', 'e', 't', 'e'] || n == seq!['d', 'e', 'l'] {
        KeyName::Delete
    } else if n == seq!['u', 'p'] {
        KeyName::UpArrow
    } else if n == seq!['d', 'o', 'w', 'n'] {
        KeyName::DownArrow
    } else if n == seq!['l', 'e', 'f', 't'] {
        KeyName::LeftArrow
    } else if n == seq!['r', 'i', 'g', 'h', 't'] {
        KeyName::RightArrow
    } else if n == seq!['h', 'o', 'm', 'e'] {
        KeyName::Home
    } else if n == seq!['e', 'n', 'd'] {
        KeyName::End
    } else if n == seq!['p', 'a', 'g', 'e', 'u', 'p'] || n == seq!['p', 'g', 'u', 'p'] {
        KeyName::PageUp
    } else if n == seq!['p', 'a', 'g', 'e', 'd', 'o', 'w', 'n'] || n == seq!['p', 'g', 'd', 'n']
        || n == seq!['p', 'g', 'd', 'o', 'w', 'n'] {
        KeyName::PageDown
    } else if n == seq!['f', '1'] {
        KeyName::F1
    } else if n == seq!['f', '2'] {
        KeyName::F2
    } else if n == seq!['f', '3'] {
        KeyName::F3
    } else if n == seq!['f', '4'] {
        KeyName::F4
    } else if n == seq!['f', '5'] {
        KeyName::F5
    } else if n == seq!['f', '6'] {
        KeyName::F6
    } else if n == seq!['f', '7'] {
        KeyName::F7
    } else if n == seq!['f', '8'] {
        KeyName::F8
    } else if n == seq!['f', '9'] {
        KeyName::F9
    } else if n == seq!['f', '1', '0'] {
        KeyName::F10
    } else if n == seq!['f', '1', '1'] {
        KeyName::F11
    } else if n == seq!['f', '1', '2'] {
        KeyName::F12
    } else if n.len() == 1 && (n[0] as u32) < 0x80 {
        KeyName::Unicode(n[0])
    } else {
        KeyName::Unicode(' ')
    }
}

/// The modifier that a (lower-case) name stands for, if any.
pub open spec fn modifier_for(n: Seq<char>) -> Option<Modifier> {
    if n == seq!['c', 't', 'r', 'l'] || n == seq!['c', 'o', 'n', 't', 'r', 'o', 'l'] {
        Some(Modifier::Control)
    } else if n == seq!['s', 'h', 'i', 'f', 't'] {
        Some(Modifier::Shift)
    } else if n == seq!['a', 'l', 't'] {
        Some(Modifier::Alt)
    } else if n == seq!['w', 'i', 'n'] || n == seq!['s', 'u', 'p', 'e', 'r'] || n == seq![
        'm',
        'e',
        't',
        'a',
    ] || n == seq!['c', 'm', 'd'] {
        Some(Modifier::Meta)
    } else {
        None
    }
}

/// The mouse button that a (lower-case) name stands for; any other name is
/// the left button.
pub open spec fn button_for_name(n: Seq<char>) -> MouseButton {
    if n == seq!['r', 'i', 'g', 'h', 't'] {
        MouseButton::Right
    } else if n == seq!['m', 'i', 'd', 'd', 'l', 'e'] {
        MouseButton::Middle
    } else {
        MouseButton::Left
    }
}

/// Law: the key table. Each key name gives its own key and no other name
/// gives it; a one-character ASCII name that is no key name types that
/// character.
pub proof fn lemma_key_table(n: Seq<char>)
    ensures
        (key_for_name(n) == KeyName::Return) == (n == "enter"@ || n == "return"@),
        (key_for_name(n) == KeyName::Escape) == (n == "esc"@ || n == "escape"@),
        (key_for_name(n) == KeyName::Tab) == (n == "tab"@),
        (key_for_name(n) == KeyName::Space) == (n == "space"@),
        (key_for_name(n) == KeyName::Backspace) == (n == "backspace"@),
        (key_for_name(n) == KeyName::Delete) == (n == "delete"@ || n == "del"@),
        (key_for_name(n) == KeyName::UpArrow) == (n == "up"@),
        (key_for_name(n) == KeyName::DownArrow) == (n == "down"@),
        (key_for_name(n) == KeyName::LeftArrow) == (n == "left"@),
        (key_for_name(n) == KeyName::RightArrow) == (n == "right"@),
        (key_for_name(n) == KeyName::Home) == (n == "home"@),
        (key_for_name(n) == KeyName::End) == (n == "end"@),
        (key_for_name(n) == KeyName::PageUp) == (n == "pageup"@ || n == "pgup"@),
        (key_for_name(n) == KeyName::PageDown) == (n == "pagedown"@ || n == "pgdn"@ || n == "pgdown"@),
        (key_for_name(n) == KeyName::F1) == (n == "f1"@),
        (key_for_name(n) == KeyName::F2) == (n == "f2"@),
        (key_for_name(n) == KeyName::F3) == (n == "f3"@),
        (key_for_name(n) == KeyName::F4) == (n == "f4"@),
        (key_for_name(n) == KeyName::F5) == (n == "f5"@),
        (key_for_name(n) == KeyName::F6) == (n == "f6"@),
        (key_for_name(n) == KeyName::F7) == (n == "f7"@),
        (key_for_name(n) == KeyName::F8) == (n == "f8"@),
        (key_for_name(n) == KeyName::F9) == (n == "f9"@),
        (key_for_name(n) == KeyName::F10) == (n == "f10"@),
        (key_for_name(n) == KeyName::F11) == (n == "f11"@),
        (key_for_name(n) == KeyName::F12) == (n == "f12"@),
        n.len() == 1 && (n[0] as u32) < 0x80 ==> key_for_name(n) == KeyName::Unicode(n[0]),
{
    reveal_strlit("enter");
    assert("enter"@ =~= seq!['e', 'n', 't', 'e', 'r']);
    reveal_strlit("return");
    assert("return"@ =~= seq!['r', 'e', 't', 'u', 'r', 'n']);
    reveal_strlit("esc");
    assert("esc"@ =~= seq!['e', 's', 'c']);
    reveal_strlit("escape");
    assert("escape"@ =~= seq!['e', 's', 'c', 'a', 'p', 'e']);
    reveal_strlit("tab");
    assert("tab"@ =~= seq!['t', 'a', 'b']);
    reveal_strlit("space");
    assert("space"@ =~= seq!['s', 'p', 'a', 'c', 'e']);
    reveal_strlit("backspace");
    assert("backspace"@ =~= seq!['b', 'a', 'c', 'k', 's', 'p', 'a', 'c', 'e']);
    reveal_strlit("delete");
    assert("delete"@ =~= seq!['d', 'e', 'l', 'e', 't', 'e']);
    reveal_strlit("del");
    assert("del"@ =~= seq!['d', 'e', 'l']);
    reveal_strlit("up");
    assert("up"@ =~= seq!['u', 'p']);
    reveal_strlit("down");
    assert("down"@ =~= seq!['d', 'o', 'w', 'n']);
    reveal_strlit("left");
    assert("left"@ =~= seq!['l', 'e', 'f', 't']);
    reveal_strlit("right");
    assert("right"@ =~= seq!['r', 'i', 'g', 'h', 't']);
    reveal_strlit("home");
    assert("home"@ =~= seq!['h', 'o', 'm', 'e']);
    reveal_strlit("end");
    assert("end"@ =~= seq!['e', 'n', 'd']);
    reveal_strlit("pageup");
    assert("pageup"@ =~= seq!['p', 'a', 'g', 'e', 'u', 'p']);
    reveal_strlit("pgup");
    assert("pgup"@ =~= seq!['p', 'g', 'u', 'p']);
    reveal_strlit("pagedown");
    assert("pagedown"@ =~= seq!['p', 'a', 'g', 'e', 'd', 'o', 'w', 'n']);
    reveal_strlit("pgdn");
    assert("pgdn"@ =~= seq!['p', 'g', 'd', 'n']);
    reveal_strlit("pgdown");
    assert("pgdown"@ =~= seq!['p', 'g', 'd', 'o', 'w', 'n']);
    reveal_strlit("f1");
    assert("f1"@ =~= seq!['f', '1']);
    reveal_strlit("f2");
    assert("f2"@ =~= seq!['f', '2']);
    reveal_strlit("f3");
    assert("f3"@ =~= seq!['f', '3']);
    reveal_strlit("f4");
    assert("f4"@ =~= seq!['f', '4']);
    reveal_strlit("f5");
    assert("f5"@ =~= seq!['f', '5']);
    reveal_strlit("f6");
    assert("f6"@ =~= seq!['f', '6']);
    reveal_strlit("f7");
    assert("f7"@ =~= seq!['f', '7']);
    reveal_strlit("f8");
    assert("f8"@ =~= seq!['f', '8']);
    reveal_strlit("f9");
    assert("f9"@ =~= seq!['f', '9']);
    reveal_strlit("f10");
    assert("f10"@ =~= seq!['f', '1', '0']);
    reveal_strlit("f11");
    assert("f11"@ =~= seq!['f', '1', '1']);
    reveal_strlit("f12");
    assert("f12"@ =~= seq!['f', '1', '2']);
}

/// Law: the modifier table. `ctrl` and `control` hold Control, `shift`
/// Shift, `alt` Alt, and `win`, `super`, `meta` and `cmd` the Meta key; no
/// other name is a modifier.
pub proof fn lemma_modifier_table(n: Seq<char>)
    ensures
        (modifier_for(n) == Some(Modifier::Control)) == (n == "ctrl"@ || n == "control"@),
        (modifier_for(n) == Some(Modifier::Shift)) == (n == "shift"@),
        (modifier_for(n) == Some(Modifier::Alt)) == (n == "alt"@),
        (modifier_for(n) == Some(Modifier::Meta)) == (n == "win"@ || n == "super"@ || n == "meta"@ || n == "cmd"@),
        (modifier_for(n) is None) == !(n == "ctrl"@ || n == "control"@ || n == "shift"@ || n == "alt"@ || n == "win"@ || n == "super"@ || n == "meta"@ || n == "cmd"@),
{
    reveal_strlit("ctrl");
    assert("ctrl"@ =~= seq!['c', 't', 'r', 'l']);
    reveal_strlit("control");
    assert("control"@ =~= seq!['c', 'o', 'n', 't', 'r', 'o', 'l']);
    reveal_strlit("shift");
    assert("shift"@ =~= seq!['s', 'h', 'i', 'f', 't']);
    reveal_strlit("alt");
    assert("alt"@ =~= seq!['a', 'l', 't']);
    reveal_strlit("win");
    assert("win"@ =~= seq!['w', 'i', 'n']);
    reveal_strlit("super");
    assert("super"@ =~= seq!['s', 'u', 'p', 'e', 'r']);
    reveal_strlit("meta");
    assert("meta"@ =~= seq!['m', 'e', 't', 'a']);
    reveal_strlit("cmd");
    assert("cmd"@ =~= seq!['c', 'm', 'd']);
}

/// Law: the button table. `right` is the right button, `middle` the middle
/// one, and every other name the left one.
pub proof fn lemma_button_table(n: Seq<char>)
    ensures
        (button_for_name(n) == MouseButton::Right) == (n == "right"@),
        (button_for_name(n) == MouseButton::Middle) == (n == "middle"@),
        (button_for_name(n) == MouseButton::Left) == (n != "right"@ && n != "middle"@),
{
    reveal_strlit("right");
    assert("right"@ =~= seq!['r', 'i', 'g', 'h', 't']);
    reveal_strlit("middle");
    assert("middle"@ =~= seq!['m', 'i', 'd', 'd', 'l', 'e']);
}

/// Whether two character sequences are equal.
pub fn same_chars(a: &[char], b: &[char]) -> (r: bool)
    ensures
        r == (a@ == b@),
{
    if a.len() != b.len() {
        return false;
    }
    let mut i: usize = 0;
    while i < a.len()
        invariant
            0 <= i <= a.len(),
            a.len() == b.len(),
            a@.take(i as int) == b@.take(i as int),
        decreases a.len() - i,
    {
        if a[i] != b[i] {
            return false;
        }
        i = i + 1;
        assert(a@.take(i as int) =~= a@.take(i - 1).push(a@[i - 1]));
        assert(b@.take(i as int) =~= b@.take(i - 1).push(b@[i - 1]));
    }
    assert(a@ =~= a@.take(a.len() as int));
    assert(b@ =~= b@.take(b.len() as int));
    true
}

/// The key for a name that is already in lower case.
pub fn key_from_name(name: &str) -> (k: KeyName)
    ensures
        k == key_for_name(name@),
{
    let n = chars_of(name);
    if same_chars(&n, &['e', 'n', 't', 'e', 'r']) || same_chars(&n, &['r', 'e', 't', 'u', 'r', 'n']) {
        KeyName::Return
    } else if same_chars(&n, &['e', 's', 'c']) || same_chars(&n, &['e', 's', 'c', 'a', 'p', 'e']) {
        KeyName::Escape
    } else if same_chars(&n, &['t', 'a', 'b']) {
        KeyName::Tab
    } else if same_chars(&n, &['s', 'p', 'a', 'c', 'e']) {
        KeyName::Space
    } else if same_chars(&n, &['b', 'a', 'c', 'k', 's', 'p', 'a', 'c', 'e']) {
        KeyName::Backspace
    } else if same_chars(&n, &['d', 'e', 'l', 'e', 't', 'e']) || same_chars(&n, &['d', 'e', 'l']) {
        KeyName::Delete
    } else if same_chars(&n, &['u', 'p']) {
        KeyName::UpArrow
    } else if same_chars(&n, &['d', 'o', 'w', 'n']) {
        KeyName::DownArrow
    } else if same_chars(&n, &['l', 'e', 'f', 't']) {
        KeyName::LeftArrow
    } else if same_chars(&n, &['r', 'i', 'g', 'h', 't']) {
        KeyName::RightArrow
    } else if same_chars(&n, &['h', 'o', 'm', 'e']) {
        KeyName::Home
    } else if same_chars(&n, &['e', 'n', 'd']) {
        KeyName::End
    } else if same_chars(&n, &['p', 'a', 'g', 'e', 'u', 'p']) || same_chars(&n, &['p', 'g', 'u', 'p']) {
        KeyName::PageUp
    } else if same_chars(&n, &['p', 'a', 'g', 'e', 'd', 'o', 'w', 'n']) || same_chars(
        &n,
        &['p', 'g', 'd', 'n'],
    ) || same_chars(&n, &['p', 'g', 'd', 'o', 'w', 'n']) {
        KeyName::PageDown
    } else if same_chars(&n, &['f', '1']) {
        KeyName::F1
    } else if same_chars(&n, &['f', '2']) {
        KeyName::F2
    } else if same_chars(&n, &['f', '3']) {
        KeyName::F3
    } else if same_chars(&n, &['f', '4']) {
        KeyName::F4
    } else if same_chars(&n, &['f', '5']) {
        KeyName::F5
    } else if same_chars(&n, &['f', '6']) {
        KeyName::F6
    } else if same_chars(&n, &['f', '7']) {
        KeyName::F7
    } else if same_chars(&n, &['f', '8']) {
        KeyName::F8
    } else if same_chars(&n, &['f', '9']) {
        KeyName::F9
    } else if same_chars(&n, &['f', '1', '0']) {
        KeyName::F10
    } else if same_chars(&n, &['f', '1', '1']) {
        KeyName::F11
    } else if same_chars(&n, &['f', '1', '2']) {
        KeyName::F12
    } else if n.len() == 1 && (n[0] as u32) < 0x80 {
        KeyName::Unicode(n[0])
    } else {
        KeyName::Unicode(' ')
    }
}

/// The key for a name, in any case: `enter`, `esc`, `pgdn`, `f5`, a single
/// character, ...
pub fn parse_enigo_key(s: &str) -> (k: KeyName)
    ensures
        k == key_for_name(lowercase(s@)),
        text::all_ascii(s@) ==> k == key_for_name(text::ascii_lower_seq(s@)),
{
    let lower = to_lowercase(s);
    key_from_name(lower.as_str())
}

/// The modifier for a name that is already in lower case.
pub fn modifier_from_name(name: &str) -> (m: Option<Modifier>)
    ensures
        m == modifier_for(name@),
{
    let n = chars_of(name);
    if same_chars(&n, &['c', 't', 'r', 'l']) || same_chars(&n, &['c', 'o', 'n', 't', 'r', 'o', 'l']) {
        Some(Modifier::Control)
    } else if same_chars(&n, &['s', 'h', 'i', 'f', 't']) {
        Some(Modifier::Shift)
    } else if same_chars(&n, &['a', 'l', 't']) {
        Some(Modifier::Alt)
    } else if same_chars(&n, &['w', 'i', 'n']) || same_chars(&n, &['s', 'u', 'p', 'e', 'r'])
        || same_chars(&n, &['m', 'e', 't', 'a']) || same_chars(&n, &['c', 'm', 'd']) {
        Some(Modifier::Meta)
    } else {
        None
    }
}

/// The button for a name that is already in lower case.
pub fn button_from_name(name: &str) -> (b: MouseButton)
    ensures
        b == button_for_name(name@),
{
    let n = chars_of(name);
    if same_chars(&n, &['r', 'i', 'g', 'h', 't']) {
        MouseButton::Right
    } else if same_chars(&n, &['m', 'i', 'd', 'd', 'l', 'e']) {
        MouseButton::Middle
    } else {
        MouseButton::Left
    }
}

/// The button for a name in any case: `right`, `middle`, anything else is
/// the left button.
pub fn mouse_button(button: &str) -> (b: MouseButton)
    ensures
        b == button_for_name(lowercase(button@)),
        text::all_ascii(button@) ==> b == button_for_name(text::ascii_lower_seq(button@)),
{
    let lower = to_lowercase(button);
    button_from_name(lower.as_str())
}

/// `str::split` on one separator character: the pieces between separators,
/// from left to right (there is always at least one).
pub open spec fn split_on(s: Seq<char>, sep: char) -> Seq<Seq<char>>
    decreases s.len(),
{
    if s.len() == 0 {
        seq![Seq::empty()]
    } else {
        let p = split_on(s.drop_last(), sep);
        if s.last() == sep {
            p.push(Seq::empty())
        } else {
            p.drop_last().push(p.last().push(s.last()))
        }
    }
}

proof fn lemma_split_on_nonempty(s: Seq<char>, sep: char)
    ensures
        split_on(s, sep).len() >= 1,
    decreases s.len(),
{
    if s.len() > 0 {
        lemma_split_on_nonempty(s.drop_last(), sep);
    }
}

/// The names in a combination such as `Ctrl + Shift + T`: the pieces between
/// `+` signs, each trimmed and put in lower case.
pub open spec fn combo_names(keys: Seq<char>) -> Seq<Seq<char>> {
    split_on(keys, '+').map_values(|p: Seq<char>| lowercase(text::trim(p)))
}

/// The names in a combination of ASCII text: the pieces between `+` signs,
/// each trimmed, with `A`-`Z` turned into `a`-`z`.
pub open spec fn ascii_combo_names(keys: Seq<char>) -> Seq<Seq<char>> {
    split_on(keys, '+').map_values(|p: Seq<char>| text::ascii_lower_seq(text::trim(p)))
}

/// The plan for a combination written in ASCII: every name but the last is a
/// modifier name, and the last name is the key to click.
pub open spec fn ascii_key_combo(keys: Seq<char>) -> Seq<KeyAction> {
    let names = ascii_combo_names(keys);
    combo_plan(names.take(names.len() - 1), Some(key_for_name(names.last())))
}

proof fn lemma_split_on_ascii(s: Seq<char>, sep: char)
    requires
        text::all_ascii(s),
    ensures
        forall|k: int|
            0 <= k < split_on(s, sep).len() ==> text::all_ascii(#[trigger] split_on(s, sep)[k]),
    decreases s.len(),
{
    if s.len() > 0 {
        let t = s.drop_last();
        text::lemma_ascii_subrange(s, 0, s.len() - 1);
        assert(s.subrange(0, s.len() - 1) =~= t);
        lemma_split_on_ascii(t, sep);
        lemma_split_on_nonempty(t, sep);
        let p = split_on(t, sep);
        let c = s.last();
        assert(c == s[s.len() - 1]);
        if c == sep {
            assert forall|k: int| 0 <= k < p.push(Seq::empty()).len() implies text::all_ascii(
                #[trigger] p.push(Seq::<char>::empty())[k],
            ) by {
                if k < p.len() {
                    assert(p.push(Seq::<char>::empty())[k] == p[k]);
                }
            }
        } else {
            let q = p.drop_last().push(p.last().push(c));
            assert(text::all_ascii(p[p.len() - 1]));
            assert forall|k: int| 0 <= k < q.len() implies text::all_ascii(#[trigger] q[k]) by {
                if k < q.len() - 1 {
                    assert(q[k] == p[k]);
                } else {
                    let w = p.last().push(c);
                    assert forall|m: int| 0 <= m < w.len() implies (#[trigger] w[m] as u32)
                        < 0x80 by {
                        if m < w.len() - 1 {
                            assert(w[m] == p[p.len() - 1][m]);
                        }
                    }
                }
            }
        }
    }
}

/// Law: key and button names are read without regard to case: an ASCII name,
/// its upper-case form and its lower-case form are all ASCII and give the
/// same key and the same button (the ASCII case of [`parse_enigo_key`] and
/// [`mouse_button`] reads a name through its lower-case form).
pub proof fn lemma_names_ignore_case(s: Seq<char>)
    requires
        text::all_ascii(s),
    ensures
        text::all_ascii(text::ascii_upper_seq(s)),
        text::all_ascii(text::ascii_lower_seq(s)),
        key_for_name(text::ascii_lower_seq(text::ascii_upper_seq(s))) == key_for_name(
            text::ascii_lower_seq(s),
        ),
        key_for_name(text::ascii_lower_seq(text::ascii_lower_seq(s))) == key_for_name(
            text::ascii_lower_seq(s),
        ),
        button_for_name(text::ascii_lower_seq(text::ascii_upper_seq(s))) == button_for_name(
            text::ascii_lower_seq(s),
        ),
        button_for_name(text::ascii_lower_seq(text::ascii_lower_seq(s))) == button_for_name(
            text::ascii_lower_seq(s),
        ),
{
    text::lemma_ascii_case(s);
}

/// The presses of the modifiers among `names`, in order; names that are no
/// modifier are skipped.
pub open spec fn presses(names: Seq<Seq<char>>) -> Seq<KeyAction>
    decreases names.len(),
{
    if names.len() == 0 {
        Seq::empty()
    } else {
        presses(names.drop_last()) + match modifier_for(names.last()) {
            Some(m) => seq![KeyAction::Press(m)],
            None => Seq::empty(),
        }
    }
}

/// The releases of the modifiers among `names`, last one first.
pub open spec fn releases(names: Seq<Seq<char>>) -> Seq<KeyAction>
    decreases names.len(),
{
    if names.len() == 0 {
        Seq::empty()
    } else {
        release_of(names.last()) + releases(names.drop_last())
    }
}

/// Holding the modifiers, clicking the main key if there is one, letting the
/// modifiers go.
pub open spec fn combo_plan(modifiers: Seq<Seq<char>>, main: Option<KeyName>) -> Seq<KeyAction> {
    presses(modifiers) + match main {
        Some(k) => seq![KeyAction::Click(k)],
        None => Seq::empty(),
    } + releases(modifiers)
}

/// The plan for a whole combination: every name but the last is a modifier
/// name, and the last name is the key to click, read by [`parse_enigo_key`].
pub open spec fn key_combo(keys: Seq<char>) -> Seq<KeyAction> {
    let names = combo_names(keys);
    combo_plan(
        names.take(names.len() - 1),
        Some(key_for_name(lowercase(names.last()))),
    )
}

/// The release that undoes a press.
pub open spec fn undo(a: KeyAction) -> KeyAction {
    match a {
        KeyAction::Press(m) => KeyAction::Release(m),
        other => other,
    }
}

/// Law: the modifiers are let go in exactly the reverse order in which they
/// were held down.
pub proof fn lemma_releases_mirror_presses(names: Seq<Seq<char>>)
    ensures
        releases(names) == presses(names).reverse().map_values(|a: KeyAction| undo(a)),
    decreases names.len(),
{
    if names.len() > 0 {
        lemma_releases_mirror_presses(names.drop_last());
        let head = presses(names.drop_last());
        let tail: Seq<KeyAction> = match modifier_for(names.last()) {
            Some(m) => seq![KeyAction::Press(m)],
            None => Seq::empty(),
        };
        assert((head + tail).reverse() =~= tail.reverse() + head.reverse());
        assert((tail.reverse() + head.reverse()).map_values(|a: KeyAction| undo(a))
            =~= tail.reverse().map_values(|a: KeyAction| undo(a)) + head.reverse().map_values(
            |a: KeyAction| undo(a),
        ));
    }
}

/// The release of one modifier name, if it is one.
pub open spec fn release_of(name: Seq<char>) -> Seq<KeyAction> {
    match modifier_for(name) {
        Some(m) => seq![KeyAction::Release(m)],
        None => Seq::empty(),
    }
}

/// The releases for the names at positions `j..`, last position first.
pub open spec fn releases_down(names: Seq<Seq<char>>, j: int) -> Seq<KeyAction>
    decreases names.len() - j,
{
    if j < 0 || j >= names.len() {
        Seq::empty()
    } else {
        releases_down(names, j + 1) + release_of(names[j])
    }
}

proof fn lemma_releases_down_last(names: Seq<Seq<char>>, j: int)
    requires
        0 <= j < names.len(),
    ensures
        releases_down(names, j) == release_of(names.last()) + releases_down(names.drop_last(), j),
    decreases names.len() - j,
{
    if j + 1 < names.len() {
        lemma_releases_down_last(names, j + 1);
        assert(names.drop_last()[j] == names[j]);
        assert(releases_down(names, j) =~= release_of(names.last()) + releases_down(
            names.drop_last(),
            j,
        ));
    } else {
        assert(releases_down(names.drop_last(), j) =~= Seq::<KeyAction>::empty());
        assert(releases_down(names, j + 1) =~= Seq::<KeyAction>::empty());
        assert(releases_down(names, j) =~= release_of(names.last()));
    }
}

proof fn lemma_releases_down(names: Seq<Seq<char>>)
    ensures
        releases(names) == releases_down(names, 0),
    decreases names.len(),
{
    if names.len() > 0 {
        lemma_releases_down(names.drop_last());
        lemma_releases_down_last(names, 0);
    }
}

/// The plan for holding the modifiers named in `modifiers` (lower case),
/// clicking `main` if given, and releasing the modifiers in reverse order.
pub fn plan_key_combo(modifiers: &Vec<String>, main: Option<KeyName>) -> (plan: Vec<KeyAction>)
    ensures
        plan@ == combo_plan(crate::sentences::string_views(modifiers@), main),
{
    let ghost names = crate::sentences::string_views(modifiers@);
    let mut plan: Vec<KeyAction> = Vec::new();
    let mut i: usize = 0;
    while i < modifiers.len()
        invariant
            0 <= i <= modifiers.len(),
            names == crate::sentences::string_views(modifiers@),
            plan@ == presses(names.take(i as int)),
        decreases modifiers.len() - i,
    {
        let m = modifier_from_name(modifiers[i].as_str());
        assert(names.take(i + 1).drop_last() =~= names.take(i as int));
        match m {
            Some(k) => {
                plan.push(KeyAction::Press(k));
            },
            None => {},
        }
        i = i + 1;
        assert(plan@ =~= presses(names.take(i as int)));
    }
    assert(names.take(modifiers.len() as int) =~= names);
    match main {
        Some(k) => {
            plan.push(KeyAction::Click(k));
        },
        None => {},
    }
    let ghost mid = plan@;
    let mut j: usize = modifiers.len();
    while j > 0
        invariant
            0 <= j <= modifiers.len(),
            names == crate::sentences::string_views(modifiers@),
            plan@ == mid + releases_down(names, j as int),
        decreases j,
    {
        j = j - 1;
        let m = modifier_from_name(modifiers[j].as_str());
        match m {
            Some(k) => {
                plan.push(KeyAction::Release(k));
            },
            None => {},
        }
        assert(plan@ =~= mid + releases_down(names, j as int));
    }
    proof {
        lemma_releases_down(names);
    }
    plan
}

/// The character views of a vector of character vectors.
pub open spec fn char_views(v: Seq<Vec<char>>) -> Seq<Seq<char>> {
    v.map_values(|p: Vec<char>| p@)
}

/// `str::split` on one separator character.
pub fn split_chars(s: &[char], sep: char) -> (pieces: Vec<Vec<char>>)
    ensures
        char_views(pieces@) == split_on(s@, sep),
{
    let mut done: Vec<Vec<char>> = Vec::new();
    let mut current: Vec<char> = Vec::new();
    let mut i: usize = 0;
    assert(char_views(done@).push(current@) =~= split_on(s@.take(0), sep));
    while i < s.len()
        invariant
            0 <= i <= s.len(),
            char_views(done@).push(current@) == split_on(s@.take(i as int), sep),
        decreases s.len() - i,
    {
        let c = s[i];
        let ghost before = char_views(done@).push(current@);
        assert(s@.take(i + 1).drop_last() =~= s@.take(i as int));
        if c == sep {
            let finished = current;
            done.push(finished);
            current = Vec::new();
            assert(char_views(done@).push(current@) =~= before.push(Seq::empty()));
        } else {
            current.push(c);
            assert(char_views(done@).push(current@) =~= before.drop_last().push(
                before.last().push(c),
            ));
        }
        i = i + 1;
    }
    assert(s@.take(s.len() as int) =~= s@);
    let ghost before = char_views(done@);
    done.push(current);
    assert(char_views(done@) =~= before.push(current@));
    done
}

/// The actions that play a key combination such as `ctrl+shift+t`: the names
/// between `+` signs are trimmed and lower-cased; every name but the last
/// that is a modifier is held down in order, the last name is clicked, and
/// the held modifiers are released in reverse order.
pub fn key_combo_plan(keys: &str) -> (plan: Vec<KeyAction>)
    ensures
        plan@ == key_combo(keys@),
        text::all_ascii(keys@) ==> plan@ == ascii_key_combo(keys@),
{
    let chars = chars_of(keys);
    let pieces = split_chars(&chars, '+');
    proof {
        lemma_split_on_nonempty(keys@, '+');
    }
    let ghost all = combo_names(keys@);
    let mut names: Vec<String> = Vec::new();
    let mut i: usize = 0;
    while i < pieces.len()
        invariant
            0 <= i <= pieces.len(),
            chars@ == keys@,
            char_views(pieces@) == split_on(keys@, '+'),
            all == combo_names(keys@),
            crate::sentences::string_views(names@) == all.take(i as int),
            text::all_ascii(keys@) ==> crate::sentences::string_views(names@) == ascii_combo_names(
                keys@,
            ).take(i as int),
        decreases pieces.len() - i,
    {
        let trimmed = trim_chars(&pieces[i]);
        proof {
            if text::all_ascii(keys@) {
                lemma_split_on_ascii(keys@, '+');
                let p = split_on(keys@, '+')[i as int];
                assert(text::all_ascii(p));
                text::lemma_trim_subrange(p);
                let (a, b) = choose|a: int, b: int|
                    0 <= a <= b <= p.len() && text::trim(p) == p.subrange(a, b);
                text::lemma_ascii_subrange(p, a, b);
            }
        }
        let piece = string_of(&trimmed);
        let lower = to_lowercase(piece.as_str());
        let ghost before = crate::sentences::string_views(names@);
        assert(char_views(pieces@).len() == pieces@.len());
        assert(pieces@[i as int]@ == split_on(keys@, '+')[i as int]);
        assert(all[i as int] == lowercase(text::trim(split_on(keys@, '+')[i as int])));
        names.push(lower);
        assert(crate::sentences::string_views(names@) =~= before.push(lower@));
        i = i + 1;
        assert(crate::sentences::string_views(names@) =~= all.take(i as int));
        proof {
            if text::all_ascii(keys@) {
                assert(crate::sentences::string_views(names@) =~= ascii_combo_names(keys@).take(
                    i as int,
                ));
            }
        }
    }
    assert(all.take(pieces.len() as int) =~= all);
    assert(ascii_combo_names(keys@).take(pieces.len() as int) =~= ascii_combo_names(keys@));
    let last = names.len() - 1;
    let mut modifiers: Vec<String> = Vec::new();
    let mut k: usize = 0;
    while k < last
        invariant
            0 <= k <= last,
            last + 1 == names.len(),
            crate::sentences::string_views(names@) == all,
            crate::sentences::string_views(modifiers@) == all.take(k as int),
        decreases last - k,
    {
        let ghost before = crate::sentences::string_views(modifiers@);
        let name = names[k].clone();
        assert(crate::sentences::string_views(names@)[k as int] == names@[k as int]@);
        modifiers.push(name);
        assert(crate::sentences::string_views(modifiers@) =~= before.push(name@));
        k = k + 1;
        assert(crate::sentences::string_views(modifiers@) =~= all.take(k as int));
    }
    let main = parse_enigo_key(names[last].as_str());
    assert(crate::sentences::string_views(names@)[last as int] == names@[last as int]@);
    assert(all.last() == all[last as int]);
    proof {
        if text::all_ascii(keys@) {
            let n = text::trim(split_on(keys@, '+')[last as int]);
            assert(names@[last as int]@ == text::ascii_lower_seq(n));
            lemma_split_on_ascii(keys@, '+');
            text::lemma_trim_subrange(split_on(keys@, '+')[last as int]);
            let p = split_on(keys@, '+')[last as int];
            let (a, b) = choose|a: int, b: int|
                0 <= a <= b <= p.len() && text::trim(p) == p.subrange(a, b);
            text::lemma_ascii_subrange(p, a, b);
            text::lemma_ascii_case(n);
        }
    }
    plan_key_combo(&modifiers, Some(main))
}

} // verus!
