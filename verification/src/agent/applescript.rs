//! The AppleScript source that carries out each executable directive.
//!
//! Every function here only builds text; running it is left to the caller.

use vstd::prelude::*;
use vstd::string::StringExecFns;

use crate::text::{
    chars_of, decimal, join, push_chars, push_decimal, same_text, split, split_at_char,
};

verus! {

/// What stands for `c` inside a quoted AppleScript string: a backslash and a
/// double quote each get a backslash in front, every other character stands
/// for itself.
pub open spec fn escaped_char(c: char) -> Seq<char> {
    if c == '\\' {
        seq!['\\', '\\']
    } else if c == '"' {
        seq!['\\', '"']
    } else {
        seq![c]
    }
}

/// `s` with each character escaped for a quoted AppleScript string.
pub open spec fn escaped(s: Seq<char>) -> Seq<char>
    decreases s.len(),
{
    if s.len() == 0 {
        Seq::empty()
    } else {
        escaped(s.drop_last()) + escaped_char(s.last())
    }
}

/// The script that brings the application `app` to the front.
pub open spec fn focus_app_text(app: Seq<char>) -> Seq<char> {
    "tell application \""@ + escaped(app) + "\" to activate"@
}

/// The script that shows the next slide.
pub open spec fn slide_next_text() -> Seq<char> {
    "tell application \"Keynote\"\nshow next\nend tell"@
}

/// The script that shows the previous slide.
pub open spec fn slide_prev_text() -> Seq<char> {
    "tell application \"Keynote\"\nshow previous\nend tell"@
}

/// The script that shows slide `n`.
pub open spec fn slide_goto_text(n: u32) -> Seq<char> {
    "tell application \"Keynote\"\ntell front document\nset current slide to slide "@ + decimal(
        n as nat,
    ) + "\nend tell\nend tell"@
}

/// The key code of a key that is named rather than typed.
pub open spec fn key_code(key: Seq<char>) -> Option<u8> {
    if key == "return"@ || key == "enter"@ {
        Some(36u8)
    } else if key == "tab"@ {
        Some(48u8)
    } else if key == "space"@ {
        Some(49u8)
    } else if key == "delete"@ || key == "backspace"@ {
        Some(51u8)
    } else if key == "escape"@ || key == "esc"@ {
        Some(53u8)
    } else if key == "left"@ {
        Some(123u8)
    } else if key == "right"@ {
        Some(124u8)
    } else if key == "down"@ {
        Some(125u8)
    } else if key == "up"@ {
        Some(126u8)
    } else {
        None
    }
}

/// What AppleScript calls a modifier; a name that is not known stands for itself.
pub open spec fn modifier_name(modifier: Seq<char>) -> Seq<char> {
    if modifier == "cmd"@ || modifier == "command"@ {
        "command down"@
    } else if modifier == "ctrl"@ || modifier == "control"@ {
        "control down"@
    } else if modifier == "shift"@ {
        "shift down"@
    } else if modifier == "alt"@ || modifier == "opt"@ || modifier == "option"@ {
        "option down"@
    } else {
        modifier
    }
}

/// The AppleScript names of `modifiers`, in order.
pub open spec fn modifier_names(modifiers: Seq<Seq<char>>) -> Seq<Seq<char>> {
    Seq::new(modifiers.len(), |i: int| modifier_name(modifiers[i]))
}

/// The `using` clause for `modifiers`: nothing for none, the one name for
/// one, the names in braces and separated by commas for more.
pub open spec fn modifier_clause(modifiers: Seq<Seq<char>>) -> Seq<char> {
    if modifiers.len() == 0 {
        Seq::empty()
    } else if modifiers.len() == 1 {
        " using "@ + modifier_name(modifiers[0])
    } else {
        " using {"@ + join(modifier_names(modifiers), ", "@) + "}"@
    }
}

/// The modifiers and the key of a combination such as `cmd+shift+s`: the
/// key is what follows the last `+`, the modifiers are the parts before it.
pub open spec fn key_combo(combo: Seq<char>) -> (Seq<Seq<char>>, Seq<char>) {
    let parts = split(combo, '+');
    (parts.drop_last(), parts.last())
}

/// The script that presses the key combination `combo`.
pub open spec fn keystroke_text(combo: Seq<char>) -> Seq<char> {
    let (modifiers, key) = key_combo(combo);
    match key_code(key) {
        Some(code) => "tell application \"System Events\" to key code "@ + decimal(code as nat)
            + modifier_clause(modifiers),
        None => "tell application \"System Events\" to keystroke \""@ + key + "\""@
            + modifier_clause(modifiers),
    }
}

/// The script that types the character `ch`.
pub open spec fn type_char_text(ch: char) -> Seq<char> {
    "tell application \"System Events\" to keystroke \""@ + escaped_char(ch) + "\""@
}

/// The script that clears the terminal: control and `l`.
pub open spec fn clear_text() -> Seq<char> {
    keystroke_text("ctrl+l"@)
}

/// Builds the script that brings the application `app_name` to the front.
pub fn focus_app_script(app_name: &str) -> (script: String)
    ensures
        script@ == focus_app_text(app_name@),
{
    let name = chars_of(app_name);
    let mut script = String::from_str("tell application \"");
    let ghost head = script@;
    let mut i: usize = 0;
    assert(name@.take(0) =~= Seq::<char>::empty());
    assert(script@ =~= head + escaped(name@.take(0)));
    while i < name.len()
        invariant
            i <= name.len(),
            script@ == head + escaped(name@.take(i as int)),
        decreases name.len() - i,
    {
        let c = name[i];
        proof {
            let upto = name@.take(i + 1);
            assert(upto.drop_last() =~= name@.take(i as int));
            assert(upto.last() == c);
        }
        let ghost before = script@;
        if c == '\\' {
            script.push('\\');
            script.push('\\');
        } else if c == '"' {
            script.push('\\');
            script.push('"');
        } else {
            script.push(c);
        }
        assert(script@ =~= before + escaped_char(c));
        assert(script@ =~= head + escaped(name@.take(i + 1)));
        i += 1;
    }
    assert(name@.take(i as int) =~= name@);
    script.append("\" to activate");
    script
}

/// Builds the script that shows the next slide.
pub fn slide_next_script() -> (script: String)
    ensures
        script@ == slide_next_text(),
{
    String::from_str("tell application \"Keynote\"\nshow next\nend tell")
}

/// Builds the script that shows the previous slide.
pub fn slide_prev_script() -> (script: String)
    ensures
        script@ == slide_prev_text(),
{
    String::from_str("tell application \"Keynote\"\nshow previous\nend tell")
}

/// Builds the script that shows slide `n`.
pub fn slide_goto_script(n: u32) -> (script: String)
    ensures
        script@ == slide_goto_text(n),
{
    let mut script = String::from_str(
        "tell application \"Keynote\"\ntell front document\nset current slide to slide ",
    );
    push_decimal(&mut script, n as u64);
    script.append("\nend tell\nend tell");
    script
}

/// Splits a key combination at its `+` signs into modifiers and key.
pub fn parse_key_combo(combo: &str) -> (parsed: (Vec<Vec<char>>, Vec<char>))
    ensures
        parsed.0.deep_view() == key_combo(combo@).0,
        parsed.1@ == key_combo(combo@).1,
{
    let chars = chars_of(combo);
    let mut parts = split_at_char(chars.as_slice(), '+');
    let ghost all = parts.deep_view();
    let key = parts.pop().unwrap();
    assert(parts.deep_view() =~~= all.drop_last());
    assert(key@ =~= all.last());
    (parts, key)
}

/// The key code of `key`, if it is a named key.
fn key_code_of(key: &[char]) -> (code: Option<u8>)
    ensures
        code == key_code(key@),
{
    if same_text(key, "return") || same_text(key, "enter") {
        Some(36)
    } else if same_text(key, "tab") {
        Some(48)
    } else if same_text(key, "space") {
        Some(49)
    } else if same_text(key, "delete") || same_text(key, "backspace") {
        Some(51)
    } else if same_text(key, "escape") || same_text(key, "esc") {
        Some(53)
    } else if same_text(key, "left") {
        Some(123)
    } else if same_text(key, "right") {
        Some(124)
    } else if same_text(key, "down") {
        Some(125)
    } else if same_text(key, "up") {
        Some(126)
    } else {
        None
    }
}

/// Appends the AppleScript name of `modifier` to `out`.
fn push_modifier_name(out: &mut String, modifier: &[char])
    ensures
        final(out)@ == old(out)@ + modifier_name(modifier@),
{
    if same_text(modifier, "cmd") || same_text(modifier, "command") {
        out.append("command down");
    } else if same_text(modifier, "ctrl") || same_text(modifier, "control") {
        out.append("control down");
    } else if same_text(modifier, "shift") {
        out.append("shift down");
    } else if same_text(modifier, "alt") || same_text(modifier, "opt") || same_text(
        modifier,
        "option",
    ) {
        out.append("option down");
    } else {
        push_chars(out, modifier);
    }
}

/// Appends the `using` clause for `modifiers` to `out`.
fn push_modifier_clause(out: &mut String, modifiers: &Vec<Vec<char>>)
    ensures
        final(out)@ == old(out)@ + modifier_clause(modifiers.deep_view()),
{
    let ghost mods = modifiers.deep_view();
    let ghost names = modifier_names(mods);
    if modifiers.len() == 0 {
        assert(out@ =~= old(out)@ + modifier_clause(mods));
    } else if modifiers.len() == 1 {
        out.append(" using ");
        push_modifier_name(out, modifiers[0].as_slice());
        assert(modifiers@[0]@ =~= mods[0]);
        assert(out@ =~= old(out)@ + modifier_clause(mods));
    } else {
        out.append(" using {");
        let ghost head = out@;
        push_modifier_name(out, modifiers[0].as_slice());
        assert(modifiers@[0]@ =~= mods[0]);
        assert(names.take(1) =~= seq![names[0]]);
        let mut i: usize = 1;
        while i < modifiers.len()
            invariant
                1 <= i <= modifiers.len(),
                mods == modifiers.deep_view(),
                names == modifier_names(mods),
                out@ == head + join(names.take(i as int), ", "@),
            decreases modifiers.len() - i,
        {
            let ghost before = out@;
            out.append(", ");
            push_modifier_name(out, modifiers[i].as_slice());
            proof {
                assert(modifiers@[i as int]@ =~= mods[i as int]);
                let upto = names.take(i + 1);
                assert(upto.drop_last() =~= names.take(i as int));
                assert(upto.last() == modifier_name(mods[i as int]));
                assert(out@ =~= head + join(upto, ", "@));
            }
            i += 1;
        }
        assert(names.take(i as int) =~= names);
        out.append("}");
        assert(out@ =~= old(out)@ + modifier_clause(mods));
    }
}

/// Builds the script that presses the key combination `combo`.
///
/// A named key (`return`, `tab`, an arrow, ...) is pressed by its key code,
/// any other key is typed as it stands. The parts before the last `+` are
/// the modifiers held down meanwhile.
pub fn keystroke_script(combo: &str) -> (script: String)
    ensures
        script@ == keystroke_text(combo@),
{
    let (modifiers, key) = parse_key_combo(combo);
    let mut script = String::new();
    match key_code_of(key.as_slice()) {
        Some(code) => {
            script.append("tell application \"System Events\" to key code ");
            push_decimal(&mut script, code as u64);
        },
        None => {
            script.append("tell application \"System Events\" to keystroke \"");
            push_chars(&mut script, key.as_slice());
            script.append("\"");
        },
    }
    push_modifier_clause(&mut script, &modifiers);
    assert(script@ =~= keystroke_text(combo@));
    script
}

/// Builds the script that types the character `ch`.
pub fn type_char_script(ch: char) -> (script: String)
    ensures
        script@ == type_char_text(ch),
{
    let mut script = String::from_str("tell application \"System Events\" to keystroke \"");
    let ghost head = script@;
    if ch == '"' {
        script.push('\\');
        script.push('"');
    } else if ch == '\\' {
        script.push('\\');
        script.push('\\');
    } else {
        script.push(ch);
    }
    assert(script@ =~= head + escaped_char(ch));
    script.append("\"");
    script
}

/// Builds the script that clears the terminal.
pub fn clear_script() -> (script: String)
    ensures
        script@ == clear_text(),
{
    keystroke_script("ctrl+l")
}

} // verus!
