//! Style sheets: what is checked before they are used, and what is said of those
//! that cannot be.
use vstd::prelude::*;
use vstd::string::StringExecFns;

use crate::text;

verus! {

/// The sheet that is written on the first launch.
pub const DEFAULT_CSS: &'static str = r#".niri-bar {
    background-color: #1e1e2e;
    color: #cdd6f4;
    font-family: "Symbols Nerd Font", sans-serif;
    font-size: 12px;
}

.app-button {
    background-image: none;
    border: none;
    border-radius: 8px;
    padding: 2px;
}

.app-button.focused {
    background-color: #45475a;
}

.app-button.drag-placeholder {
    opacity: 0.6;
}

.module-item {
    background-image: none;
    border: none;
    padding: 4px;
}

.module-item.critical {
    color: #f38ba8;
}

.module-item.warning {
    color: #f9e2af;
}

.tray {
    padding: 2px;
}

.tray-item {
    background-image: none;
    border: none;
    padding: 2px;
}

.tray-menu {
    background-color: #313244;
    color: #cdd6f4;
}
"#;

/// The number of times that a character stands in a text.
pub open spec fn count(s: Seq<char>, c: char) -> nat
    decreases s.len(),
{
    if s.len() == 0 {
        0
    } else if s.last() == c {
        count(s.drop_last(), c) + 1
    } else {
        count(s.drop_last(), c)
    }
}

fn count_char(s: &str, c: char) -> (r: usize)
    ensures
        r == count(s@, c),
{
    let cs: Vec<char> = text::chars_of(s);
    let mut n: usize = 0;
    let mut i: usize = 0;
    while i < cs.len()
        invariant
            cs@ == s@,
            i <= cs@.len(),
            n <= i,
            n == count(s@.take(i as int), c),
        decreases cs@.len() - i,
    {
        assert(s@.take(i + 1).drop_last() =~= s@.take(i as int));
        assert(s@.take(i + 1).last() == cs@[i as int]);
        if cs[i] == c {
            n = n + 1;
        }
        i = i + 1;
    }
    assert(s@.take(i as int) =~= s@);
    n
}

/// What is said of a sheet whose braces do not match.
pub open spec fn brace_error(open: nat, close: nat) -> Seq<char> {
    "CSS error: mismatched curly braces: "@ + text::dec(open) + " '{' vs "@ + text::dec(close)
        + " '}'"@
}

/// What a style sheet is refused for: braces that do not match, else what the
/// toolkit says, where it was asked.
pub open spec fn sheet_error(css: Seq<char>, toolkit: Option<Seq<char>>) -> Option<Seq<char>> {
    if count(css, '{') != count(css, '}') {
        Some(brace_error(count(css, '{'), count(css, '}')))
    } else {
        match toolkit {
            Some(e) => Some("CSS error: "@ + e),
            None => None,
        }
    }
}

/// Checks that the braces of a style sheet match.
pub fn check_braces(css_content: &str) -> (r: Result<(), String>)
    ensures
        match r {
            Ok(_) => sheet_error(css_content@, None) is None,
            Err(e) => sheet_error(css_content@, None) == Some(e@),
        },
{
    let open: usize = count_char(css_content, '{');
    let close: usize = count_char(css_content, '}');
    if open != close {
        let mut s: String = "CSS error: mismatched curly braces: ".to_owned();
        s.append(text::decimal(open as u64).as_str());
        s.append(" '{' vs ");
        s.append(text::decimal(close as u64).as_str());
        s.append(" '}'");
        return Err(s);
    }
    Ok(())
}

/// Checks a style sheet. `toolkit` is what the toolkit says against it, where it was
/// asked and says anything.
pub fn validate_css(css_content: &str, toolkit: Option<&str>) -> (r: Result<(), String>)
    ensures
        match r {
            Ok(_) => sheet_error(css_content@, text::opt_str(toolkit)) is None,
            Err(e) => sheet_error(css_content@, text::opt_str(toolkit)) == Some(e@),
        },
{
    match check_braces(css_content) {
        Ok(_) => {},
        Err(e) => return Err(e),
    }
    match toolkit {
        Some(e) => Err(text::concat("CSS error: ", e)),
        None => Ok(()),
    }
}

/// What is said of a style sheet that cannot be read.
pub open spec fn unreadable(path: Seq<char>, error: Seq<char>) -> Seq<char> {
    "Failed to read "@ + path + ": "@ + error
}

/// What is said of a style sheet that cannot be read.
pub fn read_error(path: &str, error: &str) -> (r: String)
    ensures
        r@ == unreadable(path@, error@),
{
    let mut s: String = "Failed to read ".to_owned();
    s.append(path);
    s.append(": ");
    s.append(error);
    s
}

/// What is shown at the start: what the toolkit says against the sheet, else that the
/// sheet could not be read.
pub open spec fn first_error(
    read: Option<(Seq<char>, Seq<char>)>,
    toolkit: Option<Seq<char>>,
) -> Option<Seq<char>> {
    match toolkit {
        Some(e) => Some("CSS error: "@ + e),
        None => match read {
            Some((path, error)) => Some("CSS error: "@ + unreadable(path, error)),
            None => None,
        },
    }
}

/// What is shown at the start. `read` is the path of the sheet and why it could not
/// be read; `toolkit` is what the toolkit says against the sheet that is used.
pub fn startup_error(read: Option<(&str, &str)>, toolkit: Option<&str>) -> (r: Option<String>)
    ensures
        text::opt(r) == first_error(
            match read {
                Some((p, e)) => Some((p@, e@)),
                None => None,
            },
            text::opt_str(toolkit),
        ),
{
    match toolkit {
        Some(e) => Some(text::concat("CSS error: ", e)),
        None => match read {
            Some((path, error)) => Some(
                text::concat("CSS error: ", read_error(path, error).as_str()),
            ),
            None => None,
        },
    }
}

/// Reads the style sheet anew: its content where it can be used, else what is said
/// against it. `read` is the content, or the path and why it could not be read.
pub fn reload_styles(read: Result<&str, (&str, &str)>, toolkit: Option<&str>) -> (r: Result<(), String>)
    ensures
        match read {
            Ok(css) => match r {
                Ok(_) => sheet_error(css@, text::opt_str(toolkit)) is None,
                Err(e) => sheet_error(css@, text::opt_str(toolkit)) == Some(e@),
            },
            Err((path, error)) => r matches Err(e) && e@ == unreadable(path@, error@),
        },
{
    match read {
        Ok(css) => validate_css(css, toolkit),
        Err((path, error)) => Err(read_error(path, error)),
    }
}

/// Characters are counted one by one: in two texts there are as many as in both together.
pub proof fn law_characters_are_counted(a: Seq<char>, b: Seq<char>, c: char, d: char)
    ensures
        count(Seq::empty(), c) == 0,
        count(seq![c], c) == 1,
        c != d ==> count(seq![d], c) == 0,
        count(a + b, c) == count(a, c) + count(b, c),
    decreases b.len(),
{
    assert(seq![c].drop_last() =~= Seq::empty());
    assert(seq![d].drop_last() =~= Seq::empty());
    if b.len() == 0 {
        assert(a + b =~= a);
    } else {
        law_characters_are_counted(a, b.drop_last(), c, d);
        assert((a + b).drop_last() =~= a + b.drop_last());
        assert((a + b).last() == b.last());
    }
}

/// A sheet with as many opening as closing braces that the toolkit has nothing against is taken;
/// one with other braces is refused with both numbers, whatever the toolkit says; else the
/// toolkit's words are passed on.
pub proof fn law_sheet_is_refused_for_its_braces(css: Seq<char>, toolkit: Option<Seq<char>>)
    ensures
        sheet_error(css, toolkit) is None <==> count(css, '{') == count(css, '}') && toolkit is None,
        count(css, '{') != count(css, '}') ==> sheet_error(css, toolkit) == Some(
            "CSS error: mismatched curly braces: "@ + text::dec(count(css, '{')) + " '{' vs "@
                + text::dec(count(css, '}')) + " '}'"@,
        ),
        count(css, '{') == count(css, '}') && toolkit is Some ==> sheet_error(css, toolkit) == Some(
            "CSS error: "@ + toolkit->0,
        ),
{
}

/// At the start, what the toolkit says comes before what kept the sheet from being read, which
/// names the path and then the reason.
pub proof fn law_toolkit_speaks_first(path: Seq<char>, error: Seq<char>, words: Seq<char>)
    ensures
        unreadable(path, error) == "Failed to read "@ + path + ": "@ + error,
        first_error(None, None) is None,
        first_error(Some((path, error)), None) == Some(
            "CSS error: "@ + ("Failed to read "@ + path + ": "@ + error),
        ),
        first_error(None, Some(words)) == Some("CSS error: "@ + words),
        first_error(Some((path, error)), Some(words)) == Some("CSS error: "@ + words),
{
}

} // verus!
