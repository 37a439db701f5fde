//! Log lines: how they read, where they go, and when they are written.
use vstd::prelude::*;
use vstd::string::StringExecFns;

use crate::local_time;
use crate::local_time::LocalTime;
use crate::paths;
use crate::text;

verus! {

/// The syslog priority of a level.
pub open spec fn priority(level: Seq<char>) -> Seq<char> {
    if level == "ERROR"@ || level == "FATAL PANIC"@ {
        "3"@
    } else if level == "WARN"@ {
        "4"@
    } else if level == "DEBUG"@ {
        "7"@
    } else {
        "6"@
    }
}

/// The syslog priority of a level.
pub fn priority_for_level(level: &str) -> (r: &'static str)
    ensures
        r@ == priority(level@),
{
    if text::same(level, "ERROR") || text::same(level, "FATAL PANIC") {
        "3"
    } else if text::same(level, "WARN") {
        "4"
    } else if text::same(level, "DEBUG") {
        "7"
    } else {
        "6"
    }
}

/// A text with spaces behind it, up to a width.
pub open spec fn padded(s: Seq<char>, width: int) -> Seq<char>
    decreases width - s.len(),
{
    if s.len() < width {
        padded(s.push(' '), width)
    } else {
        s
    }
}

fn pad(s: &str, width: usize) -> (r: String)
    ensures
        r@ == padded(s@, width as int),
{
    let mut r: String = s.to_owned();
    while text::len_chars(r.as_str()) < width
        invariant
            padded(r@, width as int) == padded(s@, width as int),
        decreases width - r@.len(),
    {
        r.push(' ');
    }
    r
}

/// A line of the log: the time, the level, the tag and the message.
pub open spec fn log_line(ts: Seq<char>, level: Seq<char>, tag: Seq<char>, content: Seq<char>) -> Seq<char> {
    "["@ + ts + "] ["@ + padded(level, 5) + "] ["@ + tag + "] "@ + content
}

/// A line of the log.
pub fn format_log_line(ts: &str, level: &str, tag: &str, content: &str) -> (r: String)
    ensures
        r@ == log_line(ts@, level@, tag@, content@),
{
    let mut s: String = "[".to_owned();
    s.append(ts);
    s.append("] [");
    s.append(pad(level, 5).as_str());
    s.append("] [");
    s.append(tag);
    s.append("] ");
    s.append(content);
    s
}

/// A message to the journal: its fields, one on each line.
pub open spec fn journal_payload(tag: Seq<char>, content: Seq<char>, priority: Seq<char>) -> Seq<char> {
    "MESSAGE=["@ + tag + "] "@ + content + "\nSYSLOG_IDENTIFIER=niri-bar\nPRIORITY="@ + priority
        + "\nNIRI_TAG="@ + tag + "\n"@
}

/// A message to the journal.
pub fn format_journal_payload(tag: &str, content: &str, priority: &str) -> (r: String)
    ensures
        r@ == journal_payload(tag@, content@, priority@),
{
    let mut s: String = "MESSAGE=[".to_owned();
    s.append(tag);
    s.append("] ");
    s.append(content);
    s.append("\nSYSLOG_IDENTIFIER=niri-bar\nPRIORITY=");
    s.append(priority);
    s.append("\nNIRI_TAG=");
    s.append(tag);
    s.append("\n");
    s
}

/// The time of a line; `None` where there is no such time.
pub fn timestamp(now: &LocalTime) -> (r: Option<String>)
    ensures
        text::opt(r) == local_time::local_text(
            now.secs,
            now.nanos,
            now.offset,
            "%Y-%m-%d %H:%M:%S%.3f"@,
        ),
{
    now.format("%Y-%m-%d %H:%M:%S%.3f")
}

/// The environment asks for debug messages, by its `RUST_LOG` in lower case and its
/// `NIRI_BAR_DEBUG`.
pub open spec fn debug_asked(lowered: Option<Seq<char>>, niri_debug: Option<Seq<char>>) -> bool {
    (match lowered {
        Some(v) => text::has(v, "debug"@) || text::has(v, "trace"@) || v == "1"@,
        None => false,
    }) || (match niri_debug {
        Some(v) => v == "1"@ || text::same_but_case(v, "true"@),
        None => false,
    })
}

/// The environment asks for debug messages.
pub open spec fn debug_wanted(rust_log: Option<Seq<char>>, niri_debug: Option<Seq<char>>) -> bool {
    debug_asked(
        match rust_log {
            Some(v) => Some(text::lowercase(v)),
            None => None,
        },
        niri_debug,
    )
}

/// Whether the environment asks for debug messages, by its `RUST_LOG` in lower case and
/// its `NIRI_BAR_DEBUG`.
pub fn asks_for_debug(lowered: Option<&str>, niri_debug: Option<&str>) -> (r: bool)
    ensures
        r == debug_asked(text::opt_str(lowered), text::opt_str(niri_debug)),
{
    if let Some(v) = lowered {
        if text::contains(v, "debug") || text::contains(v, "trace") || text::same(v, "1") {
            return true;
        }
    }
    if let Some(v) = niri_debug {
        if text::same(v, "1") || text::eq_ignore_ascii_case(v, "true") {
            return true;
        }
    }
    false
}

/// Whether the environment asks for debug messages, by its `RUST_LOG` and
/// `NIRI_BAR_DEBUG`.
pub fn parse_debug_flag(rust_log: Option<&str>, niri_debug: Option<&str>) -> (r: bool)
    ensures
        r == debug_wanted(text::opt_str(rust_log), text::opt_str(niri_debug)),
{
    match rust_log {
        Some(v) => asks_for_debug(Some(text::to_lowercase(v).as_str()), niri_debug),
        None => asks_for_debug(None, niri_debug),
    }
}

/// The size above which the log file is put aside, in bytes.
pub const MAX_LOG_LEN: u64 = 5242880;

/// Whether a log file of this length is put aside.
pub fn should_rotate_log(len: u64) -> (r: bool)
    ensures
        r == (len > 5 * 1024 * 1024),
{
    len > MAX_LOG_LEN
}

/// The path of the log file, if there is one: in the directory for runtime files,
/// else in `/tmp` under the id of the user.
pub open spec fn log_path(
    runtime_dir: Option<Seq<char>>,
    uid: Option<Seq<char>>,
    euid: Option<Seq<char>>,
) -> Option<Seq<char>> {
    if runtime_dir is Some && !text::is_blank(runtime_dir->0) {
        Some(paths::joined(runtime_dir->0, "niri-bar.log"@))
    } else if uid is Some {
        Some("/tmp/niri-bar-"@ + uid->0 + ".log"@)
    } else if euid is Some {
        Some("/tmp/niri-bar-"@ + euid->0 + ".log"@)
    } else {
        None
    }
}

/// The path of the log file, by the environment's `XDG_RUNTIME_DIR`, `UID` and
/// `EUID`.
pub fn log_file_path(
    runtime_dir: Option<&str>,
    uid: Option<&str>,
    euid: Option<&str>,
) -> (r: Option<String>)
    ensures
        text::opt(r) == log_path(text::opt_str(runtime_dir), text::opt_str(uid), text::opt_str(euid)),
{
    if let Some(dir) = runtime_dir {
        if !text::blank(dir) {
            return Some(paths::join(dir, "niri-bar.log"));
        }
    }
    let user: &str = match uid {
        Some(u) => u,
        None => match euid {
            Some(u) => u,
            None => return None,
        },
    };
    let mut s: String = "/tmp/niri-bar-".to_owned();
    s.append(user);
    s.append(".log");
    Some(s)
}

/// What is done with the log file that is there.
#[derive(Debug, Clone, Copy, PartialEq, Eq, Structural)]
pub enum LogFileStep {
    /// A link is not written to.
    Refuse,
    /// It is put aside first.
    Rotate,
    Append,
}

/// What is done with the file at the path of the log: `existing` says whether it is a
/// link, and how long it is.
pub fn log_file_step(existing: Option<(bool, u64)>) -> (r: LogFileStep)
    ensures
        r == (match existing {
            Some((link, len)) => if link {
                LogFileStep::Refuse
            } else if len > 5 * 1024 * 1024 {
                LogFileStep::Rotate
            } else {
                LogFileStep::Append
            },
            None => LogFileStep::Append,
        }),
{
    match existing {
        Some((link, len)) => {
            if link {
                LogFileStep::Refuse
            } else if should_rotate_log(len) {
                LogFileStep::Rotate
            } else {
                LogFileStep::Append
            }
        },
        None => LogFileStep::Append,
    }
}

/// The words of a panic: where it happened, and what it said.
pub open spec fn panic_words(location: Option<Seq<char>>, message: Option<Seq<char>>) -> Seq<char> {
    "at "@ + (match location {
        Some(l) => l,
        None => "unknown"@,
    }) + ": "@ + (match message {
        Some(m) => m,
        None => "unspecified error payload"@,
    })
}

/// The words of a panic.
pub fn panic_message(location: Option<&str>, message: Option<&str>) -> (r: String)
    ensures
        r@ == panic_words(text::opt_str(location), text::opt_str(message)),
{
    let mut s: String = "at ".to_owned();
    s.append(
        match location {
            Some(l) => l,
            None => "unknown",
        },
    );
    s.append(": ");
    s.append(
        match message {
            Some(m) => m,
            None => "unspecified error payload",
        },
    );
    s
}

/// The levels and their priorities, which are those of syslog.
pub proof fn law_levels_have_their_priorities(level: Seq<char>)
    ensures
        priority("ERROR"@) == "3"@,
        priority("FATAL PANIC"@) == "3"@,
        priority("WARN"@) == "4"@,
        priority("DEBUG"@) == "7"@,
        level != "ERROR"@ && level != "FATAL PANIC"@ && level != "WARN"@ && level != "DEBUG"@
            ==> priority(level) == "6"@,
{
    reveal_strlit("ERROR");
    reveal_strlit("FATAL PANIC");
    reveal_strlit("WARN");
    reveal_strlit("DEBUG");
    assert("ERROR"@[0] == 'E' && "DEBUG"@[0] == 'D');
    assert("ERROR"@.len() == 5 && "FATAL PANIC"@.len() == 11 && "WARN"@.len() == 4 && "DEBUG"@.len()
        == 5);
}

/// A text that is too short gets spaces behind it up to the width; any other stays as it is.
pub proof fn law_short_text_gets_spaces(s: Seq<char>, spaces: Seq<char>, width: int)
    requires
        forall|i: int| 0 <= i < spaces.len() ==> spaces[i] == ' ',
        s.len() < width ==> spaces.len() == width - s.len(),
        s.len() >= width ==> spaces.len() == 0,
    ensures
        padded(s, width) == s + spaces,
    decreases width - s.len(),
{
    if s.len() < width {
        let rest = spaces.drop_first();
        assert forall|i: int| 0 <= i < rest.len() implies rest[i] == ' ' by {
            assert(rest[i] == spaces[i + 1]);
        }
        law_short_text_gets_spaces(s.push(' '), rest, width);
        assert(s.push(' ') + rest =~= s + spaces);
    } else {
        assert(s + spaces =~= s);
    }
}

/// A line says the time, the level over at least five characters, the tag and then the message.
pub proof fn law_line_says_all_in_order(
    ts: Seq<char>,
    level: Seq<char>,
    spaces: Seq<char>,
    tag: Seq<char>,
    content: Seq<char>,
)
    requires
        forall|i: int| 0 <= i < spaces.len() ==> spaces[i] == ' ',
        level.len() < 5 ==> spaces.len() == 5 - level.len(),
        level.len() >= 5 ==> spaces.len() == 0,
    ensures
        log_line(ts, level, tag, content) == "["@ + ts + "] ["@ + (level + spaces) + "] ["@ + tag
            + "] "@ + content,
{
    law_short_text_gets_spaces(level, spaces, 5);
}

/// A message to the journal holds the tag twice, before the message and in its own field, and
/// the priority between them.
pub proof fn law_journal_holds_its_fields(tag: Seq<char>, content: Seq<char>, level: Seq<char>)
    ensures
        journal_payload(tag, content, level) == ("MESSAGE=["@ + tag + "] "@ + content) + (
        "\nSYSLOG_IDENTIFIER=niri-bar\nPRIORITY="@ + level) + ("\nNIRI_TAG="@ + tag + "\n"@),
{
    assert(journal_payload(tag, content, level) =~= ("MESSAGE=["@ + tag + "] "@ + content) + (
    "\nSYSLOG_IDENTIFIER=niri-bar\nPRIORITY="@ + level) + ("\nNIRI_TAG="@ + tag + "\n"@));
}

/// Debug messages are asked for by either variable, and by no other value than these.
pub proof fn law_either_variable_asks_for_debug(log: Seq<char>, debug: Seq<char>)
    ensures
        !debug_wanted(None, None),
        debug_wanted(Some(log), None) <==> (text::has(text::lowercase(log), "debug"@) || text::has(
            text::lowercase(log),
            "trace"@,
        ) || text::lowercase(log) == "1"@),
        debug_wanted(None, Some(debug)) <==> (debug == "1"@ || text::same_but_case(
            debug,
            "true"@,
        )),
        debug_wanted(Some(log), Some(debug)) <==> (debug_wanted(Some(log), None) || debug_wanted(
            None,
            Some(debug),
        )),
        debug_asked(Some(text::lowercase(log)), Some(debug)) == debug_wanted(Some(log), Some(debug)),
{
}

/// The log stands in the directory for runtime files where that is set and not blank, else in
/// `/tmp` under the user's id, else under the effective one; without any of them there is none.
pub proof fn law_log_stands_in_the_runtime_directory(
    dir: Option<Seq<char>>,
    uid: Option<Seq<char>>,
    euid: Option<Seq<char>>,
    words: Seq<char>,
)
    ensures
        !text::is_blank(words) ==> log_path(Some(words), uid, euid) == Some(
            paths::joined(words, "niri-bar.log"@),
        ),
        dir is None || text::is_blank(dir->0) ==> {
            &&& log_path(dir, Some(words), euid) == Some("/tmp/niri-bar-"@ + words + ".log"@)
            &&& log_path(dir, None, Some(words)) == Some("/tmp/niri-bar-"@ + words + ".log"@)
            &&& log_path(dir, None, None) is None
        },
{
}

/// The words of a panic say where it happened and then what it said.
pub proof fn law_panic_says_where_and_what(place: Seq<char>, words: Seq<char>)
    ensures
        panic_words(Some(place), Some(words)) == "at "@ + place + ": "@ + words,
        panic_words(None, Some(words)) == "at "@ + "unknown"@ + ": "@ + words,
        panic_words(Some(place), None) == "at "@ + place + ": "@ + "unspecified error payload"@,
        panic_words(None, None) == "at "@ + "unknown"@ + ": "@ + "unspecified error payload"@,
{
}

} // verus!
