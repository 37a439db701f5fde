//! The volume: how it and the audio outputs are read, shown and changed.
use vstd::prelude::*;
use vstd::string::StringExecFns;

use crate::config;
use crate::config::{resolve_level, VolumeConfig};
use crate::modules;
use crate::modules::{
    poll_backoff, push_class, push_level, shell_command, BarModule, Commands, ModuleState, MouseButton,
    Orientation, ScrollDirection, StateModel,
};
use crate::text;

verus! {

// ---------------------------------------------------------------------------
// Outputs
// ---------------------------------------------------------------------------

/// The kind of an audio output.
#[derive(Debug, Clone, Copy, PartialEq, Eq, Structural)]
pub enum SinkType {
    Speaker,
    Headphones,
    Headset,
    Bluetooth,
    Hdmi,
}

/// An audio output.
#[derive(Debug, Clone, PartialEq, Eq)]
pub struct SinkInfo {
    pub name: String,
    pub description: String,
    pub sink_type: SinkType,
    pub is_bluetooth: bool,
}

/// What a `SinkInfo` says.
pub ghost struct SinkModel {
    pub name: Seq<char>,
    pub description: Seq<char>,
    pub sink_type: SinkType,
    pub is_bluetooth: bool,
}

impl SinkInfo {
    /// What this output says.
    pub open spec fn model(self) -> SinkModel {
        SinkModel {
            name: self.name@,
            description: self.description@,
            sink_type: self.sink_type,
            is_bluetooth: self.is_bluetooth,
        }
    }
}

/// What outputs say.
pub open spec fn sink_models(v: Seq<SinkInfo>) -> Seq<SinkModel> {
    v.map_values(|s: SinkInfo| s.model())
}

fn same_sink(a: &SinkInfo, b: &SinkInfo) -> (r: bool)
    ensures
        r == (a.model() == b.model()),
{
    text::same(a.name.as_str(), b.name.as_str()) && text::same(
        a.description.as_str(),
        b.description.as_str(),
    ) && a.sink_type == b.sink_type && a.is_bluetooth == b.is_bluetooth
}

fn copy_sink(s: &SinkInfo) -> (r: SinkInfo)
    ensures
        r.model() == s.model(),
{
    SinkInfo {
        name: s.name.clone(),
        description: s.description.clone(),
        sink_type: s.sink_type,
        is_bluetooth: s.is_bluetooth,
    }
}

/// The name that stands for the output that is the default.
pub open spec fn default_name() -> Seq<char> {
    "@DEFAULT_AUDIO_SINK@"@
}

/// The output that stands for the default where none can be read.
pub open spec fn unknown_sink() -> SinkModel {
    SinkModel {
        name: default_name(),
        description: "Default Output"@,
        sink_type: SinkType::Speaker,
        is_bluetooth: false,
    }
}

/// The output that stands for the default where none can be read.
pub fn default_sink() -> (r: SinkInfo)
    ensures
        r.model() == unknown_sink(),
{
    SinkInfo {
        name: "@DEFAULT_AUDIO_SINK@".to_owned(),
        description: "Default Output".to_owned(),
        sink_type: SinkType::Speaker,
        is_bluetooth: false,
    }
}

/// The words about an output that its kind is told from, in lower case.
pub ghost struct SinkWords {
    pub name: Seq<char>,
    pub desc: Seq<char>,
    pub form_factor: Seq<char>,
    pub icon: Seq<char>,
    pub bus: Seq<char>,
    pub port: Seq<char>,
}

/// A text in lower case; nothing where there is none.
pub open spec fn lower(s: Option<Seq<char>>) -> Seq<char> {
    match s {
        Some(t) => text::lowercase(t),
        None => text::lowercase(""@),
    }
}

/// The output is a bluetooth device.
pub open spec fn says_bluetooth(w: SinkWords) -> bool {
    w.bus == "bluetooth"@ || text::begins(w.name, "bluez_"@) || text::has(w.icon, "bluetooth"@)
}

/// The output is a headset.
pub open spec fn says_headset(w: SinkWords) -> bool {
    w.form_factor == "headset"@ || text::has(w.icon, "headset"@) || text::has(w.port, "headset"@)
        || text::has(w.desc, "headset"@)
}

/// The output is a pair of headphones.
pub open spec fn says_headphones(w: SinkWords) -> bool {
    w.form_factor == "headphone"@ || text::has(w.icon, "headphone"@) || text::has(w.port, "headphone"@)
        || text::has(w.desc, "headphone"@) || text::has(w.desc, "earphone"@) || text::has(
        w.desc,
        "buds"@,
    ) || text::has(w.desc, "airpod"@) || text::has(w.desc, "wh-1000"@)
}

/// The output is a screen.
pub open spec fn says_hdmi(w: SinkWords) -> bool {
    text::has(w.name, "hdmi"@) || text::has(w.desc, "hdmi"@) || text::has(w.desc, "displayport"@)
        || text::has(w.port, "hdmi"@)
}

/// The kind of an output, and whether it is a bluetooth device.
pub open spec fn kind_by(w: SinkWords) -> (SinkType, bool) {
    let kind = if says_bluetooth(w) && (says_headphones(w) || says_headset(w)) {
        SinkType::Bluetooth
    } else if says_headphones(w) {
        SinkType::Headphones
    } else if says_headset(w) {
        SinkType::Headset
    } else if says_bluetooth(w) {
        SinkType::Bluetooth
    } else if says_hdmi(w) {
        SinkType::Hdmi
    } else {
        SinkType::Speaker
    };
    (kind, says_bluetooth(w))
}

/// The words about an output of which only the name and the description are known.
pub open spec fn plain_words(name: Seq<char>, desc: Seq<char>) -> SinkWords {
    SinkWords {
        name: text::lowercase(name),
        desc: text::lowercase(desc),
        form_factor: lower(None),
        icon: lower(None),
        bus: lower(None),
        port: lower(None),
    }
}

fn to_lower(s: Option<&str>) -> (r: String)
    ensures
        r@ == lower(text::opt_str(s)),
{
    match s {
        Some(t) => text::to_lowercase(t),
        None => text::to_lowercase(""),
    }
}

// ---------------------------------------------------------------------------
// Listings
// ---------------------------------------------------------------------------

/// A character that draws the lines of a listing.
pub open spec fn draws_lines(c: char) -> bool {
    c == '\u{2502}' || c == '\u{251c}' || c == '\u{2514}' || c == '\u{2500}'
}

/// Any character that does not draw the lines of a listing.
pub open spec fn is_content() -> spec_fn(char) -> bool {
    |c: char| !draws_lines(c)
}

/// Every character is a digit.
pub open spec fn all_digits(s: Seq<char>) -> bool {
    forall|i: int| 0 <= i < s.len() ==> '0' as int <= (#[trigger] s[i]) as int <= '9' as int
}

/// The output that a line of a listing is, and whether it is marked as the default.
pub open spec fn sink_line(line: Seq<char>) -> Option<(SinkModel, bool)> {
    let cleaned = text::trimmed(line.filter(is_content()));
    let content = text::trimmed(text::without_leading(cleaned, '*'));
    let dot = text::char_from(content, '.', 0);
    let id = text::trimmed(content.take(dot));
    let desc = text::trimmed(text::before(content.skip(dot + 1), "[vol:"@));
    if cleaned.len() > 0 && content.contains('.') && id.len() > 0 && all_digits(id) {
        Some(
            (
                SinkModel {
                    name: id,
                    description: desc,
                    sink_type: kind_by(plain_words(id, desc)).0,
                    is_bluetooth: kind_by(plain_words(id, desc)).1,
                },
                cleaned[0] == '*',
            ),
        )
    } else {
        None
    }
}

/// Where in a listing one is, and the outputs so far.
pub ghost struct ListingModel {
    pub in_audio: bool,
    pub in_sinks: bool,
    pub sinks: Seq<SinkModel>,
    pub default: Option<int>,
}

/// A listing with one more line. Outputs stand under their heading, in the part about
/// audio.
pub open spec fn listing_step(l: ListingModel, line: Seq<char>) -> ListingModel {
    let t = text::trimmed(line);
    if t == "Audio"@ {
        ListingModel { in_audio: true, ..l }
    } else if t == "Video"@ || t == "Settings"@ {
        ListingModel { in_audio: false, in_sinks: false, ..l }
    } else if !l.in_audio {
        l
    } else if text::has(line, "Sinks:"@) {
        ListingModel { in_sinks: true, ..l }
    } else if l.in_sinks && (text::has(line, "Sources:"@) || text::has(line, "Filters:"@) || text::has(
        line,
        "Streams:"@,
    )) {
        ListingModel { in_sinks: false, ..l }
    } else if l.in_sinks {
        match sink_line(line) {
            Some((s, is_default)) => ListingModel {
                sinks: l.sinks.push(s),
                default: if is_default {
                    Some(l.sinks.len() as int)
                } else {
                    l.default
                },
                ..l
            },
            None => l,
        }
    } else {
        l
    }
}

/// What the lines of a listing say.
pub open spec fn listing(lines: Seq<Seq<char>>) -> ListingModel
    decreases lines.len(),
{
    if lines.len() == 0 {
        ListingModel { in_audio: false, in_sinks: false, sinks: Seq::empty(), default: None }
    } else {
        listing_step(listing(lines.drop_last()), lines.last())
    }
}

/// The default of a listing is one of its outputs, and every output has a number for a
/// name.
pub proof fn law_listing_is_sound(lines: Seq<Seq<char>>)
    ensures
        listing(lines).default matches Some(i) ==> 0 <= i < listing(lines).sinks.len(),
        forall|i: int|
            0 <= i < listing(lines).sinks.len() ==> (#[trigger] listing(lines).sinks[i]).name.len() > 0
                && all_digits(listing(lines).sinks[i].name),
    decreases lines.len(),
{
    if lines.len() > 0 {
        law_listing_is_sound(lines.drop_last());
    }
}

fn strip_lines(s: &str) -> (r: String)
    ensures
        r@ == s@.filter(is_content()),
{
    let cs: Vec<char> = text::chars_of(s);
    let mut r: String = String::new();
    let mut i: usize = 0;
    assert(r@ =~= s@.take(0).filter(is_content())) by {
        reveal(Seq::filter);
    }
    while i < cs.len()
        invariant
            cs@ == s@,
            i <= cs@.len(),
            r@ == s@.take(i as int).filter(is_content()),
        decreases cs@.len() - i,
    {
        proof {
            reveal(Seq::filter);
            assert(s@.take(i + 1).drop_last() =~= s@.take(i as int));
            assert(s@.take(i + 1).last() == cs@[i as int]);
        }
        let c: char = cs[i];
        if c != '\u{2502}' && c != '\u{251c}' && c != '\u{2514}' && c != '\u{2500}' {
            r.push(c);
        }
        i = i + 1;
    }
    assert(s@.take(i as int) =~= s@);
    r
}

fn is_digit(c: char) -> (r: bool)
    ensures
        r == ('0' as int <= c as int <= '9' as int),
{
    '0' <= c && c <= '9'
}

fn digits_only(s: &str) -> (r: bool)
    ensures
        r == all_digits(s@),
{
    let cs: Vec<char> = text::chars_of(s);
    let mut i: usize = 0;
    while i < cs.len()
        invariant
            cs@ == s@,
            i <= cs@.len(),
            forall|k: int| 0 <= k < i ==> '0' as int <= (#[trigger] cs@[k]) as int <= '9' as int,
        decreases cs@.len() - i,
    {
        if !is_digit(cs[i]) {
            assert(!('0' as int <= s@[i as int] as int <= '9' as int));
            return false;
        }
        i = i + 1;
    }
    true
}

fn read_sink_line(line: &str) -> (r: Option<(SinkInfo, bool)>)
    ensures
        match r {
            Some((s, d)) => sink_line(line@) == Some((s.model(), d)),
            None => sink_line(line@) is None,
        },
{
    let cleaned: String = text::trim(strip_lines(line).as_str());
    let cs: Vec<char> = text::chars_of(cleaned.as_str());
    if cs.len() == 0 {
        return None;
    }
    let is_default: bool = cs[0] == '*';
    let content: String = text::trim(text::trim_start_char(cleaned.as_str(), '*').as_str());
    match text::split_once(content.as_str(), '.') {
        Some((id_part, rest)) => {
            let id: String = text::trim(id_part.as_str());
            if text::len_chars(id.as_str()) == 0 || !digits_only(id.as_str()) {
                return None;
            }
            let desc: String = text::trim(text::text_before(rest.as_str(), "[vol:").as_str());
            let (sink_type, is_bluetooth) = VolumeModule::classify_sink(
                id.as_str(),
                desc.as_str(),
                None,
                None,
                None,
                None,
            );
            Some((SinkInfo { name: id, description: desc, sink_type, is_bluetooth }, is_default))
        },
        None => None,
    }
}

/// The output of a listing that is used: the default, else the first.
pub open spec fn used_sink(l: ListingModel) -> Option<SinkModel> {
    if l.default is Some {
        Some(l.sinks[l.default->0])
    } else if l.sinks.len() > 0 {
        Some(l.sinks[0])
    } else {
        None
    }
}

impl VolumeModule {
    /// The output that is used, by a listing where there is one.
    pub fn read_current_sink(status: Option<&str>) -> (r: SinkInfo)
        ensures
            r.model() == (match status {
                Some(s) => match used_sink(listing(text::lines_of(s@))) {
                    Some(m) => m,
                    None => unknown_sink(),
                },
                None => unknown_sink(),
            }),
    {
        if let Some(s) = status {
            let (sinks, default) = VolumeModule::parse_wpctl_sinks(s);
            proof {
                law_listing_is_sound(text::lines_of(s@));
            }
            if let Some(i) = default {
                assert(sink_models(sinks@)[i as int] == sinks@[i as int].model());
                return copy_sink(&sinks[i]);
            }
            if sinks.len() > 0 {
                assert(sink_models(sinks@)[0] == sinks@[0].model());
                return copy_sink(&sinks[0]);
            }
        }
        default_sink()
    }
}

/// The index after `cur` among `n`; the first comes after the last.
pub open spec fn after_index(cur: int, n: int) -> int {
    (cur + 1) % n
}

/// The name of the output after the one that is used.
pub open spec fn next_name(l: ListingModel) -> Option<Seq<char>> {
    let cur = match l.default {
        Some(i) => i,
        None => 0,
    };
    if l.sinks.len() == 0 {
        None
    } else {
        Some(l.sinks[after_index(cur, l.sinks.len() as int)].name)
    }
}

/// The name of the output that is used next, by a listing; `None` where it has none.
pub fn next_sink(status: &str) -> (r: Option<String>)
    ensures
        text::opt(r) == next_name(listing(text::lines_of(status@))),
{
    let (sinks, default) = VolumeModule::parse_wpctl_sinks(status);
    proof {
        law_listing_is_sound(text::lines_of(status@));
    }
    let n: usize = sinks.len();
    if n == 0 {
        return None;
    }
    let cur: usize = match default {
        Some(i) => i,
        None => 0,
    };
    assert(cur < n);
    let next: usize = (cur + 1) % n;
    assert(sink_models(sinks@)[next as int] == sinks@[next as int].model());
    Some(sinks[next].name.clone())
}

/// The output that is used after `k` switches among `n`, where each switch goes
/// to the next.
pub open spec fn switched(cur: int, n: int, k: nat) -> int
    decreases k,
{
    if k == 0 {
        cur
    } else {
        after_index(switched(cur, n, (k - 1) as nat), n)
    }
}

/// How many switches lead from `cur` to `i`.
pub open spec fn switches_to(cur: int, n: int, i: int) -> nat {
    if i >= cur {
        (i - cur) as nat
    } else {
        (i - cur + n) as nat
    }
}

/// Switching outputs goes round: every output is reached, and after as many
/// switches as there are outputs the first one is used again.
pub proof fn law_outputs_go_round(cur: int, n: int)
    requires
        0 <= cur < n,
    ensures
        forall|k: nat| #[trigger] switched(cur, n, k) == (cur + k) % n,
        switched(cur, n, n as nat) == cur,
        forall|i: int|
            0 <= i < n ==> switched(cur, n, #[trigger] switches_to(cur, n, i)) == i,
{
    assert forall|k: nat| #[trigger] switched(cur, n, k) == (cur + k) % n by {
        lemma_switched(cur, n, k);
    }
    vstd::arithmetic::div_mod::lemma_mod_add_multiples_vanish(cur, n);
    vstd::arithmetic::div_mod::lemma_small_mod(cur as nat, n as nat);
    assert forall|i: int| 0 <= i < n implies switched(
        cur,
        n,
        #[trigger] switches_to(cur, n, i),
    ) == i by {
        lemma_switched(cur, n, switches_to(cur, n, i));
        vstd::arithmetic::div_mod::lemma_small_mod(i as nat, n as nat);
        vstd::arithmetic::div_mod::lemma_mod_add_multiples_vanish(i, n);
    }
}

proof fn lemma_switched(cur: int, n: int, k: nat)
    requires
        0 <= cur < n,
    ensures
        switched(cur, n, k) == (cur + k) % n,
    decreases k,
{
    if k == 0 {
        vstd::arithmetic::div_mod::lemma_small_mod(cur as nat, n as nat);
    } else {
        lemma_switched(cur, n, (k - 1) as nat);
        vstd::arithmetic::div_mod::lemma_add_mod_noop(cur + k - 1, 1, n);
        vstd::arithmetic::div_mod::lemma_add_mod_noop((cur + k - 1) % n, 1, n);
        vstd::arithmetic::div_mod::lemma_mod_twice(cur + k - 1, n);
    }
}

// ---------------------------------------------------------------------------
// Volume
// ---------------------------------------------------------------------------

impl VolumeModule {
    /// The volume in percent and whether it is muted, by what the audio service prints.
    /// `percent` is the first number of that in percent, where there is one.
    pub fn read_system_volume(output: Option<&str>, percent: Option<u32>) -> (r: (u32, bool))
        ensures
            r == (match (output, percent) {
                (Some(o), Some(p)) => (p, text::has(o@, "[MUTED]"@)),
                _ => (50u32, false),
            }),
    {
        match (output, percent) {
            (Some(o), Some(p)) => (p, text::contains(o, "[MUTED]")),
            _ => (50, false),
        }
    }
}

/// A number of hundredths, with two digits behind the point.
pub open spec fn hundredths(n: nat) -> Seq<char> {
    text::dec(n / 100) + "."@ + seq![text::digit((n / 10) % 10), text::digit(n % 10)]
}

fn format_hundredths(n: u32) -> (r: String)
    ensures
        r@ == hundredths(n as nat),
{
    let mut s: String = text::decimal((n / 100) as u64);
    s.append(".");
    let tens: String = text::decimal(((n / 10) % 10) as u64);
    let ones: String = text::decimal((n % 10) as u64);
    s.append(tens.as_str());
    s.append(ones.as_str());
    assert(s@ =~= hundredths(n as nat));
    s
}

/// The step by which the volume changes.
pub open spec fn step_of(step: u32) -> nat {
    if step == 0 {
        10
    } else {
        step as nat
    }
}

/// The highest volume.
pub open spec fn max_of(max_volume: u32) -> nat {
    if max_volume == 0 {
        100
    } else {
        max_volume as nat
    }
}

/// The volume, and whether the sound is off, after a click with the left button that
/// runs no command.
pub open spec fn left_click(vol: nat, muted: bool, step: u32, max_volume: u32) -> (nat, bool) {
    if vol > 0 {
        (vol, !muted)
    } else if step_of(step) < max_of(max_volume) {
        (step_of(step), false)
    } else {
        (max_of(max_volume), false)
    }
}

/// The command that turns the sound on and changes the volume.
pub open spec fn set_command(max: nat, arg: Seq<char>) -> Seq<char> {
    "wpctl set-mute @DEFAULT_AUDIO_SINK@ 0 && wpctl set-volume -l "@ + hundredths(max)
        + " @DEFAULT_AUDIO_SINK@ "@ + arg
}

fn format_set_command(max: u32, arg: &str) -> (r: String)
    ensures
        r@ == set_command(max as nat, arg@),
{
    let mut s: String = "wpctl set-mute @DEFAULT_AUDIO_SINK@ 0 && wpctl set-volume -l ".to_owned();
    s.append(format_hundredths(max).as_str());
    s.append(" @DEFAULT_AUDIO_SINK@ ");
    s.append(arg);
    s
}

// ---------------------------------------------------------------------------
// What is shown
// ---------------------------------------------------------------------------

/// The icon for a kind of output, where it is not the speaker.
pub open spec fn icon_for(t: SinkType) -> Option<Seq<char>> {
    match t {
        SinkType::Bluetooth | SinkType::Headphones | SinkType::Headset => Some("\u{f02cb}"@),
        SinkType::Hdmi => Some("\u{f0379}"@),
        SinkType::Speaker => None,
    }
}

/// A text begins with the icon of a speaker.
pub open spec fn has_speaker(s: Seq<char>) -> bool {
    text::begins(s, "\u{f026}"@) || text::begins(s, "\u{f027}"@) || text::begins(s, "\u{f028}"@)
}

/// A text with the icon for a kind of output in place of that of a speaker.
pub open spec fn adapted(s: Seq<char>, t: SinkType) -> Seq<char> {
    match icon_for(t) {
        Some(icon) => if has_speaker(s) {
            icon + s.skip(1)
        } else {
            s
        },
        None => s,
    }
}

/// The classes of a kind of output.
pub open spec fn sink_classes(t: SinkType) -> Seq<Seq<char>> {
    match t {
        SinkType::Speaker => seq!["sink-speaker"@],
        SinkType::Headphones => seq!["sink-headphones"@],
        SinkType::Headset => seq!["sink-headset"@, "sink-headphones"@],
        SinkType::Bluetooth => seq!["sink-bluetooth"@, "sink-headphones"@],
        SinkType::Hdmi => seq!["sink-hdmi"@],
    }
}

/// The word for a kind of output.
pub open spec fn sink_word(t: SinkType) -> Seq<char> {
    match t {
        SinkType::Speaker => "Speaker"@,
        SinkType::Headphones => "Headphones"@,
        SinkType::Headset => "Headset"@,
        SinkType::Bluetooth => "Bluetooth"@,
        SinkType::Hdmi => "HDMI"@,
    }
}

/// The levels that the configuration has for a kind of output alone.
pub open spec fn levels_for(config: VolumeConfig, t: SinkType) -> Option<config::Templates> {
    config.own_levels(
        t == SinkType::Bluetooth,
        t == SinkType::Headphones || t == SinkType::Headset,
        t == SinkType::Hdmi,
    )
}

/// The levels for a kind of output.
pub open spec fn used_levels(config: VolumeConfig, t: SinkType) -> Map<Seq<char>, String> {
    match levels_for(config, t) {
        Some(l) => l@,
        None => config.levels@,
    }
}

/// The template for a volume that is muted.
pub open spec fn special_of(is_muted: bool) -> Option<Seq<char>> {
    if is_muted {
        Some("muted"@)
    } else {
        None
    }
}

/// The classes for a volume that is not to be heard.
pub open spec fn muted_classes(volume: u32, is_muted: bool) -> Seq<Seq<char>> {
    if is_muted || volume == 0 {
        seq!["muted"@]
    } else {
        Seq::empty()
    }
}

/// What is shown of a volume: the text of its level, with the icon for the output where
/// that has no levels of its own.
pub open spec fn shows_volume(
    config: VolumeConfig,
    volume: u32,
    is_muted: bool,
    sink: SinkModel,
    m: StateModel,
) -> bool {
    &&& m.icon is None
    &&& m.tooltip == Some("["@ + sink_word(sink.sink_type) + "] "@ + sink.description)
    &&& exists|words: Seq<char>, t: Option<u32>|
        {
            &&& #[trigger] config::is_level(
                used_levels(config, sink.sink_type),
                volume as nat,
                special_of(is_muted),
                (words, t),
            )
            &&& m.text == Some(
                if levels_for(config, sink.sink_type) is None {
                    adapted(words, sink.sink_type)
                } else {
                    words
                },
            )
            &&& m.classes == muted_classes(volume, is_muted) + modules::level_classes(t)
                + sink_classes(sink.sink_type)
        }
}

/// What a click on the module does.
#[derive(Debug, Clone, PartialEq, Eq)]
pub enum VolumeClick {
    Nothing,
    /// A command of the configuration is run.
    Run(String),
    /// The new volume is shown, and the command that sets it is run.
    Change(String),
    /// The next output is used.
    CycleSink,
}

/// What follows from a reading.
#[derive(Debug, Clone, Copy, PartialEq, Eq, Structural)]
pub struct VolumeChange {
    /// The sound is to be turned on.
    pub unmute: bool,
    /// The volume is to be shown anew.
    pub changed: bool,
}

/// How long after a step of scrolling another one is ignored, in milliseconds.
pub const SCROLL_INTERVAL_MS: u64 = 60;

/// The time that passed between two readings of a clock that starts over after its last
/// number.
pub open spec fn passed(last: u64, now: u64) -> int {
    if now >= last {
        now - last
    } else {
        now + 0x1_0000_0000_0000_0000 - last
    }
}

/// The volume.
#[derive(Debug, Clone)]
pub struct VolumeModule {
    pub config: VolumeConfig,
    pub current_vol: u32,
    pub is_muted: bool,
    pub current_sink: SinkInfo,
}

impl VolumeModule {
    /// A volume module with a configuration, before the first reading.
    pub fn new(config: VolumeConfig) -> (r: Self)
        ensures
            r.config == config,
            r.current_vol == 50,
            !r.is_muted,
            r.current_sink.model() == unknown_sink(),
    {
        VolumeModule {
            config,
            current_vol: 50,
            is_muted: false,
            current_sink: default_sink(),
        }
    }

    /// Whether a line of the audio service's monitor is about a change of the volume.
    pub fn is_volume_event_line(line: &str) -> (r: bool)
        ensures
            r == (text::has(line@, "channelVolumes"@) || text::has(line@, "Props:volume"@) || text::has(
                line@,
                "Props:mute"@,
            ) || text::has(line@, "ParamId:Route"@) || text::has(line@, "Audio/Sink"@)),
    {
        text::contains(line, "channelVolumes") || text::contains(line, "Props:volume")
            || text::contains(line, "Props:mute") || text::contains(line, "ParamId:Route")
            || text::contains(line, "Audio/Sink")
    }

    /// The outputs of a listing, and the position of the default.
    pub fn parse_wpctl_sinks(output: &str) -> (r: (Vec<SinkInfo>, Option<usize>))
        ensures
            ({
                let l = listing(text::lines_of(output@));
                sink_models(r.0@) == l.sinks && match r.1 {
                    Some(i) => l.default == Some(i as int),
                    None => l.default is None,
                }
            }),
    {
        let lines: Vec<String> = text::lines(output);
        let ghost all: Seq<Seq<char>> = text::strs(lines@);
        let mut sinks: Vec<SinkInfo> = Vec::new();
        let mut default_idx: Option<usize> = None;
        let mut in_audio: bool = false;
        let mut in_sinks: bool = false;
        let mut i: usize = 0;
        assert(all.take(0) =~= Seq::empty());
        assert(sink_models(sinks@) =~= Seq::empty());
        while i < lines.len()
            invariant
                i <= lines@.len(),
                all == text::strs(lines@),
                ({
                    let l = listing(all.take(i as int));
                    &&& l.in_audio == in_audio
                    &&& l.in_sinks == in_sinks
                    &&& l.sinks == sink_models(sinks@)
                    &&& match default_idx {
                        Some(k) => l.default == Some(k as int),
                        None => l.default is None,
                    }
                }),
            decreases lines@.len() - i,
        {
            assert(all.take(i + 1).drop_last() =~= all.take(i as int));
            assert(all.take(i + 1).last() == lines@[i as int]@);
            let line: &str = lines[i].as_str();
            let trimmed: String = text::trim(line);
            if text::same(trimmed.as_str(), "Audio") {
                in_audio = true;
            } else if text::same(trimmed.as_str(), "Video") || text::same(
                trimmed.as_str(),
                "Settings",
            ) {
                in_audio = false;
                in_sinks = false;
            } else if in_audio {
                if text::contains(line, "Sinks:") {
                    in_sinks = true;
                } else if in_sinks && (text::contains(line, "Sources:") || text::contains(
                    line,
                    "Filters:",
                ) || text::contains(line, "Streams:")) {
                    in_sinks = false;
                } else if in_sinks {
                    if let Some((sink, is_default)) = read_sink_line(line) {
                        if is_default {
                            default_idx = Some(sinks.len());
                        }
                        let ghost before: Seq<SinkInfo> = sinks@;
                        sinks.push(sink);
                        assert(sink_models(sinks@) =~= sink_models(before).push(sink.model()));
                    }
                }
            }
            i = i + 1;
        }
        assert(all.take(i as int) =~= all);
        (sinks, default_idx)
    }

    /// The kind of an output, and whether it is a bluetooth device, by the words about
    /// it.
    pub fn classify_sink(
        name: &str,
        desc: &str,
        form_factor: Option<&str>,
        icon_name: Option<&str>,
        bus: Option<&str>,
        active_port: Option<&str>,
    ) -> (r: (SinkType, bool))
        ensures
            r == kind_by(
                SinkWords {
                    name: text::lowercase(name@),
                    desc: text::lowercase(desc@),
                    form_factor: lower(text::opt_str(form_factor)),
                    icon: lower(text::opt_str(icon_name)),
                    bus: lower(text::opt_str(bus)),
                    port: lower(text::opt_str(active_port)),
                },
            ),
    {
        VolumeModule::classify_lowered(
            text::to_lowercase(name).as_str(),
            text::to_lowercase(desc).as_str(),
            to_lower(form_factor).as_str(),
            to_lower(icon_name).as_str(),
            to_lower(bus).as_str(),
            to_lower(active_port).as_str(),
        )
    }

    /// The kind of an output, and whether it is a bluetooth device, by the words about it
    /// in lower case.
    pub fn classify_lowered(
        name: &str,
        desc: &str,
        form_factor: &str,
        icon: &str,
        bus: &str,
        port: &str,
    ) -> (r: (SinkType, bool))
        ensures
            r == kind_by(
                SinkWords {
                    name: name@,
                    desc: desc@,
                    form_factor: form_factor@,
                    icon: icon@,
                    bus: bus@,
                    port: port@,
                },
            ),
    {
        let is_bluetooth: bool = text::same(bus, "bluetooth") || text::starts_with(name, "bluez_")
            || text::contains(icon, "bluetooth");
        let is_headset: bool = text::same(form_factor, "headset") || text::contains(icon, "headset")
            || text::contains(port, "headset") || text::contains(desc, "headset");
        let is_headphones: bool = text::same(form_factor, "headphone") || text::contains(icon, "headphone")
            || text::contains(port, "headphone") || text::contains(desc, "headphone")
            || text::contains(desc, "earphone") || text::contains(desc, "buds")
            || text::contains(desc, "airpod") || text::contains(desc, "wh-1000");
        let is_hdmi: bool = text::contains(name, "hdmi") || text::contains(desc, "hdmi")
            || text::contains(desc, "displayport") || text::contains(port, "hdmi");
        let sink_type: SinkType = if is_bluetooth && (is_headphones || is_headset) {
            SinkType::Bluetooth
        } else if is_headphones {
            SinkType::Headphones
        } else if is_headset {
            SinkType::Headset
        } else if is_bluetooth {
            SinkType::Bluetooth
        } else if is_hdmi {
            SinkType::Hdmi
        } else {
            SinkType::Speaker
        };
        (sink_type, is_bluetooth)
    }

    /// A text with the icon for a kind of output in place of that of a speaker.
    pub fn adapt_icon_for_sink(
        formatted: &str,
        _volume: u32,
        _is_muted: bool,
        sink_type: &SinkType,
    ) -> (r: String)
        ensures
            r@ == adapted(formatted@, *sink_type),
    {
        let icon: &str = match *sink_type {
            SinkType::Bluetooth | SinkType::Headphones | SinkType::Headset => "\u{f02cb}",
            SinkType::Hdmi => "\u{f0379}",
            SinkType::Speaker => return formatted.to_owned(),
        };
        if text::starts_with(formatted, "\u{f026}") || text::starts_with(formatted, "\u{f027}")
            || text::starts_with(formatted, "\u{f028}") {
            let cs: Vec<char> = text::chars_of(formatted);
            proof {
                reveal_strlit("\u{f026}");
                reveal_strlit("\u{f027}");
                reveal_strlit("\u{f028}");
                assert(cs@.subrange(1, cs@.len() as int) =~= formatted@.skip(1));
            }
            text::concat(icon, text::string_of(&cs, 1, cs.len()).as_str())
        } else {
            formatted.to_owned()
        }
    }

    /// What is shown of a volume.
    pub fn format_state_with_config(
        config: &VolumeConfig,
        volume: u32,
        is_muted: bool,
        sink: &SinkInfo,
        _orientation: Orientation,
    ) -> (r: ModuleState)
        ensures
            shows_volume(*config, volume, is_muted, sink.model(), r.model()),
    {
        let t: SinkType = sink.sink_type;
        let special: Option<&str> = if is_muted {
            Some("muted")
        } else {
            None
        };
        let own: Option<&config::Templates> = config.get_levels_for_sink(
            t == SinkType::Bluetooth,
            t == SinkType::Headphones || t == SinkType::Headset,
            t == SinkType::Hdmi,
        );
        let levels: &config::Templates = match own {
            Some(l) => l,
            None => &config.levels,
        };
        let (words, threshold) = resolve_level(levels, volume, special);
        let formatted: String = if own.is_none() {
            VolumeModule::adapt_icon_for_sink(words.as_str(), volume, is_muted, &t)
        } else {
            words.clone()
        };
        let mut css_classes: Vec<String> = Vec::new();
        assert(text::strs(css_classes@) =~= Seq::empty());
        if is_muted || volume == 0 {
            push_class(&mut css_classes, "muted");
        }
        assert(text::strs(css_classes@) =~= muted_classes(volume, is_muted));
        push_level(&mut css_classes, threshold);
        let word: &str = match t {
            SinkType::Speaker => {
                push_class(&mut css_classes, "sink-speaker");
                "Speaker"
            },
            SinkType::Headphones => {
                push_class(&mut css_classes, "sink-headphones");
                "Headphones"
            },
            SinkType::Headset => {
                push_class(&mut css_classes, "sink-headset");
                push_class(&mut css_classes, "sink-headphones");
                "Headset"
            },
            SinkType::Bluetooth => {
                push_class(&mut css_classes, "sink-bluetooth");
                push_class(&mut css_classes, "sink-headphones");
                "Bluetooth"
            },
            SinkType::Hdmi => {
                push_class(&mut css_classes, "sink-hdmi");
                "HDMI"
            },
        };
        assert(text::strs(css_classes@) =~= muted_classes(volume, is_muted) + modules::level_classes(
            threshold,
        ) + sink_classes(t));
        let mut tooltip: String = "[".to_owned();
        tooltip.append(word);
        tooltip.append("] ");
        tooltip.append(sink.description.as_str());
        let r: ModuleState = ModuleState {
            icon: None,
            text: Some(formatted),
            tooltip: Some(tooltip),
            css_classes,
        };
        assert(levels@ == used_levels(*config, t));
        assert(text::opt_str(special) == special_of(is_muted));
        assert(config::is_level(
            used_levels(*config, t),
            volume as nat,
            special_of(is_muted),
            (words@, threshold),
        ));
        r
    }

    /// What is shown now.
    pub fn current_state(&self, orientation: Orientation) -> (r: ModuleState)
        ensures
            shows_volume(
                self.config,
                self.current_vol,
                self.is_muted,
                self.current_sink.model(),
                r.model(),
            ),
    {
        VolumeModule::format_state_with_config(
            &self.config,
            self.current_vol,
            self.is_muted,
            &self.current_sink,
            orientation,
        )
    }

    /// The command for a step of scrolling.
    pub fn format_scroll_command(step: u32, max_volume: u32, direction: ScrollDirection) -> (r: String)
        ensures
            r@ == set_command(
                max_of(max_volume),
                text::dec(step_of(step)) + (match direction {
                    ScrollDirection::Up => "%+"@,
                    ScrollDirection::Down => "%-"@,
                }),
            ),
    {
        let by_step: u32 = if step == 0 {
            10
        } else {
            step
        };
        let max: u32 = if max_volume == 0 {
            100
        } else {
            max_volume
        };
        let sign: &str = match direction {
            ScrollDirection::Up => "%+",
            ScrollDirection::Down => "%-",
        };
        let arg: String = text::concat(text::decimal(by_step as u64).as_str(), sign);
        format_set_command(max, arg.as_str())
    }

    /// Takes note of a reading. A volume that changed while the sound was off turns the
    /// sound on.
    pub fn apply(&mut self, vol: u32, muted: bool, sink: &SinkInfo) -> (r: VolumeChange)
        ensures
            r.unmute == (old(self).is_muted && vol != old(self).current_vol),
            r.changed == (vol != old(self).current_vol || (muted && !r.unmute) != old(self).is_muted
                || sink.model() != old(self).current_sink.model()),
            final(self).current_vol == vol,
            final(self).is_muted == (muted && !r.unmute),
            final(self).current_sink.model() == sink.model(),
            final(self).config == old(self).config,
    {
        let unmute: bool = self.is_muted && vol != self.current_vol;
        let now_muted: bool = muted && !unmute;
        let changed: bool = vol != self.current_vol || now_muted != self.is_muted || !same_sink(
            sink,
            &self.current_sink,
        );
        if changed {
            self.current_vol = vol;
            self.is_muted = now_muted;
            self.current_sink = copy_sink(sink);
        }
        VolumeChange { unmute, changed }
    }

    /// A click on the module. Its command is run, where it has one. Without one, the left
    /// button turns the sound off and on again, or raises a volume of zero by a step; the
    /// right button goes to the next output.
    pub fn handle_click(&mut self, button: MouseButton) -> (r: VolumeClick)
        ensures
            ({
                let own = modules::runnable(
                    modules::command_of(modules::commands_of(old(self).config.click), button),
                );
                let max = max_of(old(self).config.max_volume);
                let after = left_click(
                    old(self).current_vol as nat,
                    old(self).is_muted,
                    old(self).config.step,
                    old(self).config.max_volume,
                );
                if own is Some {
                    &&& r matches VolumeClick::Run(c) && own == Some(c@)
                    &&& final(self).current_vol == old(self).current_vol
                    &&& final(self).is_muted == old(self).is_muted
                } else if button == MouseButton::Left {
                    &&& r matches VolumeClick::Change(c) && c@ == (if old(self).current_vol == 0 {
                        set_command(max, hundredths(after.0))
                    } else {
                        "wpctl set-mute @DEFAULT_AUDIO_SINK@ toggle"@
                    })
                    &&& final(self).current_vol == after.0
                    &&& final(self).is_muted == after.1
                } else {
                    &&& if button == MouseButton::Right {
                        r is CycleSink
                    } else {
                        r is Nothing
                    }
                    &&& final(self).current_vol == old(self).current_vol
                    &&& final(self).is_muted == old(self).is_muted
                }
            }),
            final(self).config == old(self).config,
            final(self).current_sink == old(self).current_sink,
    {
        let (left, right, middle) = self.config.click.commands();
        let own: Option<String> = match button {
            MouseButton::Left => shell_command(left),
            MouseButton::Right => shell_command(right),
            MouseButton::Middle => shell_command(middle),
        };
        if let Some(c) = own {
            return VolumeClick::Run(c);
        }
        match button {
            MouseButton::Left => {
                if self.current_vol == 0 {
                    let step: u32 = if self.config.step == 0 {
                        10
                    } else {
                        self.config.step
                    };
                    let max: u32 = if self.config.max_volume == 0 {
                        100
                    } else {
                        self.config.max_volume
                    };
                    let target: u32 = if step < max {
                        step
                    } else {
                        max
                    };
                    self.current_vol = target;
                    self.is_muted = false;
                    VolumeClick::Change(format_set_command(max, format_hundredths(target).as_str()))
                } else {
                    self.is_muted = !self.is_muted;
                    VolumeClick::Change("wpctl set-mute @DEFAULT_AUDIO_SINK@ toggle".to_owned())
                }
            },
            MouseButton::Right => VolumeClick::CycleSink,
            MouseButton::Middle => VolumeClick::Nothing,
        }
    }

    /// A step of scrolling at a time: the command that is run, unless the last step was a
    /// moment ago. `last` is when that was; it is kept for all modules together, so that
    /// a new module does not start over.
    pub fn handle_scroll(&self, direction: ScrollDirection, last: &mut u64, now: u64) -> (r: Option<String>)
        ensures
            text::opt(r) == (if passed(*old(last), now) < SCROLL_INTERVAL_MS {
                None
            } else {
                Some(
                    set_command(
                        max_of(self.config.max_volume),
                        text::dec(step_of(self.config.step)) + (match direction {
                            ScrollDirection::Up => "%+"@,
                            ScrollDirection::Down => "%-"@,
                        }),
                    ),
                )
            }),
            *final(last) == (if r is Some {
                now
            } else {
                *old(last)
            }),
    {
        let before: u64 = *last;
        let since: u64 = if now >= before {
            now - before
        } else {
            (u64::MAX - before) + now + 1
        };
        if since < SCROLL_INTERVAL_MS {
            return None;
        }
        *last = now;
        Some(
            VolumeModule::format_scroll_command(self.config.step, self.config.max_volume, direction),
        )
    }
}

/// Two clicks with the left button leave the sound and the volume as they were, where
/// the volume is not zero and the button has no command.
pub proof fn law_mute_is_undone(vol: u32, muted: bool, step: u32, max_volume: u32)
    requires
        vol > 0,
    ensures
        ({
            let once = left_click(vol as nat, muted, step, max_volume);
            left_click(once.0, once.1, step, max_volume) == (vol as nat, muted)
        }),
{
}

/// A click on a volume of zero makes it heard.
pub proof fn law_zero_is_raised(muted: bool, step: u32, max_volume: u32)
    ensures
        left_click(0, muted, step, max_volume).0 > 0,
        left_click(0, muted, step, max_volume).0 <= max_of(max_volume),
        !left_click(0, muted, step, max_volume).1,
{
}

impl BarModule for VolumeModule {
    open spec fn commands(&self) -> Commands {
        modules::commands_of(self.config.click)
    }

    open spec fn acts_by_itself(&self) -> bool {
        true
    }

    open spec fn title(&self) -> Seq<char> {
        "volume"@
    }

    fn name(&self) -> (r: &'static str) {
        "volume"
    }

    fn click_commands(&self) -> (r: (Option<&str>, Option<&str>, Option<&str>)) {
        self.config.click.commands()
    }

    fn has_default_action(&self) -> (r: bool) {
        true
    }
}

// ---------------------------------------------------------------------------
// Polling
// ---------------------------------------------------------------------------

/// Polling the audio service, while its monitor does not run.
#[derive(Debug, Clone, Copy, PartialEq, Eq, Structural)]
pub struct AudioPoll {
    pub fail_streak: u32,
    /// How many polls there were.
    pub polls: u32,
}

/// How many polls come before the monitor of the audio service is started again.
pub const POLLS_PER_RESTART: u32 = 120;

impl AudioPoll {
    /// The service did not fail yet.
    pub fn new() -> (r: Self)
        ensures
            r.fail_streak == 0,
            r.polls == 0,
    {
        AudioPoll { fail_streak: 0, polls: 0 }
    }

    /// Takes note that a poll is done. Returns whether the monitor is started again now.
    pub fn poll_done(&mut self) -> (restart: bool)
        ensures
            restart == (old(self).polls + 1 >= POLLS_PER_RESTART),
            final(self).polls == (if old(self).polls < u32::MAX {
                old(self).polls + 1
            } else {
                u32::MAX as int
            }),
            final(self).fail_streak == old(self).fail_streak,
    {
        if self.polls < u32::MAX {
            self.polls = self.polls + 1;
        }
        self.polls >= POLLS_PER_RESTART
    }

    /// Takes note of a poll: whether the service answered, and the name of the output that
    /// was read. Returns the time until the next poll, in milliseconds.
    pub fn next_wait(&mut self, answered: bool, sink_name: &str) -> (r: u64)
        ensures
            final(self).polls == old(self).polls,
            ({
                let healthy = answered && sink_name@ != default_name();
                &&& healthy ==> final(self).fail_streak == 0 && r == 250
                &&& !healthy ==> final(self).fail_streak == (if old(self).fail_streak < u32::MAX {
                    old(self).fail_streak + 1
                } else {
                    u32::MAX as int
                }) && r == modules::backoff(250, final(self).fail_streak as nat, 5000)
            }),
    {
        if answered && !text::same(sink_name, "@DEFAULT_AUDIO_SINK@") {
            self.fail_streak = 0;
            return 250;
        }
        if self.fail_streak < u32::MAX {
            self.fail_streak = self.fail_streak + 1;
        }
        poll_backoff(250, self.fail_streak, 5000)
    }
}

// ---------------------------------------------------------------------------
// What is told of an output, and what is shown of it
// ---------------------------------------------------------------------------

/// Outputs that say the same agree in each of their parts.
pub proof fn law_outputs_that_say_the_same_agree(a: SinkInfo, b: SinkInfo)
    requires
        a.model() == b.model(),
    ensures
        a.name@ == b.name@,
        a.description@ == b.description@,
        a.sink_type == b.sink_type,
        a.is_bluetooth == b.is_bluetooth,
{
}

/// An output is a bluetooth device by its bus, by its name or by its icon, and by nothing
/// else.
pub proof fn law_bluetooth_is_told_by_bus_name_or_icon(w: SinkWords)
    ensures
        kind_by(w).1 <==> w.bus == "bluetooth"@ || text::begins(w.name, "bluez_"@) || text::has(w.icon, "bluetooth"@),
{
}

/// What the words about an output call headphones.
pub open spec fn is_called_headphones(w: SinkWords) -> bool {
    w.form_factor == "headphone"@ || text::has(w.icon, "headphone"@) || text::has(w.port, "headphone"@) || text::has(
        w.desc,
        "headphone"@,
    ) || text::has(w.desc, "earphone"@) || text::has(w.desc, "buds"@) || text::has(w.desc, "airpod"@) || text::has(
        w.desc,
        "wh-1000"@,
    )
}

/// What the words about an output call a headset.
pub open spec fn is_called_headset(w: SinkWords) -> bool {
    w.form_factor == "headset"@ || text::has(w.icon, "headset"@) || text::has(w.port, "headset"@) || text::has(
        w.desc,
        "headset"@,
    )
}

/// What the words about an output call a screen.
pub open spec fn is_called_screen(w: SinkWords) -> bool {
    text::has(w.name, "hdmi"@) || text::has(w.desc, "hdmi"@) || text::has(w.desc, "displayport"@) || text::has(
        w.port,
        "hdmi"@,
    )
}

/// The kind of an output: bluetooth comes first, then headphones, a headset and a screen; all
/// others are speakers. A headset that is worn by wire is a headset, unless it is called
/// headphones too.
pub proof fn law_kind_is_what_the_words_call_it(w: SinkWords)
    ensures
        kind_by(w).0 is Bluetooth <==> kind_by(w).1,
        kind_by(w).0 is Headphones <==> !kind_by(w).1 && is_called_headphones(w),
        kind_by(w).0 is Headset <==> !kind_by(w).1 && !is_called_headphones(w) && is_called_headset(w),
        kind_by(w).0 is Hdmi <==> !kind_by(w).1 && !is_called_headphones(w) && !is_called_headset(w) && is_called_screen(
            w,
        ),
        kind_by(w).0 is Speaker <==> !kind_by(w).1 && !is_called_headphones(w) && !is_called_headset(w)
            && !is_called_screen(w),
{
}

/// An output of a listing is a line with a number, a point and its words, behind a star where
/// it is the default. What follows the volume does not belong to its words, and the lines
/// that draw the listing do not count.
pub proof fn law_listed_output_is_number_and_words(line: Seq<char>, star: bool, gap: Seq<char>, id: Seq<char>, rest: Seq<char>)
    requires
        text::trimmed(line.filter(|c: char| c != '\u{2502}' && c != '\u{251c}' && c != '\u{2514}' && c != '\u{2500}'))
            == (if star {
            seq!['*']
        } else {
            Seq::empty()
        }) + gap + id + seq!['.'] + rest,
        forall|i: int| 0 <= i < gap.len() ==> text::is_white(#[trigger] gap[i]),
        !star ==> gap.len() == 0,
        id.len() > 0,
        forall|i: int| 0 <= i < id.len() ==> '0' <= #[trigger] id[i] <= '9',
        rest.len() > 0 ==> !text::is_white(rest.last()),
    ensures
        sink_line(line) matches Some((s, is_default)) && s.name == id && s.description == text::trimmed(
            text::before(rest, "[vol:"@),
        ) && (s.sink_type, s.is_bluetooth) == kind_by(plain_words(s.name, s.description)) && is_default == star,
{
    let f = |c: char| c != '\u{2502}' && c != '\u{251c}' && c != '\u{2514}' && c != '\u{2500}';
    assert(f =~= is_content());
    let cleaned = text::trimmed(line.filter(is_content()));
    let body = id + seq!['.'] + rest;
    let none = Seq::<char>::empty();
    assert(body.len() > 0 && body[0] == id[0]);
    assert('0' <= id[0] <= '9');
    assert(!text::is_white(body[0]));
    assert(!text::is_white(body.last())) by {
        if rest.len() > 0 {
            assert(body.last() == rest.last());
        } else {
            assert(body.last() == '.');
        }
    }
    if star {
        assert(cleaned =~= seq!['*'] + (gap + body));
        text::law_marks_at_the_ends_are_taken_off(gap + body, '*');
        if gap.len() > 0 {
            assert(text::is_white(gap[0]));
            assert((gap + body)[0] == gap[0]);
        } else {
            assert((gap + body)[0] == body[0]);
        }
        assert(text::without_leading(cleaned, '*') == gap + body);
        assert(gap + body + none =~= gap + body);
        text::law_white_space_around_is_taken_off(gap, body, none);
    } else {
        assert(cleaned =~= body);
        assert(cleaned[0] == body[0]);
        text::law_marks_at_the_ends_are_taken_off(cleaned, '*');
        assert(none + body + none =~= body);
        text::law_white_space_around_is_taken_off(none, body, none);
    }
    let content = text::trimmed(text::without_leading(cleaned, '*'));
    assert(content == body);
    text::lemma_char_from(content, '.', 0);
    let dot = text::char_from(content, '.', 0);
    assert(content[id.len() as int] == '.');
    assert(dot == id.len()) by {
        if dot < id.len() {
            assert(content[dot] == id[dot]);
        }
    }
    assert(content.take(dot) =~= id);
    assert(content.skip(dot + 1) =~= rest);
    assert('0' <= id[id.len() - 1] <= '9');
    assert(none + id + none =~= id);
    text::law_white_space_around_is_taken_off(none, id, none);
    assert(all_digits(id));
}

/// The outputs of a listing stand below their heading, in the part about audio, up to the
/// next heading. The default is the last of those that are marked.
pub proof fn law_outputs_stand_below_their_heading(lines: Seq<Seq<char>>, line: Seq<char>)
    ensures
        ({
            let l = listing(lines);
            let n = listing(lines.push(line));
            let t = text::trimmed(line);
            &&& t == "Audio"@ ==> n.in_audio && n.sinks == l.sinks && n.in_sinks == l.in_sinks
            &&& t == "Video"@ || t == "Settings"@ ==> !n.in_audio && !n.in_sinks && n.sinks == l.sinks
            &&& t != "Audio"@ && t != "Video"@ && t != "Settings"@ ==> {
                &&& n.in_audio == l.in_audio
                &&& !l.in_audio ==> n == l
                &&& l.in_audio && text::has(line, "Sinks:"@) ==> n.in_sinks && n.sinks == l.sinks
                &&& l.in_audio && !text::has(line, "Sinks:"@) && l.in_sinks && (text::has(line, "Sources:"@) || text::has(
                    line,
                    "Filters:"@,
                ) || text::has(line, "Streams:"@)) ==> !n.in_sinks && n.sinks == l.sinks
                &&& l.in_audio && !text::has(line, "Sinks:"@) && l.in_sinks && !text::has(line, "Sources:"@) && !text::has(
                    line,
                    "Filters:"@,
                ) && !text::has(line, "Streams:"@) ==> n.in_sinks && match sink_line(line) {
                    Some((s, d)) => n.sinks == l.sinks.push(s) && (d ==> n.default == Some(l.sinks.len() as int)) && (!d
                        ==> n.default == l.default),
                    None => n == l,
                }
                &&& l.in_audio && !text::has(line, "Sinks:"@) && !l.in_sinks ==> n == l
            }
        }),
        listing(Seq::empty()).sinks.len() == 0,
        !listing(Seq::empty()).in_audio,
        !listing(Seq::empty()).in_sinks,
        listing(Seq::empty()).default is None,
{
    assert(lines.push(line).drop_last() =~= lines);
    reveal_strlit("Audio");
    reveal_strlit("Video");
    reveal_strlit("Settings");
    assert("Audio"@[0] == 'A' && "Video"@[0] == 'V' && "Settings"@[0] == 'S');
}

/// The output that is used is the default, and the first where none is marked. The one after
/// it comes next, and the first after the last.
pub proof fn law_default_output_is_used(l: ListingModel)
    requires
        l.default matches Some(i) ==> 0 <= i < l.sinks.len(),
    ensures
        l.default matches Some(i) ==> used_sink(l) == Some(l.sinks[i]),
        l.default is None && l.sinks.len() > 0 ==> used_sink(l) == Some(l.sinks[0]),
        l.sinks.len() == 0 ==> used_sink(l) is None && next_name(l) is None,
        l.default matches Some(i) ==> (i + 1 < l.sinks.len() ==> next_name(l) == Some(l.sinks[i + 1].name)),
        l.default matches Some(i) ==> (i + 1 == l.sinks.len() ==> next_name(l) == Some(l.sinks[0].name)),
        l.default is None && l.sinks.len() > 1 ==> next_name(l) == Some(l.sinks[1].name),
{
    let n = l.sinks.len() as int;
    if let Some(i) = l.default {
        if i + 1 < n {
            vstd::arithmetic::div_mod::lemma_small_mod((i + 1) as nat, n as nat);
        } else {
            vstd::arithmetic::div_mod::lemma_mod_self_0(n);
        }
    } else if n > 1 {
        vstd::arithmetic::div_mod::lemma_small_mod(1, n as nat);
    }
}

/// The output that stands for the default where none can be read is a speaker.
pub proof fn law_unknown_output_is_a_speaker(s: SinkInfo)
    requires
        s.model() == unknown_sink(),
    ensures
        s.name@ == "@DEFAULT_AUDIO_SINK@"@,
        s.description@ == "Default Output"@,
        s.sink_type is Speaker,
        !s.is_bluetooth,
{
}

/// Hundredths are written with a point and two digits.
pub proof fn law_hundredths_have_two_digits(a: nat, b: nat, c: nat)
    requires
        b < 10,
        c < 10,
    ensures
        hundredths(100 * a + 10 * b + c) == text::dec(a) + "."@ + seq![text::digit(b), text::digit(c)],
{
    let n = 100 * a + 10 * b + c;
    assert(n / 100 == a);
    assert((n / 10) % 10 == b);
    assert(n % 10 == c);
}

/// A step of zero stands for ten, and a highest volume of zero for a hundred.
pub proof fn law_zero_stands_for_the_usual(n: u32)
    ensures
        step_of(0) == 10,
        n > 0 ==> step_of(n) == n,
        max_of(0) == 100,
        n > 0 ==> max_of(n) == n,
{
}

/// A click turns the sound off and on again, and leaves the volume; a volume of zero is
/// raised by a step, and no further than the highest.
pub proof fn law_click_turns_the_sound_off_and_on(vol: nat, muted: bool, step: u32, max_volume: u32)
    ensures
        vol > 0 ==> left_click(vol, muted, step, max_volume) == (vol, !muted),
        vol == 0 && step_of(step) <= max_of(max_volume) ==> left_click(vol, muted, step, max_volume) == (
            step_of(step),
            false,
        ),
        vol == 0 && step_of(step) > max_of(max_volume) ==> left_click(vol, muted, step, max_volume) == (
            max_of(max_volume),
            false,
        ),
{
}

/// Setting the volume turns the sound on, and keeps to the highest volume.
pub proof fn law_setting_turns_the_sound_on(max: nat, arg: Seq<char>)
    ensures
        set_command(max, arg) == "wpctl set-mute @DEFAULT_AUDIO_SINK@ 0 && wpctl set-volume -l "@ + hundredths(max)
            + " @DEFAULT_AUDIO_SINK@ "@ + arg,
{
}

/// What is worn on the head has the icon of headphones, a screen that of a screen; a speaker
/// keeps its own. Only the icon of a speaker in front is replaced.
pub proof fn law_icon_goes_by_the_kind(rest: Seq<char>, c: char)
    requires
        c == '\u{f026}' || c == '\u{f027}' || c == '\u{f028}',
    ensures
        adapted(seq![c] + rest, SinkType::Speaker) == seq![c] + rest,
        adapted(seq![c] + rest, SinkType::Hdmi) == "\u{f0379}"@ + rest,
        adapted(seq![c] + rest, SinkType::Headphones) == "\u{f02cb}"@ + rest,
        adapted(seq![c] + rest, SinkType::Headset) == "\u{f02cb}"@ + rest,
        adapted(seq![c] + rest, SinkType::Bluetooth) == "\u{f02cb}"@ + rest,
{
    let s = seq![c] + rest;
    reveal_strlit("\u{f026}");
    reveal_strlit("\u{f027}");
    reveal_strlit("\u{f028}");
    assert(s.subrange(0, 1) =~= seq![c]);
    assert(seq!['\u{f026}'] =~= "\u{f026}"@);
    assert(seq!['\u{f027}'] =~= "\u{f027}"@);
    assert(seq!['\u{f028}'] =~= "\u{f028}"@);
    assert(has_speaker(s));
    assert(s.skip(1) =~= rest);
}

/// A text that does not begin with the icon of a speaker stays as it is.
pub proof fn law_other_icons_stay(s: Seq<char>, t: SinkType)
    requires
        s.len() == 0 || (s[0] != '\u{f026}' && s[0] != '\u{f027}' && s[0] != '\u{f028}'),
    ensures
        adapted(s, t) == s,
{
    reveal_strlit("\u{f026}");
    reveal_strlit("\u{f027}");
    reveal_strlit("\u{f028}");
    if s.len() > 0 {
        assert(s.subrange(0, 1)[0] == s[0]);
    }
}

/// Each kind of output has its class and its word. What is worn on the head has the class of
/// headphones beside its own.
pub proof fn law_kinds_have_their_classes_and_words(t: SinkType)
    ensures
        t is Speaker ==> sink_classes(t) == seq!["sink-speaker"@] && sink_word(t) == "Speaker"@,
        t is Headphones ==> sink_classes(t) == seq!["sink-headphones"@] && sink_word(t) == "Headphones"@,
        t is Headset ==> sink_classes(t) == seq!["sink-headset"@, "sink-headphones"@] && sink_word(t) == "Headset"@,
        t is Bluetooth ==> sink_classes(t) == seq!["sink-bluetooth"@, "sink-headphones"@] && sink_word(t)
            == "Bluetooth"@,
        t is Hdmi ==> sink_classes(t) == seq!["sink-hdmi"@] && sink_word(t) == "HDMI"@,
{
}

/// A kind of output is shown by its own levels where the configuration has any, and else by
/// those for all.
pub proof fn law_levels_are_those_of_the_kind(c: VolumeConfig, t: SinkType)
    ensures
        t is Bluetooth && c.levels_bluetooth is Some ==> used_levels(c, t) == c.levels_bluetooth->0@,
        (t is Headphones || t is Headset) && c.levels_headphones is Some ==> used_levels(c, t) == c.levels_headphones->0@,
        t is Hdmi && c.levels_hdmi is Some ==> used_levels(c, t) == c.levels_hdmi->0@,
        t is Speaker ==> used_levels(c, t) == c.levels@ && levels_for(c, t) is None,
        (t is Bluetooth && c.levels_bluetooth is None) || ((t is Headphones || t is Headset)
            && c.levels_headphones is None) || (t is Hdmi && c.levels_hdmi is None) ==> used_levels(c, t) == c.levels@
            && levels_for(c, t) is None,
        (t is Bluetooth && c.levels_bluetooth is Some) || ((t is Headphones || t is Headset)
            && c.levels_headphones is Some) || (t is Hdmi && c.levels_hdmi is Some) ==> levels_for(c, t) is Some,
{
}

/// What is shown of a volume: the text of its level, with the icon of the output where that
/// has no levels of its own; its classes are that of silence, that of the level and those of
/// the output; on hover the output is told.
pub proof fn law_volume_is_shown_by_its_level(
    c: VolumeConfig,
    volume: u32,
    muted: bool,
    sink: SinkInfo,
    r: ModuleState,
) -> (w: (Seq<char>, Option<u32>))
    requires
        shows_volume(c, volume, muted, sink.model(), r.model()),
    ensures
        config::is_level(
            used_levels(c, sink.sink_type),
            volume as nat,
            if muted {
                Some("muted"@)
            } else {
                None
            },
            w,
        ),
        r.text is Some,
        levels_for(c, sink.sink_type) is None ==> r.text->0@ == adapted(w.0, sink.sink_type),
        levels_for(c, sink.sink_type) is Some ==> r.text->0@ == w.0,
        r.icon is None,
        r.tooltip is Some && r.tooltip->0@ == "["@ + sink_word(sink.sink_type) + "] "@ + sink.description@,
        muted || volume == 0 ==> text::strs(r.css_classes@) == seq!["muted"@] + modules::level_classes(w.1)
            + sink_classes(sink.sink_type),
        !muted && volume > 0 ==> text::strs(r.css_classes@) == modules::level_classes(w.1) + sink_classes(
            sink.sink_type,
        ),
{
    let m = r.model();
    let s = sink.model();
    let (words, t) = choose|words: Seq<char>, t: Option<u32>|
        {
            &&& #[trigger] config::is_level(
                used_levels(c, s.sink_type),
                volume as nat,
                special_of(muted),
                (words, t),
            )
            &&& m.text == Some(
                if levels_for(c, s.sink_type) is None {
                    adapted(words, s.sink_type)
                } else {
                    words
                },
            )
            &&& m.classes == muted_classes(volume, muted) + modules::level_classes(t) + sink_classes(s.sink_type)
        };
    if !muted && volume > 0 {
        assert(muted_classes(volume, muted) + modules::level_classes(t) =~= modules::level_classes(t));
    }
    (words, t)
}

/// The time that passed is what was added to the clock, also where it started over.
pub proof fn law_time_passes_across_the_end_of_the_clock(last: u64, t: nat)
    requires
        t <= u64::MAX,
    ensures
        last + t <= u64::MAX ==> passed(last, (last + t) as u64) == t,
        last + t > u64::MAX ==> passed(last, (last + t - 0x1_0000_0000_0000_0000) as u64) == t,
{
}

/// The module goes by its name, runs the commands of its section, and has an action of its
/// own.
pub proof fn law_volume_runs_its_commands(m: VolumeModule)
    ensures
        m.title() == "volume"@,
        m.acts_by_itself(),
        m.commands().0 == text::opt(m.config.click.on_click_left),
        m.commands().1 == text::opt(m.config.click.on_click_right),
        m.commands().2 == text::opt(m.config.click.on_click_middle),
{
}

/// Outputs stand for what they say one by one.
pub proof fn law_outputs_stand_in_their_order(v: Seq<SinkInfo>, i: int)
    requires
        0 <= i < v.len(),
    ensures
        sink_models(v).len() == v.len(),
        sink_models(v)[i] == v[i].model(),
{
}

/// Two steps of scrolling lie sixty milliseconds apart, and the monitor is started again with
/// the hundred and twentieth poll.
pub proof fn law_steps_and_polls_are_counted(last: u64, now: u64, polls: u32)
    requires
        last <= now,
    ensures
        passed(last, now) < SCROLL_INTERVAL_MS <==> now < last + 60,
        polls + 1 >= POLLS_PER_RESTART <==> polls >= 119,
{
}

} // verus!
