//! Command log: which received commands are listed, how each is labelled and coloured,
//! and the texts of its timestamps and raw bytes.

use crate::emulator::CommandEntry;
use crate::escpos::commands::{CommandView, EscPosCommand, Font, Justification};
use crate::gui::settings_panel::{contains_text, str_contains};
use crate::gui::text_format::{byte_list, byte_list_string, decimal, decimal_string};
use std::collections::VecDeque;
use vstd::prelude::*;

verus! {

/// `s` in lower case, as `str::to_lowercase` makes it.
pub uninterp spec fn lowercase(s: Seq<char>) -> Seq<char>;

/// Calls `str::to_lowercase`. Claims only that the result is `lowercase` of the text (a
/// function of the text alone); the Unicode case mapping is left unsaid.
#[verifier::external_body]
fn to_lowercase(s: &str) -> (r: String)
    ensures
        r@ == lowercase(s@),
{
    s.to_lowercase()
}

/// Display settings of the command log.
pub struct CommandLog {
    pub show_timestamps: bool,
    pub show_raw_data: bool,
    /// At most this many (most recent) entries are listed.
    pub max_display_lines: usize,
    /// Only entries that contain this text are listed (all when empty).
    pub filter_text: String,
}

/// Number of entries the command log lists by default.
pub const DEFAULT_MAX_DISPLAY_LINES: usize = 1000;

impl Default for CommandLog {
    fn default() -> (log: Self)
        ensures
            log.show_timestamps,
            !log.show_raw_data,
            log.max_display_lines == DEFAULT_MAX_DISPLAY_LINES,
            log.filter_text@ == Seq::<char>::empty(),
    {
        CommandLog {
            show_timestamps: true,
            show_raw_data: false,
            max_display_lines: DEFAULT_MAX_DISPLAY_LINES,
            filter_text: String::new(),
        }
    }
}

pub open spec fn bool_text(b: bool) -> Seq<char> {
    if b {
        "true"@
    } else {
        "false"@
    }
}

/// What `{:?}` writes for a command other than `Text`.
pub open spec fn debug_text(c: CommandView) -> Seq<char> {
    match c {
        CommandView::Text(t) => t,
        CommandView::NewLine => "NewLine"@,
        CommandView::CarriageReturn => "CarriageReturn"@,
        CommandView::LineFeed => "LineFeed"@,
        CommandView::InitializePrinter => "InitializePrinter"@,
        CommandView::SetFont(f) => "SetFont("@ + f.name() + ")"@,
        CommandView::SetJustification(j) => "SetJustification("@ + j.name() + ")"@,
        CommandView::SetEmphasis(b) => "SetEmphasis("@ + bool_text(b) + ")"@,
        CommandView::SetUnderline(b) => "SetUnderline("@ + bool_text(b) + ")"@,
        CommandView::SetItalic(b) => "SetItalic("@ + bool_text(b) + ")"@,
        CommandView::SetLineHeight(h) => "SetLineHeight("@ + decimal(h as nat) + ")"@,
        CommandView::SetFontSize(s) => "SetFontSize("@ + decimal(s as nat) + ")"@,
        CommandView::SetCodepage(cp) => "SetCodepage("@ + decimal(cp as nat) + ")"@,
        CommandView::CutPaper => "CutPaper"@,
        CommandView::PrintImage(d) => "PrintImage("@ + byte_list(d) + ")"@,
        CommandView::PrintRasterImage { width_bytes, height, data } => "PrintRasterImage { width_bytes: "@
            + decimal(width_bytes as nat) + ", height: "@ + decimal(height as nat) + ", data: "@
            + byte_list(data) + " }"@,
        CommandView::Unknown(d) => "Unknown("@ + byte_list(d) + ")"@,
    }
}

/// The text the filter searches: a `Text` command's own text, and the `{:?}` rendering
/// of any other command.
pub open spec fn search_text(c: CommandView) -> Seq<char> {
    debug_text(c)
}

fn bool_string(b: bool) -> (s: String)
    ensures
        s@ == bool_text(b),
{
    if b {
        String::from_str("true")
    } else {
        String::from_str("false")
    }
}

/// `prefix`, then `rest`.
fn prefixed(prefix: &str, rest: &str) -> (s: String)
    ensures
        s@ == prefix@ + rest@,
{
    let mut s = String::from_str(prefix);
    s.append(rest);
    s
}

/// `prefix`, then `middle`, then `suffix`.
fn wrap(prefix: &str, middle: &str, suffix: &str) -> (s: String)
    ensures
        s@ == prefix@ + middle@ + suffix@,
{
    let mut s = String::from_str(prefix);
    s.append(middle);
    s.append(suffix);
    s
}

impl EscPosCommand {
    /// The text the command-log filter searches for this command.
    pub fn search_text(&self) -> (s: String)
        ensures
            s@ == search_text(self@),
    {
        match self {
            EscPosCommand::Text(t) => t.clone(),
            EscPosCommand::NewLine => String::from_str("NewLine"),
            EscPosCommand::CarriageReturn => String::from_str("CarriageReturn"),
            EscPosCommand::LineFeed => String::from_str("LineFeed"),
            EscPosCommand::InitializePrinter => String::from_str("InitializePrinter"),
            EscPosCommand::SetFont(f) => wrap("SetFont(", f.debug_name().as_str(), ")"),
            EscPosCommand::SetJustification(j) => wrap("SetJustification(", j.debug_name().as_str(), ")"),
            EscPosCommand::SetEmphasis(b) => wrap("SetEmphasis(", bool_string(*b).as_str(), ")"),
            EscPosCommand::SetUnderline(b) => wrap("SetUnderline(", bool_string(*b).as_str(), ")"),
            EscPosCommand::SetItalic(b) => wrap("SetItalic(", bool_string(*b).as_str(), ")"),
            EscPosCommand::SetLineHeight(h) => wrap("SetLineHeight(", decimal_string(*h as u64).as_str(), ")"),
            EscPosCommand::SetFontSize(s) => wrap("SetFontSize(", decimal_string(*s as u64).as_str(), ")"),
            EscPosCommand::SetCodepage(cp) => wrap("SetCodepage(", decimal_string(*cp as u64).as_str(), ")"),
            EscPosCommand::CutPaper => String::from_str("CutPaper"),
            EscPosCommand::PrintImage(d) => wrap("PrintImage(", byte_list_string(d.as_slice()).as_str(), ")"),
            EscPosCommand::PrintRasterImage { width_bytes, height, data } => {
                let mut s = String::from_str("PrintRasterImage { width_bytes: ");
                s.append(decimal_string(*width_bytes as u64).as_str());
                s.append(", height: ");
                s.append(decimal_string(*height as u64).as_str());
                s.append(", data: ");
                s.append(byte_list_string(data.as_slice()).as_str());
                s.append(" }");
                s
            },
            EscPosCommand::Unknown(d) => wrap("Unknown(", byte_list_string(d.as_slice()).as_str(), ")"),
        }
    }
}

/// An entry is listed when the filter is empty, or when its search text, in lower case,
/// contains the filter in lower case.
pub open spec fn entry_matches(c: CommandView, filter: Seq<char>) -> bool {
    filter.len() == 0 || contains_text(lowercase(search_text(c)), lowercase(filter))
}

/// Indices, oldest first, of the first `n` history entries that the filter lets through.
pub open spec fn matching(history: Seq<CommandEntry>, filter: Seq<char>, n: int) -> Seq<usize>
    decreases n,
{
    if n <= 0 {
        seq![]
    } else if entry_matches(history[n - 1].command@, filter) {
        matching(history, filter, n - 1).push((n - 1) as usize)
    } else {
        matching(history, filter, n - 1)
    }
}

/// Colour class of a log entry.
#[derive(Debug, Clone, Copy, PartialEq, Eq, Structural)]
pub enum LogColour {
    /// Received text: the normal text colour.
    Text,
    /// Line feeds, unknown and other commands.
    Muted,
    /// Font, justification, code page, line height, font size.
    Control,
    /// Emphasis, underline, italic on/off.
    Toggle,
    /// Images.
    Media,
    /// Paper cut.
    Danger,
}

pub open spec fn on_off(b: bool) -> Seq<char> {
    if b {
        "ON"@
    } else {
        "OFF"@
    }
}

/// Label and colour class of a command in the log.
pub open spec fn description(c: CommandView) -> (Seq<char>, LogColour) {
    match c {
        CommandView::Text(t) => ("📝 "@ + t, LogColour::Text),
        CommandView::NewLine => ("↵ New line"@, LogColour::Muted),
        CommandView::SetFont(f) => ("🔤 Font: "@ + f.name(), LogColour::Control),
        CommandView::SetJustification(j) => ("📐 Justification: "@ + j.name(), LogColour::Control),
        CommandView::SetEmphasis(b) => ("💪 Emphasis: "@ + on_off(b), LogColour::Toggle),
        CommandView::SetUnderline(b) => ("➖ Underline: "@ + on_off(b), LogColour::Toggle),
        CommandView::SetItalic(b) => ("✒ Italic: "@ + on_off(b), LogColour::Toggle),
        CommandView::CutPaper => ("✂️ Paper cut"@, LogColour::Danger),
        CommandView::PrintImage(_) => ("🖼️ Bit Image (ESC *)"@, LogColour::Media),
        CommandView::PrintRasterImage { width_bytes, height, data } => (
            "🖼️ Raster Image (GS v 0) "@ + decimal((width_bytes * 8) as nat) + "×"@ + decimal(
                height as nat,
            ),
            LogColour::Media,
        ),
        CommandView::SetCodepage(cp) => ("🌐 Codepage: "@ + decimal(cp as nat), LogColour::Control),
        CommandView::SetLineHeight(h) => ("📏 Line height: "@ + decimal(h as nat), LogColour::Control),
        CommandView::SetFontSize(s) => ("🔤 Font size: "@ + decimal(s as nat), LogColour::Control),
        CommandView::Unknown(_) => ("❓ Unknown command"@, LogColour::Muted),
        _ => ("⚙️ "@ + debug_text(c), LogColour::Muted),
    }
}

fn on_off_str(b: bool) -> (s: &'static str)
    ensures
        s@ == on_off(b),
{
    if b {
        "ON"
    } else {
        "OFF"
    }
}

/// Label and colour class of a command in the log.
pub fn describe(c: &EscPosCommand) -> (r: (String, LogColour))
    ensures
        (r.0@, r.1) == description(c@),
{
    match c {
        EscPosCommand::Text(t) => (prefixed("📝 ", t.as_str()), LogColour::Text),
        EscPosCommand::NewLine => (String::from_str("↵ New line"), LogColour::Muted),
        EscPosCommand::SetFont(f) => (prefixed("🔤 Font: ", f.debug_name().as_str()), LogColour::Control),
        EscPosCommand::SetJustification(j) => (
            prefixed("📐 Justification: ", j.debug_name().as_str()),
            LogColour::Control,
        ),
        EscPosCommand::SetEmphasis(b) => (prefixed("💪 Emphasis: ", on_off_str(*b)), LogColour::Toggle),
        EscPosCommand::SetUnderline(b) => (prefixed("➖ Underline: ", on_off_str(*b)), LogColour::Toggle),
        EscPosCommand::SetItalic(b) => (prefixed("✒ Italic: ", on_off_str(*b)), LogColour::Toggle),
        EscPosCommand::CutPaper => (String::from_str("✂️ Paper cut"), LogColour::Danger),
        EscPosCommand::PrintImage(_) => (String::from_str("🖼️ Bit Image (ESC *)"), LogColour::Media),
        EscPosCommand::PrintRasterImage { width_bytes, height, .. } => {
            let dots = *width_bytes as u64 * 8;
            let mut s = String::from_str("🖼️ Raster Image (GS v 0) ");
            s.append(decimal_string(dots).as_str());
            s.append("×");
            s.append(decimal_string(*height as u64).as_str());
            (s, LogColour::Media)
        },
        EscPosCommand::SetCodepage(cp) => (
            prefixed("🌐 Codepage: ", decimal_string(*cp as u64).as_str()),
            LogColour::Control,
        ),
        EscPosCommand::SetLineHeight(h) => (
            prefixed("📏 Line height: ", decimal_string(*h as u64).as_str()),
            LogColour::Control,
        ),
        EscPosCommand::SetFontSize(s) => (
            prefixed("🔤 Font size: ", decimal_string(*s as u64).as_str()),
            LogColour::Control,
        ),
        EscPosCommand::Unknown(_) => (String::from_str("❓ Unknown command"), LogColour::Muted),
        _ => (prefixed("⚙️ ", c.search_text().as_str()), LogColour::Muted),
    }
}

/// How long ago, roughly, `secs` seconds are: `"{s}s"` under a minute, `"{m}m{s}s"`
/// under an hour, `"{h}h{m}m"` beyond.
pub open spec fn time_text(secs: nat) -> Seq<char> {
    if secs < 60 {
        decimal(secs) + "s"@
    } else if secs < 3600 {
        decimal(secs / 60) + "m"@ + decimal(secs % 60) + "s"@
    } else {
        decimal(secs / 3600) + "h"@ + decimal((secs % 3600) / 60) + "m"@
    }
}

/// The timestamp shows seconds under a minute; minutes and the remaining seconds under
/// an hour; and beyond, hours and the remaining whole minutes.
pub proof fn law_time_text(secs: nat)
    ensures
        secs < 60 ==> time_text(secs) == decimal(secs) + "s"@,
        60 <= secs < 3600 ==> exists|m: nat, s: nat|
            s < 60 && m * 60 + s == secs && #[trigger] time_text(secs) == decimal(m) + "m"@ + decimal(s) + "s"@,
        secs >= 3600 ==> exists|h: nat, m: nat|
            m < 60 && h * 3600 + m * 60 <= secs < h * 3600 + m * 60 + 60 && #[trigger] time_text(secs) == decimal(h)
                + "h"@ + decimal(m) + "m"@,
{
    if 60 <= secs < 3600 {
        let m = secs / 60;
        let s = secs % 60;
        assert(m * 60 + s == secs);
        assert(s < 60 && m * 60 + s == secs && time_text(secs) == decimal(m) + "m"@ + decimal(s) + "s"@);
    }
    if secs >= 3600 {
        let h = secs / 3600;
        let m = (secs % 3600) / 60;
        assert(h * 3600 + m * 60 <= secs < h * 3600 + m * 60 + 60);
        assert(m < 60 && h * 3600 + m * 60 <= secs < h * 3600 + m * 60 + 60 && time_text(secs) == decimal(h)
            + "h"@ + decimal(m) + "m"@);
    }
}

/// Timestamp text of a log entry, from its seconds.
pub fn time_label(secs: u64) -> (s: String)
    ensures
        s@ == time_text(secs as nat),
{
    if secs < 60 {
        let mut s = decimal_string(secs);
        s.append("s");
        s
    } else if secs < 3600 {
        let mut s = decimal_string(secs / 60);
        s.append("m");
        s.append(decimal_string(secs % 60).as_str());
        s.append("s");
        s
    } else {
        let mut s = decimal_string(secs / 3600);
        s.append("h");
        s.append(decimal_string((secs % 3600) / 60).as_str());
        s.append("m");
        s
    }
}

/// How each command is labelled and coloured in the log: text as "📝 " and the text;
/// flags as their name and "ON" exactly when the flag is set, else "OFF", in the toggle
/// colour; font, justification, code page, line height and font size with their values
/// in the control colour; images in the media colour (a raster image with its size in
/// dots, eight per byte of a row); the cut in the danger colour; line feeds, unknown and
/// the remaining commands muted.
pub proof fn law_log_labels(t: Seq<char>, b: bool, n: u32, cp: u8, wb: u16, h: u16, d: Seq<u8>)
    ensures
        description(CommandView::Text(t)) == ("📝 "@ + t, LogColour::Text),
        description(CommandView::SetEmphasis(b)) == (
            "💪 Emphasis: "@ + if b { "ON"@ } else { "OFF"@ },
            LogColour::Toggle,
        ),
        description(CommandView::SetUnderline(b)) == (
            "➖ Underline: "@ + if b { "ON"@ } else { "OFF"@ },
            LogColour::Toggle,
        ),
        description(CommandView::SetItalic(b)) == (
            "✒ Italic: "@ + if b { "ON"@ } else { "OFF"@ },
            LogColour::Toggle,
        ),
        description(CommandView::SetFont(Font::FontA)) == ("🔤 Font: FontA"@, LogColour::Control),
        description(CommandView::SetFont(Font::FontB)) == ("🔤 Font: FontB"@, LogColour::Control),
        description(CommandView::SetFont(Font::FontC)) == ("🔤 Font: FontC"@, LogColour::Control),
        description(CommandView::SetJustification(Justification::Left)) == (
            "📐 Justification: Left"@,
            LogColour::Control,
        ),
        description(CommandView::SetJustification(Justification::Center)) == (
            "📐 Justification: Center"@,
            LogColour::Control,
        ),
        description(CommandView::SetJustification(Justification::Right)) == (
            "📐 Justification: Right"@,
            LogColour::Control,
        ),
        description(CommandView::SetCodepage(cp)) == ("🌐 Codepage: "@ + decimal(cp as nat), LogColour::Control),
        description(CommandView::SetLineHeight(n)) == ("📏 Line height: "@ + decimal(n as nat), LogColour::Control),
        description(CommandView::SetFontSize(n)) == ("🔤 Font size: "@ + decimal(n as nat), LogColour::Control),
        description(CommandView::NewLine) == ("↵ New line"@, LogColour::Muted),
        description(CommandView::CutPaper) == ("✂️ Paper cut"@, LogColour::Danger),
        description(CommandView::PrintImage(d)) == ("🖼️ Bit Image (ESC *)"@, LogColour::Media),
        description(CommandView::PrintRasterImage { width_bytes: wb, height: h, data: d }) == (
            "🖼️ Raster Image (GS v 0) "@ + decimal(8 * wb as nat) + "×"@ + decimal(h as nat),
            LogColour::Media,
        ),
        description(CommandView::Unknown(d)) == ("❓ Unknown command"@, LogColour::Muted),
        description(CommandView::CarriageReturn) == ("⚙️ "@ + "CarriageReturn"@, LogColour::Muted),
        description(CommandView::LineFeed) == ("⚙️ "@ + "LineFeed"@, LogColour::Muted),
        description(CommandView::InitializePrinter) == ("⚙️ "@ + "InitializePrinter"@, LogColour::Muted),
{
    assert(("🔤 Font: "@ + Font::FontA.name()) =~= "🔤 Font: FontA"@) by {
        reveal_strlit("🔤 Font: ");
        reveal_strlit("FontA");
        reveal_strlit("🔤 Font: FontA");
    }
    assert(("🔤 Font: "@ + Font::FontB.name()) =~= "🔤 Font: FontB"@) by {
        reveal_strlit("🔤 Font: ");
        reveal_strlit("FontB");
        reveal_strlit("🔤 Font: FontB");
    }
    assert(("🔤 Font: "@ + Font::FontC.name()) =~= "🔤 Font: FontC"@) by {
        reveal_strlit("🔤 Font: ");
        reveal_strlit("FontC");
        reveal_strlit("🔤 Font: FontC");
    }
    assert(("📐 Justification: "@ + Justification::Left.name()) =~= "📐 Justification: Left"@) by {
        reveal_strlit("📐 Justification: ");
        reveal_strlit("Left");
        reveal_strlit("📐 Justification: Left");
    }
    assert(("📐 Justification: "@ + Justification::Center.name()) =~= "📐 Justification: Center"@) by {
        reveal_strlit("📐 Justification: ");
        reveal_strlit("Center");
        reveal_strlit("📐 Justification: Center");
    }
    assert(("📐 Justification: "@ + Justification::Right.name()) =~= "📐 Justification: Right"@) by {
        reveal_strlit("📐 Justification: ");
        reveal_strlit("Right");
        reveal_strlit("📐 Justification: Right");
    }
}

/// What the filter searches for each command other than text: the command's `{:?}`
/// rendering, with the flags as "true" exactly when set and the numbers in decimal.
pub proof fn law_search_texts(t: Seq<char>, b: bool, n: u32, cp: u8, wb: u16, h: u16, d: Seq<u8>)
    ensures
        search_text(CommandView::Text(t)) == t,
        search_text(CommandView::SetEmphasis(b)) == "SetEmphasis("@ + (if b { "true"@ } else { "false"@ }) + ")"@,
        search_text(CommandView::SetUnderline(b)) == "SetUnderline("@ + (if b { "true"@ } else { "false"@ }) + ")"@,
        search_text(CommandView::SetItalic(b)) == "SetItalic("@ + (if b { "true"@ } else { "false"@ }) + ")"@,
        search_text(CommandView::SetLineHeight(n)) == "SetLineHeight("@ + decimal(n as nat) + ")"@,
        search_text(CommandView::SetFontSize(n)) == "SetFontSize("@ + decimal(n as nat) + ")"@,
        search_text(CommandView::SetCodepage(cp)) == "SetCodepage("@ + decimal(cp as nat) + ")"@,
        search_text(CommandView::NewLine) == "NewLine"@,
        search_text(CommandView::CarriageReturn) == "CarriageReturn"@,
        search_text(CommandView::LineFeed) == "LineFeed"@,
        search_text(CommandView::InitializePrinter) == "InitializePrinter"@,
        search_text(CommandView::CutPaper) == "CutPaper"@,
        search_text(CommandView::PrintImage(d)) == "PrintImage("@ + byte_list(d) + ")"@,
        search_text(CommandView::Unknown(d)) == "Unknown("@ + byte_list(d) + ")"@,
        search_text(CommandView::PrintRasterImage { width_bytes: wb, height: h, data: d })
            == "PrintRasterImage { width_bytes: "@ + decimal(wb as nat) + ", height: "@ + decimal(h as nat)
            + ", data: "@ + byte_list(d) + " }"@,
{
}

/// An empty filter lets every entry through; a filter that is found in no entry's
/// search text (in lower case) lets none through; the entries let through are exactly
/// those whose search text contains the filter (both in lower case), oldest first.
pub proof fn law_filter(history: Seq<CommandEntry>, filter: Seq<char>, n: int)
    requires
        0 <= n <= history.len(),
        history.len() <= usize::MAX,
    ensures
        filter.len() == 0 ==> matching(history, filter, n) == Seq::new(n as nat, |i: int| i as usize),
        (forall|i: int| 0 <= i < n ==> !contains_text(lowercase(search_text(#[trigger] history[i].command@)), lowercase(filter)))
            && filter.len() > 0 ==> matching(history, filter, n).len() == 0,
        forall|k: int| 0 <= k < matching(history, filter, n).len() ==> {
            let i = #[trigger] matching(history, filter, n)[k] as int;
            &&& 0 <= i < n
            &&& (filter.len() == 0 || contains_text(lowercase(search_text(history[i].command@)), lowercase(filter)))
        },
        forall|i: int|
            0 <= i < n && (filter.len() == 0 || contains_text(lowercase(search_text(history[i].command@)), lowercase(filter)))
                ==> #[trigger] matching(history, filter, n).contains(i as usize),
        forall|j: int, k: int|
            0 <= j < k < matching(history, filter, n).len() ==> (#[trigger] matching(history, filter, n)[j] as int)
                < (#[trigger] matching(history, filter, n)[k] as int),
    decreases n,
{
    if n > 0 {
        law_filter(history, filter, n - 1);
        let prev = matching(history, filter, n - 1);
        let cur = matching(history, filter, n);
        assert forall|k: int| 0 <= k < cur.len() implies {
            let i = #[trigger] cur[k] as int;
            &&& 0 <= i < n
            &&& (filter.len() == 0 || contains_text(lowercase(search_text(history[i].command@)), lowercase(filter)))
        } by {
            if k < prev.len() {
                assert(cur[k] == prev[k]);
            } else {
                assert(cur[k] == (n - 1) as usize);
            }
        }
        if filter.len() == 0 {
            assert(matching(history, filter, n) =~= Seq::new(n as nat, |i: int| i as usize));
        }
        assert forall|i: int|
            0 <= i < n && (filter.len() == 0 || contains_text(lowercase(search_text(history[i].command@)), lowercase(filter)))
                implies #[trigger] cur.contains(i as usize) by {
            if i < n - 1 {
                assert(prev.contains(i as usize));
                let k = choose|k: int| 0 <= k < prev.len() && prev[k] == i as usize;
                assert(cur[k] == prev[k]);
            } else {
                assert(cur[cur.len() - 1] == (n - 1) as usize);
            }
        }
        assert forall|j: int, k: int| 0 <= j < k < cur.len() implies (#[trigger] cur[j] as int) < (#[trigger] cur[k] as int) by {
            if k < prev.len() {
                assert(cur[k] == prev[k]);
                assert(cur[j] == prev[j]);
            } else {
                assert(cur[j] == prev[j]);
                assert(cur[k] == (n - 1) as usize);
                assert((prev[j] as int) < n - 1);
            }
        }
    }
}

impl CommandLog {
    pub fn new() -> (log: Self)
        ensures
            log.show_timestamps,
            !log.show_raw_data,
            log.max_display_lines == DEFAULT_MAX_DISPLAY_LINES,
            log.filter_text@ == Seq::<char>::empty(),
    {
        Self::default()
    }

    /// The entries to list: the indices of the entries the filter lets through, newest
    /// first, at most `max_display_lines` of them; and how many the filter lets through.
    pub fn select_entries(&self, history: &VecDeque<CommandEntry>) -> (r: (Vec<usize>, usize))
        ensures
            ({
                let m = matching(history@, self.filter_text@, history@.len() as int);
                &&& r.1 == m.len()
                &&& r.0@ == m.reverse().take(
                    if self.max_display_lines < m.len() { self.max_display_lines as int } else { m.len() as int },
                )
            }),
    {
        let filter_empty = self.filter_text.as_str().is_empty();
        let filter = to_lowercase(self.filter_text.as_str());
        let mut m: Vec<usize> = Vec::new();
        let mut i: usize = 0;
        while i < history.len()
            invariant
                0 <= i <= history@.len(),
                filter_empty == (self.filter_text@.len() == 0),
                filter@ == lowercase(self.filter_text@),
                m@ == matching(history@, self.filter_text@, i as int),
            decreases history@.len() - i,
        {
            let key = history[i].command.search_text();
            let key_lower = to_lowercase(key.as_str());
            if filter_empty || str_contains(key_lower.as_str(), filter.as_str()) {
                m.push(i);
            }
            i += 1;
        }
        let count = m.len();
        let shown = if self.max_display_lines < count { self.max_display_lines } else { count };
        let mut selected: Vec<usize> = Vec::new();
        let mut k: usize = 0;
        while k < shown
            invariant
                count == m@.len(),
                shown <= count,
                0 <= k <= shown,
                selected@.len() == k,
                forall|j: int| 0 <= j < k ==> #[trigger] selected@[j] == m@[count - 1 - j],
            decreases shown - k,
        {
            selected.push(m[count - 1 - k]);
            k += 1;
        }
        assert(selected@ =~= m@.reverse().take(shown as int));
        (selected, count)
    }
}

} // verus!
