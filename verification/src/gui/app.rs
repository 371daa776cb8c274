//! Tabs of the main window.

use crate::gui::text_format::{decimal2, decimal2_string};
use vstd::prelude::*;

verus! {

/// A tab of the main window.
#[derive(Debug, Clone, Copy, PartialEq, Eq, Structural)]
pub enum Tab {
    Receipt,
    Commands,
    Settings,
}

impl Default for Tab {
    fn default() -> (t: Self)
        ensures
            t == Tab::Receipt,
    {
        Tab::Receipt
    }
}

impl Tab {
    /// The tab's caption.
    pub fn label(&self) -> (s: &'static str)
        ensures
            s@ == match self {
                Tab::Receipt => "🖨  Receipt"@,
                Tab::Commands => "📋  Commands"@,
                Tab::Settings => "⚙  Settings"@,
            },
    {
        match self {
            Tab::Receipt => "🖨  Receipt",
            Tab::Commands => "📋  Commands",
            Tab::Settings => "⚙  Settings",
        }
    }
}

/// The status bar's uptime, `⏱ HH:MM:SS`, with at least two digits for the hours.
pub open spec fn uptime_spec(secs: nat) -> Seq<char> {
    "⏱ "@ + decimal2(secs / 3600) + ":"@ + decimal2((secs % 3600) / 60) + ":"@ + decimal2(secs % 60)
}

/// The uptime shows hours, minutes and seconds that add up to the elapsed seconds, with
/// fewer than 60 minutes and seconds, each written with at least two digits.
pub proof fn law_uptime(secs: nat)
    ensures
        exists|h: nat, m: nat, s: nat|
            m < 60 && s < 60 && h * 3600 + m * 60 + s == secs && #[trigger] uptime_spec(secs) == "⏱ "@ + decimal2(h)
                + ":"@ + decimal2(m) + ":"@ + decimal2(s),
{
    let h = secs / 3600;
    let m = (secs % 3600) / 60;
    let s = secs % 60;
    assert(h * 3600 + m * 60 + s == secs);
    assert(m < 60 && s < 60 && h * 3600 + m * 60 + s == secs && uptime_spec(secs) == "⏱ "@ + decimal2(h) + ":"@
        + decimal2(m) + ":"@ + decimal2(s));
}

/// Uptime text for the status bar, from the seconds since the emulator started.
pub fn uptime_text(secs: u64) -> (s: String)
    ensures
        s@ == uptime_spec(secs as nat),
{
    let mut s = String::from_str("⏱ ");
    s.append(decimal2_string(secs / 3600).as_str());
    s.append(":");
    s.append(decimal2_string((secs % 3600) / 60).as_str());
    s.append(":");
    s.append(decimal2_string(secs % 60).as_str());
    s
}

} // verus!
