//! Settings panel: the state of its result dialog, and the messages reported for the
//! printer-installation and network operations.

use crate::escpos::parser::{decode_text, lossy_utf8};
use std::sync::mpsc::Receiver;
use vstd::prelude::*;

verus! {

#[verifier::external_type_specification]
#[verifier::external_body]
#[verifier::reject_recursive_types(T)]
pub struct ExReceiver<T>(std::sync::mpsc::Receiver<T>);

/// `c` has the Unicode property White_Space.
pub open spec fn is_white_space(c: char) -> bool {
    let v = c as u32;
    ||| 0x09 <= v <= 0x0D
    ||| v == 0x20 || v == 0x85 || v == 0xA0 || v == 0x1680
    ||| 0x2000 <= v <= 0x200A
    ||| v == 0x2028 || v == 0x2029 || v == 0x202F || v == 0x205F || v == 0x3000
}

/// `s` without its leading white space.
pub open spec fn trim_start(s: Seq<char>) -> Seq<char>
    decreases s.len(),
{
    if s.len() > 0 && is_white_space(s[0]) {
        trim_start(s.drop_first())
    } else {
        s
    }
}

/// `s` without its trailing white space.
pub open spec fn trim_end(s: Seq<char>) -> Seq<char>
    decreases s.len(),
{
    if s.len() > 0 && is_white_space(s.last()) {
        trim_end(s.drop_last())
    } else {
        s
    }
}

/// `s` with leading and trailing white space removed, as `str::trim` does.
pub open spec fn trim_whitespace(s: Seq<char>) -> Seq<char> {
    trim_end(trim_start(s))
}

proof fn lemma_trim_start(s: Seq<char>) -> (a: int)
    ensures
        0 <= a <= s.len(),
        trim_start(s) == s.skip(a),
        forall|k: int| 0 <= k < a ==> is_white_space(#[trigger] s[k]),
        a < s.len() ==> !is_white_space(s[a]),
    decreases s.len(),
{
    if s.len() > 0 && is_white_space(s[0]) {
        let a0 = lemma_trim_start(s.drop_first());
        assert(s.drop_first().skip(a0) =~= s.skip(a0 + 1));
        assert forall|k: int| 0 <= k < a0 + 1 implies is_white_space(#[trigger] s[k]) by {
            if k > 0 {
                assert(s[k] == s.drop_first()[k - 1]);
            }
        }
        a0 + 1
    } else {
        assert(s.skip(0) =~= s);
        0
    }
}

proof fn lemma_trim_end(s: Seq<char>) -> (b: int)
    ensures
        0 <= b <= s.len(),
        trim_end(s) == s.take(b),
        forall|k: int| b <= k < s.len() ==> is_white_space(#[trigger] s[k]),
        b > 0 ==> !is_white_space(s[b - 1]),
    decreases s.len(),
{
    if s.len() > 0 && is_white_space(s.last()) {
        let b0 = lemma_trim_end(s.drop_last());
        assert(s.drop_last().take(b0) =~= s.take(b0));
        assert forall|k: int| b0 <= k < s.len() implies is_white_space(#[trigger] s[k]) by {
            if k < s.len() - 1 {
                assert(s[k] == s.drop_last()[k]);
            }
        }
        b0
    } else {
        assert(s.take(s.len() as int) =~= s);
        s.len() as int
    }
}

/// Trimming removes white space at both ends and nothing else: the result is a run of
/// consecutive characters of `s`, everything before and after it is white space, and it
/// neither begins nor ends with white space.
pub proof fn law_trim(s: Seq<char>)
    ensures
        exists|a: int|
            0 <= a && a + trim_whitespace(s).len() <= s.len() && #[trigger] s.subrange(
                a,
                a + trim_whitespace(s).len(),
            ) == trim_whitespace(s) && (forall|k: int| 0 <= k < a ==> is_white_space(#[trigger] s[k])) && (
            forall|k: int| a + trim_whitespace(s).len() <= k < s.len() ==> is_white_space(#[trigger] s[k])),
        trim_whitespace(s).len() > 0 ==> !is_white_space(trim_whitespace(s)[0]) && !is_white_space(
            trim_whitespace(s).last(),
        ),
{
    let a = lemma_trim_start(s);
    let u = s.skip(a);
    let b = lemma_trim_end(u);
    let t = trim_whitespace(s);
    assert(t == u.take(b));
    assert(s.subrange(a, a + b) =~= t);
    assert forall|k: int| a + t.len() <= k < s.len() implies is_white_space(#[trigger] s[k]) by {
        assert(s[k] == u[k - a]);
    }
    if t.len() > 0 {
        assert(t[0] == s[a]);
        assert(t.last() == u[b - 1]);
    }
    assert(0 <= a && a + t.len() <= s.len() && s.subrange(a, a + t.len()) == t && (forall|k: int|
        0 <= k < a ==> is_white_space(#[trigger] s[k])) && (forall|k: int|
        a + t.len() <= k < s.len() ==> is_white_space(#[trigger] s[k])));
}

/// Calls `str::trim`: as std documents, the text without its leading and trailing
/// characters of the Unicode property White_Space.
#[verifier::external_body]
fn trim_str(s: &str) -> (r: &str)
    ensures
        r@ == trim_whitespace(s@),
{
    s.trim()
}

/// `pat` occurs in `s` as a run of consecutive characters.
pub open spec fn contains_text(s: Seq<char>, pat: Seq<char>) -> bool {
    exists|i: int| 0 <= i && i + pat.len() <= s.len() && #[trigger] s.subrange(i, i + pat.len()) == pat
}

/// Calls `str::contains` with a string pattern: true exactly when `pat` occurs in `s`,
/// as std documents.
#[verifier::external_body]
pub(crate) fn str_contains(s: &str, pat: &str) -> (r: bool)
    ensures
        r == contains_text(s@, pat@),
{
    s.contains(pat)
}

/// Outcome of a printer or network operation, shown in a dialog.
pub struct OpResult {
    pub title: String,
    pub body: String,
    pub ok: bool,
}

/// State of the settings panel: the dialog shown, and the operation running in the
/// background, if any.
pub struct SettingsPanel {
    pub result: Option<OpResult>,
    pub pending: Option<Receiver<OpResult>>,
}

impl Default for SettingsPanel {
    fn default() -> (p: Self)
        ensures
            p.result is None,
            p.pending is None,
    {
        SettingsPanel { result: None, pending: None }
    }
}

impl SettingsPanel {
    /// An operation is running in the background.
    pub fn is_busy(&self) -> (b: bool)
        ensures
            b == self.pending is Some,
    {
        self.pending.is_some()
    }

    /// Starts waiting for the operation whose outcome arrives on `rx`, and shows a
    /// "Working…" dialog titled `title` meanwhile.
    pub fn begin(&mut self, title: &str, rx: Receiver<OpResult>)
        ensures
            final(self).pending == Some(rx),
            final(self).result matches Some(r) && r.title@ == title@ && r.body@ == "Working…"@
                && r.ok,
    {
        self.pending = Some(rx);
        self.result = Some(
            OpResult { title: String::from_str(title), body: String::from_str("Working…"), ok: true },
        );
    }

    /// The background operation finished with `res`: show it.
    pub fn complete(&mut self, res: OpResult)
        ensures
            final(self).pending is None,
            final(self).result == Some(res),
    {
        self.result = Some(res);
        self.pending = None;
    }

    /// Closes the dialog when its OK button was clicked or its window closed, but
    /// never while the operation is still running.
    pub fn close_dialog(&mut self, window_open: bool, ok_clicked: bool)
        ensures
            final(self).pending == old(self).pending,
            final(self).result == if old(self).pending is None && (ok_clicked || !window_open) {
                None
            } else {
                old(self).result
            },
    {
        let busy = self.pending.is_some();
        if !busy && (ok_clicked || !window_open) {
            self.result = None;
        }
    }
}

/// A shell stream as shown to the user: decoded lossily and trimmed.
pub open spec fn stream_text(bytes: Seq<u8>) -> Seq<char> {
    trim_whitespace(lossy_utf8(bytes))
}

/// The combined output of a shell command: the text of standard output and of standard
/// error, one after the other on separate lines, leaving out a stream that is empty.
pub open spec fn combined_text(stdout: Seq<u8>, stderr: Seq<u8>) -> Seq<char> {
    let (a, b) = (stream_text(stdout), stream_text(stderr));
    if a.len() > 0 && b.len() > 0 {
        a + "\n"@ + b
    } else if a.len() > 0 {
        a
    } else {
        b
    }
}

/// The text shown for a stream, decoded and trimmed.
fn stream_string(bytes: &[u8]) -> (s: String)
    ensures
        s@ == stream_text(bytes@),
{
    let decoded = decode_text(bytes);
    String::from_str(trim_str(decoded.as_str()))
}

/// Combined output of a shell command, from its standard output and error streams:
/// both streams' text appears in it.
pub fn combined_output(stdout: &[u8], stderr: &[u8]) -> (s: String)
    ensures
        s@ == combined_text(stdout@, stderr@),
        contains_text(s@, stream_text(stdout@)),
        contains_text(s@, stream_text(stderr@)),
{
    let out = stream_string(stdout);
    let err = stream_string(stderr);
    let ghost (a, b) = (out@, err@);
    let result = if !out.as_str().is_empty() && !err.as_str().is_empty() {
        let mut joined = out;
        joined.append("\n");
        joined.append(err.as_str());
        proof {
            reveal_strlit("\n");
            let ia: int = 0;
            let ib: int = a.len() as int + 1;
            assert(joined@.subrange(ia, ia + a.len()) =~= a);
            assert(joined@.subrange(ib, ib + b.len()) =~= b);
            assert(contains_text(joined@, a));
            assert(contains_text(joined@, b));
        }
        joined
    } else if !out.as_str().is_empty() {
        proof {
            let z: int = 0;
            assert(a.subrange(z, z + a.len()) =~= a);
            assert(a.subrange(z, z + b.len()) =~= b);
            assert(contains_text(a, a));
            assert(contains_text(a, b));
        }
        out
    } else {
        proof {
            let z: int = 0;
            assert(b.subrange(z, z + b.len()) =~= b);
            assert(b.subrange(z, z + a.len()) =~= a);
            assert(contains_text(b, b));
            assert(contains_text(b, a));
        }
        err
    };
    result
}

/// The text shown for the Linux installer: `first` stream's text unless it is empty,
/// else `second` stream's.
pub open spec fn preferred_text(first: Seq<u8>, second: Seq<u8>) -> Seq<char> {
    if stream_text(first).len() > 0 {
        stream_text(first)
    } else {
        stream_text(second)
    }
}

/// Text of the `first` stream of a shell command, or of the `second` when the first is
/// empty.
pub fn preferred_output(first: &[u8], second: &[u8]) -> (s: String)
    ensures
        s@ == preferred_text(first@, second@),
{
    let a = stream_string(first);
    if !a.as_str().is_empty() {
        a
    } else {
        stream_string(second)
    }
}

/// Outcome of installing the Windows printer, from the shell's status and output.
pub fn install_windows_outcome(ok: bool, body: String) -> (r: OpResult)
    ensures
        r.title@ == "Install Windows Printer"@,
        r.ok == ok,
        r.body@ == if body@.len() > 0 {
            body@
        } else if ok {
            "Printer installed successfully."@
        } else {
            "Installation failed. Try running as Administrator."@
        },
{
    let body = if body.as_str().is_empty() {
        if ok {
            String::from_str("Printer installed successfully.")
        } else {
            String::from_str("Installation failed. Try running as Administrator.")
        }
    } else {
        body
    };
    OpResult { title: String::from_str("Install Windows Printer"), body, ok }
}

/// Outcome of uninstalling the printer, from the shell's status and output.
pub fn uninstall_outcome(ok: bool, body: String) -> (r: OpResult)
    ensures
        r.title@ == "Uninstall Printer"@,
        r.ok == ok,
        r.body@ == if body@.len() > 0 { body@ } else { "Printer uninstalled."@ },
{
    let body = if body.as_str().is_empty() {
        String::from_str("Printer uninstalled.")
    } else {
        body
    };
    OpResult { title: String::from_str("Uninstall Printer"), body, ok }
}

/// The printer-status query's output says the printer is not installed: it is blank,
/// or mentions "Unknown" or "No such".
pub open spec fn reports_not_installed(body: Seq<char>) -> bool {
    trim_whitespace(body).len() == 0 || contains_text(body, "Unknown"@) || contains_text(
        body,
        "No such"@,
    )
}

/// Outcome of checking whether the printer is installed, from the query's output.
pub fn printer_status_outcome(body: String) -> (r: OpResult)
    ensures
        r.title@ == "Printer Status"@,
        r.ok == !reports_not_installed(body@),
        r.body@ == if reports_not_installed(body@) {
            "Virtual printer is NOT installed."@
        } else {
            body@
        },
{
    let missing = trim_str(body.as_str()).is_empty() || str_contains(body.as_str(), "Unknown")
        || str_contains(body.as_str(), "No such");
    if missing {
        OpResult {
            title: String::from_str("Printer Status"),
            body: String::from_str("Virtual printer is NOT installed."),
            ok: false,
        }
    } else {
        OpResult { title: String::from_str("Printer Status"), body, ok: true }
    }
}

/// Outcome of the TCP reachability test of the emulator's port.
pub fn connection_outcome(success: bool) -> (r: OpResult)
    ensures
        r.title@ == "Test Connection"@,
        r.ok == success,
        r.body@ == if success {
            "✅ Port 9100 is reachable — the server is listening."@
        } else {
            "❌ Port 9100 is not reachable.\nMake sure the emulator is running."@
        },
{
    let body = if success {
        String::from_str("✅ Port 9100 is reachable — the server is listening.")
    } else {
        String::from_str("❌ Port 9100 is not reachable.\nMake sure the emulator is running.")
    };
    OpResult { title: String::from_str("Test Connection"), body, ok: success }
}

/// Outcome of installing the Linux (CUPS) printer, from the shell's status and its
/// standard output and error streams.
pub fn linux_install_outcome(ok: bool, stdout: &[u8], stderr: &[u8]) -> (r: OpResult)
    ensures
        r.title@ == "Install Linux Printer"@,
        r.ok == ok,
        r.body@ == if preferred_text(stdout@, stderr@).len() > 0 {
            preferred_text(stdout@, stderr@)
        } else {
            "Done."@
        },
{
    let body = preferred_output(stdout, stderr);
    let body = if body.as_str().is_empty() {
        String::from_str("Done.")
    } else {
        body
    };
    OpResult { title: String::from_str("Install Linux Printer"), body, ok }
}

} // verus!
