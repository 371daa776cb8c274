//! Incremental ESC/POS byte-stream parser.
//!
//! Bytes arrive in arbitrary chunks (one TCP read at a time). The parser keeps
//! whatever it cannot decode yet (an ESC, GS or DLE sequence that is still
//! incomplete) and retries it when the next chunk arrives.

use crate::escpos::commands::{command_views, CommandView, EscPosCommand, Font, Justification};
use vstd::prelude::*;
use vstd::utf8::{decode_utf8, encode_scalar, valid_utf8};

verus! {

/// Text that `String::from_utf8_lossy` makes of `bytes`.
pub uninterp spec fn lossy_utf8(bytes: Seq<u8>) -> Seq<char>;

/// U+FFFD, which lossy decoding puts in place of invalid UTF-8.
pub const REPLACEMENT_CHARACTER: char = '\u{FFFD}';

/// `pat` occurs in `s` as consecutive elements.
pub open spec fn occurs_in<T>(pat: Seq<T>, s: Seq<T>) -> bool {
    exists|i: int| 0 <= i && i + pat.len() <= s.len() && #[trigger] s.subrange(i, i + pat.len()) == pat
}

/// Calls `String::from_utf8_lossy` and takes ownership of the result.
/// Claims that the text is `lossy_utf8` of the bytes (a function of the bytes alone), and,
/// as std documents, that it is exactly the characters the bytes encode when they are
/// valid UTF-8, and otherwise made of characters whose UTF-8 encoding occurs in the
/// bytes and of U+FFFD in place of invalid sequences. Where exactly each U+FFFD stands
/// is left unsaid.
#[verifier::external_body]
pub(crate) fn decode_text(bytes: &[u8]) -> (s: String)
    ensures
        s@ == lossy_utf8(bytes@),
        valid_utf8(bytes@) ==> s@ == decode_utf8(bytes@),
        forall|k: int|
            0 <= k < s@.len() ==> #[trigger] s@[k] == REPLACEMENT_CHARACTER || occurs_in(
                encode_scalar(s@[k] as u32),
                bytes@,
            ),
{
    String::from_utf8_lossy(bytes).into_owned()
}

/// ESC/POS byte values the parser dispatches on.
pub const ESC: u8 = 0x1B;
pub const GS: u8 = 0x1D;
pub const DLE: u8 = 0x10;
pub const EOT: u8 = 0x04;
pub const LF: u8 = 0x0A;
pub const CR: u8 = 0x0D;

/// Number of dots of an `ESC *` image: `nL + nH * 256`.
pub open spec fn bit_image_len(m: u8, nl: u8, nh: u8) -> int {
    let n_dots = nl + nh * 256;
    let bytes_per_col: int = if m == 32 || m == 33 { 3 } else { 1 };
    bytes_per_col * n_dots
}

/// The ESC command at the start of `s` (where `s[0]` is ESC) and how many bytes it
/// takes, or `None` while the sequence is still incomplete.
pub open spec fn esc_command(s: Seq<u8>) -> Option<(CommandView, int)> {
    if s.len() < 2 {
        None
    } else {
        let c = s[1];
        if c == 0x40 {  // '@'
            Some((CommandView::InitializePrinter, 2))
        } else if c == 0x45 {  // 'E'
            Some((CommandView::SetEmphasis(true), 2))
        } else if c == 0x46 {  // 'F'
            Some((CommandView::SetEmphasis(false), 2))
        } else if c == 0x34 {  // '4'
            Some((CommandView::SetItalic(true), 2))
        } else if c == 0x35 {  // '5'
            Some((CommandView::SetItalic(false), 2))
        } else if c == 0x6D || c == 0x69 {  // 'm', 'i'
            Some((CommandView::CutPaper, 2))
        } else if c == 0x4D || c == 0x61 || c == 0x2D || c == 0x33 || c == 0x21 || c == 0x74
            || c == 0x4A {  // 'M' 'a' '-' '3' '!' 't' 'J': one argument byte
            if s.len() < 3 {
                None
            } else {
                let n = s[2];
                let cmd = if c == 0x4D {
                    CommandView::SetFont(
                        if n == 1 {
                            Font::FontB
                        } else if n == 2 {
                            Font::FontC
                        } else {
                            Font::FontA
                        },
                    )
                } else if c == 0x61 {
                    CommandView::SetJustification(
                        if n == 1 {
                            Justification::Center
                        } else if n == 2 {
                            Justification::Right
                        } else {
                            Justification::Left
                        },
                    )
                } else if c == 0x2D {
                    CommandView::SetUnderline(n != 0)
                } else if c == 0x33 {
                    CommandView::SetLineHeight(n as u32)
                } else if c == 0x21 {
                    CommandView::SetFontSize(n as u32)
                } else if c == 0x74 {
                    CommandView::SetCodepage(n)
                } else {
                    CommandView::LineFeed
                };
                Some((cmd, 3))
            }
        } else if c == 0x2A {  // '*': ESC * m nL nH d1..dk
            if s.len() < 5 {
                None
            } else {
                let consumed = 5 + bit_image_len(s[2], s[3], s[4]);
                if s.len() < consumed {
                    None
                } else {
                    Some((CommandView::PrintImage(s.subrange(5, consumed)), consumed))
                }
            }
        } else {
            Some((CommandView::Unknown(s.take(2)), 2))
        }
    }
}

/// The GS command at the start of `s` (where `s[0]` is GS) and how many bytes it
/// takes, or `None` while the sequence is still incomplete.
pub open spec fn gs_command(s: Seq<u8>) -> Option<(CommandView, int)> {
    if s.len() < 2 {
        None
    } else {
        let c = s[1];
        if c == 0x76 {  // 'v': GS v 0 m xL xH yL yH d1..dk
            if s.len() < 8 {
                None
            } else {
                let width_bytes = s[4] + s[5] * 256;
                let height = s[6] + s[7] * 256;
                let consumed = 8 + width_bytes * height;
                if s.len() < consumed {
                    None
                } else {
                    Some(
                        (
                            CommandView::PrintRasterImage {
                                width_bytes: width_bytes as u16,
                                height: height as u16,
                                data: s.subrange(8, consumed),
                            },
                            consumed,
                        ),
                    )
                }
            }
        } else if c == 0x56 {  // 'V': cut, GS V 65/66 n takes one more byte
            if s.len() < 3 {
                None
            } else if s[2] == 65 || s[2] == 66 {
                if s.len() < 4 {
                    None
                } else {
                    Some((CommandView::CutPaper, 4))
                }
            } else {
                Some((CommandView::CutPaper, 3))
            }
        } else {
            Some((CommandView::Unknown(s.take(2)), 2))
        }
    }
}

/// End of the run of printable bytes (`>= 0x20`) that starts at `i`.
pub open spec fn run_end(buf: Seq<u8>, i: int) -> int
    decreases buf.len() - i,
{
    if 0 <= i < buf.len() && buf[i] >= 0x20 {
        run_end(buf, i + 1)
    } else {
        i
    }
}

pub proof fn lemma_run_end(buf: Seq<u8>, i: int)
    requires
        0 <= i <= buf.len(),
    ensures
        i <= run_end(buf, i) <= buf.len(),
        forall|k: int| i <= k < run_end(buf, i) ==> buf[k] >= 0x20,
        run_end(buf, i) < buf.len() ==> buf[run_end(buf, i)] < 0x20,
    decreases buf.len() - i,
{
    if i < buf.len() && buf[i] >= 0x20 {
        lemma_run_end(buf, i + 1);
    }
}

/// A decoded command together with the bytes it was decoded from.
pub type Decoded = (CommandView, Seq<u8>);

/// Prepends one decoded command to the result of a scan.
pub open spec fn prepend(c: CommandView, raw: Seq<u8>, rest: (Seq<Decoded>, int)) -> (Seq<Decoded>, int) {
    (seq![(c, raw)] + rest.0, rest.1)
}

/// The commands of a sequence of decoded commands.
pub open spec fn commands_of(d: Seq<Decoded>) -> Seq<CommandView> {
    d.map_values(|x: Decoded| x.0)
}

/// Decodes `buf` from position `i` on: the commands, in order, each with the bytes it
/// was decoded from, and the position at which decoding stopped (the end of `buf`, or
/// the start of an incomplete sequence).
///
/// LF and CR become `NewLine` and `CarriageReturn`; ESC and GS sequences are decoded by
/// [`esc_command`] and [`gs_command`]; `DLE EOT n` (3 bytes) and other `DLE x` pairs are
/// consumed silently; other control bytes are skipped; a run of printable bytes becomes
/// one `Text` command unless it decodes to no character at all.
pub open spec fn scan(buf: Seq<u8>, i: int) -> (Seq<Decoded>, int)
    decreases buf.len() - i,
{
    if i < 0 || i >= buf.len() {
        (seq![], i)
    } else {
        let b = buf[i];
        if b == LF {
            prepend(CommandView::NewLine, buf.subrange(i, i + 1), scan(buf, i + 1))
        } else if b == CR {
            prepend(CommandView::CarriageReturn, buf.subrange(i, i + 1), scan(buf, i + 1))
        } else if b == ESC {
            match esc_command(buf.skip(i)) {
                Some((c, n)) => prepend(c, buf.subrange(i, i + n), scan(buf, i + n)),
                None => (seq![], i),
            }
        } else if b == GS {
            match gs_command(buf.skip(i)) {
                Some((c, n)) => prepend(c, buf.subrange(i, i + n), scan(buf, i + n)),
                None => (seq![], i),
            }
        } else if b == DLE {
            if i + 1 >= buf.len() {
                (seq![], i)
            } else if buf[i + 1] == EOT {
                if i + 2 >= buf.len() {
                    (seq![], i)
                } else {
                    scan(buf, i + 3)
                }
            } else {
                scan(buf, i + 2)
            }
        } else if b < 0x20 {
            scan(buf, i + 1)
        } else {
            let j = run_end(buf, i);
            proof {
                lemma_run_end(buf, i);
            }
            let t = lossy_utf8(buf.subrange(i, j));
            if t.len() > 0 {
                prepend(CommandView::Text(t), buf.subrange(i, j), scan(buf, j))
            } else {
                scan(buf, j)
            }
        }
    }
}

/// A decoded ESC or GS sequence lies within the bytes it was decoded from.
pub proof fn lemma_command_len(s: Seq<u8>)
    ensures
        esc_command(s) matches Some((c, n)) ==> 2 <= n <= s.len(),
        gs_command(s) matches Some((c, n)) ==> 2 <= n <= s.len(),
{
}

/// The scan of `buf` from `i` on ends with a run of printable bytes that reaches the
/// end of `buf` (so more printable bytes would extend it).
pub open spec fn open_run(buf: Seq<u8>, i: int) -> bool
    decreases buf.len() - i,
{
    if i < 0 || i >= buf.len() {
        false
    } else {
        let b = buf[i];
        if b == LF || b == CR {
            open_run(buf, i + 1)
        } else if b == ESC {
            match esc_command(buf.skip(i)) {
                Some((c, n)) => open_run(buf, i + n),
                None => false,
            }
        } else if b == GS {
            match gs_command(buf.skip(i)) {
                Some((c, n)) => open_run(buf, i + n),
                None => false,
            }
        } else if b == DLE {
            if i + 1 >= buf.len() {
                false
            } else if buf[i + 1] == EOT {
                if i + 2 >= buf.len() {
                    false
                } else {
                    open_run(buf, i + 3)
                }
            } else {
                open_run(buf, i + 2)
            }
        } else if b < 0x20 {
            open_run(buf, i + 1)
        } else {
            let j = run_end(buf, i);
            proof {
                lemma_run_end(buf, i);
            }
            if j >= buf.len() {
                true
            } else {
                open_run(buf, j)
            }
        }
    }
}

/// A complete ESC sequence decodes the same whatever bytes follow it.
pub proof fn lemma_esc_prefix(s: Seq<u8>, t: Seq<u8>)
    ensures
        esc_command(s) is Some ==> esc_command(s + t) == esc_command(s),
{
    if esc_command(s) is Some {
        let st = s + t;
        assert(st[1] == s[1]);
        if s.len() >= 3 {
            assert(st[2] == s[2]);
        }
        if s.len() >= 5 {
            assert(st[3] == s[3]);
            assert(st[4] == s[4]);
            let consumed = 5 + bit_image_len(s[2], s[3], s[4]);
            if consumed <= s.len() {
                assert(st.subrange(5, consumed) =~= s.subrange(5, consumed));
            }
        }
        assert(st.take(2) =~= s.take(2));
    }
}

/// A complete GS sequence decodes the same whatever bytes follow it.
pub proof fn lemma_gs_prefix(s: Seq<u8>, t: Seq<u8>)
    ensures
        gs_command(s) is Some ==> gs_command(s + t) == gs_command(s),
{
    if gs_command(s) is Some {
        let st = s + t;
        assert(st[1] == s[1]);
        if s.len() >= 3 {
            assert(st[2] == s[2]);
        }
        if s.len() >= 8 {
            assert(st[4] == s[4]);
            assert(st[5] == s[5]);
            assert(st[6] == s[6]);
            assert(st[7] == s[7]);
            let consumed = 8 + (s[4] + s[5] * 256) * (s[6] + s[7] * 256);
            if consumed <= s.len() {
                assert(st.subrange(8, consumed) =~= s.subrange(8, consumed));
            }
        }
        assert(st.take(2) =~= s.take(2));
    }
}

proof fn lemma_run_end_extend(buf: Seq<u8>, b: Seq<u8>, i: int)
    requires
        0 <= i <= buf.len(),
        run_end(buf, i) < buf.len() || b.len() == 0 || b[0] < 0x20,
    ensures
        run_end(buf + b, i) == run_end(buf, i),
    decreases buf.len() - i,
{
    lemma_run_end(buf, i);
    let bb = buf + b;
    if i < buf.len() {
        assert(bb[i] == buf[i]);
        if buf[i] >= 0x20 {
            lemma_run_end_extend(buf, b, i + 1);
        }
    } else if b.len() > 0 {
        assert(bb[i] == b[0]);
    }
}

proof fn lemma_run_end_shift(pre: Seq<u8>, rest: Seq<u8>, k: int)
    requires
        0 <= k <= rest.len(),
    ensures
        run_end(pre + rest, pre.len() + k) == pre.len() + run_end(rest, k),
    decreases rest.len() - k,
{
    let all = pre + rest;
    if k < rest.len() {
        assert(all[pre.len() + k] == rest[k]);
        if rest[k] >= 0x20 {
            lemma_run_end_shift(pre, rest, k + 1);
        }
    }
}

/// Appending bytes does not change what is decoded from `i` up to where the scan of
/// `buf` stopped, unless they continue an open run of text.
proof fn lemma_scan_extend(buf: Seq<u8>, b: Seq<u8>, i: int)
    requires
        0 <= i <= buf.len(),
        !(open_run(buf, i) && b.len() > 0 && b[0] >= 0x20),
    ensures
        i <= scan(buf, i).1 <= buf.len(),
        scan(buf + b, i).0 == scan(buf, i).0 + scan(buf + b, scan(buf, i).1).0,
        scan(buf + b, i).1 == scan(buf + b, scan(buf, i).1).1,
    decreases buf.len() - i,
{
    let bb = buf + b;
    if i >= buf.len() {
        assert(scan(buf, i).0 =~= Seq::<Decoded>::empty());
        assert(scan(bb, i).0 =~= scan(buf, i).0 + scan(bb, i).0);
    } else {
        let x = buf[i];
        assert(bb[i] == x);
        assert(bb.skip(i) =~= buf.skip(i) + b);
        lemma_command_len(buf.skip(i));
        assert(bb.subrange(i, i + 1) =~= buf.subrange(i, i + 1));
        if x == LF || x == CR {
            lemma_scan_extend(buf, b, i + 1);
            assert(scan(bb, i).0 =~= scan(buf, i).0 + scan(bb, scan(buf, i).1).0);
        } else if x == ESC {
            lemma_esc_prefix(buf.skip(i), b);
            match esc_command(buf.skip(i)) {
                Some((c, n)) => {
                    assert(bb.subrange(i, i + n) =~= buf.subrange(i, i + n));
                    lemma_scan_extend(buf, b, i + n);
                    assert(scan(bb, i).0 =~= scan(buf, i).0 + scan(bb, scan(buf, i).1).0);
                },
                None => {
                    assert(scan(bb, i).0 =~= scan(buf, i).0 + scan(bb, i).0);
                },
            }
        } else if x == GS {
            lemma_gs_prefix(buf.skip(i), b);
            match gs_command(buf.skip(i)) {
                Some((c, n)) => {
                    assert(bb.subrange(i, i + n) =~= buf.subrange(i, i + n));
                    lemma_scan_extend(buf, b, i + n);
                    assert(scan(bb, i).0 =~= scan(buf, i).0 + scan(bb, scan(buf, i).1).0);
                },
                None => {
                    assert(scan(bb, i).0 =~= scan(buf, i).0 + scan(bb, i).0);
                },
            }
        } else if x == DLE {
            if i + 1 >= buf.len() {
                assert(scan(bb, i).0 =~= scan(buf, i).0 + scan(bb, i).0);
            } else {
                assert(bb[i + 1] == buf[i + 1]);
                if buf[i + 1] == EOT {
                    if i + 2 >= buf.len() {
                        assert(scan(bb, i).0 =~= scan(buf, i).0 + scan(bb, i).0);
                    } else {
                        lemma_scan_extend(buf, b, i + 3);
                    }
                } else {
                    lemma_scan_extend(buf, b, i + 2);
                }
            }
        } else if x < 0x20 {
            lemma_scan_extend(buf, b, i + 1);
        } else {
            let j = run_end(buf, i);
            lemma_run_end(buf, i);
            lemma_run_end_extend(buf, b, i);
            assert(bb.subrange(i, j) =~= buf.subrange(i, j));
            if j < buf.len() {
                lemma_scan_extend(buf, b, j);
            } else {
                assert(scan(buf, j).0 =~= Seq::<Decoded>::empty());
            }
            assert(scan(bb, i).0 =~= scan(buf, i).0 + scan(bb, scan(buf, i).1).0);
        }
    }
}

/// Decoding does not depend on the bytes before the starting position.
proof fn lemma_scan_shift(pre: Seq<u8>, rest: Seq<u8>, k: int)
    requires
        0 <= k <= rest.len(),
    ensures
        scan(pre + rest, pre.len() + k) == (scan(rest, k).0, pre.len() + scan(rest, k).1),
    decreases rest.len() - k,
{
    let all = pre + rest;
    let i = pre.len() + k;
    if k < rest.len() {
        let x = rest[k];
        assert(all[i] == x);
        assert(all.skip(i) =~= rest.skip(k));
        lemma_command_len(rest.skip(k));
        assert(all.subrange(i, i + 1) =~= rest.subrange(k, k + 1));
        if x == LF || x == CR || x < 0x20 && x != ESC && x != GS && x != DLE {
            lemma_scan_shift(pre, rest, k + 1);
        } else if x == ESC {
            if let Some((c, n)) = esc_command(rest.skip(k)) {
                assert(all.subrange(i, i + n) =~= rest.subrange(k, k + n));
                lemma_scan_shift(pre, rest, k + n);
            }
        } else if x == GS {
            if let Some((c, n)) = gs_command(rest.skip(k)) {
                assert(all.subrange(i, i + n) =~= rest.subrange(k, k + n));
                lemma_scan_shift(pre, rest, k + n);
            }
        } else if x == DLE {
            if k + 1 < rest.len() {
                assert(all[i + 1] == rest[k + 1]);
                if rest[k + 1] == EOT {
                    if k + 2 < rest.len() {
                        lemma_scan_shift(pre, rest, k + 3);
                    }
                } else {
                    lemma_scan_shift(pre, rest, k + 2);
                }
            }
        } else {
            lemma_run_end(rest, k);
            lemma_run_end_shift(pre, rest, k);
            let j = run_end(rest, k);
            assert(all.subrange(i, pre.len() + j) =~= rest.subrange(k, j));
            lemma_scan_shift(pre, rest, j);
        }
    }
}

/// Feeding a stream to the parser in two chunks decodes the same commands, and leaves
/// the same bytes pending, as feeding it in one piece, unless the first chunk ends
/// inside a run of printable text that the second chunk continues.
pub proof fn law_chunked_parsing(pending: Seq<u8>, a: Seq<u8>, b: Seq<u8>)
    requires
        !(open_run(pending + a, 0) && b.len() > 0 && b[0] >= 0x20),
    ensures
        ({
            let first = scan(pending + a, 0);
            let left = (pending + a).skip(first.1);
            let second = scan(left + b, 0);
            let whole = scan(pending + a + b, 0);
            &&& first.0 + second.0 == whole.0
            &&& (left + b).skip(second.1) == (pending + a + b).skip(whole.1)
        }),
{
    let buf = pending + a;
    lemma_scan_extend(buf, b, 0);
    let first = scan(buf, 0);
    let left = buf.skip(first.1);
    let pre = buf.take(first.1);
    assert(buf + b =~= pre + (left + b));
    assert(pending + a + b =~= buf + b);
    lemma_scan_shift(pre, left + b, 0);
    let second = scan(left + b, 0);
    lemma_scan_bounds(left + b, 0);
    assert((left + b).skip(second.1) =~= (buf + b).skip(first.1 + second.1));
}

/// The scan stops within the buffer, and where it stops before the end an ESC, GS or
/// DLE sequence begins that is not complete yet.
pub proof fn lemma_scan_bounds(buf: Seq<u8>, i: int)
    requires
        0 <= i <= buf.len(),
    ensures
        i <= scan(buf, i).1 <= buf.len(),
        scan(buf, i).1 < buf.len() ==> incomplete_at(buf, scan(buf, i).1),
    decreases buf.len() - i,
{
    if i < buf.len() {
        let x = buf[i];
        if x == LF || x == CR || x < 0x20 && x != ESC && x != GS && x != DLE {
            lemma_scan_bounds(buf, i + 1);
        } else if x == ESC {
            if let Some((c, n)) = esc_command(buf.skip(i)) {
                lemma_scan_bounds(buf, i + n);
            }
        } else if x == GS {
            if let Some((c, n)) = gs_command(buf.skip(i)) {
                lemma_scan_bounds(buf, i + n);
            }
        } else if x == DLE {
            if i + 1 < buf.len() {
                if buf[i + 1] == EOT {
                    if i + 2 < buf.len() {
                        lemma_scan_bounds(buf, i + 3);
                    }
                } else {
                    lemma_scan_bounds(buf, i + 2);
                }
            }
        } else {
            lemma_run_end(buf, i);
            lemma_scan_bounds(buf, run_end(buf, i));
        }
    }
}

/// At position `i` of `buf` begins an ESC, GS or DLE sequence that is not complete.
pub open spec fn incomplete_at(buf: Seq<u8>, i: int) -> bool {
    &&& 0 <= i < buf.len()
    &&& {
        ||| buf[i] == ESC && esc_command(buf.skip(i)) is None
        ||| buf[i] == GS && gs_command(buf.skip(i)) is None
        ||| buf[i] == DLE && (i + 1 >= buf.len() || buf[i + 1] == EOT && i + 2 >= buf.len())
    }
}

/// What the parser keeps between chunks is exactly an incomplete ESC, GS or DLE
/// sequence and the bytes after it, or nothing: all other bytes are decoded or skipped.
pub proof fn law_pending_is_incomplete(buf: Seq<u8>)
    ensures
        0 <= scan(buf, 0).1 <= buf.len(),
        buf.skip(scan(buf, 0).1).len() > 0 ==> incomplete_at(buf, scan(buf, 0).1),
{
    lemma_scan_bounds(buf, 0);
}

/// `buf[a..b]` is a non-empty run of printable bytes (none below 0x20).
pub open spec fn printable_run(buf: Seq<u8>, a: int, b: int) -> bool {
    &&& 0 <= a < b <= buf.len()
    &&& forall|m: int| a <= m < b ==> buf[m] >= 0x20
}

/// `t` is the text decoded from some run of printable bytes of `buf`.
pub open spec fn text_from_printable_run(buf: Seq<u8>, t: Seq<char>) -> bool {
    exists|a: int, b: int| printable_run(buf, a, b) && t == #[trigger] lossy_utf8(buf.subrange(a, b))
}

/// Control bytes never reach the printed text: every `Text` command decoded from `buf`
/// is the decoding of a run of printable bytes of `buf`. (That its characters are
/// printable too is stated by [`EscPosParser::parse_stream`].)
pub proof fn law_text_has_no_control_bytes(buf: Seq<u8>, i: int)
    requires
        0 <= i <= buf.len(),
    ensures
        forall|k: int|
            0 <= k < scan(buf, i).0.len() && (#[trigger] scan(buf, i).0[k]).0 is Text
                ==> text_from_printable_run(buf, scan(buf, i).0[k].0->Text_0),
    decreases buf.len() - i,
{
    if i < buf.len() {
        let x = buf[i];
        if x == LF || x == CR || x < 0x20 && x != ESC && x != GS && x != DLE {
            law_text_has_no_control_bytes(buf, i + 1);
        } else if x == ESC {
            if let Some((c, n)) = esc_command(buf.skip(i)) {
                law_text_has_no_control_bytes(buf, i + n);
            }
        } else if x == GS {
            if let Some((c, n)) = gs_command(buf.skip(i)) {
                law_text_has_no_control_bytes(buf, i + n);
            }
        } else if x == DLE {
            if i + 1 < buf.len() {
                if buf[i + 1] == EOT {
                    if i + 2 < buf.len() {
                        law_text_has_no_control_bytes(buf, i + 3);
                    }
                } else {
                    law_text_has_no_control_bytes(buf, i + 2);
                }
            }
        } else {
            let j = run_end(buf, i);
            lemma_run_end(buf, i);
            law_text_has_no_control_bytes(buf, j);
            let t = lossy_utf8(buf.subrange(i, j));
            assert(printable_run(buf, i, j));
            assert(text_from_printable_run(buf, t));
        }
    }
}

/// A buffer of printable bytes only (none below 0x20) is one run of text: it decodes to
/// a single `Text` of its decoding, paired with all of its bytes, unless that decoding
/// holds no character, and nothing of it is left pending.
pub proof fn law_printable_buffer(buf: Seq<u8>)
    requires
        forall|m: int| 0 <= m < buf.len() ==> buf[m] >= 0x20,
    ensures
        scan(buf, 0).1 == buf.len(),
        buf.len() > 0 && lossy_utf8(buf).len() > 0 ==> scan(buf, 0).0 == seq![(CommandView::Text(lossy_utf8(buf)), buf)],
        buf.len() == 0 || lossy_utf8(buf).len() == 0 ==> scan(buf, 0).0.len() == 0,
{
    if buf.len() > 0 {
        lemma_run_end(buf, 0);
        assert(run_end(buf, 0) == buf.len());
        assert(buf.subrange(0, buf.len() as int) =~= buf);
        assert(scan(buf, buf.len() as int).0 =~= Seq::<Decoded>::empty());
        if lossy_utf8(buf).len() > 0 {
            assert(scan(buf, 0).0 =~= seq![(CommandView::Text(lossy_utf8(buf)), buf)]);
        }
    }
}

/// Error type of [`EscPosParser::parse_stream`]. The parser recovers from every
/// malformed sequence by skipping it, so no call returns this.
#[derive(Debug, Clone, Copy, PartialEq, Eq, Structural)]
pub struct ParseError;

/// No character of `t` is a control character (below U+0020).
pub open spec fn printable_text(t: Seq<char>) -> bool {
    forall|k: int| 0 <= k < t.len() ==> (#[trigger] t[k]) as u32 >= 0x20
}

/// The views of decoded commands and their bytes.
pub open spec fn decoded_views(d: Seq<(EscPosCommand, Vec<u8>)>) -> Seq<Decoded> {
    d.map_values(|x: (EscPosCommand, Vec<u8>)| (x.0@, x.1@))
}

/// Text decoded from printable bytes holds no control character: each character is
/// U+FFFD or has its UTF-8 encoding among the bytes, and a character below U+0020 is
/// encoded as that very byte.
proof fn lemma_decoded_run_printable(run: Seq<u8>, t: Seq<char>)
    requires
        forall|m: int| 0 <= m < run.len() ==> run[m] >= 0x20,
        forall|k: int|
            0 <= k < t.len() ==> #[trigger] t[k] == REPLACEMENT_CHARACTER || occurs_in(
                encode_scalar(t[k] as u32),
                run,
            ),
    ensures
        printable_text(t),
{
    assert forall|k: int| 0 <= k < t.len() implies (#[trigger] t[k]) as u32 >= 0x20 by {
        let v = t[k] as u32;
        if t[k] != REPLACEMENT_CHARACTER && v < 0x20 {
            let enc = encode_scalar(v);
            assert(v <= 0x7F ==> (v & 0x7F) == v) by (bit_vector);
            assert(enc == seq![(v & 0x7F) as u8]);
            let i = choose|i: int| 0 <= i && i + enc.len() <= run.len() && #[trigger] run.subrange(i, i + enc.len()) == enc;
            assert(run.subrange(i, i + 1)[0] == run[i]);
            assert(run[i] == v);
        }
    }
}

/// Incremental ESC/POS parser; holds the bytes of a sequence that is not complete yet.
pub struct EscPosParser {
    buffer: Vec<u8>,
}

impl View for EscPosParser {
    type V = Seq<u8>;

    /// The bytes waiting for more data.
    closed spec fn view(&self) -> Seq<u8> {
        self.buffer@
    }
}

impl EscPosParser {
    pub fn new() -> (p: Self)
        ensures
            p@ == Seq::<u8>::empty(),
    {
        EscPosParser { buffer: Vec::new() }
    }

    /// Feeds one chunk of the stream: decodes everything that is complete in the pending
    /// bytes followed by `data`, and keeps the rest (an incomplete sequence) for next time.
    /// No decoded text holds a control character.
    pub fn parse_stream(&mut self, data: &[u8]) -> (r: Result<Vec<EscPosCommand>, ParseError>)
        ensures
            ({
                let buf = old(self)@ + data@;
                &&& r matches Ok(cmds) && command_views(cmds@) == commands_of(scan(buf, 0).0)
                &&& final(self)@ == buf.skip(scan(buf, 0).1)
            }),
            r matches Ok(cmds) ==> forall|k: int|
                0 <= k < cmds@.len() && (#[trigger] cmds@[k])@ is Text ==> printable_text(
                    cmds@[k]@->Text_0,
                ),
    {
        let ghost buf = old(self)@ + data@;
        let decoded = match self.parse_stream_raw(data) {
            Ok(d) => d,
            Err(e) => {
                return Err(e);
            },
        };
        let mut commands: Vec<EscPosCommand> = Vec::new();
        let mut i: usize = 0;
        while i < decoded.len()
            invariant
                0 <= i <= decoded@.len(),
                decoded_views(decoded@) == scan(buf, 0).0,
                commands@.len() == i,
                forall|k: int|
                    0 <= k < i ==> (#[trigger] commands@[k])@ == decoded@[k].0@,
                forall|k: int|
                    0 <= k < decoded@.len() && (#[trigger] decoded@[k]).0@ is Text ==> printable_text(
                        decoded@[k].0@->Text_0,
                    ),
            decreases decoded@.len() - i,
        {
            commands.push(decoded[i].0.clone());
            i += 1;
        }
        assert(command_views(commands@) =~= commands_of(scan(buf, 0).0)) by {
            assert forall|k: int| 0 <= k < commands@.len() implies command_views(commands@)[k]
                == commands_of(scan(buf, 0).0)[k] by {
                assert(decoded_views(decoded@)[k] == (decoded@[k].0@, decoded@[k].1@));
            }
        }
        Ok(commands)
    }

    /// Like [`parse_stream`](Self::parse_stream), and pairs each command with the bytes
    /// it was decoded from.
    pub fn parse_stream_raw(&mut self, data: &[u8]) -> (r: Result<Vec<(EscPosCommand, Vec<u8>)>, ParseError>)
        ensures
            ({
                let buf = old(self)@ + data@;
                &&& r matches Ok(d) && decoded_views(d@) == scan(buf, 0).0
                &&& final(self)@ == buf.skip(scan(buf, 0).1)
            }),
            r matches Ok(d) ==> forall|k: int|
                0 <= k < d@.len() && (#[trigger] d@[k]).0@ is Text ==> printable_text(
                    d@[k].0@->Text_0,
                ),
    {
        let ghost old_buf = self.buffer@;
        self.buffer.extend_from_slice(data);
        let ghost buf = self.buffer@;
        assert(buf =~= old_buf + data@);
        let mut decoded: Vec<(EscPosCommand, Vec<u8>)> = Vec::new();
        let mut i: usize = 0;
        let len = self.buffer.len();

        while i < len
            invariant
                len == self.buffer.len(),
                self.buffer@ == buf,
                0 <= i <= len,
                decoded_views(decoded@) + scan(buf, i as int).0 == scan(buf, 0).0,
                scan(buf, i as int).1 == scan(buf, 0).1,
                forall|k: int|
                    0 <= k < decoded@.len() && (#[trigger] decoded@[k]).0@ is Text ==> printable_text(
                        decoded@[k].0@->Text_0,
                    ),
            ensures
                0 <= i <= len,
                decoded_views(decoded@) == scan(buf, 0).0,
                scan(buf, i as int).1 == scan(buf, 0).1,
                scan(buf, i as int).1 == i,
                forall|k: int|
                    0 <= k < decoded@.len() && (#[trigger] decoded@[k]).0@ is Text ==> printable_text(
                        decoded@[k].0@->Text_0,
                    ),
            decreases len - i,
        {
            let ghost before = decoded@;
            let b = self.buffer[i];
            if b == LF || b == CR {
                let raw = vstd::slice::slice_to_vec(
                    vstd::slice::slice_subrange(self.buffer.as_slice(), i, i + 1),
                );
                let cmd = if b == LF { EscPosCommand::NewLine } else { EscPosCommand::CarriageReturn };
                decoded.push((cmd, raw));
                i += 1;
            } else if b == ESC || b == GS {
                if i + 1 >= len {
                    break;
                }
                let rest = vstd::slice::slice_subrange(self.buffer.as_slice(), i, len);
                assert(rest@ =~= buf.skip(i as int));
                let parsed = if b == ESC {
                    self.parse_esc_command(rest)
                } else {
                    self.parse_gs_command(rest)
                };
                match parsed {
                    Some((cmd, consumed)) => {
                        proof {
                            lemma_command_len(rest@);
                        }
                        let raw = vstd::slice::slice_to_vec(vstd::slice::slice_subrange(rest, 0, consumed));
                        assert(raw@ =~= buf.subrange(i as int, i + consumed));
                        decoded.push((cmd, raw));
                        i += consumed;
                    },
                    None => {
                        break;
                    },
                }
            } else if b == DLE {
                // Real-time commands (DLE EOT n status requests) are answered at the
                // connection level; here they are consumed without output.
                if i + 1 >= len {
                    break;
                }
                if self.buffer[i + 1] == EOT {
                    if i + 2 >= len {
                        break;
                    }
                    i += 3;
                } else {
                    i += 2;
                }
            } else if b < 0x20 {
                // Other control bytes (NUL padding, stray DC/EOT bytes) are skipped.
                i += 1;
            } else {
                // Printable run: stops at any control byte.
                let text_start = i;
                proof {
                    lemma_run_end(buf, i as int);
                }
                while i < len && self.buffer[i] >= 0x20
                    invariant
                        len == self.buffer.len(),
                        self.buffer@ == buf,
                        text_start < len,
                        buf[text_start as int] >= 0x20,
                        text_start <= i <= len,
                        run_end(buf, text_start as int) == run_end(buf, i as int),
                    decreases len - i,
                {
                    i += 1;
                }
                let run = vstd::slice::slice_subrange(self.buffer.as_slice(), text_start, i);
                assert(run@ =~= buf.subrange(text_start as int, i as int));
                let text = decode_text(run);
                if !text.as_str().is_empty() {
                    proof {
                        lemma_run_end(buf, text_start as int);
                        lemma_decoded_run_printable(run@, text@);
                    }
                    decoded.push((EscPosCommand::Text(text), vstd::slice::slice_to_vec(run)));
                }
            }
            assert(decoded_views(decoded@) =~= decoded_views(before) + decoded_views(decoded@).skip(
                before.len() as int,
            ));
        }

        let rest = self.buffer.split_off(i);
        self.buffer = rest;
        Ok(decoded)
    }

    /// Decodes the ESC sequence at the start of `data`; `None` while it is incomplete.
    fn parse_esc_command(&self, data: &[u8]) -> (r: Option<(EscPosCommand, usize)>)
        ensures
            r is Some <==> esc_command(data@) is Some,
            r matches Some((c, n)) ==> esc_command(data@) == Some((c@, n as int)),
    {
        if data.len() < 2 {
            return None;
        }
        let c = data[1];
        if c == 0x40 {
            Some((EscPosCommand::InitializePrinter, 2))
        } else if c == 0x45 {
            Some((EscPosCommand::SetEmphasis(true), 2))
        } else if c == 0x46 {
            Some((EscPosCommand::SetEmphasis(false), 2))
        } else if c == 0x34 {
            Some((EscPosCommand::SetItalic(true), 2))
        } else if c == 0x35 {
            Some((EscPosCommand::SetItalic(false), 2))
        } else if c == 0x6D || c == 0x69 {
            Some((EscPosCommand::CutPaper, 2))
        } else if c == 0x4D || c == 0x61 || c == 0x2D || c == 0x33 || c == 0x21 || c == 0x74
            || c == 0x4A {
            if data.len() < 3 {
                return None;
            }
            let n = data[2];
            let cmd = if c == 0x4D {
                let font = if n == 1 {
                    Font::FontB
                } else if n == 2 {
                    Font::FontC
                } else {
                    Font::FontA
                };
                EscPosCommand::SetFont(font)
            } else if c == 0x61 {
                let j = if n == 1 {
                    Justification::Center
                } else if n == 2 {
                    Justification::Right
                } else {
                    Justification::Left
                };
                EscPosCommand::SetJustification(j)
            } else if c == 0x2D {
                EscPosCommand::SetUnderline(n != 0)
            } else if c == 0x33 {
                EscPosCommand::SetLineHeight(n as u32)
            } else if c == 0x21 {
                EscPosCommand::SetFontSize(n as u32)
            } else if c == 0x74 {
                EscPosCommand::SetCodepage(n)
            } else {
                EscPosCommand::LineFeed
            };
            Some((cmd, 3))
        } else if c == 0x2A {
            // Bit image (ESC * m nL nH d1..dk), column format.
            if data.len() < 5 {
                return None;
            }
            let m = data[2];
            let n_dots = data[3] as usize + data[4] as usize * 256;
            let bytes_per_col: usize = if m == 32 || m == 33 { 3 } else { 1 };
            let total = bytes_per_col * n_dots;
            let consumed = 5 + total;
            if data.len() < consumed {
                return None;
            }
            let payload = vstd::slice::slice_to_vec(vstd::slice::slice_subrange(data, 5, consumed));
            Some((EscPosCommand::PrintImage(payload), consumed))
        } else {
            let head = vstd::slice::slice_to_vec(vstd::slice::slice_subrange(data, 0, 2));
            Some((EscPosCommand::Unknown(head), 2))
        }
    }

    /// Decodes the GS sequence at the start of `data`; `None` while it is incomplete.
    fn parse_gs_command(&self, data: &[u8]) -> (r: Option<(EscPosCommand, usize)>)
        ensures
            r is Some <==> gs_command(data@) is Some,
            r matches Some((c, n)) ==> gs_command(data@) == Some((c@, n as int)),
    {
        if data.len() < 2 {
            return None;
        }
        let c = data[1];
        if c == 0x76 {
            // GS v 0 m xL xH yL yH d1..dk: raster image, `width_bytes` bytes per row.
            if data.len() < 8 {
                return None;
            }
            let width_bytes: u16 = data[4] as u16 + data[5] as u16 * 256;
            let height: u16 = data[6] as u16 + data[7] as u16 * 256;
            let w = width_bytes as usize;
            let h = height as usize;
            assert(w * h <= 65535 * 65535) by (nonlinear_arith)
                requires
                    w <= 65535,
                    h <= 65535,
            ;
            let total = w * h;
            let consumed = 8 + total;
            if data.len() < consumed {
                return None;
            }
            let image = vstd::slice::slice_to_vec(vstd::slice::slice_subrange(data, 8, consumed));
            Some((EscPosCommand::PrintRasterImage { width_bytes, height, data: image }, consumed))
        } else if c == 0x56 {
            if data.len() < 3 {
                return None;
            }
            if data[2] == 65 || data[2] == 66 {
                if data.len() < 4 {
                    return None;
                }
                Some((EscPosCommand::CutPaper, 4))
            } else {
                Some((EscPosCommand::CutPaper, 3))
            }
        } else {
            let head = vstd::slice::slice_to_vec(vstd::slice::slice_subrange(data, 0, 2));
            Some((EscPosCommand::Unknown(head), 2))
        }
    }
}

/// The meaning of each ESC sequence, as ESC/POS defines it: `ESC @` initialises the
/// printer; `ESC E` / `ESC F` switch bold on / off; `ESC 4` / `ESC 5` italic on / off;
/// `ESC m` and `ESC i` cut the paper; `ESC - n` sets underline on exactly when `n` is not
/// zero; `ESC M n` selects font B for 1, C for 2 and A otherwise; `ESC a n` centres for 1,
/// right-aligns for 2 and left-aligns otherwise; `ESC 3 n` sets the line height to `n`,
/// `ESC ! n` the print mode to `n` and `ESC t n` the code page to `n`; `ESC J n` feeds a
/// line; an argument that has not arrived yet leaves the sequence incomplete; any other
/// `ESC x` is an unknown two-byte sequence.
pub proof fn law_esc_commands(s: Seq<u8>)
    requires
        s.len() >= 2,
        s[0] == 0x1B,
    ensures
        s[1] == 0x40 ==> esc_command(s) == Some((CommandView::InitializePrinter, 2int)),
        s[1] == 0x45 ==> esc_command(s) == Some((CommandView::SetEmphasis(true), 2int)),
        s[1] == 0x46 ==> esc_command(s) == Some((CommandView::SetEmphasis(false), 2int)),
        s[1] == 0x34 ==> esc_command(s) == Some((CommandView::SetItalic(true), 2int)),
        s[1] == 0x35 ==> esc_command(s) == Some((CommandView::SetItalic(false), 2int)),
        s[1] == 0x6D || s[1] == 0x69 ==> esc_command(s) == Some((CommandView::CutPaper, 2int)),
        s.len() == 2 && (s[1] == 0x2D || s[1] == 0x4D || s[1] == 0x61 || s[1] == 0x33 || s[1] == 0x21
            || s[1] == 0x74 || s[1] == 0x4A || s[1] == 0x2A) ==> esc_command(s) is None,
        s.len() >= 3 && s[1] == 0x2D ==> esc_command(s) == Some((CommandView::SetUnderline(s[2] != 0), 3int)),
        s.len() >= 3 && s[1] == 0x2D && s[2] == 0 ==> esc_command(s) == Some((CommandView::SetUnderline(false), 3int)),
        s.len() >= 3 && s[1] == 0x4D && s[2] == 1 ==> esc_command(s) == Some((CommandView::SetFont(Font::FontB), 3int)),
        s.len() >= 3 && s[1] == 0x4D && s[2] == 2 ==> esc_command(s) == Some((CommandView::SetFont(Font::FontC), 3int)),
        s.len() >= 3 && s[1] == 0x4D && s[2] != 1 && s[2] != 2 ==> esc_command(s) == Some(
            (CommandView::SetFont(Font::FontA), 3int),
        ),
        s.len() >= 3 && s[1] == 0x61 && s[2] == 1 ==> esc_command(s) == Some(
            (CommandView::SetJustification(Justification::Center), 3int),
        ),
        s.len() >= 3 && s[1] == 0x61 && s[2] == 2 ==> esc_command(s) == Some(
            (CommandView::SetJustification(Justification::Right), 3int),
        ),
        s.len() >= 3 && s[1] == 0x61 && s[2] != 1 && s[2] != 2 ==> esc_command(s) == Some(
            (CommandView::SetJustification(Justification::Left), 3int),
        ),
        s.len() >= 3 && s[1] == 0x33 ==> esc_command(s) == Some((CommandView::SetLineHeight(s[2] as u32), 3int)),
        s.len() >= 3 && s[1] == 0x21 ==> esc_command(s) == Some((CommandView::SetFontSize(s[2] as u32), 3int)),
        s.len() >= 3 && s[1] == 0x74 ==> esc_command(s) == Some((CommandView::SetCodepage(s[2]), 3int)),
        s.len() >= 3 && s[1] == 0x4A ==> esc_command(s) == Some((CommandView::LineFeed, 3int)),
        !(s[1] == 0x40 || s[1] == 0x45 || s[1] == 0x46 || s[1] == 0x34 || s[1] == 0x35 || s[1] == 0x6D
            || s[1] == 0x69 || s[1] == 0x2D || s[1] == 0x4D || s[1] == 0x61 || s[1] == 0x33 || s[1]
            == 0x21 || s[1] == 0x74 || s[1] == 0x4A || s[1] == 0x2A) ==> esc_command(s) == Some(
            (CommandView::Unknown(seq![0x1Bu8, s[1]]), 2int),
        ),
{
    assert(s.take(2) =~= seq![0x1Bu8, s[1]]);
}

/// `ESC * m nL nH d1..dk` carries `nL + 256 * nH` columns of image data, three bytes per
/// column in the 24-dot modes (`m` = 32 or 33) and one byte per column otherwise; the
/// sequence is complete once all the data has arrived, and then carries exactly it.
pub proof fn law_esc_bit_image(s: Seq<u8>)
    requires
        s.len() >= 5,
        s[0] == 0x1B,
        s[1] == 0x2A,
    ensures
        ({
            let columns = s[3] + 256 * s[4];
            let k = if s[2] == 32 || s[2] == 33 { 3 * columns } else { columns };
            &&& s.len() < 5 + k ==> esc_command(s) is None
            &&& s.len() >= 5 + k ==> esc_command(s) == Some(
                (CommandView::PrintImage(s.subrange(5, 5 + k)), 5 + k),
            )
        }),
{
}

/// The meaning of each GS sequence: `GS v 0 m xL xH yL yH d1..dk` is a raster image of
/// `xL + 256 * xH` bytes per row and `yL + 256 * yH` rows, carrying exactly those bytes
/// once they have all arrived; `GS V 65 n` and `GS V 66 n` cut the paper in four bytes,
/// any other `GS V m` in three; any other `GS x` is an unknown two-byte sequence.
pub proof fn law_gs_commands(s: Seq<u8>)
    requires
        s.len() >= 2,
        s[0] == 0x1D,
    ensures
        s[1] == 0x56 && s.len() >= 3 && s[2] != 65 && s[2] != 66 ==> gs_command(s) == Some(
            (CommandView::CutPaper, 3int),
        ),
        s[1] == 0x56 && s.len() >= 4 && (s[2] == 65 || s[2] == 66) ==> gs_command(s) == Some(
            (CommandView::CutPaper, 4int),
        ),
        s[1] == 0x56 && (s.len() == 2 || s.len() == 3 && (s[2] == 65 || s[2] == 66)) ==> gs_command(s) is None,
        s[1] == 0x76 && s.len() < 8 ==> gs_command(s) is None,
        s[1] == 0x76 && s.len() >= 8 ==> ({
            let w = s[4] + 256 * s[5];
            let h = s[6] + 256 * s[7];
            &&& s.len() < 8 + w * h ==> gs_command(s) is None
            &&& s.len() >= 8 + w * h ==> gs_command(s) == Some(
                (
                    CommandView::PrintRasterImage {
                        width_bytes: w as u16,
                        height: h as u16,
                        data: s.subrange(8, 8 + w * h),
                    },
                    8 + w * h,
                ),
            )
        }),
        s[1] != 0x56 && s[1] != 0x76 ==> gs_command(s) == Some(
            (CommandView::Unknown(seq![0x1Du8, s[1]]), 2int),
        ),
{
    assert(s.take(2) =~= seq![0x1Du8, s[1]]);
}

/// A buffer that holds exactly one complete ESC or GS sequence decodes to that one
/// command, paired with all of the buffer's bytes, and leaves nothing pending.
pub proof fn law_single_sequence(s: Seq<u8>)
    requires
        s.len() >= 2,
        s[0] == 0x1B || s[0] == 0x1D,
        s[0] == 0x1B ==> (esc_command(s) matches Some((c, n)) && n == s.len()),
        s[0] == 0x1D ==> (gs_command(s) matches Some((c, n)) && n == s.len()),
    ensures
        scan(s, 0).1 == s.len(),
        scan(s, 0).0.len() == 1,
        scan(s, 0).0[0].1 == s,
        s[0] == 0x1B ==> Some((scan(s, 0).0[0].0, s.len() as int)) == esc_command(s),
        s[0] == 0x1D ==> Some((scan(s, 0).0[0].0, s.len() as int)) == gs_command(s),
{
    assert(s.skip(0) =~= s);
    assert(s.subrange(0, s.len() as int) =~= s);
    let n = s.len() as int;
    assert(scan(s, n).0 =~= Seq::<Decoded>::empty());
}

/// Single bytes: LF is a new line and CR a carriage return (each carrying its byte);
/// any other control byte below 0x20 that does not start an ESC, GS or DLE sequence is
/// skipped; `DLE EOT n` and `DLE x` produce nothing.
pub proof fn law_single_control_bytes(b: u8, n: u8)
    ensures
        scan(seq![0x0Au8], 0) == (seq![(CommandView::NewLine, seq![0x0Au8])], 1int),
        scan(seq![0x0Du8], 0) == (seq![(CommandView::CarriageReturn, seq![0x0Du8])], 1int),
        b < 0x20 && b != 0x0A && b != 0x0D && b != 0x1B && b != 0x1D && b != 0x10 ==> scan(seq![b], 0)
            == (Seq::<Decoded>::empty(), 1int),
        scan(seq![0x10u8, 0x04u8, n], 0) == (Seq::<Decoded>::empty(), 3int),
        n != 0x04 ==> scan(seq![0x10u8, n], 0) == (Seq::<Decoded>::empty(), 2int),
{
    let lf = seq![0x0Au8];
    let cr = seq![0x0Du8];
    assert(lf[0] == 0x0A);
    assert(cr[0] == 0x0D);
    assert(lf.subrange(0, 1) =~= lf);
    assert(cr.subrange(0, 1) =~= cr);
    assert(scan(lf, 1).0 =~= Seq::<Decoded>::empty());
    assert(scan(cr, 1).0 =~= Seq::<Decoded>::empty());
    assert(scan(lf, 0) == prepend(CommandView::NewLine, lf.subrange(0, 1), scan(lf, 1)));
    assert(scan(cr, 0) == prepend(CommandView::CarriageReturn, cr.subrange(0, 1), scan(cr, 1)));
    let one = seq![b];
    assert(one[0] == b);
    assert(scan(one, 1).0 =~= Seq::<Decoded>::empty());
    let dle_eot = seq![0x10u8, 0x04u8, n];
    assert(dle_eot[0] == 0x10 && dle_eot[1] == 0x04);
    assert(scan(dle_eot, 3).0 =~= Seq::<Decoded>::empty());
    let dle = seq![0x10u8, n];
    assert(dle[0] == 0x10 && dle[1] == n);
    assert(scan(dle, 2).0 =~= Seq::<Decoded>::empty());
    assert(scan(seq![0x0Au8], 0).0 =~= seq![(CommandView::NewLine, seq![0x0Au8])]);
    assert(scan(seq![0x0Du8], 0).0 =~= seq![(CommandView::CarriageReturn, seq![0x0Du8])]);
}

impl Default for EscPosParser {
    fn default() -> (p: Self)
        ensures
            p@ == Seq::<u8>::empty(),
    {
        Self::new()
    }
}

impl Clone for EscPosParser {
    fn clone(&self) -> (p: Self)
        ensures
            p@ == self@,
    {
        EscPosParser { buffer: self.buffer.clone() }
    }
}

} // verus!
