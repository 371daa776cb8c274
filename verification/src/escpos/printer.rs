//! Printer state: formatting settings and the receipt buffer the commands build.

use crate::escpos::commands::{CommandView, EscPosCommand, Font, Justification};
use vstd::prelude::*;

verus! {

/// Paper widths the emulator supports.
///
/// | Width | Characters | Dots |
/// |-------|------------|------|
/// | 50mm  | 48         | 384  |
/// | 78mm  | 72         | 576  |
/// | 80mm  | 80         | 640  |
#[derive(Debug, Clone, Copy, PartialEq, Eq, Structural)]
pub enum PaperWidth {
    Mm50,
    Mm78,
    Mm80,
}

/// The supported width that a paper of `mm` millimetres uses: the widest one that is
/// not wider than the paper, and 50mm for anything narrower than 78mm.
pub open spec fn width_for_mm(mm: u32) -> PaperWidth {
    if mm < 78 {
        PaperWidth::Mm50
    } else if mm < 80 {
        PaperWidth::Mm78
    } else {
        PaperWidth::Mm80
    }
}

/// Selecting a supported width by its size in millimetres gives that width back, and
/// every width is selected by its own size.
pub proof fn law_paper_width_round_trip(w: PaperWidth)
    ensures
        width_for_mm(w.mm()) == w,
{
}

/// The supported widths, as documented: 50mm paper takes 48 characters on 384 dots,
/// 78mm 72 on 576, 80mm 80 on 640.
pub proof fn law_paper_width_table()
    ensures
        PaperWidth::Mm50.mm() == 50 && PaperWidth::Mm50.chars() == 48 && PaperWidth::Mm50.dots() == 384,
        PaperWidth::Mm78.mm() == 78 && PaperWidth::Mm78.chars() == 72 && PaperWidth::Mm78.dots() == 576,
        PaperWidth::Mm80.mm() == 80 && PaperWidth::Mm80.chars() == 80 && PaperWidth::Mm80.dots() == 640,
{
}

/// A paper of `mm` millimetres uses the widest supported width that is not wider than
/// it (50mm for anything narrower than 78mm).
pub proof fn law_paper_width_selection(mm: u32, w: PaperWidth)
    ensures
        mm >= 50 ==> width_for_mm(mm).mm() <= mm,
        w.mm() <= mm ==> w.mm() <= width_for_mm(mm).mm(),
        mm < 78 ==> width_for_mm(mm) == PaperWidth::Mm50,
{
}

impl PaperWidth {
    pub open spec fn mm(self) -> u32 {
        match self {
            PaperWidth::Mm50 => 50,
            PaperWidth::Mm78 => 78,
            PaperWidth::Mm80 => 80,
        }
    }

    pub open spec fn dots(self) -> u32 {
        match self {
            PaperWidth::Mm50 => 384,
            PaperWidth::Mm78 => 576,
            PaperWidth::Mm80 => 640,
        }
    }

    /// Characters per line at normal width.
    pub open spec fn chars(self) -> usize {
        match self {
            PaperWidth::Mm50 => 48,
            PaperWidth::Mm78 => 72,
            PaperWidth::Mm80 => 80,
        }
    }

    pub fn from_mm(mm: u32) -> (w: Self)
        ensures
            w == width_for_mm(mm),
    {
        if mm < 78 {
            PaperWidth::Mm50
        } else if mm < 80 {
            PaperWidth::Mm78
        } else {
            PaperWidth::Mm80
        }
    }

    pub fn to_mm(&self) -> (mm: u32)
        ensures
            mm == self.mm(),
    {
        match self {
            PaperWidth::Mm50 => 50,
            PaperWidth::Mm78 => 78,
            PaperWidth::Mm80 => 80,
        }
    }

    pub fn get_dots(&self) -> (d: u32)
        ensures
            d == self.dots(),
    {
        match self {
            PaperWidth::Mm50 => 384,
            PaperWidth::Mm78 => 576,
            PaperWidth::Mm80 => 640,
        }
    }

    /// Characters per line for the print mode `font_size` (the `ESC ! n` byte): half as
    /// many when its double-width bit (0x20) is set.
    pub fn get_max_chars(&self, font_size: u32) -> (n: usize)
        ensures
            n == if font_size & 0x20 != 0 { self.chars() / 2 } else { self.chars() },
    {
        let base: usize = match self {
            PaperWidth::Mm50 => 48,
            PaperWidth::Mm78 => 72,
            PaperWidth::Mm80 => 80,
        };
        if font_size & 0x20 != 0 {
            base / 2
        } else {
            base
        }
    }

    /// The name `{:?}` gives the width.
    pub fn debug_name(&self) -> (s: String)
        ensures
            s@ == self.name(),
    {
        match self {
            PaperWidth::Mm50 => String::from_str("Mm50"),
            PaperWidth::Mm78 => String::from_str("Mm78"),
            PaperWidth::Mm80 => String::from_str("Mm80"),
        }
    }

    pub open spec fn name(self) -> Seq<char> {
        match self {
            PaperWidth::Mm50 => "Mm50"@,
            PaperWidth::Mm78 => "Mm78"@,
            PaperWidth::Mm80 => "Mm80"@,
        }
    }
}

/// One printed line of the receipt.
#[derive(Debug)]
pub enum ReceiptLine {
    Text(String),
    /// A raster image, one bit per dot, `(width_px + 7) / 8` bytes per row.
    Bitmap { width_px: u32, height_px: u32, data: Vec<u8> },
    /// A paper cut: the end of one print job.
    Separator,
}

pub enum LineView {
    Text(Seq<char>),
    Bitmap { width_px: u32, height_px: u32, data: Seq<u8> },
    Separator,
}

impl View for ReceiptLine {
    type V = LineView;

    open spec fn view(&self) -> LineView {
        match self {
            ReceiptLine::Text(s) => LineView::Text(s@),
            ReceiptLine::Bitmap { width_px, height_px, data } => LineView::Bitmap {
                width_px: *width_px,
                height_px: *height_px,
                data: data@,
            },
            ReceiptLine::Separator => LineView::Separator,
        }
    }
}

impl Clone for ReceiptLine {
    fn clone(&self) -> (r: Self)
        ensures
            r@ == self@,
    {
        match self {
            ReceiptLine::Text(t) => ReceiptLine::Text(t.clone()),
            ReceiptLine::Bitmap { width_px, height_px, data } => ReceiptLine::Bitmap {
                width_px: *width_px,
                height_px: *height_px,
                data: data.clone(),
            },
            ReceiptLine::Separator => ReceiptLine::Separator,
        }
    }
}

pub open spec fn line_views(lines: Seq<ReceiptLine>) -> Seq<LineView> {
    lines.map_values(|l: ReceiptLine| l@)
}

/// Line spacing in dots after power-on or `ESC @`.
pub const DEFAULT_LINE_HEIGHT: u32 = 30;

/// Resolution of the emulated print head.
pub const DEFAULT_DPI: u32 = 203;

/// Printer state: the current print mode and the receipt printed so far.
#[derive(Debug)]
pub struct PrinterState {
    pub paper_width: PaperWidth,
    pub current_font: Font,
    pub justification: Justification,
    pub emphasis: bool,
    pub underline: bool,
    pub italic: bool,
    pub line_height: u32,
    pub font_size: u32,
    pub codepage: u8,
    pub dpi: u32,
    /// Completed lines, cuts and images.
    pub buffer: Vec<ReceiptLine>,
    /// Text received since the last line feed.
    pub current_line: String,
}

/// Mathematical value of a [`PrinterState`].
pub struct PrinterModel {
    pub paper_width: PaperWidth,
    pub current_font: Font,
    pub justification: Justification,
    pub emphasis: bool,
    pub underline: bool,
    pub italic: bool,
    pub line_height: u32,
    pub font_size: u32,
    pub codepage: u8,
    pub dpi: u32,
    pub lines: Seq<LineView>,
    pub pending: Seq<char>,
}

impl View for PrinterState {
    type V = PrinterModel;

    open spec fn view(&self) -> PrinterModel {
        PrinterModel {
            paper_width: self.paper_width,
            current_font: self.current_font,
            justification: self.justification,
            emphasis: self.emphasis,
            underline: self.underline,
            italic: self.italic,
            line_height: self.line_height,
            font_size: self.font_size,
            codepage: self.codepage,
            dpi: self.dpi,
            lines: line_views(self.buffer@),
            pending: self.current_line@,
        }
    }
}

/// The lines after the pending text, if any, is printed as a line of its own.
pub open spec fn flushed(m: PrinterModel) -> Seq<LineView> {
    if m.pending.len() > 0 {
        m.lines.push(LineView::Text(m.pending))
    } else {
        m.lines
    }
}

/// The state after power-on.
pub open spec fn initial_model() -> PrinterModel {
    PrinterModel {
        paper_width: PaperWidth::Mm80,
        current_font: Font::FontA,
        justification: Justification::Left,
        emphasis: false,
        underline: false,
        italic: false,
        line_height: DEFAULT_LINE_HEIGHT,
        font_size: 0,
        codepage: 0,
        dpi: DEFAULT_DPI,
        lines: Seq::empty(),
        pending: Seq::empty(),
    }
}

/// The effect of one command on the printer.
///
/// Text accumulates on the current line; a line feed prints it (possibly empty);
/// a cut or a raster image first prints pending text, then adds a separator or the
/// image; `ESC @` restores the default print mode and keeps what was printed.
/// Carriage returns, column bit images and unknown sequences change nothing.
pub open spec fn apply_command(m: PrinterModel, c: CommandView) -> PrinterModel {
    match c {
        CommandView::Text(t) => PrinterModel { pending: m.pending + t, ..m },
        CommandView::NewLine | CommandView::LineFeed => PrinterModel {
            lines: m.lines.push(LineView::Text(m.pending)),
            pending: Seq::empty(),
            ..m
        },
        CommandView::InitializePrinter => PrinterModel {
            current_font: Font::FontA,
            justification: Justification::Left,
            emphasis: false,
            underline: false,
            italic: false,
            line_height: DEFAULT_LINE_HEIGHT,
            font_size: 0,
            codepage: 0,
            ..m
        },
        CommandView::SetFont(f) => PrinterModel { current_font: f, ..m },
        CommandView::SetJustification(j) => PrinterModel { justification: j, ..m },
        CommandView::SetEmphasis(b) => PrinterModel { emphasis: b, ..m },
        CommandView::SetUnderline(b) => PrinterModel { underline: b, ..m },
        CommandView::SetItalic(b) => PrinterModel { italic: b, ..m },
        CommandView::SetLineHeight(h) => PrinterModel { line_height: h, ..m },
        CommandView::SetFontSize(s) => PrinterModel { font_size: s, ..m },
        CommandView::SetCodepage(cp) => PrinterModel { codepage: cp, ..m },
        CommandView::CutPaper => PrinterModel {
            lines: flushed(m).push(LineView::Separator),
            pending: Seq::empty(),
            ..m
        },
        CommandView::PrintRasterImage { width_bytes, height, data } => PrinterModel {
            lines: flushed(m).push(
                LineView::Bitmap { width_px: (width_bytes * 8) as u32, height_px: height as u32, data },
            ),
            pending: Seq::empty(),
            ..m
        },
        CommandView::CarriageReturn | CommandView::PrintImage(_) | CommandView::Unknown(_) => m,
    }
}

/// Bytes per row of a raster image `width_px` dots wide.
pub open spec fn row_bytes(width_px: u32) -> int {
    (width_px + 7) / 8
}

/// Dot `(x, y)` of a raster image is printed (black): its bit is set, most significant
/// bit first. Dots whose byte lies beyond `data` are blank.
pub open spec fn dot_set(width_px: u32, data: Seq<u8>, x: int, y: int) -> bool {
    let idx = y * row_bytes(width_px) + x / 8;
    let shift = (7 - x % 8) as u8;
    idx < data.len() && (data[idx] >> shift) & 1u8 == 1u8
}

/// Channel `k` of the RGB rendering of a raster image, row-major, three channels per
/// dot: 0 for a printed dot, 255 for a blank one.
pub open spec fn rgb_channel(width_px: u32, data: Seq<u8>, k: int) -> u8 {
    let p = k / 3;
    if dot_set(width_px, data, p % (width_px as int), p / (width_px as int)) {
        0
    } else {
        255
    }
}

proof fn lemma_pixel_index(w: int, y: int, x: int, c: int)
    requires
        0 <= x < w,
        0 <= y,
        0 <= c < 3,
    ensures
        (3 * (y * w + x) + c) / 3 == y * w + x,
        (y * w + x) % w == x,
        (y * w + x) / w == y,
{
    vstd::arithmetic::div_mod::lemma_fundamental_div_mod_converse(3 * (y * w + x) + c, 3, y * w + x, c);
    vstd::arithmetic::div_mod::lemma_fundamental_div_mod_converse(y * w + x, w, y, x);
}

impl Clone for PrinterState {
    fn clone(&self) -> (r: Self)
        ensures
            r@ == self@,
    {
        let mut buffer: Vec<ReceiptLine> = Vec::new();
        let mut i: usize = 0;
        while i < self.buffer.len()
            invariant
                0 <= i <= self.buffer@.len(),
                line_views(buffer@) == line_views(self.buffer@.take(i as int)),
            decreases self.buffer@.len() - i,
        {
            let ghost before = buffer@;
            buffer.push(self.buffer[i].clone());
            assert(line_views(buffer@) =~= line_views(before).push(self.buffer@[i as int]@));
            assert(self.buffer@.take(i + 1) =~= self.buffer@.take(i as int).push(self.buffer@[i as int]));
            assert(line_views(self.buffer@.take(i + 1)) =~= line_views(self.buffer@.take(i as int)).push(self.buffer@[i as int]@));
            i += 1;
        }
        assert(self.buffer@.take(self.buffer@.len() as int) =~= self.buffer@);
        PrinterState {
            paper_width: self.paper_width,
            current_font: self.current_font,
            justification: self.justification,
            emphasis: self.emphasis,
            underline: self.underline,
            italic: self.italic,
            line_height: self.line_height,
            font_size: self.font_size,
            codepage: self.codepage,
            dpi: self.dpi,
            buffer,
            current_line: self.current_line.clone(),
        }
    }
}

/// Commands only ever add to what has been printed: the printed lines before a command
/// are a prefix of those after it, and at most two lines are added.
pub proof fn law_printed_lines_are_kept(m: PrinterModel, c: CommandView)
    ensures
        m.lines.len() <= apply_command(m, c).lines.len() <= m.lines.len() + 2,
        apply_command(m, c).lines.take(m.lines.len() as int) == m.lines,
{
    assert(m.lines.push(LineView::Separator).take(m.lines.len() as int) =~= m.lines);
    assert(m.lines.push(LineView::Text(m.pending)).take(m.lines.len() as int) =~= m.lines);
    assert(m.lines.take(m.lines.len() as int) =~= m.lines);
    let f = flushed(m);
    assert(f.take(m.lines.len() as int) =~= m.lines);
    assert(f.push(LineView::Separator).take(m.lines.len() as int) =~= m.lines);
    match c {
        CommandView::PrintRasterImage { width_bytes, height, data } => {
            let l = LineView::Bitmap { width_px: (width_bytes * 8) as u32, height_px: height as u32, data };
            assert(f.push(l).take(m.lines.len() as int) =~= m.lines);
        },
        _ => {},
    }
}

/// Each setting command sets its setting to the command's value, whatever it was before,
/// leaves every other setting alone, and prints nothing: `ESC E` / `ESC F` turn bold on
/// and off again, and likewise underline, italic, font, justification, line height,
/// print mode and code page.
pub proof fn law_setting_commands(m: PrinterModel, b: bool, f: Font, j: Justification, n: u32, cp: u8)
    ensures
        apply_command(m, CommandView::SetEmphasis(b)).emphasis == b,
        apply_command(m, CommandView::SetUnderline(b)).underline == b,
        apply_command(m, CommandView::SetItalic(b)).italic == b,
        apply_command(m, CommandView::SetFont(f)).current_font == f,
        apply_command(m, CommandView::SetJustification(j)).justification == j,
        apply_command(m, CommandView::SetLineHeight(n)).line_height == n,
        apply_command(m, CommandView::SetFontSize(n)).font_size == n,
        apply_command(m, CommandView::SetCodepage(cp)).codepage == cp,
        apply_command(apply_command(m, CommandView::SetEmphasis(true)), CommandView::SetEmphasis(false)).emphasis
            == false,
        apply_command(m, CommandView::SetEmphasis(b)).underline == m.underline,
        apply_command(m, CommandView::SetEmphasis(b)).italic == m.italic,
        apply_command(m, CommandView::SetUnderline(b)).emphasis == m.emphasis,
        apply_command(m, CommandView::SetItalic(b)).emphasis == m.emphasis,
        forall|c: CommandView|
            (c is SetEmphasis || c is SetUnderline || c is SetItalic || c is SetFont || c is SetJustification
                || c is SetLineHeight || c is SetFontSize || c is SetCodepage) ==> {
                &&& #[trigger] apply_command(m, c).lines == m.lines
                &&& apply_command(m, c).pending == m.pending
                &&& apply_command(m, c).paper_width == m.paper_width
                &&& apply_command(m, c).dpi == m.dpi
            },
{
}

/// What the printing commands print: text is added to the current line; a line feed
/// (LF or `ESC J`) prints the current line, even an empty one, and starts a new one; a
/// paper cut prints any unfinished line and then a cut; a raster image prints any
/// unfinished line and then the image, eight dots per byte of a row; a carriage return,
/// a column image or an unknown sequence changes nothing; `ESC @` restores font A, left
/// justification, no bold, underline or italic, a line height of 30 dots, print mode 0
/// and code page 0, and keeps what was printed.
pub proof fn law_printing_commands(m: PrinterModel, t: Seq<char>, wb: u16, h: u16, data: Seq<u8>)
    ensures
        apply_command(m, CommandView::Text(t)).pending == m.pending + t,
        apply_command(m, CommandView::Text(t)).lines == m.lines,
        apply_command(m, CommandView::NewLine).lines == m.lines + seq![LineView::Text(m.pending)],
        apply_command(m, CommandView::NewLine).pending.len() == 0,
        apply_command(m, CommandView::LineFeed).lines == m.lines + seq![LineView::Text(m.pending)],
        m.pending.len() > 0 ==> apply_command(m, CommandView::CutPaper).lines == m.lines + seq![
            LineView::Text(m.pending),
            LineView::Separator,
        ],
        m.pending.len() == 0 ==> apply_command(m, CommandView::CutPaper).lines == m.lines + seq![
            LineView::Separator,
        ],
        apply_command(m, CommandView::CutPaper).pending.len() == 0,
        apply_command(m, CommandView::PrintRasterImage { width_bytes: wb, height: h, data }).lines.last()
            == (LineView::Bitmap { width_px: (8 * wb) as u32, height_px: h as u32, data }),
        apply_command(m, CommandView::PrintRasterImage { width_bytes: wb, height: h, data }).lines.len()
            == m.lines.len() + if m.pending.len() > 0 { 2int } else { 1int },
        apply_command(m, CommandView::CarriageReturn) == m,
        apply_command(m, CommandView::PrintImage(data)) == m,
        apply_command(m, CommandView::Unknown(data)) == m,
        ({
            let r = apply_command(m, CommandView::InitializePrinter);
            &&& r.current_font == Font::FontA
            &&& r.justification == Justification::Left
            &&& !r.emphasis && !r.underline && !r.italic
            &&& r.line_height == 30 && r.font_size == 0 && r.codepage == 0
            &&& r.lines == m.lines && r.pending == m.pending
            &&& r.paper_width == m.paper_width && r.dpi == m.dpi
        }),
{
    assert(m.lines.push(LineView::Text(m.pending)) =~= m.lines + seq![LineView::Text(m.pending)]);
    assert(m.lines.push(LineView::Text(m.pending)).push(LineView::Separator) =~= m.lines + seq![
        LineView::Text(m.pending),
        LineView::Separator,
    ]);
    assert(m.lines.push(LineView::Separator) =~= m.lines + seq![LineView::Separator]);
}

/// A row of a raster image takes the fewest whole bytes that hold its dots: enough for
/// all of them, and fewer than eight dots to spare.
pub proof fn law_row_stride(width_px: u32)
    ensures
        row_bytes(width_px) * 8 >= width_px,
        row_bytes(width_px) * 8 < width_px + 8,
{
}

/// For a raster image whose rows are `k` whole bytes (`8 * k` dots, as every `GS v 0`
/// image is), channel `c` of dot `(x, y)` is black (0) exactly when bit `7 - x % 8`
/// (most significant first) of byte `y * k + x / 8` is set, and white (255) otherwise,
/// including where that byte is missing.
pub proof fn law_raster_pixels(width_px: u32, data: Seq<u8>, x: int, y: int, c: int)
    requires
        width_px % 8 == 0,
        0 <= x < width_px,
        0 <= y,
        0 <= c < 3,
    ensures
        ({
            let k = width_px / 8;
            let idx = y * k + x / 8;
            let black = idx < data.len() && (data[idx] >> ((7 - x % 8) as u8)) & 1u8 == 1u8;
            rgb_channel(width_px, data, 3 * (y * width_px + x) + c) == if black { 0u8 } else { 255u8 }
        }),
{
    lemma_pixel_index(width_px as int, y, x, c);
    assert(row_bytes(width_px) == width_px / 8);
}

impl PrinterState {
    /// Renders a raster image (`width_px` by `height_px` dots, one bit per dot) as RGB
    /// bytes, row-major: black for printed dots, white for blank ones.
    pub fn bitmap_to_rgb(width_px: u32, height_px: u32, data: &[u8]) -> (rgb: Vec<u8>)
        requires
            width_px * height_px * 3 <= usize::MAX,
        ensures
            rgb@.len() == width_px * height_px * 3,
            forall|k: int| 0 <= k < rgb@.len() ==> #[trigger] rgb@[k] == rgb_channel(width_px, data@, k),
    {
        let w = width_px as usize;
        let h = height_px as usize;
        let stride = w / 8 + if w % 8 == 0 { 0 } else { 1 };
        let mut rgb: Vec<u8> = Vec::new();
        let mut y: usize = 0;
        while y < h
            invariant
                w == width_px,
                h == height_px,
                stride == row_bytes(width_px),
                w * h * 3 <= usize::MAX,
                0 <= y <= h,
                rgb@.len() == 3 * (y * w),
                forall|k: int| 0 <= k < rgb@.len() ==> #[trigger] rgb@[k] == rgb_channel(width_px, data@, k),
            decreases h - y,
        {
            let mut x: usize = 0;
            while x < w
                invariant
                    w == width_px,
                    h == height_px,
                    stride == row_bytes(width_px),
                    w * h * 3 <= usize::MAX,
                    0 <= y < h,
                    0 <= x <= w,
                    rgb@.len() == 3 * (y * w + x),
                    forall|k: int| 0 <= k < rgb@.len() ==> #[trigger] rgb@[k] == rgb_channel(width_px, data@, k),
                decreases w - x,
            {
                assert(y * stride + x / 8 < w * h && 3 * (y * w + x) + 3 <= w * h * 3) by (nonlinear_arith)
                    requires
                        0 <= y < h,
                        0 <= x < w,
                        stride == (w + 7) / 8,
                ;
                let idx = y * stride + x / 8;
                let shift = (7 - x % 8) as u8;
                let black = idx < data.len() && (data[idx] >> shift) & 1u8 == 1u8;
                let v: u8 = if black { 0 } else { 255 };
                proof {
                    lemma_pixel_index(w as int, y as int, x as int, 0);
                    lemma_pixel_index(w as int, y as int, x as int, 1);
                    lemma_pixel_index(w as int, y as int, x as int, 2);
                    assert(black == dot_set(width_px, data@, x as int, y as int));
                }
                rgb.push(v);
                rgb.push(v);
                rgb.push(v);
                x += 1;
            }
            assert(3 * (y * w + w) == 3 * ((y + 1) * w)) by (nonlinear_arith);
            y += 1;
        }
        assert(3 * (h * w) == w * h * 3) by (nonlinear_arith);
        rgb
    }

    pub fn new() -> (p: Self)
        ensures
            p@ == initial_model(),
    {
        let p = PrinterState {
            paper_width: PaperWidth::Mm80,
            current_font: Font::FontA,
            justification: Justification::Left,
            emphasis: false,
            underline: false,
            italic: false,
            line_height: DEFAULT_LINE_HEIGHT,
            font_size: 0,
            codepage: 0,
            dpi: DEFAULT_DPI,
            buffer: Vec::new(),
            current_line: String::new(),
        };
        assert(line_views(p.buffer@) =~= Seq::<LineView>::empty());
        p
    }

    /// Prints the pending text, if any, as a line of its own.
    fn flush_line(&mut self)
        ensures
            final(self)@ == (PrinterModel { lines: flushed(old(self)@), pending: Seq::empty(), ..old(self)@ }),
    {
        if !self.current_line.as_str().is_empty() {
            let ghost before = self.buffer@;
            self.buffer.push(ReceiptLine::Text(self.current_line.clone()));
            assert(line_views(self.buffer@) =~= line_views(before).push(LineView::Text(old(self).current_line@)));
            self.current_line = String::new();
        } else {
            assert(self.current_line@ =~= Seq::<char>::empty());
        }
    }

    pub fn process_command(&mut self, command: &EscPosCommand)
        ensures
            final(self)@ == apply_command(old(self)@, command@),
    {
        match command {
            EscPosCommand::Text(t) => {
                self.current_line.append(t.as_str());
            },
            EscPosCommand::NewLine | EscPosCommand::LineFeed => {
                let ghost before = self.buffer@;
                self.buffer.push(ReceiptLine::Text(self.current_line.clone()));
                assert(line_views(self.buffer@) =~= line_views(before).push(LineView::Text(old(self).current_line@)));
                self.current_line = String::new();
            },
            EscPosCommand::InitializePrinter => {
                self.current_font = Font::FontA;
                self.justification = Justification::Left;
                self.emphasis = false;
                self.underline = false;
                self.italic = false;
                self.line_height = DEFAULT_LINE_HEIGHT;
                self.font_size = 0;
                self.codepage = 0;
            },
            EscPosCommand::SetFont(f) => {
                self.current_font = *f;
            },
            EscPosCommand::SetJustification(j) => {
                self.justification = *j;
            },
            EscPosCommand::SetEmphasis(b) => {
                self.emphasis = *b;
            },
            EscPosCommand::SetUnderline(b) => {
                self.underline = *b;
            },
            EscPosCommand::SetItalic(b) => {
                self.italic = *b;
            },
            EscPosCommand::SetLineHeight(h) => {
                self.line_height = *h;
            },
            EscPosCommand::SetFontSize(s) => {
                self.font_size = *s;
            },
            EscPosCommand::SetCodepage(cp) => {
                self.codepage = *cp;
            },
            EscPosCommand::CutPaper => {
                self.flush_line();
                let ghost before = self.buffer@;
                self.buffer.push(ReceiptLine::Separator);
                assert(line_views(self.buffer@) =~= line_views(before).push(LineView::Separator));
            },
            EscPosCommand::PrintRasterImage { width_bytes, height, data } => {
                self.flush_line();
                let ghost before = self.buffer@;
                let width_px = *width_bytes as u32 * 8;
                self.buffer.push(
                    ReceiptLine::Bitmap { width_px, height_px: *height as u32, data: data.clone() },
                );
                assert(line_views(self.buffer@) =~= line_views(before).push(
                    LineView::Bitmap { width_px, height_px: *height as u32, data: data@ },
                ));
            },
            EscPosCommand::CarriageReturn | EscPosCommand::PrintImage(_) | EscPosCommand::Unknown(_) => {},
        }
    }

    /// The printed lines (text lines, images and cuts), oldest first.
    pub fn get_buffer(&self) -> (b: &Vec<ReceiptLine>)
        ensures
            line_views(b@) == self@.lines,
    {
        &self.buffer
    }

    /// Discards the printed receipt and any pending text.
    pub fn clear_buffer(&mut self)
        ensures
            final(self)@ == (PrinterModel { lines: Seq::empty(), pending: Seq::empty(), ..old(self)@ }),
    {
        self.buffer = Vec::new();
        self.current_line = String::new();
        assert(line_views(self.buffer@) =~= Seq::<LineView>::empty());
    }

    pub fn set_paper_width(&mut self, width: PaperWidth)
        ensures
            final(self)@ == (PrinterModel { paper_width: width, ..old(self)@ }),
    {
        self.paper_width = width;
    }

    pub fn set_line_height(&mut self, height: u32)
        ensures
            final(self)@ == (PrinterModel { line_height: height, ..old(self)@ }),
    {
        self.line_height = height;
    }

    pub fn set_font_size(&mut self, size: u32)
        ensures
            final(self)@ == (PrinterModel { font_size: size, ..old(self)@ }),
    {
        self.font_size = size;
    }

    /// Printable width of the paper in dots.
    pub fn get_paper_width_dots(&self) -> (d: u32)
        ensures
            d == self@.paper_width.dots(),
    {
        self.paper_width.get_dots()
    }
}

} // verus!
