//! The ESC/POS commands that the parser recognises.

use vstd::prelude::*;

verus! {

/// Character font selected with `ESC M n`.
#[derive(Debug, Clone, Copy, PartialEq, Eq, Structural)]
pub enum Font {
    FontA,
    FontB,
    FontC,
}

/// Line justification selected with `ESC a n`.
#[derive(Debug, Clone, Copy, PartialEq, Eq, Structural)]
pub enum Justification {
    Left,
    Center,
    Right,
}

impl Font {
    /// The name `{:?}` gives the font.
    pub open spec fn name(self) -> Seq<char> {
        match self {
            Font::FontA => "FontA"@,
            Font::FontB => "FontB"@,
            Font::FontC => "FontC"@,
        }
    }

    pub fn debug_name(&self) -> (s: String)
        ensures
            s@ == self.name(),
    {
        match self {
            Font::FontA => String::from_str("FontA"),
            Font::FontB => String::from_str("FontB"),
            Font::FontC => String::from_str("FontC"),
        }
    }
}

impl Justification {
    /// The name `{:?}` gives the justification.
    pub open spec fn name(self) -> Seq<char> {
        match self {
            Justification::Left => "Left"@,
            Justification::Center => "Center"@,
            Justification::Right => "Right"@,
        }
    }

    pub fn debug_name(&self) -> (s: String)
        ensures
            s@ == self.name(),
    {
        match self {
            Justification::Left => String::from_str("Left"),
            Justification::Center => String::from_str("Center"),
            Justification::Right => String::from_str("Right"),
        }
    }
}

/// One decoded ESC/POS command.
#[derive(Debug)]
pub enum EscPosCommand {
    /// A run of printable bytes, decoded as text.
    Text(String),
    /// `LF`
    NewLine,
    /// `CR`
    CarriageReturn,
    /// `ESC J n` (print and feed)
    LineFeed,
    /// `ESC @`
    InitializePrinter,
    /// `ESC M n`
    SetFont(Font),
    /// `ESC a n`
    SetJustification(Justification),
    /// `ESC E` / `ESC F`
    SetEmphasis(bool),
    /// `ESC - n`
    SetUnderline(bool),
    /// `ESC 4` / `ESC 5`
    SetItalic(bool),
    /// `ESC 3 n`
    SetLineHeight(u32),
    /// `ESC ! n`
    SetFontSize(u32),
    /// `ESC t n`
    SetCodepage(u8),
    /// `GS V`, `ESC m`, `ESC i`
    CutPaper,
    /// `ESC *` column bit image (payload bytes only)
    PrintImage(Vec<u8>),
    /// `GS v 0` raster bit image
    PrintRasterImage { width_bytes: u16, height: u16, data: Vec<u8> },
    /// Any other ESC or GS sequence (its first two bytes)
    Unknown(Vec<u8>),
}

/// Mathematical value of an [`EscPosCommand`]: text as characters, payloads as byte sequences.
pub enum CommandView {
    Text(Seq<char>),
    NewLine,
    CarriageReturn,
    LineFeed,
    InitializePrinter,
    SetFont(Font),
    SetJustification(Justification),
    SetEmphasis(bool),
    SetUnderline(bool),
    SetItalic(bool),
    SetLineHeight(u32),
    SetFontSize(u32),
    SetCodepage(u8),
    CutPaper,
    PrintImage(Seq<u8>),
    PrintRasterImage { width_bytes: u16, height: u16, data: Seq<u8> },
    Unknown(Seq<u8>),
}

impl View for EscPosCommand {
    type V = CommandView;

    open spec fn view(&self) -> CommandView {
        match self {
            EscPosCommand::Text(s) => CommandView::Text(s@),
            EscPosCommand::NewLine => CommandView::NewLine,
            EscPosCommand::CarriageReturn => CommandView::CarriageReturn,
            EscPosCommand::LineFeed => CommandView::LineFeed,
            EscPosCommand::InitializePrinter => CommandView::InitializePrinter,
            EscPosCommand::SetFont(f) => CommandView::SetFont(*f),
            EscPosCommand::SetJustification(j) => CommandView::SetJustification(*j),
            EscPosCommand::SetEmphasis(b) => CommandView::SetEmphasis(*b),
            EscPosCommand::SetUnderline(b) => CommandView::SetUnderline(*b),
            EscPosCommand::SetItalic(b) => CommandView::SetItalic(*b),
            EscPosCommand::SetLineHeight(h) => CommandView::SetLineHeight(*h),
            EscPosCommand::SetFontSize(s) => CommandView::SetFontSize(*s),
            EscPosCommand::SetCodepage(c) => CommandView::SetCodepage(*c),
            EscPosCommand::CutPaper => CommandView::CutPaper,
            EscPosCommand::PrintImage(d) => CommandView::PrintImage(d@),
            EscPosCommand::PrintRasterImage { width_bytes, height, data } =>
                CommandView::PrintRasterImage { width_bytes: *width_bytes, height: *height, data: data@ },
            EscPosCommand::Unknown(d) => CommandView::Unknown(d@),
        }
    }
}

/// The views of a sequence of commands.
pub open spec fn command_views(cmds: Seq<EscPosCommand>) -> Seq<CommandView> {
    cmds.map_values(|c: EscPosCommand| c@)
}

impl Clone for EscPosCommand {
    fn clone(&self) -> (r: Self)
        ensures
            r@ == self@,
    {
        match self {
            EscPosCommand::Text(s) => EscPosCommand::Text(s.clone()),
            EscPosCommand::NewLine => EscPosCommand::NewLine,
            EscPosCommand::CarriageReturn => EscPosCommand::CarriageReturn,
            EscPosCommand::LineFeed => EscPosCommand::LineFeed,
            EscPosCommand::InitializePrinter => EscPosCommand::InitializePrinter,
            EscPosCommand::SetFont(f) => EscPosCommand::SetFont(*f),
            EscPosCommand::SetJustification(j) => EscPosCommand::SetJustification(*j),
            EscPosCommand::SetEmphasis(b) => EscPosCommand::SetEmphasis(*b),
            EscPosCommand::SetUnderline(b) => EscPosCommand::SetUnderline(*b),
            EscPosCommand::SetItalic(b) => EscPosCommand::SetItalic(*b),
            EscPosCommand::SetLineHeight(h) => EscPosCommand::SetLineHeight(*h),
            EscPosCommand::SetFontSize(s) => EscPosCommand::SetFontSize(*s),
            EscPosCommand::SetCodepage(c) => EscPosCommand::SetCodepage(*c),
            EscPosCommand::CutPaper => EscPosCommand::CutPaper,
            EscPosCommand::PrintImage(d) => EscPosCommand::PrintImage(d.clone()),
            EscPosCommand::PrintRasterImage { width_bytes, height, data } =>
                EscPosCommand::PrintRasterImage {
                    width_bytes: *width_bytes,
                    height: *height,
                    data: data.clone(),
                },
            EscPosCommand::Unknown(d) => EscPosCommand::Unknown(d.clone()),
        }
    }
}

} // verus!
