//! Emulator state: the printer plus a bounded history of the commands received.

use crate::escpos::commands::EscPosCommand;
use crate::escpos::printer::{apply_command, initial_model, PaperWidth, PrinterModel, PrinterState, width_for_mm};
use std::collections::VecDeque;
use std::time::SystemTime;
use vstd::prelude::*;

verus! {

#[verifier::external_type_specification]
#[verifier::external_body]
pub struct ExSystemTime(std::time::SystemTime);

/// Calls `SystemTime::now`. Nothing is claimed of the result: it is a reading of the
/// system clock.
#[verifier::external_body]
fn current_time() -> SystemTime {
    SystemTime::now()
}

/// Default bound on the number of commands kept in the history.
pub const DEFAULT_MAX_HISTORY: usize = 1000;

/// The last `n` elements of `s` (all of `s` when it is not longer than `n`).
pub open spec fn keep_last<T>(s: Seq<T>, n: nat) -> Seq<T> {
    if s.len() > n {
        s.skip(s.len() - n)
    } else {
        s
    }
}

/// The history never holds more than `max_history_size` entries: recording a command
/// keeps the most recent entries, as many as fit, in order, and the recorded command is
/// the newest unless the bound is zero.
pub proof fn law_history_bounded<T>(history: Seq<T>, entry: T, max: nat)
    ensures
        keep_last(history.push(entry), max).len() <= max,
        max > 0 ==> keep_last(history.push(entry), max).last() == entry,
        history.len() < max ==> keep_last(history.push(entry), max) == history.push(entry),
        ({
            let all = history.push(entry);
            let kept = keep_last(all, max);
            &&& kept.len() == if all.len() < max { all.len() } else { max }
            &&& forall|k: int| 0 <= k < kept.len() ==> #[trigger] kept[k] == all[all.len() - kept.len() + k]
        }),
{
}

/// One received command, with the time it arrived.
#[derive(Debug)]
pub struct CommandEntry {
    pub timestamp: SystemTime,
    pub command: EscPosCommand,
    /// The bytes the command was decoded from.
    pub raw_data: Vec<u8>,
}

impl Clone for CommandEntry {
    fn clone(&self) -> (r: Self)
        ensures
            r.timestamp == self.timestamp,
            r.command@ == self.command@,
            r.raw_data@ == self.raw_data@,
    {
        CommandEntry {
            timestamp: self.timestamp,
            command: self.command.clone(),
            raw_data: self.raw_data.clone(),
        }
    }
}

/// Shared state of the emulator.
#[derive(Debug)]
pub struct EmulatorState {
    pub printer_state: PrinterState,
    pub command_history: VecDeque<CommandEntry>,
    pub max_history_size: usize,
    pub start_time: SystemTime,
}

/// Values shown in the status bar.
#[derive(Debug)]
pub struct StatusSummary {
    pub paper_width: String,
    pub current_font: String,
    pub justification: String,
    pub emphasis: bool,
    pub underline: bool,
    pub italic: bool,
    pub buffer_lines: usize,
    pub command_count: usize,
    pub dpi: u32,
}

impl Clone for EmulatorState {
    fn clone(&self) -> (r: Self)
        ensures
            r.printer_state@ == self.printer_state@,
            r.command_history@.len() == self.command_history@.len(),
            forall|i: int|
                0 <= i < self.command_history@.len() ==> {
                    let (a, b) = (#[trigger] r.command_history@[i], self.command_history@[i]);
                    a.timestamp == b.timestamp && a.command@ == b.command@ && a.raw_data@ == b.raw_data@
                },
            r.max_history_size == self.max_history_size,
            r.start_time == self.start_time,
    {
        let mut history: VecDeque<CommandEntry> = VecDeque::new();
        let mut i: usize = 0;
        while i < self.command_history.len()
            invariant
                0 <= i <= self.command_history@.len(),
                history@.len() == i,
                forall|k: int|
                    0 <= k < i ==> {
                        let (a, b) = (#[trigger] history@[k], self.command_history@[k]);
                        a.timestamp == b.timestamp && a.command@ == b.command@ && a.raw_data@ == b.raw_data@
                    },
            decreases self.command_history@.len() - i,
        {
            history.push_back(self.command_history[i].clone());
            i += 1;
        }
        EmulatorState {
            printer_state: self.printer_state.clone(),
            command_history: history,
            max_history_size: self.max_history_size,
            start_time: self.start_time,
        }
    }
}

impl EmulatorState {
    pub fn new() -> (s: Self)
        ensures
            s.printer_state@ == initial_model(),
            s.command_history@.len() == 0,
            s.max_history_size == DEFAULT_MAX_HISTORY,
    {
        EmulatorState {
            printer_state: PrinterState::new(),
            command_history: VecDeque::new(),
            max_history_size: DEFAULT_MAX_HISTORY,
            start_time: current_time(),
        }
    }

    /// Records `command`, with the bytes `raw_data` it was decoded from, in the history
    /// (dropping the oldest entries beyond `max_history_size`) and applies it to the
    /// printer.
    pub fn process_command(&mut self, command: &EscPosCommand, raw_data: &[u8])
        ensures
            final(self).printer_state@ == apply_command(old(self).printer_state@, command@),
            final(self).max_history_size == old(self).max_history_size,
            final(self).start_time == old(self).start_time,
            exists|e: CommandEntry|
                e.command@ == command@ && e.raw_data@ == raw_data@ && #[trigger] keep_last(
                    old(self).command_history@.push(e),
                    old(self).max_history_size as nat,
                ) == final(self).command_history@,
    {
        let entry = CommandEntry {
            timestamp: current_time(),
            command: command.clone(),
            raw_data: vstd::slice::slice_to_vec(raw_data),
        };
        let ghost e = entry;
        self.command_history.push_back(entry);
        let ghost s = self.command_history@;
        let ghost max = self.max_history_size as int;
        let ghost mut dropped: int = 0;
        while self.command_history.len() > self.max_history_size
            invariant
                max == self.max_history_size,
                self.max_history_size == old(self).max_history_size,
                self.printer_state == old(self).printer_state,
                self.start_time == old(self).start_time,
                s == old(self).command_history@.push(e),
                0 <= dropped <= s.len(),
                dropped > 0 ==> s.len() - dropped >= max,
                self.command_history@ == s.skip(dropped),
            decreases self.command_history@.len(),
        {
            let _ = self.command_history.pop_front();
            proof {
                dropped = dropped + 1;
            }
            assert(self.command_history@ =~= s.skip(dropped));
        }
        assert(keep_last(s, max as nat) =~= self.command_history@);
        self.printer_state.process_command(command);
    }

    pub fn get_command_history(&self) -> (h: &VecDeque<CommandEntry>)
        ensures
            h@ == self.command_history@,
    {
        &self.command_history
    }

    pub fn clear_history(&mut self)
        ensures
            final(self).command_history@.len() == 0,
            final(self).printer_state@ == old(self).printer_state@,
            final(self).max_history_size == old(self).max_history_size,
            final(self).start_time == old(self).start_time,
    {
        self.command_history.clear();
    }

    pub fn clear_printer_buffer(&mut self)
        ensures
            final(self).printer_state@ == (PrinterModel {
                lines: Seq::empty(),
                pending: Seq::empty(),
                ..old(self).printer_state@
            }),
            final(self).command_history@ == old(self).command_history@,
            final(self).max_history_size == old(self).max_history_size,
            final(self).start_time == old(self).start_time,
    {
        self.printer_state.clear_buffer();
    }

    pub fn get_printer_state(&self) -> (p: &PrinterState)
        ensures
            p@ == self.printer_state@,
    {
        &self.printer_state
    }

    pub fn get_status_summary(&self) -> (s: StatusSummary)
        ensures
            s.paper_width@ == self.printer_state@.paper_width.name(),
            s.current_font@ == self.printer_state@.current_font.name(),
            s.justification@ == self.printer_state@.justification.name(),
            s.emphasis == self.printer_state@.emphasis,
            s.underline == self.printer_state@.underline,
            s.italic == self.printer_state@.italic,
            s.buffer_lines == self.printer_state@.lines.len(),
            s.command_count == self.command_history@.len(),
            s.dpi == self.printer_state@.dpi,
    {
        StatusSummary {
            paper_width: self.printer_state.paper_width.debug_name(),
            current_font: self.printer_state.current_font.debug_name(),
            justification: self.printer_state.justification.debug_name(),
            emphasis: self.printer_state.emphasis,
            underline: self.printer_state.underline,
            italic: self.printer_state.italic,
            buffer_lines: self.printer_state.get_buffer().len(),
            command_count: self.command_history.len(),
            dpi: self.printer_state.dpi,
        }
    }

    /// Selects the paper width for a paper of `width_mm` millimetres.
    pub fn set_paper_width(&mut self, width_mm: u32)
        ensures
            final(self).printer_state@ == (PrinterModel {
                paper_width: width_for_mm(width_mm),
                ..old(self).printer_state@
            }),
            final(self).command_history@ == old(self).command_history@,
            final(self).max_history_size == old(self).max_history_size,
            final(self).start_time == old(self).start_time,
    {
        self.printer_state.set_paper_width(PaperWidth::from_mm(width_mm));
    }

    pub fn set_line_height(&mut self, height: u32)
        ensures
            final(self).printer_state@ == (PrinterModel { line_height: height, ..old(self).printer_state@ }),
            final(self).command_history@ == old(self).command_history@,
            final(self).max_history_size == old(self).max_history_size,
            final(self).start_time == old(self).start_time,
    {
        self.printer_state.set_line_height(height);
    }

    pub fn set_font_size(&mut self, size: u32)
        ensures
            final(self).printer_state@ == (PrinterModel { font_size: size, ..old(self).printer_state@ }),
            final(self).command_history@ == old(self).command_history@,
            final(self).max_history_size == old(self).max_history_size,
            final(self).start_time == old(self).start_time,
    {
        self.printer_state.set_font_size(size);
    }
}

} // verus!
