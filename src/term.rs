//! The terminal session: one key decoder and one writer behind one handle.
//!
//! The session does no I/O. Output is handed over by `flush` (and by `read`,
//! which flushes first) for the caller to write to the terminal in one go;
//! input is read by the caller as the decoder asks for it (see `TermReader`).
use vstd::prelude::*;

use crate::caps::{Cap, Color};
use crate::catalog::{build_escapes_trie, catalog, KeySequences};
use crate::reader::{feed_step, idle_with, start_step, ByteRead, Mode, ReadStep, TermReader};
use crate::writer::{
    bg_step, blink_step, bold_step, fg_step, pieces, plain, reset_color_step, reverse_step,
    standout_step, underline_step, Out, Piece, TermWriter,
};

verus! {

/// A terminal session for a full screen application.
pub struct Term {
    r: TermReader,
    w: TermWriter,
}

impl Term {
    /// The session's key decoder.
    pub closed spec fn reader(&self) -> TermReader {
        self.r
    }

    /// The session's writer.
    pub closed spec fn writer(&self) -> TermWriter {
        self.w
    }

    /// The decoder is well formed.
    pub open spec fn wf(&self) -> bool {
        self.reader().wf()
    }

    /// A session whose decoder knows the terminal's key sequences `keys`, with
    /// nothing pending and nothing buffered.
    pub fn new(keys: &KeySequences) -> (r: Term)
        ensures
            r.wf(),
            r.reader().table() == catalog(keys),
            r.reader().state() == idle_with(Seq::empty()),
            r.writer().output() == Seq::<Piece>::empty(),
            r.writer().attrs() == plain(),
    {
        Term { r: TermReader::new(build_escapes_trie(keys)), w: TermWriter::new() }
    }

    /// Puts the terminal in keypad mode on a cleared alternate screen, and
    /// hands over the output to write.
    pub fn init_term_app(&mut self) -> (r: Vec<Out>)
        ensures
            final(self).reader() == old(self).reader(),
            final(self).writer().attrs() == old(self).writer().attrs(),
            final(self).writer().output() == Seq::<Piece>::empty(),
            pieces(r@) == old(self).writer().output() + seq![
                Piece::Cap(Cap::KeypadXmit),
                Piece::Cap(Cap::EnterCaMode),
                Piece::Cap(Cap::ClearScreen),
            ],
    {
        self.w.emit_cap(Cap::KeypadXmit);
        self.w.alternate_screen(true);
        self.w.clear();
        let r = self.w.flush();
        assert(pieces(r@) =~= old(self).writer().output() + seq![
            Piece::Cap(Cap::KeypadXmit),
            Piece::Cap(Cap::EnterCaMode),
            Piece::Cap(Cap::ClearScreen),
        ]);
        r
    }

    /// Clears the screen.
    pub fn clear(&mut self)
        ensures
            final(self).reader() == old(self).reader(),
            final(self).writer().attrs() == old(self).writer().attrs(),
            final(self).writer().output() == old(self).writer().output().push(Piece::Cap(Cap::ClearScreen)),
    {
        self.w.clear();
    }

    /// Moves the cursor to (`col`, `row`).
    pub fn move_cursor(&mut self, col: usize, row: usize)
        ensures
            final(self).reader() == old(self).reader(),
            final(self).writer().attrs() == old(self).writer().attrs(),
            final(self).writer().output() == old(self).writer().output().push(Piece::Cap(
                if col == 0 && row == 0 {
                    Cap::CursorHome
                } else {
                    Cap::CursorAddress(row, col)
                },
            )),
    {
        self.w.move_cursor(col, row);
    }

    /// Scrolls the text up by `lines`.
    pub fn scroll_forward(&mut self, lines: usize)
        ensures
            final(self).reader() == old(self).reader(),
            final(self).writer().attrs() == old(self).writer().attrs(),
            final(self).writer().output() == old(self).writer().output().push(Piece::Cap(
                if lines == 1 {
                    Cap::ScrollForward
                } else {
                    Cap::ScrollForwardMultiple(lines)
                },
            )),
    {
        self.w.scroll_forward(lines);
    }

    /// Scrolls the text down by `lines`.
    pub fn scroll_reverse(&mut self, lines: usize)
        ensures
            final(self).reader() == old(self).reader(),
            final(self).writer().attrs() == old(self).writer().attrs(),
            final(self).writer().output() == old(self).writer().output().push(Piece::Cap(
                if lines == 1 {
                    Cap::ScrollReverse
                } else {
                    Cap::ScrollReverseMultiple(lines)
                },
            )),
    {
        self.w.scroll_reverse(lines);
    }

    /// Changes the foreground color to `color`.
    pub fn fg_color(&mut self, color: Color)
        ensures
            final(self).reader() == old(self).reader(),
            final(self).writer().attrs() == fg_step(old(self).writer().attrs(), color).0,
            final(self).writer().output() == old(self).writer().output() + fg_step(
                old(self).writer().attrs(), color,
            ).1,
    {
        self.w.fg_color(color);
    }

    /// Changes the background color to `color`.
    pub fn bg_color(&mut self, color: Color)
        ensures
            final(self).reader() == old(self).reader(),
            final(self).writer().attrs() == bg_step(old(self).writer().attrs(), color).0,
            final(self).writer().output() == old(self).writer().output() + bg_step(
                old(self).writer().attrs(), color,
            ).1,
    {
        self.w.bg_color(color);
    }

    /// Resets the foreground and background colors to the default.
    pub fn reset_color(&mut self)
        ensures
            final(self).reader() == old(self).reader(),
            final(self).writer().attrs() == reset_color_step(old(self).writer().attrs()).0,
            final(self).writer().output() == old(self).writer().output() + reset_color_step(
                old(self).writer().attrs(),
            ).1,
    {
        self.w.reset_color();
    }

    /// Enables or disables underline mode.
    pub fn underline(&mut self, enabled: bool)
        ensures
            final(self).reader() == old(self).reader(),
            final(self).writer().attrs() == underline_step(old(self).writer().attrs(), enabled).0,
            final(self).writer().output() == old(self).writer().output() + underline_step(
                old(self).writer().attrs(), enabled,
            ).1,
    {
        self.w.underline(enabled);
    }

    /// Enables or disables standout mode.
    pub fn standout(&mut self, enabled: bool)
        ensures
            final(self).reader() == old(self).reader(),
            final(self).writer().attrs() == standout_step(old(self).writer().attrs(), enabled).0,
            final(self).writer().output() == old(self).writer().output() + standout_step(
                old(self).writer().attrs(), enabled,
            ).1,
    {
        self.w.standout(enabled);
    }

    /// Enables or disables reverse mode.
    pub fn reverse(&mut self, enabled: bool)
        ensures
            final(self).reader() == old(self).reader(),
            final(self).writer().attrs() == reverse_step(old(self).writer().attrs(), enabled).0,
            final(self).writer().output() == old(self).writer().output() + reverse_step(
                old(self).writer().attrs(), enabled,
            ).1,
    {
        self.w.reverse(enabled);
    }

    /// Enables or disables bold mode.
    pub fn bold(&mut self, enabled: bool)
        ensures
            final(self).reader() == old(self).reader(),
            final(self).writer().attrs() == bold_step(old(self).writer().attrs(), enabled).0,
            final(self).writer().output() == old(self).writer().output() + bold_step(
                old(self).writer().attrs(), enabled,
            ).1,
    {
        self.w.bold(enabled);
    }

    /// Enables or disables blink mode.
    pub fn blink(&mut self, enabled: bool)
        ensures
            final(self).reader() == old(self).reader(),
            final(self).writer().attrs() == blink_step(old(self).writer().attrs(), enabled).0,
            final(self).writer().output() == old(self).writer().output() + blink_step(
                old(self).writer().attrs(), enabled,
            ).1,
    {
        self.w.blink(enabled);
    }

    /// Makes the cursor visible or invisible.
    pub fn cursor(&mut self, visible: bool)
        ensures
            final(self).reader() == old(self).reader(),
            final(self).writer().attrs() == old(self).writer().attrs(),
            final(self).writer().output() == old(self).writer().output().push(Piece::Cap(
                if visible {
                    Cap::CursorNormal
                } else {
                    Cap::CursorInvisible
                },
            )),
    {
        self.w.cursor(visible);
    }

    /// Switches to or from the alternate screen, a separate place to draw
    /// that is left as it was when the application switches back.
    pub fn alternate_screen(&mut self, enabled: bool)
        ensures
            final(self).reader() == old(self).reader(),
            final(self).writer().attrs() == old(self).writer().attrs(),
            final(self).writer().output() == old(self).writer().output().push(Piece::Cap(
                if enabled {
                    Cap::EnterCaMode
                } else {
                    Cap::ExitCaMode
                },
            )),
    {
        self.w.alternate_screen(enabled);
    }

    /// Writes `text` to the terminal. All text must go through the session,
    /// or the tracked state of the screen no longer holds.
    pub fn write(&mut self, text: &str)
        ensures
            final(self).reader() == old(self).reader(),
            final(self).writer().attrs() == old(self).writer().attrs(),
            final(self).writer().output() == old(self).writer().output().push(Piece::Text(text@)),
    {
        self.w.write(text);
    }

    /// Hands over the output written so far, to be written to the terminal in
    /// one go.
    pub fn flush(&mut self) -> (r: Vec<Out>)
        ensures
            final(self).reader() == old(self).reader(),
            final(self).writer().attrs() == old(self).writer().attrs(),
            final(self).writer().output() == Seq::<Piece>::empty(),
            pieces(r@) == old(self).writer().output(),
    {
        self.w.flush()
    }

    /// Flushes, then starts reading a keypress (see `TermReader::read`): the
    /// output to write first, and what the decoder asks for.
    pub fn read(&mut self) -> (r: (Vec<Out>, ReadStep))
        requires
            old(self).wf(),
            old(self).reader().state().mode == Mode::Idle,
        ensures
            final(self).wf(),
            final(self).writer().attrs() == old(self).writer().attrs(),
            final(self).writer().output() == Seq::<Piece>::empty(),
            pieces(r.0@) == old(self).writer().output(),
            final(self).reader().table() == old(self).reader().table(),
            final(self).reader().state() == start_step(
                old(self).reader().table(),
                old(self).reader().state(),
            ).0,
            r.1 == start_step(old(self).reader().table(), old(self).reader().state()).1,
    {
        let out = self.w.flush();
        let step = self.r.read();
        (out, step)
    }

    /// Continues the read in progress with the outcome of the requested read
    /// (see `TermReader::feed`).
    pub fn feed(&mut self, input: ByteRead) -> (r: ReadStep)
        requires
            old(self).wf(),
            old(self).reader().state().mode != Mode::Idle,
        ensures
            final(self).wf(),
            final(self).writer() == old(self).writer(),
            final(self).reader().table() == old(self).reader().table(),
            final(self).reader().state() == feed_step(
                old(self).reader().table(),
                old(self).reader().state(),
                input,
            ).0,
            r == feed_step(old(self).reader().table(), old(self).reader().state(), input).1,
    {
        self.r.feed(input)
    }

    /// Whether a read is in progress, waiting for `feed`.
    pub fn waiting(&self) -> (r: bool)
        ensures
            r == (self.reader().state().mode != Mode::Idle),
    {
        self.r.waiting()
    }
}

} // verus!
