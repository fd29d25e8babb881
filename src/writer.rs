//! The output side: screen-control requests become a buffer of capability
//! requests and text, with display attributes tracked so that a request that
//! changes nothing emits nothing.
use vstd::prelude::*;

use vstd::seq_lib::lemma_concat_associative;

use crate::caps::{Cap, Color};

verus! {

/// One item of output: text written as it is, or a capability that the
/// terminal's capability source turns into its escape sequence.
#[derive(Clone, Debug, PartialEq, Eq)]
pub enum Out {
    Text(String),
    Cap(Cap),
}

/// What an item of output stands for.
pub enum Piece {
    Text(Seq<char>),
    Cap(Cap),
}

/// What an item of output stands for.
pub open spec fn piece(o: Out) -> Piece {
    match o {
        Out::Text(s) => Piece::Text(s@),
        Out::Cap(c) => Piece::Cap(c),
    }
}

/// What a sequence of output items stands for.
pub open spec fn pieces(v: Seq<Out>) -> Seq<Piece> {
    v.map_values(|o: Out| piece(o))
}

/// The display attributes currently in effect on the terminal.
#[derive(Clone, Copy, Debug, PartialEq, Eq, Structural)]
pub struct AttrState {
    pub fg: Option<Color>,
    pub bg: Option<Color>,
    pub underline: bool,
    pub standout: bool,
    pub reverse: bool,
    pub bold: bool,
    pub blink: bool,
}

/// The terminal's assumed power-on state: no color set, no attribute on.
pub open spec fn plain() -> AttrState {
    AttrState {
        fg: None,
        bg: None,
        underline: false,
        standout: false,
        reverse: false,
        bold: false,
        blink: false,
    }
}

impl AttrState {
    /// No color set and no attribute on.
    pub fn new() -> (r: AttrState)
        ensures
            r == plain(),
    {
        AttrState {
            fg: None,
            bg: None,
            underline: false,
            standout: false,
            reverse: false,
            bold: false,
            blink: false,
        }
    }
}

/// The one-item output `c` when `b` holds, else nothing.
pub open spec fn cap_if(b: bool, c: Cap) -> Seq<Piece> {
    if b {
        seq![Piece::Cap(c)]
    } else {
        Seq::empty()
    }
}

/// The one-item output of a capability, if there is one.
pub open spec fn cap_opt(c: Option<Cap>) -> Seq<Piece> {
    match c {
        Some(c) => seq![Piece::Cap(c)],
        None => Seq::empty(),
    }
}

/// The capability that sets the foreground color of `s`, if it has one.
pub open spec fn fg_cap(s: AttrState) -> Option<Cap> {
    match s.fg {
        Some(c) => Some(Cap::SetAForeground(c)),
        None => None,
    }
}

/// The capability that sets the background color of `s`, if it has one.
pub open spec fn bg_cap(s: AttrState) -> Option<Cap> {
    match s.bg {
        Some(c) => Some(Cap::SetABackground(c)),
        None => None,
    }
}

/// Reset every attribute, then re-establish those of `s`, in the order
/// foreground, background, underline, standout, reverse, bold, blink.
pub open spec fn reset_and_reapply(s: AttrState) -> Seq<Piece> {
    seq![Piece::Cap(Cap::ExitAttributeMode)] + cap_opt(fg_cap(s)) + cap_opt(bg_cap(s))
        + cap_if(s.underline, Cap::EnterUnderlineMode) + cap_if(s.standout, Cap::EnterStandoutMode)
        + cap_if(s.reverse, Cap::EnterReverseMode) + cap_if(s.bold, Cap::EnterBoldMode) + cap_if(
        s.blink,
        Cap::EnterBlinkMode,
    )
}

/// The output of switching an attribute that has its own enable and disable
/// capabilities from `on` to `enabled`.
pub open spec fn switch_out(on: bool, enabled: bool, enter: Cap, exit: Cap) -> Seq<Piece> {
    if on == enabled {
        Seq::empty()
    } else if enabled {
        seq![Piece::Cap(enter)]
    } else {
        seq![Piece::Cap(exit)]
    }
}

/// The output of switching an attribute that can only be disabled by
/// resetting all of them from `on` to `enabled`, `after` being the attributes
/// wanted afterwards.
pub open spec fn sticky_out(on: bool, enabled: bool, enter: Cap, after: AttrState) -> Seq<Piece> {
    if on == enabled {
        Seq::empty()
    } else if enabled {
        seq![Piece::Cap(enter)]
    } else {
        reset_and_reapply(after)
    }
}

/// Attributes and output after asking for the foreground color `c`.
pub open spec fn fg_step(s: AttrState, c: Color) -> (AttrState, Seq<Piece>) {
    (
        AttrState { fg: Some(c), ..s },
        if s.fg == Some(c) {
            Seq::empty()
        } else {
            seq![Piece::Cap(Cap::SetAForeground(c))]
        },
    )
}

/// Attributes and output after asking for the background color `c`.
pub open spec fn bg_step(s: AttrState, c: Color) -> (AttrState, Seq<Piece>) {
    (
        AttrState { bg: Some(c), ..s },
        if s.bg == Some(c) {
            Seq::empty()
        } else {
            seq![Piece::Cap(Cap::SetABackground(c))]
        },
    )
}

/// Attributes and output after resetting the colors.
pub open spec fn reset_color_step(s: AttrState) -> (AttrState, Seq<Piece>) {
    (AttrState { fg: None, bg: None, ..s }, seq![Piece::Cap(Cap::OrigPair)])
}

/// Attributes and output after asking for underline mode on or off.
pub open spec fn underline_step(s: AttrState, enabled: bool) -> (AttrState, Seq<Piece>) {
    (
        AttrState { underline: enabled, ..s },
        switch_out(s.underline, enabled, Cap::EnterUnderlineMode, Cap::ExitUnderlineMode),
    )
}

/// Attributes and output after asking for standout mode on or off.
pub open spec fn standout_step(s: AttrState, enabled: bool) -> (AttrState, Seq<Piece>) {
    (
        AttrState { standout: enabled, ..s },
        switch_out(s.standout, enabled, Cap::EnterStandoutMode, Cap::ExitStandoutMode),
    )
}

/// Attributes and output after asking for reverse mode on or off.
pub open spec fn reverse_step(s: AttrState, enabled: bool) -> (AttrState, Seq<Piece>) {
    let t = AttrState { reverse: enabled, ..s };
    (t, sticky_out(s.reverse, enabled, Cap::EnterReverseMode, t))
}

/// Attributes and output after asking for bold mode on or off.
pub open spec fn bold_step(s: AttrState, enabled: bool) -> (AttrState, Seq<Piece>) {
    let t = AttrState { bold: enabled, ..s };
    (t, sticky_out(s.bold, enabled, Cap::EnterBoldMode, t))
}

/// Attributes and output after asking for blink mode on or off.
pub open spec fn blink_step(s: AttrState, enabled: bool) -> (AttrState, Seq<Piece>) {
    let t = AttrState { blink: enabled, ..s };
    (t, sticky_out(s.blink, enabled, Cap::EnterBlinkMode, t))
}

/// Output buffer and attribute tracker.
pub struct TermWriter {
    buf: Vec<Out>,
    state: AttrState,
}

impl TermWriter {
    /// The output buffered since the last flush.
    pub closed spec fn output(&self) -> Seq<Piece> {
        pieces(self.buf@)
    }

    /// The attributes in effect once the buffered output is written.
    pub closed spec fn attrs(&self) -> AttrState {
        self.state
    }

    /// A writer with nothing buffered and plain attributes.
    pub fn new() -> (r: TermWriter)
        ensures
            r.output() == Seq::<Piece>::empty(),
            r.attrs() == plain(),
    {
        let r = TermWriter { buf: Vec::new(), state: AttrState::new() };
        assert(r.output() =~= Seq::<Piece>::empty());
        r
    }

    /// Buffers the capability `c`.
    pub(crate) fn emit_cap(&mut self, c: Cap)
        ensures
            final(self).output() == old(self).output().push(Piece::Cap(c)),
            final(self).attrs() == old(self).attrs(),
    {
        self.buf.push(Out::Cap(c));
        assert(self.output() =~= old(self).output().push(Piece::Cap(c)));
    }

    /// Clears the screen.
    pub fn clear(&mut self)
        ensures
            final(self).output() == old(self).output().push(Piece::Cap(Cap::ClearScreen)),
            final(self).attrs() == old(self).attrs(),
    {
        self.emit_cap(Cap::ClearScreen);
    }

    /// Moves the cursor to (`col`, `row`); the top left corner has its own
    /// capability.
    pub fn move_cursor(&mut self, col: usize, row: usize)
        ensures
            final(self).output() == old(self).output().push(
                Piece::Cap(
                    if col == 0 && row == 0 {
                        Cap::CursorHome
                    } else {
                        Cap::CursorAddress(row, col)
                    },
                ),
            ),
            final(self).attrs() == old(self).attrs(),
    {
        if col == 0 && row == 0 {
            self.emit_cap(Cap::CursorHome);
        } else {
            self.emit_cap(Cap::CursorAddress(row, col));
        }
    }

    /// Scrolls the text up by `lines`.
    pub fn scroll_forward(&mut self, lines: usize)
        ensures
            final(self).output() == old(self).output().push(
                Piece::Cap(
                    if lines == 1 {
                        Cap::ScrollForward
                    } else {
                        Cap::ScrollForwardMultiple(lines)
                    },
                ),
            ),
            final(self).attrs() == old(self).attrs(),
    {
        if lines == 1 {
            self.emit_cap(Cap::ScrollForward);
        } else {
            self.emit_cap(Cap::ScrollForwardMultiple(lines));
        }
    }

    /// Scrolls the text down by `lines`.
    pub fn scroll_reverse(&mut self, lines: usize)
        ensures
            final(self).output() == old(self).output().push(
                Piece::Cap(
                    if lines == 1 {
                        Cap::ScrollReverse
                    } else {
                        Cap::ScrollReverseMultiple(lines)
                    },
                ),
            ),
            final(self).attrs() == old(self).attrs(),
    {
        if lines == 1 {
            self.emit_cap(Cap::ScrollReverse);
        } else {
            self.emit_cap(Cap::ScrollReverseMultiple(lines));
        }
    }

    /// Sets the foreground color, unless it is already `color`.
    pub fn fg_color(&mut self, color: Color)
        ensures
            final(self).attrs() == fg_step(old(self).attrs(), color).0,
            final(self).output() == old(self).output() + fg_step(old(self).attrs(), color).1,
    {
        if self.state.fg != Some(color) {
            self.state.fg = Some(color);
            self.emit_cap(Cap::SetAForeground(color));
        }
    }

    /// Sets the background color, unless it is already `color`.
    pub fn bg_color(&mut self, color: Color)
        ensures
            final(self).attrs() == bg_step(old(self).attrs(), color).0,
            final(self).output() == old(self).output() + bg_step(old(self).attrs(), color).1,
    {
        if self.state.bg != Some(color) {
            self.state.bg = Some(color);
            self.emit_cap(Cap::SetABackground(color));
        }
    }

    /// Turns underline mode on or off, unless it already is.
    pub fn underline(&mut self, enabled: bool)
        ensures
            final(self).attrs() == underline_step(old(self).attrs(), enabled).0,
            final(self).output() == old(self).output() + underline_step(old(self).attrs(), enabled).1,
    {
        if self.state.underline != enabled {
            self.state.underline = enabled;
            if enabled {
                self.emit_cap(Cap::EnterUnderlineMode);
            } else {
                self.emit_cap(Cap::ExitUnderlineMode);
            }
        }
        assert(self.output() =~= old(self).output() + underline_step(old(self).attrs(), enabled).1);
    }

    /// Turns standout mode on or off, unless it already is.
    pub fn standout(&mut self, enabled: bool)
        ensures
            final(self).attrs() == standout_step(old(self).attrs(), enabled).0,
            final(self).output() == old(self).output() + standout_step(old(self).attrs(), enabled).1,
    {
        if self.state.standout != enabled {
            self.state.standout = enabled;
            if enabled {
                self.emit_cap(Cap::EnterStandoutMode);
            } else {
                self.emit_cap(Cap::ExitStandoutMode);
            }
        }
        assert(self.output() =~= old(self).output() + standout_step(old(self).attrs(), enabled).1);
    }

    /// Turns reverse mode on or off, unless it already is. Turning it off
    /// resets all attributes and re-establishes the others.
    pub fn reverse(&mut self, enabled: bool)
        ensures
            final(self).attrs() == reverse_step(old(self).attrs(), enabled).0,
            final(self).output() == old(self).output() + reverse_step(old(self).attrs(), enabled).1,
    {
        if self.state.reverse != enabled {
            self.state.reverse = enabled;
            if enabled {
                self.emit_cap(Cap::EnterReverseMode);
            } else {
                self.apply_state();
            }
        }
        assert(self.output() =~= old(self).output() + reverse_step(old(self).attrs(), enabled).1);
    }

    /// Turns bold mode on or off, unless it already is. Turning it off resets
    /// all attributes and re-establishes the others.
    pub fn bold(&mut self, enabled: bool)
        ensures
            final(self).attrs() == bold_step(old(self).attrs(), enabled).0,
            final(self).output() == old(self).output() + bold_step(old(self).attrs(), enabled).1,
    {
        if self.state.bold != enabled {
            self.state.bold = enabled;
            if enabled {
                self.emit_cap(Cap::EnterBoldMode);
            } else {
                self.apply_state();
            }
        }
        assert(self.output() =~= old(self).output() + bold_step(old(self).attrs(), enabled).1);
    }

    /// Turns blink mode on or off, unless it already is. Turning it off resets
    /// all attributes and re-establishes the others.
    pub fn blink(&mut self, enabled: bool)
        ensures
            final(self).attrs() == blink_step(old(self).attrs(), enabled).0,
            final(self).output() == old(self).output() + blink_step(old(self).attrs(), enabled).1,
    {
        if self.state.blink != enabled {
            self.state.blink = enabled;
            if enabled {
                self.emit_cap(Cap::EnterBlinkMode);
            } else {
                self.apply_state();
            }
        }
        assert(self.output() =~= old(self).output() + blink_step(old(self).attrs(), enabled).1);
    }

    /// Resets both colors to the terminal's defaults.
    pub fn reset_color(&mut self)
        ensures
            final(self).attrs() == reset_color_step(old(self).attrs()).0,
            final(self).output() == old(self).output() + reset_color_step(old(self).attrs()).1,
    {
        self.state.fg = None;
        self.state.bg = None;
        self.emit_cap(Cap::OrigPair);
    }

    /// Turns every attribute and color off.
    pub fn reset_attributes(&mut self)
        ensures
            final(self).attrs() == plain(),
            final(self).output() == old(self).output().push(Piece::Cap(Cap::ExitAttributeMode)),
    {
        self.state = AttrState::new();
        self.apply_state();
        assert(reset_and_reapply(plain()) =~= seq![Piece::Cap(Cap::ExitAttributeMode)]);
        assert(self.output() =~= old(self).output().push(Piece::Cap(Cap::ExitAttributeMode)));
    }

    /// Resets all attributes on the terminal, then re-establishes the tracked
    /// ones.
    pub fn apply_state(&mut self)
        ensures
            final(self).attrs() == old(self).attrs(),
            final(self).output() == old(self).output() + reset_and_reapply(old(self).attrs()),
    {
        let s = self.state;
        let ghost o = self.output();
        self.emit_some(Some(Cap::ExitAttributeMode));
        let fg = match s.fg {
            Some(c) => Some(Cap::SetAForeground(c)),
            None => None,
        };
        self.emit_some(fg);
        let bg = match s.bg {
            Some(c) => Some(Cap::SetABackground(c)),
            None => None,
        };
        self.emit_some(bg);
        self.emit_some(if s.underline { Some(Cap::EnterUnderlineMode) } else { None });
        self.emit_some(if s.standout { Some(Cap::EnterStandoutMode) } else { None });
        self.emit_some(if s.reverse { Some(Cap::EnterReverseMode) } else { None });
        self.emit_some(if s.bold { Some(Cap::EnterBoldMode) } else { None });
        self.emit_some(if s.blink { Some(Cap::EnterBlinkMode) } else { None });
        proof {
            let p0 = seq![Piece::Cap(Cap::ExitAttributeMode)];
            let p1 = p0 + cap_opt(fg_cap(s));
            let p2 = p1 + cap_opt(bg_cap(s));
            let p3 = p2 + cap_if(s.underline, Cap::EnterUnderlineMode);
            let p4 = p3 + cap_if(s.standout, Cap::EnterStandoutMode);
            let p5 = p4 + cap_if(s.reverse, Cap::EnterReverseMode);
            let p6 = p5 + cap_if(s.bold, Cap::EnterBoldMode);
            lemma_concat_associative(o, p0, cap_opt(fg_cap(s)));
            lemma_concat_associative(o, p1, cap_opt(bg_cap(s)));
            lemma_concat_associative(o, p2, cap_if(s.underline, Cap::EnterUnderlineMode));
            lemma_concat_associative(o, p3, cap_if(s.standout, Cap::EnterStandoutMode));
            lemma_concat_associative(o, p4, cap_if(s.reverse, Cap::EnterReverseMode));
            lemma_concat_associative(o, p5, cap_if(s.bold, Cap::EnterBoldMode));
            lemma_concat_associative(o, p6, cap_if(s.blink, Cap::EnterBlinkMode));
        }
    }

    /// Buffers the capability `c`, if there is one.
    fn emit_some(&mut self, c: Option<Cap>)
        ensures
            final(self).output() == old(self).output() + cap_opt(c),
            final(self).attrs() == old(self).attrs(),
    {
        match c {
            Some(c) => self.emit_cap(c),
            None => {},
        }
        assert(self.output() =~= old(self).output() + cap_opt(c));
    }

    /// Makes the cursor visible or invisible.
    pub fn cursor(&mut self, visible: bool)
        ensures
            final(self).attrs() == old(self).attrs(),
            final(self).output() == old(self).output().push(
                Piece::Cap(
                    if visible {
                        Cap::CursorNormal
                    } else {
                        Cap::CursorInvisible
                    },
                ),
            ),
    {
        if visible {
            self.emit_cap(Cap::CursorNormal);
        } else {
            self.emit_cap(Cap::CursorInvisible);
        }
    }

    /// Switches to or from the alternate screen.
    pub fn alternate_screen(&mut self, enabled: bool)
        ensures
            final(self).attrs() == old(self).attrs(),
            final(self).output() == old(self).output().push(
                Piece::Cap(
                    if enabled {
                        Cap::EnterCaMode
                    } else {
                        Cap::ExitCaMode
                    },
                ),
            ),
    {
        if enabled {
            self.emit_cap(Cap::EnterCaMode);
        } else {
            self.emit_cap(Cap::ExitCaMode);
        }
    }

    /// Buffers `text` to be written as it is.
    pub fn write(&mut self, text: &str)
        ensures
            final(self).attrs() == old(self).attrs(),
            final(self).output() == old(self).output().push(Piece::Text(text@)),
    {
        self.buf.push(Out::Text(String::from_str(text)));
        assert(self.output() =~= old(self).output().push(Piece::Text(text@)));
    }

    /// Hands over the buffered output, to be written to the terminal in one
    /// go, and empties the buffer.
    pub fn flush(&mut self) -> (r: Vec<Out>)
        ensures
            pieces(r@) == old(self).output(),
            final(self).output() == Seq::<Piece>::empty(),
            final(self).attrs() == old(self).attrs(),
    {
        let mut r = Vec::new();
        core::mem::swap(&mut r, &mut self.buf);
        assert(self.output() =~= Seq::<Piece>::empty());
        r
    }
}

/// Asking twice in a row for underline mode emits its enable capability at
/// most once: the second request emits nothing, and from a state without
/// underline the two emit exactly the enable capability.
pub proof fn lemma_underline_idempotent(s: AttrState)
    ensures
        underline_step(underline_step(s, true).0, true).1 == Seq::<Piece>::empty(),
        underline_step(underline_step(s, true).0, true).0 == underline_step(s, true).0,
        !s.underline ==> underline_step(s, true).1 + underline_step(
            underline_step(s, true).0,
            true,
        ).1 == seq![Piece::Cap(Cap::EnterUnderlineMode)],
{
    assert(seq![Piece::Cap(Cap::EnterUnderlineMode)] + Seq::<Piece>::empty() =~= seq![
        Piece::Cap(Cap::EnterUnderlineMode),
    ]);
}

/// Turning bold on and then off again, from a state without bold, emits the
/// bold capability and then a reset that re-establishes the other attributes
/// and does not turn bold on again; the attributes end as they began.
pub proof fn lemma_bold_on_off(s: AttrState)
    requires
        !s.bold,
    ensures
        bold_step(s, true).1 == seq![Piece::Cap(Cap::EnterBoldMode)],
        bold_step(bold_step(s, true).0, false).1 == reset_and_reapply(s),
        !reset_and_reapply(s).contains(Piece::Cap(Cap::EnterBoldMode)),
        bold_step(bold_step(s, true).0, false).0 == s,
{
    let t = bold_step(s, true).0;
    assert(AttrState { bold: false, ..t } == s);
    let r = reset_and_reapply(s);
    if r.contains(Piece::Cap(Cap::EnterBoldMode)) {
        let i = choose|i: int| 0 <= i < r.len() && r[i] == Piece::Cap(Cap::EnterBoldMode);
        let p0 = seq![Piece::Cap(Cap::ExitAttributeMode)];
        let p1 = p0 + cap_opt(fg_cap(s));
        let p2 = p1 + cap_opt(bg_cap(s));
        let p3 = p2 + cap_if(s.underline, Cap::EnterUnderlineMode);
        let p4 = p3 + cap_if(s.standout, Cap::EnterStandoutMode);
        let p5 = p4 + cap_if(s.reverse, Cap::EnterReverseMode);
        let p6 = p5 + cap_if(s.bold, Cap::EnterBoldMode);
        assert(p6 =~= p5);
        assert(forall|j: int| 0 <= j < p5.len() ==> p5[j] != Piece::Cap(Cap::EnterBoldMode));
        assert(r[i] != Piece::Cap(Cap::EnterBoldMode));
    }
}

/// After a foreground color and a color reset, the foreground is unset, and
/// asking for the same color again emits its capability again.
pub proof fn lemma_color_round_trip(s: AttrState, c: Color)
    ensures
        reset_color_step(fg_step(s, c).0).0.fg == None::<Color>,
        fg_step(reset_color_step(fg_step(s, c).0).0, c).1 == seq![
            Piece::Cap(Cap::SetAForeground(c)),
        ],
{
}

} // verus!
