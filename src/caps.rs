//! The capabilities that the writer asks the terminal's capability source for.
use vstd::prelude::*;

verus! {

/// The default colors available on a terminal emulator.
#[derive(Clone, Copy, Debug, PartialEq, Eq, Structural)]
pub enum Color {
    ColorBlack,
    ColorRed,
    ColorGreen,
    ColorYellow,
    ColorBlue,
    ColorMagenta,
    ColorCyan,
    ColorWhite,
}

/// The color number that the color capabilities take.
pub open spec fn color_number(c: Color) -> nat {
    match c {
        Color::ColorBlack => 0,
        Color::ColorRed => 1,
        Color::ColorGreen => 2,
        Color::ColorYellow => 3,
        Color::ColorBlue => 4,
        Color::ColorMagenta => 5,
        Color::ColorCyan => 6,
        Color::ColorWhite => 7,
    }
}

impl Color {
    /// The color number that the color capabilities take.
    pub fn number(&self) -> (r: usize)
        ensures
            r == color_number(*self),
    {
        match self {
            Color::ColorBlack => 0,
            Color::ColorRed => 1,
            Color::ColorGreen => 2,
            Color::ColorYellow => 3,
            Color::ColorBlue => 4,
            Color::ColorMagenta => 5,
            Color::ColorCyan => 6,
            Color::ColorWhite => 7,
        }
    }
}

/// One request to the capability source: a capability with its parameters.
#[derive(Clone, Copy, Debug, PartialEq, Eq, Structural)]
pub enum Cap {
    /// Clear the screen.
    ClearScreen,
    /// Move the cursor to the top left corner.
    CursorHome,
    /// Move the cursor to row `.0`, column `.1`.
    CursorAddress(usize, usize),
    /// Scroll the text up one line.
    ScrollForward,
    /// Scroll the text up this many lines.
    ScrollForwardMultiple(usize),
    /// Scroll the text down one line.
    ScrollReverse,
    /// Scroll the text down this many lines.
    ScrollReverseMultiple(usize),
    /// Set the foreground color.
    SetAForeground(Color),
    /// Set the background color.
    SetABackground(Color),
    /// Reset both colors to the terminal's defaults.
    OrigPair,
    /// Reset all attributes.
    ExitAttributeMode,
    EnterUnderlineMode,
    ExitUnderlineMode,
    EnterStandoutMode,
    ExitStandoutMode,
    EnterReverseMode,
    EnterBoldMode,
    EnterBlinkMode,
    CursorInvisible,
    CursorNormal,
    /// Switch to the alternate screen.
    EnterCaMode,
    /// Switch back from the alternate screen.
    ExitCaMode,
    /// Make the keypad send its application sequences.
    KeypadXmit,
    /// Make the keypad send its normal sequences.
    KeypadLocal,
}

/// The terminfo name of a capability.
pub open spec fn cap_name(c: Cap) -> Seq<char> {
    match c {
        Cap::ClearScreen => "clear"@,
        Cap::CursorHome => "home"@,
        Cap::CursorAddress(_, _) => "cup"@,
        Cap::ScrollForward => "ind"@,
        Cap::ScrollForwardMultiple(_) => "indn"@,
        Cap::ScrollReverse => "ri"@,
        Cap::ScrollReverseMultiple(_) => "rin"@,
        Cap::SetAForeground(_) => "setaf"@,
        Cap::SetABackground(_) => "setab"@,
        Cap::OrigPair => "op"@,
        Cap::ExitAttributeMode => "sgr0"@,
        Cap::EnterUnderlineMode => "smul"@,
        Cap::ExitUnderlineMode => "rmul"@,
        Cap::EnterStandoutMode => "smso"@,
        Cap::ExitStandoutMode => "rmso"@,
        Cap::EnterReverseMode => "rev"@,
        Cap::EnterBoldMode => "bold"@,
        Cap::EnterBlinkMode => "blink"@,
        Cap::CursorInvisible => "civis"@,
        Cap::CursorNormal => "cnorm"@,
        Cap::EnterCaMode => "smcup"@,
        Cap::ExitCaMode => "rmcup"@,
        Cap::KeypadXmit => "smkx"@,
        Cap::KeypadLocal => "rmkx"@,
    }
}

/// The parameters handed to the capability, in order.
pub open spec fn cap_params(c: Cap) -> Seq<usize> {
    match c {
        Cap::CursorAddress(row, col) => seq![row, col],
        Cap::ScrollForwardMultiple(n) => seq![n],
        Cap::ScrollReverseMultiple(n) => seq![n],
        Cap::SetAForeground(color) => seq![color_number(color) as usize],
        Cap::SetABackground(color) => seq![color_number(color) as usize],
        _ => Seq::empty(),
    }
}

impl Cap {
    /// The terminfo name of the capability.
    pub fn name(&self) -> (r: &'static str)
        ensures
            r@ == cap_name(*self),
    {
        match self {
            Cap::ClearScreen => "clear",
            Cap::CursorHome => "home",
            Cap::CursorAddress(_, _) => "cup",
            Cap::ScrollForward => "ind",
            Cap::ScrollForwardMultiple(_) => "indn",
            Cap::ScrollReverse => "ri",
            Cap::ScrollReverseMultiple(_) => "rin",
            Cap::SetAForeground(_) => "setaf",
            Cap::SetABackground(_) => "setab",
            Cap::OrigPair => "op",
            Cap::ExitAttributeMode => "sgr0",
            Cap::EnterUnderlineMode => "smul",
            Cap::ExitUnderlineMode => "rmul",
            Cap::EnterStandoutMode => "smso",
            Cap::ExitStandoutMode => "rmso",
            Cap::EnterReverseMode => "rev",
            Cap::EnterBoldMode => "bold",
            Cap::EnterBlinkMode => "blink",
            Cap::CursorInvisible => "civis",
            Cap::CursorNormal => "cnorm",
            Cap::EnterCaMode => "smcup",
            Cap::ExitCaMode => "rmcup",
            Cap::KeypadXmit => "smkx",
            Cap::KeypadLocal => "rmkx",
        }
    }

    /// The parameters handed to the capability, in order.
    pub fn params(&self) -> (r: Vec<usize>)
        ensures
            r@ == cap_params(*self),
    {
        let r = match self {
            Cap::CursorAddress(row, col) => vec![*row, *col],
            Cap::ScrollForwardMultiple(n) => vec![*n],
            Cap::ScrollReverseMultiple(n) => vec![*n],
            Cap::SetAForeground(color) => vec![color.number()],
            Cap::SetABackground(color) => vec![color.number()],
            _ => Vec::new(),
        };
        assert(r@ =~= cap_params(*self));
        r
    }
}

/// The decimal digit character for `d` (below 10).
pub open spec fn digit_char(d: nat) -> char {
    (48 + d) as char
}

/// The decimal representation of `n`, without leading zeros.
pub open spec fn decimal(n: nat) -> Seq<char>
    decreases n,
{
    if n < 10 {
        seq![digit_char(n)]
    } else {
        decimal(n / 10).push(digit_char(n % 10))
    }
}

/// The one-character string of the digit `d`.
fn digit_str(d: usize) -> (r: &'static str)
    requires
        d < 10,
    ensures
        r@ == seq![digit_char(d as nat)],
{
    proof {
        reveal_strlit("0");
        reveal_strlit("1");
        reveal_strlit("2");
        reveal_strlit("3");
        reveal_strlit("4");
        reveal_strlit("5");
        reveal_strlit("6");
        reveal_strlit("7");
        reveal_strlit("8");
        reveal_strlit("9");
    }
    let r = match d {
        0 => "0",
        1 => "1",
        2 => "2",
        3 => "3",
        4 => "4",
        5 => "5",
        6 => "6",
        7 => "7",
        8 => "8",
        _ => "9",
    };
    assert(r@ =~= seq![digit_char(d as nat)]);
    r
}

/// Appends the decimal representation of `n` to `s`.
fn push_decimal(s: &mut String, n: usize)
    ensures
        final(s)@ == old(s)@ + decimal(n as nat),
    decreases n,
{
    if n >= 10 {
        push_decimal(s, n / 10);
    }
    s.append(digit_str(n % 10));
    assert(final(s)@ =~= old(s)@ + decimal(n as nat));
}

/// The name of the capability that holds the sequence of the F`n` key.
pub fn key_f(n: usize) -> (r: String)
    ensures
        r@ == "kf"@ + decimal(n as nat),
{
    let mut s = String::from_str("kf");
    push_decimal(&mut s, n);
    s
}

} // verus!
