use termutils::reader::WAIT_FOREVER;
use termutils::{ByteRead, Cap, Color, KeySequences, Keypress, Out, ReadStep, Term, TermWriter};

fn caps(v: &[Cap]) -> Vec<Out> {
    v.iter().map(|c| Out::Cap(*c)).collect()
}

fn no_keys() -> KeySequences {
    KeySequences {
        backspace: None,
        enter: None,
        tab: None,
        up: None,
        down: None,
        left: None,
        right: None,
        home: None,
        end: None,
        insert: None,
        delete: None,
        function: Vec::new(),
    }
}

#[test]
fn underline_twice_emits_once() {
    let mut w = TermWriter::new();
    w.underline(true);
    w.underline(true);
    assert_eq!(w.flush(), caps(&[Cap::EnterUnderlineMode]));
    w.underline(false);
    w.underline(false);
    assert_eq!(w.flush(), caps(&[Cap::ExitUnderlineMode]));
}

#[test]
fn standout_switches() {
    let mut w = TermWriter::new();
    w.standout(false);
    w.standout(true);
    w.standout(false);
    assert_eq!(w.flush(), caps(&[Cap::EnterStandoutMode, Cap::ExitStandoutMode]));
}

#[test]
fn bold_off_resets_and_reapplies() {
    let mut w = TermWriter::new();
    w.bold(true);
    w.bold(false);
    assert_eq!(w.flush(), caps(&[Cap::EnterBoldMode, Cap::ExitAttributeMode]));
}

#[test]
fn reverse_off_reapplies_the_rest_in_order() {
    let mut w = TermWriter::new();
    w.blink(true);
    w.underline(true);
    w.bg_color(Color::ColorBlue);
    w.fg_color(Color::ColorRed);
    w.reverse(true);
    w.standout(true);
    w.bold(true);
    w.flush();
    w.reverse(false);
    assert_eq!(
        w.flush(),
        caps(&[
            Cap::ExitAttributeMode,
            Cap::SetAForeground(Color::ColorRed),
            Cap::SetABackground(Color::ColorBlue),
            Cap::EnterUnderlineMode,
            Cap::EnterStandoutMode,
            Cap::EnterBoldMode,
            Cap::EnterBlinkMode,
        ])
    );
}

#[test]
fn blink_off_keeps_colors() {
    let mut w = TermWriter::new();
    w.fg_color(Color::ColorGreen);
    w.blink(true);
    w.blink(false);
    assert_eq!(
        w.flush(),
        caps(&[
            Cap::SetAForeground(Color::ColorGreen),
            Cap::EnterBlinkMode,
            Cap::ExitAttributeMode,
            Cap::SetAForeground(Color::ColorGreen),
        ])
    );
}

#[test]
fn color_round_trip() {
    let mut w = TermWriter::new();
    w.fg_color(Color::ColorRed);
    w.fg_color(Color::ColorRed);
    w.reset_color();
    w.fg_color(Color::ColorRed);
    assert_eq!(
        w.flush(),
        caps(&[
            Cap::SetAForeground(Color::ColorRed),
            Cap::OrigPair,
            Cap::SetAForeground(Color::ColorRed),
        ])
    );
}

#[test]
fn background_changes_only_when_different() {
    let mut w = TermWriter::new();
    w.bg_color(Color::ColorCyan);
    w.bg_color(Color::ColorCyan);
    w.bg_color(Color::ColorWhite);
    assert_eq!(
        w.flush(),
        caps(&[Cap::SetABackground(Color::ColorCyan), Cap::SetABackground(Color::ColorWhite)])
    );
}

#[test]
fn reset_attributes_forgets_everything() {
    let mut w = TermWriter::new();
    w.fg_color(Color::ColorYellow);
    w.bold(true);
    w.reset_attributes();
    w.bold(true);
    w.fg_color(Color::ColorYellow);
    assert_eq!(
        w.flush(),
        caps(&[
            Cap::SetAForeground(Color::ColorYellow),
            Cap::EnterBoldMode,
            Cap::ExitAttributeMode,
            Cap::EnterBoldMode,
            Cap::SetAForeground(Color::ColorYellow),
        ])
    );
}

#[test]
fn apply_state_reemits_tracked_attributes() {
    let mut w = TermWriter::new();
    w.bg_color(Color::ColorMagenta);
    w.underline(true);
    w.flush();
    w.apply_state();
    assert_eq!(
        w.flush(),
        caps(&[
            Cap::ExitAttributeMode,
            Cap::SetABackground(Color::ColorMagenta),
            Cap::EnterUnderlineMode,
        ])
    );
}

#[test]
fn cursor_motion_and_scrolling() {
    let mut w = TermWriter::new();
    w.move_cursor(0, 0);
    w.move_cursor(3, 5);
    w.move_cursor(0, 7);
    w.scroll_forward(1);
    w.scroll_forward(3);
    w.scroll_reverse(1);
    w.scroll_reverse(0);
    assert_eq!(
        w.flush(),
        caps(&[
            Cap::CursorHome,
            Cap::CursorAddress(5, 3),
            Cap::CursorAddress(7, 0),
            Cap::ScrollForward,
            Cap::ScrollForwardMultiple(3),
            Cap::ScrollReverse,
            Cap::ScrollReverseMultiple(0),
        ])
    );
}

#[test]
fn screen_modes_and_text() {
    let mut w = TermWriter::new();
    w.clear();
    w.cursor(false);
    w.cursor(true);
    w.alternate_screen(true);
    w.write("hello");
    w.alternate_screen(false);
    assert_eq!(
        w.flush(),
        vec![
            Out::Cap(Cap::ClearScreen),
            Out::Cap(Cap::CursorInvisible),
            Out::Cap(Cap::CursorNormal),
            Out::Cap(Cap::EnterCaMode),
            Out::Text("hello".to_string()),
            Out::Cap(Cap::ExitCaMode),
        ]
    );
    assert_eq!(w.flush(), Vec::new());
}

#[test]
fn capability_names_and_parameters() {
    assert_eq!(Cap::CursorAddress(5, 3).name(), "cup");
    assert_eq!(Cap::CursorAddress(5, 3).params(), vec![5, 3]);
    assert_eq!(Cap::SetAForeground(Color::ColorRed).name(), "setaf");
    assert_eq!(Cap::SetAForeground(Color::ColorRed).params(), vec![1]);
    assert_eq!(Cap::SetABackground(Color::ColorWhite).params(), vec![7]);
    assert_eq!(Cap::ScrollForwardMultiple(4).name(), "indn");
    assert_eq!(Cap::ScrollReverseMultiple(4).params(), vec![4]);
    assert_eq!(Cap::ExitAttributeMode.name(), "sgr0");
    assert_eq!(Cap::OrigPair.name(), "op");
    assert_eq!(Cap::KeypadXmit.name(), "smkx");
    assert_eq!(Cap::CursorHome.params(), Vec::<usize>::new());
    assert_eq!(Color::ColorBlack.number(), 0);
    assert_eq!(Color::ColorCyan.number(), 6);
}

#[test]
fn session_init_and_read_flushes() {
    let mut keys = no_keys();
    keys.up = Some(b"\x1b[A".to_vec());
    let mut t = Term::new(&keys);
    t.write("x");
    assert_eq!(
        t.init_term_app(),
        vec![
            Out::Text("x".to_string()),
            Out::Cap(Cap::KeypadXmit),
            Out::Cap(Cap::EnterCaMode),
            Out::Cap(Cap::ClearScreen),
        ]
    );
    t.bold(true);
    t.move_cursor(1, 2);
    let (out, step) = t.read();
    assert_eq!(out, caps(&[Cap::EnterBoldMode, Cap::CursorAddress(2, 1)]));
    assert_eq!(step, ReadStep::NeedByte(WAIT_FOREVER));
    assert!(t.waiting());
    t.feed(ByteRead::Byte(0x1b));
    t.feed(ByteRead::Byte(b'['));
    assert_eq!(t.feed(ByteRead::Byte(b'A')), ReadStep::Done(Some(Keypress::KeyUp)));
    t.bold(true);
    assert_eq!(t.flush(), Vec::new());
}

#[test]
fn session_attribute_calls() {
    let mut t = Term::new(&no_keys());
    t.underline(true);
    t.standout(true);
    t.reverse(true);
    t.blink(true);
    t.fg_color(Color::ColorRed);
    t.bg_color(Color::ColorBlack);
    t.reset_color();
    t.cursor(true);
    t.alternate_screen(true);
    t.clear();
    t.scroll_forward(2);
    t.scroll_reverse(1);
    assert_eq!(
        t.flush(),
        caps(&[
            Cap::EnterUnderlineMode,
            Cap::EnterStandoutMode,
            Cap::EnterReverseMode,
            Cap::EnterBlinkMode,
            Cap::SetAForeground(Color::ColorRed),
            Cap::SetABackground(Color::ColorBlack),
            Cap::OrigPair,
            Cap::CursorNormal,
            Cap::EnterCaMode,
            Cap::ClearScreen,
            Cap::ScrollForwardMultiple(2),
            Cap::ScrollReverse,
        ])
    );
    t.bold(false);
    assert_eq!(t.flush(), Vec::new());
}
