use termutils::reader::{CONTINUATION_TIMEOUT, WAIT_FOREVER};
use termutils::{build_escapes_trie, ByteRead, KeySequences, Keypress, PrefixTable, ReadStep, TermReader};

fn escape_table() -> PrefixTable {
    let mut t = PrefixTable::new();
    t.insert(b"\x1b", Keypress::KeyEscape);
    t.insert(b"\x1b[A", Keypress::KeyUp);
    t
}

/// Runs one whole read, answering the decoder's requests from `input`; once
/// `input` is used up, a bounded read times out and an unbounded one ends.
fn read_from(r: &mut TermReader, input: &mut Vec<u8>) -> Option<Keypress> {
    let mut step = r.read();
    loop {
        match step {
            ReadStep::Done(k) => return k,
            ReadStep::NeedByte(timeout) => {
                let ev = if !input.is_empty() {
                    ByteRead::Byte(input.remove(0))
                } else if timeout == WAIT_FOREVER {
                    ByteRead::Ended
                } else {
                    ByteRead::TimedOut
                };
                step = r.feed(ev);
            }
        }
    }
}

fn no_keys() -> KeySequences {
    KeySequences {
        backspace: None,
        enter: None,
        tab: None,
        up: None,
        down: None,
        left: None,
        right: None,
        home: None,
        end: None,
        insert: None,
        delete: None,
        function: Vec::new(),
    }
}

#[test]
fn lone_escape_after_timeout() {
    let mut r = TermReader::new(escape_table());
    assert_eq!(r.read(), ReadStep::NeedByte(WAIT_FOREVER));
    assert_eq!(r.feed(ByteRead::Byte(0x1b)), ReadStep::NeedByte(CONTINUATION_TIMEOUT));
    assert_eq!(r.feed(ByteRead::TimedOut), ReadStep::Done(Some(Keypress::KeyEscape)));
    assert!(!r.waiting());
}

#[test]
fn arrow_sequence_is_one_key() {
    let mut r = TermReader::new(escape_table());
    assert_eq!(r.read(), ReadStep::NeedByte(-1));
    assert_eq!(r.feed(ByteRead::Byte(0x1b)), ReadStep::NeedByte(1000000));
    assert_eq!(r.feed(ByteRead::Byte(b'[')), ReadStep::NeedByte(1000000));
    assert_eq!(r.feed(ByteRead::Byte(b'A')), ReadStep::Done(Some(Keypress::KeyUp)));
}

#[test]
fn plain_character_fallback() {
    let mut r = TermReader::new(PrefixTable::new());
    assert_eq!(r.read(), ReadStep::NeedByte(WAIT_FOREVER));
    assert_eq!(r.feed(ByteRead::Byte(0x78)), ReadStep::Done(Some(Keypress::KeyCharacter('x'))));
}

#[test]
fn unresolvable_tail_is_pushed_back() {
    let mut r = TermReader::new(escape_table());
    r.read();
    r.feed(ByteRead::Byte(0x1b));
    assert_eq!(r.feed(ByteRead::Byte(b'x')), ReadStep::Done(Some(Keypress::KeyEscape)));
    // the pending 'x' is answered without asking for input
    assert_eq!(r.read(), ReadStep::Done(Some(Keypress::KeyCharacter('x'))));
    assert_eq!(r.read(), ReadStep::NeedByte(WAIT_FOREVER));
}

#[test]
fn partial_sequence_timeout_resolves_front() {
    let mut r = TermReader::new(escape_table());
    let mut input = b"\x1b[".to_vec();
    assert_eq!(read_from(&mut r, &mut input), Some(Keypress::KeyEscape));
    assert_eq!(read_from(&mut r, &mut input), Some(Keypress::KeyCharacter('[')));
    assert_eq!(read_from(&mut r, &mut input), None);
}

#[test]
fn end_of_stream_mid_sequence_acts_as_timeout() {
    let mut r = TermReader::new(escape_table());
    r.read();
    r.feed(ByteRead::Byte(0x1b));
    assert_eq!(r.feed(ByteRead::Ended), ReadStep::Done(Some(Keypress::KeyEscape)));
}

#[test]
fn first_byte_wait_is_repeated_after_timeout() {
    let mut r = TermReader::new(escape_table());
    r.read();
    assert_eq!(r.feed(ByteRead::TimedOut), ReadStep::NeedByte(WAIT_FOREVER));
    assert!(r.waiting());
    assert_eq!(r.feed(ByteRead::Ended), ReadStep::Done(None));
}

#[test]
fn empty_stream_reads_none() {
    let mut r = TermReader::new(escape_table());
    let mut input = Vec::new();
    assert_eq!(read_from(&mut r, &mut input), None);
    assert_eq!(read_from(&mut r, &mut input), None);
}

#[test]
fn finite_stream_decodes_then_ends() {
    let mut keys = no_keys();
    keys.up = Some(b"\x1b[A".to_vec());
    keys.enter = Some(b"\n".to_vec());
    let mut r = TermReader::new(build_escapes_trie(&keys));
    let mut input = b"a\x1b[A\n\x01\x1bq".to_vec();
    let mut got = Vec::new();
    while let Some(k) = read_from(&mut r, &mut input) {
        got.push(k);
        // each keypress takes at least one of the eight bytes
        assert!(got.len() <= 8);
    }
    assert_eq!(
        got,
        vec![
            Keypress::KeyCharacter('a'),
            Keypress::KeyUp,
            Keypress::KeyReturn,
            Keypress::KeyCtrl('\u{1}'),
            Keypress::KeyEscape,
            Keypress::KeyCharacter('q'),
        ]
    );
    assert!(input.is_empty());
}

#[test]
fn shortest_stored_prefix_wins_in_pending_bytes() {
    let mut t = PrefixTable::new();
    t.insert(b"ab", Keypress::KeyHome);
    t.insert(b"abc", Keypress::KeyEnd);
    t.insert(b"abcd", Keypress::KeyInsert);
    let mut r = TermReader::new(t);
    let mut input = b"abcx".to_vec();
    assert_eq!(read_from(&mut r, &mut input), Some(Keypress::KeyHome));
    assert_eq!(read_from(&mut r, &mut input), Some(Keypress::KeyCharacter('c')));
    assert_eq!(read_from(&mut r, &mut input), Some(Keypress::KeyCharacter('x')));
    assert_eq!(read_from(&mut r, &mut input), None);
}

#[test]
fn exact_sequence_without_longer_match_is_immediate() {
    let mut t = PrefixTable::new();
    t.insert(b"\x1bOP", Keypress::KeyF(1));
    let mut r = TermReader::new(t);
    r.read();
    assert_eq!(r.feed(ByteRead::Byte(0x1b)), ReadStep::NeedByte(CONTINUATION_TIMEOUT));
    assert_eq!(r.feed(ByteRead::Byte(b'O')), ReadStep::NeedByte(CONTINUATION_TIMEOUT));
    assert_eq!(r.feed(ByteRead::Byte(b'P')), ReadStep::Done(Some(Keypress::KeyF(1))));
}

#[test]
fn high_byte_is_latin1_character() {
    let mut r = TermReader::new(PrefixTable::new());
    r.read();
    assert_eq!(r.feed(ByteRead::Byte(0xe9)), ReadStep::Done(Some(Keypress::KeyCharacter('\u{e9}'))));
}
