use termutils::{build_escapes_trie, key_f, KeySequences, Keypress, PrefixTable};

fn no_keys() -> KeySequences {
    KeySequences {
        backspace: None,
        enter: None,
        tab: None,
        up: None,
        down: None,
        left: None,
        right: None,
        home: None,
        end: None,
        insert: None,
        delete: None,
        function: Vec::new(),
    }
}

#[test]
fn inserted_sequence_is_found_with_all_prefixes() {
    let mut t = PrefixTable::new();
    t.insert(b"\x1b[A", Keypress::KeyUp);
    t.insert(b"\x1b", Keypress::KeyEscape);
    assert_eq!(t.find(b"\x1b[A"), Some(Keypress::KeyUp));
    assert_eq!(t.find(b"\x1b"), Some(Keypress::KeyEscape));
    assert_eq!(t.find(b"\x1b["), None);
    assert!(t.has_prefix(b""));
    assert!(t.has_prefix(b"\x1b"));
    assert!(t.has_prefix(b"\x1b["));
    assert!(t.has_prefix(b"\x1b[A"));
    assert!(!t.has_prefix(b"\x1b[B"));
    assert!(!t.has_prefix(b"\x1b[AA"));
    assert!(t.has_longer(b"\x1b"));
    assert!(t.has_longer(b"\x1b["));
    assert!(!t.has_longer(b"\x1b[A"));
}

#[test]
fn later_insert_overwrites() {
    let mut t = PrefixTable::new();
    t.insert(b"\x7f", Keypress::KeyBackspace);
    t.insert(b"\x7f", Keypress::KeyDelete);
    assert_eq!(t.find(b"\x7f"), Some(Keypress::KeyDelete));
}

#[test]
fn empty_table_has_nothing() {
    let t = PrefixTable::new();
    assert_eq!(t.find(b"x"), None);
    assert!(!t.has_prefix(b""));
    assert!(!t.has_prefix(b"x"));
}

#[test]
fn capability_return_beats_control_key() {
    let mut keys = no_keys();
    keys.enter = Some(vec![10]);
    let t = build_escapes_trie(&keys);
    assert_eq!(t.find(&[10]), Some(Keypress::KeyReturn));
}

#[test]
fn control_bytes_escape_and_unmapped() {
    let t = build_escapes_trie(&no_keys());
    assert_eq!(t.find(&[1]), Some(Keypress::KeyCtrl('\u{1}')));
    assert_eq!(t.find(&[10]), Some(Keypress::KeyCtrl('\n')));
    assert_eq!(t.find(&[25]), Some(Keypress::KeyCtrl('\u{19}')));
    assert_eq!(t.find(&[26]), None);
    assert_eq!(t.find(&[27]), Some(Keypress::KeyEscape));
    assert_eq!(t.find(&[0]), None);
}

#[test]
fn escape_is_always_mapped_last() {
    let mut keys = no_keys();
    keys.delete = Some(vec![27]);
    let t = build_escapes_trie(&keys);
    assert_eq!(t.find(&[27]), Some(Keypress::KeyEscape));
}

#[test]
fn full_catalog() {
    let mut keys = no_keys();
    keys.backspace = Some(vec![0x7f]);
    keys.enter = Some(b"\n".to_vec());
    keys.tab = Some(b"\t".to_vec());
    keys.up = Some(b"\x1bOA".to_vec());
    keys.down = Some(b"\x1bOB".to_vec());
    keys.left = Some(b"\x1bOD".to_vec());
    keys.right = Some(b"\x1bOC".to_vec());
    keys.home = Some(b"\x1bOH".to_vec());
    keys.end = Some(b"\x1bOF".to_vec());
    keys.insert = Some(b"\x1b[2~".to_vec());
    keys.delete = Some(b"\x1b[3~".to_vec());
    keys.function = (1..=12).map(|i| Some(format!("\x1b[{}~", 10 + i).into_bytes())).collect();
    keys.function[2] = None;
    let t = build_escapes_trie(&keys);
    assert_eq!(t.find(&[0x7f]), Some(Keypress::KeyBackspace));
    assert_eq!(t.find(b"\t"), Some(Keypress::KeyTab));
    assert_eq!(t.find(&[8]), Some(Keypress::KeyCtrl('\u{8}')));
    assert_eq!(t.find(b"\x1bOA"), Some(Keypress::KeyUp));
    assert_eq!(t.find(b"\x1bOB"), Some(Keypress::KeyDown));
    assert_eq!(t.find(b"\x1bOD"), Some(Keypress::KeyLeft));
    assert_eq!(t.find(b"\x1bOC"), Some(Keypress::KeyRight));
    assert_eq!(t.find(b"\x1bOH"), Some(Keypress::KeyHome));
    assert_eq!(t.find(b"\x1bOF"), Some(Keypress::KeyEnd));
    assert_eq!(t.find(b"\x1b[2~"), Some(Keypress::KeyInsert));
    assert_eq!(t.find(b"\x1b[3~"), Some(Keypress::KeyDelete));
    assert_eq!(t.find(b"\x1b[11~"), Some(Keypress::KeyF(1)));
    assert_eq!(t.find(b"\x1b[13~"), None);
    assert_eq!(t.find(b"\x1b[21~"), Some(Keypress::KeyF(11)));
    assert_eq!(t.find(b"\x1b[22~"), None);
    assert!(t.has_prefix(b"\x1bO"));
}

#[test]
fn function_key_capability_names() {
    assert_eq!(key_f(1), "kf1");
    assert_eq!(key_f(11), "kf11");
    assert_eq!(key_f(0), "kf0");
    assert_eq!(key_f(305), "kf305");
}

#[test]
fn empty_capability_is_unsupported() {
    let mut keys = no_keys();
    keys.backspace = Some(Vec::new());
    keys.function = vec![Some(Vec::new()), Some(b"\x1bOQ".to_vec())];
    let t = build_escapes_trie(&keys);
    assert_eq!(t.find(b""), None);
    assert_eq!(t.find(b"\x1bOQ"), Some(Keypress::KeyF(2)));
    assert_eq!(t.find(&[8]), Some(Keypress::KeyCtrl('\u{8}')));
}

#[test]
fn last_capability_insertion_wins() {
    let mut keys = no_keys();
    keys.backspace = Some(b"\x1b[3~".to_vec());
    keys.delete = Some(b"\x1b[3~".to_vec());
    keys.tab = Some(vec![8]);
    let t = build_escapes_trie(&keys);
    assert_eq!(t.find(b"\x1b[3~"), Some(Keypress::KeyDelete));
    assert_eq!(t.find(&[8]), Some(Keypress::KeyTab));
}
