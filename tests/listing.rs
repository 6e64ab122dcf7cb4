use lsgrid::entry::{
    collect, display_name_of, handle_entry, initial_tokens, style_of, CollectError, Color,
    EntryKind, Flags, RawEntry, RenderToken,
};

fn raw(path: &str, kind: EntryKind) -> RawEntry {
    RawEntry { path: path.to_string(), kind }
}

fn names(tokens: &[RenderToken]) -> Vec<String> {
    tokens.iter().map(|t| t.name.clone()).collect()
}

const NONE: Flags = Flags { all: false, almost_all: false };
const ALL: Flags = Flags { all: true, almost_all: false };
const ALMOST_ALL: Flags = Flags { all: false, almost_all: true };

#[test]
fn all_flag_puts_dot_entries_first() {
    let tokens = collect(&vec![raw("./foo", EntryKind::File)], ALL).unwrap();
    assert_eq!(names(&tokens), vec![".", "..", "foo"]);
    assert_eq!(tokens[0].kind, EntryKind::Directory);
    assert_eq!(tokens[1].kind, EntryKind::Directory);
    assert_eq!(tokens[2].kind, EntryKind::File);
    assert_eq!(tokens[0].style(), Color::Blue);
    assert_eq!(tokens[2].style(), Color::Green);
}

#[test]
fn empty_name_is_an_error_with_status_one() {
    let entries = vec![raw("./a", EntryKind::File), raw("./", EntryKind::File), raw("", EntryKind::File)];
    let err = collect(&entries, NONE).unwrap_err();
    assert_eq!(err, CollectError::EmptyName { index: 1 });
    assert_eq!(err.exit_code(), 1);
    assert_eq!(err.message(), "Error when trying to convert the DirectoryEntry into a String");
}

#[test]
fn empty_path_is_an_error() {
    let err = collect(&vec![raw("", EntryKind::Directory)], ALL).unwrap_err();
    assert_eq!(err, CollectError::EmptyName { index: 0 });
}

#[test]
fn hidden_entry_needs_a_flag() {
    let entries = vec![raw("./.hidden", EntryKind::File), raw("./shown", EntryKind::Directory)];
    let plain = collect(&entries, NONE).unwrap();
    assert_eq!(names(&plain), vec!["shown"]);
    let almost = collect(&entries, ALMOST_ALL).unwrap();
    assert_eq!(names(&almost), vec![".hidden", "shown"]);
    assert_eq!(almost[0].kind, EntryKind::File);
    assert_eq!(almost[1].kind, EntryKind::Directory);
    let all = collect(&entries, ALL).unwrap();
    assert_eq!(names(&all), vec![".", "..", ".hidden", "shown"]);
}

#[test]
fn hidden_directory_keeps_its_type() {
    let tokens = collect(&vec![raw("./.git", EntryKind::Directory)], ALMOST_ALL).unwrap();
    assert_eq!(names(&tokens), vec![".git"]);
    assert_eq!(tokens[0].style(), Color::Blue);
}

#[test]
fn token_count_matches_shown_entries() {
    let entries = vec![
        raw("./a", EntryKind::File),
        raw("./.b", EntryKind::File),
        raw("./c", EntryKind::Directory),
        raw("./.d", EntryKind::Directory),
    ];
    assert_eq!(collect(&entries, NONE).unwrap().len(), 2);
    assert_eq!(collect(&entries, ALMOST_ALL).unwrap().len(), 4);
    assert_eq!(collect(&entries, ALL).unwrap().len(), 6);
    let both = Flags { all: true, almost_all: true };
    assert_eq!(collect(&entries, both).unwrap().len(), 6);
}

#[test]
fn order_of_entries_is_kept() {
    let entries = vec![raw("./zeta", EntryKind::File), raw("./alpha", EntryKind::File), raw("./mid", EntryKind::Directory)];
    assert_eq!(names(&collect(&entries, NONE).unwrap()), vec!["zeta", "alpha", "mid"]);
}

#[test]
fn no_entries_give_no_tokens() {
    assert!(collect(&vec![], NONE).unwrap().is_empty());
    assert_eq!(names(&collect(&vec![], ALL).unwrap()), vec![".", ".."]);
}

#[test]
fn display_name_strips_the_dir_prefix() {
    assert_eq!(display_name_of("./foo"), "foo");
    assert_eq!(display_name_of("./.hidden"), ".hidden");
    assert_eq!(display_name_of("./ü"), "ü");
}

#[test]
fn display_name_leaves_clean_names() {
    assert_eq!(display_name_of("foo"), "foo");
    assert_eq!(display_name_of(".hidden"), ".hidden");
    assert_eq!(display_name_of("ab"), "ab");
    assert_eq!(display_name_of("x"), "x");
    let once = display_name_of("./report.md");
    assert_eq!(display_name_of(&once), once);
}

#[test]
fn handle_entry_adds_or_skips() {
    let mut tokens = initial_tokens(NONE);
    assert!(tokens.is_empty());
    assert_eq!(handle_entry("./.x", EntryKind::File, NONE, &mut tokens), Ok(()));
    assert!(tokens.is_empty());
    assert_eq!(handle_entry("./y", EntryKind::Directory, NONE, &mut tokens), Ok(()));
    assert_eq!(names(&tokens), vec!["y"]);
    assert_eq!(handle_entry("./", EntryKind::File, NONE, &mut tokens), Err(()));
    assert_eq!(tokens.len(), 1);
}

#[test]
fn styles_follow_the_kind() {
    assert_eq!(style_of(EntryKind::Directory), Color::Blue);
    assert_eq!(style_of(EntryKind::File), Color::Green);
}
