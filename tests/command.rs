use doclookup::command::{Allow, Cmd};

#[test]
fn parses_commands() {
    assert!(matches!(Cmd::parse(""), Cmd::Empty));
    assert!(matches!(Cmd::parse("lup serde"), Cmd::Lookup(ref n) if n == "serde"));
    assert!(matches!(Cmd::parse("doc Value"), Cmd::Doc(ref n) if n == "Value"));
    assert!(matches!(Cmd::parse("rc"), Cmd::RefreshCache));
    assert!(matches!(Cmd::parse("rc now"), Cmd::RefreshCache));
    assert!(matches!(Cmd::parse("quit"), Cmd::Unknown(ref n) if n == "quit"));
    assert!(matches!(Cmd::parse(" lup"), Cmd::Unknown(ref n) if n.is_empty()));
}

#[test]
fn rejects_wrong_word_counts() {
    assert!(matches!(Cmd::parse("lup"), Cmd::InvalidUsage(ref m) if m == "lookup command must be length 2"));
    assert!(matches!(Cmd::parse("lup a b"), Cmd::InvalidUsage(ref m) if m == "lookup command must be length 2"));
    assert!(matches!(Cmd::parse("doc  x"), Cmd::InvalidUsage(ref m) if m == "doc command must be length 2"));
    assert!(matches!(Cmd::parse("doc"), Cmd::InvalidUsage(ref m) if m == "doc command must be length 2"));
}

#[test]
fn reads_answers() {
    for yes in ["y", "Y", "yes", "Yes", "YES"] {
        assert_eq!(Allow::from(yes), Allow::Yes);
        assert_eq!(Allow::from(yes.to_owned()), Allow::Yes);
    }
    for no in ["n", "", "yES", "yes ", "no"] {
        assert_eq!(Allow::parse(no), Allow::No);
    }
}
