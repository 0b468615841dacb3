//! The commands and answers that an interactive session reads.
use vstd::prelude::*;
use crate::text::{chars_of, same_chars, split_chars, split_on, string_of, str_eq};

verus! {

/// A command line, split into its words.
#[derive(Debug)]
pub enum Cmd {
    /// Show where a documented item of the open subject lives.
    Doc(String),
    /// Open the documentation of a subject.
    Lookup(String),
    /// A first word that names no command.
    Unknown(String),
    /// Rebuild the local documentation cache.
    RefreshCache,
    /// An empty line.
    Empty,
    /// A known command with the wrong number of words.
    InvalidUsage(String),
}

/// An answer to a yes/no question.
#[derive(Debug, Clone, Copy, PartialEq, Eq, Structural)]
pub enum Allow {
    Yes,
    No,
}

/// The words of a command line, split at every single space.
pub open spec fn words(s: Seq<char>) -> Seq<Seq<char>> {
    split_on(s, ' ')
}

/// Whether an answer counts as a yes.
pub open spec fn is_yes(s: Seq<char>) -> bool {
    s == "y"@ || s == "Y"@ || s == "yes"@ || s == "Yes"@ || s == "YES"@
}

/// The answer that a line of text gives.
pub open spec fn allow_of(s: Seq<char>) -> Allow {
    if is_yes(s) {
        Allow::Yes
    } else {
        Allow::No
    }
}

impl Allow {
    /// Reads an answer: one of `y`, `Y`, `yes`, `Yes`, `YES` is a yes, anything
    /// else a no.
    pub fn parse(s: &str) -> (r: Allow)
        ensures
            r == allow_of(s@),
    {
        if str_eq(s, "y") || str_eq(s, "Y") || str_eq(s, "yes") || str_eq(s, "Yes") || str_eq(
            s,
            "YES",
        ) {
            Allow::Yes
        } else {
            Allow::No
        }
    }
}

impl From<&str> for Allow {
    fn from(s: &str) -> (r: Allow) {
        Allow::parse(s)
    }
}

impl vstd::std_specs::convert::FromSpecImpl<&str> for Allow {
    open spec fn obeys_from_spec() -> bool {
        true
    }

    open spec fn from_spec(s: &str) -> Allow {
        allow_of(s@)
    }
}

impl From<String> for Allow {
    fn from(s: String) -> (r: Allow) {
        Allow::parse(s.as_str())
    }
}

impl vstd::std_specs::convert::FromSpecImpl<String> for Allow {
    open spec fn obeys_from_spec() -> bool {
        true
    }

    open spec fn from_spec(s: String) -> Allow {
        allow_of(s@)
    }
}

impl Cmd {
    /// Reads a command line. An empty line is `Empty`; `lup <name>` and
    /// `doc <name>` take exactly one more word, else they are `InvalidUsage`;
    /// `rc` is `RefreshCache` whatever follows; any other first word is
    /// `Unknown`.
    pub fn parse(s: &str) -> (r: Cmd)
        ensures
            words(s@) == seq![Seq::<char>::empty()] ==> r is Empty,
            words(s@) != seq![Seq::<char>::empty()] ==> {
                let w = words(s@);
                if w[0] == "lup"@ {
                    if w.len() == 2 {
                        r is Lookup && r->Lookup_0@ == w[1]
                    } else {
                        r is InvalidUsage && r->InvalidUsage_0@
                            == "lookup command must be length 2"@
                    }
                } else if w[0] == "rc"@ {
                    r is RefreshCache
                } else if w[0] == "doc"@ {
                    if w.len() == 2 {
                        r is Doc && r->Doc_0@ == w[1]
                    } else {
                        r is InvalidUsage && r->InvalidUsage_0@ == "doc command must be length 2"@
                    }
                } else {
                    r is Unknown && r->Unknown_0@ == w[0]
                }
            },
    {
        let w = split_chars(&chars_of(s), ' ');
        proof {
            crate::text::lemma_split_nonempty(s@, ' ');
        }
        if w.len() == 1 && w[0].len() == 0 {
            assert(w@[0]@ =~= Seq::<char>::empty());
            assert(crate::text::views(w@) =~= seq![Seq::<char>::empty()]);
            return Cmd::Empty;
        }
        assert(w@[0]@ == words(s@)[0]);
        if same_chars(&w[0], &chars_of("lup")) {
            if w.len() != 2 {
                Cmd::InvalidUsage("lookup command must be length 2".to_owned())
            } else {
                assert(w@[1]@ == words(s@)[1]);
                Cmd::Lookup(string_of(&w[1]))
            }
        } else if same_chars(&w[0], &chars_of("rc")) {
            Cmd::RefreshCache
        } else if same_chars(&w[0], &chars_of("doc")) {
            if w.len() != 2 {
                Cmd::InvalidUsage("doc command must be length 2".to_owned())
            } else {
                assert(w@[1]@ == words(s@)[1]);
                Cmd::Doc(string_of(&w[1]))
            }
        } else {
            Cmd::Unknown(string_of(&w[0]))
        }
    }
}

} // verus!
