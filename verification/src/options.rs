//! Option tokens: `--name` for one flag, `-abc` for a cluster of one-letter flags.

use vstd::prelude::*;
use vstd::string::*;
use crate::error::{ParseError, ParseErrorKind};
use crate::text::{has_prefix, same_text, starts_with};

verus! {

/// What the program is asked to do.
#[derive(Debug, Clone, Copy, PartialEq, Eq, Structural)]
pub enum Command {
    /// Send the request.
    Request,
    /// Print the usage text.
    PrintHelp,
    /// Print the version.
    PrintVersion,
}

/// The encoding of the request body.
#[derive(Debug, Clone, Copy, PartialEq, Eq, Structural)]
pub enum ContentType {
    /// application/x-www-form-urlencoded
    Form,
    /// application/json
    Json,
    /// multipart/form-data
    Multipart,
}

/// The flags that an option token can name.
#[derive(Debug, Clone, Copy, PartialEq, Eq, Structural)]
pub enum Flag {
    Help,
    Version,
    Form,
    Multipart,
    Debug,
}

/// What the flags decide: the command and the body's encoding.
#[derive(Debug, Clone, Copy, PartialEq, Eq, Structural)]
pub struct Settings {
    pub command: Command,
    pub format: ContentType,
}

/// The settings before any flag: send a request, with a JSON body.
pub open spec fn default_settings() -> Settings {
    Settings { command: Command::Request, format: ContentType::Json }
}

/// The flag with the given one-letter name.
pub open spec fn short_flag(c: char) -> Option<Flag> {
    if c == 'h' {
        Some(Flag::Help)
    } else if c == 'v' {
        Some(Flag::Version)
    } else if c == 'f' {
        Some(Flag::Form)
    } else if c == 'm' {
        Some(Flag::Multipart)
    } else if c == 'd' {
        Some(Flag::Debug)
    } else {
        None
    }
}

/// The flag with the given long name.
pub open spec fn long_flag(name: Seq<char>) -> Option<Flag> {
    if name == "help"@ {
        Some(Flag::Help)
    } else if name == "version"@ {
        Some(Flag::Version)
    } else if name == "form"@ {
        Some(Flag::Form)
    } else if name == "multi"@ {
        Some(Flag::Multipart)
    } else if name == "debug"@ {
        Some(Flag::Debug)
    } else {
        None
    }
}

/// The settings after a flag. `Debug` is reserved and changes nothing.
pub open spec fn with_flag(settings: Settings, flag: Flag) -> Settings {
    match flag {
        Flag::Help => Settings { command: Command::PrintHelp, ..settings },
        Flag::Version => Settings { command: Command::PrintVersion, ..settings },
        Flag::Form => Settings { format: ContentType::Form, ..settings },
        Flag::Multipart => Settings { format: ContentType::Multipart, ..settings },
        Flag::Debug => settings,
    }
}

/// The settings after a cluster of one-letter flags, applied from left to
/// right, or `None` if one of the letters names no flag.
pub open spec fn with_cluster(settings: Settings, letters: Seq<char>) -> Option<Settings>
    decreases letters.len(),
{
    if letters.len() == 0 {
        Some(settings)
    } else {
        match with_cluster(settings, letters.drop_last()) {
            Some(before) => match short_flag(letters.last()) {
                Some(flag) => Some(with_flag(before, flag)),
                None => None,
            },
            None => None,
        }
    }
}

/// Whether a token is an option token.
pub open spec fn is_option(token: Seq<char>) -> bool {
    has_prefix(token, "-"@)
}

/// The settings after an option token, or `None` if it names an unknown flag.
pub open spec fn with_option(settings: Settings, token: Seq<char>) -> Option<Settings> {
    if has_prefix(token, "--"@) {
        match long_flag(token.skip(2)) {
            Some(flag) => Some(with_flag(settings, flag)),
            None => None,
        }
    } else {
        with_cluster(settings, token.skip(1))
    }
}

/// A cluster that is unknown up to some letter is unknown as a whole.
pub proof fn lemma_cluster_fails_early(settings: Settings, letters: Seq<char>, upto: int)
    requires
        0 <= upto <= letters.len(),
        with_cluster(settings, letters.take(upto)) is None,
    ensures
        with_cluster(settings, letters) is None,
    decreases letters.len() - upto,
{
    if upto < letters.len() {
        assert(letters.take(upto + 1).drop_last() =~= letters.take(upto));
        lemma_cluster_fails_early(settings, letters, upto + 1);
    } else {
        assert(letters.take(upto) =~= letters);
    }
}

/// One cluster does what its two halves do one after the other: `-ab` is
/// `-a` followed by `-b`, also where a letter is unknown.
pub proof fn lemma_cluster_splits(settings: Settings, first: Seq<char>, second: Seq<char>)
    ensures
        with_cluster(settings, first + second) == match with_cluster(settings, first) {
            Some(between) => with_cluster(between, second),
            None => None,
        },
    decreases second.len(),
{
    if second.len() == 0 {
        assert(first + second =~= first);
    } else {
        assert((first + second).drop_last() =~= first + second.drop_last());
        assert((first + second).last() == second.last());
        lemma_cluster_splits(settings, first, second.drop_last());
    }
}

impl Flag {
    /// The flag that a letter names.
    pub fn from_letter(c: char) -> (r: Option<Flag>)
        ensures
            r == short_flag(c),
    {
        if c == 'h' {
            Some(Flag::Help)
        } else if c == 'v' {
            Some(Flag::Version)
        } else if c == 'f' {
            Some(Flag::Form)
        } else if c == 'm' {
            Some(Flag::Multipart)
        } else if c == 'd' {
            Some(Flag::Debug)
        } else {
            None
        }
    }

    /// The flag that a long name stands for.
    pub fn from_name(name: &str) -> (r: Option<Flag>)
        ensures
            r == long_flag(name@),
    {
        if same_text(name, "help") {
            Some(Flag::Help)
        } else if same_text(name, "version") {
            Some(Flag::Version)
        } else if same_text(name, "form") {
            Some(Flag::Form)
        } else if same_text(name, "multi") {
            Some(Flag::Multipart)
        } else if same_text(name, "debug") {
            Some(Flag::Debug)
        } else {
            None
        }
    }
}

impl Settings {
    /// The settings before any flag.
    pub fn new() -> (settings: Settings)
        ensures
            settings == default_settings(),
    {
        Settings { command: Command::Request, format: ContentType::Json }
    }

    /// The settings after one more flag.
    pub fn apply(self, flag: Flag) -> (settings: Settings)
        ensures
            settings == with_flag(self, flag),
    {
        match flag {
            Flag::Help => Settings { command: Command::PrintHelp, format: self.format },
            Flag::Version => Settings { command: Command::PrintVersion, format: self.format },
            Flag::Form => Settings { command: self.command, format: ContentType::Form },
            Flag::Multipart => Settings { command: self.command, format: ContentType::Multipart },
            Flag::Debug => self,
        }
    }

    /// The settings after the letters of the cluster `token`, which is a dash
    /// followed by the letters.
    fn apply_cluster(self, token: &str) -> (r: Option<Settings>)
        requires
            token@.len() >= 1,
        ensures
            r == with_cluster(self, token@.skip(1)),
    {
        let ghost letters = token@.skip(1);
        let n: usize = token.unicode_len();
        let mut settings = self;
        let mut at: usize = 0;
        for c in it: token.chars()
            invariant
                it.seq() == token@,
                at == it.index(),
                n == token@.len(),
                letters == token@.skip(1),
                at == 0 ==> settings == self,
                at > 0 ==> with_cluster(self, letters.take(at - 1)) == Some(settings),
        {
            if at > 0 {
                proof {
                    assert(letters.take(at as int).drop_last() =~= letters.take(at - 1));
                    assert(letters.take(at as int).last() == c);
                }
                match Flag::from_letter(c) {
                    Some(flag) => {
                        settings = settings.apply(flag);
                    },
                    None => {
                        proof {
                            lemma_cluster_fails_early(self, letters, at as int);
                        }
                        return None;
                    },
                }
            } else {
                assert(letters.take(0) =~= Seq::<char>::empty());
            }
            at += 1;
        }
        assert(letters.take(at - 1) =~= letters);
        Some(settings)
    }

    /// The settings after an option token. A token that names an unknown flag
    /// is rejected, and the error holds the token.
    pub fn apply_option(self, token: &str) -> (r: Result<Settings, ParseError>)
        requires
            is_option(token@),
        ensures
            match r {
                Ok(settings) => with_option(self, token@) == Some(settings),
                Err(e) => with_option(self, token@) is None && e@ == (
                    ParseErrorKind::UnknownOption,
                    token@,
                ),
            },
    {
        proof {
            reveal_strlit("-");
            reveal_strlit("--");
        }
        let changed = if starts_with(token, "--") {
            let n: usize = token.unicode_len();
            let name = token.substring_char(2, n);
            assert(name@ =~= token@.skip(2));
            match Flag::from_name(name) {
                Some(flag) => Some(self.apply(flag)),
                None => None,
            }
        } else {
            self.apply_cluster(token)
        };
        match changed {
            Some(settings) => Ok(settings),
            None => Err(ParseError::new(ParseErrorKind::UnknownOption, String::from_str(token))),
        }
    }
}

} // verus!
