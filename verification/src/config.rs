//! What the command line and the configuration file hand to the sensor.

use vstd::prelude::*;

verus! {

/// Whether a character is white space: one of the twenty-five characters
/// with the Unicode property `White_Space`.
pub open spec fn spec_is_whitespace(c: char) -> bool {
    let u = c as u32;
    ||| 0x09 <= u <= 0x0d
    ||| u == 0x20
    ||| u == 0x85
    ||| u == 0xa0
    ||| u == 0x1680
    ||| 0x2000 <= u <= 0x200a
    ||| u == 0x2028
    ||| u == 0x2029
    ||| u == 0x202f
    ||| u == 0x205f
    ||| u == 0x3000
}

/// The number of characters before the first white space.
pub open spec fn spec_word_len(s: Seq<char>) -> nat
    decreases s.len(),
{
    if s.len() == 0 || spec_is_whitespace(s[0]) {
        0
    } else {
        1 + spec_word_len(s.drop_first())
    }
}

/// The words of a text: its maximal runs of characters that are not white
/// space, in order. (A text that starts with no white space has a first
/// word of at least one character, so the inner test never fails; it is
/// there to show that the recursion ends.)
pub open spec fn spec_words(s: Seq<char>) -> Seq<Seq<char>>
    decreases s.len(),
{
    if s.len() == 0 {
        Seq::empty()
    } else if spec_is_whitespace(s[0]) {
        spec_words(s.drop_first())
    } else {
        let n = spec_word_len(s) as int;
        if 0 < n <= s.len() {
            seq![s.subrange(0, n)] + spec_words(s.subrange(n, s.len() as int))
        } else {
            Seq::empty()
        }
    }
}

/// The texts of a list of names.
pub open spec fn spec_names(names: Seq<String>) -> Seq<Seq<char>> {
    names.map_values(|name: String| name@)
}

/// A run of characters without white space, which ends the text or is
/// followed by white space, is a word of exactly that length.
proof fn lemma_word_len(s: Seq<char>, n: int)
    requires
        0 <= n <= s.len(),
        forall|k: int| 0 <= k < n ==> !spec_is_whitespace(s[k]),
        n == s.len() || spec_is_whitespace(s[n]),
    ensures
        spec_word_len(s) == n,
    decreases n,
{
    if n > 0 {
        let rest = s.drop_first();
        assert forall|k: int| 0 <= k < n - 1 implies !spec_is_whitespace(rest[k]) by {
            assert(rest[k] == s[k + 1]);
        }
        lemma_word_len(rest, n - 1);
    }
}

fn is_whitespace(c: char) -> (r: bool)
    ensures
        r == spec_is_whitespace(c),
{
    let u = c as u32;
    (0x09 <= u && u <= 0x0d) || u == 0x20 || u == 0x85 || u == 0xa0 || u == 0x1680 || (0x2000
        <= u && u <= 0x200a) || u == 0x2028 || u == 0x2029 || u == 0x202f || u == 0x205f || u
        == 0x3000
}

/// Splits a text into its words.
pub fn split_words(text: &str) -> (words: Vec<String>)
    ensures
        spec_names(words@) == spec_words(text@),
{
    let n = text.unicode_len();
    let mut words: Vec<String> = Vec::new();
    let mut i: usize = 0;
    assert(text@.subrange(0, n as int) =~= text@);
    assert(spec_names(words@) + spec_words(text@) =~= spec_words(text@));
    while i < n
        invariant
            i <= n,
            n == text@.len(),
            spec_words(text@) == spec_names(words@) + spec_words(text@.subrange(i as int, n as int)),
        decreases n - i,
    {
        let ghost rest = text@.subrange(i as int, n as int);
        if is_whitespace(text.get_char(i)) {
            assert(rest.drop_first() =~= text@.subrange(i + 1, n as int));
            i = i + 1;
        } else {
            let mut j: usize = i + 1;
            while j < n && !is_whitespace(text.get_char(j))
                invariant
                    i < j <= n,
                    n == text@.len(),
                    forall|k: int| i <= k < j ==> !spec_is_whitespace(text@[k]),
                decreases n - j,
            {
                j = j + 1;
            }
            let word = text.substring_char(i, j);
            proof {
                assert forall|k: int| 0 <= k < j - i implies !spec_is_whitespace(rest[k]) by {
                    assert(rest[k] == text@[i + k]);
                }
                lemma_word_len(rest, j - i);
                assert(rest.subrange(0, j - i) =~= text@.subrange(i as int, j as int));
                assert(rest.subrange(j - i, rest.len() as int) =~= text@.subrange(
                    j as int,
                    n as int,
                ));
            }
            let ghost before = words@;
            words.push(word.to_owned());
            assert(spec_names(words@) =~= spec_names(before) + seq![word@]);
            i = j;
        }
    }
    assert(text@.subrange(n as int, n as int) =~= Seq::<char>::empty());
    assert(spec_names(words@) + Seq::<Seq<char>>::empty() =~= spec_names(words@));
    words
}

/// The command line: the interfaces to capture on, the inventory file and
/// the mode switches.
#[derive(Clone, Debug)]
pub struct Cli {
    /// One or more interface names, separated by whitespace.
    pub interface: String,
    /// The path of the inventory file.
    pub db_path: String,
    /// Print the inventory and exit.
    pub list: bool,
    /// Empty the inventory and exit.
    pub reset: bool,
    /// Log every record.
    pub verbose: bool,
}

/// What a run of the program is asked to do.
#[derive(Clone, Copy, Debug, PartialEq, Eq, Structural)]
pub enum Command {
    /// Print the inventory and exit.
    List,
    /// Empty the inventory and exit.
    Reset,
    /// Capture on the named interfaces until stopped.
    Capture,
    /// Nothing can be done: no interface was named.
    MissingInterface,
}

impl Cli {
    /// What the command line asks for: listing wins over resetting, and
    /// both over capturing, which needs an interface.
    pub open spec fn spec_command(&self) -> Command {
        if self.list {
            Command::List
        } else if self.reset {
            Command::Reset
        } else if self.interface@.len() == 0 {
            Command::MissingInterface
        } else {
            Command::Capture
        }
    }

    /// The interfaces to capture on: the words of the interface argument.
    pub fn interfaces(&self) -> (names: Vec<String>)
        ensures
            spec_names(names@) == spec_words(self.interface@),
    {
        split_words(self.interface.as_str())
    }

    /// What the command line asks for.
    pub fn command(&self) -> (command: Command)
        ensures
            command == self.spec_command(),
    {
        if self.list {
            Command::List
        } else if self.reset {
            Command::Reset
        } else if self.interface.as_str().unicode_len() == 0 {
            Command::MissingInterface
        } else {
            Command::Capture
        }
    }
}

/// Where observations are pushed to, if anywhere.
#[derive(Clone, Debug)]
pub struct ApiConfig {
    pub endpoint: Option<String>,
    pub token: Option<String>,
}

impl ApiConfig {
    /// The endpoint and the token, where both are configured.
    pub fn credentials(&self) -> (pair: Option<(String, String)>)
        ensures
            match pair {
                Some((endpoint, token)) => self.endpoint == Some(endpoint) && self.token == Some(
                    token,
                ),
                None => self.endpoint is None || self.token is None,
            },
    {
        match (&self.endpoint, &self.token) {
            (Some(endpoint), Some(token)) => Some((endpoint.clone(), token.clone())),
            _ => None,
        }
    }
}

/// What to capture.
#[derive(Clone, Debug)]
pub struct SnifferConfig {
    pub interface: String,
    pub network: String,
}

/// Where the inventory is kept.
#[derive(Clone, Debug)]
pub struct DatabaseConfig {
    pub path: String,
}

/// The configuration file.
#[derive(Clone, Debug)]
pub struct Config {
    pub api: ApiConfig,
    pub sniffer: SnifferConfig,
    pub database: DatabaseConfig,
}

} // verus!
