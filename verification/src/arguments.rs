//! The options of a run, as they are given on the command line.

use crate::text::{chars_of, push_chars};
use vstd::prelude::*;

verus! {

/// The severity up to which updates are wanted.
#[derive(Clone, Copy, Debug, PartialEq, Eq, Structural)]
pub enum Semver {
    Major,
    Minor,
    Patch,
}

/// A dependency set that is checked besides the production dependencies.
#[derive(Clone, Copy, Debug, PartialEq, Eq, Structural)]
pub enum Include {
    Dev,
    Peer,
}

/// A command that is answered without looking at any manifest.
#[derive(Clone, Copy, Debug, PartialEq, Eq, Structural)]
pub enum Command {
    Help,
    About,
}

/// What is wrong with a command line.
#[derive(Clone, Copy, Debug, PartialEq, Eq, Structural)]
pub enum ArgumentError {
    /// The value of `--semver` is none of `major`, `minor`, `patch`.
    InvalidSemver,
    /// The value of `--include` is no list of `dev` and `peer`.
    InvalidInclude,
    /// A word that is neither an option nor a command.
    InvalidCommand,
}

/// What one step of reading the command line has used up.
#[derive(Clone, Copy, Debug, PartialEq, Eq, Structural)]
pub enum Taken {
    /// The argument alone.
    Word,
    /// The argument and the one after it, as its value.
    WithValue,
    /// The argument and the one after it, which is now the path of the
    /// options.
    Path,
}

impl Taken {
    /// How many arguments the step has used up.
    pub open spec fn width(self) -> int {
        match self {
            Taken::Word => 1,
            Taken::WithValue => 2,
            Taken::Path => 2,
        }
    }

    /// How many arguments the step has used up.
    pub fn advance(&self) -> (n: usize)
        ensures
            n == self.width(),
    {
        match self {
            Taken::Word => 1,
            Taken::WithValue => 2,
            Taken::Path => 2,
        }
    }
}

/// The options of a run.
#[derive(Clone, Debug, PartialEq, Eq)]
pub struct Arguments {
    pub command: Option<Command>,
    pub update: bool,
    pub interactive: bool,
    pub path: String,
    pub semver: Option<Semver>,
    pub includes: Option<Vec<Include>>,
    pub skip_ranges: bool,
    pub update_any: bool,
}

/// The options of a run, with its strings and lists as sequences.
pub struct ArgumentsView {
    pub command: Option<Command>,
    pub update: bool,
    pub interactive: bool,
    pub path: Seq<char>,
    pub semver: Option<Semver>,
    pub includes: Option<Seq<Include>>,
    pub skip_ranges: bool,
    pub update_any: bool,
}

impl View for Arguments {
    type V = ArgumentsView;

    open spec fn view(&self) -> ArgumentsView {
        ArgumentsView {
            command: self.command,
            update: self.update,
            interactive: self.interactive,
            path: self.path@,
            semver: self.semver,
            includes: match self.includes {
                Some(list) => Some(list@),
                None => None,
            },
            skip_ranges: self.skip_ranges,
            update_any: self.update_any,
        }
    }
}

/// What `str::to_lowercase` makes of a text.
pub uninterp spec fn lowercased(text: Seq<char>) -> Seq<char>;

/// Calls `str::to_lowercase`, which gives the lowercase equivalent of the
/// text as a new string.
#[verifier::external_body]
fn lowercase(text: &str) -> (lower: String)
    ensures
        lower@ == lowercased(text@),
{
    text.to_lowercase()
}

/// The options when the command line is empty.
pub open spec fn no_arguments() -> ArgumentsView {
    ArgumentsView {
        command: None,
        update: false,
        interactive: false,
        path: Seq::empty(),
        semver: None,
        includes: None,
        skip_ranges: false,
        update_any: false,
    }
}

/// The severity that a lowercased word names.
pub open spec fn semver_of(word: Seq<char>) -> Option<Semver> {
    if word == "major"@ {
        Some(Semver::Major)
    } else if word == "minor"@ {
        Some(Semver::Minor)
    } else if word == "patch"@ {
        Some(Semver::Patch)
    } else {
        None
    }
}

/// The dependency set that a word names.
pub open spec fn include_of(word: Seq<char>) -> Option<Include> {
    if word == "dev"@ {
        Some(Include::Dev)
    } else if word == "peer"@ {
        Some(Include::Peer)
    } else {
        None
    }
}

/// The command that a lowercased word names.
pub open spec fn command_of(word: Seq<char>) -> Option<Command> {
    if word == "help"@ {
        Some(Command::Help)
    } else if word == "about"@ {
        Some(Command::About)
    } else {
        None
    }
}

/// The pieces of a text between its commas. A text without a comma is one
/// piece, and so is the empty text.
pub open spec fn pieces(text: Seq<char>) -> Seq<Seq<char>>
    decreases text.len(),
{
    if text.len() == 0 {
        seq![Seq::empty()]
    } else {
        let front = pieces(text.drop_last());
        if text.last() == ',' {
            front.push(Seq::empty())
        } else {
            front.drop_last().push(front.last().push(text.last()))
        }
    }
}

/// The dependency sets that a comma-separated list names, if every piece
/// of it names one.
pub open spec fn includes_of(text: Seq<char>) -> Option<Seq<Include>> {
    let words = pieces(text);
    if forall|i: int| 0 <= i < words.len() ==> include_of(#[trigger] words[i]) is Some {
        Some(Seq::new(words.len(), |i: int| include_of(words[i])->0))
    } else {
        None
    }
}

/// What one step of reading the command line does: the options after the
/// argument at `at`, and what the step has used up. The argument is
/// compared in lowercase. An option that takes a value and stands last is
/// passed over.
pub open spec fn step(options: ArgumentsView, args: Seq<Seq<char>>, at: int) -> Result<
    (ArgumentsView, Taken),
    ArgumentError,
> {
    let word = lowercased(args[at]);
    let value = if at + 1 < args.len() {
        Some(args[at + 1])
    } else {
        None
    };
    if word == "-u"@ || word == "--update"@ {
        Ok((ArgumentsView { update: true, ..options }, Taken::Word))
    } else if word == "-i"@ || word == "--interactive"@ {
        Ok((ArgumentsView { interactive: true, ..options }, Taken::Word))
    } else if word == "-p"@ || word == "--path"@ {
        match value {
            Some(path) => Ok((ArgumentsView { path, ..options }, Taken::Path)),
            None => Ok((options, Taken::Word)),
        }
    } else if word == "-s"@ || word == "--semver"@ {
        match value {
            Some(choice) => match semver_of(lowercased(choice)) {
                Some(semver) => Ok(
                    (ArgumentsView { semver: Some(semver), ..options }, Taken::WithValue),
                ),
                None => Err(ArgumentError::InvalidSemver),
            },
            None => Ok((options, Taken::Word)),
        }
    } else if word == "--include"@ {
        match value {
            Some(list) => match includes_of(list) {
                Some(includes) => Ok(
                    (ArgumentsView { includes: Some(includes), ..options }, Taken::WithValue),
                ),
                None => Err(ArgumentError::InvalidInclude),
            },
            None => Ok((options, Taken::Word)),
        }
    } else if word == "--skip-ranges"@ {
        Ok((ArgumentsView { skip_ranges: true, ..options }, Taken::Word))
    } else if word == "--update-any"@ {
        Ok((ArgumentsView { update_any: true, ..options }, Taken::Word))
    } else {
        match command_of(word) {
            Some(command) => Ok((ArgumentsView { command: Some(command), ..options }, Taken::Word)),
            None => Err(ArgumentError::InvalidCommand),
        }
    }
}

/// The options that the arguments from `at` on lead to, starting from
/// `options`: the steps are taken one after the other, and the first error
/// ends the reading.
pub open spec fn read_from(options: ArgumentsView, args: Seq<Seq<char>>, at: int) -> Result<
    ArgumentsView,
    ArgumentError,
>
    decreases args.len() - at,
{
    if at < 0 || at >= args.len() {
        Ok(options)
    } else {
        match step(options, args, at) {
            Ok((next, taken)) => read_from(next, args, at + taken.width()),
            Err(error) => Err(error),
        }
    }
}

/// The options that a command line stands for.
pub open spec fn options_of(args: Seq<Seq<char>>) -> Result<ArgumentsView, ArgumentError> {
    read_from(no_arguments(), args, 0)
}

fn read_semver(word: &str) -> (r: Option<Semver>)
    ensures
        r == semver_of(word@),
{
    if word.eq("major") {
        Some(Semver::Major)
    } else if word.eq("minor") {
        Some(Semver::Minor)
    } else if word.eq("patch") {
        Some(Semver::Patch)
    } else {
        None
    }
}

fn read_include(word: &str) -> (r: Option<Include>)
    ensures
        r == include_of(word@),
{
    if word.eq("dev") {
        Some(Include::Dev)
    } else if word.eq("peer") {
        Some(Include::Peer)
    } else {
        None
    }
}

fn read_command(word: &str) -> (r: Option<Command>)
    ensures
        r == command_of(word@),
{
    if word.eq("help") {
        Some(Command::Help)
    } else if word.eq("about") {
        Some(Command::About)
    } else {
        None
    }
}

/// The text has as many pieces as commas, and one more; a piece ends where
/// the text ends or a comma follows.
proof fn lemma_pieces_grow(text: Seq<char>, upto: int)
    requires
        0 <= upto < text.len(),
    ensures
        pieces(text.take(upto + 1)) == if text[upto] == ',' {
            pieces(text.take(upto)).push(Seq::empty())
        } else {
            pieces(text.take(upto)).drop_last().push(
                pieces(text.take(upto)).last().push(text[upto]),
            )
        },
        pieces(text.take(upto)).len() > 0,
{
    assert(text.take(upto + 1).drop_last() == text.take(upto));
    lemma_pieces_not_empty(text.take(upto));
}

proof fn lemma_pieces_not_empty(text: Seq<char>)
    ensures
        pieces(text).len() > 0,
    decreases text.len(),
{
    if text.len() > 0 {
        lemma_pieces_not_empty(text.drop_last());
    }
}

/// Reads a comma-separated list of `dev` and `peer`.
pub fn read_includes(list: &str) -> (r: Option<Vec<Include>>)
    ensures
        match includes_of(list@) {
            Some(includes) => r matches Some(found) && found@ == includes,
            None => r is None,
        },
{
    let chars = chars_of(list);
    let mut found: Vec<Include> = Vec::new();
    let mut start: usize = 0;
    let mut i: usize = 0;
    proof {
        lemma_pieces_not_empty(chars@.take(0));
        assert(chars@.take(0) =~= Seq::<char>::empty());
    }
    while i < chars.len()
        invariant
            chars@ == list@,
            start <= i <= chars.len(),
            pieces(chars@.take(i as int)).len() == found.len() + 1,
            pieces(chars@.take(i as int)).last() == chars@.subrange(start as int, i as int),
            forall|k: int|
                0 <= k < found.len() ==> include_of(#[trigger] pieces(chars@.take(i as int))[k])
                    == Some(found[k]),
            forall|k: int|
                0 <= k < found.len() ==> #[trigger] pieces(chars@)[k] == pieces(
                    chars@.take(i as int),
                )[k],
            pieces(chars@.take(i as int)).len() <= pieces(chars@).len(),
        decreases chars.len() - i,
    {
        proof {
            lemma_pieces_grow(chars@, i as int);
            lemma_pieces_prefix(chars@, i as int + 1);
            lemma_pieces_prefix(chars@, i as int);
        }
        if chars[i] == ',' {
            let mut word = String::new();
            push_chars(&mut word, &chars, start, i);
            match read_include(word.as_str()) {
                Some(includes) => {
                    found.push(includes);
                },
                None => {
                    proof {
                        let k = found.len() as int;
                        assert(pieces(chars@)[k] == pieces(chars@.take(i as int + 1))[k]);
                        assert(include_of(pieces(chars@)[k]) is None);
                    }
                    return None;
                },
            }
            start = i + 1;
            assert(chars@.subrange(start as int, start as int) =~= Seq::<char>::empty());
        } else {
            assert(chars@.subrange(start as int, i as int + 1) =~= chars@.subrange(
                start as int,
                i as int,
            ).push(chars@[i as int]));
        }
        i += 1;
    }
    assert(chars@.take(chars.len() as int) == chars@);
    let mut word = String::new();
    push_chars(&mut word, &chars, start, i);
    match read_include(word.as_str()) {
        Some(includes) => {
            found.push(includes);
            proof {
                let words = pieces(list@);
                assert forall|k: int| 0 <= k < words.len() implies include_of(
                    #[trigger] words[k],
                ) is Some by {
                    if k < words.len() - 1 {
                        assert(include_of(words[k]) == Some(found[k]));
                    }
                }
                assert(found@ =~= Seq::new(words.len(), |k: int| include_of(words[k])->0));
            }
            Some(found)
        },
        None => {
            proof {
                let words = pieces(list@);
                assert(include_of(words[words.len() - 1]) is None);
            }
            None
        },
    }
}

/// The pieces that are complete at `upto` stay as they are when the text
/// goes on.
proof fn lemma_pieces_prefix(text: Seq<char>, upto: int)
    requires
        0 <= upto <= text.len(),
    ensures
        pieces(text.take(upto)).len() <= pieces(text).len(),
        forall|k: int|
            0 <= k < pieces(text.take(upto)).len() - 1 ==> #[trigger] pieces(text)[k] == pieces(
                text.take(upto),
            )[k],
    decreases text.len() - upto,
{
    if upto < text.len() {
        lemma_pieces_grow(text, upto);
        lemma_pieces_prefix(text, upto + 1);
    } else {
        assert(text.take(upto) == text);
    }
}

/// Whether `list` names `kind`.
pub fn lists(list: &Vec<Include>, kind: Include) -> (r: bool)
    ensures
        r == list@.contains(kind),
{
    let mut i: usize = 0;
    while i < list.len()
        invariant
            i <= list.len(),
            forall|k: int| 0 <= k < i ==> list@[k] != kind,
        decreases list.len() - i,
    {
        if list[i] == kind {
            return true;
        }
        i += 1;
    }
    false
}

/// What a summary says of the dependency sets that were checked besides
/// the production dependencies.
pub open spec fn include_message_of(includes: Option<Seq<Include>>) -> Seq<char> {
    match includes {
        Some(list) => if list.contains(Include::Dev) && list.contains(Include::Peer) {
            " including dev and peer dependencies"@
        } else if list.contains(Include::Dev) {
            " including dev dependencies"@
        } else if list.contains(Include::Peer) {
            " including peer dependencies"@
        } else {
            ""@
        },
        None => ""@,
    }
}

impl Arguments {
    /// The options of an empty command line.
    pub fn empty() -> (options: Arguments)
        ensures
            options@ == no_arguments(),
    {
        Arguments {
            command: None,
            update: false,
            interactive: false,
            path: String::new(),
            semver: None,
            includes: None,
            skip_ranges: false,
            update_any: false,
        }
    }

    /// Takes one step of reading a command line: reads the argument at
    /// `at`, and the one after it where the argument is an option with a
    /// value, and says what it has used up. On an error the options stay
    /// as they are.
    pub fn take(&mut self, args: &Vec<String>, at: usize) -> (r: Result<Taken, ArgumentError>)
        requires
            at < args.len(),
        ensures
            match step(old(self)@, args.deep_view(), at as int) {
                Ok((next, taken)) => r == Ok::<Taken, ArgumentError>(taken) && final(self)@ == next,
                Err(error) => r == Err::<Taken, ArgumentError>(error) && final(self)@ == old(
                    self,
                )@,
            },
            r is Ok ==> at + r->Ok_0.width() <= args.len(),
    {
        let lower = lowercase(args[at].as_str());
        let word = lower.as_str();
        let has_value = at + 1 < args.len();
        proof {
            assert(args.deep_view()[at as int] == args[at as int]@);
            if has_value {
                assert(args.deep_view()[at + 1] == args[at + 1]@);
            }
        }
        if word.eq("-u") || word.eq("--update") {
            self.update = true;
            Ok(Taken::Word)
        } else if word.eq("-i") || word.eq("--interactive") {
            self.interactive = true;
            Ok(Taken::Word)
        } else if word.eq("-p") || word.eq("--path") {
            if has_value {
                self.path = args[at + 1].clone();
                Ok(Taken::Path)
            } else {
                Ok(Taken::Word)
            }
        } else if word.eq("-s") || word.eq("--semver") {
            if has_value {
                let choice = lowercase(args[at + 1].as_str());
                match read_semver(choice.as_str()) {
                    Some(semver) => {
                        self.semver = Some(semver);
                        Ok(Taken::WithValue)
                    },
                    None => Err(ArgumentError::InvalidSemver),
                }
            } else {
                Ok(Taken::Word)
            }
        } else if word.eq("--include") {
            if has_value {
                match read_includes(args[at + 1].as_str()) {
                    Some(list) => {
                        self.includes = Some(list);
                        Ok(Taken::WithValue)
                    },
                    None => Err(ArgumentError::InvalidInclude),
                }
            } else {
                Ok(Taken::Word)
            }
        } else if word.eq("--skip-ranges") {
            self.skip_ranges = true;
            Ok(Taken::Word)
        } else if word.eq("--update-any") {
            self.update_any = true;
            Ok(Taken::Word)
        } else {
            match read_command(word) {
                Some(command) => {
                    self.command = Some(command);
                    Ok(Taken::Word)
                },
                None => Err(ArgumentError::InvalidCommand),
            }
        }
    }

    /// Reads a command line, without the name of the program in front.
    /// Options and commands are taken in any mix of upper and lower case; an
    /// option that is given twice counts as it was given last.
    pub fn new(args: &Vec<String>) -> (r: Result<Arguments, ArgumentError>)
        ensures
            match options_of(args.deep_view()) {
                Ok(view) => r matches Ok(options) && options@ == view,
                Err(error) => r matches Err(found) && found == error,
            },
    {
        let mut options = Arguments::empty();
        let mut at: usize = 0;
        while at < args.len()
            invariant
                at <= args.len(),
                options_of(args.deep_view()) == read_from(options@, args.deep_view(), at as int),
            decreases args.len() - at,
        {
            match options.take(args, at) {
                Ok(taken) => {
                    at += taken.advance();
                },
                Err(error) => {
                    return Err(error);
                },
            }
        }
        Ok(options)
    }

    /// Whether the run checks the dependency set `kind` besides the
    /// production dependencies.
    pub fn wants(&self, kind: Include) -> (r: bool)
        ensures
            r == (self@.includes matches Some(list) && list.contains(kind)),
    {
        match &self.includes {
            Some(list) => lists(list, kind),
            None => false,
        }
    }
}

/// What a summary says of the dependency sets that were checked besides the
/// production dependencies.
pub fn get_include_message(includes: Option<&Vec<Include>>) -> (message: &'static str)
    ensures
        message@ == include_message_of(
            match includes {
                Some(list) => Some(list@),
                None => None,
            },
        ),
{
    match includes {
        Some(list) => {
            let dev = lists(list, Include::Dev);
            let peer = lists(list, Include::Peer);
            if dev && peer {
                " including dev and peer dependencies"
            } else if dev {
                " including dev dependencies"
            } else if peer {
                " including peer dependencies"
            } else {
                ""
            }
        },
        None => "",
    }
}

} // verus!
