//! The text protocol: a request is a command word followed by its arguments,
//! separated by single spaces.
//!
//! ```text
//! start my_app_https 1001:127.0.0.1:7176
//! stop my_app_https
//! slow my_app_https 200
//! resume my_app_https
//! ```

use vstd::prelude::*;
use vstd::string::*;
use crate::text::{
    split_spaces, split_on_spaces, find_char, find_from, find_first, lacks, lemma_split_single,
    lemma_split_append, lemma_find_after,
};

verus! {

/// A request, with its arguments as the text that came in.
#[derive(Debug)]
pub enum ParsedCommand {
    /// Name, exposed port, target address.
    Start(String, String, String),
    Stop(String),
    /// Name, delay in milliseconds.
    Slow(String, String),
    Resume(String),
}

/// Why a request could not be read.
#[derive(Debug)]
pub enum ParseError {
    /// The first word names no command.
    UnknownCommand(String),
    /// There was no word at all.
    NoCommand,
    MissingName,
    MissingAddressPair,
    /// The address pair holds no `':'`.
    MissingSeparator,
    MissingTime,
}

/// The mathematical value of a [`ParsedCommand`].
pub enum CommandView {
    Start(Seq<char>, Seq<char>, Seq<char>),
    Stop(Seq<char>),
    Slow(Seq<char>, Seq<char>),
    Resume(Seq<char>),
}

/// The mathematical value of a [`ParseError`].
pub enum ParseErrorView {
    UnknownCommand(Seq<char>),
    NoCommand,
    MissingName,
    MissingAddressPair,
    MissingSeparator,
    MissingTime,
}

impl View for ParsedCommand {
    type V = CommandView;

    open spec fn view(&self) -> CommandView {
        match self {
            ParsedCommand::Start(n, e, t) => CommandView::Start(n@, e@, t@),
            ParsedCommand::Stop(n) => CommandView::Stop(n@),
            ParsedCommand::Slow(n, ms) => CommandView::Slow(n@, ms@),
            ParsedCommand::Resume(n) => CommandView::Resume(n@),
        }
    }
}

impl View for ParseError {
    type V = ParseErrorView;

    open spec fn view(&self) -> ParseErrorView {
        match self {
            ParseError::UnknownCommand(w) => ParseErrorView::UnknownCommand(w@),
            ParseError::NoCommand => ParseErrorView::NoCommand,
            ParseError::MissingName => ParseErrorView::MissingName,
            ParseError::MissingAddressPair => ParseErrorView::MissingAddressPair,
            ParseError::MissingSeparator => ParseErrorView::MissingSeparator,
            ParseError::MissingTime => ParseErrorView::MissingTime,
        }
    }
}

/// The kind of a refused request, as `std::io::ErrorKind` names it.
#[derive(Debug, Clone, Copy, PartialEq, Eq, Structural)]
pub enum ErrorKind {
    InvalidInput,
    NotFound,
}

/// The text that describes a parse error.
pub open spec fn spec_parse_error_message(e: ParseErrorView) -> Seq<char> {
    match e {
        ParseErrorView::UnknownCommand(w) => "Unknown command: "@ + w,
        ParseErrorView::NoCommand => "Cannot parse command"@,
        ParseErrorView::MissingName => "Missing name argument"@,
        ParseErrorView::MissingAddressPair => "Missing address pair argument"@,
        ParseErrorView::MissingSeparator => "Missing ':' in address pair"@,
        ParseErrorView::MissingTime => "Missing time argument"@,
    }
}

impl ParseError {
    /// Every parse error is an invalid input.
    pub fn kind(&self) -> (k: ErrorKind)
        ensures
            k == ErrorKind::InvalidInput,
    {
        ErrorKind::InvalidInput
    }

    /// The text that describes this error.
    pub fn message(&self) -> (m: String)
        ensures
            m@ == spec_parse_error_message(self@),
    {
        match self {
            ParseError::UnknownCommand(w) => {
                let mut m = String::from_str("Unknown command: ");
                m.append(w.as_str());
                m
            },
            ParseError::NoCommand => String::from_str("Cannot parse command"),
            ParseError::MissingName => String::from_str("Missing name argument"),
            ParseError::MissingAddressPair => String::from_str("Missing address pair argument"),
            ParseError::MissingSeparator => String::from_str("Missing ':' in address pair"),
            ParseError::MissingTime => String::from_str("Missing time argument"),
        }
    }
}

pub open spec fn parse_result_view(r: Result<ParsedCommand, ParseError>) -> Result<
    CommandView,
    ParseErrorView,
> {
    match r {
        Ok(c) => Ok(c@),
        Err(e) => Err(e@),
    }
}

pub open spec fn words_view(words: Seq<String>) -> Seq<Seq<char>> {
    words.map_values(|w: String| w@)
}

/// `start <name> <expose>:<target>`: the pair splits at its first `':'`.
pub open spec fn spec_parse_start(args: Seq<Seq<char>>) -> Result<CommandView, ParseErrorView> {
    if args.len() == 0 {
        Err(ParseErrorView::MissingName)
    } else if args.len() == 1 {
        Err(ParseErrorView::MissingAddressPair)
    } else {
        let pair = args[1];
        match find_char(pair, ':') {
            None => Err(ParseErrorView::MissingSeparator),
            Some(i) => Ok(CommandView::Start(args[0], pair.take(i), pair.skip(i + 1))),
        }
    }
}

/// `stop <name>`
pub open spec fn spec_parse_stop(args: Seq<Seq<char>>) -> Result<CommandView, ParseErrorView> {
    if args.len() == 0 {
        Err(ParseErrorView::MissingName)
    } else {
        Ok(CommandView::Stop(args[0]))
    }
}

/// `slow <name> <ms>`
pub open spec fn spec_parse_slow(args: Seq<Seq<char>>) -> Result<CommandView, ParseErrorView> {
    if args.len() == 0 {
        Err(ParseErrorView::MissingName)
    } else if args.len() == 1 {
        Err(ParseErrorView::MissingTime)
    } else {
        Ok(CommandView::Slow(args[0], args[1]))
    }
}

/// `resume <name>`
pub open spec fn spec_parse_resume(args: Seq<Seq<char>>) -> Result<CommandView, ParseErrorView> {
    if args.len() == 0 {
        Err(ParseErrorView::MissingName)
    } else {
        Ok(CommandView::Resume(args[0]))
    }
}

/// What a sequence of words means; words past those a command takes are ignored.
pub open spec fn spec_parse_words(words: Seq<Seq<char>>) -> Result<CommandView, ParseErrorView> {
    if words.len() == 0 {
        Err(ParseErrorView::NoCommand)
    } else {
        let cmd = words[0];
        let args = words.drop_first();
        if cmd == "start"@ {
            spec_parse_start(args)
        } else if cmd == "stop"@ {
            spec_parse_stop(args)
        } else if cmd == "slow"@ {
            spec_parse_slow(args)
        } else if cmd == "resume"@ {
            spec_parse_resume(args)
        } else {
            Err(ParseErrorView::UnknownCommand(cmd))
        }
    }
}

/// What a request line means.
pub open spec fn spec_parse_request(input: Seq<char>) -> Result<CommandView, ParseErrorView> {
    spec_parse_words(split_spaces(input))
}

/// Takes the next word, as `Iterator::next` does on the words.
fn next_word(words: &mut Vec<String>) -> (w: Option<String>)
    ensures
        old(words)@.len() == 0 ==> w is None && final(words)@ == old(words)@,
        old(words)@.len() > 0 ==> w == Some(old(words)@[0]) && final(words)@
            == old(words)@.drop_first(),
{
    if words.len() == 0 {
        None
    } else {
        let w = words.remove(0);
        assert(words@ =~= old(words)@.drop_first());
        Some(w)
    }
}

proof fn lemma_words_view_drop_first(words: Seq<String>)
    requires
        words.len() > 0,
    ensures
        words_view(words.drop_first()) == words_view(words).drop_first(),
        words_view(words)[0] == words[0]@,
        words_view(words).len() == words.len(),
{
    assert(words_view(words.drop_first()) =~= words_view(words).drop_first());
}

fn is_word(word: &String, text: &str) -> (b: bool)
    ensures
        b == (word@ == text@),
{
    crate::text::same_text(word.as_str(), text)
}

impl ParsedCommand {
    /// Reads a request line.
    pub fn from_str(request: &str) -> (r: Result<ParsedCommand, ParseError>)
        ensures
            parse_result_view(r) == spec_parse_request(request@),
    {
        parse_args_from_string(request.to_owned())
    }
}

/// Reads a request line: it is split on single spaces, then read word by word.
pub fn parse_args_from_string(input: String) -> (r: Result<ParsedCommand, ParseError>)
    ensures
        parse_result_view(r) == spec_parse_request(input@),
{
    let words = split_on_spaces(input.as_str());
    parse_args_from_iterator(words)
}

/// Reads a request given as its words.
pub fn parse_args_from_iterator(input: Vec<String>) -> (r: Result<ParsedCommand, ParseError>)
    ensures
        parse_result_view(r) == spec_parse_words(words_view(input@)),
{
    let mut input = input;
    let ghost all = input@;
    match next_word(&mut input) {
        None => {
            assert(words_view(all).len() == 0);
            Err(ParseError::NoCommand)
        },
        Some(cmd) => {
            proof {
                lemma_words_view_drop_first(all);
            }
            if is_word(&cmd, "start") {
                parse_start(input)
            } else if is_word(&cmd, "stop") {
                parse_stop(input)
            } else if is_word(&cmd, "slow") {
                parse_slow(input)
            } else if is_word(&cmd, "resume") {
                parse_resume(input)
            } else {
                Err(ParseError::UnknownCommand(cmd))
            }
        },
    }
}

/// Reads the arguments of `start`.
pub fn parse_start(input: Vec<String>) -> (r: Result<ParsedCommand, ParseError>)
    ensures
        parse_result_view(r) == spec_parse_start(words_view(input@)),
{
    let mut input = input;
    let ghost all = input@;
    let name = match next_word(&mut input) {
        Some(w) => w,
        None => {
            return Err(ParseError::MissingName);
        },
    };
    proof {
        lemma_words_view_drop_first(all);
    }
    let ghost rest = input@;
    let address_pair = match next_word(&mut input) {
        Some(w) => w,
        None => {
            return Err(ParseError::MissingAddressPair);
        },
    };
    proof {
        lemma_words_view_drop_first(rest);
        assert(words_view(all)[1] == address_pair@);
    }
    let separator = match find_first(address_pair.as_str(), ':') {
        Some(i) => i,
        None => {
            return Err(ParseError::MissingSeparator);
        },
    };
    proof {
        assert(0 <= separator < address_pair@.len()) by {
            lemma_find_in_bounds(address_pair@, ':', 0);
        }
    }
    let pair = address_pair.as_str();
    let n = pair.unicode_len();
    let expose = pair.substring_char(0, separator);
    let target = pair.substring_char(separator + 1, n);
    proof {
        assert(address_pair@.take(separator as int) =~= address_pair@.subrange(0, separator as int));
        assert(address_pair@.skip(separator as int + 1) =~= address_pair@.subrange(
            separator as int + 1,
            n as int,
        ));
    }
    Ok(ParsedCommand::Start(name, expose.to_owned(), target.to_owned()))
}

proof fn lemma_find_in_bounds(s: Seq<char>, c: char, k: int)
    ensures
        find_from(s, c, k) matches Some(i) ==> k <= i < s.len() && s[i] == c,
    decreases s.len() - k,
{
    if 0 <= k < s.len() && s[k] != c {
        lemma_find_in_bounds(s, c, k + 1);
    }
}

/// Reads the arguments of `stop`.
pub fn parse_stop(input: Vec<String>) -> (r: Result<ParsedCommand, ParseError>)
    ensures
        parse_result_view(r) == spec_parse_stop(words_view(input@)),
{
    let mut input = input;
    let ghost all = input@;
    match next_word(&mut input) {
        Some(name) => {
            proof {
                lemma_words_view_drop_first(all);
            }
            Ok(ParsedCommand::Stop(name))
        },
        None => Err(ParseError::MissingName),
    }
}

/// Reads the arguments of `slow`.
pub fn parse_slow(input: Vec<String>) -> (r: Result<ParsedCommand, ParseError>)
    ensures
        parse_result_view(r) == spec_parse_slow(words_view(input@)),
{
    let mut input = input;
    let ghost all = input@;
    let name = match next_word(&mut input) {
        Some(w) => w,
        None => {
            return Err(ParseError::MissingName);
        },
    };
    proof {
        lemma_words_view_drop_first(all);
    }
    let ghost rest = input@;
    let time = match next_word(&mut input) {
        Some(w) => w,
        None => {
            return Err(ParseError::MissingTime);
        },
    };
    proof {
        lemma_words_view_drop_first(rest);
    }
    Ok(ParsedCommand::Slow(name, time))
}

/// Reads the arguments of `resume`.
pub fn parse_resume(input: Vec<String>) -> (r: Result<ParsedCommand, ParseError>)
    ensures
        parse_result_view(r) == spec_parse_resume(words_view(input@)),
{
    let mut input = input;
    let ghost all = input@;
    match next_word(&mut input) {
        Some(name) => {
            proof {
                lemma_words_view_drop_first(all);
            }
            Ok(ParsedCommand::Resume(name))
        },
        None => Err(ParseError::MissingName),
    }
}

/// The request line that writes `c` out, one space between words.
pub open spec fn render_command(c: CommandView) -> Seq<char> {
    match c {
        CommandView::Start(n, e, t) => ("start"@ + seq![' '] + n) + seq![' '] + (e + seq![':'] + t),
        CommandView::Stop(n) => "stop"@ + seq![' '] + n,
        CommandView::Slow(n, ms) => ("slow"@ + seq![' '] + n) + seq![' '] + ms,
        CommandView::Resume(n) => "resume"@ + seq![' '] + n,
    }
}

/// The arguments of `c` can be written on one line and read back: none holds
/// a space, and the exposed port of a `start` holds no `':'`.
pub open spec fn writable(c: CommandView) -> bool {
    match c {
        CommandView::Start(n, e, t) => lacks(n, ' ') && lacks(e, ' ') && lacks(e, ':') && lacks(
            t,
            ' ',
        ),
        CommandView::Stop(n) => lacks(n, ' '),
        CommandView::Slow(n, ms) => lacks(n, ' ') && lacks(ms, ' '),
        CommandView::Resume(n) => lacks(n, ' '),
    }
}

/// Reading back a written command gives the command: for every command whose
/// arguments hold no space (and whose exposed port holds no `':'`), the request
/// `render_command(c)` parses to `c`. The target address may hold `':'`.
pub proof fn law_parse_reads_back_rendered(c: CommandView)
    requires
        writable(c),
    ensures
        spec_parse_request(render_command(c)) == Ok::<CommandView, ParseErrorView>(c),
{
    reveal_strlit("start");
    reveal_strlit("stop");
    reveal_strlit("slow");
    reveal_strlit("resume");
    match c {
        CommandView::Start(n, e, t) => {
            let pair = e + seq![':'] + t;
            assert(lacks(pair, ' ')) by {
                assert forall|i: int| 0 <= i < pair.len() implies #[trigger] pair[i] != ' ' by {
                    if i < e.len() {
                        assert(pair[i] == e[i]);
                    } else if i > e.len() {
                        assert(pair[i] == t[i - e.len() - 1]);
                    }
                }
            }
            lemma_split_single("start"@);
            lemma_split_append("start"@, n);
            lemma_split_append("start"@ + seq![' '] + n, pair);
            let words = split_spaces(render_command(c));
            assert(words =~= seq!["start"@, n, pair]);
            assert(words.drop_first() =~= seq![n, pair]);
            lemma_find_after(e, ':', t, 0);
            assert(pair.take(e.len() as int) =~= e);
            assert(pair.skip(e.len() as int + 1) =~= t);
        },
        CommandView::Stop(n) => {
            lemma_split_single("stop"@);
            lemma_split_append("stop"@, n);
            let words = split_spaces(render_command(c));
            assert(words =~= seq!["stop"@, n]);
            assert(words.drop_first() =~= seq![n]);
        },
        CommandView::Slow(n, ms) => {
            lemma_split_single("slow"@);
            lemma_split_append("slow"@, n);
            lemma_split_append("slow"@ + seq![' '] + n, ms);
            let words = split_spaces(render_command(c));
            assert(words =~= seq!["slow"@, n, ms]);
            assert(words.drop_first() =~= seq![n, ms]);
        },
        CommandView::Resume(n) => {
            lemma_split_single("resume"@);
            lemma_split_append("resume"@, n);
            let words = split_spaces(render_command(c));
            assert(words =~= seq!["resume"@, n]);
            assert(words.drop_first() =~= seq![n]);
        },
    }
}

/// A request line always holds a first word, so it is never refused for
/// lacking a command: splitting gives at least one (possibly empty) word.
pub proof fn law_request_has_command_word(input: Seq<char>)
    ensures
        spec_parse_request(input) != Err::<CommandView, ParseErrorView>(ParseErrorView::NoCommand),
{
    crate::text::lemma_split_nonempty(input);
}

/// Words past those a command takes never change the result: whenever a
/// sequence of words parses to a command, so does the same sequence followed
/// by any further words, to the same command.
pub proof fn law_extra_words_ignored(words: Seq<Seq<char>>, extra: Seq<Seq<char>>)
    requires
        spec_parse_words(words) is Ok,
    ensures
        spec_parse_words(words + extra) == spec_parse_words(words),
{
    let all = words + extra;
    assert(all[0] == words[0]);
    let args = words.drop_first();
    assert(all.drop_first() =~= args + extra);
    if args.len() > 0 {
        assert((args + extra)[0] == args[0]);
    }
    if args.len() > 1 {
        assert((args + extra)[1] == args[1]);
    }
}

/// The arguments of a command are the words right after the command word, in
/// order: `slow <name> <ms> ...` reads `<ms>` as the delay, and so on, whatever
/// words follow.
pub proof fn law_arguments_are_the_next_words(
    name: Seq<char>,
    second: Seq<char>,
    extra: Seq<Seq<char>>,
)
    ensures
        spec_parse_words(seq!["slow"@, name, second] + extra) == Ok::<
            CommandView,
            ParseErrorView,
        >(CommandView::Slow(name, second)),
        spec_parse_words(seq!["stop"@, name] + extra) == Ok::<CommandView, ParseErrorView>(
            CommandView::Stop(name),
        ),
        spec_parse_words(seq!["resume"@, name] + extra) == Ok::<CommandView, ParseErrorView>(
            CommandView::Resume(name),
        ),
        find_char(second, ':') matches Some(i) ==> spec_parse_words(
            seq!["start"@, name, second] + extra,
        ) == Ok::<CommandView, ParseErrorView>(
            CommandView::Start(name, second.take(i), second.skip(i + 1)),
        ),
{
    reveal_strlit("start");
    reveal_strlit("stop");
    reveal_strlit("slow");
    reveal_strlit("resume");
    assert("start"@.len() == 5 && "stop"@.len() == 4 && "slow"@.len() == 4 && "resume"@.len() == 6);
    assert("slow"@[1] != "stop"@[1]);
    assert("slow"@ != "stop"@);
    assert("stop"@ != "start"@);
    assert("slow"@ != "start"@);
    assert("resume"@ != "start"@ && "resume"@ != "stop"@ && "resume"@ != "slow"@);
    let w1 = seq!["slow"@, name, second];
    assert(w1.drop_first() =~= seq![name, second]);
    law_extra_words_ignored(w1, extra);
    let w2 = seq!["stop"@, name];
    assert(w2.drop_first() =~= seq![name]);
    law_extra_words_ignored(w2, extra);
    let w3 = seq!["resume"@, name];
    assert(w3.drop_first() =~= seq![name]);
    law_extra_words_ignored(w3, extra);
    let w4 = seq!["start"@, name, second];
    assert(w4.drop_first() =~= seq![name, second]);
    if find_char(second, ':') is Some {
        law_extra_words_ignored(w4, extra);
    }
}

/// A written command followed by a space and any text at all still parses to
/// that command: trailing spaces and trailing words are ignored.
pub proof fn law_trailing_text_ignored(c: CommandView, rest: Seq<char>)
    requires
        writable(c),
    ensures
        spec_parse_request(render_command(c) + seq![' '] + rest) == Ok::<
            CommandView,
            ParseErrorView,
        >(c),
{
    law_parse_reads_back_rendered(c);
    crate::text::lemma_split_concat(render_command(c), rest);
    law_extra_words_ignored(split_spaces(render_command(c)), split_spaces(rest));
}

} // verus!
