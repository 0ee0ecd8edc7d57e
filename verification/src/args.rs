//! The command line: which window the update is for, and where the
//! configuration is read from.
//!
//! `prog [--window (self|all|ID)] [FILE|-]`

use vstd::prelude::*;
use vstd::string::*;
use lexopt::Error as TokenizerError;
use crate::number::{decimal_i128, is_digit, parse_i128, unsigned_part};
use crate::text::same_text;

verus! {

/// `lexopt::Error`, the error of the command-line tokenizer. It is carried
/// through as it is; nothing is claimed of what it holds.
#[verifier::external_type_specification]
#[verifier::external_body]
pub struct ExTokenizerError(TokenizerError);

/// The window id that stands for every window.
pub const ALL_WINDOWS: i128 = -1;

/// Where the configuration is read from.
#[derive(Debug, PartialEq, Eq)]
pub enum Input {
    /// Standard input.
    StdIn,
    /// The file at this path.
    File(String),
}

/// An [`Input`] as mathematics.
pub enum InputView {
    StdIn,
    File(Seq<char>),
}

impl View for Input {
    type V = InputView;

    open spec fn view(&self) -> InputView {
        match self {
            Input::StdIn => InputView::StdIn,
            Input::File(path) => InputView::File(path@),
        }
    }
}

/// Why a command line was turned down.
#[derive(Debug)]
pub enum Error {
    /// The tokenizer could not read the command line.
    ParseError(TokenizerError),
    /// A flag that the program does not know, as it was written.
    UnexpectedFlag(String),
    /// Something that may be given once was given again.
    Duplicate(String),
    /// A window id that is no integer; the text that was given.
    InvalidWindowId(String),
    /// The window `self` was asked for, and the environment names none.
    MissingWindowId,
    /// Help was asked for.
    Help,
}

/// An [`Error`] as mathematics.
pub enum ErrorView {
    ParseError(TokenizerError),
    UnexpectedFlag(Seq<char>),
    Duplicate(Seq<char>),
    InvalidWindowId(Seq<char>),
    MissingWindowId,
    Help,
}

impl View for Error {
    type V = ErrorView;

    open spec fn view(&self) -> ErrorView {
        match self {
            Error::ParseError(cause) => ErrorView::ParseError(*cause),
            Error::UnexpectedFlag(flag) => ErrorView::UnexpectedFlag(flag@),
            Error::Duplicate(what) => ErrorView::Duplicate(what@),
            Error::InvalidWindowId(text) => ErrorView::InvalidWindowId(text@),
            Error::MissingWindowId => ErrorView::MissingWindowId,
            Error::Help => ErrorView::Help,
        }
    }
}

/// The word that asks for every window.
pub open spec fn word_all() -> Seq<char> {
    "all"@
}

/// The word that asks for the window the program runs in.
pub open spec fn word_self() -> Seq<char> {
    "self"@
}

/// The window id that `text` denotes, if it is an integer.
pub open spec fn window_id_of(text: Seq<char>) -> Result<i128, ErrorView> {
    match decimal_i128(text) {
        Some(id) => Ok(id),
        None => Err(ErrorView::InvalidWindowId(text)),
    }
}

/// The window that is meant, given the value of the window flag, if it was
/// passed, and what the environment holds as the id of the window the
/// program runs in, if it holds one.
pub open spec fn resolved(flag: Option<Seq<char>>, env: Option<Seq<char>>) -> Result<
    i128,
    ErrorView,
> {
    match flag {
        None => match env {
            Some(id) => if id.len() == 0 {
                Ok(ALL_WINDOWS)
            } else {
                window_id_of(id)
            },
            None => Ok(ALL_WINDOWS),
        },
        Some(value) => if value == word_all() {
            Ok(ALL_WINDOWS)
        } else if value == word_self() {
            match env {
                Some(id) => window_id_of(id),
                None => Err(ErrorView::MissingWindowId),
            }
        } else {
            window_id_of(value)
        },
    }
}

/// `all` means every window, whatever the environment holds.
pub proof fn lemma_all_is_every_window(env: Option<Seq<char>>)
    ensures
        resolved(Some(word_all()), env) == Ok::<i128, ErrorView>(ALL_WINDOWS),
{
}

/// A flag value that is an integer is the window id, whatever the
/// environment holds.
pub proof fn lemma_integer_is_taken(value: Seq<char>, env: Option<Seq<char>>)
    requires
        decimal_i128(value) is Some,
    ensures
        resolved(Some(value), env) == Ok::<i128, ErrorView>(decimal_i128(value)->0),
{
    // a decimal string begins with a sign or a digit, and a digit follows a sign
    reveal_strlit("all");
    reveal_strlit("self");
    assert(is_digit(unsigned_part(value)[0]));
}

/// A flag value that is neither `all`, `self` nor an integer is turned
/// down as an invalid window id, whatever the environment holds.
pub proof fn lemma_other_text_is_invalid(value: Seq<char>, env: Option<Seq<char>>)
    requires
        value != word_all(),
        value != word_self(),
        decimal_i128(value) is None,
    ensures
        resolved(Some(value), env) == Err::<i128, ErrorView>(ErrorView::InvalidWindowId(value)),
{
}

/// The text of an optional string.
pub open spec fn text_of(text: Option<&str>) -> Option<Seq<char>> {
    match text {
        Some(t) => Some(t@),
        None => None,
    }
}

/// `r` is the executable form of `expected`.
pub open spec fn is_id_result(r: Result<i128, Error>, expected: Result<i128, ErrorView>) -> bool {
    match expected {
        Ok(id) => r == Ok::<i128, Error>(id),
        Err(fault) => r matches Err(e) && e@ == fault,
    }
}

/// Reads a window id.
fn window_id(text: &str) -> (r: Result<i128, Error>)
    ensures
        is_id_result(r, window_id_of(text@)),
{
    match parse_i128(text) {
        Some(id) => Ok(id),
        None => Err(Error::InvalidWindowId(text.to_owned())),
    }
}

/// Resolves the window that an update is for.
///
/// `flag_value` is the value of the window flag, if it was passed;
/// `env_window_id` is what the environment holds under
/// `ALACRITTY_WINDOW_ID`, if it holds anything.
///
/// - no flag: the id from the environment, or every window if the
///   environment holds none or an empty one;
/// - `all`: every window;
/// - `self`: the id from the environment, which must be there;
/// - anything else: the flag's value itself, as an integer.
pub fn resolve(flag_value: Option<&str>, env_window_id: Option<&str>) -> (r: Result<i128, Error>)
    ensures
        is_id_result(r, resolved(text_of(flag_value), text_of(env_window_id))),
{
    match flag_value {
        None => match env_window_id {
            Some(id) => if id.is_empty() {
                Ok(ALL_WINDOWS)
            } else {
                window_id(id)
            },
            None => Ok(ALL_WINDOWS),
        },
        Some(value) => if same_text(value, "all") {
            Ok(ALL_WINDOWS)
        } else if same_text(value, "self") {
            match env_window_id {
                Some(id) => window_id(id),
                None => Err(Error::MissingWindowId),
            }
        } else {
            window_id(value)
        },
    }
}

/// One item of the command line, as the tokenizer hands it out.
#[derive(Debug, PartialEq, Eq)]
pub enum Token {
    /// A short option, `-q`, without its dash.
    Short(char),
    /// A long option, `--verbose`, without its dashes.
    Long(String),
    /// A positional argument.
    Value(String),
}

/// A [`Token`] as mathematics.
pub enum TokenView {
    Short(char),
    Long(Seq<char>),
    Value(Seq<char>),
}

impl View for Token {
    type V = TokenView;

    open spec fn view(&self) -> TokenView {
        match self {
            Token::Short(c) => TokenView::Short(*c),
            Token::Long(name) => TokenView::Long(name@),
            Token::Value(value) => TokenView::Value(value@),
        }
    }
}

/// What the command line has asked for so far.
#[derive(Debug, PartialEq, Eq)]
pub struct Request {
    /// The value of the window flag, once it was passed.
    pub window: Option<String>,
    /// The input, once a positional argument named it.
    pub input: Option<Input>,
}

/// A [`Request`] as mathematics.
pub struct RequestView {
    pub window: Option<Seq<char>>,
    pub input: Option<InputView>,
}

impl View for Request {
    type V = RequestView;

    open spec fn view(&self) -> RequestView {
        RequestView {
            window: match self.window {
                Some(value) => Some(value@),
                None => None,
            },
            input: match self.input {
                Some(input) => Some(input@),
                None => None,
            },
        }
    }
}

/// The parsed command line.
#[derive(Debug, PartialEq, Eq)]
pub struct Args {
    /// The window to target; `Some(-1)` means every window.
    pub window_id: Option<i128>,
    /// The source of the configuration.
    pub input: Input,
}

/// An [`Args`] as mathematics.
pub struct ArgsView {
    pub window_id: Option<i128>,
    pub input: InputView,
}

impl View for Args {
    type V = ArgsView;

    open spec fn view(&self) -> ArgsView {
        ArgsView { window_id: self.window_id, input: self.input@ }
    }
}

/// The name of the long help flag.
pub open spec fn word_help() -> Seq<char> {
    "help"@
}

/// The name of the long window flag, and what a repeated one is reported as.
pub open spec fn word_window() -> Seq<char> {
    "window"@
}

/// The positional argument that stands for standard input.
pub open spec fn word_dash() -> Seq<char> {
    "-"@
}

/// What a second positional argument is reported as when it is a file.
pub open spec fn word_file() -> Seq<char> {
    "FILE"@
}

/// What a second positional argument is reported as when it is `-`.
pub open spec fn word_file_stdin() -> Seq<char> {
    "FILE (stdin)"@
}

/// `token` is the window flag, `-w` or `--window`, whose value comes next.
pub open spec fn wants_value(token: TokenView) -> bool {
    token == TokenView::Short('w') || token == TokenView::Long(word_window())
}

/// `token` asks for help: `-h` or `--help`.
pub open spec fn asks_help(token: TokenView) -> bool {
    token == TokenView::Short('h') || token == TokenView::Long(word_help())
}

/// The request after `token`, or why the token is turned down.
///
/// - `-h`, `--help`: help was asked for;
/// - `-w`, `--window`: accepted where no window was asked for yet (the
///   value follows, see [`with_window`]), a duplicate otherwise;
/// - a positional argument: `-` for standard input, anything else for a
///   file, and a duplicate where the input was named before;
/// - any other flag: unexpected, reported as it was written.
pub open spec fn accepted(request: RequestView, token: TokenView) -> Result<RequestView, ErrorView> {
    if asks_help(token) {
        Err(ErrorView::Help)
    } else if wants_value(token) {
        if request.window is Some {
            Err(ErrorView::Duplicate(word_window()))
        } else {
            Ok(request)
        }
    } else {
        match token {
            TokenView::Value(value) => if value == word_dash() {
                if request.input is Some {
                    Err(ErrorView::Duplicate(word_file_stdin()))
                } else {
                    Ok(RequestView { input: Some(InputView::StdIn), ..request })
                }
            } else {
                if request.input is Some {
                    Err(ErrorView::Duplicate(word_file()))
                } else {
                    Ok(RequestView { input: Some(InputView::File(value)), ..request })
                }
            },
            TokenView::Short(c) => Err(ErrorView::UnexpectedFlag("-"@.push(c))),
            TokenView::Long(name) => Err(ErrorView::UnexpectedFlag("--"@ + name)),
        }
    }
}

/// The request once the window flag has its value.
pub open spec fn with_window(request: RequestView, value: Seq<char>) -> RequestView {
    RequestView { window: Some(value), ..request }
}

/// What a finished request comes to: the window is resolved against the
/// environment, and the input is standard input unless a file was named.
pub open spec fn finished(request: RequestView, env: Option<Seq<char>>) -> Result<
    ArgsView,
    ErrorView,
> {
    match resolved(request.window, env) {
        Ok(id) => Ok(
            ArgsView {
                window_id: Some(id),
                input: match request.input {
                    Some(input) => input,
                    None => InputView::StdIn,
                },
            },
        ),
        Err(fault) => Err(fault),
    }
}

/// A window flag after the first is a duplicate, whatever its value would
/// be and whatever else was asked for.
pub proof fn lemma_second_window_is_duplicate(request: RequestView, token: TokenView)
    requires
        request.window is Some,
        wants_value(token),
    ensures
        accepted(request, token) == Err::<RequestView, ErrorView>(
            ErrorView::Duplicate(word_window()),
        ),
{
    reveal_strlit("window");
    reveal_strlit("help");
    assert(word_window() != word_help()) by {
        assert(word_window()[0] != word_help()[0]);
    }
}

/// A positional argument after the first is a duplicate, a file as much as
/// `-`.
pub proof fn lemma_second_positional_is_duplicate(request: RequestView, value: Seq<char>)
    requires
        request.input is Some,
    ensures
        accepted(request, TokenView::Value(value)) matches Err(ErrorView::Duplicate(_)),
{
}

/// A flag that asks neither for help nor for a window is unexpected,
/// whatever was asked for before it.
pub proof fn lemma_unknown_flag_is_unexpected(request: RequestView, token: TokenView)
    requires
        token is Short || token is Long,
        !asks_help(token),
        !wants_value(token),
    ensures
        accepted(request, token) matches Err(ErrorView::UnexpectedFlag(_)),
{
}

impl Token {
    /// Whether this is the window flag, `-w` or `--window`: the one option
    /// that takes a value.
    pub fn wants_value(&self) -> (r: bool)
        ensures
            r == wants_value(self@),
    {
        match self {
            Token::Short(c) => *c == 'w',
            Token::Long(name) => same_text(name.as_str(), "window"),
            Token::Value(_) => false,
        }
    }

    /// Whether this asks for help: `-h` or `--help`.
    fn asks_help(&self) -> (r: bool)
        ensures
            r == asks_help(self@),
    {
        match self {
            Token::Short(c) => *c == 'h',
            Token::Long(name) => same_text(name.as_str(), "help"),
            Token::Value(_) => false,
        }
    }
}

impl Request {
    /// The request of an empty command line: nothing asked for.
    pub fn new() -> (request: Request)
        ensures
            request@ == (RequestView { window: None, input: None }),
    {
        Request { window: None, input: None }
    }

    /// Takes the next token of the command line.
    pub fn accept(self, token: Token) -> (r: Result<Request, Error>)
        ensures
            match accepted(self@, token@) {
                Ok(next) => r matches Ok(request) && request@ == next,
                Err(fault) => r matches Err(e) && e@ == fault,
            },
    {
        if token.asks_help() {
            return Err(Error::Help);
        }
        if token.wants_value() {
            if self.window.is_some() {
                return Err(Error::Duplicate("window".to_owned()));
            }
            return Ok(self);
        }
        match token {
            Token::Value(value) => {
                let stdin = same_text(value.as_str(), "-");
                if self.input.is_some() {
                    if stdin {
                        Err(Error::Duplicate("FILE (stdin)".to_owned()))
                    } else {
                        Err(Error::Duplicate("FILE".to_owned()))
                    }
                } else if stdin {
                    Ok(Request { window: self.window, input: Some(Input::StdIn) })
                } else {
                    Ok(Request { window: self.window, input: Some(Input::File(value)) })
                }
            },
            Token::Short(c) => {
                let mut flag = "-".to_owned();
                flag.push(c);
                Err(Error::UnexpectedFlag(flag))
            },
            Token::Long(name) => {
                let mut flag = "--".to_owned();
                flag.append(name.as_str());
                Err(Error::UnexpectedFlag(flag))
            },
        }
    }

    /// Gives the window flag, which was just accepted, its value.
    pub fn with_window(self, value: String) -> (request: Request)
        ensures
            request@ == with_window(self@, value@),
    {
        Request { window: Some(value), input: self.input }
    }

    /// Ends the command line: resolves the window against
    /// `env_window_id`, what the environment holds under
    /// `ALACRITTY_WINDOW_ID`, and settles the input.
    pub fn finish(self, env_window_id: Option<&str>) -> (r: Result<Args, Error>)
        ensures
            match finished(self@, text_of(env_window_id)) {
                Ok(args) => r matches Ok(a) && a@ == args,
                Err(fault) => r matches Err(e) && e@ == fault,
            },
            r matches Ok(a) ==> a.window_id is Some,
    {
        let flag = match &self.window {
            Some(value) => Some(value.as_str()),
            None => None,
        };
        let id = match resolve(flag, env_window_id) {
            Ok(id) => id,
            Err(e) => {
                return Err(e);
            },
        };
        let input = match self.input {
            Some(input) => input,
            None => Input::StdIn,
        };
        Ok(Args { window_id: Some(id), input })
    }
}

/// `lexopt::Parser`, the command-line tokenizer. Verus sees nothing inside
/// it: what it does is known through [`lexed_next`], [`lexed_value`] and
/// [`unread`] alone.
#[verifier::external_type_specification]
#[verifier::external_body]
pub struct ExTokenizer(lexopt::Parser);

/// What `lexopt::Parser::next` does with a tokenizer in the state `parser`:
/// what it hands out, a positional argument decoded as by
/// `lexopt::ValueExt::string`, and the state it leaves the tokenizer in.
pub uninterp spec fn lexed_next(parser: lexopt::Parser) -> (
    Result<Option<TokenView>, TokenizerError>,
    lexopt::Parser,
);

/// What `lexopt::Parser::value` does with a tokenizer in the state
/// `parser`: the value it hands out, decoded as by
/// `lexopt::ValueExt::string`, and the state it leaves the tokenizer in.
pub uninterp spec fn lexed_value(parser: lexopt::Parser) -> (
    Result<Seq<char>, TokenizerError>,
    lexopt::Parser,
);

/// How much of the command line a tokenizer has yet to hand out: the bytes
/// it has not consumed, and one more for each argument it has not begun.
pub uninterp spec fn unread(parser: lexopt::Parser) -> nat;

/// What the tokenizer handed out, as mathematics.
pub open spec fn token_outcome(r: Result<Option<Token>, TokenizerError>) -> Result<
    Option<TokenView>,
    TokenizerError,
> {
    match r {
        Ok(Some(token)) => Ok(Some(token@)),
        Ok(None) => Ok(None),
        Err(e) => Err(e),
    }
}

/// The value the tokenizer handed out, as mathematics.
pub open spec fn value_outcome(r: Result<String, TokenizerError>) -> Result<
    Seq<char>,
    TokenizerError,
> {
    match r {
        Ok(value) => Ok(value@),
        Err(e) => Err(e),
    }
}

/// Calls `lexopt::Parser::next` and hands out what it returns as a
/// [`Token`], a positional argument decoded by `lexopt::ValueExt::string`.
///
/// Trusted: the call is a function of the tokenizer's state, and when it
/// hands out an argument it has consumed some of the command line.
#[verifier::external_body]
fn next_token(parser: &mut lexopt::Parser) -> (r: Result<Option<Token>, TokenizerError>)
    ensures
        token_outcome(r) == lexed_next(*old(parser)).0,
        *final(parser) == lexed_next(*old(parser)).1,
        r matches Ok(Some(_)) ==> unread(*final(parser)) < unread(*old(parser)),
{
    Ok(
        match parser.next()? {
            Some(lexopt::Arg::Short(c)) => Some(Token::Short(c)),
            Some(lexopt::Arg::Long(name)) => Some(Token::Long(name.to_owned())),
            Some(lexopt::Arg::Value(value)) => Some(Token::Value(lexopt::ValueExt::string(value)?)),
            None => None,
        },
    )
}

/// Calls `lexopt::Parser::value`, for the value of the option that was
/// handed out last, and decodes it by `lexopt::ValueExt::string`.
///
/// Trusted: the call is a function of the tokenizer's state, and it gives
/// nothing back to the command line.
#[verifier::external_body]
fn option_value(parser: &mut lexopt::Parser) -> (r: Result<String, TokenizerError>)
    ensures
        value_outcome(r) == lexed_value(*old(parser)).0,
        *final(parser) == lexed_value(*old(parser)).1,
        unread(*final(parser)) <= unread(*old(parser)),
{
    lexopt::ValueExt::string(parser.value()?)
}

/// The request that the rest of a command line comes to: the tokens that
/// `parser` hands out, each taken by [`accepted`], a window flag followed by
/// its value, up to the first that is turned down.
///
/// A tokenizer has less to hand out after every token, which is what lets
/// this be defined; the test on [`unread`] never fails.
pub open spec fn scanned(parser: lexopt::Parser, request: RequestView) -> Result<
    RequestView,
    ErrorView,
>
    decreases unread(parser),
{
    match lexed_next(parser).0 {
        Err(e) => Err(ErrorView::ParseError(e)),
        Ok(None) => Ok(request),
        Ok(Some(token)) => match accepted(request, token) {
            Err(fault) => Err(fault),
            Ok(next) => {
                let after = lexed_next(parser).1;
                if wants_value(token) {
                    let rest = lexed_value(after).1;
                    match lexed_value(after).0 {
                        Err(e) => Err(ErrorView::ParseError(e)),
                        Ok(value) => if unread(rest) < unread(parser) {
                            scanned(rest, with_window(next, value))
                        } else {
                            Ok(with_window(next, value))
                        },
                    }
                } else if unread(after) < unread(parser) {
                    scanned(after, next)
                } else {
                    Ok(next)
                }
            },
        },
    }
}

/// What a command line comes to: its tokens are scanned, and the request
/// that results is finished against the environment.
pub open spec fn parsed(parser: lexopt::Parser, env: Option<Seq<char>>) -> Result<
    ArgsView,
    ErrorView,
> {
    match scanned(parser, RequestView { window: None, input: None }) {
        Ok(request) => finished(request, env),
        Err(fault) => Err(fault),
    }
}

impl Args {
    /// Parses the command line that `raw` holds. `env_window_id` is what
    /// the environment holds under `ALACRITTY_WINDOW_ID`, if anything.
    ///
    /// The tokens are taken in order and the first that is turned down ends
    /// the parse with its error; an error of the tokenizer itself comes
    /// back as [`Error::ParseError`]. The window is resolved at the end.
    pub fn try_from(raw: lexopt::Parser, env_window_id: Option<&str>) -> (r: Result<Args, Error>)
        ensures
            match parsed(raw, text_of(env_window_id)) {
                Ok(args) => r matches Ok(a) && a@ == args,
                Err(fault) => r matches Err(e) && e@ == fault,
            },
            r matches Ok(a) ==> a.window_id is Some,
    {
        let mut parser = raw;
        let mut request = Request::new();
        loop
            invariant_except_break
                scanned(raw, RequestView { window: None, input: None }) == scanned(
                    parser,
                    request@,
                ),
            ensures
                scanned(raw, RequestView { window: None, input: None }) == Ok::<
                    RequestView,
                    ErrorView,
                >(request@),
            decreases unread(parser),
        {
            let token = match next_token(&mut parser) {
                Ok(Some(token)) => token,
                Ok(None) => {
                    break ;
                },
                Err(e) => {
                    return Err(Error::ParseError(e));
                },
            };
            let wants = token.wants_value();
            request = match request.accept(token) {
                Ok(next) => next,
                Err(e) => {
                    return Err(e);
                },
            };
            if wants {
                let value = match option_value(&mut parser) {
                    Ok(value) => value,
                    Err(e) => {
                        return Err(Error::ParseError(e));
                    },
                };
                request = request.with_window(value);
            }
        }
        request.finish(env_window_id)
    }
}

} // verus!
