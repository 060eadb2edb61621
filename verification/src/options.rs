//! The command line of a replay: splitting it into tokens, reading the
//! options, and choosing the messages to replay.

use crate::model::{ImportOptions, MessageInfo};
use crate::text::{
    chars_of, digits_value, find_first, first_index, is_whitespace, lemma_digits_prefix,
    lemma_first_index, parse_number, parse_unsigned, push_str, slice_of, string_of, text_is,
    texts, whitespace,
};
use vstd::prelude::*;

verus! {

/// The scanner's progress over a command line: the tokens finished so far,
/// the token being read, and whether a quotation is open.
pub open spec fn split_from(
    input: Seq<char>,
    tokens: Seq<Seq<char>>,
    current: Seq<char>,
    quoted: bool,
) -> Seq<Seq<char>>
    decreases input.len(),
{
    if input.len() == 0 {
        if current.len() > 0 {
            tokens.push(current)
        } else {
            tokens
        }
    } else {
        let c = input[0];
        let rest = input.skip(1);
        if c == '"' {
            split_from(rest, tokens, current, !quoted)
        } else if is_whitespace(c) && !quoted {
            if current.len() > 0 {
                split_from(rest, tokens.push(current), Seq::empty(), quoted)
            } else {
                split_from(rest, tokens, current, quoted)
            }
        } else {
            split_from(rest, tokens, current.push(c), quoted)
        }
    }
}

/// The tokens of a command line. White space outside quotation marks
/// separates tokens; a quotation mark opens or closes a quotation and is
/// itself dropped; no token is empty.
pub open spec fn tokens_of(input: Seq<char>) -> Seq<Seq<char>> {
    split_from(input, Seq::empty(), Seq::empty(), false)
}

/// Splits a command line into its tokens.
pub fn split_args(input: &str) -> (tokens: Vec<String>)
    ensures
        texts(tokens@) == tokens_of(input@),
{
    let chars = chars_of(input);
    let mut tokens: Vec<String> = Vec::new();
    let mut current: Vec<char> = Vec::new();
    let mut quoted = false;
    let mut i: usize = 0;
    assert(chars@.skip(0) == chars@);
    assert(texts(tokens@) == Seq::<Seq<char>>::empty());
    while i < chars.len()
        invariant
            i <= chars.len(),
            chars@ == input@,
            split_from(chars@.skip(i as int), texts(tokens@), current@, quoted) == tokens_of(
                input@,
            ),
        decreases chars.len() - i,
    {
        let c = chars[i];
        assert(chars@.skip(i as int).skip(1) == chars@.skip(i + 1));
        assert(chars@.skip(i as int)[0] == c);
        if c == '"' {
            quoted = !quoted;
        } else if whitespace(c) && !quoted {
            if current.len() > 0 {
                let ghost before = texts(tokens@);
                let token = string_of(&current);
                tokens.push(token);
                assert(texts(tokens@) == before.push(current@));
                current = Vec::new();
            }
        } else {
            current.push(c);
        }
        i += 1;
    }
    if current.len() > 0 {
        let ghost before = texts(tokens@);
        let token = string_of(&current);
        tokens.push(token);
        assert(texts(tokens@) == before.push(current@));
    }
    tokens
}

/// An option that is followed by a value.
#[derive(Clone, Copy, Debug, PartialEq, Eq)]
pub enum ValueFlag {
    Range,
    RangeStart,
    RangeEnd,
    First,
    Last,
}

impl ValueFlag {
    /// The option as it is written on the command line.
    pub open spec fn name(self) -> Seq<char> {
        match self {
            ValueFlag::Range => "--range"@,
            ValueFlag::RangeStart => "--range-start"@,
            ValueFlag::RangeEnd => "--range-end"@,
            ValueFlag::First => "--first"@,
            ValueFlag::Last => "--last"@,
        }
    }

    /// The option as it is written on the command line.
    pub fn as_str(&self) -> (r: &'static str)
        ensures
            r@ == self.name(),
    {
        match self {
            ValueFlag::Range => "--range",
            ValueFlag::RangeStart => "--range-start",
            ValueFlag::RangeEnd => "--range-end",
            ValueFlag::First => "--first",
            ValueFlag::Last => "--last",
        }
    }
}

/// Why a list of options was refused.
#[derive(Debug, PartialEq, Eq)]
pub enum OptionError {
    /// A token that is no option.
    Unknown(String),
    /// The list ends where an option's value is due.
    MissingValue(ValueFlag),
    /// The value of a numeric option is no number.
    InvalidValue(ValueFlag),
    /// The value of `--range` has no comma.
    RangeFormat,
    /// What stands before the comma of `--range` is no number.
    RangeStart,
    /// What stands after the comma of `--range` is no number.
    RangeEnd,
    /// `--no-reactions` together with `--button`.
    ReactionsWithButton,
    /// `--disable-button` without `--button`.
    DisableButtonAlone,
    /// `--no-embed` without `--outside`.
    NoEmbedAlone,
}

/// An `OptionError` with its token as text.
pub enum OptionErrorView {
    Unknown(Seq<char>),
    MissingValue(ValueFlag),
    InvalidValue(ValueFlag),
    RangeFormat,
    RangeStart,
    RangeEnd,
    ReactionsWithButton,
    DisableButtonAlone,
    NoEmbedAlone,
}

impl View for OptionError {
    type V = OptionErrorView;

    open spec fn view(&self) -> OptionErrorView {
        match *self {
            OptionError::Unknown(token) => OptionErrorView::Unknown(token@),
            OptionError::MissingValue(flag) => OptionErrorView::MissingValue(flag),
            OptionError::InvalidValue(flag) => OptionErrorView::InvalidValue(flag),
            OptionError::RangeFormat => OptionErrorView::RangeFormat,
            OptionError::RangeStart => OptionErrorView::RangeStart,
            OptionError::RangeEnd => OptionErrorView::RangeEnd,
            OptionError::ReactionsWithButton => OptionErrorView::ReactionsWithButton,
            OptionError::DisableButtonAlone => OptionErrorView::DisableButtonAlone,
            OptionError::NoEmbedAlone => OptionErrorView::NoEmbedAlone,
        }
    }
}

impl OptionErrorView {
    /// The sentence shown to the user.
    pub open spec fn message(self) -> Seq<char> {
        match self {
            OptionErrorView::Unknown(token) => "Unknown option: "@ + token,
            OptionErrorView::MissingValue(flag) => "Missing value for "@ + flag.name(),
            OptionErrorView::InvalidValue(flag) => "Invalid value for "@ + flag.name(),
            OptionErrorView::RangeFormat => "Invalid format for --range. Use start,end"@,
            OptionErrorView::RangeStart => "Invalid start value in --range"@,
            OptionErrorView::RangeEnd => "Invalid end value in --range"@,
            OptionErrorView::ReactionsWithButton => {
                "--no-reactions and --button cannot be used together"@
            },
            OptionErrorView::DisableButtonAlone => {
                "--disable-button can only be used with --button"@
            },
            OptionErrorView::NoEmbedAlone => "--no-embed can only be used with --outside"@,
        }
    }
}

impl OptionError {
    /// The sentence shown to the user.
    pub fn message(&self) -> (r: String)
        ensures
            r@ == self@.message(),
    {
        let mut out: Vec<char> = Vec::new();
        match self {
            OptionError::Unknown(token) => {
                push_str(&mut out, "Unknown option: ");
                push_str(&mut out, token.as_str());
            },
            OptionError::MissingValue(flag) => {
                push_str(&mut out, "Missing value for ");
                push_str(&mut out, flag.as_str());
            },
            OptionError::InvalidValue(flag) => {
                push_str(&mut out, "Invalid value for ");
                push_str(&mut out, flag.as_str());
            },
            OptionError::RangeFormat => {
                push_str(&mut out, "Invalid format for --range. Use start,end");
            },
            OptionError::RangeStart => {
                push_str(&mut out, "Invalid start value in --range");
            },
            OptionError::RangeEnd => {
                push_str(&mut out, "Invalid end value in --range");
            },
            OptionError::ReactionsWithButton => {
                push_str(&mut out, "--no-reactions and --button cannot be used together");
            },
            OptionError::DisableButtonAlone => {
                push_str(&mut out, "--disable-button can only be used with --button");
            },
            OptionError::NoEmbedAlone => {
                push_str(&mut out, "--no-embed can only be used with --outside");
            },
        }
        assert(Seq::<char>::empty() + self@.message() == self@.message());
        string_of(&out)
    }
}

/// The count or position that `s` writes: an optional plus sign and decimal
/// digits, the value fitting `usize`.
pub open spec fn index_of(s: Seq<char>) -> Option<usize> {
    match parse_unsigned(s, 10, usize::MAX as nat) {
        Some(v) => Some(v as usize),
        None => None,
    }
}

/// Reads a count or position.
pub fn parse_index(s: &Vec<char>) -> (r: Option<usize>)
    ensures
        r == index_of(s@),
{
    match parse_number(s, 10, usize::MAX as u64) {
        Some(v) => Some(v as usize),
        None => None,
    }
}

/// `o` with the switch that `arg` names turned on; `None` if `arg` names no
/// switch.
pub open spec fn with_switch(o: ImportOptions, arg: Seq<char>) -> Option<ImportOptions> {
    if arg == "--no-guild"@ {
        Some(ImportOptions { no_guild: true, ..o })
    } else if arg == "--no-category"@ {
        Some(ImportOptions { no_category: true, ..o })
    } else if arg == "--no-channel"@ {
        Some(ImportOptions { no_channel: true, ..o })
    } else if arg == "--no-timestamp"@ {
        Some(ImportOptions { no_timestamp: true, ..o })
    } else if arg == "--no-mentions"@ {
        Some(ImportOptions { no_mentions: true, ..o })
    } else if arg == "--no-reactions"@ {
        Some(ImportOptions { no_reactions: true, ..o })
    } else if arg == "--no-embed"@ {
        Some(ImportOptions { no_embed: true, ..o })
    } else if arg == "--button"@ {
        Some(ImportOptions { button: true, ..o })
    } else if arg == "--reaction-users"@ {
        Some(ImportOptions { reaction_users: true, ..o })
    } else if arg == "--outside"@ {
        Some(ImportOptions { outside: true, ..o })
    } else if arg == "--disable-button"@ {
        Some(ImportOptions { disable_button: true, ..o })
    } else {
        None
    }
}

/// The option with a value that `arg` names, if any.
pub open spec fn value_flag_of(arg: Seq<char>) -> Option<ValueFlag> {
    if arg == "--range"@ {
        Some(ValueFlag::Range)
    } else if arg == "--range-start"@ {
        Some(ValueFlag::RangeStart)
    } else if arg == "--range-end"@ {
        Some(ValueFlag::RangeEnd)
    } else if arg == "--first"@ {
        Some(ValueFlag::First)
    } else if arg == "--last"@ {
        Some(ValueFlag::Last)
    } else {
        None
    }
}

/// `o` after the option `flag` was given the value `value`.
pub open spec fn with_value(o: ImportOptions, flag: ValueFlag, value: Seq<char>) -> Result<
    ImportOptions,
    OptionErrorView,
> {
    match flag {
        ValueFlag::Range => match first_index(value, ',') {
            None => Err(OptionErrorView::RangeFormat),
            Some(comma) => match index_of(value.take(comma)) {
                None => Err(OptionErrorView::RangeStart),
                Some(start) => match index_of(value.skip(comma + 1)) {
                    None => Err(OptionErrorView::RangeEnd),
                    Some(end) => Ok(
                        ImportOptions { range_start: Some(start), range_end: Some(end), ..o },
                    ),
                },
            },
        },
        ValueFlag::RangeStart => match index_of(value) {
            Some(n) => Ok(ImportOptions { range_start: Some(n), ..o }),
            None => Err(OptionErrorView::InvalidValue(flag)),
        },
        ValueFlag::RangeEnd => match index_of(value) {
            Some(n) => Ok(ImportOptions { range_end: Some(n), ..o }),
            None => Err(OptionErrorView::InvalidValue(flag)),
        },
        ValueFlag::First => match index_of(value) {
            Some(n) => Ok(ImportOptions { first: Some(n), ..o }),
            None => Err(OptionErrorView::InvalidValue(flag)),
        },
        ValueFlag::Last => match index_of(value) {
            Some(n) => Ok(ImportOptions { last: Some(n), ..o }),
            None => Err(OptionErrorView::InvalidValue(flag)),
        },
    }
}

/// The options after reading `args` from position `at` on, left to right,
/// starting from `o`; or the first error met.
pub open spec fn read_from(args: Seq<Seq<char>>, at: int, o: ImportOptions) -> Result<
    ImportOptions,
    OptionErrorView,
>
    decreases args.len() - at,
{
    if at < 0 || at >= args.len() {
        Ok(o)
    } else {
        match with_switch(o, args[at]) {
            Some(next) => read_from(args, at + 1, next),
            None => match value_flag_of(args[at]) {
                None => Err(OptionErrorView::Unknown(args[at])),
                Some(flag) => if at + 1 >= args.len() {
                    Err(OptionErrorView::MissingValue(flag))
                } else {
                    match with_value(o, flag, args[at + 1]) {
                        Ok(next) => read_from(args, at + 2, next),
                        Err(e) => Err(e),
                    }
                },
            },
        }
    }
}

/// The combination of options that is refused, if `o` holds one.
pub open spec fn conflict_in(o: ImportOptions) -> Option<OptionErrorView> {
    if o.no_reactions && o.button {
        Some(OptionErrorView::ReactionsWithButton)
    } else if o.disable_button && !o.button {
        Some(OptionErrorView::DisableButtonAlone)
    } else if o.no_embed && !o.outside {
        Some(OptionErrorView::NoEmbedAlone)
    } else {
        None
    }
}

/// What a list of option tokens means: the options it sets, or why it is
/// refused. Tokens are read left to right and the first faulty one decides;
/// combinations are judged once all tokens are read.
pub open spec fn options_of(args: Seq<Seq<char>>) -> Result<ImportOptions, OptionErrorView> {
    match read_from(args, 0, ImportOptions::blank()) {
        Ok(o) => match conflict_in(o) {
            Some(e) => Err(e),
            None => Ok(o),
        },
        Err(e) => Err(e),
    }
}

/// Turns on the switch that `arg` names.
fn set_switch(o: ImportOptions, arg: &Vec<char>) -> (r: Option<ImportOptions>)
    ensures
        r == with_switch(o, arg@),
{
    if text_is(arg, "--no-guild") {
        Some(ImportOptions { no_guild: true, ..o })
    } else if text_is(arg, "--no-category") {
        Some(ImportOptions { no_category: true, ..o })
    } else if text_is(arg, "--no-channel") {
        Some(ImportOptions { no_channel: true, ..o })
    } else if text_is(arg, "--no-timestamp") {
        Some(ImportOptions { no_timestamp: true, ..o })
    } else if text_is(arg, "--no-mentions") {
        Some(ImportOptions { no_mentions: true, ..o })
    } else if text_is(arg, "--no-reactions") {
        Some(ImportOptions { no_reactions: true, ..o })
    } else if text_is(arg, "--no-embed") {
        Some(ImportOptions { no_embed: true, ..o })
    } else if text_is(arg, "--button") {
        Some(ImportOptions { button: true, ..o })
    } else if text_is(arg, "--reaction-users") {
        Some(ImportOptions { reaction_users: true, ..o })
    } else if text_is(arg, "--outside") {
        Some(ImportOptions { outside: true, ..o })
    } else if text_is(arg, "--disable-button") {
        Some(ImportOptions { disable_button: true, ..o })
    } else {
        None
    }
}

/// The option with a value that `arg` names.
fn value_flag(arg: &Vec<char>) -> (r: Option<ValueFlag>)
    ensures
        r == value_flag_of(arg@),
{
    if text_is(arg, "--range") {
        Some(ValueFlag::Range)
    } else if text_is(arg, "--range-start") {
        Some(ValueFlag::RangeStart)
    } else if text_is(arg, "--range-end") {
        Some(ValueFlag::RangeEnd)
    } else if text_is(arg, "--first") {
        Some(ValueFlag::First)
    } else if text_is(arg, "--last") {
        Some(ValueFlag::Last)
    } else {
        None
    }
}

/// Gives the option `flag` its value.
fn set_value(o: ImportOptions, flag: ValueFlag, value: &Vec<char>) -> (r: Result<
    ImportOptions,
    OptionError,
>)
    ensures
        match r {
            Ok(next) => with_value(o, flag, value@) == Ok::<ImportOptions, OptionErrorView>(next),
            Err(e) => with_value(o, flag, value@) == Err::<ImportOptions, OptionErrorView>(e@),
        },
{
    match flag {
        ValueFlag::Range => match find_first(value, ',') {
            None => Err(OptionError::RangeFormat),
            Some(comma) => {
                let head = slice_of(value, 0, comma);
                let tail = slice_of(value, comma + 1, value.len());
                assert(head@ == value@.take(comma as int));
                assert(tail@ == value@.skip(comma + 1));
                match parse_index(&head) {
                    None => Err(OptionError::RangeStart),
                    Some(start) => match parse_index(&tail) {
                        None => Err(OptionError::RangeEnd),
                        Some(end) => Ok(
                            ImportOptions { range_start: Some(start), range_end: Some(end), ..o },
                        ),
                    },
                }
            },
        },
        ValueFlag::RangeStart => match parse_index(value) {
            Some(n) => Ok(ImportOptions { range_start: Some(n), ..o }),
            None => Err(OptionError::InvalidValue(flag)),
        },
        ValueFlag::RangeEnd => match parse_index(value) {
            Some(n) => Ok(ImportOptions { range_end: Some(n), ..o }),
            None => Err(OptionError::InvalidValue(flag)),
        },
        ValueFlag::First => match parse_index(value) {
            Some(n) => Ok(ImportOptions { first: Some(n), ..o }),
            None => Err(OptionError::InvalidValue(flag)),
        },
        ValueFlag::Last => match parse_index(value) {
            Some(n) => Ok(ImportOptions { last: Some(n), ..o }),
            None => Err(OptionError::InvalidValue(flag)),
        },
    }
}

/// Reads a list of option tokens.
///
/// Succeeds exactly on the lists that `options_of` accepts, with the options
/// it gives; fails on the others with the error it gives.
pub fn read_options(arguments: &[String]) -> (r: Result<ImportOptions, OptionError>)
    ensures
        match r {
            Ok(o) => options_of(texts(arguments@)) == Ok::<ImportOptions, OptionErrorView>(o),
            Err(e) => options_of(texts(arguments@)) == Err::<ImportOptions, OptionErrorView>(e@),
        },
{
    let ghost args = texts(arguments@);
    let mut options = ImportOptions::default();
    let mut index: usize = 0;
    while index < arguments.len()
        invariant
            index <= arguments.len(),
            args == texts(arguments@),
            read_from(args, index as int, options) == read_from(args, 0, ImportOptions::blank()),
        decreases arguments.len() - index,
    {
        let argument = chars_of(arguments[index].as_str());
        assert(argument@ == args[index as int]);
        match set_switch(options, &argument) {
            Some(next) => {
                options = next;
                index += 1;
            },
            None => match value_flag(&argument) {
                None => {
                    return Err(OptionError::Unknown(string_of(&argument)));
                },
                Some(flag) => {
                    if index + 1 >= arguments.len() {
                        return Err(OptionError::MissingValue(flag));
                    }
                    let value = chars_of(arguments[index + 1].as_str());
                    assert(value@ == args[index + 1]);
                    match set_value(options, flag, &value) {
                        Ok(next) => {
                            options = next;
                            index += 2;
                        },
                        Err(e) => {
                            return Err(e);
                        },
                    }
                },
            },
        }
    }
    if options.no_reactions && options.button {
        return Err(OptionError::ReactionsWithButton);
    }
    if options.disable_button && !options.button {
        return Err(OptionError::DisableButtonAlone);
    }
    if options.no_embed && !options.outside {
        return Err(OptionError::NoEmbedAlone);
    }
    Ok(options)
}

/// Reads a list of option tokens; a refusal comes as the sentence shown to
/// the user.
pub fn parse_options(arguments: &[String]) -> (r: Result<ImportOptions, String>)
    ensures
        match r {
            Ok(o) => options_of(texts(arguments@)) == Ok::<ImportOptions, OptionErrorView>(o),
            Err(m) => options_of(texts(arguments@)) is Err && m@ == options_of(
                texts(arguments@),
            )->Err_0.message(),
        },
{
    match read_options(arguments) {
        Ok(o) => Ok(o),
        Err(e) => Err(e.message()),
    }
}

/// Whether `start` and `end` name a range of a list of `len` messages: both
/// given, in order, and `start` a position of the list.
pub open spec fn range_is_valid(len: nat, start: Option<usize>, end: Option<usize>) -> bool {
    start is Some && end is Some && start->0 <= end->0 && start->0 < len
}

/// The positions selected from a list of `len` messages, as the first
/// position and the one after the last.
///
/// A valid range wins, its end cut to the list; else a positive `first`, else
/// a positive `last`, each cut to the list; else the whole list.
pub open spec fn selected_span(
    len: nat,
    range_start: Option<usize>,
    range_end: Option<usize>,
    first: Option<usize>,
    last: Option<usize>,
) -> (int, int) {
    if range_is_valid(len, range_start, range_end) {
        (
            range_start->0 as int,
            if range_end->0 < len {
                range_end->0 + 1
            } else {
                len as int
            },
        )
    } else if first is Some && first->0 > 0 {
        (
            0,
            if first->0 < len {
                first->0 as int
            } else {
                len as int
            },
        )
    } else if last is Some && last->0 > 0 {
        (
            if last->0 < len {
                len - last->0
            } else {
                0
            },
            len as int,
        )
    } else {
        (0, len as int)
    }
}

/// Chooses the messages to replay, in their original order.
pub fn select_messages<'a>(
    messages: &'a [MessageInfo],
    range_start: Option<usize>,
    range_end: Option<usize>,
    first: Option<usize>,
    last: Option<usize>,
) -> (selected: &'a [MessageInfo])
    ensures
        ({
            let span = selected_span(messages@.len(), range_start, range_end, first, last);
            &&& 0 <= span.0 <= span.1 <= messages@.len()
            &&& selected@ == messages@.subrange(span.0, span.1)
        }),
{
    let len: usize = messages.len();
    let mut from: usize = 0;
    let mut to: usize = len;
    let mut chosen = false;
    if let Some(s) = range_start {
        if let Some(e) = range_end {
            if s <= e && s < len {
                from = s;
                to = if e < len {
                    e + 1
                } else {
                    len
                };
                chosen = true;
            }
        }
    }
    if !chosen {
        if let Some(n) = first {
            if n > 0 {
                to = if n < len {
                    n
                } else {
                    len
                };
                chosen = true;
            }
        }
    }
    if !chosen {
        if let Some(n) = last {
            if n > 0 {
                from = if n < len {
                    len - n
                } else {
                    0
                };
            }
        }
    }
    &messages[from..to]
}

/// A token that begins with a dash and holds no comma is no value of any
/// option.
proof fn lemma_dash_token_is_no_value(token: Seq<char>, o: ImportOptions, flag: ValueFlag)
    requires
        token.len() > 0,
        token[0] == '-',
        forall|j: int| 0 <= j < token.len() ==> token[j] != ',',
    ensures
        with_value(o, flag, token) is Err,
{
    lemma_first_index(token, ',', token.len() as int);
    assert(token.take(1).drop_last() == Seq::<char>::empty());
    assert(digits_value(token.take(1), 10) is None);
    lemma_digits_prefix(token, 1, 10);
}

/// What the five switches that the refused combinations speak of do, and
/// that none of them can stand for a value.
proof fn lemma_switch_tokens(o: ImportOptions, flag: ValueFlag)
    ensures
        with_switch(o, "--no-reactions"@) == Some(ImportOptions { no_reactions: true, ..o }),
        with_switch(o, "--button"@) == Some(ImportOptions { button: true, ..o }),
        with_switch(o, "--disable-button"@) == Some(ImportOptions { disable_button: true, ..o }),
        with_switch(o, "--no-embed"@) == Some(ImportOptions { no_embed: true, ..o }),
        with_switch(o, "--outside"@) == Some(ImportOptions { outside: true, ..o }),
        with_value(o, flag, "--no-reactions"@) is Err,
        with_value(o, flag, "--button"@) is Err,
        with_value(o, flag, "--disable-button"@) is Err,
        with_value(o, flag, "--no-embed"@) is Err,
        with_value(o, flag, "--outside"@) is Err,
{
    reveal_strlit("--no-guild");
    reveal_strlit("--no-category");
    reveal_strlit("--no-channel");
    reveal_strlit("--no-timestamp");
    reveal_strlit("--no-mentions");
    reveal_strlit("--no-reactions");
    reveal_strlit("--no-embed");
    reveal_strlit("--button");
    reveal_strlit("--reaction-users");
    reveal_strlit("--outside");
    reveal_strlit("--disable-button");
    assert("--no-reactions"@[5] != "--no-timestamp"@[5]);
    assert("--no-embed"@[5] != "--no-guild"@[5]);
    assert("--disable-button"@[2] != "--reaction-users"@[2]);
    lemma_dash_token_is_no_value("--no-reactions"@, o, flag);
    lemma_dash_token_is_no_value("--button"@, o, flag);
    lemma_dash_token_is_no_value("--disable-button"@, o, flag);
    lemma_dash_token_is_no_value("--no-embed"@, o, flag);
    lemma_dash_token_is_no_value("--outside"@, o, flag);
}

/// Whether `token` stands among `args` at position `at` or later.
pub open spec fn given_from(args: Seq<Seq<char>>, at: int, token: Seq<char>) -> bool {
    exists|j: int| at <= j < args.len() && 0 <= j && #[trigger] args[j] == token
}

/// Whether `token` stands among `args`.
pub open spec fn given(args: Seq<Seq<char>>, token: Seq<char>) -> bool {
    given_from(args, 0, token)
}

/// A value never touches a switch.
proof fn lemma_value_keeps_switches(o: ImportOptions, flag: ValueFlag, value: Seq<char>)
    ensures
        with_value(o, flag, value) matches Ok(r) ==> r.no_reactions == o.no_reactions && r.button
            == o.button && r.disable_button == o.disable_button && r.no_embed == o.no_embed
            && r.outside == o.outside,
{
}

/// Where reading succeeds, each of the five switches is on afterwards
/// exactly if it was on before or its token stands among what was read.
proof fn lemma_read_switches(args: Seq<Seq<char>>, at: int, o: ImportOptions)
    requires
        0 <= at,
    ensures
        read_from(args, at, o) matches Ok(r) ==> {
            &&& r.no_reactions == (o.no_reactions || given_from(args, at, "--no-reactions"@))
            &&& r.button == (o.button || given_from(args, at, "--button"@))
            &&& r.disable_button == (o.disable_button || given_from(
                args,
                at,
                "--disable-button"@,
            ))
            &&& r.no_embed == (o.no_embed || given_from(args, at, "--no-embed"@))
            &&& r.outside == (o.outside || given_from(args, at, "--outside"@))
        },
    decreases args.len() - at,
{
    if at < args.len() && read_from(args, at, o) is Ok {
        let arg = args[at];
        lemma_switch_tokens(o, ValueFlag::Range);
        match with_switch(o, arg) {
            Some(next) => {
                lemma_read_switches(args, at + 1, next);
                assert forall|token: Seq<char>|
                    given_from(args, at, token) == (arg == token || given_from(
                        args,
                        at + 1,
                        token,
                    )) by {
                    if given_from(args, at, token) {
                        let j = choose|j: int|
                            at <= j < args.len() && 0 <= j && #[trigger] args[j] == token;
                        if j > at {
                            assert(given_from(args, at + 1, token));
                        }
                    }
                    if given_from(args, at + 1, token) {
                        let j = choose|j: int|
                            at + 1 <= j < args.len() && 0 <= j && #[trigger] args[j] == token;
                        assert(given_from(args, at, token));
                    }
                    if arg == token {
                        assert(args[at] == token);
                    }
                }
            },
            None => {
                let flag = value_flag_of(arg)->0;
                let value = args[at + 1];
                lemma_switch_tokens(o, flag);
                lemma_value_keeps_switches(o, flag, value);
                let next = with_value(o, flag, value)->Ok_0;
                lemma_read_switches(args, at + 2, next);
                assert forall|token: Seq<char>|
                    with_switch(o, token) is Some && with_value(o, flag, token) is Err implies (
                    given_from(args, at, token) == given_from(args, at + 2, token)) by {
                    if given_from(args, at, token) {
                        let j = choose|j: int|
                            at <= j < args.len() && 0 <= j && #[trigger] args[j] == token;
                        assert(j != at);
                        assert(j != at + 1);
                        assert(given_from(args, at + 2, token));
                    }
                    if given_from(args, at + 2, token) {
                        let j = choose|j: int|
                            at + 2 <= j < args.len() && 0 <= j && #[trigger] args[j] == token;
                        assert(given_from(args, at, token));
                    }
                }
            },
        }
    } else if at >= args.len() {
        assert forall|token: Seq<char>| !given_from(args, at, token) by {}
    }
}

/// `--no-reactions` and `--button` are refused together, whatever else the
/// list holds.
pub proof fn law_reactions_exclude_buttons(args: Seq<Seq<char>>)
    requires
        given(args, "--no-reactions"@),
        given(args, "--button"@),
    ensures
        options_of(args) is Err,
{
    lemma_read_switches(args, 0, ImportOptions::blank());
}

/// `--disable-button` is refused without `--button`, whatever else the list
/// holds.
pub proof fn law_disable_button_needs_button(args: Seq<Seq<char>>)
    requires
        given(args, "--disable-button"@),
        !given(args, "--button"@),
    ensures
        options_of(args) is Err,
{
    lemma_read_switches(args, 0, ImportOptions::blank());
}

/// `--no-embed` is refused without `--outside`, whatever else the list
/// holds.
pub proof fn law_no_embed_needs_outside(args: Seq<Seq<char>>)
    requires
        given(args, "--no-embed"@),
        !given(args, "--outside"@),
    ensures
        options_of(args) is Err,
{
    lemma_read_switches(args, 0, ImportOptions::blank());
}

} // verus!
