//! The replay controller: reading the command, walking the selected
//! messages in order, stopping when asked to, and reporting how it ended.

use crate::content::{footer_text, generate_footer};
use crate::embed::text_of;
use crate::model::{Export, ImportOptions};
use crate::options::{
    options_of, read_options, split_args, tokens_of, OptionError, OptionErrorView,
};
use crate::text::{
    blank, chars_of, decimal, has_prefix, is_blank, push_decimal, push_str, starts_with,
    string_of, texts,
};
use std::collections::HashMap;
use vstd::prelude::*;

verus! {

broadcast use vstd::std_specs::hash::group_hash_axioms;

/// What an import command asks for.
#[derive(Debug, PartialEq, Eq)]
pub struct ImportRequest {
    /// Where the export is read from.
    pub json_path: String,
    /// The media root, if one is given.
    pub media_path: Option<String>,
    pub options: ImportOptions,
}

/// An import request with its strings as text.
pub struct ImportRequestView {
    pub json_path: Seq<char>,
    pub media_path: Option<Seq<char>>,
    pub options: ImportOptions,
}

impl View for ImportRequest {
    type V = ImportRequestView;

    open spec fn view(&self) -> ImportRequestView {
        ImportRequestView {
            json_path: self.json_path@,
            media_path: text_of(self.media_path),
            options: self.options,
        }
    }
}

/// Why an import command was refused.
#[derive(Debug, PartialEq, Eq)]
pub enum RequestError {
    /// The command names no export.
    MissingPath,
    /// The options are faulty.
    Options(OptionError),
}

/// A request error with its strings as text.
pub enum RequestErrorView {
    MissingPath,
    Options(OptionErrorView),
}

impl View for RequestError {
    type V = RequestErrorView;

    open spec fn view(&self) -> RequestErrorView {
        match *self {
            RequestError::MissingPath => RequestErrorView::MissingPath,
            RequestError::Options(e) => RequestErrorView::Options(e@),
        }
    }
}

impl RequestErrorView {
    /// The sentence shown to the user.
    pub open spec fn message(self) -> Seq<char> {
        match self {
            RequestErrorView::MissingPath => "Command requires a path to a JSON file."@,
            RequestErrorView::Options(e) => "Error parsing options: "@ + e.message(),
        }
    }
}

impl RequestError {
    /// The sentence shown to the user.
    pub fn message(&self) -> (r: String)
        ensures
            r@ == self@.message(),
    {
        let mut out: Vec<char> = Vec::new();
        match self {
            RequestError::MissingPath => {
                push_str(&mut out, "Command requires a path to a JSON file.");
            },
            RequestError::Options(e) => {
                push_str(&mut out, "Error parsing options: ");
                push_str(&mut out, e.message().as_str());
            },
        }
        assert(Seq::<char>::empty() + self@.message() == self@.message());
        string_of(&out)
    }
}

/// Where the options begin among the tokens of a command: after the export
/// and, where the second token does not begin with `--`, after the media
/// root.
pub open spec fn options_start(tokens: Seq<Seq<char>>) -> int {
    if tokens.len() > 1 && !has_prefix(tokens[1], "--"@) {
        2
    } else {
        1
    }
}

/// What the command line `args` asks for.
///
/// The first token names the export and must not be blank. A second token
/// that does not begin with `--` names the media root. The rest are options.
pub open spec fn request_of(args: Seq<char>) -> Result<ImportRequestView, RequestErrorView> {
    let tokens = tokens_of(args);
    if tokens.len() == 0 || is_blank(tokens[0]) {
        Err(RequestErrorView::MissingPath)
    } else {
        let start = options_start(tokens);
        match options_of(tokens.skip(start)) {
            Ok(options) => Ok(
                ImportRequestView {
                    json_path: tokens[0],
                    media_path: if start == 2 {
                        Some(tokens[1])
                    } else {
                        None
                    },
                    options,
                },
            ),
            Err(e) => Err(RequestErrorView::Options(e)),
        }
    }
}

/// Reads an import command.
pub fn read_request(args: &str) -> (r: Result<ImportRequest, RequestError>)
    ensures
        match r {
            Ok(request) => request_of(args@) == Ok::<ImportRequestView, RequestErrorView>(
                request@,
            ),
            Err(e) => request_of(args@) == Err::<ImportRequestView, RequestErrorView>(e@),
        },
{
    let tokens = split_args(args);
    assert(texts(tokens@).len() == tokens.len());
    if tokens.len() == 0 {
        return Err(RequestError::MissingPath);
    }
    assert(texts(tokens@)[0] == tokens@[0]@);
    if blank(&chars_of(tokens[0].as_str())) {
        return Err(RequestError::MissingPath);
    }
    let mut start: usize = 1;
    if tokens.len() > 1 {
        assert(texts(tokens@)[1] == tokens@[1]@);
        if !starts_with(&chars_of(tokens[1].as_str()), &chars_of("--")) {
            start = 2;
        }
    }
    let rest = &tokens.as_slice()[start..tokens.len()];
    assert(texts(rest@) == texts(tokens@).skip(start as int));
    match read_options(rest) {
        Ok(options) => Ok(
            ImportRequest {
                json_path: tokens[0].clone(),
                media_path: if start == 2 {
                    Some(tokens[1].clone())
                } else {
                    None
                },
                options,
            },
        ),
        Err(e) => Err(RequestError::Options(e)),
    }
}

/// The notice before a replay of `count` messages: that there is nothing to
/// import, or how many messages are about to be.
pub open spec fn start_notice_text(count: nat) -> Seq<char> {
    if count == 0 {
        "No messages to import."@
    } else {
        "Importing "@ + decimal(count) + " messages..."@
    }
}

/// Writes the notice before a replay.
pub fn start_notice(count: usize) -> (r: String)
    ensures
        r@ == start_notice_text(count as nat),
{
    let mut out: Vec<char> = Vec::new();
    if count == 0 {
        push_str(&mut out, "No messages to import.");
        assert(Seq::<char>::empty() + "No messages to import."@ == "No messages to import."@);
    } else {
        push_str(&mut out, "Importing ");
        push_decimal(&mut out, count as u64);
        push_str(&mut out, " messages...");
        assert(Seq::<char>::empty() + "Importing "@ == "Importing "@);
    }
    string_of(&out)
}

/// How a replay ended.
#[derive(Clone, Copy, Debug, PartialEq, Eq)]
pub enum ReplayOutcome {
    /// Every selected message was replayed.
    Completed,
    /// The replay was stopped by a cancellation.
    Cancelled,
}

/// The sentence that reports a full replay: which guild, category and
/// channel were imported, as far as they are shown.
pub open spec fn completion_text(
    export: Export,
    no_guild: bool,
    no_category: bool,
    no_channel: bool,
) -> Seq<char> {
    let footer = footer_text(export, no_guild, no_category, no_channel);
    if footer.len() == 0 {
        "Successfully imported"@
    } else {
        "Successfully imported "@ + footer
    }
}

/// Writes the sentence that reports a full replay.
pub fn build_completion_message(
    export: &Export,
    no_guild: bool,
    no_category: bool,
    no_channel: bool,
) -> (r: String)
    ensures
        r@ == completion_text(*export, no_guild, no_category, no_channel),
{
    let footer = generate_footer(export, no_guild, no_category, no_channel);
    let mut out: Vec<char> = Vec::new();
    if footer.as_str().unicode_len() == 0 {
        push_str(&mut out, "Successfully imported");
        assert(Seq::<char>::empty() + "Successfully imported"@ == "Successfully imported"@);
    } else {
        push_str(&mut out, "Successfully imported ");
        push_str(&mut out, footer.as_str());
        assert(Seq::<char>::empty() + "Successfully imported "@ == "Successfully imported "@);
    }
    string_of(&out)
}

/// The final report of a replay: a fixed sentence after a cancellation,
/// else the sentence that reports a full replay.
pub open spec fn report_text(outcome: ReplayOutcome, export: Export, options: ImportOptions)
    -> Seq<char> {
    match outcome {
        ReplayOutcome::Cancelled => "Import cancelled"@,
        ReplayOutcome::Completed => completion_text(
            export,
            options.no_guild,
            options.no_category,
            options.no_channel,
        ),
    }
}

/// Writes the final report of a replay.
pub fn final_report(outcome: ReplayOutcome, export: &Export, options: &ImportOptions) -> (r:
    String)
    ensures
        r@ == report_text(outcome, *export, *options),
{
    match outcome {
        ReplayOutcome::Cancelled => string_of(&chars_of("Import cancelled")),
        ReplayOutcome::Completed => build_completion_message(
            export,
            options.no_guild,
            options.no_category,
            options.no_channel,
        ),
    }
}

/// What the controller asks for next.
#[derive(Clone, Copy, Debug, PartialEq, Eq)]
pub enum ReplayStep {
    /// Replay the selected message at this position.
    Process(usize),
    /// The replay is over.
    Finished(ReplayOutcome),
}

/// The progress of one replay over its selected messages.
#[derive(Clone, Copy, Debug, PartialEq, Eq)]
pub struct Replay {
    /// The position of the next message to replay.
    pub next: usize,
    /// The number of selected messages.
    pub total: usize,
    /// How the replay ended, once it has.
    pub outcome: Option<ReplayOutcome>,
}

impl Replay {
    /// The replay and the request after one poll of the cancellation flag.
    ///
    /// A replay that is over stays over. One with no message left is
    /// complete, whatever the flag says. Else a raised flag cancels it
    /// before the next message is touched, and a lowered one lets that
    /// message be replayed.
    pub open spec fn after_poll(self, cancelled: bool) -> (Replay, ReplayStep) {
        match self.outcome {
            Some(outcome) => (self, ReplayStep::Finished(outcome)),
            None => if self.next >= self.total {
                (
                    Replay { outcome: Some(ReplayOutcome::Completed), ..self },
                    ReplayStep::Finished(ReplayOutcome::Completed),
                )
            } else if cancelled {
                (
                    Replay { outcome: Some(ReplayOutcome::Cancelled), ..self },
                    ReplayStep::Finished(ReplayOutcome::Cancelled),
                )
            } else {
                (
                    Replay { next: (self.next + 1) as usize, ..self },
                    ReplayStep::Process(self.next),
                )
            },
        }
    }

    /// A replay of `total` messages, none replayed yet.
    pub open spec fn start(total: usize) -> Replay {
        Replay { next: 0, total, outcome: None }
    }

    /// Begins a replay of `total` messages.
    pub fn new(total: usize) -> (replay: Replay)
        ensures
            replay == Replay::start(total),
    {
        Replay { next: 0, total, outcome: None }
    }

    /// Whether a message is left and the replay not over: the cancellation
    /// flag is polled only then.
    pub fn has_next(&self) -> (r: bool)
        ensures
            r == (self.outcome is None && self.next < self.total),
    {
        self.outcome.is_none() && self.next < self.total
    }

    /// Takes one poll of the cancellation flag and says what to do next.
    pub fn step(&mut self, cancelled: bool) -> (request: ReplayStep)
        ensures
            (*final(self), request) == old(self).after_poll(cancelled),
    {
        match self.outcome {
            Some(outcome) => ReplayStep::Finished(outcome),
            None => {
                if self.next >= self.total {
                    self.outcome = Some(ReplayOutcome::Completed);
                    ReplayStep::Finished(ReplayOutcome::Completed)
                } else if cancelled {
                    self.outcome = Some(ReplayOutcome::Cancelled);
                    ReplayStep::Finished(ReplayOutcome::Cancelled)
                } else {
                    let position = self.next;
                    self.next = self.next + 1;
                    ReplayStep::Process(position)
                }
            },
        }
    }

    /// The replay after the polls `polls`, one after the other, and the
    /// positions of the messages replayed on the way, in order.
    pub open spec fn run(self, polls: Seq<bool>) -> (Replay, Seq<usize>)
        decreases polls.len(),
    {
        if polls.len() == 0 {
            (self, Seq::empty())
        } else {
            let before = self.run(polls.drop_last());
            let after = before.0.after_poll(polls.last());
            match after.1 {
                ReplayStep::Process(position) => (after.0, before.1.push(position)),
                ReplayStep::Finished(_) => (after.0, before.1),
            }
        }
    }
}

/// The positions `0`, `1`, ... below `count`.
pub open spec fn first_positions(count: int) -> Seq<usize> {
    Seq::new(count as nat, |i: int| i as usize)
}

/// While no poll finds the flag raised and messages are left, the messages
/// are replayed one by one, in order.
pub proof fn lemma_run_uncancelled(total: usize, polls: Seq<bool>)
    requires
        polls.len() <= total,
        forall|i: int| 0 <= i < polls.len() ==> !polls[i],
    ensures
        Replay::start(total).run(polls) == (
            Replay { next: polls.len() as usize, total, outcome: None },
            first_positions(polls.len() as int),
        ),
    decreases polls.len(),
{
    if polls.len() > 0 {
        lemma_run_uncancelled(total, polls.drop_last());
        assert(first_positions(polls.len() as int) == first_positions(polls.len() - 1).push(
            (polls.len() - 1) as usize,
        ));
    } else {
        assert(first_positions(0) == Seq::<usize>::empty());
    }
}

/// A replay that is over stays as it is, whatever is polled afterwards.
pub proof fn lemma_run_finished(replay: Replay, polls: Seq<bool>)
    requires
        replay.outcome is Some,
    ensures
        replay.run(polls) == (replay, Seq::<usize>::empty()),
    decreases polls.len(),
{
    if polls.len() > 0 {
        lemma_run_finished(replay, polls.drop_last());
    }
}

/// A run over two stretches of polls is the run over the first, continued
/// over the second.
pub proof fn lemma_run_split(replay: Replay, first: Seq<bool>, second: Seq<bool>)
    ensures
        replay.run(first + second) == ({
            let head = replay.run(first);
            let tail = head.0.run(second);
            (tail.0, head.1 + tail.1)
        }),
    decreases second.len(),
{
    if second.len() == 0 {
        assert(first + second == first);
        assert(replay.run(first).1 + Seq::<usize>::empty() == replay.run(first).1);
    } else {
        assert((first + second).drop_last() == first + second.drop_last());
        assert((first + second).last() == second.last());
        lemma_run_split(replay, first, second.drop_last());
        let head = replay.run(first);
        let mid = head.0.run(second.drop_last());
        let after = mid.0.after_poll(second.last());
        match after.1 {
            ReplayStep::Process(position) => {
                assert((head.1 + mid.1).push(position) == head.1 + mid.1.push(position));
            },
            ReplayStep::Finished(_) => {},
        }
    }
}

/// A cancellation between two messages stops the replay exactly there.
///
/// Let the flag be raised after the poll for the message at position `k`
/// and before the next poll, while messages are left. Then the messages at
/// positions `0` to `k` are replayed, in order, none after them is, whatever
/// is polled later, and the final report is the sentence for a cancellation.
pub proof fn law_cancellation_stops_replay(
    total: usize,
    polls: Seq<bool>,
    k: int,
    export: Export,
    options: ImportOptions,
)
    requires
        0 <= k,
        k + 1 < total,
        k + 1 < polls.len(),
        forall|i: int| 0 <= i <= k ==> !polls[i],
        polls[k + 1],
    ensures
        Replay::start(total).run(polls).1 == first_positions(k + 1),
        Replay::start(total).run(polls).0.outcome == Some(ReplayOutcome::Cancelled),
        report_text(
            Replay::start(total).run(polls).0.outcome->0,
            export,
            options,
        ) == "Import cancelled"@,
{
    let quiet = polls.take(k + 1);
    let raised = seq![polls[k + 1]];
    let later = polls.skip(k + 2);
    assert(polls == quiet + raised + later);
    lemma_run_uncancelled(total, quiet);
    let start = Replay::start(total);
    let at_k = start.run(quiet);
    assert(raised.drop_last() == Seq::<bool>::empty());
    assert(at_k.0.run(raised.drop_last()) == (at_k.0, Seq::<usize>::empty()));
    let stopped = at_k.0.run(raised);
    assert(stopped.0.outcome == Some(ReplayOutcome::Cancelled));
    assert(stopped.1 == Seq::<usize>::empty());
    lemma_run_split(start, quiet, raised);
    lemma_run_finished(stopped.0, later);
    lemma_run_split(start, quiet + raised, later);
    assert(at_k.1 + Seq::<usize>::empty() + Seq::<usize>::empty() == at_k.1);
}

/// A replay that is never cancelled replays every selected message, in
/// order, and ends complete.
pub proof fn law_uncancelled_replay_completes(total: usize, polls: Seq<bool>)
    requires
        polls.len() == total + 1,
        forall|i: int| 0 <= i < total ==> !polls[i],
    ensures
        Replay::start(total).run(polls).1 == first_positions(total as int),
        Replay::start(total).run(polls).0.outcome == Some(ReplayOutcome::Completed),
{
    lemma_run_uncancelled(total, polls.drop_last());
}

/// The cancellation flags of the replays under way, one for each channel.
pub struct CancellationFlags {
    flags: HashMap<u64, bool>,
}

impl View for CancellationFlags {
    type V = Map<u64, bool>;

    closed spec fn view(&self) -> Map<u64, bool> {
        self.flags@
    }
}

impl CancellationFlags {
    /// No replay under way.
    pub fn new() -> (flags: CancellationFlags)
        ensures
            flags@ == Map::<u64, bool>::empty(),
    {
        CancellationFlags { flags: HashMap::new() }
    }

    /// A replay begins in `channel`: its flag is lowered.
    pub fn begin(&mut self, channel: u64)
        ensures
            final(self)@ == old(self)@.insert(channel, false),
    {
        self.flags.insert(channel, false);
    }

    /// Asks the replay in `channel` to stop. Returns whether one is under
    /// way; where none is, nothing changes.
    pub fn request_cancel(&mut self, channel: u64) -> (found: bool)
        ensures
            found == old(self)@.contains_key(channel),
            final(self)@ == (if found {
                old(self)@.insert(channel, true)
            } else {
                old(self)@
            }),
    {
        if self.flags.contains_key(&channel) {
            self.flags.insert(channel, true);
            true
        } else {
            false
        }
    }

    /// Whether the replay in `channel` was asked to stop.
    pub fn is_cancelled(&self, channel: u64) -> (r: bool)
        ensures
            r == (self@.contains_key(channel) && self@[channel]),
    {
        match self.flags.get(&channel) {
            Some(flag) => *flag,
            None => false,
        }
    }

    /// The replay in `channel` is over: its flag is dropped.
    pub fn finish(&mut self, channel: u64)
        ensures
            final(self)@ == old(self)@.remove(channel),
    {
        self.flags.remove(&channel);
    }
}

/// The answer to a request to cancel.
pub open spec fn cancel_notice_text(found: bool) -> Seq<char> {
    if found {
        "Cancelling import..."@
    } else {
        "No ongoing import in this channel."@
    }
}

/// Writes the answer to a request to cancel.
pub fn cancel_notice(found: bool) -> (r: String)
    ensures
        r@ == cancel_notice_text(found),
{
    if found {
        string_of(&chars_of("Cancelling import..."))
    } else {
        string_of(&chars_of("No ongoing import in this channel."))
    }
}

} // verus!
