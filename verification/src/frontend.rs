//! The front end's side of the conversation: the auth token, and what the backend's output
//! means.
use vstd::prelude::*;
use vstd::string::to_string_from_display_ensures;

use crate::protocol::{progress_report, result_report};
use crate::text::{
    after_prefix, format_hex, hex, hex_char, is_blank, is_digit, join, law_hex_digits,
    law_prefix_and_rest, law_trim_between, lemma_after_prefix_joined, lemma_decimal,
    lemma_decimal_trimmed, lemma_number_of_decimal, number, parse_u32, same_text, strip_prefix,
    trim, trimmed, unsigned_digits,
};

verus! {

/// Something that happened to an installation, as the user interface hears of it.
#[derive(Debug)]
pub enum ProgressEvent {
    /// So many hundredths of the installation are done.
    Percent(u32),
    /// A text to show.
    Message(String),
    /// The installation has succeeded.
    Done,
    /// The installation has failed.
    Error(String),
}

/// What a progress event holds.
pub enum EventView {
    Percent(u32),
    Message(Seq<char>),
    Done,
    Error(Seq<char>),
}

impl View for ProgressEvent {
    type V = EventView;

    open spec fn view(&self) -> EventView {
        match self {
            ProgressEvent::Percent(percent) => EventView::Percent(*percent),
            ProgressEvent::Message(text) => EventView::Message(text@),
            ProgressEvent::Done => EventView::Done,
            ProgressEvent::Error(text) => EventView::Error(text@),
        }
    }
}

/// What a row of progress events holds.
pub open spec fn events_view(events: Seq<ProgressEvent>) -> Seq<EventView> {
    events.map_values(|event: ProgressEvent| event@)
}

/// An error of the system's random number source.
#[verifier::external_type_specification]
#[verifier::external_body]
pub struct ExRandomError(getrandom::Error);

/// Whether bytes are among those that `getrandom::fill` can draw.
pub uninterp spec fn can_fill(bytes: Seq<u8>) -> bool;

/// `getrandom::fill`: overwrites a buffer with random bytes, or fails. The buffer keeps its
/// length. Which bytes were drawn is left to chance: they are some that [`can_fill`] admits.
pub assume_specification[ getrandom::fill ](dest: &mut [u8]) -> (outcome: Result<
    (),
    getrandom::Error,
>)
    ensures
        final(dest)@.len() == old(dest)@.len(),
        outcome is Ok ==> can_fill(final(dest)@),
;

/// The number of random bytes in an auth token.
pub const TOKEN_BYTES: usize = 32;

/// Why no auth token could be made.
#[derive(Debug)]
pub struct TokenError {
    pub message: String,
}

/// Whether a text is the hexadecimal form of so many bytes that the system's random number source
/// can draw.
pub open spec fn is_token(text: Seq<char>) -> bool {
    exists|bytes: Seq<u8>|
        bytes.len() == TOKEN_BYTES && can_fill(bytes) && text == #[trigger] hex(bytes)
}

/// Makes a fresh auth token: random bytes of the system in hexadecimal. Where the system has
/// none, the error says why.
pub fn generate_token() -> (token: Result<String, TokenError>)
    ensures
        token matches Ok(token) ==> is_token(token@),
        token matches Err(error) ==> exists|cause: getrandom::Error, reason: String|
            #[trigger] to_string_from_display_ensures::<getrandom::Error>(&cause, reason)
                && error.message@ == "Failed to generate auth token: "@ + reason@,
{
    let mut bytes: [u8; TOKEN_BYTES] = [0u8; TOKEN_BYTES];
    match getrandom::fill(&mut bytes) {
        Ok(()) => Ok(format_hex(&bytes)),
        Err(error) => Err(token_error(error.to_string().as_str())),
    }
}

/// The error for a random number source that failed for a reason.
pub fn token_error(reason: &str) -> (error: TokenError)
    ensures
        error.message@ == "Failed to generate auth token: "@ + reason@,
{
    TokenError { message: join("Failed to generate auth token: ", reason) }
}

/// A token is not empty and holds nothing but hexadecimal digits, so in particular no space: it
/// can lead a command.
pub proof fn law_token_leads_command(token: Seq<char>)
    requires
        is_token(token),
    ensures
        token.len() == 2 * TOKEN_BYTES,
        forall|i: int|
            0 <= i < token.len() ==> '0' <= #[trigger] token[i] <= '9' || 'a' <= token[i] <= 'f',
        !token.contains(' '),
{
}

/// Different bytes give different tokens: no part of the randomness is lost.
pub proof fn law_token_keeps_bytes(a: Seq<u8>, b: Seq<u8>)
    requires
        hex(a) == hex(b),
    ensures
        a == b,
{
    assert(hex(a).len() == 2 * a.len());
    assert(hex(b).len() == 2 * b.len());
    assert forall|i: int| 0 <= i < a.len() implies a[i] == b[i] by {
        assert((2 * i) % 2 == 0 && (2 * i) / 2 == i);
        assert((2 * i + 1) % 2 == 1 && (2 * i + 1) / 2 == i);
        assert(hex(a)[2 * i] == hex_char(a[i] as int / 16));
        assert(hex(b)[2 * i] == hex_char(b[i] as int / 16));
        assert(hex(a)[2 * i + 1] == hex_char(a[i] as int % 16));
        assert(hex(b)[2 * i + 1] == hex_char(b[i] as int % 16));
        assert(a[i] as int / 16 == b[i] as int / 16);
        assert(a[i] as int % 16 == b[i] as int % 16);
    }
    assert(a =~= b);
}

/// Whether a text holds a character that can open a terminal escape sequence.
pub open spec fn has_escape(s: Seq<char>) -> bool {
    s.contains('\u{1b}') || s.contains('\u{9b}')
}

/// What `console::strip_ansi_codes` leaves of a text.
pub uninterp spec fn strip_ansi_text(s: Seq<char>) -> Seq<char>;

/// `console::strip_ansi_codes`: takes the terminal escape sequences out of a text. What it leaves
/// is named by [`strip_ansi_text`]; a text without an escape character is left as it is.
#[verifier::external_body]
fn strip_ansi_codes(line: &str) -> (stripped: String)
    ensures
        stripped@ == if has_escape(line@) {
            strip_ansi_text(line@)
        } else {
            line@
        },
{
    console::strip_ansi_codes(line).to_string()
}

/// What a terminal would show of a line.
pub open spec fn visible(line: Seq<char>) -> Seq<char> {
    if has_escape(line) {
        strip_ansi_text(line)
    } else {
        line
    }
}

/// What the front end got when it read from the backend.
#[derive(Debug)]
pub enum BackendOutput {
    /// A line.
    Line(String),
    /// An error of the pipe, as text.
    ReadError(String),
    /// The end of the output.
    Closed,
}

/// What an output of the backend holds.
pub enum OutputView {
    Line(Seq<char>),
    ReadError(Seq<char>),
    Closed,
}

impl View for BackendOutput {
    type V = OutputView;

    open spec fn view(&self) -> OutputView {
        match self {
            BackendOutput::Line(line) => OutputView::Line(line@),
            BackendOutput::ReadError(error) => OutputView::ReadError(error@),
            BackendOutput::Closed => OutputView::Closed,
        }
    }
}

/// What the front end does about an output of the backend.
#[derive(Debug)]
pub struct Reaction {
    /// The events to hand to the user interface, in order.
    pub events: Vec<ProgressEvent>,
    /// Whether the conversation is over.
    pub finished: bool,
}

/// What a reaction holds.
pub struct ReactionView {
    pub events: Seq<EventView>,
    pub finished: bool,
}

impl View for Reaction {
    type V = ReactionView;

    open spec fn view(&self) -> ReactionView {
        ReactionView { events: events_view(self.events@), finished: self.finished }
    }
}

/// What a line without escape sequences means: a percentage, a result, or a text to show.
pub open spec fn interpretation(line: Seq<char>) -> ReactionView {
    let after_progress = after_prefix(line, "progress "@);
    let percent = match after_progress {
        Some(rest) => number(trimmed(rest)),
        None => None,
    };
    if let Some(percent) = percent {
        ReactionView { events: seq![EventView::Percent(percent)], finished: false }
    } else if line == "result ok"@ {
        ReactionView { events: seq![EventView::Done], finished: true }
    } else {
        match after_prefix(line, "result "@) {
            Some(error) => failure(error),
            None => ReactionView { events: seq![EventView::Message(line)], finished: false },
        }
    }
}

/// The end of a conversation in failure: the error is shown, and reported.
pub open spec fn failure(error: Seq<char>) -> ReactionView {
    ReactionView {
        events: seq![EventView::Message(error), EventView::Error(error)],
        finished: true,
    }
}

/// What the front end does about an output of the backend.
pub open spec fn reaction(output: OutputView) -> ReactionView {
    match output {
        OutputView::Line(line) => interpretation(visible(line)),
        OutputView::ReadError(error) => failure("Lost connection to backend: "@ + error),
        OutputView::Closed => failure("Backend exited unexpectedly"@),
    }
}

fn fail(error: &str) -> (reaction: Reaction)
    ensures
        reaction@ == failure(error@),
{
    let mut events: Vec<ProgressEvent> = Vec::new();
    events.push(ProgressEvent::Message(error.to_owned()));
    events.push(ProgressEvent::Error(error.to_owned()));
    let reaction: Reaction = Reaction { events, finished: true };
    assert(reaction@.events =~= failure(error@).events);
    reaction
}

fn react_with(event: ProgressEvent, finished: bool) -> (reaction: Reaction)
    ensures
        reaction@ == (ReactionView { events: seq![event@], finished }),
{
    let mut events: Vec<ProgressEvent> = Vec::new();
    events.push(event);
    let reaction: Reaction = Reaction { events, finished };
    assert(reaction@.events =~= seq![event@]);
    reaction
}

/// Finds out what a line without escape sequences means.
pub fn interpret(line: &str) -> (reaction: Reaction)
    ensures
        reaction@ == interpretation(line@),
{
    if let Some(rest) = strip_prefix(line, "progress ") {
        if let Some(percent) = parse_u32(trim(rest)) {
            return react_with(ProgressEvent::Percent(percent), false);
        }
    }
    if same_text(line, "result ok") {
        react_with(ProgressEvent::Done, true)
    } else {
        match strip_prefix(line, "result ") {
            Some(error) => fail(error),
            None => react_with(ProgressEvent::Message(line.to_owned()), false),
        }
    }
}

/// Decides what to do about an output of the backend.
pub fn react(output: &BackendOutput) -> (done: Reaction)
    ensures
        done@ == reaction(output@),
{
    match output {
        BackendOutput::Line(line) => interpret(strip_ansi_codes(line.as_str()).as_str()),
        BackendOutput::ReadError(error) => fail(
            join("Lost connection to backend: ", error.as_str()).as_str(),
        ),
        BackendOutput::Closed => fail("Backend exited unexpectedly"),
    }
}

/// All that the front end does about the outputs of a backend, one after the other: it stops at
/// the first that ends the conversation.
pub open spec fn conversation(outputs: Seq<OutputView>) -> ReactionView
    decreases outputs.len(),
{
    if outputs.len() == 0 {
        ReactionView { events: Seq::empty(), finished: false }
    } else {
        let before = conversation(outputs.drop_last());
        if before.finished {
            before
        } else {
            let next = reaction(outputs.last());
            ReactionView { events: before.events + next.events, finished: next.finished }
        }
    }
}

/// Whether an event tells that the installation is over.
pub open spec fn is_terminal(event: EventView) -> bool {
    event is Done || event is Error
}

/// Whether only the last of a row of events tells that the installation is over, and it does so
/// if and only if the conversation is over.
pub open spec fn ends_once(done: ReactionView) -> bool {
    &&& forall|i: int|
        0 <= i < done.events.len() - 1 ==> !is_terminal(#[trigger] done.events[i])
    &&& done.finished ==> done.events.len() > 0 && is_terminal(done.events.last())
    &&& !done.finished ==> done.events.len() == 0 || !is_terminal(done.events.last())
}

/// Whatever the backend writes, the user interface hears exactly once that the installation is
/// over, as the last event, and only when the conversation is over.
pub proof fn law_conversation_ends_once(outputs: Seq<OutputView>)
    ensures
        ends_once(conversation(outputs)),
    decreases outputs.len(),
{
    if outputs.len() > 0 {
        law_conversation_ends_once(outputs.drop_last());
        let before = conversation(outputs.drop_last());
        if !before.finished {
            let next = reaction(outputs.last());
            let all = before.events + next.events;
            assert forall|i: int| 0 <= i < all.len() - 1 implies !is_terminal(
                #[trigger] all[i],
            ) by {
                if i < before.events.len() {
                    assert(all[i] == before.events[i]);
                } else {
                    assert(all[i] == next.events[i - before.events.len()]);
                }
            }
            assert(all.last() == next.events.last());
        }
    }
}

/// A conversation whose pipe breaks or closes is over, whatever was written before.
pub proof fn law_lost_backend_ends(outputs: Seq<OutputView>)
    requires
        outputs.len() > 0,
        !(outputs.last() is Line),
    ensures
        conversation(outputs).finished,
{
}

/// What a finished conversation has come to stays, whatever is read after it.
pub proof fn law_finished_stays(outputs: Seq<OutputView>, more: Seq<OutputView>)
    requires
        conversation(outputs).finished,
    ensures
        conversation(outputs + more) == conversation(outputs),
    decreases more.len(),
{
    if more.len() == 0 {
        assert(outputs + more =~= outputs);
    } else {
        law_finished_stays(outputs, more.drop_last());
        assert((outputs + more).drop_last() =~= outputs + more.drop_last());
    }
}

/// What the front end is to do about a result.
pub open spec fn result_meaning(outcome: Option<Seq<char>>) -> ReactionView {
    match outcome {
        None => ReactionView { events: seq![EventView::Done], finished: true },
        Some(error) => failure(error),
    }
}

/// Whether nothing is stripped off the report of a result.
pub open spec fn reads_back(outcome: Option<Seq<char>>) -> bool {
    visible(result_report(outcome)) == result_report(outcome)
}

/// The report of a percentage is read as that percentage.
pub proof fn law_progress_understood(percent: u32)
    ensures
        reaction(OutputView::Line(progress_report(percent))) == (ReactionView {
            events: seq![EventView::Percent(percent)],
            finished: false,
        }),
{
    reveal_strlit("progress ");
    let digits = crate::text::decimal(percent as nat);
    let line = progress_report(percent);
    lemma_after_prefix_joined("progress "@, digits);
    lemma_number_of_decimal(percent);
    lemma_decimal_trimmed(percent as nat);
    lemma_decimal(percent as nat);
    assert forall|i: int| 0 <= i < line.len() implies line[i] != '\u{1b}' && line[i]
        != '\u{9b}' by {
        if i >= 9 {
            assert(line[i] == digits[i - 9]);
            assert(is_digit(digits[i - 9]));
        }
    }
    assert(!has_escape(line));
}

/// The report of a result is read as that result: success as success, and an error as that error,
/// which is shown and reported. Left out is the error `ok`, whose report is the one for success.
/// Of a line that comes from the backend this holds where there are no escape sequences to strip;
/// an error without an escape character gives such a line.
pub proof fn law_result_understood(outcome: Option<Seq<char>>)
    requires
        outcome != Some("ok"@),
    ensures
        interpretation(result_report(outcome)) == result_meaning(outcome),
        reads_back(outcome) ==> reaction(OutputView::Line(result_report(outcome)))
            == result_meaning(outcome),
        outcome is None || !has_escape(outcome->0) ==> reads_back(outcome),
{
    reveal_strlit("progress ");
    reveal_strlit("result ok");
    reveal_strlit("result ");
    reveal_strlit("ok");
    let line = result_report(outcome);
    assert(line[0] == 'r');
    assert(after_prefix(line, "progress "@) is None) by {
        if "progress "@.is_prefix_of(line) {
            assert(line.subrange(0, 9)[0] == 'p');
        }
    }
    match outcome {
        None => {
            assert(!has_escape(line));
        },
        Some(error) => {
            lemma_after_prefix_joined("result "@, error);
            if !has_escape(error) {
                assert forall|i: int| 0 <= i < line.len() implies line[i] != '\u{1b}' && line[i]
                    != '\u{9b}' by {
                    if i >= 7 {
                        assert(line[i] == error[i - 7]);
                        assert(error.contains(error[i - 7]));
                    }
                }
                assert(!has_escape(line));
            }
            if line == "result ok"@ {
                assert(error =~= "ok"@) by {
                    assert(error =~= line.skip(7));
                }
            }
        },
    }
}

/// Every output is read: of a line, what a terminal shows of it, which is the line itself where it
/// holds no escape character; and a pipe that breaks or closes is a failure, which says so.
pub proof fn law_outputs_read(line: Seq<char>, error: Seq<char>)
    ensures
        !line.contains('\u{1b}') && !line.contains('\u{9b}') ==> reaction(OutputView::Line(line))
            == interpretation(line),
        line.contains('\u{1b}') || line.contains('\u{9b}') ==> reaction(OutputView::Line(line))
            == interpretation(strip_ansi_text(line)),
        reaction(OutputView::ReadError(error)) == (ReactionView {
            events: seq![
                EventView::Message("Lost connection to backend: "@ + error),
                EventView::Error("Lost connection to backend: "@ + error),
            ],
            finished: true,
        }),
        reaction(OutputView::Closed) == (ReactionView {
            events: seq![
                EventView::Message("Backend exited unexpectedly"@),
                EventView::Error("Backend exited unexpectedly"@),
            ],
            finished: true,
        }),
{
}

/// A line that is `progress`, a space and a number is that percentage, whatever the number is and
/// whatever white space is around it, and the conversation goes on.
pub proof fn law_percentage_read(
    before: Seq<char>,
    digits: Seq<char>,
    after: Seq<char>,
    percent: u32,
)
    requires
        is_blank(before),
        is_blank(after),
        number(digits) == Some(percent),
    ensures
        interpretation("progress "@ + (before + digits + after)) == (ReactionView {
            events: seq![EventView::Percent(percent)],
            finished: false,
        }),
{
    let bare = unsigned_digits(digits);
    assert(is_digit(bare[0]));
    assert(is_digit(bare[bare.len() - 1]));
    assert(bare[bare.len() - 1] == digits[digits.len() - 1]);
    law_trim_between(before, digits, after);
    lemma_after_prefix_joined("progress "@, before + digits + after);
}

/// A line that is `result`, a space and more ends the conversation: with success if the rest is
/// `ok`, and otherwise with the whole rest as the error, which is shown and reported.
pub proof fn law_result_read(rest: Seq<char>)
    ensures
        interpretation("result "@ + rest) == if rest == seq!['o', 'k'] {
            ReactionView { events: seq![EventView::Done], finished: true }
        } else {
            ReactionView {
                events: seq![EventView::Message(rest), EventView::Error(rest)],
                finished: true,
            }
        },
{
    reveal_strlit("progress ");
    reveal_strlit("result ok");
    reveal_strlit("result ");
    let line = "result "@ + rest;
    assert(line[0] == 'r');
    assert(after_prefix(line, "progress "@) is None) by {
        if "progress "@.is_prefix_of(line) {
            assert(line.subrange(0, 9)[0] == 'p');
        }
    }
    lemma_after_prefix_joined("result "@, rest);
    if rest == seq!['o', 'k'] {
        assert(line =~= "result ok"@);
    }
    if line == "result ok"@ {
        assert(rest =~= line.skip(7));
        assert(rest =~= seq!['o', 'k']);
    }
}

/// Any other line is shown as it is: where it is neither a result nor `progress`, a space and a
/// number, the one event is the whole line, character for character, and the conversation goes on.
pub proof fn law_other_lines_shown(line: Seq<char>)
    requires
        forall|rest: Seq<char>| line != #[trigger] ("result "@ + rest),
        forall|rest: Seq<char>|
            line == #[trigger] ("progress "@ + rest) ==> number(trimmed(rest)) is None,
    ensures
        interpretation(line) == (ReactionView {
            events: seq![EventView::Message(line)],
            finished: false,
        }),
        !line.contains('\u{1b}') && !line.contains('\u{9b}') ==> reaction(OutputView::Line(line))
            == (ReactionView { events: seq![EventView::Message(line)], finished: false }),
{
    reveal_strlit("result ok");
    reveal_strlit("result ");
    if let Some(rest) = after_prefix(line, "progress "@) {
        law_prefix_and_rest(line, "progress "@, rest);
        assert(line == "progress "@ + rest);
    }
    if let Some(rest) = after_prefix(line, "result "@) {
        law_prefix_and_rest(line, "result "@, rest);
        assert(line == "result "@ + rest);
    }
    assert("result ok"@ =~= "result "@ + seq!['o', 'k']);
}

/// Events, outputs and reactions are shown as they are.
pub proof fn law_events_shown(text: String, percent: u32, events: Vec<ProgressEvent>, i: int)
    ensures
        ProgressEvent::Percent(percent)@ == EventView::Percent(percent),
        ProgressEvent::Message(text)@ == EventView::Message(text@),
        ProgressEvent::Done@ == EventView::Done,
        ProgressEvent::Error(text)@ == EventView::Error(text@),
        BackendOutput::Line(text)@ == OutputView::Line(text@),
        BackendOutput::ReadError(text)@ == OutputView::ReadError(text@),
        BackendOutput::Closed@ == OutputView::Closed,
        events_view(events@).len() == events@.len(),
        0 <= i < events@.len() ==> events_view(events@)[i] == events@[i]@,
        forall|finished: bool|
            (#[trigger] (Reaction { events, finished })@) == (ReactionView {
                events: events_view(events@),
                finished,
            }),
{
}

/// A conversation takes in its outputs in order, up to and with the first that ends it: one more
/// output adds its events to those before if the conversation was still going on, and nothing
/// otherwise.
pub proof fn law_conversation_goes_on(outputs: Seq<OutputView>, output: OutputView)
    ensures
        conversation(Seq::empty()).events.len() == 0,
        !conversation(Seq::empty()).finished,
        conversation(outputs).finished ==> conversation(outputs.push(output)) == conversation(
            outputs,
        ),
        !conversation(outputs).finished ==> conversation(outputs.push(output)) == (ReactionView {
            events: conversation(outputs).events + reaction(output).events,
            finished: reaction(output).finished,
        }),
{
    assert(outputs.push(output).drop_last() =~= outputs);
}

/// A token is sixty-four digits, two for each of thirty-two bytes that were drawn.
pub proof fn law_token_is_drawn(token: Seq<char>)
    requires
        is_token(token),
    ensures
        token.len() == 64,
        exists|bytes: Seq<u8>|
            #![trigger can_fill(bytes)]
            can_fill(bytes) && bytes.len() == 32 && (forall|i: int|
                0 <= i < 32 ==> token[2 * i] == "0123456789abcdef"@[#[trigger] bytes[i] as int / 16]
                    && token[2 * i + 1] == "0123456789abcdef"@[bytes[i] as int % 16]),
{
    let bytes = choose|bytes: Seq<u8>|
        bytes.len() == TOKEN_BYTES && can_fill(bytes) && token == #[trigger] hex(bytes);
    assert(can_fill(bytes));
    assert forall|i: int| 0 <= i < 32 implies token[2 * i] == "0123456789abcdef"@[
        #[trigger] bytes[i] as int / 16
    ] && token[2 * i + 1] == "0123456789abcdef"@[bytes[i] as int % 16] by {
        law_hex_digits(bytes, i);
    }
}

} // verus!
