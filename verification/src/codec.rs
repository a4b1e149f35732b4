//! The line protocol spoken with the credential-verification helper.
//!
//! The helper writes newline-terminated lines; the codec reacts to four
//! prefixes. `PAM_PROMPT_ECHO_OFF` asks for the password when its trimmed
//! text is exactly `Password:`. `PAM_TEXT_INFO` retains its trimmed text as
//! the most recent informational message. `FAILURE` ends the attempt with a
//! retry carrying the last informational message (or a fixed default), and
//! `SUCCESS` ends it successfully. A stream that closes without a terminal
//! marker counts as a retry with a timeout message.

use vstd::prelude::*;

use crate::text::{has_prefix, str_after_prefix, str_has_prefix, trim_spec, trim_str};

verus! {

/// The prefix announcing an echo-suppressed prompt.
pub open spec fn prompt_prefix() -> Seq<char> {
    "PAM_PROMPT_ECHO_OFF"@
}

/// The prefix announcing informational text.
pub open spec fn info_prefix() -> Seq<char> {
    "PAM_TEXT_INFO"@
}

/// The prefix of a terminal failure line.
pub open spec fn failure_prefix() -> Seq<char> {
    "FAILURE"@
}

/// The prefix of a terminal success line.
pub open spec fn success_prefix() -> Seq<char> {
    "SUCCESS"@
}

/// The one prompt text that is answered with the password.
pub open spec fn password_prompt() -> Seq<char> {
    "Password:"@
}

/// The retry message when a failure arrives with no informational line.
pub open spec fn default_failure_message() -> Seq<char> {
    "Authentication failed. Please try again."@
}

/// The retry message when the stream closes without a terminal marker.
pub open spec fn timeout_message() -> Seq<char> {
    "Authentication timed out."@
}

/// How the codec reads one line.
pub enum SpecLineClass {
    /// An echo-suppressed prompt with the text after the prefix.
    Prompt { rest: Seq<char> },
    /// Informational text after the prefix.
    Info { rest: Seq<char> },
    /// Terminal failure.
    Failure,
    /// Terminal success.
    Success,
    /// Anything else: ignored.
    Other,
}

/// Classifies one line by its prefix, prompt first, as the protocol does.
pub open spec fn spec_line_class(line: Seq<char>) -> SpecLineClass {
    if has_prefix(line, prompt_prefix()) {
        SpecLineClass::Prompt { rest: line.subrange(prompt_prefix().len() as int, line.len() as int) }
    } else if has_prefix(line, info_prefix()) {
        SpecLineClass::Info { rest: line.subrange(info_prefix().len() as int, line.len() as int) }
    } else if has_prefix(line, failure_prefix()) {
        SpecLineClass::Failure
    } else if has_prefix(line, success_prefix()) {
        SpecLineClass::Success
    } else {
        SpecLineClass::Other
    }
}

/// A line that ends the attempt.
pub open spec fn is_terminal_line(line: Seq<char>) -> bool {
    spec_line_class(line) is Failure || spec_line_class(line) is Success
}

/// The executable classification of one line.
pub enum LineClass {
    /// An echo-suppressed prompt with the text after the prefix.
    Prompt { rest: String },
    /// Informational text after the prefix.
    Info { rest: String },
    /// Terminal failure.
    Failure,
    /// Terminal success.
    Success,
    /// Anything else: ignored.
    Other,
}

impl View for LineClass {
    type V = SpecLineClass;

    open spec fn view(&self) -> SpecLineClass {
        match self {
            LineClass::Prompt { rest } => SpecLineClass::Prompt { rest: rest@ },
            LineClass::Info { rest } => SpecLineClass::Info { rest: rest@ },
            LineClass::Failure => SpecLineClass::Failure,
            LineClass::Success => SpecLineClass::Success,
            LineClass::Other => SpecLineClass::Other,
        }
    }
}

/// Classifies one helper line.
pub fn classify_line(line: &str) -> (c: LineClass)
    ensures
        c@ == spec_line_class(line@),
{
    if str_has_prefix(line, "PAM_PROMPT_ECHO_OFF") {
        LineClass::Prompt { rest: str_after_prefix(line, "PAM_PROMPT_ECHO_OFF") }
    } else if str_has_prefix(line, "PAM_TEXT_INFO") {
        LineClass::Info { rest: str_after_prefix(line, "PAM_TEXT_INFO") }
    } else if str_has_prefix(line, "FAILURE") {
        LineClass::Failure
    } else if str_has_prefix(line, "SUCCESS") {
        LineClass::Success
    } else {
        LineClass::Other
    }
}

/// The terminal result of one verification attempt.
pub enum AuthOutcome {
    /// The helper accepted the credential.
    Success,
    /// The attempt failed; the session continues with this message.
    Retry(String),
}

/// The specification-level form of an attempt outcome.
pub enum SpecAuthOutcome {
    /// The helper accepted the credential.
    Success,
    /// The attempt failed with this retry message.
    Retry(Seq<char>),
}

impl View for AuthOutcome {
    type V = SpecAuthOutcome;

    open spec fn view(&self) -> SpecAuthOutcome {
        match self {
            AuthOutcome::Success => SpecAuthOutcome::Success,
            AuthOutcome::Retry(m) => SpecAuthOutcome::Retry(m@),
        }
    }
}

/// The outcome of a failure line, given the last informational message.
pub open spec fn spec_failure_outcome(last_info: Option<Seq<char>>) -> SpecAuthOutcome {
    match last_info {
        Some(m) => SpecAuthOutcome::Retry(m),
        None => SpecAuthOutcome::Retry(default_failure_message()),
    }
}

/// The outcome of reading a whole stream of lines, starting with a retained
/// informational message: the first terminal line decides, the last
/// informational line supplies the retry text, and a stream without a
/// terminal line times out.
pub open spec fn spec_codec_outcome(lines: Seq<Seq<char>>, last_info: Option<Seq<char>>) -> SpecAuthOutcome
    decreases lines.len(),
{
    if lines.len() == 0 {
        SpecAuthOutcome::Retry(timeout_message())
    } else {
        match spec_line_class(lines[0]) {
            SpecLineClass::Success => SpecAuthOutcome::Success,
            SpecLineClass::Failure => spec_failure_outcome(last_info),
            SpecLineClass::Info { rest } => spec_codec_outcome(
                lines.drop_first(),
                Some(trim_spec(rest)),
            ),
            SpecLineClass::Prompt { rest } => spec_codec_outcome(lines.drop_first(), last_info),
            SpecLineClass::Other => spec_codec_outcome(lines.drop_first(), last_info),
        }
    }
}

/// What the codec asks its driver to do after one line.
pub enum StepAction {
    /// Write the held password and a newline to the helper.
    SendPassword,
    /// Keep reading lines.
    Continue,
    /// The attempt ended with this outcome; read no further line.
    Finished(AuthOutcome),
}

/// The codec's only state between lines: the last informational message.
pub struct CodecState {
    last_info: Option<String>,
}

impl CodecState {
    /// The retained informational message, if any.
    pub closed spec fn info_view(self) -> Option<Seq<char>> {
        match self.last_info {
            Some(m) => Some(m@),
            None => None,
        }
    }

    /// A fresh codec with no informational message retained.
    pub fn new() -> (s: Self)
        ensures
            s.info_view() == None::<Seq<char>>,
    {
        CodecState { last_info: None }
    }

    /// Reacts to one helper line: answers the exact `Password:` prompt,
    /// retains the trimmed text of an informational line, and ends the
    /// attempt on a terminal line.
    pub fn feed_line(&mut self, line: &str) -> (a: StepAction)
        ensures
            match spec_line_class(line@) {
                SpecLineClass::Prompt { rest } => {
                    &&& final(self).info_view() == old(self).info_view()
                    &&& a == (if trim_spec(rest) == password_prompt() {
                        StepAction::SendPassword
                    } else {
                        StepAction::Continue
                    })
                },
                SpecLineClass::Info { rest } => {
                    &&& final(self).info_view() == Some(trim_spec(rest))
                    &&& a == StepAction::Continue
                },
                SpecLineClass::Failure => {
                    &&& final(self).info_view() == old(self).info_view()
                    &&& (a matches StepAction::Finished(o)
                        && o@ == spec_failure_outcome(old(self).info_view()))
                },
                SpecLineClass::Success => {
                    &&& final(self).info_view() == old(self).info_view()
                    &&& (a matches StepAction::Finished(o) && o@ == SpecAuthOutcome::Success)
                },
                SpecLineClass::Other => {
                    &&& final(self).info_view() == old(self).info_view()
                    &&& a == StepAction::Continue
                },
            },
    {
        let c = classify_line(line);
        match c {
            LineClass::Prompt { rest } => {
                let t = trim_str(rest.as_str());
                if t == "Password:".to_owned() {
                    StepAction::SendPassword
                } else {
                    StepAction::Continue
                }
            },
            LineClass::Info { rest } => {
                self.last_info = Some(trim_str(rest.as_str()));
                StepAction::Continue
            },
            LineClass::Failure => {
                let msg = match &self.last_info {
                    Some(m) => m.clone(),
                    None => "Authentication failed. Please try again.".to_owned(),
                };
                StepAction::Finished(AuthOutcome::Retry(msg))
            },
            LineClass::Success => StepAction::Finished(AuthOutcome::Success),
            LineClass::Other => StepAction::Continue,
        }
    }
}

/// The outcome when the stream closes without a terminal marker.
pub fn stream_closed_outcome() -> (r: AuthOutcome)
    ensures
        r@ == SpecAuthOutcome::Retry(timeout_message()),
{
    AuthOutcome::Retry("Authentication timed out.".to_owned())
}

/// The views of a vector of lines.
pub open spec fn views_of(lines: Seq<String>) -> Seq<Seq<char>> {
    lines.map_values(|l: String| l@)
}

/// How many lines a run of the codec reads: everything up to and including
/// the first terminal line, or the whole stream if there is none.
pub open spec fn spec_consumed(lines: Seq<Seq<char>>) -> int
    decreases lines.len(),
{
    if lines.len() == 0 {
        0
    } else if is_terminal_line(lines[0]) {
        1
    } else {
        1 + spec_consumed(lines.drop_first())
    }
}

/// What one run of the codec over a complete stream produced, and how many
/// lines it read before stopping.
pub struct CodecRun {
    /// The terminal outcome of the attempt.
    pub outcome: AuthOutcome,
    /// The number of lines read; lines past this count were never looked at.
    pub consumed: usize,
}

/// Runs the codec over a captured stream of lines: reads until the first
/// terminal line or the end of the stream, and never looks further.
pub fn run_codec(lines: &Vec<String>) -> (r: CodecRun)
    ensures
        r.outcome@ == spec_codec_outcome(views_of(lines@), None::<Seq<char>>),
        r.consumed == spec_consumed(views_of(lines@)),
{
    let ghost lv = views_of(lines@);
    let mut state = CodecState::new();
    let mut i: usize = 0;
    proof {
        assert(lv.skip(0) =~= lv);
    }
    loop
        invariant
            0 <= i <= lines@.len(),
            lv == views_of(lines@),
            lv.len() == lines@.len(),
            spec_codec_outcome(lv.skip(i as int), state.info_view()) == spec_codec_outcome(
                lv,
                None::<Seq<char>>,
            ),
            spec_consumed(lv) == i + spec_consumed(lv.skip(i as int)),
        decreases lines@.len() - i,
    {
        if i == lines.len() {
            proof {
                assert(lv.skip(i as int) =~= Seq::<Seq<char>>::empty());
            }
            return CodecRun { outcome: stream_closed_outcome(), consumed: i };
        }
        proof {
            assert(lv.skip(i as int)[0] == lines@[i as int]@);
        }
        let a = state.feed_line(lines[i].as_str());
        proof {
            assert(lv.skip(i as int).drop_first() =~= lv.skip(i as int + 1));
        }
        match a {
            StepAction::Finished(o) => {
                return CodecRun { outcome: o, consumed: i + 1 };
            },
            _ => {
                i = i + 1;
            },
        }
    }
}

/// Among informational lines read before a failure, the last one wins: the
/// retry message is the trimmed text of the final `PAM_TEXT_INFO` line,
/// never an earlier one and never a previously retained message.
pub proof fn lemma_last_info_wins(
    infos: Seq<Seq<char>>,
    last_rest: Seq<char>,
    fail: Seq<char>,
    last_info: Option<Seq<char>>,
)
    requires
        infos.len() > 0,
        forall|i: int| 0 <= i < infos.len() ==> spec_line_class(infos[i]) is Info,
        spec_line_class(infos.last()) == (SpecLineClass::Info { rest: last_rest }),
        spec_line_class(fail) is Failure,
    ensures
        spec_codec_outcome(infos.push(fail), last_info) == SpecAuthOutcome::Retry(
            trim_spec(last_rest),
        ),
    decreases infos.len(),
{
    let all = infos.push(fail);
    assert(all[0] == infos[0]);
    let rest0 = spec_line_class(infos[0])->Info_rest;
    if infos.len() == 1 {
        assert(all.drop_first() =~= seq![fail]);
        assert(rest0 == last_rest);
    } else {
        assert(all.drop_first() =~= infos.drop_first().push(fail));
        assert(infos.drop_first().last() == infos.last());
        lemma_last_info_wins(infos.drop_first(), last_rest, fail, Some(trim_spec(rest0)));
    }
}

/// A failure with no informational line before it yields the message the
/// codec started with: with none retained, the fixed default text.
pub proof fn lemma_failure_without_info(
    pre: Seq<Seq<char>>,
    fail: Seq<char>,
    last_info: Option<Seq<char>>,
)
    requires
        forall|i: int| 0 <= i < pre.len() ==> !(spec_line_class(pre[i]) is Info)
            && !is_terminal_line(pre[i]),
        spec_line_class(fail) is Failure,
    ensures
        spec_codec_outcome(pre.push(fail), last_info) == spec_failure_outcome(last_info),
    decreases pre.len(),
{
    let all = pre.push(fail);
    if pre.len() == 0 {
        assert(all[0] == fail);
    } else {
        assert(all[0] == pre[0]);
        assert(all.drop_first() =~= pre.drop_first().push(fail));
        lemma_failure_without_info(pre.drop_first(), fail, last_info);
    }
}

/// A success line short-circuits the run: whatever lines follow it, the
/// outcome is success, so they can never be read or matter.
pub proof fn lemma_success_short_circuits(
    pre: Seq<Seq<char>>,
    succ: Seq<char>,
    rest: Seq<Seq<char>>,
    last_info: Option<Seq<char>>,
)
    requires
        forall|i: int| 0 <= i < pre.len() ==> !is_terminal_line(pre[i]),
        spec_line_class(succ) is Success,
    ensures
        spec_codec_outcome(pre.push(succ) + rest, last_info) == SpecAuthOutcome::Success,
    decreases pre.len(),
{
    let all = pre.push(succ) + rest;
    if pre.len() == 0 {
        assert(all[0] == succ);
    } else {
        assert(all[0] == pre[0]);
        assert(all.drop_first() =~= pre.drop_first().push(succ) + rest);
        match spec_line_class(pre[0]) {
            SpecLineClass::Info { rest: r0 } => {
                lemma_success_short_circuits(pre.drop_first(), succ, rest, Some(trim_spec(r0)));
            },
            _ => {
                lemma_success_short_circuits(pre.drop_first(), succ, rest, last_info);
            },
        }
    }
}

/// A stream that ends without any terminal marker times out, whatever
/// informational lines it carried.
pub proof fn lemma_no_terminal_times_out(lines: Seq<Seq<char>>, last_info: Option<Seq<char>>)
    requires
        forall|i: int| 0 <= i < lines.len() ==> !is_terminal_line(lines[i]),
    ensures
        spec_codec_outcome(lines, last_info) == SpecAuthOutcome::Retry(timeout_message()),
    decreases lines.len(),
{
    if lines.len() > 0 {
        match spec_line_class(lines[0]) {
            SpecLineClass::Info { rest: r0 } => {
                lemma_no_terminal_times_out(lines.drop_first(), Some(trim_spec(r0)));
            },
            _ => {
                lemma_no_terminal_times_out(lines.drop_first(), last_info);
            },
        }
    }
}

} // verus!
