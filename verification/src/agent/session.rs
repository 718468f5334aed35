use vstd::prelude::*;

use crate::agent::context::{compact_tool_result, compacted};
use crate::agent::error::{blocking_frames, frame_lines};
use crate::agent::repair::{notes_view, remembered_after, repair_notes, repaired_calls, signatures_view, storms, ToolCallRepair};
use crate::agent::tools::ToolOutcome;
use crate::config::{has_model, HereConfig};
use crate::diagnostic::{opt_view, strings_view};
use crate::model::error::ModelError;
use crate::model::router::{default_lane_of, Router};
use crate::model::types::{
    calls_view, clone_calls, messages_view, text_message, Message, MessageView, Role, ToolCall, ToolCallView, Usage,
};
use crate::report::{stages_view, GateReport};
use crate::text::{cat, chars_of, join, joined, push_str, str_owned};

verus! {

/// How a session is asked to run.
#[derive(Debug)]
pub struct SessionOptions {
    pub lane: Option<String>,
    pub max_turns: Option<u32>,
    pub apply: bool,
}

impl Default for SessionOptions {
    fn default() -> (r: Self)
        ensures
            r.lane is None && r.max_turns is None && !r.apply,
    {
        SessionOptions { lane: None, max_turns: None, apply: false }
    }
}

/// How a session ended.
#[derive(Debug)]
pub struct SessionOutcome {
    pub finished: bool,
    pub passed: bool,
    /// Whether a blocking stage ran in the final gate.
    pub verified: bool,
    pub turns: u32,
    pub summary: String,
    pub escalated: bool,
    pub shadow_path: String,
    pub events_path: String,
    pub usage: Usage,
}

/// The lane a session starts on: the one asked for, else the router's default.
pub fn session_lane(options: &SessionOptions, router: &Router) -> (r: Result<String, ModelError>)
    ensures
        match options.lane {
            Some(l) => r matches Ok(s) && s@ == l@,
            None => match r {
                Ok(s) => default_lane_of(router.config) == Some(s@),
                Err(_) => default_lane_of(router.config) is None,
            },
        },
{
    match &options.lane {
        Some(l) => Ok(str_owned(l.as_str())),
        None => match router.default_lane() {
            Ok(l) => Ok(str_owned(l)),
            Err(e) => Err(e),
        },
    }
}

/// The most turns a session takes: the option, else the configuration, and at least one.
pub open spec fn turn_limit_of(options: SessionOptions, config: HereConfig) -> u32 {
    let n = match options.max_turns {
        Some(n) => n,
        None => config.agent.max_turns,
    };
    if n < 1 { 1 } else { n }
}

pub fn turn_limit(options: &SessionOptions, config: &HereConfig) -> (r: u32)
    ensures
        r == turn_limit_of(*options, *config),
        r >= 1,
{
    let n = match options.max_turns {
        Some(n) => n,
        None => config.agent.max_turns,
    };
    if n < 1 { 1 } else { n }
}

/// The token budget of one tool result on a lane whose window holds `context_tokens`: a
/// twelfth of the window or the configured budget, whichever is smaller, and at least 200.
pub open spec fn tool_tokens(config: HereConfig, context_tokens: u64) -> nat {
    let window = (context_tokens / 12) as nat;
    let configured = config.agent.tool_result_token_budget as nat;
    let b = if window < configured { window } else { configured };
    if b < 200 { 200 } else { b }
}

/// The character budget of one tool result: its token budget (see `tool_tokens`), four
/// characters per token.
pub fn tool_budget(config: &HereConfig, context_tokens: u64) -> (r: usize)
    requires
        config.agent.tool_result_token_budget <= usize::MAX / 4,
    ensures
        r == 4 * tool_tokens(*config, context_tokens),
{
    let configured = config.agent.tool_result_token_budget;
    let window = context_tokens / 12;
    let b: usize = if (window as u128) < (configured as u128) { window as usize } else { configured };
    let b = if b < 200 { 200 } else { b };
    b * 4
}

/// Whether a finished session's shadow is applied to the working tree: only when asked for,
/// and only when the final gate run passed and counts as evidence (a blocking stage ran, or
/// nothing gateable changed).
pub fn applies_result(options: &SessionOptions, passed: bool, verified: bool) -> (r: bool)
    ensures
        r == (options.apply && passed && verified),
{
    options.apply && passed && verified
}

/// The total after one more response: each count added, the cached count added where the
/// response reports one (counting from zero where the total had none).
pub open spec fn usage_after(total: Usage, usage: Usage) -> Usage {
    Usage {
        prompt_tokens: (total.prompt_tokens + usage.prompt_tokens) as u64,
        completion_tokens: (total.completion_tokens + usage.completion_tokens) as u64,
        total_tokens: (total.total_tokens + usage.total_tokens) as u64,
        cached_tokens: match usage.cached_tokens {
            Some(c) => Some((match total.cached_tokens {
                Some(t) => t + c,
                None => c as int,
            }) as u64),
            None => total.cached_tokens,
        },
    }
}

/// Adds one response's usage to the session's total.
pub fn accumulate(total: &mut Usage, usage: &Usage)
    requires
        old(total).prompt_tokens + usage.prompt_tokens <= u64::MAX,
        old(total).completion_tokens + usage.completion_tokens <= u64::MAX,
        old(total).total_tokens + usage.total_tokens <= u64::MAX,
        usage.cached_tokens is Some ==> match old(total).cached_tokens {
            Some(c) => c + usage.cached_tokens->0 <= u64::MAX,
            None => true,
        },
    ensures
        final(total).prompt_tokens == old(total).prompt_tokens + usage.prompt_tokens,
        final(total).completion_tokens == old(total).completion_tokens + usage.completion_tokens,
        final(total).total_tokens == old(total).total_tokens + usage.total_tokens,
        final(total).cached_tokens == match usage.cached_tokens {
            Some(c) => Some((match old(total).cached_tokens {
                Some(t) => t + c,
                None => c as int,
            }) as u64),
            None => old(total).cached_tokens,
        },
        *final(total) == usage_after(*old(total), *usage),
{
    total.prompt_tokens = total.prompt_tokens + usage.prompt_tokens;
    total.completion_tokens = total.completion_tokens + usage.completion_tokens;
    total.total_tokens = total.total_tokens + usage.total_tokens;
    match usage.cached_tokens {
        Some(c) => {
            let t = match total.cached_tokens {
                Some(t) => t,
                None => 0,
            };
            total.cached_tokens = Some(t + c);
        },
        None => {},
    }
}

/// A message with its tool output cut to the budget, when it is a tool answer longer than
/// the budget.
pub open spec fn compact_message(m: MessageView, budget: nat) -> MessageView {
    match m.content {
        Some(c) => if m.role == Role::Tool && c.len() > budget {
            MessageView { content: Some(compacted(c, budget)), ..m }
        } else {
            m
        },
        None => m,
    }
}

/// The conversation after compaction: every tool answer but the last message cut to the
/// budget, when there are at least three messages.
pub open spec fn compacted_tail(tail: Seq<MessageView>, budget: nat) -> Seq<MessageView> {
    if tail.len() < 3 {
        tail
    } else {
        Seq::new(tail.len(), |i: int| if i < tail.len() - 1 { compact_message(tail[i], budget) } else { tail[i] })
    }
}

pub fn compact_tail(tail: &mut Vec<Message>, budget: usize)
    requires
        budget * 3 <= usize::MAX,
    ensures
        messages_view(final(tail)@) == compacted_tail(messages_view(old(tail)@), budget as nat),
{
    if tail.len() < 3 {
        return;
    }
    let ghost start = messages_view(tail@);
    let last = tail.len() - 1;
    let mut i: usize = 0;
    while i < last
        invariant
            budget * 3 <= usize::MAX,
            i <= last,
            last == tail.len() - 1,
            tail.len() >= 3,
            start.len() == tail.len(),
            forall|k: int| 0 <= k < i ==> (#[trigger] messages_view(tail@)[k]) == compact_message(start[k], budget as nat),
            forall|k: int| i <= k < tail.len() ==> (#[trigger] messages_view(tail@)[k]) == start[k],
        decreases last - i,
    {
        let is_long = match &tail[i].content {
            Some(c) => tail[i].role == Role::Tool && chars_of(c.as_str()).len() > budget,
            None => false,
        };
        let ghost before = tail@;
        assert(messages_view(before)[i as int] == start[i as int]);
        if is_long {
            let short = match &tail[i].content {
                Some(c) => compact_tool_result(c.as_str(), budget),
                None => String::new(),
            };
            let mut m = tail[i].duplicate();
            m.content = Some(short);
            assert(m@ == compact_message(start[i as int], budget as nat));
            tail.set(i, m);
            assert(tail@ == before.update(i as int, m));
        }
        assert(messages_view(tail@)[i as int] == compact_message(start[i as int], budget as nat));
        assert forall|k: int| 0 <= k < tail.len() && k != i implies #[trigger] messages_view(tail@)[k] == messages_view(before)[k] by {
            assert(tail@[k] == before[k]);
        }
        i = i + 1;
    }
    assert(messages_view(tail@) =~= compacted_tail(start, budget as nat));
}

/// The message that asks the model to act when it answered without tool calls.
pub open spec fn nudge_text() -> Seq<char> {
    "Use the provided tools to make progress, or call finish when the task is complete."@
}

/// The message that replaces a suppressed repeated call.
pub open spec fn storm_text() -> Seq<char> {
    "repeated identical call suppressed; choose a different action"@
}

/// The feedback after a rejected change: the frames, and the stages that could not verify.
pub open spec fn feedback_text(frames: Seq<char>, warnings: Seq<Seq<char>>) -> Seq<char> {
    "The gates rejected this change. Fix exactly these problems:\n"@ + frames + if warnings.len() == 0 {
        Seq::empty()
    } else {
        "\nUnverified stages: "@ + joined(warnings, "; "@)
    }
}

/// Whether a session switches to the deep lane now.
pub open spec fn escalates(escalate_enabled: bool, escalated: bool, failures: u32, lane: Seq<char>, deep_configured: bool) -> bool {
    escalate_enabled && !escalated && failures >= 2 && lane != "deep"@ && deep_configured
}

/// Whether a turn could start, and if not, which limit stopped it.
#[derive(Debug, PartialEq, Eq, Structural, Clone, Copy)]
pub enum TurnStart {
    Started,
    OutOfTurns,
    OutOfTime,
}

/// The state a running session decides on. The caller performs the model calls, the tool
/// work and the pipeline runs, and hands each result to a method here.
pub struct SessionState {
    pub lane: String,
    pub escalated: bool,
    pub tail: Vec<Message>,
    pub repair: ToolCallRepair,
    pub consecutive_failures: u32,
    pub usage: Usage,
    pub turn: u32,
    pub max_turns: u32,
    pub finished: bool,
    pub summary: String,
}

impl SessionState {
    /// The turn count stays within the limit.
    pub open spec fn wf(&self) -> bool {
        self.turn <= self.max_turns
    }

    /// A session on `lane` whose conversation starts with the task.
    pub fn new(lane: String, task: &str, max_turns: u32) -> (r: Self)
        ensures
            r.wf(),
            r.lane == lane,
            !r.escalated && !r.finished && r.turn == 0 && r.max_turns == max_turns && r.consecutive_failures == 0,
            messages_view(r.tail@) == seq![text_message(Role::User, task@)],
            r.summary@.len() == 0,
            r.usage == (Usage { prompt_tokens: 0, completion_tokens: 0, total_tokens: 0, cached_tokens: None }),
    {
        let mut tail: Vec<Message> = Vec::new();
        tail.push(Message::user(task));
        assert(messages_view(tail@) =~= seq![text_message(Role::User, task@)]);
        SessionState {
            lane,
            escalated: false,
            tail,
            repair: ToolCallRepair::new(),
            consecutive_failures: 0,
            usage: Usage::default(),
            turn: 0,
            max_turns,
            finished: false,
            summary: String::new(),
        }
    }

    /// Starts the next turn when the turn limit and the wall-clock budget allow one (`elapsed_ms`
    /// since the session began, against `max_wall_secs`), compacting the conversation first.
    pub fn begin_turn(&mut self, budget: usize, elapsed_ms: u64, max_wall_secs: u64) -> (r: TurnStart)
        requires
            old(self).wf(),
            budget * 3 <= usize::MAX,
        ensures
            final(self).wf(),
            r == (if old(self).turn >= old(self).max_turns {
                TurnStart::OutOfTurns
            } else if elapsed_ms >= max_wall_secs * 1000 {
                TurnStart::OutOfTime
            } else {
                TurnStart::Started
            }),
            r is Started ==> final(self).turn == old(self).turn + 1
                && messages_view(final(self).tail@) == compacted_tail(messages_view(old(self).tail@), budget as nat),
            !(r is Started) ==> *final(self) == *old(self),
            final(self).max_turns == old(self).max_turns && final(self).escalated == old(self).escalated
                && final(self).consecutive_failures == old(self).consecutive_failures
                && final(self).lane == old(self).lane && final(self).finished == old(self).finished,
    {
        if self.turn >= self.max_turns {
            return TurnStart::OutOfTurns;
        }
        if elapsed_ms / 1000 >= max_wall_secs {
            return TurnStart::OutOfTime;
        }
        self.turn = self.turn + 1;
        compact_tail(&mut self.tail, budget);
        TurnStart::Started
    }

    /// The messages of the next request: the system message, then the conversation.
    pub fn request_messages(&self, system: &Message) -> (r: Vec<Message>)
        ensures
            messages_view(r@) == seq![system@] + messages_view(self.tail@),
    {
        let mut out: Vec<Message> = Vec::new();
        out.push(system.duplicate());
        let mut i: usize = 0;
        while i < self.tail.len()
            invariant
                i <= self.tail.len(),
                messages_view(out@) == seq![system@] + messages_view(self.tail@.take(i as int)),
            decreases self.tail.len() - i,
        {
            let m = self.tail[i].duplicate();
            let ghost before = out@;
            out.push(m);
            assert(messages_view(out@) =~= messages_view(before).push(m@));
            assert(messages_view(self.tail@.take(i + 1)) =~= messages_view(self.tail@.take(i as int)).push(self.tail@[i as int]@));
            i = i + 1;
        }
        assert(self.tail@.take(self.tail.len() as int) =~= self.tail@);
        out
    }

    /// Takes in one model response: adds its usage, repairs its tool calls, records it, and
    /// asks for tools when it called none. Returns the calls to run and the repair notes.
    pub fn record_response(&mut self, content: Option<&str>, calls: Vec<ToolCall>, usage: &Usage)
        -> (r: (Vec<ToolCall>, Vec<(&'static str, String)>))
        requires
            old(self).wf(),
            old(self).usage.prompt_tokens + usage.prompt_tokens <= u64::MAX,
            old(self).usage.completion_tokens + usage.completion_tokens <= u64::MAX,
            old(self).usage.total_tokens + usage.total_tokens <= u64::MAX,
            usage.cached_tokens is Some ==> match old(self).usage.cached_tokens {
                Some(c) => c + usage.cached_tokens->0 <= u64::MAX,
                None => true,
            },
        ensures
            final(self).wf(),
            calls_view(r.0@) == repaired_calls(
                match content {
                    Some(c) => Some(c@),
                    None => None,
                },
                calls_view(calls@),
            ),
            messages_view(final(self).tail@) == messages_view(old(self).tail@).push(MessageView {
                role: Role::Assistant,
                content: match content {
                    Some(c) => Some(c@),
                    None => None,
                },
                tool_calls: calls_view(r.0@),
                tool_call_id: None,
            }) + if r.0@.len() == 0 {
                seq![text_message(Role::User, nudge_text())]
            } else {
                Seq::empty()
            },
            notes_view(r.1@) == repair_notes(
                match content {
                    Some(c) => Some(c@),
                    None => None,
                },
                calls_view(calls@),
            ),
            final(self).usage == usage_after(old(self).usage, *usage),
            final(self).turn == old(self).turn && final(self).max_turns == old(self).max_turns
                && final(self).escalated == old(self).escalated && final(self).lane == old(self).lane
                && final(self).consecutive_failures == old(self).consecutive_failures
                && final(self).finished == old(self).finished,
    {
        accumulate(&mut self.usage, usage);
        let (repaired, notes) = self.repair.repair(content, calls);
        let ghost before = self.tail@;
        let content_copy = match content {
            Some(c) => Some(str_owned(c)),
            None => None,
        };
        let m = Message { role: Role::Assistant, content: content_copy, tool_calls: clone_calls(&repaired), tool_call_id: None };
        self.tail.push(m);
        if repaired.len() == 0 {
            let ghost mid = self.tail@;
            self.tail.push(Message::user("Use the provided tools to make progress, or call finish when the task is complete."));
            assert(messages_view(self.tail@) =~= messages_view(mid).push(text_message(Role::User, nudge_text())));
        }
        assert(messages_view(self.tail@) =~= messages_view(before).push(m@) + if repaired@.len() == 0 {
            seq![text_message(Role::User, nudge_text())]
        } else {
            Seq::empty()
        });
        (repaired, notes)
    }

    /// Whether a call may run: it is refused exactly when it storms (see `storms`), and
    /// answered with a refusal instead; the call is remembered as `remembered_after` says.
    pub fn admit_call(&mut self, call: &ToolCall) -> (r: bool)
        requires
            old(self).wf(),
        ensures
            final(self).wf(),
            r == !storms(signatures_view(old(self).repair.recent@), call.name@, call.arguments@),
            signatures_view(final(self).repair.recent@)
                == remembered_after(signatures_view(old(self).repair.recent@), call.name@, call.arguments@),
            final(self).usage == old(self).usage && final(self).summary == old(self).summary,
            r ==> messages_view(final(self).tail@) == messages_view(old(self).tail@),
            !r ==> messages_view(final(self).tail@) == messages_view(old(self).tail@).push(
                MessageView { tool_call_id: Some(call.id@), ..text_message(Role::Tool, storm_text()) },
            ),
            final(self).turn == old(self).turn && final(self).max_turns == old(self).max_turns
                && final(self).escalated == old(self).escalated && final(self).lane == old(self).lane
                && final(self).consecutive_failures == old(self).consecutive_failures
                && final(self).finished == old(self).finished,
    {
        if self.repair.is_storm(call) {
            let ghost before = self.tail@;
            let m = Message::tool_call_response(call.id.as_str(), "repeated identical call suppressed; choose a different action");
            self.tail.push(m);
            assert(messages_view(self.tail@) =~= messages_view(before).push(m@));
            false
        } else {
            true
        }
    }

    /// Records what a tool call produced; a finish call ends the session's work.
    pub fn record_tool_result(&mut self, call: &ToolCall, outcome: &ToolOutcome)
        requires
            old(self).wf(),
        ensures
            final(self).wf(),
            messages_view(final(self).tail@) == messages_view(old(self).tail@).push(
                MessageView { tool_call_id: Some(call.id@), ..text_message(Role::Tool, outcome.content@) },
            ),
            final(self).finished == (old(self).finished || outcome.finish is Some),
            final(self).summary@ == match outcome.finish {
                Some(s) => s@,
                None => old(self).summary@,
            },
            final(self).turn == old(self).turn && final(self).max_turns == old(self).max_turns
                && final(self).escalated == old(self).escalated && final(self).lane == old(self).lane
                && final(self).consecutive_failures == old(self).consecutive_failures,
    {
        let ghost before = self.tail@;
        let m = Message::tool_call_response(call.id.as_str(), outcome.content.as_str());
        self.tail.push(m);
        assert(messages_view(self.tail@) =~= messages_view(before).push(m@));
        match &outcome.finish {
            Some(s) => {
                self.finished = true;
                self.summary = str_owned(s.as_str());
            },
            None => {},
        }
    }

    /// Takes in the report of a gate run after the workspace changed. A pass resets the
    /// failure count; a failure counts, feeds the frames back, and returns the reason for
    /// switching to the deep lane when the session should now escalate.
    pub fn gate_feedback(&mut self, report: &GateReport, escalate_enabled: bool, deep_configured: bool) -> (r: Option<String>)
        requires
            old(self).wf(),
            old(self).consecutive_failures < u32::MAX,
        ensures
            final(self).wf(),
            report.passed ==> final(self).consecutive_failures == 0
                && messages_view(final(self).tail@) == messages_view(old(self).tail@) && r is None,
            !report.passed ==> final(self).consecutive_failures == old(self).consecutive_failures + 1
                && messages_view(final(self).tail@) == messages_view(old(self).tail@).push(text_message(
                    Role::User,
                    feedback_text(joined(frame_lines(stages_view(report.stages@)), "\n"@), strings_view(report.warnings@)),
                ))
                && (r is Some <==> escalates(escalate_enabled, old(self).escalated, final(self).consecutive_failures,
                    old(self).lane@, deep_configured)),
            r matches Some(reason) ==> reason@ == crate::text::decimal(final(self).consecutive_failures as nat)
                + " consecutive gate failures"@,
            final(self).turn == old(self).turn && final(self).max_turns == old(self).max_turns
                && final(self).escalated == old(self).escalated && final(self).lane == old(self).lane
                && final(self).finished == old(self).finished,
    {
        if report.passed {
            self.consecutive_failures = 0;
            return None;
        }
        self.consecutive_failures = self.consecutive_failures + 1;
        let frames = blocking_frames(report);
        let mut text = cat("The gates rejected this change. Fix exactly these problems:\n", frames.as_str());
        if report.warnings.len() > 0 {
            push_str(&mut text, "\nUnverified stages: ");
            push_str(&mut text, join(&report.warnings, "; ").as_str());
        }
        assert(text@ =~= feedback_text(joined(frame_lines(stages_view(report.stages@)), "\n"@), strings_view(report.warnings@)));
        let ghost before = self.tail@;
        let m = Message::user(text.as_str());
        self.tail.push(m);
        assert(messages_view(self.tail@) =~= messages_view(before).push(m@));
        let deep = crate::config::str_eq(self.lane.as_str(), "deep");
        if escalate_enabled && !self.escalated && self.consecutive_failures >= 2 && !deep && deep_configured {
            let mut reason = crate::text::decimal_string(self.consecutive_failures as u64);
            push_str(&mut reason, " consecutive gate failures");
            Some(reason)
        } else {
            None
        }
    }

    /// Switches the session to the deep lane.
    pub fn escalate(&mut self)
        requires
            old(self).wf(),
            !old(self).escalated,
        ensures
            final(self).wf(),
            final(self).lane@ == "deep"@,
            final(self).escalated,
            final(self).turn == old(self).turn && final(self).max_turns == old(self).max_turns
                && final(self).consecutive_failures == old(self).consecutive_failures
                && final(self).finished == old(self).finished && final(self).tail@ == old(self).tail@,
    {
        self.lane = str_owned("deep");
        self.escalated = true;
    }

    /// The outcome of the session once the final gate run said whether it passed.
    pub fn outcome(self, passed: bool, verified: bool, shadow_path: String, events_path: String) -> (r: SessionOutcome)
        ensures
            r.finished == self.finished && r.passed == passed && r.verified == verified && r.turns == self.turn
                && r.summary == self.summary
                && r.escalated == self.escalated && r.shadow_path == shadow_path && r.events_path == events_path
                && r.usage == self.usage,
    {
        SessionOutcome {
            finished: self.finished,
            passed,
            verified,
            turns: self.turn,
            summary: self.summary,
            escalated: self.escalated,
            shadow_path,
            events_path,
            usage: self.usage,
        }
    }
}

/// A session's turn count never passes its limit, whatever the results handed to it.
pub proof fn law_turns_within_limit(s: SessionState)
    requires
        s.wf(),
    ensures
        s.turn <= s.max_turns,
{
}

/// A session switches to the deep lane at most once: once escalated, no failure run asks
/// for another switch.
pub proof fn law_escalates_once(enabled: bool, failures: u32, lane: Seq<char>, deep_configured: bool)
    ensures
        !escalates(enabled, true, failures, lane, deep_configured),
{
}

/// A session on the deep lane never escalates, and one escalates only after two failed gate
/// runs in a row.
pub proof fn law_escalation_needs_repeated_failure(enabled: bool, escalated: bool, failures: u32, lane: Seq<char>, deep_configured: bool)
    ensures
        escalates(enabled, escalated, failures, lane, deep_configured) ==> failures >= 2 && lane != "deep"@
            && deep_configured && enabled,
{
}

} // verus!
