use vstd::prelude::*;

verus! {

/// The name of the terminal tool: calling it ends a conversation, and its
/// arguments are the answer.
pub const SUBMIT_TOOL_NAME: &'static str = "submit";

/// The user text that asks the model to go on after a tool result.
pub const RESUME_PROMPT: &'static str = "resume";

pub open spec fn submit_name() -> Seq<char> {
    seq!['s', 'u', 'b', 'm', 'i', 't']
}

pub open spec fn resume_text() -> Seq<char> {
    seq!['r', 'e', 's', 'u', 'm', 'e']
}

/// The structured answer of a match: every field is absent when nothing was found.
#[derive(Debug)]
pub struct MatchResult {
    pub id: Option<i32>,
    pub name: Option<String>,
    pub season: Option<i32>,
    pub confidence_score: Option<i32>,
}

/// A tool invocation requested by the model.
pub struct ToolCall {
    pub id: String,
    pub name: String,
    pub arguments: String,
}

pub struct ToolCallV {
    pub id: Seq<char>,
    pub name: Seq<char>,
    pub arguments: Seq<char>,
}

impl View for ToolCall {
    type V = ToolCallV;

    open spec fn view(&self) -> ToolCallV {
        ToolCallV { id: self.id@, name: self.name@, arguments: self.arguments@ }
    }
}

impl ToolCall {
    pub fn copy(&self) -> (r: ToolCall)
        ensures
            r@ == self@,
    {
        ToolCall { id: self.id.clone(), name: self.name.clone(), arguments: self.arguments.clone() }
    }
}

/// One block of a model response.
pub enum AssistantContent {
    Text(String),
    ToolCall(ToolCall),
}

pub enum AssistantContentV {
    Text(Seq<char>),
    ToolCall(ToolCallV),
}

impl View for AssistantContent {
    type V = AssistantContentV;

    open spec fn view(&self) -> AssistantContentV {
        match self {
            AssistantContent::Text(t) => AssistantContentV::Text(t@),
            AssistantContent::ToolCall(c) => AssistantContentV::ToolCall(c@),
        }
    }
}

impl AssistantContent {
    pub fn copy(&self) -> (r: AssistantContent)
        ensures
            r@ == self@,
    {
        match self {
            AssistantContent::Text(t) => AssistantContent::Text(t.clone()),
            AssistantContent::ToolCall(c) => AssistantContent::ToolCall(c.copy()),
        }
    }
}

/// One block of a user turn: plain text, or the output of a tool call.
pub enum UserContent {
    Text(String),
    ToolResult { call_id: String, content: String },
}

pub enum UserContentV {
    Text(Seq<char>),
    ToolResult { call_id: Seq<char>, content: Seq<char> },
}

impl View for UserContent {
    type V = UserContentV;

    open spec fn view(&self) -> UserContentV {
        match self {
            UserContent::Text(t) => UserContentV::Text(t@),
            UserContent::ToolResult { call_id, content } => UserContentV::ToolResult {
                call_id: call_id@,
                content: content@,
            },
        }
    }
}

impl UserContent {
    pub fn copy(&self) -> (r: UserContent)
        ensures
            r@ == self@,
    {
        match self {
            UserContent::Text(t) => UserContent::Text(t.clone()),
            UserContent::ToolResult { call_id, content } => UserContent::ToolResult {
                call_id: call_id.clone(),
                content: content.clone(),
            },
        }
    }
}

/// One turn of a conversation.
pub enum Message {
    User(UserContent),
    Assistant(AssistantContent),
}

pub enum MessageV {
    User(UserContentV),
    Assistant(AssistantContentV),
}

impl View for Message {
    type V = MessageV;

    open spec fn view(&self) -> MessageV {
        match self {
            Message::User(c) => MessageV::User(c@),
            Message::Assistant(c) => MessageV::Assistant(c@),
        }
    }
}

impl Message {
    pub fn copy(&self) -> (r: Message)
        ensures
            r@ == self@,
    {
        match self {
            Message::User(c) => Message::User(c.copy()),
            Message::Assistant(c) => Message::Assistant(c.copy()),
        }
    }
}

/// Why a conversation could not be finished.
pub enum AgentError {
    /// A network or rate-limit failure: worth another attempt.
    Transient(String),
    /// A malformed request, a schema violation or a misused tool.
    Fatal(String),
}

pub enum AgentErrorV {
    Transient(Seq<char>),
    Fatal(Seq<char>),
}

impl View for AgentError {
    type V = AgentErrorV;

    open spec fn view(&self) -> AgentErrorV {
        match self {
            AgentError::Transient(m) => AgentErrorV::Transient(m@),
            AgentError::Fatal(m) => AgentErrorV::Fatal(m@),
        }
    }
}

impl AgentError {
    pub open spec fn spec_is_transient(&self) -> bool {
        self is Transient
    }

    pub fn is_transient(&self) -> (r: bool)
        ensures
            r == self.spec_is_transient(),
    {
        match self {
            AgentError::Transient(_) => true,
            AgentError::Fatal(_) => false,
        }
    }

    pub fn copy(&self) -> (r: AgentError)
        ensures
            r@ == self@,
    {
        match self {
            AgentError::Transient(m) => AgentError::Transient(m.clone()),
            AgentError::Fatal(m) => AgentError::Fatal(m.clone()),
        }
    }
}

/// The raw answer a conversation ends with, before it is read as a `MatchResult`.
pub enum Answer {
    /// The arguments of a call of the terminal tool.
    Submitted(String),
    /// The last text of a round that called no tool.
    Text(String),
}

pub enum AnswerV {
    Submitted(Seq<char>),
    Text(Seq<char>),
}

impl View for Answer {
    type V = AnswerV;

    open spec fn view(&self) -> AnswerV {
        match self {
            Answer::Submitted(s) => AnswerV::Submitted(s@),
            Answer::Text(s) => AnswerV::Text(s@),
        }
    }
}

impl Answer {
    /// The text to be read as a `MatchResult`.
    pub fn raw(&self) -> (r: &String)
        ensures
            r@ == match self@ {
                AnswerV::Submitted(s) => s,
                AnswerV::Text(s) => s,
            },
    {
        match self {
            Answer::Submitted(s) => s,
            Answer::Text(s) => s,
        }
    }
}

/// Where a conversation stands.
pub enum AgentState {
    /// The conversation and the pending prompt are to be sent to the model.
    AwaitingResponse,
    /// The model asked for this (non-terminal) tool; its output is awaited.
    HandlingToolCall(ToolCall),
    /// The conversation ended with an answer.
    Terminal(Answer),
    /// The conversation ended with an error; nothing of it is kept.
    Failed(AgentError),
}

pub enum AgentStateV {
    AwaitingResponse,
    HandlingToolCall(ToolCallV),
    Terminal(AnswerV),
    Failed(AgentErrorV),
}

impl View for AgentState {
    type V = AgentStateV;

    open spec fn view(&self) -> AgentStateV {
        match self {
            AgentState::AwaitingResponse => AgentStateV::AwaitingResponse,
            AgentState::HandlingToolCall(c) => AgentStateV::HandlingToolCall(c@),
            AgentState::Terminal(a) => AgentStateV::Terminal(a@),
            AgentState::Failed(e) => AgentStateV::Failed(e@),
        }
    }
}

/// What happened outside since the last step: the model answered, a tool
/// returned, or one of them failed.
pub enum AgentEvent {
    Response(Vec<AssistantContent>),
    ToolOutput(String),
    Error(AgentError),
}

pub enum AgentEventV {
    Response(Seq<AssistantContentV>),
    ToolOutput(Seq<char>),
    Error(AgentErrorV),
}

impl View for AgentEvent {
    type V = AgentEventV;

    open spec fn view(&self) -> AgentEventV {
        match self {
            AgentEvent::Response(v) => AgentEventV::Response(contents_view(v@)),
            AgentEvent::ToolOutput(s) => AgentEventV::ToolOutput(s@),
            AgentEvent::Error(e) => AgentEventV::Error(e@),
        }
    }
}

pub open spec fn contents_view(s: Seq<AssistantContent>) -> Seq<AssistantContentV> {
    s.map_values(|c: AssistantContent| c@)
}

pub open spec fn messages_view(s: Seq<Message>) -> Seq<MessageV> {
    s.map_values(|m: Message| m@)
}

/// A conversation with a model that may call tools, driven one event at a time.
pub struct MultiTurnAgent {
    pub chat_history: Vec<Message>,
    pub prompt: Message,
    pub state: AgentState,
}

pub struct AgentV {
    pub history: Seq<MessageV>,
    pub prompt: MessageV,
    pub state: AgentStateV,
}

impl View for MultiTurnAgent {
    type V = AgentV;

    open spec fn view(&self) -> AgentV {
        AgentV {
            history: messages_view(self.chat_history@),
            prompt: self.prompt@,
            state: self.state@,
        }
    }
}

// ---------------------------------------------------------------------------
// The protocol, stated over the views.
pub open spec fn is_text(c: AssistantContentV) -> bool {
    c is Text
}

/// Every block of `s` is text.
pub open spec fn texts_only(s: Seq<AssistantContentV>) -> bool {
    forall|i: int| 0 <= i < s.len() ==> is_text(#[trigger] s[i])
}

/// The index of the first tool call of a response, or its length if it has none.
pub open spec fn first_call(s: Seq<AssistantContentV>) -> int
    decreases s.len(),
{
    if s.len() == 0 {
        0
    } else if !is_text(s[0]) {
        0
    } else {
        1 + first_call(s.drop_first())
    }
}

/// The last text block of `s`, if any.
pub open spec fn last_text(s: Seq<AssistantContentV>) -> Option<Seq<char>>
    decreases s.len(),
{
    if s.len() == 0 {
        None
    } else {
        match s.last() {
            AssistantContentV::Text(t) => Some(t),
            AssistantContentV::ToolCall(_) => last_text(s.drop_last()),
        }
    }
}

/// What a round appends for the blocks `s` it consumed: the pending prompt,
/// then the block as an assistant turn, for each block.
pub open spec fn echo(prompt: MessageV, s: Seq<AssistantContentV>) -> Seq<MessageV>
    decreases s.len(),
{
    if s.len() == 0 {
        Seq::empty()
    } else {
        echo(prompt, s.drop_last()) + seq![prompt, MessageV::Assistant(s.last())]
    }
}

/// The blocks of a response that a round consumes: up to and including the
/// first tool call, or all of them.
pub open spec fn consumed(s: Seq<AssistantContentV>) -> Seq<AssistantContentV> {
    if first_call(s) < s.len() {
        s.take(first_call(s) + 1)
    } else {
        s
    }
}

/// The state after a response: the first tool call decides the round, and a
/// call of the terminal tool ends it with its arguments; with no tool call the
/// last text is the answer; with neither the prompt is sent again.
pub open spec fn state_after_response(s: Seq<AssistantContentV>) -> AgentStateV {
    if first_call(s) < s.len() {
        let c = s[first_call(s)]->ToolCall_0;
        if c.name == submit_name() {
            AgentStateV::Terminal(AnswerV::Submitted(c.arguments))
        } else {
            AgentStateV::HandlingToolCall(c)
        }
    } else {
        match last_text(s) {
            Some(t) => AgentStateV::Terminal(AnswerV::Text(t)),
            None => AgentStateV::AwaitingResponse,
        }
    }
}

pub open spec fn resume_prompt() -> MessageV {
    MessageV::User(UserContentV::Text(resume_text()))
}

/// One step of the protocol. Events that do not fit the state leave it as it is;
/// an error ends the conversation unless it has ended already.
pub open spec fn apply_event(a: AgentV, e: AgentEventV) -> AgentV {
    match a.state {
        AgentStateV::AwaitingResponse => match e {
            AgentEventV::Response(s) => AgentV {
                history: a.history + echo(a.prompt, consumed(s)),
                prompt: a.prompt,
                state: state_after_response(s),
            },
            AgentEventV::Error(err) => AgentV { state: AgentStateV::Failed(err), ..a },
            AgentEventV::ToolOutput(_) => a,
        },
        AgentStateV::HandlingToolCall(c) => match e {
            AgentEventV::ToolOutput(out) => AgentV {
                history: a.history + seq![
                    MessageV::User(UserContentV::ToolResult { call_id: c.id, content: out }),
                ],
                prompt: resume_prompt(),
                state: AgentStateV::AwaitingResponse,
            },
            AgentEventV::Error(err) => AgentV { state: AgentStateV::Failed(err), ..a },
            AgentEventV::Response(_) => a,
        },
        _ => a,
    }
}

/// The states after each of a series of events, from `a` on.
pub open spec fn apply_events(a: AgentV, es: Seq<AgentEventV>) -> AgentV
    decreases es.len(),
{
    if es.len() == 0 {
        a
    } else {
        apply_event(apply_events(a, es.drop_last()), es.last())
    }
}

pub open spec fn is_finished(s: AgentStateV) -> bool {
    s is Terminal || s is Failed
}

/// A response with no call of the terminal tool.
pub open spec fn submits_nothing(s: Seq<AssistantContentV>) -> bool {
    forall|i: int|
        0 <= i < s.len() ==> match #[trigger] s[i] {
            AssistantContentV::ToolCall(c) => c.name != submit_name(),
            _ => true,
        }
}

pub open spec fn event_submits_nothing(e: AgentEventV) -> bool {
    match e {
        AgentEventV::Response(s) => submits_nothing(s),
        _ => true,
    }
}

// ---------------------------------------------------------------------------
// Lemmas on the scan of a response.
proof fn lemma_first_call_at(s: Seq<AssistantContentV>, i: int)
    requires
        0 <= i < s.len(),
        texts_only(s.take(i)),
        !is_text(s[i]),
    ensures
        first_call(s) == i,
    decreases i,
{
    if i > 0 {
        assert(is_text(s.take(i)[0]));
        assert(s.drop_first()[i - 1] == s[i]);
        assert forall|j: int| 0 <= j < i - 1 implies is_text(#[trigger] s.drop_first().take(i - 1)[j]) by {
            assert(s.drop_first().take(i - 1)[j] == s.take(i)[j + 1]);
        }
        lemma_first_call_at(s.drop_first(), i - 1);
    }
}

proof fn lemma_first_call_none(s: Seq<AssistantContentV>)
    requires
        texts_only(s),
    ensures
        first_call(s) == s.len(),
    decreases s.len(),
{
    if s.len() > 0 {
        assert(is_text(s[0]));
        assert forall|j: int| 0 <= j < s.len() - 1 implies is_text(#[trigger] s.drop_first()[j]) by {
            assert(s.drop_first()[j] == s[j + 1]);
        }
        lemma_first_call_none(s.drop_first());
    }
}

proof fn lemma_first_call_bound(s: Seq<AssistantContentV>)
    ensures
        0 <= first_call(s) <= s.len(),
        first_call(s) < s.len() ==> !is_text(s[first_call(s)]),
        texts_only(s.take(first_call(s))),
    decreases s.len(),
{
    if s.len() > 0 && is_text(s[0]) {
        let t = s.drop_first();
        lemma_first_call_bound(t);
        assert forall|j: int| 0 <= j < first_call(s) implies is_text(#[trigger] s.take(first_call(s))[j]) by {
            if j > 0 {
                assert(s.take(first_call(s))[j] == t.take(first_call(t))[j - 1]);
            }
        }
    }
}

// ---------------------------------------------------------------------------
// The laws of the protocol.
/// A call of the terminal tool ends the round with its arguments as the answer,
/// whatever text comes before it in the same response and whatever follows it.
pub proof fn submit_call_overrides_text(
    pre: Seq<AssistantContentV>,
    call: ToolCallV,
    post: Seq<AssistantContentV>,
)
    requires
        texts_only(pre),
        call.name == submit_name(),
    ensures
        state_after_response(pre + seq![AssistantContentV::ToolCall(call)] + post)
            == AgentStateV::Terminal(AnswerV::Submitted(call.arguments)),
{
    let s = pre + seq![AssistantContentV::ToolCall(call)] + post;
    assert(s.take(pre.len() as int) =~= pre);
    assert(s[pre.len() as int] == AssistantContentV::ToolCall(call));
    lemma_first_call_at(s, pre.len() as int);
}

/// Once a conversation has ended, with an answer or with an error, no further
/// event changes it.
pub proof fn finished_is_final(a: AgentV, es: Seq<AgentEventV>)
    requires
        is_finished(a.state),
    ensures
        apply_events(a, es) == a,
    decreases es.len(),
{
    if es.len() > 0 {
        finished_is_final(a, es.drop_last());
    }
}

/// While no response calls the terminal tool, a conversation is either still
/// running, or has ended with the text of a response that called no tool, or
/// has failed: it never ends with a submitted answer, and every answer it
/// ends with is the last text of the response that ended it.
pub proof fn no_submit_ends_by_text_or_error(a: AgentV, es: Seq<AgentEventV>)
    requires
        !is_finished(a.state),
        forall|i: int| 0 <= i < es.len() ==> event_submits_nothing(#[trigger] es[i]),
    ensures
        match apply_events(a, es).state {
            AgentStateV::Terminal(answer) => answer is Text,
            _ => true,
        },
        apply_events(a, es).state is Terminal ==> exists|i: int|
            0 <= i < es.len() && #[trigger] es[i] is Response && texts_only(es[i]->Response_0)
                && last_text(es[i]->Response_0) == Some(
                apply_events(a, es).state->Terminal_0->Text_0,
            ),
    decreases es.len(),
{
    if es.len() > 0 {
        let prefix = es.drop_last();
        assert forall|i: int| 0 <= i < prefix.len() implies event_submits_nothing(#[trigger] prefix[i]) by {
            assert(prefix[i] == es[i]);
        }
        no_submit_ends_by_text_or_error(a, prefix);
        let b = apply_events(a, prefix);
        let e = es.last();
        if is_finished(b.state) {
            if b.state is Terminal {
                let i = choose|i: int|
                    0 <= i < prefix.len() && #[trigger] prefix[i] is Response && texts_only(
                        prefix[i]->Response_0,
                    ) && last_text(prefix[i]->Response_0) == Some(b.state->Terminal_0->Text_0);
                assert(es[i] == prefix[i]);
            }
        } else if e is Response && b.state is AwaitingResponse {
            let s = e->Response_0;
            lemma_first_call_bound(s);
            if first_call(s) < s.len() {
                let k = first_call(s);
                assert(s[k] is ToolCall);
            } else {
                assert(s.take(s.len() as int) =~= s);
                assert(texts_only(s));
                assert(es[es.len() - 1] == e);
            }
        }
    }
}

/// Every tool result in `h` answers a tool call made earlier in `h`.
pub open spec fn results_follow_calls(h: Seq<MessageV>) -> bool {
    forall|i: int|
        0 <= i < h.len() && (#[trigger] h[i]) is User && h[i]->User_0 is ToolResult ==> exists|j: int|
            0 <= j < i && (#[trigger] h[j]) is Assistant && h[j]->Assistant_0 is ToolCall
                && h[j]->Assistant_0->ToolCall_0.id == h[i]->User_0->ToolResult_call_id
}

/// The shape every conversation keeps: the pending prompt is plain user text,
/// every tool result answers an earlier call, and a call being handled is the
/// last turn of the history.
pub open spec fn conversation_wf(a: AgentV) -> bool {
    &&& a.prompt is User && a.prompt->User_0 is Text
    &&& results_follow_calls(a.history)
    &&& a.state is HandlingToolCall ==> a.history.len() > 0 && a.history.last() == MessageV::Assistant(
        AssistantContentV::ToolCall(a.state->HandlingToolCall_0),
    )
}

proof fn lemma_echo_shape(prompt: MessageV, s: Seq<AssistantContentV>)
    ensures
        echo(prompt, s).len() == 2 * s.len(),
        forall|k: int|
            0 <= k < echo(prompt, s).len() ==> #[trigger] echo(prompt, s)[k] == prompt
                || echo(prompt, s)[k] is Assistant,
        s.len() > 0 ==> echo(prompt, s).last() == MessageV::Assistant(s.last()),
    decreases s.len(),
{
    if s.len() > 0 {
        lemma_echo_shape(prompt, s.drop_last());
        let e = echo(prompt, s.drop_last());
        assert forall|k: int|
            0 <= k < echo(prompt, s).len() implies #[trigger] echo(prompt, s)[k] == prompt
            || echo(prompt, s)[k] is Assistant by {
            if k < e.len() {
                assert(echo(prompt, s)[k] == e[k]);
            }
        }
    }
}

/// A conversation only ever grows: each step keeps every earlier turn as it
/// was, and its shape holds at every step.
pub proof fn history_only_grows(a: AgentV, es: Seq<AgentEventV>)
    requires
        conversation_wf(a),
    ensures
        conversation_wf(apply_events(a, es)),
        a.history.len() <= apply_events(a, es).history.len(),
        apply_events(a, es).history.take(a.history.len() as int) == a.history,
    decreases es.len(),
{
    if es.len() > 0 {
        history_only_grows(a, es.drop_last());
        let b = apply_events(a, es.drop_last());
        let c = apply_event(b, es.last());
        lemma_step_keeps_shape(b, es.last());
        assert(c.history.take(b.history.len() as int) == b.history);
        assert(c.history.take(a.history.len() as int) =~= b.history.take(a.history.len() as int));
    }
}

proof fn lemma_step_keeps_shape(b: AgentV, e: AgentEventV)
    requires
        conversation_wf(b),
    ensures
        conversation_wf(apply_event(b, e)),
        b.history.len() <= apply_event(b, e).history.len(),
        apply_event(b, e).history.take(b.history.len() as int) == b.history,
{
    let c = apply_event(b, e);
    let h = b.history;
    if b.state is AwaitingResponse && e is Response {
        let s = e->Response_0;
        let x = echo(b.prompt, consumed(s));
        lemma_echo_shape(b.prompt, consumed(s));
        lemma_first_call_bound(s);
        assert(c.history == h + x);
        assert((h + x).take(h.len() as int) =~= h);
        assert forall|i: int|
            0 <= i < c.history.len() && (#[trigger] c.history[i]) is User && c.history[i]->User_0 is ToolResult implies exists|j: int|
            0 <= j < i && (#[trigger] c.history[j]) is Assistant && c.history[j]->Assistant_0 is ToolCall
                && c.history[j]->Assistant_0->ToolCall_0.id == c.history[i]->User_0->ToolResult_call_id by {
            if i < h.len() {
                assert(c.history[i] == h[i]);
                let j = choose|j: int|
                    0 <= j < i && (#[trigger] h[j]) is Assistant && h[j]->Assistant_0 is ToolCall
                        && h[j]->Assistant_0->ToolCall_0.id == h[i]->User_0->ToolResult_call_id;
                assert(c.history[j] == h[j]);
            } else {
                assert(c.history[i] == x[i - h.len()]);
            }
        }
        if c.state is HandlingToolCall {
            let k = first_call(s);
            assert(consumed(s) == s.take(k + 1));
            assert(consumed(s).last() == s[k]);
        }
    } else if b.state is HandlingToolCall && e is ToolOutput {
        let call = b.state->HandlingToolCall_0;
        let r = MessageV::User(UserContentV::ToolResult { call_id: call.id, content: e->ToolOutput_0 });
        assert(c.history == h.push(r));
        assert(h.push(r).take(h.len() as int) =~= h);
        assert forall|i: int|
            0 <= i < c.history.len() && (#[trigger] c.history[i]) is User && c.history[i]->User_0 is ToolResult implies exists|j: int|
            0 <= j < i && (#[trigger] c.history[j]) is Assistant && c.history[j]->Assistant_0 is ToolCall
                && c.history[j]->Assistant_0->ToolCall_0.id == c.history[i]->User_0->ToolResult_call_id by {
            if i < h.len() {
                assert(c.history[i] == h[i]);
                let j = choose|j: int|
                    0 <= j < i && (#[trigger] h[j]) is Assistant && h[j]->Assistant_0 is ToolCall
                        && h[j]->Assistant_0->ToolCall_0.id == h[i]->User_0->ToolResult_call_id;
                assert(c.history[j] == h[j]);
            } else {
                assert(c.history[h.len() - 1] == h.last());
            }
        }
    } else {
        assert(c.history == h);
        assert(h.take(h.len() as int) =~= h);
    }
}

// ---------------------------------------------------------------------------
// The agent.
impl MultiTurnAgent {
    /// A conversation that will open with `prompt` as its first user turn.
    pub fn new(prompt: String) -> (r: MultiTurnAgent)
        ensures
            conversation_wf(r@),
            r@.history == Seq::<MessageV>::empty(),
            r@.prompt == MessageV::User(UserContentV::Text(prompt@)),
            r@.state == AgentStateV::AwaitingResponse,
    {
        let r = MultiTurnAgent {
            chat_history: Vec::new(),
            prompt: Message::User(UserContent::Text(prompt)),
            state: AgentState::AwaitingResponse,
        };
        assert(r@.history =~= Seq::<MessageV>::empty());
        r
    }

    /// Consumes one response of the model, block by block.
    fn on_response(&mut self, choice: Vec<AssistantContent>)
        requires
            old(self).state is AwaitingResponse,
        ensures
            final(self)@ == apply_event(old(self)@, AgentEventV::Response(contents_view(choice@))),
    {
        let ghost s = contents_view(choice@);
        let ghost h0 = self@.history;
        let submit = String::from_str(SUBMIT_TOOL_NAME);
        proof {
            reveal_strlit("submit");
            assert(submit@ =~= submit_name());
        }
        let mut output: Option<String> = None;
        let mut i: usize = 0;
        while i < choice.len()
            invariant
                s == contents_view(choice@),
                h0 == old(self)@.history,
                old(self).state is AwaitingResponse,
                i <= choice.len(),
                texts_only(s.take(i as int)),
                self@.history == h0 + echo(self@.prompt, s.take(i as int)),
                self@.prompt == old(self)@.prompt,
                self.state is AwaitingResponse,
                submit@ == submit_name(),
                match output {
                    Some(t) => last_text(s.take(i as int)) == Some(t@),
                    None => last_text(s.take(i as int)) is None,
                },
            decreases choice.len() - i,
        {
            let ghost before = s.take(i as int);
            assert(s.take(i + 1).drop_last() =~= before);
            let block = &choice[i];
            assert(s[i as int] == block@);
            assert(s.take(i + 1).last() == block@);
            let ghost hist0 = self.chat_history@;
            let p = self.prompt.copy();
            self.chat_history.push(p);
            self.chat_history.push(Message::Assistant(block.copy()));
            assert(messages_view(self.chat_history@) =~= messages_view(hist0) + seq![
                self@.prompt,
                MessageV::Assistant(block@),
            ]);
            assert(messages_view(self.chat_history@) =~= h0 + echo(self@.prompt, s.take(i + 1)));
            match block {
                AssistantContent::Text(t) => {
                    output = Some(t.clone());
                    assert(texts_only(s.take(i + 1))) by {
                        assert forall|j: int| 0 <= j < i + 1 implies is_text(#[trigger] s.take(i + 1)[j]) by {
                            if j < i {
                                assert(s.take(i + 1)[j] == before[j]);
                            }
                        }
                    }
                    i = i + 1;
                },
                AssistantContent::ToolCall(c) => {
                    proof {
                        lemma_first_call_at(s, i as int);
                        assert(s[first_call(s)]->ToolCall_0 == c@);
                        assert(consumed(s) == s.take(i + 1));
                    }
                    if c.name == submit {
                        self.state = AgentState::Terminal(Answer::Submitted(c.arguments.clone()));
                    } else {
                        self.state = AgentState::HandlingToolCall(c.copy());
                    }
                    return;
                },
            }
        }
        proof {
            assert(s.take(i as int) =~= s);
            lemma_first_call_none(s);
        }
        match output {
            Some(t) => {
                self.state = AgentState::Terminal(Answer::Text(t));
            },
            None => {},
        }
    }

    /// Records the output of the tool that was called and asks the model to go on.
    fn on_tool_output(&mut self, output: String)
        requires
            old(self).state is HandlingToolCall,
        ensures
            final(self)@ == apply_event(old(self)@, AgentEventV::ToolOutput(output@)),
    {
        let call_id = match &self.state {
            AgentState::HandlingToolCall(c) => c.id.clone(),
            _ => String::new(),
        };
        self.chat_history.push(Message::User(UserContent::ToolResult { call_id, content: output }));
        let resume = String::from_str(RESUME_PROMPT);
        proof {
            reveal_strlit("resume");
            assert(resume@ =~= resume_text());
        }
        self.prompt = Message::User(UserContent::Text(resume));
        self.state = AgentState::AwaitingResponse;
        assert(self@.history =~= old(self)@.history + seq![
            MessageV::User(UserContentV::ToolResult { call_id: old(self)@.state->HandlingToolCall_0.id, content: output@ }),
        ]);
        assert(self@.prompt == resume_prompt());
    }

    /// Advances the conversation by one event.
    pub fn step(&mut self, event: AgentEvent)
        ensures
            final(self)@ == apply_event(old(self)@, event@),
    {
        match event {
            AgentEvent::Response(choice) => {
                if let AgentState::AwaitingResponse = self.state {
                    self.on_response(choice);
                }
            },
            AgentEvent::ToolOutput(output) => {
                if let AgentState::HandlingToolCall(_) = self.state {
                    self.on_tool_output(output);
                }
            },
            AgentEvent::Error(e) => {
                match self.state {
                    AgentState::AwaitingResponse | AgentState::HandlingToolCall(_) => {
                        self.state = AgentState::Failed(e);
                    },
                    _ => {},
                }
            },
        }
    }

    /// How the conversation ended: its answer, or its error; `None` while it runs.
    pub fn outcome(&self) -> (r: Option<Result<&Answer, &AgentError>>)
        ensures
            match self@.state {
                AgentStateV::Terminal(a) => r is Some && r->Some_0 is Ok && r->Some_0->Ok_0@ == a,
                AgentStateV::Failed(e) => r is Some && r->Some_0 is Err && r->Some_0->Err_0@ == e,
                _ => r is None,
            },
    {
        match &self.state {
            AgentState::Terminal(a) => Some(Ok(a)),
            AgentState::Failed(e) => Some(Err(e)),
            _ => None,
        }
    }
}

} // verus!
