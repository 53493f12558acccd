use anime_matcher::agent::{
    AgentError, AgentEvent, AgentState, Answer, AssistantContent, Message, MultiTurnAgent,
    ToolCall, UserContent,
};
use anime_matcher::runner::{parse_provider, Provider, RetryPolicy, RetryStep};

fn text(s: &str) -> AssistantContent {
    AssistantContent::Text(s.to_string())
}

fn call(id: &str, name: &str, args: &str) -> AssistantContent {
    AssistantContent::ToolCall(ToolCall { id: id.to_string(), name: name.to_string(), arguments: args.to_string() })
}

fn answer(a: &MultiTurnAgent) -> Option<String> {
    match a.outcome() {
        Some(Ok(Answer::Submitted(s))) => Some(format!("submitted:{}", s)),
        Some(Ok(Answer::Text(s))) => Some(format!("text:{}", s)),
        Some(Err(AgentError::Transient(m))) => Some(format!("transient:{}", m)),
        Some(Err(AgentError::Fatal(m))) => Some(format!("fatal:{}", m)),
        None => None,
    }
}

#[test]
fn submit_call_overrides_text_before_and_after() {
    let mut a = MultiTurnAgent::new("match this".to_string());
    a.step(AgentEvent::Response(vec![
        text("I think it is 12"),
        call("c1", "submit", "{\"id\":42}"),
        text("done"),
    ]));
    assert_eq!(answer(&a), Some("submitted:{\"id\":42}".to_string()));
    // The prompt and each consumed block are in the history; the trailing text is not.
    assert_eq!(a.chat_history.len(), 4);
    assert!(matches!(&a.chat_history[3], Message::Assistant(AssistantContent::ToolCall(c)) if c.id == "c1"));
    // Nothing changes once it has ended.
    a.step(AgentEvent::Error(AgentError::Fatal("late".to_string())));
    assert_eq!(answer(&a), Some("submitted:{\"id\":42}".to_string()));
}

#[test]
fn tool_round_then_text_answer() {
    let mut a = MultiTurnAgent::new("match this".to_string());
    a.step(AgentEvent::Response(vec![text("searching"), call("c1", "bgm_tv_search", "{\"query\":\"x\"}")]));
    match &a.state {
        AgentState::HandlingToolCall(c) => assert_eq!(c.name, "bgm_tv_search"),
        _ => panic!("expected a tool call"),
    }
    assert_eq!(a.outcome().is_none(), true);
    a.step(AgentEvent::ToolOutput("[results]".to_string()));
    assert!(matches!(a.state, AgentState::AwaitingResponse));
    assert!(matches!(&a.prompt, Message::User(UserContent::Text(t)) if t == "resume"));
    assert!(matches!(&a.chat_history[4], Message::User(UserContent::ToolResult { call_id, content }) if call_id == "c1" && content == "[results]"));
    a.step(AgentEvent::Response(vec![text("first"), text("{\"id\":7}")]));
    assert_eq!(answer(&a), Some("text:{\"id\":7}".to_string()));
    assert_eq!(a.chat_history.len(), 9);
}

#[test]
fn empty_response_resends_and_errors_fail() {
    let mut a = MultiTurnAgent::new("p".to_string());
    a.step(AgentEvent::Response(vec![]));
    assert!(matches!(a.state, AgentState::AwaitingResponse));
    assert!(a.chat_history.is_empty());
    a.step(AgentEvent::ToolOutput("stray".to_string()));
    assert!(a.chat_history.is_empty());
    a.step(AgentEvent::Error(AgentError::Transient("rate limited".to_string())));
    assert_eq!(answer(&a), Some("transient:rate limited".to_string()));
}

#[test]
fn providers_by_name() {
    assert_eq!(parse_provider("xai"), Some(Provider::Xai));
    assert_eq!(parse_provider("gemini"), Some(Provider::Gemini));
    assert_eq!(parse_provider("deepseek"), Some(Provider::Deepseek));
    assert_eq!(parse_provider("openai"), Some(Provider::Openai));
    assert_eq!(parse_provider("openrouter"), Some(Provider::Openrouter));
    assert_eq!(parse_provider("bgm_tv"), None);
    assert_eq!(parse_provider("OpenAI"), None);
}

#[test]
fn retries_only_transient_errors_within_budget() {
    let mut p = RetryPolicy::new(3, 10);
    let transient = AgentError::Transient("timeout".to_string());
    assert!(p.may_attempt());
    assert_eq!(p.after_failure(&transient), RetryStep::RetryAfter(10));
    assert_eq!(p.after_failure(&transient), RetryStep::RetryAfter(10));
    assert_eq!(p.after_failure(&transient), RetryStep::GiveUp);
    assert!(!p.may_attempt());
    let mut p = RetryPolicy::new(3, 10);
    assert_eq!(p.after_failure(&AgentError::Fatal("bad".to_string())), RetryStep::GiveUp);
    assert!(!RetryPolicy::new(0, 1).may_attempt());
}
