use agents_framework::agents_ai::chat_client::ChatClientMetadata;
use agents_framework::agents_ai::chat_client_agent::{agent_metadata, prepare_messages};
use agents_framework::agents_ai::chat_client_agent_thread::ChatClientAgentThread;
use agents_framework::agents_ai::chat_message_store::InMemoryChatMessageStore;
use agents_framework::agents_traits::agent::AIAgentMetadata;
use agents_framework::agents_traits::error::AgentError;
use agents_framework::agents_traits::message::{ChatMessage, ChatRole, MessageContent};
use agents_framework::agents_traits::response::{AgentRunResponse, AgentRunResponseUpdate};
use agents_framework::agents_traits::thread::InMemoryThread;
use agents_framework::agents_traits::usage::UsageDetails;

#[test]
fn new_message_holds_one_text_item() {
    let m = ChatMessage::user("hello");
    assert_eq!(m.role, ChatRole::User);
    assert_eq!(m.text(), "hello");
    assert_eq!(m.contents.len(), 1);
    assert!(m.author_name.is_none());
    assert!(m.created_at.is_some());
    let id = m.message_id.clone().unwrap();
    assert_eq!(id.len(), 36);
    assert_eq!(id.matches('-').count(), 4);
    assert_eq!(ChatMessage::assistant("a").role, ChatRole::Assistant);
    assert_eq!(ChatMessage::system("s").role, ChatRole::System);
}

#[test]
fn message_ids_are_fresh() {
    let a = ChatMessage::user("x");
    let b = ChatMessage::user("x");
    assert_ne!(a.message_id, b.message_id);
}

#[test]
fn message_text_concatenates_text_items() {
    let mut m = ChatMessage::with_contents(
        ChatRole::Tool,
        vec![MessageContent::text("ab"), MessageContent::image("http://x"), MessageContent::text("cd")],
    );
    assert_eq!(m.text(), "abcd");
    m.add_content(MessageContent::text("!"));
    assert_eq!(m.text(), "abcd!");
    assert_eq!(m.contents.len(), 4);
    assert_eq!(MessageContent::image("u").as_text(), None);
    assert_eq!(MessageContent::text("t").as_text(), Some("t"));
}

#[test]
fn response_text_joins_messages_by_lines() {
    let r = AgentRunResponse::with_messages(vec![ChatMessage::assistant("one"), ChatMessage::assistant("two")]);
    assert_eq!(r.text(), "one\ntwo");
    assert_eq!(r.to_string(), "one\ntwo");
    let single = AgentRunResponse::new(ChatMessage::assistant("only"));
    assert_eq!(single.text(), "only");
    assert!(single.usage.is_none());
    let empty = AgentRunResponse::with_messages(Vec::new());
    assert_eq!(empty.text(), "");
}

#[test]
fn updates_carry_messages_then_usage() {
    let mut r = AgentRunResponse::with_messages(vec![ChatMessage::assistant("one"), ChatMessage::assistant("two")]);
    r.agent_id = Some("agent".to_string());
    let updates = r.to_updates();
    assert_eq!(updates.len(), 2);
    assert_eq!(updates[1].message.as_ref().unwrap().text(), "two");
    assert_eq!(updates[0].agent_id.as_deref(), Some("agent"));
    r.usage = Some(UsageDetails::new(Some(3), Some(4)));
    let updates = r.to_updates();
    assert_eq!(updates.len(), 3);
    assert!(updates[2].message.is_none());
    assert_eq!(updates[2].usage.as_ref().unwrap().total_tokens, Some(7));
    let blank = AgentRunResponseUpdate::new();
    assert!(blank.message.is_none() && blank.usage.is_none());
    assert!(AgentRunResponseUpdate::default().created_at.is_some());
}

#[test]
fn usage_total_adds_known_counts() {
    assert_eq!(UsageDetails::new(Some(10), Some(5)).total_tokens, Some(15));
    assert_eq!(UsageDetails::new(Some(10), None).total_tokens, Some(10));
    assert_eq!(UsageDetails::new(None, Some(5)).total_tokens, Some(5));
    assert_eq!(UsageDetails::new(None, None).total_tokens, None);
    assert_eq!(UsageDetails::default().total_tokens, None);
}

#[test]
fn agent_metadata_names() {
    let m = AIAgentMetadata::new("id-1");
    assert_eq!(m.display_name(), "id-1");
    let m = m.with_name("Echo").with_description("echoes");
    assert_eq!(m.display_name(), "Echo");
    assert_eq!(m.description.as_deref(), Some("echoes"));
    let generated = agent_metadata(None, Some("n".to_string()), None);
    assert_eq!(generated.id.len(), 36);
    let given = agent_metadata(Some("x".to_string()), None, None);
    assert_eq!(given.id, "x");
    assert_eq!(given.display_name(), "x");
}

#[test]
fn thread_keeps_messages_in_order() {
    let mut t = InMemoryThread::new();
    t.add_message(ChatMessage::user("a"));
    t.add_messages(vec![ChatMessage::user("b")]);
    t.messages_received(&[ChatMessage::user("c")]);
    let texts: Vec<String> = t.messages().iter().map(|m| m.text()).collect();
    assert_eq!(texts, vec!["a", "b", "c"]);
    t.clear();
    assert!(t.messages().is_empty());
    assert!(InMemoryThread::default().messages().is_empty());
}

#[test]
fn message_store_appends() {
    let mut s = InMemoryChatMessageStore::from_messages(vec![ChatMessage::user("a")]);
    s.add_messages(vec![ChatMessage::user("b")]);
    let texts: Vec<String> = s.get_messages().iter().map(|m| m.text()).collect();
    assert_eq!(texts, vec!["a", "b"]);
    assert_eq!(s.messages().len(), 2);
    s.clear();
    assert!(s.messages().is_empty());
    assert!(InMemoryChatMessageStore::new().messages().is_empty());
}

#[test]
fn client_thread_with_store_refuses_conversation_id() {
    let mut t = ChatClientAgentThread::new();
    match t.set_conversation_id("c".to_string()) {
        Err(AgentError::InvalidOperation(m)) => {
            assert_eq!(m, "Cannot set conversation ID when message store is present")
        },
        _ => panic!("expected refusal"),
    }
    t.messages_received(&[ChatMessage::user("a")]).unwrap();
    assert_eq!(t.get_messages().unwrap().len(), 1);
    assert!(t.conversation_id().is_none());
}

#[test]
fn server_thread_keeps_no_messages() {
    let mut t = ChatClientAgentThread::from_state(Some("conv".to_string()), None);
    assert_eq!(t.conversation_id(), Some("conv"));
    assert!(t.message_store().is_none());
    t.add_messages(vec![ChatMessage::user("a")]).unwrap();
    assert!(t.get_messages().unwrap().is_empty());
    t.set_conversation_id("other".to_string()).unwrap();
    assert_eq!(t.conversation_id(), Some("other"));
    let restored = ChatClientAgentThread::from_state(None, Some(InMemoryChatMessageStore::from_messages(vec![
        ChatMessage::user("x"),
    ])));
    assert_eq!(restored.message_store().unwrap().messages().len(), 1);
}

#[test]
fn prepared_messages_start_with_instructions() {
    let history = vec![ChatMessage::user("h")];
    let new = [ChatMessage::user("n")];
    let msgs = prepare_messages(Some("be brief"), &new, history);
    let texts: Vec<String> = msgs.iter().map(|m| m.text()).collect();
    assert_eq!(texts, vec!["be brief", "h", "n"]);
    assert_eq!(msgs[0].role, ChatRole::System);
    let msgs = prepare_messages(None, &new, Vec::new());
    assert_eq!(msgs.len(), 1);
}

#[test]
fn client_metadata_builders() {
    let m = ChatClientMetadata::new().with_provider_name("openai").with_model_id("gpt");
    assert_eq!(m.provider_name.as_deref(), Some("openai"));
    assert_eq!(m.model_id.as_deref(), Some("gpt"));
    assert!(ChatClientMetadata::default().provider_name.is_none());
}

#[test]
fn agent_errors_convert() {
    match AgentError::from("boom".to_string()) {
        AgentError::Other(m) => assert_eq!(m, "boom"),
        _ => panic!("expected Other"),
    }
    match AgentError::other("bang") {
        AgentError::Other(m) => assert_eq!(m, "bang"),
        _ => panic!("expected Other"),
    }
    let parse = serde_json::from_str::<serde_json::Value>("{").unwrap_err();
    assert!(matches!(AgentError::from(parse), AgentError::SerializationError(_)));
}
