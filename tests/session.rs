use chatkit::client::{api_version, deployment_path, frame_request_body, is_azure_endpoint, request_body, request_headers, rewrite_endpoint};
use chatkit::model::{ChatInterface, ConfigInterface, MessageInterface, ModelOptions, Role, TokenUsage, DEFAULT_USER_MAX_TOKEN};
use chatkit::stream::{Delta, EventSourceData, EventSourceDataChoices, EventSourceDataInterface};
use chatkit::submit::{record_usage, title_prompt, trim_quotes, ChatSlice, StreamStep};
use chatkit::tokens::count_tokens;
use chatkit::usage::{cost, UsageTable};

fn msg(role: Role, content: &str) -> MessageInterface {
    MessageInterface::new(role, content.to_string())
}

fn data(content: &str) -> EventSourceData {
    EventSourceData::Data(EventSourceDataInterface {
        choices: vec![EventSourceDataChoices {
            delta: Delta { content: Some(content.to_string()), role: None },
            finish_reason: None,
            index: 0,
        }],
        created: 0,
        id: "id".to_string(),
        model: "gpt-4".to_string(),
        object: "chat.completion.chunk".to_string(),
    })
}

fn session(messages: Vec<MessageInterface>) -> ChatSlice {
    let chat = ChatInterface::new(Some("t".to_string()), None, messages, None, "sys".to_string());
    ChatSlice::new(vec![chat], 0)
}

#[test]
fn rewrite_appends_deployment_path() {
    let url = rewrite_endpoint("https://x.openai.azure.com", &ModelOptions::Gpt4, true);
    assert_eq!(
        url,
        "https://x.openai.azure.com/openai/deployments/gpt-4/chat/completions?api-version=2023-07-01-preview"
    );
    let url = rewrite_endpoint("https://x.openai.azure.com/", &ModelOptions::Gpt35Turbo, true);
    assert_eq!(
        url,
        "https://x.openai.azure.com/openai/deployments/gpt-3.5-turbo/chat/completions?api-version=2023-03-15-preview"
    );
}

#[test]
fn rewrite_twice_is_rewrite_once() {
    for (ep, model, key) in [
        ("https://x.openai.azure.com", ModelOptions::Gpt432k, true),
        ("https://x.openai.azure.com/", ModelOptions::Gpt4o, true),
        ("https://api.openai.com/v1/chat/completions", ModelOptions::Gpt4, true),
        ("https://x.openai.azure.com", ModelOptions::Gpt4, false),
    ] {
        let once = rewrite_endpoint(ep, &model, key);
        let twice = rewrite_endpoint(&once, &model, key);
        assert_eq!(once, twice);
    }
}

#[test]
fn rewrite_leaves_other_endpoints() {
    let ep = "https://api.openai.com/v1/chat/completions";
    assert_eq!(rewrite_endpoint(ep, &ModelOptions::Gpt4, true), ep);
    let ep = "https://x.openai.azure.com";
    assert_eq!(rewrite_endpoint(ep, &ModelOptions::Gpt4, false), ep);
}

#[test]
fn azure_detection_and_versions() {
    assert!(is_azure_endpoint("https://x.openai.azure.com/v1"));
    assert!(!is_azure_endpoint("https://api.openai.com"));
    assert_eq!(api_version(&ModelOptions::Gpt4), "2023-07-01-preview");
    assert_eq!(api_version(&ModelOptions::Gpt432k), "2023-07-01-preview");
    assert_eq!(api_version(&ModelOptions::Gpt4o), "2023-03-15-preview");
    assert_eq!(
        deployment_path(&ModelOptions::Gpt4o),
        "openai/deployments/gpt-4o/chat/completions?api-version=2023-03-15-preview"
    );
}

#[test]
fn headers_with_and_without_key() {
    let h = request_headers(&None, vec![]);
    assert_eq!(h, vec![("Content-Type".to_string(), "application/json".to_string())]);
    let h = request_headers(&Some("k1".to_string()), vec![("X-A".to_string(), "b".to_string())]);
    assert_eq!(
        h,
        vec![
            ("Content-Type".to_string(), "application/json".to_string()),
            ("Authorization".to_string(), "Bearer k1".to_string()),
            ("api-key".to_string(), "k1".to_string()),
            ("X-A".to_string(), "b".to_string()),
        ]
    );
}

#[test]
fn submit_cancelled_after_two_chunks() {
    let mut s = session(vec![msg(Role::User, "hi")]);
    assert!(s.begin_submit());
    assert!(s.generating);
    let chunks = ["one ", "two ", "three ", "four ", "five"];
    assert_eq!(s.apply_chunk(&vec![data(chunks[0])]), StreamStep::Continue);
    assert_eq!(s.apply_chunk(&vec![data(chunks[1])]), StreamStep::Continue);
    s.cancel();
    for c in &chunks[2..] {
        assert_eq!(s.apply_chunk(&vec![data(c)]), StreamStep::Stop);
    }
    s.finish(Ok(()));
    let last = s.chats[0].messages.last().unwrap();
    assert_eq!(last.role, Role::Assistant);
    assert_eq!(last.content, "one two ");
    assert!(!s.generating);
}

#[test]
fn submit_stops_at_done() {
    let mut s = session(vec![msg(Role::User, "hi")]);
    assert!(s.begin_submit());
    let step = s.apply_chunk(&vec![data("a"), EventSourceData::Done("[DONE]".to_string()), data("b")]);
    assert_eq!(step, StreamStep::Stop);
    assert_eq!(s.chats[0].messages[1].content, "a");
}

#[test]
fn submit_is_ignored_while_generating_or_without_messages() {
    let mut s = session(vec![msg(Role::User, "hi")]);
    assert!(s.begin_submit());
    assert!(!s.begin_submit());
    assert_eq!(s.chats[0].messages.len(), 2);

    let chat = ChatInterface { id: String::new(), title: None, folder: None, messages: vec![], config: None, title_set: false };
    let mut empty = ChatSlice::new(vec![chat], 0);
    assert!(!empty.begin_submit());
    assert!(!empty.generating);
    assert!(empty.chats[0].messages.is_empty());

    let mut none = ChatSlice::new(vec![], 0);
    assert!(!none.begin_submit());
}

#[test]
fn request_trims_history_before_placeholder() {
    let mut s = session(vec![msg(Role::System, "s"), msg(Role::User, "hi")]);
    assert!(s.begin_submit());
    let req = s.prepare_request(&Some("https://api.openai.com/v1/chat/completions".to_string()), &None).unwrap();
    assert_eq!(req.messages, vec![msg(Role::System, "s"), msg(Role::User, "hi")]);
    assert_eq!(req.config, ConfigInterface::default());
    assert_eq!(req.endpoint, "https://api.openai.com/v1/chat/completions");
    assert_eq!(req.headers.len(), 1);
    assert_eq!(
        req.body,
        "{\"messages\":[{\"role\":\"system\",\"content\":\"s\"},{\"role\":\"user\",\"content\":\"hi\"}],\"temperature\":1,\"max_tokens\":4000,\"stream\":true}"
    );
}

#[test]
fn request_errors() {
    let mut s = session(vec![msg(Role::User, "hi")]);
    assert!(s.begin_submit());
    let e = s.prepare_request(&None, &None).unwrap_err();
    assert_eq!(e, "No API endpoint defined!");
    let empty = ChatSlice::new(vec![], 0);
    let e = empty.prepare_request(&Some("https://e".to_string()), &None).unwrap_err();
    assert_eq!(e, "No messages submitted!");
    s.finish(Err(e.clone()));
    assert_eq!(s.error, "No messages submitted!");
    assert!(!s.generating);
}

#[test]
fn usage_accumulates() {
    let mut t = UsageTable::new();
    t.add(&ModelOptions::Gpt4, 100, 50);
    t.add(&ModelOptions::Gpt4, 10, 5);
    assert_eq!(t.get(&ModelOptions::Gpt4), Some(TokenUsage { prompt_tokens: 110, completion_tokens: 55 }));
    assert_eq!(t.get(&ModelOptions::Gpt4o), None);
    t.reset();
    assert_eq!(t.get(&ModelOptions::Gpt4), None);
}

#[test]
fn usage_cost() {
    let u = TokenUsage { prompt_tokens: 1000, completion_tokens: 1000 };
    // 0.03 + 0.06 USD, in units of 1e-7 USD.
    assert_eq!(cost(&ModelOptions::Gpt4, &u), 900_000);
    assert_eq!(cost(&ModelOptions::Gpt35Turbo0125, &u), 20_000);
    assert_eq!(cost(&ModelOptions::Gpt432k, &u), 0);
}

#[test]
fn usage_recorded_from_messages() {
    let mut t = UsageTable::new();
    let prompt = vec![msg(Role::User, "hi")];
    let reply = msg(Role::Assistant, "hello");
    assert!(record_usage(&mut t, &ModelOptions::Gpt4, &prompt, &reply));
    let p = count_tokens(&prompt, &ModelOptions::Gpt4) as u64;
    let c = count_tokens(&[reply.clone()], &ModelOptions::Gpt4) as u64;
    assert_eq!(p, 8);
    assert_eq!(t.get(&ModelOptions::Gpt4), Some(TokenUsage { prompt_tokens: p, completion_tokens: c }));
    t.add(&ModelOptions::Gpt4, u64::MAX - p, 0);
    assert!(!record_usage(&mut t, &ModelOptions::Gpt4, &prompt, &reply));
}

#[test]
fn title_flow() {
    let mut s = session(vec![msg(Role::User, "What is Rust?")]);
    assert!(s.needs_title(true));
    assert!(!s.needs_title(false));
    assert!(s.title_request().is_none());
    assert!(s.begin_submit());
    s.apply_chunk(&vec![data("A language.")]);
    s.finish(Ok(()));
    let req = s.title_request().unwrap();
    assert_eq!(req.role, Role::User);
    assert_eq!(
        req.content,
        "Generate a title in less than 6 words for the following message:\nUser: What is Rust?\nAssistant: A language."
    );
    s.apply_title(0, "\"Rust basics\"");
    assert_eq!(s.chats[0].title.as_deref(), Some("Rust basics"));
    assert!(s.chats[0].title_set);
    assert!(!s.needs_title(true));
    s.apply_title(5, "ignored");
    assert_eq!(s.chats.len(), 1);
}

#[test]
fn quotes_trimmed() {
    assert_eq!(trim_quotes("\"\"a \"b\"\""), "a \"b");
    assert_eq!(trim_quotes("\"\"\""), "");
    assert_eq!(trim_quotes("plain"), "plain");
    assert_eq!(title_prompt("u", "a"), "Generate a title in less than 6 words for the following message:\nUser: u\nAssistant: a");
}

#[test]
fn new_chat_defaults() {
    let c = ChatInterface::new(None, None, vec![], None, "be nice".to_string());
    assert_eq!(c.title.as_deref(), Some("New Chat"));
    assert_eq!(c.messages, vec![msg(Role::System, "be nice")]);
    assert!(!c.title_set);
    assert_eq!(c.effective_config().max_tokens, DEFAULT_USER_MAX_TOKEN);
    assert_eq!(c.effective_config().model, ModelOptions::Gpt35Turbo);
}

#[test]
fn names_round_trip() {
    assert_eq!(ModelOptions::from_name("gpt-4-32k"), Some(ModelOptions::Gpt432k));
    assert_eq!(ModelOptions::from_name("gpt-5"), None);
    assert_eq!(ModelOptions::Gpt35Turbo1106.name(), "gpt-3.5-turbo-1106");
    assert_eq!(Role::parse("USER"), Some(Role::User));
    assert_eq!(Role::parse("System"), Some(Role::System));
    assert_eq!(Role::parse("robot"), None);
    assert_eq!("Assistant".parse::<Role>(), Ok(Role::Assistant));
    assert_eq!(Role::Assistant.name(), "assistant");
    assert_eq!("gpt-4o".parse::<ModelOptions>(), Ok(ModelOptions::Gpt4o));
    assert_eq!("GPT-4o".parse::<ModelOptions>(), Err(()));
}

#[test]
fn share_page_address() {
    assert_eq!(chatkit::share::share_url("abc123"), "https://shareg.pt/abc123");
}

#[test]
fn body_carries_messages_and_sampling() {
    let msgs = vec![msg(Role::System, "s"), msg(Role::User, "say \"hi\"\n")];
    let body = request_body(&msgs, &ConfigInterface::default(), true);
    assert_eq!(
        body,
        "{\"messages\":[{\"role\":\"system\",\"content\":\"s\"},{\"role\":\"user\",\"content\":\"say \\\"hi\\\"\\n\"}],\"temperature\":1,\"max_tokens\":4000,\"stream\":true}"
    );
    let v: serde_json::Value = serde_json::from_str(&body).unwrap();
    assert_eq!(v["messages"][1]["content"], "say \"hi\"\n");
    let mut c = ConfigInterface::default();
    c.temperature = -12;
    c.max_tokens = 0;
    assert_eq!(request_body(&[], &c, false), "{\"messages\":[],\"temperature\":-12,\"max_tokens\":0}");
    let c = ConfigInterface { temperature: i32::MIN, max_tokens: i32::MAX, ..ConfigInterface::default() };
    assert_eq!(
        request_body(&[], &c, false),
        "{\"messages\":[],\"temperature\":-2147483648,\"max_tokens\":2147483647}"
    );
}

#[test]
fn body_framing_takes_literals_as_given() {
    let msgs = vec![msg(Role::Assistant, "ignored"), msg(Role::User, "also")];
    let quoted = vec!["\"A\"".to_string(), "\"B\"".to_string()];
    assert_eq!(
        frame_request_body(&msgs, &quoted, &ConfigInterface::default(), false),
        "{\"messages\":[{\"role\":\"assistant\",\"content\":\"A\"},{\"role\":\"user\",\"content\":\"B\"}],\"temperature\":1,\"max_tokens\":4000}"
    );
}

#[test]
fn usage_total_cost() {
    let mut t = UsageTable::new();
    assert_eq!(t.total_cost(), 0);
    t.add(&ModelOptions::Gpt4, 1000, 1000);
    t.add(&ModelOptions::Gpt35Turbo, 2000, 0);
    t.add(&ModelOptions::Gpt4Turbo, 5000, 5000);
    // 900000 for gpt-4, 2000 * 15 for gpt-3.5-turbo, nothing for the unpriced one.
    assert_eq!(t.total_cost(), 930_000);
    assert_eq!(chatkit::usage::model_at(2), ModelOptions::Gpt4);
}

#[test]
fn request_refuses_history_too_long_to_count() {
    let huge = "a".repeat(chatkit::tokens::MAX_COUNTED_CHARS);
    let mut s = session(vec![msg(Role::User, &huge)]);
    assert!(s.begin_submit());
    let e = s.prepare_request(&Some("https://e".to_string()), &None).unwrap_err();
    assert_eq!(e, "Chat history is too long to count its tokens!");
}

#[test]
fn settings_defaults() {
    let c = chatkit::store::ConfigSlice::default();
    assert!(!c.auto_title);
    assert!(!c.count_total_tokens);
    assert_eq!(c.default_chat_config, ConfigInterface::default());
    assert!(c.default_system_message.starts_with("You are ChatGPT"));
    assert_eq!(c.total_token_used.total_cost(), 0);
    let a = chatkit::store::AuthSlice::new(Some("k".to_string()), None, true);
    assert_eq!(a.api_key.as_deref(), Some("k"));
    assert!(a.api_endpoint.is_none());
    assert!(a.first_version);
}
