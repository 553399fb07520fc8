use chatkit::stream::{
    parse_event_source, split_event_frames, Delta, EventSourceData, EventSourceDataChoices,
    EventSourceDataInterface,
};
use chatkit::submit::collect_delta_text;

fn never(_p: String) -> Option<EventSourceDataInterface> {
    None
}

fn decode(p: String) -> Option<EventSourceDataInterface> {
    let v: serde_json::Value = serde_json::from_str(&p).ok()?;
    let choices = v
        .get("choices")?
        .as_array()?
        .iter()
        .map(|c| EventSourceDataChoices {
            delta: Delta {
                content: c["delta"]["content"].as_str().map(|s| s.to_string()),
                role: c["delta"]["role"].as_str().map(|s| s.to_string()),
            },
            finish_reason: c["finish_reason"].as_str().map(|s| s.to_string()),
            index: c["index"].as_u64().unwrap_or(0) as u32,
        })
        .collect();
    Some(EventSourceDataInterface {
        choices,
        created: v.get("created")?.as_u64()?,
        id: v.get("id")?.as_str()?.to_string(),
        model: v.get("model")?.as_str()?.to_string(),
        object: v.get("object")?.as_str()?.to_string(),
    })
}

fn frame(content: &str) -> String {
    format!(
        "data: {{\"choices\":[{{\"delta\":{{\"content\":{}}},\"finish_reason\":null,\"index\":0}}],\"created\":1,\"id\":\"x\",\"model\":\"gpt-4\",\"object\":\"chat.completion.chunk\"}}\n\n",
        serde_json::to_string(content).unwrap()
    )
}

#[test]
fn parse_empty_chunk_gives_no_events() {
    assert!(parse_event_source(String::new(), never).is_empty());
}

#[test]
fn parse_blank_frames_gives_no_events() {
    assert!(parse_event_source("\n\n\n\n".to_string(), never).is_empty());
    assert!(parse_event_source("  \n\n\t\n\n\r\n".to_string(), never).is_empty());
    assert!(parse_event_source("\n\n\n".to_string(), never).is_empty());
}

#[test]
fn parse_done_sentinel() {
    let events = parse_event_source("data: [DONE]\n\n".to_string(), decode);
    assert_eq!(events.len(), 1);
    assert!(matches!(&events[0], EventSourceData::Done(s) if s == "[DONE]"));
}

#[test]
fn parse_data_frame() {
    let events = parse_event_source(frame("Hel"), decode);
    assert_eq!(events.len(), 1);
    match &events[0] {
        EventSourceData::Data(d) => {
            assert_eq!(d.choices[0].delta.content.as_deref(), Some("Hel"));
            assert_eq!(d.model, "gpt-4");
            assert_eq!(d.created, 1);
        }
        EventSourceData::Done(_) => panic!("expected data"),
    }
}

#[test]
fn parse_garbled_frame_is_done() {
    let events = parse_event_source("data: {\"choi\n\n".to_string(), decode);
    assert_eq!(events.len(), 1);
    assert!(matches!(&events[0], EventSourceData::Done(s) if s == "{\"choi"));
}

#[test]
fn frames_join_lines_and_strip_prefix() {
    let frames = split_event_frames("data: ab\r\ndata: cd\ndata: e\n\nxy\n\n");
    assert_eq!(frames, vec!["abcde".to_string(), "xy".to_string()]);
}

#[test]
fn frames_keep_order() {
    let chunk = format!("{}{}data: [DONE]\n\n", frame("a"), frame("b"));
    let events = parse_event_source(chunk, decode);
    assert_eq!(events.len(), 3);
    assert!(matches!(&events[0], EventSourceData::Data(_)));
    assert!(matches!(&events[1], EventSourceData::Data(_)));
    assert!(matches!(&events[2], EventSourceData::Done(_)));
}

#[test]
fn deltas_reassemble_the_message() {
    let pieces = ["Hello", ", ", "wor", "ld", "! \"quoted\"\nnext line", ""];
    let mut chunk = String::new();
    for p in pieces {
        chunk.push_str(&frame(p));
    }
    chunk.push_str("data: [DONE]\n\n");
    let events = parse_event_source(chunk, decode);
    let (text, done) = collect_delta_text(&events);
    assert_eq!(text, pieces.concat());
    assert!(done);
}

#[test]
fn text_stops_at_first_done() {
    let chunk = format!("{}data: [DONE]\n\n{}", frame("kept"), frame("dropped"));
    let events = parse_event_source(chunk, decode);
    let (text, done) = collect_delta_text(&events);
    assert_eq!(text, "kept");
    assert!(done);
}

#[test]
fn missing_content_counts_as_empty() {
    let chunk = "data: {\"choices\":[{\"delta\":{\"role\":\"assistant\"},\"finish_reason\":null,\"index\":0}],\"created\":1,\"id\":\"x\",\"model\":\"m\",\"object\":\"o\"}\n\n".to_string();
    let events = parse_event_source(chunk, decode);
    assert!(matches!(&events[0], EventSourceData::Data(_)));
    let (text, done) = collect_delta_text(&events);
    assert_eq!(text, "");
    assert!(!done);
}
