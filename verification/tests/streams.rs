use wb_switch::json::{from_value, parse, to_text, to_text_pretty, to_value, Json};
use wb_switch::proxy::aggregate::Aggregate;
use wb_switch::proxy::frame::{
    closing_frame, delta_str, finish_str, has_tool_delta, make_chunk, normalize_finish, sse_bytes,
};
use wb_switch::proxy::pump::{event_payload, Pump, MERGE_MIN_CONTENT, MERGE_MIN_REASONING};
use wb_switch::proxy::usage::{
    can_record, document_of_line, empty_usage, load_usage, payload_of_line, record_usage,
    reset_usage, usage_block, usage_credit, usage_file, usage_from_sse, usage_num, usage_or_empty,
    Credits, UsageMeta, USAGE_RECENT_MAX,
};

fn doc(text: &str) -> Json {
    parse(text).unwrap()
}

fn compact(j: &Json) -> String {
    to_text(j).unwrap()
}

fn frame(field: &str, text: &str, finish: &str) -> String {
    format!(
        "data: {{\"id\":\"c1\",\"choices\":[{{\"delta\":{{\"{field}\":\"{text}\"}},\"finish_reason\":\"{finish}\"}}]}}\n\n"
    )
}

fn data_of(event: &str) -> Json {
    doc(event.strip_prefix("data: ").unwrap().strip_suffix("\n\n").unwrap())
}

#[test]
fn json_values_go_both_ways() {
    let v: serde_json::Value = serde_json::from_str("{\"b\":[1,2.5,null,true],\"a\":\"x\"}").unwrap();
    let j = from_value(v.clone());
    assert_eq!(to_value(&j), v);
    assert_eq!(compact(&j), "{\"a\":\"x\",\"b\":[1,2.5,null,true]}");
    assert_eq!(to_text_pretty(&doc("{\"a\":1}")).unwrap(), "{\n  \"a\": 1\n}");
    assert!(parse("{").is_none());
    assert_eq!(doc("18446744073709551615").as_i64(), None);
    assert_eq!(doc("-7").as_i64(), Some(-7));
    assert_eq!(Json::integer(-3).copy().as_i64(), Some(-3));
    let mut d = Json::dict();
    d.set("k", Json::text("1"));
    d.set("k", Json::text("2"));
    assert_eq!(compact(&d), "{\"k\":\"2\"}");
}

#[test]
fn parts_of_a_frame() {
    let f = doc("{\"choices\":[{\"delta\":{\"content\":\"hi\",\"x\":1},\"finish_reason\":\"stop\"}]}");
    assert_eq!(delta_str(&f, "content"), "hi");
    assert_eq!(delta_str(&f, "x"), "");
    assert_eq!(finish_str(&f), "stop");
    assert_eq!(delta_str(&doc("{\"choices\":[]}"), "content"), "");
    assert_eq!(finish_str(&doc("{\"choices\":[{\"finish_reason\":null}]}")), "");
    assert_eq!(sse_bytes(&doc("{\"a\":1}")).unwrap(), "data: {\"a\":1}\n\n");
}

fn delta(d: &str) -> Json {
    doc(&format!("{{\"choices\":[{{\"delta\":{d}}}]}}"))
}

#[test]
fn tool_calls_are_told() {
    assert!(has_tool_delta(&delta("{\"tool_calls\":[{}]}")));
    assert!(has_tool_delta(&delta("{\"function_call\":{\"name\":\"f\"}}")));
    assert!(has_tool_delta(&delta("{\"tool_calls\":[],\"function_call\":{\"name\":\"f\"}}")));
    assert!(has_tool_delta(&delta("{\"tool_calls\":1}")));
    assert!(!has_tool_delta(&delta("{\"tool_calls\":[]}")));
    assert!(!has_tool_delta(&delta("{\"tool_calls\":null,\"function_call\":{}}")));
    assert!(!has_tool_delta(&doc("{}")));
}

#[test]
fn empty_finish_reason_becomes_null() {
    let mut f = doc("{\"choices\":[{\"finish_reason\":\"\",\"index\":0}]}");
    normalize_finish(&mut f);
    assert_eq!(compact(&f), "{\"choices\":[{\"finish_reason\":null,\"index\":0}]}");
    let mut g = doc("{\"choices\":[{\"finish_reason\":\"stop\"}]}");
    normalize_finish(&mut g);
    assert_eq!(finish_str(&g), "stop");
}

#[test]
fn merged_frame_is_made_after_the_first() {
    let t = doc("{\"id\":\"c\",\"usage\":{\"x\":1},\"choices\":[{\"index\":0,\"delta\":{\"a\":1}}]}");
    assert_eq!(
        compact(&make_chunk(&t, "why", "", true)),
        "{\"choices\":[{\"delta\":{\"reasoning_content\":\"why\",\"role\":\"assistant\"},\
          \"finish_reason\":null,\"index\":0,\"logprobs\":null}],\"id\":\"c\",\"usage\":null}"
    );
    assert_eq!(
        compact(&make_chunk(&doc("{}"), "", "hi", false)),
        "{\"choices\":[{\"delta\":{\"content\":\"hi\"},\"finish_reason\":null,\"logprobs\":null}],\"usage\":null}"
    );
    let last = doc("{\"choices\":[{\"delta\":{\"content\":\"x\"},\"finish_reason\":\"stop\"}]}");
    assert_eq!(
        compact(&closing_frame(&last)),
        "{\"choices\":[{\"delta\":{},\"finish_reason\":\"stop\"}]}"
    );
}

#[test]
fn payload_of_an_event_spans_lines() {
    let v: Vec<char> = "event: x\ndata: {\"a\":\r\ndata:1}".chars().collect();
    assert_eq!(event_payload(&v), Some("{\"a\":1}".to_string()));
    let done: Vec<char> = "data: [DONE]".chars().collect();
    assert_eq!(event_payload(&done), None);
    let none: Vec<char> = ": ping".chars().collect();
    assert_eq!(event_payload(&none), None);
}

#[test]
fn short_pieces_are_gathered() {
    let mut p = Pump::new();
    let mut out = Vec::new();
    for piece in ["The", " user", " is"] {
        out.extend(p.feed_text(&frame("reasoning_content", piece, "")));
    }
    assert!(out.is_empty());
    out.extend(p.feed_text(&frame("content", "Hello", "")));
    assert_eq!(out.len(), 1);
    assert_eq!(delta_str(&data_of(&out[0]), "reasoning_content"), "The user is");
    assert_eq!(delta_str(&data_of(&out[0]), "role"), "assistant");
    out.extend(p.feed_text(&frame("content", "!", "stop")));
    out.extend(p.finish());
    assert_eq!(out.len(), 4);
    assert_eq!(delta_str(&data_of(&out[1]), "content"), "Hello!");
    assert_eq!(delta_str(&data_of(&out[1]), "role"), "");
    assert_eq!(finish_str(&data_of(&out[2])), "stop");
    assert_eq!(delta_str(&data_of(&out[2]), "content"), "");
    assert_eq!(out[3], "data: [DONE]\n\n");
}

#[test]
fn frame_with_both_texts_loses_neither() {
    let both = "{\"id\":\"c1\",\"choices\":[{\"delta\":{\"reasoning_content\":\"r\",\
                \"content\":\"c\"},\"finish_reason\":\"stop\"}]}";
    let mut p = Pump::new();
    let mut out = p.feed_text(&format!("data: {both}\n\n"));
    assert_eq!(out.len(), 2);
    out.extend(p.finish());
    assert_eq!(out.len(), 4);
    let mut reasoning = String::new();
    let mut content = String::new();
    for event in &out[..3] {
        reasoning.push_str(&delta_str(&data_of(event), "reasoning_content"));
        content.push_str(&delta_str(&data_of(event), "content"));
    }
    assert_eq!((reasoning.as_str(), content.as_str()), ("r", "c"));
    assert_eq!(delta_str(&data_of(&out[0]), "role"), "assistant");
    assert_eq!(delta_str(&data_of(&out[1]), "role"), "");
    assert_eq!(finish_str(&data_of(&out[2])), "stop");
    assert_eq!(out[3], "data: [DONE]\n\n");
    let mut g = Aggregate::new();
    g.absorb(&doc(both));
    let message = g.finish("id", 0, "m");
    let choice = message.get("choices").unwrap().at(0).unwrap();
    assert_eq!(choice.get("message").unwrap().str_of("content"), Some("c"));
    assert_eq!(choice.get("message").unwrap().str_of("reasoning_content"), Some("r"));
}

#[test]
fn last_frame_sends_what_was_gathered() {
    let mut p = Pump::new();
    assert!(p.feed_text(&frame("content", "a", "")).is_empty());
    let out = p.feed_text(&frame("content", "b", "stop"));
    assert_eq!(out.len(), 1);
    assert_eq!(delta_str(&data_of(&out[0]), "content"), "ab");
    assert_eq!(finish_str(&data_of(&out[0])), "");
    let end = p.finish();
    assert_eq!(end.len(), 2);
    assert_eq!(finish_str(&data_of(&end[0])), "stop");
    let mut q = Pump::new();
    assert!(q.feed_text(&frame("reasoning_content", "x", "")).is_empty());
    let bare = "data: {\"choices\":[{\"delta\":{},\"finish_reason\":\"length\"}]}\n\n";
    let out = q.feed_text(bare);
    assert_eq!(out.len(), 1);
    assert_eq!(delta_str(&data_of(&out[0]), "reasoning_content"), "x");
}

#[test]
fn enough_text_is_sent_at_once() {
    assert_eq!((MERGE_MIN_REASONING, MERGE_MIN_CONTENT), (256, 32));
    let mut p = Pump::new();
    let long = "x".repeat(MERGE_MIN_CONTENT);
    assert_eq!(p.feed_text(&frame("content", &long[1..], "")).len(), 0);
    let out = p.feed_text(&frame("content", "字", ""));
    assert_eq!(out.len(), 1);
    assert_eq!(delta_str(&data_of(&out[0]), "content").chars().count(), 32);
    let mut q = Pump::new();
    let thought = "y".repeat(MERGE_MIN_REASONING - 1);
    assert_eq!(q.feed_text(&frame("reasoning_content", &thought, "")).len(), 0);
    assert_eq!(q.feed_text(&frame("reasoning_content", "y", "")).len(), 1);
}

#[test]
fn tool_calls_pass_unchanged() {
    let mut p = Pump::new();
    let call = "{\"choices\":[{\"delta\":{\"tool_calls\":[{\"id\":\"t\"}]},\"finish_reason\":\"\"}]}";
    let mut out = p.feed_text(&frame("content", "a", ""));
    out.extend(p.absorb(doc(call)));
    assert_eq!(out.len(), 2);
    assert_eq!(delta_str(&data_of(&out[0]), "content"), "a");
    assert_eq!(
        out[1],
        "data: {\"choices\":[{\"delta\":{\"tool_calls\":[{\"id\":\"t\"}]},\"finish_reason\":null}]}\n\n"
    );
    assert_eq!(p.finish(), vec!["data: [DONE]\n\n".to_string()]);
}

#[test]
fn cuts_in_the_stream_do_not_matter() {
    let mut whole = String::new();
    for piece in ["one ", "two ", "three"] {
        whole.push_str(&frame("reasoning_content", piece, ""));
    }
    whole.push_str(&frame("content", "end", "stop"));
    whole.push_str("data: {\"choices\":[],\"usage\":{\"prompt_tokens\":3,\"credit\":0.5}}\n\n");
    whole.push_str("data: [DONE]\n\n");
    let mut at_once = Pump::new();
    let mut a = at_once.feed(whole.as_bytes());
    a.extend(at_once.finish());
    let mut in_bits = Pump::new();
    let mut b = Vec::new();
    for bit in whole.as_bytes().chunks(7) {
        b.extend(in_bits.feed(bit));
    }
    b.extend(in_bits.finish());
    assert_eq!(a, b);
    assert_eq!(in_bits.usage().unwrap().int_of("prompt_tokens"), Some(3));

    let mut g = Aggregate::new();
    for bit in whole.as_bytes().chunks(5) {
        g.feed(bit);
    }
    let answer = g.finish("id", 1_500, "m");
    let mut content = String::new();
    let mut reasoning = String::new();
    for event in &a {
        if event != "data: [DONE]\n\n" {
            content.push_str(&delta_str(&data_of(event), "content"));
            reasoning.push_str(&delta_str(&data_of(event), "reasoning_content"));
        }
    }
    assert_eq!((content.as_str(), reasoning.as_str()), ("end", "one two three"));
    assert_eq!(
        compact(&answer),
        "{\"choices\":[{\"finish_reason\":\"stop\",\"index\":0,\"message\":{\"content\":\"end\",\
          \"reasoning_content\":\"one two three\",\"role\":\"assistant\"}}],\"created\":1,\
          \"id\":\"c1\",\"model\":\"m\",\"object\":\"chat.completion\",\
          \"usage\":{\"credit\":0.5,\"prompt_tokens\":3}}"
    );
}

#[test]
fn broken_bytes_become_replacement_characters() {
    let mut p = Pump::new();
    let mut bytes = b"data: {\"choices\":[{\"delta\":{\"content\":\"a".to_vec();
    bytes.push(0xff);
    bytes.extend_from_slice(b"\"}}]}\n\n");
    p.feed(&bytes);
    let out = p.finish();
    assert_eq!(delta_str(&data_of(&out[0]), "content"), "a\u{fffd}");
}

#[test]
fn answer_without_an_identifier_gets_one() {
    let mut g = Aggregate::new();
    g.feed_text("data: {\"id\":\"\"}\r\ndata: nonsense\nevent: x\ndata: [DONE]\n");
    g.absorb(&doc("{\"usage\":{\"a\":1}}"));
    g.absorb(&doc("{\"usage\":null}"));
    g.feed_text("data: {\"id\":\"late\"}");
    let r = g.finish("fresh", 999, "m");
    assert_eq!(r.str_of("id"), Some("fresh"));
    assert_eq!(r.int_of("created"), Some(0));
    assert!(r.get("usage").unwrap().is_null());
}

#[test]
fn usage_of_a_stream_is_the_last_that_is_not_null() {
    let text = "data: {\"usage\":{\"prompt_tokens\":1}}\n\ndata:{\"usage\":{\"prompt_tokens\":2}}\r\n\
                data: {\"usage\":null}\n data: {\"usage\":{\"prompt_tokens\":9}}\ndata: [DONE]\n";
    let u = usage_from_sse(text).unwrap();
    assert_eq!(usage_num(Some(&u), "prompt_tokens"), 2);
    assert_eq!(usage_num(Some(&u), "none"), 0);
    assert_eq!(usage_num(None, "prompt_tokens"), 0);
    assert!(usage_from_sse("data: {}").is_none());
    assert!(usage_block(&doc("{\"usage\":null}")).is_none());
    let line: Vec<char> = "data:  {\"a\":1} ".chars().collect();
    assert_eq!(payload_of_line(&line), Some("{\"a\":1}".to_string()));
    assert_eq!(document_of_line(&line).unwrap().int_of("a"), Some(1));
    let credit = doc("{\"credit\":1.5}");
    assert_eq!(compact(usage_credit(Some(&credit)).unwrap()), "1.5");
    assert!(usage_credit(Some(&doc("{\"credit\":\"1\"}"))).is_none());
    assert!(usage_credit(None).is_none());
}

const EMPTY: &str = "{\"byAccount\":{},\"byModel\":{},\"recent\":[],\"total\":{\"completionTokens\":0,\
                     \"credit\":0,\"errors\":0,\"promptTokens\":0,\"requests\":0},\"updatedAt\":0}";

#[test]
fn statistics_begin_empty() {
    assert_eq!(compact(&empty_usage()), EMPTY);
    assert_eq!(compact(&load_usage(None)), EMPTY);
    assert_eq!(compact(&load_usage(Some("broken"))), EMPTY);
    assert_eq!(compact(&load_usage(Some("{\"updatedAt\":1}"))), EMPTY);
    assert_eq!(compact(&load_usage(Some("{\"total\":1}"))), "{\"total\":1}");
    assert_eq!(compact(&usage_or_empty(None)), EMPTY);
    assert_eq!(reset_usage(77).int_of("updatedAt"), Some(77));
    let text = usage_file(&reset_usage(77)).unwrap();
    assert_eq!(compact(&load_usage(Some(text.as_str()))), compact(&reset_usage(77)));
}

fn meta() -> UsageMeta {
    UsageMeta {
        uid: "u".to_string(),
        nickname: "N".to_string(),
        model: "m".to_string(),
        stream: true,
    }
}

fn credits(n: &str) -> Credits {
    Credits { spent: doc(n), total: doc(n), account: doc(n), model: doc(n) }
}

#[test]
fn requests_are_counted() {
    let usage = doc("{\"prompt_tokens\":10,\"completion_tokens\":4,\"credit\":0.5}");
    let empty = empty_usage();
    assert!(can_record(&empty, &meta(), Some(&usage), true));
    let one = record_usage(empty, &meta(), Some(&usage), true, &credits("0.5"), 5);
    assert_eq!(
        compact(&one),
        "{\"byAccount\":{\"u\":{\"completionTokens\":4,\"credit\":0.5,\"errors\":0,\
          \"nickname\":\"N\",\"promptTokens\":10,\"requests\":1}},\
          \"byModel\":{\"m\":{\"completionTokens\":4,\"credit\":0.5,\"errors\":0,\
          \"promptTokens\":10,\"requests\":1}},\
          \"recent\":[{\"completionTokens\":4,\"credit\":0.5,\"model\":\"m\",\"nickname\":\"N\",\
          \"ok\":true,\"promptTokens\":10,\"stream\":true,\"ts\":5,\"uid\":\"u\"}],\
          \"total\":{\"completionTokens\":4,\"credit\":0.5,\"errors\":0,\"promptTokens\":10,\
          \"requests\":1},\"updatedAt\":5}"
    );
    let two = record_usage(one, &meta(), None, false, &credits("0.5"), 6);
    let total = two.get("total").unwrap();
    assert_eq!((total.int_of("requests"), total.int_of("errors")), (Some(2), Some(1)));
    assert_eq!(total.int_of("promptTokens"), Some(10));
    assert_eq!(two.get("recent").unwrap().at(0).unwrap().flag_of("ok"), Some(false));
}

#[test]
fn latest_requests_are_limited() {
    let mut all = empty_usage();
    for i in 0..(USAGE_RECENT_MAX + 5) {
        all = record_usage(all, &meta(), None, true, &credits("0.0"), i as i64);
    }
    let recent = all.get("recent").unwrap().as_list().unwrap();
    assert_eq!(recent.len(), 100);
    assert_eq!(recent[0].int_of("ts"), Some(104));
    assert_eq!(all.get("total").unwrap().int_of("requests"), Some(105));
    let full = doc("{\"total\":{\"requests\":9223372036854775807}}");
    assert!(!can_record(&full, &meta(), None, true));
}

fn sum_in(group: &Json, key: &str) -> i64 {
    match group {
        Json::Dict(m) => m.iter().map(|(_, e)| e.int_of(key).unwrap_or(0)).sum(),
        _ => panic!("no group"),
    }
}

#[test]
fn sums_of_the_statistics_agree() {
    let usage = doc("{\"prompt_tokens\":10,\"completion_tokens\":4}");
    for start in [empty_usage(), reset_usage(9)] {
        let mut all = start;
        for i in 0..7 {
            let who = UsageMeta {
                uid: format!("u{}", i % 3),
                nickname: "N".to_string(),
                model: format!("m{}", i % 2),
                stream: false,
            };
            let ok = i % 4 != 0;
            assert!(can_record(&all, &who, Some(&usage), ok));
            all = record_usage(all, &who, Some(&usage), ok, &credits("0.0"), i);
        }
        let total = all.get("total").unwrap();
        assert_eq!((total.int_of("requests"), total.int_of("errors")), (Some(7), Some(2)));
        assert_eq!(total.int_of("promptTokens"), Some(70));
        for key in ["requests", "errors", "promptTokens", "completionTokens"] {
            let want = total.int_of(key).unwrap();
            assert_eq!(sum_in(all.get("byAccount").unwrap(), key), want);
            assert_eq!(sum_in(all.get("byModel").unwrap(), key), want);
        }
    }
}
