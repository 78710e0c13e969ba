use wb_switch::json::{parse, to_text, Json};
use wb_switch::proxy::account::{
    count_usable, eligible_uids, find_usable, healthz, is_permitted, needs_refresh, proxy_status,
    settle, take_account, use_account, Refresh, Take,
};
use wb_switch::proxy::chat::{
    chat_completions, chat_meta, conclude, conclude_stream, is_success, route, stream_headers,
    wish_of, ChatAct, ChatEvent, ChatStage, Entry, Outcome, Route, StreamEnd, Wish,
};
use wb_switch::proxy::config::{
    check_auth, config_path, default_listen, load_proxy_config, usage_path, ProxyConfig,
};
use wb_switch::proxy::lifecycle::{
    bind_failure, conclude_start, note_end, proxy_running, restart_proxy_server, run_proxy_server,
    spawn_from_config, start_proxy_server, stop_proxy_server, Restart, Server, Start,
    MAX_REQUEST_BODY, START_WAIT_SECS,
};
use wb_switch::proxy::models::{
    begin_models, list_models, model_document, model_ids, push_unique, Fetched, ModelsAct,
};
use wb_switch::proxy::pool::{Pool, COOLDOWN};
use wb_switch::proxy::pump::Pump;
use wb_switch::proxy::reply::{unauthorized, Body, Reply};
use wb_switch::proxy::upstream::{
    build_upstream_body, chat_headers, chat_url, hex_id, models_url, request_model,
};

fn doc(text: &str) -> Json {
    parse(text).unwrap()
}

fn config(key: &str, accounts: &[&str]) -> ProxyConfig {
    ProxyConfig {
        enabled: true,
        listen: "127.0.0.1:1".to_string(),
        api_key: key.to_string(),
        accounts: accounts.iter().map(|s| s.to_string()).collect(),
    }
}

fn written(r: &Reply) -> (u16, String) {
    match &r.body {
        Body::Document(j) => (r.status, to_text(j).unwrap()),
        Body::Text(s) => (r.status, format!("text:{s}")),
    }
}

#[test]
fn default_settings() {
    let cfg = ProxyConfig::default();
    assert!(!cfg.enabled && cfg.api_key.is_empty() && cfg.accounts.is_empty());
    assert_eq!(cfg.listen, "127.0.0.1:7863");
    assert_eq!(default_listen(), "127.0.0.1:7863");
    assert_eq!(load_proxy_config(None).listen, "127.0.0.1:7863");
    assert_eq!(load_proxy_config(Some(config("k", &[]))).api_key, "k");
    assert_eq!(config_path("/h").parts, vec![".wb-switch", "proxy.json"]);
    assert_eq!(usage_path("/h").parts, vec![".wb-switch", "proxy-usage.json"]);
}

#[test]
fn key_must_be_presented() {
    let cfg = config("sk-1", &[]);
    assert!(check_auth(Some("Bearer sk-1"), &cfg));
    assert!(check_auth(Some("  Bearer   sk-1 "), &cfg));
    assert!(check_auth(Some("Bearer Bearer sk-1"), &cfg));
    assert!(check_auth(Some("sk-1"), &cfg));
    assert!(!check_auth(Some("bearer sk-1"), &cfg));
    assert!(!check_auth(Some("Bearer sk-2"), &cfg));
    assert!(!check_auth(None, &cfg));
    assert!(check_auth(None, &config("  ", &[])));
    assert!(!check_auth(Some("Bearer sk-1"), &config(" sk-1", &[])));
    assert_eq!(
        written(&unauthorized()),
        (401, "{\"error\":{\"message\":\"invalid api key\"}}".to_string())
    );
}

fn pool(uids: &[&str]) -> Pool {
    Pool::new(uids.iter().map(|s| s.to_string()).collect())
}

#[test]
fn accounts_take_turns() {
    let mut p = pool(&["a", "b", "c"]);
    assert_eq!(p.len(), 3);
    let got: Vec<String> = (0..4).map(|_| p.next_uid(0).unwrap()).collect();
    assert_eq!(got, vec!["a", "b", "c", "a"]);
    assert!(pool(&[]).next_uid(0).is_none());
}

#[test]
fn failed_account_rests_and_returns() {
    let mut p = pool(&["a", "b"]);
    p.mark_failed("a", 1_000);
    assert_eq!(p.next_uid(1_000), Some("b".to_string()));
    assert_eq!(p.next_uid(1_000 + COOLDOWN - 1), Some("b".to_string()));
    assert_eq!(p.next_uid(1_000 + COOLDOWN), Some("a".to_string()));
    p.mark_failed("a", 5);
    p.mark_failed("b", 5);
    assert!(p.next_uid(6).is_none());
    assert!(p.next_uid(0).is_none());
    assert_eq!(COOLDOWN, 120_000_000_000);
}

#[test]
fn accounts_that_take_part() {
    let accounts = vec![
        doc("{\"uid\": \"a\"}"),
        doc("{\"uid\": \"b\", \"needs_relogin\": true}"),
        doc("{\"uid\": \"c\", \"needs_relogin\": false}"),
        doc("{\"nickname\": \"x\"}"),
    ];
    assert_eq!(eligible_uids(&config("", &[]), &accounts), vec!["a", "c"]);
    assert_eq!(eligible_uids(&config("", &["b", "c"]), &accounts), vec!["c"]);
    assert_eq!(count_usable(&accounts), 3);
    assert!(is_permitted(&accounts[3], &vec![]));
    assert!(!is_permitted(&accounts[3], &vec!["a".to_string()]));
    assert_eq!(
        to_text(&healthz(2, &accounts)).unwrap(),
        "{\"healthy\":3,\"ok\":true,\"service\":\"wb-switch-proxy\",\"total\":2}"
    );
    assert_eq!(find_usable(&accounts, "c").unwrap().str_of("uid"), Some("c"));
    assert!(find_usable(&accounts, "b").is_none());
    assert!(find_usable(&accounts, "z").is_none());
}

#[test]
fn state_of_the_gateway() {
    let accounts = vec![
        doc("{\"uid\": \"a\", \"nickname\": \"A\", \"needs_relogin\": true, \"expiresAt\": 5}"),
        doc("{\"uid\": \"b\"}"),
    ];
    let mut cfg = config("", &["a"]);
    assert_eq!(
        to_text(&proxy_status(&cfg, &accounts)).unwrap(),
        "{\"accounts\":[{\"expiresAt\":5,\"needs_relogin\":true,\"nickname\":\"A\",\"uid\":\"a\"}],\
          \"enabled\":true,\"listen\":\"127.0.0.1:1\"}"
    );
    cfg.accounts.clear();
    let all = proxy_status(&cfg, &accounts);
    let list = all.get("accounts").unwrap();
    assert_eq!(
        to_text(list.at(1).unwrap()).unwrap(),
        "{\"expiresAt\":null,\"needs_relogin\":false,\"nickname\":null,\"uid\":\"b\"}"
    );
}

#[test]
fn tokens_are_renewed_in_time() {
    let acc = doc("{\"expiresAt\": 7200000}");
    assert!(!needs_refresh(&acc, 0));
    assert!(needs_refresh(&acc, 1));
    assert!(needs_refresh(&doc("{}"), 0));
    assert!(!needs_refresh(&doc("{\"expiresAt\": 9223372036854775807}"), i64::MIN));
    let kept = settle(doc("{\"uid\":\"a\"}"), Refresh::NotNeeded);
    assert!(!kept.failed && kept.account.is_some());
    let late = settle(doc("{}"), Refresh::TimedOut);
    assert!(late.failed && late.account.is_none());
    let new = settle(doc("{}"), Refresh::Done(doc("{\"uid\":\"n\"}")));
    assert!(!new.failed);
    assert_eq!(new.account.unwrap().str_of("uid"), Some("n"));
    let lost = settle(doc("{}"), Refresh::Done(doc("{\"needs_relogin\":true}")));
    assert!(lost.failed && lost.account.is_none());
}

#[test]
fn account_is_taken_in_turn() {
    let accounts = vec![
        doc("{\"uid\":\"a\",\"expiresAt\":7200000}"),
        doc("{\"uid\":\"b\",\"needs_relogin\":true}"),
        doc("{\"uid\":\"c\"}"),
    ];
    let mut p = pool(&["a", "b", "c"]);
    match take_account(&mut p, &accounts, 0, 0) {
        Take::Fresh(uid, acc) => {
            assert_eq!(uid, "a");
            let used = use_account(&mut p, &uid, acc, Refresh::NotNeeded, 0);
            assert_eq!(used.unwrap().str_of("uid"), Some("a"));
        }
        _ => panic!("not fresh"),
    }
    match take_account(&mut p, &accounts, 0, 0) {
        Take::Stale(uid, _) => assert_eq!(uid, "c"),
        _ => panic!("not stale"),
    }
    match take_account(&mut p, &accounts, 0, 0) {
        Take::Stale(uid, acc) => {
            assert_eq!(uid, "c");
            assert!(use_account(&mut p, &uid, acc, Refresh::TimedOut, 0).is_none());
        }
        _ => panic!("not stale"),
    }
    assert_eq!(p.next_uid(1), Some("a".to_string()));
    assert_eq!(p.next_uid(1), Some("b".to_string()));
    assert_eq!(p.next_uid(1), Some("a".to_string()));
    assert!(matches!(take_account(&mut pool(&[]), &accounts, 0, 0), Take::Nobody));
}

#[test]
fn account_that_needs_a_login_is_passed_over() {
    let accounts = vec![
        doc("{\"uid\":\"a\",\"needs_relogin\":true,\"expiresAt\":7200001}"),
        doc("{\"uid\":\"b\",\"expiresAt\":7200001}"),
    ];
    let mut p = pool(&["a", "b"]);
    for _ in 0..3 {
        match take_account(&mut p, &accounts, 0, 0) {
            Take::Fresh(uid, acc) => {
                assert_eq!(uid, "b");
                assert_eq!(acc.str_of("uid"), Some("b"));
            }
            _ => panic!("nobody"),
        }
    }
    p.mark_failed("b", 0);
    assert!(matches!(take_account(&mut p, &accounts, 1, 0), Take::Nobody));
    assert!(matches!(take_account(&mut p, &accounts, COOLDOWN, 0), Take::Fresh(_, _)));
    assert!(matches!(take_account(&mut p, &vec![], COOLDOWN, 0), Take::Nobody));
}

#[test]
fn free_accounts_come_in_their_order() {
    let mut p = pool(&["a", "b", "c"]);
    p.mark_failed("b", 0);
    assert_eq!(p.free_uids(1), vec!["a", "c"]);
    assert_eq!(p.free_uids(1), vec!["c", "a"]);
    assert_eq!(p.free_uids(1), vec!["c", "a"]);
    assert_eq!(p.next_uid(1), Some("a".to_string()));
    assert_eq!(p.free_uids(COOLDOWN), vec!["b", "c", "a"]);
}

#[test]
fn addresses_of_upstream() {
    assert_eq!(chat_url(), "https://www.codebuddy.cn/v2/chat/completions");
    assert_eq!(models_url(), "https://www.codebuddy.cn/v2/enterprises/personal/models");
}

#[test]
fn identifiers_are_32_digits() {
    assert_eq!(hex_id(0), "00000000000000005eed5eed5eed5eed");
    assert_eq!(hex_id(0x5eed_5eed_5eed_5eed), "00000000000000000000000000000000");
    let n: u128 = 1_790_000_000_123_456_789;
    assert_eq!(hex_id(n), format!("{:032x}", n ^ 0x5eed_5eed_5eed_5eedu128));
    assert_eq!(hex_id(u128::MAX), "ffffffffffffffffa112a112a112a112");
}

fn header(h: &Vec<(String, String)>, name: &str) -> Option<String> {
    let found: Vec<&(String, String)> = h.iter().filter(|p| p.0 == name).collect();
    assert!(found.len() < 2);
    found.first().map(|p| p.1.clone())
}

#[test]
fn headers_of_a_request() {
    let acc = doc(
        "{\"uid\":\"u\",\"access_token\":\"t\",\"domain\":\"d\",\"enterpriseId\":\"e\"}",
    );
    let h = chat_headers(&acc, 0, 1);
    assert_eq!(h.len(), 24);
    assert_eq!(header(&h, "Authorization"), Some("Bearer t".to_string()));
    assert_eq!(header(&h, "X-User-Id"), Some("u".to_string()));
    assert_eq!(header(&h, "X-Domain"), Some("d".to_string()));
    assert_eq!(header(&h, "X-Enterprise-Id"), Some("e".to_string()));
    assert_eq!(header(&h, "X-No-Authorization"), None);
    assert_eq!(header(&h, "Referer"), Some("https://www.codebuddy.cn/".to_string()));
    assert_eq!(
        header(&h, "User-Agent"),
        Some("WorkBuddy/5.5.4 WorkBuddy/5.5.4 CLI/2.137.1".to_string())
    );
    let conv = Some("00000000000000005eed5eed5eed5eed".to_string());
    let msg = Some("00000000000000005eed5eed5eed5eec".to_string());
    assert_eq!(header(&h, "X-Conversation-Request-ID"), conv);
    assert_eq!(header(&h, "X-Root-Request-ID"), conv);
    assert_eq!(header(&h, "X-Trace-ID"), conv);
    assert_eq!(header(&h, "X-B3-TraceId"), conv);
    assert_eq!(header(&h, "X-Conversation-Message-ID"), msg);
    assert_eq!(header(&h, "X-Request-ID"), msg);
    assert_eq!(header(&h, "X-B3-SpanId"), Some("0000000000000000".to_string()));
    for (i, a) in h.iter().enumerate() {
        for b in h.iter().skip(i + 1) {
            assert_ne!(a.0, b.0);
        }
    }
    let bare = chat_headers(&doc("{\"enterpriseId\": 7}"), 0, 1);
    for name in
        ["X-No-Authorization", "X-No-User-Id", "X-No-Department-Info", "X-No-Enterprise-Id"]
    {
        assert_eq!(header(&bare, name), Some("1".to_string()));
    }
    assert_eq!(header(&bare, "Authorization"), None);
}

#[test]
fn body_for_upstream() {
    let incoming = doc(
        "{\"model\":\"m\",\"messages\":[{\"role\":\"user\"}],\"stream\":false,\"tools\":[],\
          \"temperature\":0.5,\"top_p\":1,\"max_tokens\":7,\"n\":3}",
    );
    assert_eq!(
        to_text(&build_upstream_body(&incoming)).unwrap(),
        "{\"max_tokens\":7,\"messages\":[{\"role\":\"user\"}],\"model\":\"m\",\"stream\":true,\
          \"temperature\":0.5,\"tools\":[],\"top_p\":1}"
    );
    assert_eq!(
        to_text(&build_upstream_body(&doc("{}"))).unwrap(),
        "{\"messages\":[],\"model\":\"deepseek-v4-flash\",\"stream\":true}"
    );
    assert_eq!(request_model(&doc("{\"model\":1}")), "deepseek-v4-flash");
}

#[test]
fn models_of_the_agents_come_first() {
    let v = doc(
        "{\"data\":{\"agents\":[{\"models\":[\"a\",\"b\",\"\",1]},{\"x\":0},{\"models\":[\"b\",\"c\"]}]}}",
    );
    assert_eq!(model_ids(&v), vec!["a", "b", "c"]);
    let v = doc("{\"data\":[{\"id\":\"x\"},{\"name\":\"y\"},{\"id\":1,\"name\":\"z\"},{\"id\":\"x\"}]}");
    assert_eq!(model_ids(&v), vec!["x", "y"]);
    assert_eq!(model_ids(&doc("[{\"id\":\"q\"}]")), vec!["q"]);
    assert_eq!(
        model_ids(&doc("{}")),
        vec![
            "auto",
            "hy4-preview",
            "deepseek-v4-pro",
            "deepseek-v4.1-flash",
            "glm-5.3",
            "kimi-k3-1",
            "minimax-m3"
        ]
    );
    assert_eq!(
        to_text(&model_document(&doc("[{\"id\":\"q\"}]"))).unwrap(),
        "{\"data\":[{\"id\":\"q\",\"object\":\"model\",\"owned_by\":\"workbuddy\"}],\"object\":\"list\"}"
    );
    let mut ids = vec!["a".to_string()];
    push_unique(&mut ids, "");
    push_unique(&mut ids, "a");
    push_unique(&mut ids, "b");
    assert_eq!(ids, vec!["a", "b"]);
}

#[test]
fn replies_about_models() {
    let open = config("", &[]);
    assert_eq!(
        written(&list_models(None, &open, &Fetched::NoAccount)),
        (503, "{\"error\":{\"message\":\"no available account\"}}".to_string())
    );
    assert_eq!(
        written(&list_models(None, &open, &Fetched::NoClient("e".to_string()))),
        (500, "text:e".to_string())
    );
    let ok = list_models(None, &open, &Fetched::Document(doc("[{\"id\":\"q\"}]")));
    assert_eq!(
        written(&ok),
        (
            200,
            "{\"data\":[{\"id\":\"q\",\"object\":\"model\",\"owned_by\":\"workbuddy\"}],\
              \"object\":\"list\"}"
                .to_string()
        )
    );
}

#[test]
fn known_models_are_offered_when_none_can_be_had() {
    let open = config("", &[]);
    let reply = list_models(None, &open, &Fetched::Failed("e".to_string()));
    assert_eq!(reply.status, 200);
    let Body::Document(list) = &reply.body else { panic!("no document") };
    assert_eq!(list.str_of("object"), Some("list"));
    let data = list.get("data").unwrap().as_list().unwrap();
    let ids: Vec<&str> = data.iter().map(|m| m.str_of("id").unwrap()).collect();
    assert_eq!(
        ids,
        vec![
            "auto",
            "hy4-preview",
            "deepseek-v4-pro",
            "deepseek-v4.1-flash",
            "glm-5.3",
            "kimi-k3-1",
            "minimax-m3"
        ]
    );
    for m in data {
        assert_eq!((m.str_of("object"), m.str_of("owned_by")), (Some("model"), Some("workbuddy")));
    }
    let nameless = list_models(None, &open, &Fetched::Document(doc("{}")));
    assert_eq!(written(&nameless), written(&reply));
}

#[test]
fn models_need_the_key_too() {
    let cfg = config("k", &[]);
    let refusal = (401, "{\"error\":{\"message\":\"invalid api key\"}}".to_string());
    match begin_models(None, &cfg) {
        ModelsAct::Refuse(reply) => assert_eq!(written(&reply), refusal),
        ModelsAct::Fetch => panic!("not refused"),
    }
    assert_eq!(written(&list_models(None, &cfg, &Fetched::Document(doc("[]")))), refusal);
    assert!(matches!(begin_models(Some("Bearer k"), &cfg), ModelsAct::Fetch));
    assert_eq!(list_models(Some("Bearer k"), &cfg, &Fetched::Document(doc("[]"))).status, 200);
}

#[test]
fn requests_are_received() {
    let wish = wish_of(&doc("{\"model\":\"m\",\"stream\":true}"));
    assert!(wish.stream && wish.model == "m");
    let plain = wish_of(&doc("{\"stream\":\"yes\"}"));
    assert!(!plain.stream && plain.model == "deepseek-v4-flash");
    let meta = chat_meta(&doc("{\"uid\":\"u\",\"nickname\":\"N\"}"), &wish);
    assert_eq!((meta.uid.as_str(), meta.nickname.as_str()), ("u", "N"));
    assert!(meta.stream && meta.model == "m");
    let stream = Wish { stream: true, model: String::new() };
    let whole = Wish { stream: false, model: String::new() };
    assert_eq!(route(200, &stream), Route::PassOn);
    assert_eq!(route(299, &whole), Route::Collect);
    assert_eq!(route(300, &stream), Route::ReadError);
    assert!(is_success(204) && !is_success(199));
    assert_eq!(stream_headers()[0], ("Content-Type", "text/event-stream; charset=utf-8"));
    assert_eq!(stream_headers().len(), 3);
}

fn verdict(act: ChatAct) -> (u16, bool, bool) {
    match act {
        ChatAct::Finish(v) => (v.reply.status, v.failed, !matches!(v.entry, Entry::Nothing)),
        _ => panic!("not over"),
    }
}

#[test]
fn unknown_clients_are_refused_at_once() {
    let (chat, act) = chat_completions(Some("Bearer x"), &config("k", &[]), doc("{}"));
    assert_eq!(chat.stage(), ChatStage::Over);
    match act {
        ChatAct::Refuse(reply) => assert_eq!(reply.status, 401),
        _ => panic!("not refused"),
    }
}

#[test]
fn chat_without_a_stream() {
    let incoming = doc("{\"model\":\"m\",\"n\":2}");
    let (mut chat, act) = chat_completions(Some("Bearer k"), &config("k", &[]), incoming);
    assert!(matches!(act, ChatAct::TakeAccount));
    let acc = doc("{\"uid\":\"u\",\"nickname\":\"N\"}");
    assert!(matches!(chat.next(ChatEvent::Account(Some(acc))), ChatAct::BuildClient));
    let meta = chat.meta();
    assert_eq!((meta.uid.as_str(), meta.nickname.as_str(), meta.model.as_str()), ("u", "N", "m"));
    match chat.next(ChatEvent::Client(Ok(()))) {
        ChatAct::Send(acc, body) => {
            assert_eq!(acc.str_of("uid"), Some("u"));
            assert_eq!(
                to_text(&body).unwrap(),
                "{\"messages\":[],\"model\":\"m\",\"stream\":true}"
            );
        }
        _ => panic!("nothing sent"),
    }
    match chat.next(ChatEvent::Sent(Ok(200))) {
        ChatAct::Collect(model) => assert_eq!(model, "m"),
        _ => panic!("not collected"),
    }
    let answer = doc("{\"usage\":{\"prompt_tokens\":1}}");
    assert_eq!(verdict(chat.next(ChatEvent::Collected(Ok(answer)))), (200, false, true));
    assert_eq!(chat.stage(), ChatStage::Over);
}

fn sent(stream: bool) -> wb_switch::proxy::chat::Chat {
    let incoming = doc(&format!("{{\"stream\":{stream}}}"));
    let (mut chat, _) = chat_completions(None, &config("", &[]), incoming);
    let _ = chat.next(ChatEvent::Account(Some(doc("{}"))));
    let _ = chat.next(ChatEvent::Client(Ok(())));
    chat
}

#[test]
fn other_ends_of_a_chat() {
    let (mut chat, _) = chat_completions(None, &config("", &[]), doc("{}"));
    assert_eq!(verdict(chat.next(ChatEvent::Account(None))), (503, false, false));
    let (mut chat, _) = chat_completions(None, &config("", &[]), doc("{}"));
    let _ = chat.next(ChatEvent::Account(Some(doc("{}"))));
    let broken = ChatEvent::Client(Err("tls".to_string()));
    assert_eq!(verdict(chat.next(broken)), (500, false, true));
    let lost = ChatEvent::Sent(Err("dns".to_string()));
    assert_eq!(verdict(sent(false).next(lost)), (502, true, true));
    let mut refused = sent(true);
    assert!(matches!(refused.next(ChatEvent::Sent(Ok(429))), ChatAct::ReadText));
    let text = ChatEvent::ErrorText("slow".to_string());
    assert_eq!(verdict(refused.next(text)), (429, true, true));
    assert!(matches!(sent(true).next(ChatEvent::Sent(Ok(200))), ChatAct::PassOn));
    let mut cut = sent(false);
    let _ = cut.next(ChatEvent::Sent(Ok(200)));
    let end = ChatEvent::Collected(Err("cut".to_string()));
    assert_eq!(verdict(cut.next(end)), (502, false, true));
}

#[test]
fn streams_are_entered_when_they_end() {
    let mut pump = Pump::new();
    pump.feed_text("data: {\"usage\":{\"prompt_tokens\":8}}\n\n");
    assert!(matches!(conclude_stream(&pump, StreamEnd::Broken), Entry::Failure));
    for end in [StreamEnd::Ended, StreamEnd::Left] {
        match conclude_stream(&pump, end) {
            Entry::Success(Some(u)) => assert_eq!(u.int_of("prompt_tokens"), Some(8)),
            _ => panic!("no usage"),
        }
        assert!(matches!(conclude_stream(&Pump::new(), end), Entry::Success(None)));
    }
}

#[test]
fn what_becomes_of_a_request() {
    let v = conclude(&Outcome::NoAccount);
    assert_eq!(
        written(&v.reply),
        (
            503,
            "{\"error\":{\"message\":\"no available account (all cooling down or needs relogin)\"}}"
                .to_string()
        )
    );
    assert!(!v.failed && matches!(v.entry, Entry::Nothing));
    let v = conclude(&Outcome::NoClient("c".to_string()));
    assert_eq!(written(&v.reply), (500, "text:c".to_string()));
    assert!(!v.failed && matches!(v.entry, Entry::Failure));
    let v = conclude(&Outcome::Unreachable("dns".to_string()));
    assert_eq!(written(&v.reply), (502, "text:dns".to_string()));
    assert!(v.failed && matches!(v.entry, Entry::Failure));
    let v = conclude(&Outcome::Refused(429, "slow".to_string()));
    assert_eq!(
        written(&v.reply),
        (429, "{\"error\":{\"message\":\"slow\",\"type\":\"upstream_error\"}}".to_string())
    );
    assert!(v.failed && matches!(v.entry, Entry::Failure));
    assert_eq!(conclude(&Outcome::Refused(7, String::new())).reply.status, 502);
    let v = conclude(&Outcome::Answered(doc("{\"usage\":{\"prompt_tokens\":1}}")));
    assert_eq!(v.reply.status, 200);
    match v.entry {
        Entry::Success(Some(u)) => assert_eq!(u.int_of("prompt_tokens"), Some(1)),
        _ => panic!("no usage"),
    }
    assert!(!v.failed);
    let v = conclude(&Outcome::Broken("cut".to_string()));
    assert_eq!(written(&v.reply), (502, "text:cut".to_string()));
    assert!(!v.failed && matches!(v.entry, Entry::Failure));
}

#[test]
fn starting_and_stopping() {
    let mut s = Server::new();
    let cfg = config("", &[]);
    assert!(!proxy_running(&s));
    assert!(start_proxy_server(&s, &cfg, true).is_ok());
    assert_eq!(start_proxy_server(&s, &cfg, false).err().unwrap(), "监听地址无效: 127.0.0.1:1");
    assert!(conclude_start(&mut s, &Start::Ready).is_ok());
    assert!(proxy_running(&s));
    assert_eq!(start_proxy_server(&s, &cfg, true).err().unwrap(), "反代已经在运行");
    note_end(&mut s);
    assert!(!proxy_running(&s));
    assert!(stop_proxy_server(&mut s));
    assert!(!stop_proxy_server(&mut s));
    assert!(conclude_start(&mut s, &Start::Silent).is_ok());
    assert!(proxy_running(&s));
    assert_eq!(conclude_start(&mut s, &Start::Refused("busy".to_string())).err().unwrap(), "busy");
    assert!(!proxy_running(&s));
    assert_eq!(
        conclude_start(&mut s, &Start::NoThread("x".to_string())).err().unwrap(),
        "无法启动反代线程: x"
    );
    assert_eq!(
        conclude_start(&mut s, &Start::NoRuntime("x".to_string())).err().unwrap(),
        "创建运行时失败: x"
    );
    assert_eq!((MAX_REQUEST_BODY, START_WAIT_SECS), (64 * 1024 * 1024, 5));
}

#[test]
fn listening_gateway_is_signalled_when_it_is_stopped() {
    let mut s = Server::new();
    assert!(!stop_proxy_server(&mut s));
    for start in [Start::Ready, Start::Silent] {
        let _ = conclude_start(&mut s, &start);
        assert!(proxy_running(&s));
        assert!(stop_proxy_server(&mut s));
        assert!(!proxy_running(&s));
        assert!(!stop_proxy_server(&mut s));
        assert!(!proxy_running(&s));
    }
}

#[test]
fn restarting() {
    let mut s = Server::new();
    let mut cfg = config("", &[]);
    let _ = conclude_start(&mut s, &Start::Ready);
    assert!(matches!(restart_proxy_server(&mut s, &cfg, true), (true, Restart::Go)));
    assert!(!proxy_running(&s));
    match restart_proxy_server(&mut s, &cfg, false) {
        (false, Restart::Refused(e)) => assert_eq!(e, "监听地址无效: 127.0.0.1:1"),
        _ => panic!("not refused"),
    }
    cfg.enabled = false;
    assert!(matches!(restart_proxy_server(&mut s, &cfg, true), (false, Restart::Stopped)));
    assert!(!spawn_from_config(&cfg));
}

#[test]
fn running_needs_an_address_and_accounts() {
    let cfg = config("", &[]);
    let uids = vec!["a".to_string()];
    assert!(run_proxy_server(&cfg, true, &uids).is_ok());
    assert_eq!(
        run_proxy_server(&cfg, false, &vec![]).err().unwrap(),
        "监听地址无效: 127.0.0.1:1"
    );
    assert_eq!(
        run_proxy_server(&cfg, true, &vec![]).err().unwrap(),
        "没有可用账号：账号库为空或全部 needs_relogin"
    );
    assert_eq!(bind_failure("a:1", "in use"), "监听 a:1 失败: in use");
}
