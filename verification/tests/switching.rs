use wb_switch::edition::Edition;
use wb_switch::json::{parse, to_text, Json};
use wb_switch::switch::{
    switch_account, switch_account_in_edition, Act, Event, Request, Stage, Step, Switch,
};

fn account(edition: &str) -> (Json, String) {
    let doc = format!("{{\"uid\": \"u-9\", \"edition\": \"{edition}\"}}");
    (parse(&doc).unwrap(), "Ann".to_string())
}

fn request(edition: Edition, restart: bool, share: bool, copy: bool) -> Request {
    let ids = if copy { vec!["s-1".to_string()] } else { vec![] };
    Request {
        account_id: "a-1".to_string(),
        restart,
        share_sessions: share,
        copy_session_ids: ids,
        edition,
    }
}

fn up_to_probe(r: Request, name: &str, capable: bool) -> (Switch, Step) {
    let (mut s, first) = switch_account_in_edition(r);
    assert_eq!(first.progress, vec!["开始切换账号…"]);
    assert!(matches!(first.act, Act::Find(ref id) if id == "a-1"));
    let step = s.next(Event::Account(Some(account(name))));
    assert!(matches!(step.act, Act::Save));
    let step = s.next(Event::Saved(Some("b.info".to_string())));
    assert!(matches!(step.act, Act::Probe));
    let step = s.next(Event::Probed(capable));
    (s, step)
}

fn failure(step: Step) -> String {
    match step.act {
        Act::Fail(m) => m,
        _ => panic!("no failure"),
    }
}

#[test]
fn whole_switch_of_the_domestic_edition() {
    let (mut s, step) = up_to_probe(request(Edition::Domestic, true, true, true), "domestic", true);
    assert_eq!(step.progress, vec!["正在关闭 WorkBuddy…"]);
    assert!(matches!(step.act, Act::Close));
    let step = s.next(Event::Closed(Ok(())));
    assert_eq!(step.progress, vec!["正在把会话设为多账号共享…"]);
    assert!(matches!(step.act, Act::Share));
    let step = s.next(Event::Shared(Ok(parse("{\"shared\": 2}").unwrap())));
    assert_eq!(step.progress, vec!["正在复制会话到目标账号…"]);
    match step.act {
        Act::Copy(acc, ids) => {
            assert_eq!(acc.str_of("uid"), Some("u-9"));
            assert_eq!(ids, vec!["s-1".to_string()]);
        }
        _ => panic!("no copy"),
    }
    let step = s.next(Event::Copied(Some(parse("{\"copied\": []}").unwrap())));
    assert_eq!(step.progress, vec!["正在写入认证文件…"]);
    assert!(matches!(step.act, Act::Write(_)));
    let step = s.next(Event::Written(Ok(())));
    assert!(matches!(step.act, Act::Note(ref u, ref n) if u == "u-9" && n == "Ann"));
    let step = s.next(Event::Noted(Ok(true)));
    assert_eq!(step.progress, vec!["已同步客户端账号快照", "正在启动客户端…"]);
    assert!(matches!(step.act, Act::Launch));
    let step = s.next(Event::Launched(Ok(())));
    assert_eq!(step.progress, vec!["切换完成"]);
    assert_eq!(s.stage(), Stage::Over);
    match step.act {
        Act::Finish(doc) => assert_eq!(
            to_text(&doc).unwrap(),
            "{\"account\":\"Ann\",\"backup\":\"b.info\",\"edition\":\"domestic\",\"ok\":true,\
             \"sessionCopy\":{\"copied\":[]},\"sessionShare\":{\"shared\":2}}"
        ),
        _ => panic!("not finished"),
    }
}

#[test]
fn sessions_are_skipped_where_there_are_none() {
    let r = request(Edition::International, true, true, true);
    let (mut s, step) = up_to_probe(r, "international", false);
    assert_eq!(step.progress, vec!["正在关闭 WorkBuddyAI…"]);
    let step = s.next(Event::Closed(Ok(())));
    assert_eq!(
        step.progress,
        vec![
            "该版本没有可用的会话库，已跳过会话共享",
            "该版本没有可用的会话库，已跳过会话复制",
            "正在写入认证文件…"
        ]
    );
    assert!(matches!(step.act, Act::Write(_)));
}

#[test]
fn messages_of_a_whole_switch_come_in_order() {
    let r = request(Edition::International, true, true, true);
    let (mut s, step) = up_to_probe(r, "international", true);
    let mut told = step.progress;
    told.extend(s.next(Event::Closed(Ok(()))).progress);
    told.extend(s.next(Event::Shared(Ok(Json::Null))).progress);
    told.extend(s.next(Event::Copied(None)).progress);
    told.extend(s.next(Event::Written(Ok(()))).progress);
    told.extend(s.next(Event::Noted(Ok(false))).progress);
    told.extend(s.next(Event::Launched(Ok(()))).progress);
    assert_eq!(
        told,
        vec![
            "正在关闭 WorkBuddyAI…",
            "正在把会话设为多账号共享…",
            "正在复制会话到目标账号…",
            "正在写入认证文件…",
            "正在启动客户端…",
            "切换完成"
        ]
    );
}

#[test]
fn copying_alone_is_not_sharing() {
    let (mut s, _) = up_to_probe(request(Edition::Domestic, true, false, true), "domestic", true);
    assert!(matches!(s.next(Event::Closed(Ok(()))).act, Act::Copy(_, _)));
    assert!(matches!(s.next(Event::Copied(None)).act, Act::Write(_)));
}

#[test]
fn sessions_stay_untouched_without_a_restart() {
    let r = request(Edition::Domestic, false, true, true);
    let (mut s, step) = up_to_probe(r, "domestic", true);
    assert!(matches!(step.act, Act::Write(_)));
    let _ = s.next(Event::Written(Ok(())));
    let step = s.next(Event::Noted(Ok(false)));
    match step.act {
        Act::Finish(doc) => {
            assert!(doc.get("sessionCopy").is_none() && doc.get("sessionShare").is_none());
            assert_eq!(doc.flag_of("ok"), Some(true));
        }
        _ => panic!("not finished"),
    }
    assert_eq!(step.progress, vec!["切换完成"]);
}

#[test]
fn failed_sharing_is_reported_and_the_switch_goes_on() {
    let (mut s, _) = up_to_probe(request(Edition::Domestic, true, true, false), "domestic", true);
    let step = s.next(Event::Closed(Ok(())));
    assert!(matches!(step.act, Act::Share));
    let step = s.next(Event::Shared(Err("locked".to_string())));
    assert!(matches!(step.act, Act::Write(_)));
    let _ = s.next(Event::Written(Ok(())));
    let _ = s.next(Event::Noted(Err("denied".to_string())));
    match s.next(Event::Launched(Ok(()))).act {
        Act::Finish(doc) => {
            let share = doc.get("sessionShare").unwrap();
            assert_eq!(share.str_of("error"), Some("locked"));
        }
        _ => panic!("not finished"),
    }
}

#[test]
fn failures_end_the_switch() {
    let (mut s, _) = switch_account("x", true, false, &vec![]);
    assert_eq!(failure(s.next(Event::Account(None))), "账号不存在: x");
    assert_eq!(s.stage(), Stage::Over);
    let (mut s, _) = switch_account("x", true, false, &vec![]);
    assert_eq!(
        failure(s.next(Event::Account(Some(account("international"))))),
        "该账号属于「国际版」，不能切到「国内版」客户端"
    );
    let (mut s, _) = up_to_probe(request(Edition::Domestic, true, false, false), "domestic", true);
    assert_eq!(failure(s.next(Event::Closed(Err("stuck".to_string())))), "stuck");
    let (mut s, _) = up_to_probe(request(Edition::Domestic, false, false, false), "domestic", true);
    assert_eq!(failure(s.next(Event::Written(Err("full".to_string())))), "full");
    let (mut s, _) = up_to_probe(request(Edition::Domestic, true, false, false), "domestic", true);
    let _ = s.next(Event::Closed(Ok(())));
    let _ = s.next(Event::Written(Ok(())));
    let _ = s.next(Event::Noted(Ok(false)));
    assert_eq!(failure(s.next(Event::Launched(Err("none".to_string())))), "none");
}

#[test]
fn running_international_client_is_in_the_way() {
    let r = request(Edition::International, false, false, false);
    let (mut s, step) = up_to_probe(r, "ai", true);
    assert!(matches!(step.act, Act::Check));
    assert_eq!(
        failure(s.next(Event::Running(true))),
        "WorkBuddyAI 正在运行，请先完全退出后再切换"
    );
    let r = request(Edition::International, false, false, false);
    let (mut s, _) = up_to_probe(r, "ai", true);
    assert!(matches!(s.next(Event::Running(false)).act, Act::Write(_)));
}
