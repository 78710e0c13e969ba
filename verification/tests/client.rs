use wb_switch::client_ctl::{
    candidate_exes, close, exe_name, find_client_exe, is_running, kill_args, launch, launch_failure,
    lists_process, query_args, CloseAct, Closing, Drives,
};
use wb_switch::edition::Edition;
use wb_switch::path::{first_found, LocalPath};

fn shown(p: &LocalPath) -> String {
    let mut s = p.base.clone();
    for part in &p.parts {
        s.push('|');
        s.push_str(part);
    }
    s
}

#[test]
fn exe_names_are_distinct_and_exact() {
    assert_eq!(exe_name(Edition::Domestic), "WorkBuddy.exe");
    assert_eq!(exe_name(Edition::International), "WorkBuddyAI.exe");
    assert!(!exe_name(Edition::International).contains(exe_name(Edition::Domestic)));
}

#[test]
fn find_client_exe_returns_exe_or_none() {
    let drives = Drives { c: true, d: true, e: true, f: true, g: true };
    for e in Edition::ALL {
        let candidates = candidate_exes(e, Some("L"), &drives);
        for i in 0..candidates.len() {
            let files: Vec<bool> = (0..candidates.len()).map(|k| k >= i).collect();
            let p = find_client_exe(&candidates, &files).unwrap();
            assert_eq!(shown(&p), shown(&candidates[i]));
            assert_eq!(
                p.parts.last().unwrap().to_ascii_lowercase(),
                exe_name(e).to_ascii_lowercase()
            );
        }
        let none = vec![false; candidates.len()];
        assert!(find_client_exe(&candidates, &none).is_none());
    }
}

#[test]
fn candidates_come_in_order() {
    let drives = Drives { c: false, d: false, e: false, f: true, g: false };
    let with = candidate_exes(Edition::International, Some("L"), &drives);
    let all: Vec<String> = with.iter().map(|p| shown(p)).collect();
    assert_eq!(
        all,
        vec![
            "L|Programs|WorkBuddyAI|WorkBuddyAI.exe".to_string(),
            "L|WorkBuddyAI|WorkBuddyAI.exe".to_string(),
            "F:\\|AdobeAll|WorkBuddyAI|WorkBuddyAI.exe".to_string(),
            "F:\\|WorkBuddyAI|WorkBuddyAI.exe".to_string(),
        ]
    );
    assert_eq!(candidate_exes(Edition::Domestic, None, &drives).len(), 2);
}

#[test]
fn first_found_is_the_first() {
    assert_eq!(first_found(&vec![false, true, true]), Some(1));
    assert_eq!(first_found(&vec![]), None);
}

#[test]
fn is_running_does_not_panic() {
    for e in Edition::ALL {
        let _ = is_running(e, None);
        let _ = is_running(e, Some(b""));
    }
}

#[test]
fn is_running_compares_whole_names() {
    let out = b"\"workbuddyAI.exe\",\"1234\",\"Console\"\r\n";
    assert!(is_running(Edition::International, Some(out)));
    assert!(!is_running(Edition::Domestic, Some(out)));
    assert!(!is_running(Edition::Domestic, None));
    let broken = b"\xff\n\"WorkBuddy.exe\",\"1\"";
    assert!(is_running(Edition::Domestic, Some(broken)));
    assert!(!lists_process("INFO: No tasks are running", "WorkBuddy.exe"));
    assert!(lists_process("WorkBuddy.exe", "WORKBUDDY.EXE"));
}

#[test]
fn arguments_of_the_system_calls() {
    assert_eq!(
        query_args(Edition::Domestic),
        vec!["/FI", "IMAGENAME eq WorkBuddy.exe", "/FO", "CSV", "/NH"]
    );
    assert_eq!(kill_args(Edition::International, false), vec!["/IM", "WorkBuddyAI.exe", "/T"]);
    assert_eq!(kill_args(Edition::Domestic, true), vec!["/IM", "WorkBuddy.exe", "/T", "/F"]);
}

#[test]
fn closing_asks_then_forces_then_fails() {
    let e = Edition::International;
    assert!(matches!(close(e, Closing::Begun, false, false), (Closing::Begun, CloseAct::Closed)));
    assert!(matches!(close(e, Closing::Begun, true, false), (Closing::Asked, CloseAct::Ask)));
    assert!(matches!(close(e, Closing::Asked, true, false), (Closing::Asked, CloseAct::Wait)));
    assert!(matches!(close(e, Closing::Asked, false, true), (Closing::Asked, CloseAct::Closed)));
    assert!(matches!(close(e, Closing::Asked, true, true), (Closing::Forced, CloseAct::Force)));
    assert!(matches!(close(e, Closing::Forced, true, false), (Closing::Forced, CloseAct::Wait)));
    match close(e, Closing::Forced, true, true) {
        (_, CloseAct::Failed(m)) => {
            assert_eq!(m, "无法关闭 WorkBuddyAI，请手动完全退出后重试")
        }
        _ => panic!("not closed"),
    }
}

#[test]
fn launching_needs_a_program() {
    let missing = launch(Edition::Domestic, None);
    assert_eq!(
        missing.err().unwrap(),
        "未找到 WorkBuddy 程序。请先手动打开一次，或确认已安装。"
    );
    let there = launch(Edition::Domestic, Some(LocalPath::at("x")));
    assert_eq!(there.ok().unwrap().base, "x");
    assert_eq!(launch_failure("p", "denied"), "启动 p 失败: denied");
}
