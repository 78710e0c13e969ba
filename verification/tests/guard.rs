use std::time::Duration;
use wb_switch::path::LocalPath;
use wb_switch::webview_guard::{
    another_instance_running, aside_name, conclude_reset, cooldown_active, instance_query_args,
    kill_orphan_webviews, mark_ready, orphan_script, preflight, profile_dir, request_show,
    settle_ms, state_dir, state_file, take_show_request, write_marker, Phase, Reset, Watch,
    WatchAct, COOLDOWN, COOLDOWN_SECS, FIRST_WAIT, MARKER, POLL_MS, SECOND_WAIT, SHOW_REQUEST,
};

fn shown(p: Option<LocalPath>) -> String {
    match p {
        Some(p) => {
            let mut s = p.base.clone();
            for part in &p.parts {
                s.push('|');
                s.push_str(part);
            }
            s
        }
        None => "none".to_string(),
    }
}

#[test]
fn cooldown_secs_is_not_zero() {
    assert!(COOLDOWN_SECS >= 60);
}

#[test]
fn first_wait_is_generous_enough_for_cold_start() {
    assert!(Duration::from_secs(FIRST_WAIT) >= Duration::from_secs(8));
}

#[test]
fn files_of_the_guard() {
    assert_eq!((MARKER, COOLDOWN, SHOW_REQUEST), (".webview-broken", ".webview-reset-at", ".show-request"));
    assert_eq!(shown(state_dir("com.x", Some("L"))), "L|com.x");
    assert_eq!(shown(state_dir("com.x", None)), "none");
    assert_eq!(shown(profile_dir("com.x", Some("L"))), "L|com.x|EBWebView");
    assert_eq!(shown(state_file("com.x", Some("L"), MARKER)), "L|com.x|.webview-broken");
    assert_eq!(shown(mark_ready(Some("com.x"), Some("L"))), "L|com.x|.webview-broken");
    assert_eq!(shown(mark_ready(None, Some("L"))), "none");
    assert_eq!(shown(mark_ready(Some("com.x"), None)), "none");
}

#[test]
fn marker_is_kept_until_the_profile_is_gone() {
    assert_eq!(preflight(false, true), Reset::Leave);
    assert_eq!(preflight(true, true), Reset::Move);
    assert_eq!(preflight(true, false), Reset::Absent);
    assert_eq!(conclude_reset(Reset::Leave, true, 7), None);
    assert_eq!(conclude_reset(Reset::Move, false, 7), None);
    assert_eq!(conclude_reset(Reset::Move, true, 1700000000), Some("1700000000".to_string()));
    assert_eq!(conclude_reset(Reset::Absent, false, 0), Some("0".to_string()));
    assert_eq!(aside_name(1790000000), "EBWebView-broken-1790000000");
    assert_eq!((settle_ms(0), settle_ms(2)), (0, 600));
    assert_eq!((write_marker(12), request_show(340)), ("12".to_string(), "340".to_string()));
}

#[test]
fn cooldown_lasts_as_long_as_set() {
    assert!(cooldown_active(Some("1000"), 1000));
    assert!(cooldown_active(Some(" 1000\n"), 1599));
    assert!(!cooldown_active(Some("1000"), 1600));
    assert!(cooldown_active(Some("2000"), 1000));
    assert!(!cooldown_active(Some("soon"), 1000));
    assert!(!cooldown_active(Some(""), 1000));
    assert!(!cooldown_active(None, 1000));
    let noted = conclude_reset(Reset::Move, true, 5000).unwrap();
    assert!(cooldown_active(Some(noted.as_str()), 5599));
    assert!(!cooldown_active(Some(noted.as_str()), 5600));
}

#[test]
fn orphans_are_counted() {
    assert_eq!(kill_orphan_webviews(Some(b"12\r\n 345 \r\nabc -1 4294967296 +7")), 3);
    assert_eq!(kill_orphan_webviews(Some(b"")), 0);
    assert_eq!(kill_orphan_webviews(None), 0);
    assert_eq!(
        orphan_script("com.x"),
        "Get-CimInstance Win32_Process -Filter \"Name='msedgewebview2.exe'\" | \
         Where-Object { \
            \"$($_.CommandLine)\" -like '*com.x*' -and \
            -not (Get-Process -Id $_.ParentProcessId -ErrorAction SilentlyContinue) \
         } | \
         ForEach-Object { Stop-Process -Id $_.ProcessId -Force -ErrorAction SilentlyContinue; \
         Write-Output $_.ProcessId }"
    );
}

#[test]
fn other_instances_are_told_from_this_one() {
    let mine = b"\"wb-switch-rust.exe\",\"42\",\"Console\",\"1\",\"9 K\"\r\n";
    assert!(!another_instance_running(Some(mine), 42));
    assert!(another_instance_running(Some(mine), 4));
    let two = b"\"wb-switch-rust.exe\",\"42\"\r\n\"wb-switch-rust.exe\",\"43\"";
    assert!(another_instance_running(Some(two), 42));
    assert!(!another_instance_running(Some(b"INFO: No tasks"), 42));
    assert!(another_instance_running(Some(b"wb-switch-rust.exe"), 42));
    assert!(!another_instance_running(None, 42));
    assert_eq!(
        instance_query_args(),
        vec!["/FI", "IMAGENAME eq wb-switch-rust.exe", "/NH", "/FO", "CSV"]
    );
    assert!(take_show_request(true) && !take_show_request(false));
}

#[test]
fn watch_reloads_then_restarts() {
    let mut w = Watch::new();
    let mut waits = 0;
    while w.look(false, false) == WatchAct::Wait {
        waits += 1;
    }
    assert_eq!(waits * POLL_MS, FIRST_WAIT * 1000);
    assert_eq!(w.phase, Phase::Second);
    let mut again = w;
    waits = 0;
    let end = loop {
        match w.look(false, false) {
            WatchAct::Wait => waits += 1,
            act => break act,
        }
    };
    assert_eq!(waits * POLL_MS, SECOND_WAIT * 1000);
    assert_eq!(end, WatchAct::Restart);
    assert_eq!(again.look(true, false), WatchAct::Recovered);
    assert_eq!(again.look(true, false), WatchAct::LookForRequests);
}

#[test]
fn watch_gives_up_after_a_recent_reset() {
    let mut w = Watch { phase: Phase::Second, waited: 15000 };
    assert_eq!(w.look(false, true), WatchAct::GiveUp);
    assert_eq!(w.phase, Phase::Resident);
    let mut up = Watch::new();
    assert_eq!(up.look(true, false), WatchAct::Ready);
    assert_eq!(up.phase, Phase::Resident);
}
