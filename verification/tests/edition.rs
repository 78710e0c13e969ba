use wb_switch::edition::{edition_of, parse_lenient, Edition, Platform};
use wb_switch::json::parse;
use wb_switch::path::LocalPath;

fn shown(p: &LocalPath) -> String {
    let mut s = p.base.clone();
    for part in &p.parts {
        s.push('|');
        s.push_str(part);
    }
    s
}

#[test]
fn file_names_match_measured_values() {
    assert_eq!(Edition::Domestic.auth_file_name(), "workbuddy-desktop.info");
    assert_eq!(Edition::International.auth_file_name(), "workbuddy-desktop-ai.info");
}

#[test]
fn data_dirs_and_processes_are_distinct() {
    assert_ne!(Edition::Domestic.data_dir_name(), Edition::International.data_dir_name());
    assert_ne!(Edition::Domestic.process_name(), Edition::International.process_name());
    assert_eq!(Edition::International.api_domain(), "www.workbuddy.ai");
}

#[test]
fn parse_lenient_defaults_to_domestic() {
    assert_eq!(parse_lenient("international"), Edition::International);
    assert_eq!(parse_lenient("国际版"), Edition::International);
    assert_eq!(parse_lenient("intl"), Edition::International);
    assert_eq!(parse_lenient("domestic"), Edition::Domestic);
    assert_eq!(parse_lenient(""), Edition::Domestic);
    assert_eq!(parse_lenient("随便什么"), Edition::Domestic);
}

#[test]
fn parse_lenient_ignores_case_and_space() {
    assert_eq!(parse_lenient("  AI\n"), Edition::International);
    assert_eq!(parse_lenient("Global"), Edition::International);
    assert_eq!(parse_lenient("WorkBuddyAI"), Edition::International);
    assert_eq!(parse_lenient("workbuddy-ai"), Edition::International);
    assert_eq!(parse_lenient("国际"), Edition::International);
    assert_eq!(parse_lenient("cn"), Edition::Domestic);
    assert_eq!(parse_lenient("国内版"), Edition::Domestic);
}

#[test]
fn edition_of_reads_json_field() {
    let stated = parse("{\"edition\": \"international\"}").unwrap();
    assert_eq!(edition_of(&stated), Edition::International);
    let empty = parse("{}").unwrap();
    assert_eq!(edition_of(&empty), Edition::Domestic);
}

#[test]
fn stated_edition_counts_before_the_domain() {
    let both = parse("{\"variant\": \"cn\", \"edition\": \"ai\", \"domain\": \"www.workbuddy.ai\"}");
    assert_eq!(edition_of(&both.unwrap()), Edition::Domestic);
    let blank = parse("{\"variant\": \"  \", \"edition\": \"ai\"}");
    assert_eq!(edition_of(&blank.unwrap()), Edition::International);
    let number = parse("{\"variant\": 7, \"domain\": \" WWW.WorkBuddy.AI \"}");
    assert_eq!(edition_of(&number.unwrap()), Edition::International);
    let similar = parse("{\"domain\": \"www.workbuddy.ai.evil.com\"}");
    assert_eq!(edition_of(&similar.unwrap()), Edition::Domestic);
}

#[test]
fn default_edition_is_domestic() {
    assert_eq!(Edition::default(), Edition::Domestic);
    assert_eq!(Edition::ALL, [Edition::Domestic, Edition::International]);
    assert_eq!(Edition::AI_DOMAIN_SUFFIX, ".workbuddy.ai");
}

#[test]
fn names_of_the_editions() {
    let d = Edition::Domestic;
    let i = Edition::International;
    assert_eq!((d.key(), i.key()), ("domestic", "international"));
    assert_eq!((d.label(), i.label()), ("国内版", "国际版"));
    assert_eq!((d.data_dir_name(), i.data_dir_name()), (".workbuddy", ".workbuddy-ai"));
    assert_eq!((d.process_name(), i.process_name()), ("WorkBuddy", "WorkBuddyAI"));
    assert_eq!(d.api_domain(), "www.codebuddy.cn");
    assert_eq!(d.api_endpoint(), "https://www.codebuddy.cn");
    assert_eq!(i.api_endpoint(), "https://www.workbuddy.ai");
    assert_eq!((d.api_prefix(), i.api_prefix()), ("/v2/plugin", "/v2/plugin"));
    assert_eq!((d.oauth_platform(), i.oauth_platform()), ("workbuddy", "workbuddy-ai"));
    assert_eq!(d.codebuddy_domain(), "www.codebuddy.cn");
    assert_eq!(i.codebuddy_domain(), "www.codebuddy.ai");
    assert_eq!(d.backup_prefix(), "workbuddy-desktop");
    assert_eq!(i.backup_prefix(), "workbuddy-desktop-ai");
    assert!(d.supports_checkin() && !i.supports_checkin());
    assert!(d.supports_travel() && !i.supports_travel());
}

#[test]
fn stored_name_stands_for_its_edition() {
    for e in Edition::ALL {
        assert_eq!(parse_lenient(e.key()), e);
        assert!(e.matches_domain(e.api_domain()));
    }
}

#[test]
fn domain_belongs_to_one_of_the_editions() {
    assert!(Edition::International.matches_domain("x.WORKBUDDY.ai"));
    assert!(!Edition::Domestic.matches_domain("x.workbuddy.ai"));
    assert!(Edition::Domestic.matches_domain("www.codebuddy.cn"));
    assert!(!Edition::International.matches_domain("workbuddy.ai"));
    assert!(Edition::Domestic.matches_domain("  ") && Edition::International.matches_domain(""));
}

#[test]
fn billing_paths_of_the_editions() {
    assert_eq!(Edition::Domestic.billing_paths("/v2/x"), vec!["/v2/x".to_string()]);
    assert_eq!(
        Edition::International.billing_paths("/v2/x"),
        vec!["/billing/meter/x".to_string(), "/v2/billing/meter/x".to_string()]
    );
    assert_eq!(
        Edition::International.billing_paths("/other"),
        vec!["/other".to_string(), "/v2/other".to_string()]
    );
}

#[test]
fn paths_of_the_editions() {
    let i = Edition::International;
    assert_eq!(shown(&i.data_dir("/home/u")), "/home/u|.workbuddy-ai");
    assert_eq!(
        shown(&i.auth_file_path("/h", Platform::Other)),
        "/h|.local/share/CodeBuddyExtension/Data/Public/auth|workbuddy-desktop-ai.info"
    );
    assert_eq!(
        shown(&Edition::Domestic.auth_file_path("/h", Platform::MacOs)),
        "/h|Library/Application Support/CodeBuddyExtension/Data/Public/auth|workbuddy-desktop.info"
    );
    assert_eq!(
        shown(&i.auth_file_path("/h", Platform::Windows)),
        "/h|AppData/Local/CodeBuddyExtension/Data/Public/auth|workbuddy-desktop-ai.info"
    );
    assert_eq!(
        shown(&i.account_snapshot_path("/h")),
        "/h|.workbuddy-ai|storage|skeleton|account-snapshot.json"
    );
}

#[test]
fn install_directories() {
    let with = Edition::Domestic.install_parent_dirs(Some("L"));
    assert_eq!(with.len(), 11);
    assert_eq!(shown(&with[0]), "L|Programs");
    assert_eq!(shown(&with[1]), "C:/AdobeAll");
    assert_eq!(shown(&with[10]), "G:/");
    let without = Edition::Domestic.install_parent_dirs(None);
    assert_eq!(without.len(), 10);
    assert_eq!(shown(&without[1]), "C:/");
}
