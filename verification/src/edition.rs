//! The editions of the client, and what differs between them.

use vstd::prelude::*;

use crate::json::{Json, Tree};
use crate::path::{place_at, LocalPath, Place};
use crate::text::{
    begins_with, chars_between, chars_of, ends_with, has_prefix, has_suffix, joined,
    lemma_trim_same, lower, lowered, opt_str, same_chars, string_of, texts, trim, trimmed_chars,
    Class,
};

verus! {

/// An edition of the client.
#[derive(Clone, Copy, Debug, PartialEq, Eq, Structural)]
pub enum Edition {
    /// The edition for mainland China.
    Domestic,
    /// The edition for everywhere else.
    International,
}

impl Default for Edition {
    fn default() -> (r: Edition)
        ensures
            r == Edition::Domestic,
    {
        Edition::Domestic
    }
}

/// The kinds of systems that keep the files of the client in different directories.
#[derive(Clone, Copy, Debug, PartialEq, Eq, Structural)]
pub enum Platform {
    MacOs,
    Windows,
    Other,
}

impl Edition {
    /// All editions.
    pub const ALL: [Edition; 2] = [Edition::Domestic, Edition::International];

    /// The end of the domains of the international edition. A domain that only looks
    /// similar, such as `www.workbuddy.ai.example.com`, ends otherwise.
    pub const AI_DOMAIN_SUFFIX: &'static str = ".workbuddy.ai";

    /// The stable name that is stored with accounts.
    pub open spec fn key_text(self) -> Seq<char> {
        match self {
            Edition::Domestic => "domestic"@,
            Edition::International => "international"@,
        }
    }

    /// The name that users see.
    pub open spec fn label_text(self) -> Seq<char> {
        match self {
            Edition::Domestic => "国内版"@,
            Edition::International => "国际版"@,
        }
    }

    /// The name of the client's own login file.
    pub open spec fn auth_file_text(self) -> Seq<char> {
        match self {
            Edition::Domestic => "workbuddy-desktop.info"@,
            Edition::International => "workbuddy-desktop-ai.info"@,
        }
    }

    /// The name of the client's data directory, in the home directory.
    pub open spec fn data_dir_text(self) -> Seq<char> {
        match self {
            Edition::Domestic => ".workbuddy"@,
            Edition::International => ".workbuddy-ai"@,
        }
    }

    /// The name of the client's process, without an extension.
    pub open spec fn process_text(self) -> Seq<char> {
        match self {
            Edition::Domestic => "WorkBuddy"@,
            Edition::International => "WorkBuddyAI"@,
        }
    }

    /// The domain of the interface.
    pub open spec fn api_domain_text(self) -> Seq<char> {
        match self {
            Edition::Domestic => "www.codebuddy.cn"@,
            Edition::International => "www.workbuddy.ai"@,
        }
    }

    /// The base of the addresses of the interface.
    pub open spec fn api_endpoint_text(self) -> Seq<char> {
        match self {
            Edition::Domestic => "https://www.codebuddy.cn"@,
            Edition::International => "https://www.workbuddy.ai"@,
        }
    }

    /// The `platform` of a login.
    pub open spec fn oauth_platform_text(self) -> Seq<char> {
        match self {
            Edition::Domestic => "workbuddy"@,
            Edition::International => "workbuddy-ai"@,
        }
    }

    /// The first part of the names of backups of the login file.
    pub open spec fn backup_text(self) -> Seq<char> {
        match self {
            Edition::Domestic => "workbuddy-desktop"@,
            Edition::International => "workbuddy-desktop-ai"@,
        }
    }

    /// The stable name that is stored with accounts.
    pub fn key(self) -> (r: &'static str)
        ensures
            r@ == self.key_text(),
    {
        match self {
            Edition::Domestic => "domestic",
            Edition::International => "international",
        }
    }

    /// The name that users see.
    pub fn label(self) -> (r: &'static str)
        ensures
            r@ == self.label_text(),
    {
        match self {
            Edition::Domestic => "国内版",
            Edition::International => "国际版",
        }
    }

    /// The name of the client's own login file.
    pub fn auth_file_name(self) -> (r: &'static str)
        ensures
            r@ == self.auth_file_text(),
    {
        match self {
            Edition::Domestic => "workbuddy-desktop.info",
            Edition::International => "workbuddy-desktop-ai.info",
        }
    }

    /// The name of the client's data directory, in the home directory.
    pub fn data_dir_name(self) -> (r: &'static str)
        ensures
            r@ == self.data_dir_text(),
    {
        match self {
            Edition::Domestic => ".workbuddy",
            Edition::International => ".workbuddy-ai",
        }
    }

    /// The name of the client's process, without an extension.
    pub fn process_name(self) -> (r: &'static str)
        ensures
            r@ == self.process_text(),
    {
        match self {
            Edition::Domestic => "WorkBuddy",
            Edition::International => "WorkBuddyAI",
        }
    }

    /// The domain of the interface, as the login file holds it.
    pub fn api_domain(self) -> (r: &'static str)
        ensures
            r@ == self.api_domain_text(),
    {
        match self {
            Edition::Domestic => "www.codebuddy.cn",
            Edition::International => "www.workbuddy.ai",
        }
    }

    /// The base of the addresses of the interface. A token of one edition is refused
    /// at the base of the other.
    pub fn api_endpoint(self) -> (r: &'static str)
        ensures
            r@ == self.api_endpoint_text(),
    {
        match self {
            Edition::Domestic => "https://www.codebuddy.cn",
            Edition::International => "https://www.workbuddy.ai",
        }
    }

    /// The first part of the paths of a login by device code, the same for both
    /// editions.
    pub fn api_prefix(self) -> (r: &'static str)
        ensures
            r@ == "/v2/plugin"@,
    {
        "/v2/plugin"
    }

    /// The `platform` of a login.
    pub fn oauth_platform(self) -> (r: &'static str)
        ensures
            r@ == self.oauth_platform_text(),
    {
        match self {
            Edition::Domestic => "workbuddy",
            Edition::International => "workbuddy-ai",
        }
    }

    /// The domain of the CodeBuddy products.
    pub fn codebuddy_domain(self) -> (r: &'static str)
        ensures
            r@ == match self {
                Edition::Domestic => "www.codebuddy.cn"@,
                Edition::International => "www.codebuddy.ai"@,
            },
    {
        match self {
            Edition::Domestic => "www.codebuddy.cn",
            Edition::International => "www.codebuddy.ai",
        }
    }

    /// Whether the edition has a daily check-in.
    pub fn supports_checkin(self) -> (r: bool)
        ensures
            r == (self == Edition::Domestic),
    {
        matches!(self, Edition::Domestic)
    }

    /// Whether the edition has the growth center.
    pub fn supports_travel(self) -> (r: bool)
        ensures
            r == (self == Edition::Domestic),
    {
        matches!(self, Edition::Domestic)
    }

    /// The first part of the names of backups of the login file.
    pub fn backup_prefix(self) -> (r: &'static str)
        ensures
            r@ == self.backup_text(),
    {
        match self {
            Edition::Domestic => "workbuddy-desktop",
            Edition::International => "workbuddy-desktop-ai",
        }
    }
}

/// The path of the international interface for a path of the domestic one.
pub open spec fn meter_path(path: Seq<char>) -> Seq<char> {
    if has_prefix(path, "/v2"@) {
        "/billing/meter"@ + path.skip(3)
    } else {
        path
    }
}

/// The paths under which a billing call of the path `path` may be found, in the order in
/// which they are to be tried.
pub open spec fn billing(e: Edition, path: Seq<char>) -> Seq<Seq<char>> {
    match e {
        Edition::Domestic => seq![path],
        Edition::International => seq![meter_path(path), "/v2"@ + meter_path(path)],
    }
}

/// Whether a domain is one of the international edition.
pub open spec fn ai_domain(domain: Seq<char>) -> bool {
    has_suffix(lower(trim(domain)), ".workbuddy.ai"@)
}

/// Whether an answer with the domain `domain` belongs to an edition.
pub open spec fn belongs(e: Edition, domain: Seq<char>) -> bool {
    trim(domain).len() == 0 || ai_domain(domain) == (e == Edition::International)
}

/// The edition that a name stands for.
pub open spec fn named(raw: Seq<char>) -> Edition {
    let s = lower(trim(raw));
    if s == "ai"@ || s == "intl"@ || s == "global"@ || s == "international"@ || s == "workbuddyai"@
        || s == "workbuddy-ai"@ || s == "国际版"@ || s == "国际"@ {
        Edition::International
    } else {
        Edition::Domestic
    }
}

/// The text of the member `k`, if it is a text that is not blank.
pub open spec fn stated(acc: Tree, k: Seq<char>) -> Option<Seq<char>> {
    match acc.text_of(k) {
        Some(s) => if trim(s).len() > 0 {
            Some(s)
        } else {
            None
        },
        None => None,
    }
}

/// The edition of an account: what it states itself counts, first as its variant,
/// then as its edition; otherwise its domain.
pub open spec fn account_edition(acc: Tree) -> Edition {
    match stated(acc, "variant"@) {
        Some(s) => named(s),
        None => match stated(acc, "edition"@) {
            Some(s) => named(s),
            None => if ai_domain(acc.text_or_empty("domain"@)) {
                Edition::International
            } else {
                Edition::Domestic
            },
        },
    }
}

/// `s` without white space at its ends and in lower case.
fn folded(s: &str) -> (r: Vec<char>)
    ensures
        r@ == lower(trim(s@)),
{
    let v = chars_of(s);
    let t = trimmed_chars(&v, Class::White);
    lowered(&t)
}

/// Whether `v` is the text `s`.
fn reads(v: &Vec<char>, s: &str) -> (r: bool)
    ensures
        r == (v@ == s@),
{
    let w = chars_of(s);
    same_chars(v, &w)
}

/// The edition that a name stands for; an unknown name stands for the domestic one.
pub fn parse_lenient(raw: &str) -> (r: Edition)
    ensures
        r == named(raw@),
{
    let s = folded(raw);
    if reads(&s, "ai") || reads(&s, "intl") || reads(&s, "global") || reads(&s, "international")
        || reads(&s, "workbuddyai") || reads(&s, "workbuddy-ai") || reads(&s, "国际版") || reads(
        &s,
        "国际",
    ) {
        Edition::International
    } else {
        Edition::Domestic
    }
}

/// Whether a domain is one of the international edition.
fn is_ai_domain(domain: &str) -> (r: bool)
    ensures
        r == ai_domain(domain@),
{
    let d = folded(domain);
    ends_with(&d, Edition::AI_DOMAIN_SUFFIX)
}

/// The text of the member `k`, if it is a text that is not blank.
fn statement<'a>(acc: &'a Json, k: &str) -> (r: Option<&'a str>)
    ensures
        match r {
            Some(s) => stated(acc.tree(), k@) == Some(s@),
            None => stated(acc.tree(), k@) is None,
        },
{
    match acc.str_of(k) {
        Some(s) => {
            let v = chars_of(s);
            let t = trimmed_chars(&v, Class::White);
            if t.len() > 0 {
                Some(s)
            } else {
                None
            }
        },
        None => None,
    }
}

/// The edition of an account.
pub fn edition_of(acc: &Json) -> (r: Edition)
    ensures
        r == account_edition(acc.tree()),
{
    match statement(acc, "variant") {
        Some(s) => {
            return parse_lenient(s);
        },
        None => {},
    }
    match statement(acc, "edition") {
        Some(s) => {
            return parse_lenient(s);
        },
        None => {},
    }
    let domain = acc.str_or_empty("domain");
    if is_ai_domain(domain.as_str()) {
        Edition::International
    } else {
        Edition::Domestic
    }
}

/// The data directory of an edition.
pub open spec fn data_place(e: Edition, home: Seq<char>) -> Place {
    place_at(home).join(e.data_dir_text())
}

/// The directory of the login files, from the home directory on.
pub open spec fn auth_dir_text(platform: Platform) -> Seq<char> {
    match platform {
        Platform::MacOs => "Library/Application Support/CodeBuddyExtension/Data/Public/auth"@,
        Platform::Windows => "AppData/Local/CodeBuddyExtension/Data/Public/auth"@,
        Platform::Other => ".local/share/CodeBuddyExtension/Data/Public/auth"@,
    }
}

/// The directories of a drive in which the client may be installed.
pub open spec fn drive_places(drive: Seq<char>) -> Seq<Place> {
    seq![place_at(drive + "/AdobeAll"@), place_at(drive + "/"@)]
}

/// The directories in which the client may be installed.
pub open spec fn install_places(local: Option<Seq<char>>) -> Seq<Place> {
    let first = match local {
        Some(l) => seq![place_at(l).join("Programs"@)],
        None => Seq::<Place>::empty(),
    };
    first + drive_places("C:"@) + drive_places("D:"@) + drive_places("E:"@) + drive_places("F:"@)
        + drive_places("G:"@)
}

/// The places of paths.
pub open spec fn places(v: Seq<LocalPath>) -> Seq<Place> {
    v.map_values(|p: LocalPath| p@)
}

/// Adds the directories of a drive.
fn push_drive(out: &mut Vec<LocalPath>, drive: &str)
    ensures
        places(final(out)@) == places(old(out)@) + drive_places(drive@),
{
    let inner = joined(drive, "/AdobeAll");
    let root = joined(drive, "/");
    let ghost before = out@;
    out.push(LocalPath::at(inner.as_str()));
    out.push(LocalPath::at(root.as_str()));
    assert(places(out@) =~= places(before) + drive_places(drive@));
}

impl Edition {
    /// The paths under which a billing call of the path `path` may be found, in the
    /// order in which they are to be tried.
    pub fn billing_paths(self, path: &str) -> (r: Vec<String>)
        ensures
            texts(r@) == billing(self, path@),
    {
        match self {
            Edition::Domestic => {
                let r = vec![path.to_owned()];
                assert(texts(r@) =~= seq![path@]);
                r
            },
            Edition::International => {
                let v = chars_of(path);
                let primary = if begins_with(&v, "/v2") {
                    proof {
                        reveal_strlit("/v2");
                    }
                    let rest = chars_between(&v, 3, v.len());
                    assert(rest@ =~= path@.skip(3));
                    let rest = string_of(&rest);
                    joined("/billing/meter", rest.as_str())
                } else {
                    path.to_owned()
                };
                let fallback = joined("/v2", primary.as_str());
                let r = vec![primary, fallback];
                assert(texts(r@) =~= seq![meter_path(path@), "/v2"@ + meter_path(path@)]);
                r
            },
        }
    }

    /// Whether an answer with the domain `domain` belongs to this edition. A blank
    /// domain belongs to every edition.
    pub fn matches_domain(self, domain: &str) -> (r: bool)
        ensures
            r == belongs(self, domain@),
    {
        let v = chars_of(domain);
        let t = trimmed_chars(&v, Class::White);
        if t.len() == 0 {
            return true;
        }
        let is_ai = is_ai_domain(domain);
        match self {
            Edition::International => is_ai,
            Edition::Domestic => !is_ai,
        }
    }

    /// The client's data directory.
    pub fn data_dir(self, home: &str) -> (r: LocalPath)
        ensures
            r@ == data_place(self, home@),
    {
        LocalPath::at(home).join(self.data_dir_name())
    }

    /// The client's own login file.
    pub fn auth_file_path(self, home: &str, platform: Platform) -> (r: LocalPath)
        ensures
            r@ == place_at(home@).join(auth_dir_text(platform)).join(self.auth_file_text()),
    {
        let dir = match platform {
            Platform::MacOs => "Library/Application Support/CodeBuddyExtension/Data/Public/auth",
            Platform::Windows => "AppData/Local/CodeBuddyExtension/Data/Public/auth",
            Platform::Other => ".local/share/CodeBuddyExtension/Data/Public/auth",
        };
        LocalPath::at(home).join(dir).join(self.auth_file_name())
    }

    /// The file in which the client notes the current account.
    pub fn account_snapshot_path(self, home: &str) -> (r: LocalPath)
        ensures
            r@ == data_place(self, home@).join("storage"@).join("skeleton"@).join(
                "account-snapshot.json"@,
            ),
    {
        self.data_dir(home).join("storage").join("skeleton").join("account-snapshot.json")
    }

    /// The directories in which the client may be installed. `local` is the directory
    /// for the data of local programs, where the system has one.
    pub fn install_parent_dirs(self, local: Option<&str>) -> (r: Vec<LocalPath>)
        ensures
            places(r@) == install_places(opt_str(local)),
    {
        let mut out: Vec<LocalPath> = Vec::new();
        match local {
            Some(l) => {
                out.push(LocalPath::at(l).join("Programs"));
                assert(places(out@) =~= seq![place_at(l@).join("Programs"@)]);
            },
            None => {
                assert(places(out@) =~= Seq::<Place>::empty());
            },
        }
        push_drive(&mut out, "C:");
        push_drive(&mut out, "D:");
        push_drive(&mut out, "E:");
        push_drive(&mut out, "F:");
        push_drive(&mut out, "G:");
        out
    }
}

/// The editions share none of the names by which their files, processes and tokens
/// are told apart.
pub proof fn editions_are_told_apart(a: Edition, b: Edition)
    requires
        a != b,
    ensures
        a.key_text() != b.key_text(),
        a.label_text() != b.label_text(),
        a.auth_file_text() != b.auth_file_text(),
        a.data_dir_text() != b.data_dir_text(),
        a.process_text() != b.process_text(),
        a.api_domain_text() != b.api_domain_text(),
        a.api_endpoint_text() != b.api_endpoint_text(),
        a.oauth_platform_text() != b.oauth_platform_text(),
        a.backup_text() != b.backup_text(),
{
    reveal_strlit("domestic");
    reveal_strlit("international");
    reveal_strlit("国内版");
    reveal_strlit("国际版");
    reveal_strlit("workbuddy-desktop.info");
    reveal_strlit("workbuddy-desktop-ai.info");
    reveal_strlit(".workbuddy");
    reveal_strlit(".workbuddy-ai");
    reveal_strlit("WorkBuddy");
    reveal_strlit("WorkBuddyAI");
    reveal_strlit("www.codebuddy.cn");
    reveal_strlit("www.workbuddy.ai");
    reveal_strlit("https://www.codebuddy.cn");
    reveal_strlit("https://www.workbuddy.ai");
    reveal_strlit("workbuddy");
    reveal_strlit("workbuddy-ai");
    reveal_strlit("workbuddy-desktop");
    reveal_strlit("workbuddy-desktop-ai");
    assert("domestic"@.len() == 8);
    assert("国内版"@[1] == '内');
    assert("workbuddy-desktop.info"@.len() == 22);
    assert(".workbuddy"@.len() == 10);
    assert("WorkBuddy"@.len() == 9);
    assert("www.codebuddy.cn"@[4] == 'c');
    assert("https://www.codebuddy.cn"@[12] == 'c');
    assert("workbuddy"@.len() == 9);
    assert("workbuddy-desktop"@.len() == 17);
}

/// The editions keep their data in different directories.
pub proof fn editions_keep_their_data_apart(a: Edition, b: Edition, home: Seq<char>)
    requires
        a != b,
    ensures
        data_place(a, home) != data_place(b, home),
{
    editions_are_told_apart(a, b);
    assert(data_place(a, home).parts[0] == a.data_dir_text());
    assert(data_place(b, home).parts[0] == b.data_dir_text());
}

/// A domain that is not blank belongs to exactly one edition.
pub proof fn domain_belongs_to_one_edition(domain: Seq<char>)
    requires
        trim(domain).len() > 0,
    ensures
        belongs(Edition::International, domain) != belongs(Edition::Domestic, domain),
{
}

/// The name that is stored for an edition stands for it again.
pub proof fn key_stands_for_its_edition(e: Edition)
    ensures
        named(e.key_text()) == e,
{
    let k = e.key_text();
    reveal_strlit("domestic");
    reveal_strlit("international");
    reveal_strlit("ai");
    reveal_strlit("intl");
    reveal_strlit("global");
    reveal_strlit("workbuddyai");
    reveal_strlit("workbuddy-ai");
    reveal_strlit("国际版");
    reveal_strlit("国际");
    lemma_trim_same(k);
    assert(lower(k) =~= k);
    assert("domestic"@.len() == 8);
    assert("ai"@.len() == 2);
    assert("intl"@.len() == 4);
    assert("global"@.len() == 6);
    assert("international"@.len() == 13);
    assert("workbuddyai"@.len() == 11);
    assert("workbuddy-ai"@.len() == 12);
    assert("国际版"@.len() == 3);
    assert("国际"@.len() == 2);
}

/// The domain of an edition's interface belongs to that edition and to no other.
pub proof fn own_domain_belongs(e: Edition, other: Edition)
    ensures
        belongs(other, e.api_domain_text()) <==> other == e,
{
    let d = e.api_domain_text();
    reveal_strlit("www.codebuddy.cn");
    reveal_strlit("www.workbuddy.ai");
    reveal_strlit(".workbuddy.ai");
    lemma_trim_same(d);
    assert(lower(d) =~= d);
    let end = d.subrange(d.len() - 13, d.len() as int);
    if e == Edition::International {
        assert(end =~= ".workbuddy.ai"@);
    } else {
        assert(end[12] != ".workbuddy.ai"@[12]);
    }
}

/// An account that states its edition by the stored name has that edition, whatever
/// its domain.
pub proof fn stated_edition_counts(acc: Tree, e: Edition)
    requires
        acc.text_of("variant"@) is None,
        acc.text_of("edition"@) == Some(e.key_text()),
    ensures
        account_edition(acc) == e,
{
    key_stands_for_its_edition(e);
    reveal_strlit("domestic");
    reveal_strlit("international");
    lemma_trim_same(e.key_text());
}

} // verus!
