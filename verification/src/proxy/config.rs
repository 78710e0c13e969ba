//! The settings of the gateway, and where it keeps its files.

use vstd::prelude::*;

use crate::path::{place_at, LocalPath};
use crate::text::{
    chars_of, drop_all, has_prefix, lemma_trim_same, opt_str, same_chars, texts, trim, trim_left,
    trim_right, trimmed_chars, without, Class,
};
use crate::text_laws::{all_in, both_edges_are_taken, prefixes_are_dropped};

verus! {

/// The settings of the gateway.
pub struct ProxyConfig {
    /// Whether the gateway is started with the program.
    pub enabled: bool,
    /// The address at which the gateway listens.
    pub listen: String,
    /// The key that clients must present; blank for none.
    pub api_key: String,
    /// The accounts that take part; empty for all.
    pub accounts: Vec<String>,
}

/// The address at which the gateway listens unless told otherwise.
pub fn default_listen() -> (r: String)
    ensures
        r@ == "127.0.0.1:7863"@,
{
    "127.0.0.1:7863".to_owned()
}

/// The settings as long as nothing is set: switched off, on this machine only,
/// without a key, for all accounts.
pub open spec fn is_default(cfg: ProxyConfig) -> bool {
    &&& !cfg.enabled
    &&& cfg.listen@ == "127.0.0.1:7863"@
    &&& cfg.api_key@ == Seq::<char>::empty()
    &&& texts(cfg.accounts@) == Seq::<Seq<char>>::empty()
}

impl Default for ProxyConfig {
    fn default() -> (r: ProxyConfig)
        ensures
            is_default(r),
    {
        let accounts: Vec<String> = Vec::new();
        assert(texts(accounts@) =~= Seq::<Seq<char>>::empty());
        ProxyConfig { enabled: false, listen: default_listen(), api_key: String::new(), accounts }
    }
}

/// The settings read from the settings file, or the default settings where the file
/// is missing or cannot be understood.
pub fn load_proxy_config(read: Option<ProxyConfig>) -> (r: ProxyConfig)
    ensures
        match read {
            Some(cfg) => r == cfg,
            None => is_default(r),
        },
{
    match read {
        Some(cfg) => cfg,
        None => ProxyConfig::default(),
    }
}

/// The settings file.
pub fn config_path(home: &str) -> (r: LocalPath)
    ensures
        r@ == place_at(home@).join(".wb-switch"@).join("proxy.json"@),
{
    LocalPath::at(home).join(".wb-switch").join("proxy.json")
}

/// The statistics file.
pub fn usage_path(home: &str) -> (r: LocalPath)
    ensures
        r@ == place_at(home@).join(".wb-switch"@).join("proxy-usage.json"@),
{
    LocalPath::at(home).join(".wb-switch").join("proxy-usage.json")
}

/// The key in an authorization header.
pub open spec fn presented(header: Seq<char>) -> Seq<char> {
    trim(without(trim(header), "Bearer "@))
}

/// Whether a client that sends the authorization header `header` may use the gateway.
pub open spec fn admitted(header: Option<Seq<char>>, key: Seq<char>) -> bool {
    trim(key).len() == 0 || presented(
        match header {
            Some(h) => h,
            None => Seq::empty(),
        },
    ) == key
}

/// Whether a client that sends the authorization header `header` may use the gateway.
pub fn check_auth(header: Option<&str>, cfg: &ProxyConfig) -> (r: bool)
    ensures
        r == admitted(opt_str(header), cfg.api_key@),
{
    let key = chars_of(cfg.api_key.as_str());
    let bare = trimmed_chars(&key, Class::White);
    if bare.len() == 0 {
        return true;
    }
    let sent = match header {
        Some(h) => chars_of(h),
        None => Vec::new(),
    };
    let outer = trimmed_chars(&sent, Class::White);
    let inner = drop_all(&outer, "Bearer ");
    let shown = trimmed_chars(&inner, Class::White);
    same_chars(&shown, &key)
}

/// A client that presents the key in the usual form is admitted.
pub proof fn bearer_is_admitted(key: Seq<char>)
    requires
        trim(key) == key,
        key.len() > 0,
        without(key, "Bearer "@) == key,
    ensures
        admitted(Some("Bearer "@ + key), key),
{
    let h = "Bearer "@ + key;
    reveal_strlit("Bearer ");
    assert("Bearer "@.len() == 7);
    assert(h[0] == 'B');
    lemma_trim_same(key);
    lemma_trim_same(h);
    assert(h.take(7) =~= "Bearer "@);
    assert(h.skip(7) =~= key);
}

/// Without a key every client is admitted; with one, no client that sends no header.
pub proof fn key_decides_who_is_admitted(header: Option<Seq<char>>, key: Seq<char>)
    ensures
        trim(key).len() == 0 ==> admitted(header, key),
        trim(key).len() > 0 ==> !admitted(None, key),
{
    let none = Seq::<char>::empty();
    reveal_strlit("Bearer ");
    assert(trim(none) =~= none);
    assert(presented(none) =~= none);
    if key.len() == 0 {
        assert(key =~= none);
    }
}

/// Trimming and dropping prefixes leaves a part of the text.
proof fn lemma_part(h: Seq<char>) -> (r: (Seq<char>, Seq<char>))
    ensures
        h == r.0 + presented(h) + r.1,
{
    let a = lemma_trimmed_part(h);
    let t = trim(h);
    let b = lemma_without_part(t, "Bearer "@);
    let w = without(t, "Bearer "@);
    let c = lemma_trimmed_part(w);
    assert(h =~= (a.0 + b + c.0) + presented(h) + (c.1 + a.1));
    (a.0 + b + c.0, c.1 + a.1)
}

/// What is dropped from the beginning of a text.
proof fn lemma_without_part(s: Seq<char>, p: Seq<char>) -> (r: Seq<char>)
    ensures
        s == r + without(s, p),
    decreases s.len(),
{
    if p.len() > 0 && has_prefix(s, p) {
        let rest = s.skip(p.len() as int);
        let r = lemma_without_part(rest, p);
        assert(s =~= p + rest) by {
            assert(s.subrange(0, p.len() as int) == p);
            assert(s.subrange(0, p.len() as int) + rest =~= s);
        }
        assert(p + (r + without(rest, p)) =~= (p + r) + without(rest, p));
        p + r
    } else {
        assert(s =~= Seq::<char>::empty() + s);
        Seq::empty()
    }
}

/// What is trimmed from both ends of a text.
proof fn lemma_trimmed_part(s: Seq<char>) -> (r: (Seq<char>, Seq<char>))
    ensures
        s == r.0 + trim(s) + r.1,
{
    let l = trim_left(s, Class::White);
    let a = lemma_left_part(s);
    let b = lemma_right_part(l);
    assert(s =~= a + trim(s) + b);
    (a, b)
}

/// What is trimmed from the beginning of a text.
proof fn lemma_left_part(s: Seq<char>) -> (r: Seq<char>)
    ensures
        s == r + trim_left(s, Class::White),
    decreases s.len(),
{
    if s.len() > 0 && Class::White.holds(s[0]) {
        let r = lemma_left_part(s.skip(1));
        let x = trim_left(s.skip(1), Class::White);
        assert(s =~= seq![s[0]] + s.skip(1));
        assert(seq![s[0]] + (r + x) =~= (seq![s[0]] + r) + x);
        seq![s[0]] + r
    } else {
        assert(s =~= Seq::<char>::empty() + s);
        Seq::empty()
    }
}

/// What is trimmed from the end of a text.
proof fn lemma_right_part(s: Seq<char>) -> (r: Seq<char>)
    ensures
        s == trim_right(s, Class::White) + r,
    decreases s.len(),
{
    if s.len() > 0 && Class::White.holds(s.last()) {
        let r = lemma_right_part(s.drop_last());
        let x = trim_right(s.drop_last(), Class::White);
        assert(s =~= s.drop_last().push(s.last()));
        assert((x + r).push(s.last()) =~= x + r.push(s.last()));
        r.push(s.last())
    } else {
        assert(s =~= s + Seq::<char>::empty());
        Seq::empty()
    }
}

/// With a key, whoever is admitted has sent it: the header holds the key as a whole.
pub proof fn admitted_clients_know_the_key(header: Seq<char>, key: Seq<char>)
    requires
        trim(key).len() > 0,
        admitted(Some(header), key),
    ensures
        exists|a: Seq<char>, b: Seq<char>| header == #[trigger] (a + key + b),
{
    let r = lemma_part(header);
    assert(header == r.0 + key + r.1);
}

/// Who presents a text, with or without the word before it and with white space around it, is
/// admitted just if it is the key, letter by letter.
pub proof fn presented_text_is_compared(w: Seq<char>, x: Seq<char>, v: Seq<char>, key: Seq<char>)
    requires
        all_in(w, Class::White),
        all_in(v, Class::White),
        x.len() > 0,
        !Class::White.holds(x[0]),
        !Class::White.holds(x.last()),
        !has_prefix(x, "Bearer "@),
        trim(key).len() > 0,
    ensures
        admitted(Some(w + x + v), key) <==> x == key,
        admitted(Some(w + ("Bearer "@ + x) + v), key) <==> x == key,
{
    reveal_strlit("Bearer ");
    let b = "Bearer "@ + x;
    assert("Bearer "@.len() == 7);
    assert(b[0] == 'B');
    assert(b.last() == x.last());
    both_edges_are_taken(w, x, v, Class::White);
    both_edges_are_taken(w, b, v, Class::White);
    prefixes_are_dropped("Bearer "@, x);
    lemma_trim_same(x);
}

} // verus!
