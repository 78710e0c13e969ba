//! Starting and stopping the gateway.

use vstd::prelude::*;

use crate::text::joined;
use super::config::ProxyConfig;

verus! {

/// The longest body of a request, in bytes: 64 MiB, for the long contexts of chats.
pub const MAX_REQUEST_BODY: usize = 67_108_864;

/// How long a start waits for the gateway to listen, in seconds.
pub const START_WAIT_SECS: u64 = 5;

/// The state of the gateway. While it is listening, the means to stop it are at hand.
pub struct Server {
    /// Whether it is listening.
    running: bool,
    /// Whether the means to stop it are at hand.
    held: bool,
}

impl Server {
    /// A gateway that is listening can be stopped.
    #[verifier::type_invariant]
    spec fn under_control(self) -> bool {
        self.running ==> self.held
    }

    /// Whether the gateway is listening.
    pub closed spec fn listening(self) -> bool {
        self.running
    }

    /// Whether the means to stop it are at hand.
    pub closed spec fn stoppable(self) -> bool {
        self.held
    }

    /// A gateway that was never started.
    pub fn new() -> (r: Server)
        ensures
            !r.listening(),
            !r.stoppable(),
    {
        Server { running: false, held: false }
    }
}

/// The message about an address that is none.
pub open spec fn bad_address(listen: Seq<char>) -> Seq<char> {
    "监听地址无效: "@ + listen
}

/// Whether the gateway is listening. While it is, it can be stopped.
pub fn proxy_running(s: &Server) -> (r: bool)
    ensures
        r == s.listening(),
        r ==> s.stoppable(),
{
    proof {
        use_type_invariant(s);
    }
    s.running
}

/// Whether `r` is the answer to whether a gateway may be started, given whether it is
/// listening and whether the address `listen` is one.
pub open spec fn may_start(
    listening: bool,
    valid: bool,
    listen: Seq<char>,
    r: Result<(), String>,
) -> bool {
    match r {
        Ok(_) => !listening && valid,
        Err(e) => if listening {
            e@ == "反代已经在运行"@
        } else {
            !valid && e@ == bad_address(listen)
        },
    }
}

/// Whether the gateway may be started with the settings `cfg`, whose address is one
/// or not.
pub fn start_proxy_server(s: &Server, cfg: &ProxyConfig, valid: bool) -> (r: Result<(), String>)
    ensures
        may_start(s.listening(), valid, cfg.listen@, r),
{
    if proxy_running(s) {
        return Err("反代已经在运行".to_owned());
    }
    if !valid {
        return Err(joined("监听地址无效: ", cfg.listen.as_str()));
    }
    Ok(())
}

/// How a start ended.
pub enum Start {
    /// There is no thread for the gateway.
    NoThread(String),
    /// There is no runtime for the gateway.
    NoRuntime(String),
    /// The gateway listens.
    Ready,
    /// The gateway could not be started.
    Refused(String),
    /// Nothing was heard: the gateway is taken to listen.
    Silent,
}

/// Whether a start that ended as `start` says leads from `before` to `after` and to the answer
/// `r`.
pub open spec fn started(
    before: Server,
    start: Start,
    after: Server,
    r: Result<(), String>,
) -> bool {
    match start {
        Start::NoThread(e) => after == before && r is Err && r->Err_0@ == "无法启动反代线程: "@ + e@,
        Start::NoRuntime(e) => !after.listening() && after.stoppable() == before.stoppable()
            && r is Err && r->Err_0@ == "创建运行时失败: "@ + e@,
        Start::Refused(e) => !after.listening() && after.stoppable() == before.stoppable()
            && r is Err && r->Err_0@ == e@,
        Start::Ready | Start::Silent => after.listening() && after.stoppable() && r is Ok,
    }
}

/// Notes how a start ended.
pub fn conclude_start(s: &mut Server, start: &Start) -> (r: Result<(), String>)
    ensures
        started(*old(s), *start, *final(s), r),
{
    match start {
        Start::NoThread(e) => Err(joined("无法启动反代线程: ", e.as_str())),
        Start::NoRuntime(e) => {
            s.running = false;
            Err(joined("创建运行时失败: ", e.as_str()))
        },
        Start::Refused(e) => {
            s.running = false;
            Err(e.as_str().to_owned())
        },
        Start::Ready | Start::Silent => {
            s.held = true;
            s.running = true;
            Ok(())
        },
    }
}

/// Notes that the gateway has ended by itself.
pub fn note_end(s: &mut Server)
    ensures
        !final(s).listening(),
        final(s).stoppable() == old(s).stoppable(),
{
    s.running = false;
}

/// Stops the gateway. Returns whether there is something to signal and wait for, as
/// there is if the gateway is listening. Stopping one that is stopped changes nothing.
pub fn stop_proxy_server(s: &mut Server) -> (r: bool)
    ensures
        r == old(s).stoppable(),
        old(s).listening() ==> r,
        !final(s).listening(),
        !final(s).stoppable(),
        !old(s).stoppable() ==> *final(s) == *old(s),
{
    proof {
        use_type_invariant(&*s);
    }
    let held = s.held;
    s.running = false;
    s.held = false;
    held
}

/// Whether the gateway is started with the program.
pub fn spawn_from_config(cfg: &ProxyConfig) -> (r: bool)
    ensures
        r == cfg.enabled,
{
    cfg.enabled
}

/// What a restart comes to.
pub enum Restart {
    /// The gateway stays stopped.
    Stopped,
    /// The gateway is to be started.
    Go,
    /// The gateway cannot be started.
    Refused(String),
}

/// Whether a restart comes to `r`, given whether the gateway is enabled and whether the
/// address `listen` is one.
pub open spec fn restarted(enabled: bool, valid: bool, listen: Seq<char>, r: Restart) -> bool {
    match r {
        Restart::Stopped => !enabled,
        Restart::Go => enabled && valid,
        Restart::Refused(e) => enabled && !valid && e@ == bad_address(listen),
    }
}

/// Stops the gateway and decides whether it is started again. Returns also whether
/// there was something to signal and wait for.
pub fn restart_proxy_server(s: &mut Server, cfg: &ProxyConfig, valid: bool) -> (r: (bool, Restart))
    ensures
        r.0 == old(s).stoppable(),
        old(s).listening() ==> r.0,
        !final(s).listening(),
        !final(s).stoppable(),
        restarted(cfg.enabled, valid, cfg.listen@, r.1),
{
    let held = stop_proxy_server(s);
    if !spawn_from_config(cfg) {
        return (held, Restart::Stopped);
    }
    match start_proxy_server(s, cfg, valid) {
        Ok(_) => (held, Restart::Go),
        Err(e) => (held, Restart::Refused(e)),
    }
}

/// Whether `r` is the answer to whether a gateway can run, given whether the address `listen`
/// is one and how many accounts there are.
pub open spec fn may_run(
    valid: bool,
    listen: Seq<char>,
    accounts: nat,
    r: Result<(), String>,
) -> bool {
    match r {
        Ok(_) => valid && accounts > 0,
        Err(e) => if !valid {
            e@ == bad_address(listen)
        } else {
            accounts == 0 && e@ == "没有可用账号：账号库为空或全部 needs_relogin"@
        },
    }
}

/// Whether the gateway can run with the settings `cfg`, whose address is one or not,
/// and the accounts `uids`.
pub fn run_proxy_server(cfg: &ProxyConfig, valid: bool, uids: &Vec<String>) -> (r: Result<(), String>)
    ensures
        may_run(valid, cfg.listen@, uids@.len(), r),
{
    if !valid {
        return Err(joined("监听地址无效: ", cfg.listen.as_str()));
    }
    if uids.len() == 0 {
        return Err("没有可用账号：账号库为空或全部 needs_relogin".to_owned());
    }
    Ok(())
}

/// The message about an address that cannot be listened at.
pub fn bind_failure(addr: &str, error: &str) -> (r: String)
    ensures
        r@ == "监听 "@ + addr@ + " 失败: "@ + error@,
{
    let a = joined("监听 ", addr);
    let b = joined(a.as_str(), " 失败: ");
    joined(b.as_str(), error)
}

/// A gateway starts just if it is not listening yet and its address is one, and runs just if
/// there is an account for it as well.
pub proof fn gateway_starts_once(
    listening: bool,
    valid: bool,
    listen: Seq<char>,
    accounts: nat,
    start: Result<(), String>,
    run: Result<(), String>,
)
    requires
        may_start(listening, valid, listen, start),
        may_run(valid, listen, accounts, run),
    ensures
        start is Ok <==> !listening && valid,
        run is Ok <==> valid && accounts >= 1,
        start matches Err(e) ==> !listening ==> e@ == "监听地址无效: "@ + listen,
        run matches Err(e) ==> !valid ==> e@ == "监听地址无效: "@ + listen,
{
}

/// After a start the gateway is listening just if it said so or said nothing, or was
/// listening before and no thread was had; and a start fails just if there is a message.
pub proof fn start_is_noted(before: Server, start: Start, after: Server, r: Result<(), String>)
    requires
        started(before, start, after, r),
    ensures
        r is Ok <==> start is Ready || start is Silent,
        after.listening() <==> start is Ready || start is Silent || (start is NoThread
            && before.listening()),
        start is Ready || start is Silent ==> after.stoppable(),
        !(start is Ready) && !(start is Silent) ==> after.stoppable() == before.stoppable(),
        start matches Start::Refused(m) ==> (r matches Err(e) && e@ == m@),
{
}

/// A restart starts the gateway again just if it is enabled and its address is one.
pub proof fn restart_needs_the_settings(enabled: bool, valid: bool, listen: Seq<char>, r: Restart)
    requires
        restarted(enabled, valid, listen, r),
    ensures
        r is Stopped <==> !enabled,
        r is Go <==> enabled && valid,
        r matches Restart::Refused(e) ==> e@ == "监听地址无效: "@ + listen,
{
}

} // verus!
