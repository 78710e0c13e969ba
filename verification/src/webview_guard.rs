//! Recovery from a window that stays blank: the window is loaded again, then the
//! program restarted with a new profile of its web view; and only one instance of
//! the program runs at a time, since two would fight for the profile.

use vstd::prelude::*;

use crate::path::{place_at, LocalPath, Place};
use crate::text::{
    chars_between, chars_of, contains, decode_lossy, digits, digits_denote, digits_of, find,
    has_part, joined, lemma_trim_same, lines, lines_of, natural, natural_of, opt_str, position_from,
    same_chars, trim, trim_both, trimmed_chars, utf8_lossy, views, words, words_of, Class,
};

verus! {

/// The file that says that the window did not come up at the last start.
pub const MARKER: &'static str = ".webview-broken";

/// The file that says when the profile was replaced last, in seconds.
pub const COOLDOWN: &'static str = ".webview-reset-at";

/// How long the program is not restarted again after its profile was replaced, in
/// seconds.
pub const COOLDOWN_SECS: u64 = 600;

/// How long the window is waited for at first, in seconds.
pub const FIRST_WAIT: u64 = 12;

/// How long the window is waited for once it was loaded again, in seconds.
pub const SECOND_WAIT: u64 = 15;

/// How long it is waited between two looks at whether the window is up, in
/// milliseconds.
pub const POLL_MS: u64 = 250;

/// How long it is waited between two looks for a request to show the window, in
/// seconds.
pub const SHOW_POLL_SECS: u64 = 1;

/// The file that asks the running instance to show its window.
pub const SHOW_REQUEST: &'static str = ".show-request";

/// The directory of the files of this module: the one named after the program in the
/// directory for the data of local programs, where the system has one.
pub open spec fn state_place(identifier: Seq<char>, local: Option<Seq<char>>) -> Option<Place> {
    match local {
        Some(l) => Some(place_at(l).join(identifier)),
        None => None,
    }
}

/// An optional place.
pub open spec fn opt_place(p: Option<LocalPath>) -> Option<Place> {
    match p {
        Some(x) => Some(x@),
        None => None,
    }
}

/// The directory of the files of this module.
pub fn state_dir(identifier: &str, local: Option<&str>) -> (r: Option<LocalPath>)
    ensures
        opt_place(r) == state_place(identifier@, opt_str(local)),
{
    match local {
        Some(l) => Some(LocalPath::at(l).join(identifier)),
        None => None,
    }
}

/// The file `name` among the files of this module.
pub open spec fn file_place(
    identifier: Seq<char>,
    local: Option<Seq<char>>,
    name: Seq<char>,
) -> Option<Place> {
    match state_place(identifier, local) {
        Some(d) => Some(d.join(name)),
        None => None,
    }
}

/// The file `name` among the files of this module.
pub fn state_file(identifier: &str, local: Option<&str>, name: &str) -> (r: Option<LocalPath>)
    ensures
        opt_place(r) == file_place(identifier@, opt_str(local), name@),
{
    match state_dir(identifier, local) {
        Some(d) => Some(d.join(name)),
        None => None,
    }
}

/// The profile of the web view.
pub fn profile_dir(identifier: &str, local: Option<&str>) -> (r: Option<LocalPath>)
    ensures
        opt_place(r) == file_place(identifier@, opt_str(local), "EBWebView"@),
{
    state_file(identifier, local, "EBWebView")
}

/// What is done about the profile before the window is made.
#[derive(Clone, Copy, Debug, PartialEq, Eq, Structural)]
pub enum Reset {
    /// Nothing: the window came up at the last start.
    Leave,
    /// The profile is moved aside.
    Move,
    /// The profile is not there any more.
    Absent,
}

/// How long it is waited after `orphans` processes were ended, in milliseconds.
pub open spec fn settling(orphans: nat) -> u64 {
    if orphans > 0 {
        600
    } else {
        0
    }
}

/// How long it is waited after processes left over from an earlier start were ended,
/// in milliseconds.
pub fn settle_ms(orphans: usize) -> (r: u64)
    ensures
        r == settling(orphans as nat),
{
    if orphans > 0 {
        600
    } else {
        0
    }
}

/// What is done about the profile before the window is made: nothing, unless the
/// marker is there.
pub open spec fn reset_for(marker: bool, profile: bool) -> Reset {
    if !marker {
        Reset::Leave
    } else if profile {
        Reset::Move
    } else {
        Reset::Absent
    }
}

/// Decides what is done about the profile before the window is made, given whether
/// the marker and the profile are there.
pub fn preflight(marker: bool, profile: bool) -> (r: Reset)
    ensures
        r == reset_for(marker, profile),
{
    if !marker {
        Reset::Leave
    } else if profile {
        Reset::Move
    } else {
        Reset::Absent
    }
}

/// The name of the profile that is moved aside at the time `now`, in seconds.
pub fn aside_name(now: u64) -> (r: String)
    ensures
        r@ == "EBWebView-broken-"@ + digits(now as nat),
{
    let t = digits_of(now);
    joined("EBWebView-broken-", t.as_str())
}

/// The marker and the time of the last replacement, as files hold them.
#[verifier::ext_equal]
pub struct Traces {
    /// Whether the marker is there.
    pub marker: bool,
    /// What the file with the time of the last replacement holds, if it is there.
    pub reset_at: Option<Seq<char>>,
}

/// Whether the profile is known to be out of the way: it was moved aside, or was not
/// there.
pub open spec fn is_gone(reset: Reset, renamed: bool) -> bool {
    reset == Reset::Absent || (reset == Reset::Move && renamed)
}

/// The files once the profile was dealt with: the marker is taken away, and the time
/// noted, only if the profile is known to be out of the way.
pub open spec fn after_reset(t: Traces, reset: Reset, renamed: bool, now: nat) -> Traces {
    if is_gone(reset, renamed) {
        Traces { marker: false, reset_at: Some(digits(now)) }
    } else {
        t
    }
}

/// Decides whether the marker is taken away and the time noted, once the profile was
/// dealt with. Returns what is written as the time.
pub fn conclude_reset(reset: Reset, renamed: bool, now: u64) -> (r: Option<String>)
    ensures
        match r {
            Some(s) => is_gone(reset, renamed) && s@ == digits(now as nat),
            None => !is_gone(reset, renamed),
        },
{
    match reset {
        Reset::Leave => None,
        Reset::Move => if renamed {
            Some(digits_of(now))
        } else {
            None
        },
        Reset::Absent => Some(digits_of(now)),
    }
}

/// The marker that is taken away once the window is up, where the program and the
/// directory of the files of this module are known.
pub fn mark_ready(identifier: Option<&str>, local: Option<&str>) -> (r: Option<LocalPath>)
    ensures
        opt_place(r) == match identifier {
            Some(i) => file_place(i@, opt_str(local), MARKER@),
            None => None,
        },
{
    match identifier {
        Some(i) => state_file(i, local, MARKER),
        None => None,
    }
}

/// What the marker holds.
pub fn write_marker(now: u64) -> (r: String)
    ensures
        r@ == digits(now as nat),
{
    digits_of(now)
}

/// Whether the program must not be restarted again at the time `now`, given what the
/// file with the time of the last replacement holds, if it can be read.
pub open spec fn cooling(text: Option<Seq<char>>, now: nat) -> bool {
    match text {
        Some(s) => match natural(trim(s), u64::MAX as nat) {
            Some(at) => now < at + COOLDOWN_SECS,
            None => false,
        },
        None => false,
    }
}

/// Whether the program must not be restarted again at the time `now`, in seconds.
pub fn cooldown_active(text: Option<&str>, now: u64) -> (r: bool)
    ensures
        r == cooling(opt_str(text), now as nat),
{
    match text {
        Some(s) => {
            let v = chars_of(s);
            let t = trimmed_chars(&v, Class::White);
            match natural_of(&t, u64::MAX) {
                Some(at) => now < at || now - at < COOLDOWN_SECS,
                None => false,
            }
        },
        None => false,
    }
}

/// The script that ends processes of the web view that belong to the program and
/// whose parent is gone, and prints their numbers.
pub open spec fn orphan_script_text(identifier: Seq<char>) -> Seq<char> {
    "Get-CimInstance Win32_Process -Filter \"Name='msedgewebview2.exe'\" | Where-Object { \"$($_.CommandLine)\" -like '*"@
        + identifier
        + "*' -and -not (Get-Process -Id $_.ParentProcessId -ErrorAction SilentlyContinue) } | ForEach-Object { Stop-Process -Id $_.ProcessId -Force -ErrorAction SilentlyContinue; Write-Output $_.ProcessId }"@
}

/// The script that ends processes of the web view that belong to the program and
/// whose parent is gone, and prints their numbers.
pub fn orphan_script(identifier: &str) -> (r: String)
    ensures
        r@ == orphan_script_text(identifier@),
{
    let a = joined(
        "Get-CimInstance Win32_Process -Filter \"Name='msedgewebview2.exe'\" | Where-Object { \"$($_.CommandLine)\" -like '*",
        identifier,
    );
    joined(
        a.as_str(),
        "*' -and -not (Get-Process -Id $_.ParentProcessId -ErrorAction SilentlyContinue) } | ForEach-Object { Stop-Process -Id $_.ProcessId -Force -ErrorAction SilentlyContinue; Write-Output $_.ProcessId }",
    )
}

/// How many of the words are numbers of processes.
pub open spec fn numbers_among(ws: Seq<Seq<char>>) -> nat
    decreases ws.len(),
{
    if ws.len() == 0 {
        0
    } else {
        numbers_among(ws.drop_last()) + if natural(ws.last(), u32::MAX as nat) is Some {
            1nat
        } else {
            0nat
        }
    }
}

/// How many processes were ended, given what the script printed; none if it could not
/// be run.
pub fn kill_orphan_webviews(output: Option<&[u8]>) -> (r: usize)
    ensures
        r == match output {
            Some(b) => numbers_among(words(utf8_lossy(b@))),
            None => 0,
        },
{
    let Some(b) = output else {
        return 0;
    };
    let text = decode_lossy(b);
    let v = chars_of(text.as_str());
    let ws = words_of(&v);
    let ghost all = views(ws@);
    let mut n: usize = 0;
    let mut i: usize = 0;
    assert(all.take(0) =~= Seq::<Seq<char>>::empty());
    while i < ws.len()
        invariant
            i <= ws.len(),
            n <= i,
            all == views(ws@),
            n == numbers_among(all.take(i as int)),
        decreases ws.len() - i,
    {
        proof {
            assert(all.take(i + 1).drop_last() =~= all.take(i as int));
            assert(all.take(i + 1).last() == ws@[i as int]@);
        }
        if natural_of(&ws[i], u32::MAX as u64).is_some() {
            n = n + 1;
        }
        i = i + 1;
    }
    assert(all.take(ws@.len() as int) =~= all);
    n
}

/// The arguments that ask the system for processes of the program, as lines of values
/// in quotes.
pub fn instance_query_args() -> (r: Vec<&'static str>)
    ensures
        r@.map_values(|s: &'static str| s@) == seq![
            "/FI"@,
            "IMAGENAME eq wb-switch-rust.exe"@,
            "/NH"@,
            "/FO"@,
            "CSV"@,
        ],
{
    let r = vec!["/FI", "IMAGENAME eq wb-switch-rust.exe", "/NH", "/FO", "CSV"];
    assert(r@.map_values(|s: &'static str| s@) =~= seq![
        "/FI"@,
        "IMAGENAME eq wb-switch-rust.exe"@,
        "/NH"@,
        "/FO"@,
        "CSV"@,
    ]);
    r
}

/// The second value of a line of values in quotes, if there is one.
pub open spec fn second_value(line: Seq<char>) -> Option<Seq<char>> {
    match find(line, "\",\""@) {
        Some(k) => {
            let rest = line.skip(k + 3);
            let value = match find(rest, "\",\""@) {
                Some(m) => rest.take(m),
                None => rest,
            };
            Some(trim_both(value, Class::Quote))
        },
        None => None,
    }
}

/// Whether a line speaks of an instance of the program other than the process `me`.
pub open spec fn other_instance(line: Seq<char>, me: Seq<char>) -> bool {
    has_part(line, "wb-switch-rust.exe"@) && second_value(line) != Some(me)
}

/// Whether one of the lines speaks of an instance of the program other than the
/// process `me`.
pub open spec fn instance_among(ls: Seq<Seq<char>>, me: Seq<char>) -> bool {
    exists|i: int| 0 <= i < ls.len() && other_instance(#[trigger] ls[i], me)
}

/// The second value of a line of values in quotes, if there is one.
fn second_value_of(line: &Vec<char>) -> (r: Option<Vec<char>>)
    ensures
        second_value(line@) == match r {
            Some(v) => Some(v@),
            None => None,
        },
{
    let sep = chars_of("\",\"");
    proof {
        reveal_strlit("\",\"");
        assert(sep@.len() == 3);
    }
    let n = line.len();
    let Some(k) = position_from(line, &sep, 0) else {
        return None;
    };
    let rest = chars_between(line, k + 3, n);
    assert(rest@ =~= line@.skip(k + 3));
    let value = match position_from(&rest, &sep, 0) {
        Some(m) => {
            let x = chars_between(&rest, 0, m);
            assert(x@ =~= rest@.take(m as int));
            x
        },
        None => rest,
    };
    Some(trimmed_chars(&value, Class::Quote))
}

/// Whether another instance of the program is running, given what the system said of
/// its processes and the number of this process; not if the system could not be
/// asked.
pub fn another_instance_running(output: Option<&[u8]>, me: u32) -> (r: bool)
    ensures
        r == match output {
            Some(b) => instance_among(lines(utf8_lossy(b@)), digits(me as nat)),
            None => false,
        },
{
    let Some(b) = output else {
        return false;
    };
    let text = decode_lossy(b);
    let own = digits_of(me as u64);
    let own = chars_of(own.as_str());
    let v = chars_of(text.as_str());
    let ls = lines_of(&v);
    let ghost all = lines(text@);
    let mut i: usize = 0;
    while i < ls.len()
        invariant
            i <= ls.len(),
            all == views(ls@),
            all == lines(text@),
            output matches Some(b) && text@ == utf8_lossy(b@),
            own@ == digits(me as nat),
            forall|k: int| 0 <= k < i ==> !other_instance(#[trigger] all[k], own@),
        decreases ls.len() - i,
    {
        assert(all[i as int] == ls@[i as int]@);
        if contains(&ls[i], "wb-switch-rust.exe") {
            let mine = match second_value_of(&ls[i]) {
                Some(x) => same_chars(&x, &own),
                None => false,
            };
            if !mine {
                return true;
            }
        }
        i = i + 1;
    }
    false
}

/// Whether the window is to be shown: whether there was a request for it, which is
/// then taken away.
pub fn take_show_request(present: bool) -> (r: bool)
    ensures
        r == present,
{
    present
}

/// What a request to show the window holds.
pub fn request_show(now: u64) -> (r: String)
    ensures
        r@ == digits(now as nat),
{
    digits_of(now)
}

/// How far the watch over the window has come.
#[derive(Clone, Copy, Debug, PartialEq, Eq, Structural)]
pub enum Phase {
    /// The window is waited for.
    First,
    /// The window was loaded again and is waited for.
    Second,
    /// The window is up, or was given up on; requests to show it are waited for.
    Resident,
    /// The program is restarted.
    Over,
}

/// The watch over the window.
#[derive(Clone, Copy, Debug, PartialEq, Eq, Structural)]
pub struct Watch {
    /// How far it has come.
    pub phase: Phase,
    /// How long it has waited in this phase, in milliseconds.
    pub waited: u64,
}

/// What the watch does next.
#[derive(Clone, Copy, Debug, PartialEq, Eq, Structural)]
pub enum WatchAct {
    /// It waits for a moment.
    Wait,
    /// The window is up.
    Ready,
    /// It writes the marker and loads the window again.
    MarkAndReload,
    /// The window came up once it was loaded again.
    Recovered,
    /// It gives up, since the profile was replaced a short while ago.
    GiveUp,
    /// It restarts the program.
    Restart,
    /// It looks for requests to show the window.
    LookForRequests,
}

/// How long the window is waited for in a phase, in milliseconds.
pub open spec fn limit_ms(phase: Phase) -> int {
    match phase {
        Phase::First => FIRST_WAIT * 1000,
        Phase::Second => SECOND_WAIT * 1000,
        _ => 0,
    }
}

/// What follows in the watch, given whether the window is up and whether the program
/// must not be restarted again.
pub open spec fn watched(w: Watch, ready: bool, cool: bool) -> (Watch, WatchAct) {
    let resident = Watch { phase: Phase::Resident, waited: 0 };
    match w.phase {
        Phase::First => if ready {
            (resident, WatchAct::Ready)
        } else if w.waited < limit_ms(w.phase) {
            (Watch { phase: w.phase, waited: (w.waited + POLL_MS) as u64 }, WatchAct::Wait)
        } else {
            (Watch { phase: Phase::Second, waited: 0 }, WatchAct::MarkAndReload)
        },
        Phase::Second => if ready {
            (resident, WatchAct::Recovered)
        } else if w.waited < limit_ms(w.phase) {
            (Watch { phase: w.phase, waited: (w.waited + POLL_MS) as u64 }, WatchAct::Wait)
        } else if cool {
            (resident, WatchAct::GiveUp)
        } else {
            (Watch { phase: Phase::Over, waited: 0 }, WatchAct::Restart)
        },
        Phase::Resident => (w, WatchAct::LookForRequests),
        Phase::Over => (w, WatchAct::Restart),
    }
}

impl Watch {
    /// A watch that begins.
    pub fn new() -> (r: Watch)
        ensures
            r == (Watch { phase: Phase::First, waited: 0 }),
    {
        Watch { phase: Phase::First, waited: 0 }
    }

    /// Looks at whether the window is up, and decides what is done next.
    pub fn look(&mut self, ready: bool, cool: bool) -> (r: WatchAct)
        ensures
            (*final(self), r) == watched(*old(self), ready, cool),
    {
        match self.phase {
            Phase::First => {
                if ready {
                    self.phase = Phase::Resident;
                    self.waited = 0;
                    WatchAct::Ready
                } else if self.waited < FIRST_WAIT * 1000 {
                    self.waited = self.waited + POLL_MS;
                    WatchAct::Wait
                } else {
                    self.phase = Phase::Second;
                    self.waited = 0;
                    WatchAct::MarkAndReload
                }
            },
            Phase::Second => {
                if ready {
                    self.phase = Phase::Resident;
                    self.waited = 0;
                    WatchAct::Recovered
                } else if self.waited < SECOND_WAIT * 1000 {
                    self.waited = self.waited + POLL_MS;
                    WatchAct::Wait
                } else if cool {
                    self.phase = Phase::Resident;
                    self.waited = 0;
                    WatchAct::GiveUp
                } else {
                    self.phase = Phase::Over;
                    self.waited = 0;
                    WatchAct::Restart
                }
            },
            Phase::Resident => WatchAct::LookForRequests,
            Phase::Over => WatchAct::Restart,
        }
    }
}

/// The watch after it has looked at a window that was not up `n` times.
pub open spec fn after_looks(n: nat, cool: bool) -> Watch
    decreases n,
{
    if n == 0 {
        Watch { phase: Phase::First, waited: 0 }
    } else {
        watched(after_looks((n - 1) as nat, cool), false, cool).0
    }
}

/// A window that does not come up is loaded again after the first wait and not
/// before: the looks up to then do nothing but wait, and the next writes the marker.
pub proof fn blank_window_is_reloaded_in_time(n: nat, cool: bool)
    requires
        n <= 48,
    ensures
        after_looks(n, cool) == (Watch { phase: Phase::First, waited: (n * POLL_MS) as u64 }),
        n < 48 ==> watched(after_looks(n, cool), false, cool).1 == WatchAct::Wait,
        n == 48 ==> watched(after_looks(n, cool), false, cool).1 == WatchAct::MarkAndReload,
        48 * POLL_MS == FIRST_WAIT * 1000,
    decreases n,
{
    if n > 0 {
        blank_window_is_reloaded_in_time((n - 1) as nat, cool);
    }
}

/// The program is restarted only if the window did not come up in the second wait
/// either, and only if its profile was not replaced a short while ago.
pub proof fn restart_needs_both_waits(w: Watch, ready: bool, cool: bool)
    requires
        w.phase != Phase::Over,
        watched(w, ready, cool).1 == WatchAct::Restart,
    ensures
        w.phase == Phase::Second,
        w.waited >= SECOND_WAIT * 1000,
        !ready,
        !cool,
{
}

/// The marker stays as long as the profile cannot be moved aside, so that the next
/// start tries again.
pub proof fn marker_stays_until_the_profile_is_gone(t: Traces, now: nat)
    requires
        t.marker,
    ensures
        after_reset(t, Reset::Move, false, now) == t,
        !after_reset(t, Reset::Move, true, now).marker,
        !after_reset(t, Reset::Absent, false, now).marker,
{
}

/// The files once the watch has acted.
pub open spec fn after_act(t: Traces, act: WatchAct) -> Traces {
    if act == WatchAct::MarkAndReload {
        Traces { marker: true, ..t }
    } else {
        t
    }
}

/// The files once the window is up.
pub open spec fn after_ready(t: Traces) -> Traces {
    Traces { marker: false, ..t }
}

/// A window that stays blank does so once: the next start puts the profile out of the
/// way, and the start after that leaves the new profile alone. If the window comes up
/// after all, the next start leaves the profile alone. The cooldown plays no part.
pub proof fn blank_start_is_followed_by_a_reset(t: Traces, profile: bool, now: nat)
    ensures
        ({
            let blank = after_act(t, WatchAct::MarkAndReload);
            let reset = reset_for(blank.marker, profile);
            &&& reset == if profile {
                Reset::Move
            } else {
                Reset::Absent
            }
            &&& reset_for(after_reset(blank, reset, true, now).marker, profile) == Reset::Leave
            &&& reset_for(after_ready(blank).marker, profile) == Reset::Leave
        }),
{
}

/// Once the profile was replaced, the program is not restarted again for the time
/// set, and may be after it.
pub proof fn replacement_starts_the_cooldown(t: Traces, at: nat, now: nat)
    requires
        at <= now,
        at <= u64::MAX,
    ensures
        cooling(after_reset(t, Reset::Move, true, at).reset_at, now) <==> now - at
            < COOLDOWN_SECS,
{
    digits_denote(at);
    let d = digits(at);
    assert(crate::text::is_digit(d[0]));
    assert(crate::text::is_digit(d[d.len() - 1]));
    lemma_trim_same(d);
}

} // verus!
