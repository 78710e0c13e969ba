//! When a blank window is loaded again or given up on, and how other instances are told.

use vstd::prelude::*;

use crate::path::place_at;
use crate::text::{
    digits, digits_denote, find, has_part, is_digit, is_white, lemma_find, natural, occurs_at,
    Class,
};
use crate::text_laws::{all_in, both_edges_are_taken, written_numbers_are_read};
use crate::webview_guard::{
    after_looks, blank_window_is_reloaded_in_time, cooling, file_place, instance_among, is_gone,
    numbers_among, orphan_script_text, other_instance, reset_for, second_value, settling,
    state_place, watched, Phase, Reset, Watch, WatchAct,
};

verus! {

/// After a replacement at the time that a file tells, the program is not restarted for ten
/// minutes; a time in the future counts too, and what is no time does not.
pub proof fn written_time_starts_the_cooldown(w: Seq<char>, at: nat, v: Seq<char>, now: nat)
    requires
        all_in(w, Class::White),
        all_in(v, Class::White),
        at <= u64::MAX,
    ensures
        cooling(Some(w + digits(at) + v), now) <==> now < at + 600,
        !cooling(Some(w), now),
        !cooling(None, now),
{
    digits_denote(at);
    let d = digits(at);
    let none = Seq::<char>::empty();
    assert(is_digit(d[0]));
    assert(is_digit(d[d.len() - 1]));
    both_edges_are_taken(w, d, v, Class::White);
    written_numbers_are_read(at, u64::MAX as nat, none, 0);
    both_edges_are_taken(w, none, none, Class::White);
    assert(w + none + none =~= w);
}

/// A file that holds anything but a number does not keep the program from being restarted.
pub proof fn other_text_starts_no_cooldown(x: Seq<char>, i: int, now: nat)
    requires
        0 <= i < x.len(),
        !is_white(x[0]),
        !is_white(x.last()),
        !is_digit(x[i]),
        !(i == 0 && x[i] == '+'),
    ensures
        !cooling(Some(x), now),
{
    let none = Seq::<char>::empty();
    both_edges_are_taken(none, x, none, Class::White);
    assert(none + x + none =~= x);
    written_numbers_are_read(0, u64::MAX as nat, x, i);
}

/// A window that is up ends the watch at once; after that, requests to show it are looked
/// for, and nothing else is done.
pub proof fn window_that_is_up_ends_the_watch(w: Watch, cool: bool)
    ensures
        w.phase == Phase::First ==> watched(w, true, cool).1 == WatchAct::Ready && watched(
            w,
            true,
            cool,
        ).0.phase == Phase::Resident,
        w.phase == Phase::Second ==> watched(w, true, cool).1 == WatchAct::Recovered && watched(
            w,
            true,
            cool,
        ).0.phase == Phase::Resident,
        w.phase == Phase::Resident ==> watched(w, true, cool) == (w, WatchAct::LookForRequests)
            && watched(w, false, cool) == (w, WatchAct::LookForRequests),
{
}

/// A window that stays blank after it was loaded again is waited for fifteen seconds more,
/// and then the program is restarted, unless it was not long ago: then the window is given
/// up on.
pub proof fn blank_window_is_given_up_in_time(n: nat, cool: bool)
    requires
        n <= 60,
    ensures
        after_looks(49 + n, cool) == (Watch { phase: Phase::Second, waited: (n * 250) as u64 }),
        n < 60 ==> watched(after_looks(49 + n, cool), false, cool).1 == WatchAct::Wait,
        n == 60 && cool ==> watched(after_looks(49 + n, cool), false, cool) == (
            Watch { phase: Phase::Resident, waited: 0 },
            WatchAct::GiveUp,
        ),
        n == 60 && !cool ==> watched(after_looks(49 + n, cool), false, cool) == (
            Watch { phase: Phase::Over, waited: 0 },
            WatchAct::Restart,
        ),
    decreases n,
{
    if n == 0 {
        blank_window_is_reloaded_in_time(48, cool);
        assert(after_looks(49, cool) == watched(after_looks(48, cool), false, cool).0);
    } else {
        blank_window_is_given_up_in_time((n - 1) as nat, cool);
        assert(after_looks(49 + n, cool) == watched(
            after_looks((49 + n - 1) as nat, cool),
            false,
            cool,
        ).0);
    }
}

/// The window is loaded again only from the first wait, and only if it is not up.
pub proof fn window_is_reloaded_once(w: Watch, ready: bool, cool: bool)
    ensures
        watched(w, ready, cool).1 == WatchAct::MarkAndReload <==> w.phase == Phase::First && !ready
            && w.waited >= 12_000,
        watched(w, ready, cool).1 == WatchAct::MarkAndReload ==> watched(w, ready, cool).0 == (
        Watch { phase: Phase::Second, waited: 0 }),
        watched(w, ready, cool).1 == WatchAct::GiveUp <==> w.phase == Phase::Second && !ready && cool
            && w.waited >= 15_000,
{
}

/// The profile is out of the way just if it was not there, or was moved. Nothing is done
/// about it unless the window did not come up before.
pub proof fn profile_is_moved_after_a_blank_start(
    marker: bool,
    profile: bool,
    reset: Reset,
    renamed: bool,
)
    ensures
        reset_for(marker, profile) == Reset::Leave <==> !marker,
        reset_for(marker, profile) == Reset::Move <==> marker && profile,
        reset_for(marker, profile) == Reset::Absent <==> marker && !profile,
        is_gone(reset, renamed) <==> match reset {
            Reset::Leave => false,
            Reset::Move => renamed,
            Reset::Absent => true,
        },
{
}

/// The files of the program are in the directory that is named after it; without a directory
/// for local programs there are none.
pub proof fn files_are_in_the_programs_directory(
    identifier: Seq<char>,
    local: Seq<char>,
    name: Seq<char>,
)
    ensures
        state_place(identifier, Some(local)) == Some(place_at(local).join(identifier)),
        file_place(identifier, Some(local), name) == Some(
            place_at(local).join(identifier).join(name),
        ),
        state_place(identifier, None) is None,
        file_place(identifier, None, name) is None,
{
}

/// Processes that were ended are counted one by one: the words that are numbers.
pub proof fn ended_processes_are_counted(a: Seq<Seq<char>>, b: Seq<Seq<char>>, w: Seq<char>)
    ensures
        numbers_among(a + b) == numbers_among(a) + numbers_among(b),
        numbers_among(seq![w]) == if natural(w, 0xffff_ffff) is Some {
            1nat
        } else {
            0nat
        },
    decreases b.len(),
{
    assert(seq![w].drop_last() =~= Seq::<Seq<char>>::empty());
    assert(numbers_among(Seq::<Seq<char>>::empty()) == 0);
    if b.len() == 0 {
        assert(a + b =~= a);
    } else {
        assert((a + b).drop_last() =~= a + b.drop_last());
        ended_processes_are_counted(a, b.drop_last(), w);
    }
}

/// The end of a value is where quotes and a comma first stand.
proof fn lemma_value_end(before: Seq<char>, value: Seq<char>, rest: Seq<char>)
    requires
        forall|i: int| 0 <= i < value.len() ==> value[i] != '"',
        before.len() == 0 || (before.len() == 1 && before[0] == '"' && value.len() > 0 && value[0]
            != ','),
    ensures
        find(before + value + "\",\""@ + rest, "\",\""@) == Some((before.len() + value.len()) as int),
{
    reveal_strlit("\",\"");
    let sep = "\",\""@;
    assert(sep.len() == 3);
    assert(sep[0] == '"');
    assert(sep[1] == ',');
    let line = before + value + sep + rest;
    let n = (before.len() + value.len()) as int;
    lemma_find(line, sep, 0);
    assert(line.subrange(n, n + 3) =~= sep);
    assert(occurs_at(line, sep, n));
    let k = find(line, sep)->0;
    assert(0 <= k <= n);
    if k < n {
        let part = line.subrange(k, k + 3);
        assert(part == sep);
        assert(part[0] == line[k]);
        assert(part[1] == line[k + 1]);
        if k >= before.len() {
            assert(line[k] == value[k - before.len()]);
        } else {
            assert(line[1] == value[0]);
        }
    }
}

/// The second value of a line is what stands between its second pair of quotes, and a line
/// without a second value has none.
pub proof fn second_value_is_in_quotes(name: Seq<char>, value: Seq<char>, rest: Seq<char>)
    requires
        name.len() > 0,
        name[0] != ',',
        forall|i: int| 0 <= i < name.len() ==> name[i] != '"',
        forall|i: int| 0 <= i < value.len() ==> value[i] != '"',
    ensures
        second_value(seq!['"'] + name + "\",\""@ + (value + "\",\""@ + rest)) == Some(value),
        second_value(seq!['"'] + name + "\",\""@ + (value + seq!['"'])) == Some(value),
        second_value(name) is None,
{
    reveal_strlit("\",\"");
    let sep = "\",\""@;
    let none = Seq::<char>::empty();
    assert(sep.len() == 3);
    assert(sep[0] == '"');
    let n = (name.len() + 1) as int;
    let tail = value + sep + rest;
    let line = seq!['"'] + name + sep + tail;
    lemma_value_end(seq!['"'], name, tail);
    assert(line.skip(n + 3) =~= tail);
    lemma_value_end(none, value, rest);
    assert(none + value + sep + rest =~= tail);
    assert(tail.take(value.len() as int) =~= value);
    both_edges_are_taken(none, value, none, Class::Quote);
    assert(none + value + none =~= value);
    let last = value + seq!['"'];
    let short = seq!['"'] + name + sep + last;
    lemma_value_end(seq!['"'], name, last);
    assert(short.skip(n + 3) =~= last);
    lemma_find(last, sep, 0);
    if let Some(m) = find(last, sep) {
        assert(last.subrange(m, m + 3)[0] == last[m]);
        assert(m < value.len());
        assert(last[m] == value[m]);
    }
    assert(all_in(seq!['"'], Class::Quote));
    both_edges_are_taken(none, value, seq!['"'], Class::Quote);
    assert(none + value + seq!['"'] =~= last);
    lemma_find(name, sep, 0);
    if let Some(m) = find(name, sep) {
        assert(name.subrange(m, m + 3)[0] == name[m]);
    }
}

/// A line about the program speaks of another instance just if the number of the process in
/// it is not that of this one; a line about another program never does.
pub proof fn instances_are_told_by_their_number(
    value: Seq<char>,
    rest: Seq<char>,
    me: Seq<char>,
    other: Seq<char>,
)
    requires
        forall|i: int| 0 <= i < value.len() ==> value[i] != '"',
        !has_part(other, "wb-switch-rust.exe"@),
    ensures
        other_instance(
            seq!['"'] + "wb-switch-rust.exe"@ + "\",\""@ + (value + "\",\""@ + rest),
            me,
        ) <==> value != me,
        !other_instance(other, me),
{
    reveal_strlit("wb-switch-rust.exe");
    let name = "wb-switch-rust.exe"@;
    assert(name.len() == 18);
    second_value_is_in_quotes(name, value, rest);
    let line = seq!['"'] + name + "\",\""@ + (value + "\",\""@ + rest);
    assert(line.subrange(1, 19) =~= name);
    assert(occurs_at(line, name, 1));
}

/// It is waited as soon as one process was ended, and as long for many.
pub proof fn ended_processes_are_waited_for(orphans: nat)
    ensures
        orphans >= 1 ==> settling(orphans) == 600,
        orphans == 0 ==> settling(orphans) == 0,
{
}

/// Another instance is running just if one of the lines speaks of it.
pub proof fn every_line_is_looked_at(ls: Seq<Seq<char>>, l: Seq<char>, me: Seq<char>)
    ensures
        instance_among(ls.push(l), me) <==> instance_among(ls, me) || other_instance(l, me),
        !instance_among(Seq::empty(), me),
{
    let all = ls.push(l);
    if instance_among(ls, me) {
        let i = choose|i: int| 0 <= i < ls.len() && other_instance(#[trigger] ls[i], me);
        assert(all[i] == ls[i]);
    }
    if other_instance(l, me) {
        assert(all[ls.len() as int] == l);
    }
    if instance_among(all, me) {
        let i = choose|i: int| 0 <= i < all.len() && other_instance(#[trigger] all[i], me);
        if i < ls.len() {
            assert(ls[i] == all[i]);
        }
    }
}

/// The script names the program it is made for, and otherwise is the same for every program.
pub proof fn script_names_the_program(identifier: Seq<char>, other: Seq<char>)
    ensures
        exists|a: Seq<char>, b: Seq<char>|
            orphan_script_text(identifier) == a + identifier + b && orphan_script_text(other)
                == #[trigger] (a + other + b),
{
    let a =
        "Get-CimInstance Win32_Process -Filter \"Name='msedgewebview2.exe'\" | Where-Object { \"$($_.CommandLine)\" -like '*"@;
    let b =
        "*' -and -not (Get-Process -Id $_.ParentProcessId -ErrorAction SilentlyContinue) } | ForEach-Object { Stop-Process -Id $_.ProcessId -Force -ErrorAction SilentlyContinue; Write-Output $_.ProcessId }"@;
    assert(orphan_script_text(identifier) == a + identifier + b);
    assert(orphan_script_text(other) == a + other + b);
}

} // verus!
