//! How an edition is told from names, domains and accounts, and where its files are.

use vstd::prelude::*;

use crate::client_ctl::{exe_places, exe_text, in_local, on_drive, Drives};
use crate::edition::{
    account_edition, ai_domain, belongs, billing, data_place, install_places, meter_path, named,
    Edition,
};
use crate::json::Tree;
use crate::path::{place_at, Place};
use crate::text::{has_prefix, lower, trim, Class};
use crate::text_laws::{all_in, both_edges_are_taken};

verus! {

/// A path of the domestic interface becomes one of the international by its beginning alone;
/// other paths stay.
pub proof fn paths_are_changed_at_their_beginning(rest: Seq<char>, path: Seq<char>)
    requires
        !has_prefix(path, "/v2"@),
    ensures
        meter_path("/v2"@ + rest) == "/billing/meter"@ + rest,
        meter_path(path) == path,
{
    reveal_strlit("/v2");
    assert("/v2"@.len() == 3);
    assert(("/v2"@ + rest).subrange(0, 3) =~= "/v2"@);
    assert(("/v2"@ + rest).skip(3) =~= rest);
}

/// A domain is one of the international edition just if it ends with its ending, in upper or
/// lower case; white space around it does not matter.
pub proof fn domain_is_told_by_its_end(w: Seq<char>, x: Seq<char>, v: Seq<char>)
    requires
        all_in(w, Class::White),
        all_in(v, Class::White),
        x.len() > 0,
        !Class::White.holds(x[0]),
        !Class::White.holds(x.last()),
    ensures
        ai_domain(w + x + v) <==> x.len() >= 13 && lower(x.skip(x.len() - 13)) == ".workbuddy.ai"@,
        belongs(Edition::International, w + x + v) <==> ai_domain(w + x + v),
        belongs(Edition::Domestic, w + x + v) <==> !ai_domain(w + x + v),
{
    both_edges_are_taken(w, x, v, Class::White);
    reveal_strlit(".workbuddy.ai");
    assert(".workbuddy.ai"@.len() == 13);
    if x.len() >= 13 {
        let n = x.len() as int;
        assert(lower(x).subrange(n - 13, n) =~= lower(x.skip(n - 13)));
    }
}

/// A blank domain belongs to every edition.
pub proof fn blank_domain_belongs_to_all(w: Seq<char>, e: Edition)
    requires
        all_in(w, Class::White),
    ensures
        belongs(e, w),
{
    let none = Seq::<char>::empty();
    both_edges_are_taken(w, none, none, Class::White);
    assert(w + none + none =~= w);
}

/// Whether a text is one of the names of the international edition.
pub open spec fn names_international(s: Seq<char>) -> bool {
    seq![
        "ai"@,
        "intl"@,
        "global"@,
        "international"@,
        "workbuddyai"@,
        "workbuddy-ai"@,
        "国际版"@,
        "国际"@,
    ].contains(s)
}

/// A name stands for the international edition just if it is one of its names, in upper or
/// lower case and with white space around it; every other stands for the domestic one.
pub proof fn names_stand_for_editions(w: Seq<char>, x: Seq<char>, v: Seq<char>)
    requires
        all_in(w, Class::White),
        all_in(v, Class::White),
        x.len() > 0,
        !Class::White.holds(x[0]),
        !Class::White.holds(x.last()),
    ensures
        named(w + x + v) == Edition::International <==> names_international(lower(x)),
        named(w + x + v) == named(x),
{
    let none = Seq::<char>::empty();
    both_edges_are_taken(w, x, v, Class::White);
    both_edges_are_taken(none, x, none, Class::White);
    assert(none + x + none =~= x);
    let all = seq![
        "ai"@,
        "intl"@,
        "global"@,
        "international"@,
        "workbuddyai"@,
        "workbuddy-ai"@,
        "国际版"@,
        "国际"@,
    ];
    let s = lower(x);
    assert(all[0] == "ai"@);
    assert(all[1] == "intl"@);
    assert(all[2] == "global"@);
    assert(all[3] == "international"@);
    assert(all[4] == "workbuddyai"@);
    assert(all[5] == "workbuddy-ai"@);
    assert(all[6] == "国际版"@);
    assert(all[7] == "国际"@);
}

/// Whether an account states something that is not blank under a name.
pub open spec fn states(acc: Tree, k: Seq<char>, s: Seq<char>) -> bool {
    acc.get(k) == Some(Tree::Text(s)) && trim(s).len() > 0
}

/// Of an account its variant counts first, then its edition, then its domain, each only where
/// those before it say nothing.
pub proof fn account_says_its_edition(acc: Tree, s: Seq<char>)
    ensures
        states(acc, "variant"@, s) ==> account_edition(acc) == named(s),
        (forall|x: Seq<char>| !states(acc, "variant"@, x)) && states(acc, "edition"@, s)
            ==> account_edition(acc) == named(s),
        (forall|x: Seq<char>| !states(acc, "variant"@, x)) && (forall|x: Seq<char>|
            !states(acc, "edition"@, x)) ==> account_edition(acc) == (match acc.get("domain"@) {
            Some(Tree::Text(d)) => if ai_domain(d) {
                Edition::International
            } else {
                Edition::Domestic
            },
            _ => Edition::Domestic,
        }),
{
    if let Some(Tree::Text(x)) = acc.get("variant"@) {
        assert(states(acc, "variant"@, x) <==> trim(x).len() > 0);
    }
    if let Some(Tree::Text(x)) = acc.get("edition"@) {
        assert(states(acc, "edition"@, x) <==> trim(x).len() > 0);
    }
    if !(acc.get("domain"@) matches Some(Tree::Text(_))) {
        let none = Seq::<char>::empty();
        both_edges_are_taken(none, none, none, Class::White);
        assert(none + none + none =~= none);
        reveal_strlit(".workbuddy.ai");
        assert(".workbuddy.ai"@.len() == 13);
        assert(lower(none).len() == 0);
        assert(!ai_domain(none));
    }
}

/// The data of an edition is in the home directory, in the directory of the edition.
pub proof fn data_is_in_the_home_directory(e: Edition, home: Seq<char>)
    ensures
        data_place(e, home).base == home,
        data_place(e, home).parts.len() == 1,
        data_place(e, home).parts[0] == (match e {
            Edition::Domestic => ".workbuddy"@,
            Edition::International => ".workbuddy-ai"@,
        }),
{
}

/// The client is looked for in the directory for local programs first, if there is one, and
/// then on five drives, in two directories of each.
pub proof fn client_is_looked_for_in_order(local: Option<Seq<char>>, i: int)
    requires
        0 <= i < 5,
    ensures
        ({
            let drives = seq!["C:"@, "D:"@, "E:"@, "F:"@, "G:"@];
            let n: int = if local is Some {
                1
            } else {
                0
            };
            let all = install_places(local);
            &&& all.len() == n + 10
            &&& local matches Some(l) ==> all[0] == place_at(l).join("Programs"@)
            &&& all[n + 2 * i] == place_at(drives[i] + "/AdobeAll"@)
            &&& all[n + 2 * i + 1] == place_at(drives[i] + "/"@)
        }),
{
}

/// The program of the client is looked for in the directory for local programs first, and
/// then on the drives that are there, in order, each time in the directory of its process.
pub proof fn program_is_looked_for_in_order(e: Edition, local: Option<Seq<char>>, drives: Drives)
    ensures
        ({
            let all = exe_places(e, local, drives);
            let n: int = if local is Some {
                2
            } else {
                0
            };
            let c: int = if drives.c {
                2
            } else {
                0
            };
            &&& local matches Some(l) ==> all[0] == place_at(l).join("Programs"@).join(
                e.process_text(),
            ).join(exe_text(e)) && all[1] == place_at(l).join(e.process_text()).join(exe_text(e))
            &&& drives.c ==> all[n] == place_at("C:\\"@).join("AdobeAll"@).join(
                e.process_text(),
            ).join(exe_text(e)) && all[n + 1] == place_at("C:\\"@).join(e.process_text()).join(
                exe_text(e),
            )
            &&& drives.d ==> all[n + c] == place_at("D:\\"@).join("AdobeAll"@).join(
                e.process_text(),
            ).join(exe_text(e)) && all[n + c + 1] == place_at("D:\\"@).join(e.process_text()).join(
                exe_text(e),
            )
            &&& all.len() == n + c + (if drives.d {
                2int
            } else {
                0
            }) + (if drives.e {
                2int
            } else {
                0
            }) + (if drives.f {
                2int
            } else {
                0
            }) + (if drives.g {
                2int
            } else {
                0
            })
        }),
{
    let a = in_local(e, local);
    let b = on_drive(e, drives.c, "C:\\"@);
    let c = on_drive(e, drives.d, "D:\\"@);
    let all = exe_places(e, local, drives);
    if local is Some {
        assert(all[0] == a[0]);
        assert(all[1] == a[1]);
    }
    if drives.c {
        assert(all[a.len() as int] == b[0]);
        assert(all[(a.len() + 1) as int] == b[1]);
    }
    if drives.d {
        assert(all[(a.len() + b.len()) as int] == c[0]);
        assert(all[(a.len() + b.len() + 1) as int] == c[1]);
    }
}

/// A program on a drive is listed just if the drive is there.
pub proof fn drives_that_are_missing_are_passed_over(e: Edition, root: Seq<char>, p: Place)
    ensures
        on_drive(e, false, root).len() == 0,
        on_drive(e, true, root).contains(p) <==> p == place_at(root).join("AdobeAll"@).join(
            e.process_text(),
        ).join(exe_text(e)) || p == place_at(root).join(e.process_text()).join(exe_text(e)),
{
    let all = on_drive(e, true, root);
    assert(all[0] == place_at(root).join("AdobeAll"@).join(e.process_text()).join(exe_text(e)));
    assert(all[1] == place_at(root).join(e.process_text()).join(exe_text(e)));
    assert(all.len() == 2);
}

/// A billing call of the domestic edition has its own path alone; one of the international
/// edition is tried under the path of its interface first and then under the same with the
/// version before it, and never under the domestic one.
pub proof fn billing_paths_are_tried_in_order(rest: Seq<char>)
    ensures
        billing(Edition::Domestic, "/v2"@ + rest) == seq!["/v2"@ + rest],
        billing(Edition::International, "/v2"@ + rest) == seq![
            "/billing/meter"@ + rest,
            "/v2"@ + ("/billing/meter"@ + rest),
        ],
{
    reveal_strlit("/v2");
    assert("/v2"@.len() == 3);
    assert(!has_prefix(Seq::<char>::empty(), "/v2"@));
    paths_are_changed_at_their_beginning(rest, Seq::empty());
}

/// A path without the version at its beginning stays as it is, in either edition.
pub proof fn other_billing_paths_stay(e: Edition, path: Seq<char>)
    requires
        !has_prefix(path, "/v2"@),
    ensures
        billing(e, path).len() > 0,
        billing(e, path)[0] == path,
        e == Edition::International ==> billing(e, path).len() == 2 && billing(e, path)[1]
            == "/v2"@ + path,
        e == Edition::Domestic ==> billing(e, path).len() == 1,
{
}

} // verus!
