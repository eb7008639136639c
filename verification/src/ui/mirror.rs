//! The arbiter's map as another machine shows it. The arbiter pushes its editor's view as
//! JSON; the other machine serves it with itself marked, and the shared panel turned round.
use vstd::prelude::*;

use crate::config::{Config, Mode};
use crate::json::{self, as_array, get, get_str, json_of, JsonView};
use crate::text::{self, is_text};

verus! {

/// The machines in a view.
pub open spec fn machines_in(v: JsonView) -> Option<Seq<JsonView>> {
    match json::member(v, "machines"@) {
        Some(x) => json::arr_in(x),
        None => None,
    }
}

/// A machine, marked as this one or as another by its name.
pub open spec fn marked(m: JsonView, me: Seq<char>) -> JsonView {
    json::with_member(m, "me"@, JsonView::Bool(json::str_member(m, "name"@) == Some(me)))
}

/// Each machine, marked.
pub open spec fn each_marked(a: Seq<JsonView>, me: Seq<char>) -> Seq<JsonView> {
    a.map_values(|m: JsonView| marked(m, me))
}

/// A view with its machines marked.
pub open spec fn all_marked(v: JsonView, me: Seq<char>) -> JsonView {
    match machines_in(v) {
        Some(a) => json::with_member(v, "machines"@, JsonView::Arr(each_marked(a, me))),
        None => v,
    }
}

/// The name of the first machine that is not called `me`, if it has one.
pub open spec fn first_other(a: Seq<JsonView>, me: Seq<char>) -> Option<Seq<char>>
    decreases a.len(),
{
    if a.len() == 0 {
        None
    } else if json::str_member(a[0], "name"@) != Some(me) {
        json::str_member(a[0], "name"@)
    } else {
        first_other(a.skip(1), me)
    }
}

/// The name of the first machine in a view that is not called `me`.
pub open spec fn host_in(v: JsonView, me: Seq<char>) -> Option<Seq<char>> {
    match machines_in(v) {
        Some(a) => first_other(a, me),
        None => None,
    }
}

/// A member, or null where there is none.
pub open spec fn member_or_null(v: JsonView, key: Seq<char>) -> JsonView {
    match json::member(v, key) {
        Some(x) => x,
        None => JsonView::Null,
    }
}

/// A panel from the other side: what is local there is the peer's here.
pub open spec fn flipped(p: JsonView, host: Seq<char>) -> JsonView {
    json::with_member(
        json::with_member(
            json::with_member(p, "local_monitor"@, member_or_null(p, "peer_monitor"@)),
            "peer_monitor"@,
            member_or_null(p, "local_monitor"@),
        ),
        "peer"@,
        JsonView::Str(host),
    )
}

/// A view with its shared panel turned round, where `me` is the one that shares it.
pub open spec fn turned(v: JsonView, me: Seq<char>) -> JsonView {
    match (json::member(v, "shared_monitor"@), host_in(v, me)) {
        (Some(p), Some(host)) => if p is Obj && json::str_member(p, "peer"@) == Some(me) {
            json::with_member(v, "shared_monitor"@, flipped(p, host))
        } else {
            v
        },
        _ => v,
    }
}

/// The arbiter's view as another machine shows it: the same map, with that machine marked
/// as its own. The shared panel is written from the arbiter's side; it is turned round for
/// the machine that shares it, whose editor reads what is local as its own.
pub open spec fn mirrored(v: JsonView, me: Seq<char>) -> JsonView {
    turned(all_marked(v, me), me)
}

/// Every machine in the view can be marked.
pub open spec fn markable(v: JsonView) -> bool {
    match machines_in(v) {
        Some(a) => all_take_members(a),
        None => true,
    }
}

/// Each of some values takes members.
pub open spec fn all_take_members(a: Seq<JsonView>) -> bool {
    forall|i: int| 0 <= i < a.len() ==> json::takes_members(#[trigger] a[i])
}

/// Every machine in the view can be marked.
fn can_mark(v: &serde_json::Value) -> (r: bool)
    ensures
        r == markable(json_of(v)),
{
    let machines: &Vec<serde_json::Value> = match get(v, "machines") {
        Some(x) => match as_array(x) {
            Some(a) => a,
            None => {
                return true;
            },
        },
        None => {
            return true;
        },
    };
    let ghost all = json::all_json(machines@);
    for i in 0..machines.len()
        invariant
            all == json::all_json(machines@),
            machines_in(json_of(v)) == Some(all),
            forall|j: int| 0 <= j < i ==> json::takes_members(#[trigger] all[j]),
    {
        assert(all[i as int] == json_of(&machines@[i as int]));
        if !json::is_null(&machines[i]) && json::object_keys(&machines[i]).is_none() {
            assert(!json::takes_members(all[i as int]));
            assert(!all_take_members(all));
            return false;
        }
    }
    true
}

/// A machine, marked as this one or as another by its name.
fn mark(m: &serde_json::Value, me: &str) -> (r: serde_json::Value)
    requires
        json::takes_members(json_of(m)),
    ensures
        json_of(&r) == marked(json_of(m), me@),
{
    let mine: bool = is_text(&get_str(m, "name"), me);
    let mut r: serde_json::Value = json::copy(m);
    json::set(&mut r, "me", json::of_bool(mine));
    r
}

/// Some machines, marked.
fn mark_each(machines: &Vec<serde_json::Value>, me: &str) -> (r: Vec<serde_json::Value>)
    requires
        all_take_members(json::all_json(machines@)),
    ensures
        json::all_json(r@) == each_marked(json::all_json(machines@), me@),
{
    let ghost all = json::all_json(machines@);
    let ghost want = each_marked(all, me@);
    let mut out: Vec<serde_json::Value> = Vec::new();
    assert(json::all_json(out@) =~= want.take(0));
    for i in 0..machines.len()
        invariant
            all == json::all_json(machines@),
            want == each_marked(all, me@),
            all_take_members(all),
            json::all_json(out@) == want.take(i as int),
    {
        assert(all[i as int] == json_of(&machines@[i as int]));
        let m: serde_json::Value = mark(&machines[i], me);
        let ghost before = out@;
        out.push(m);
        proof {
            assert(json::all_json(before.push(m)) =~= json::all_json(before).push(json_of(&m)));
            assert(want.take(i + 1) =~= want.take(i as int).push(want[i as int]));
        }
    }
    assert(want.take(machines@.len() as int) =~= want);
    out
}

/// The name of the first machine in a view that is not called `me`.
fn name_host(v: &serde_json::Value, me: &str) -> (r: Option<String>)
    ensures
        text::opt_text(r) == host_in(json_of(v), me@),
{
    let machines: &Vec<serde_json::Value> = match get(v, "machines") {
        Some(x) => match as_array(x) {
            Some(a) => a,
            None => {
                return None;
            },
        },
        None => {
            return None;
        },
    };
    let ghost all = json::all_json(machines@);
    assert(all.skip(0) =~= all);
    for i in 0..machines.len()
        invariant
            all == json::all_json(machines@),
            machines_in(json_of(v)) == Some(all),
            first_other(all, me@) == first_other(all.skip(i as int), me@),
    {
        assert(all.skip(i as int)[0] == json_of(&machines@[i as int]));
        let name: Option<String> = get_str(&machines[i], "name");
        if !is_text(&name, me) {
            return name;
        }
        assert(all.skip(i as int).skip(1) =~= all.skip(i + 1));
    }
    None
}

/// A copy of a member, or null where there is none.
fn copy_member(v: &serde_json::Value, key: &str) -> (r: serde_json::Value)
    ensures
        json_of(&r) == member_or_null(json_of(v), key@),
{
    match get(v, key) {
        Some(x) => json::copy(x),
        None => json::null(),
    }
}

/// The shared panel from the other side, where `me` is the one that shares it.
fn flip(v: &serde_json::Value, me: &str) -> (r: Option<serde_json::Value>)
    ensures
        match (json::member(json_of(v), "shared_monitor"@), host_in(json_of(v), me@)) {
            (Some(p), Some(host)) if p is Obj && json::str_member(p, "peer"@) == Some(me@) =>
                r matches Some(x) && json_of(&x) == flipped(p, host),
            _ => r is None,
        },
{
    let host: String = match name_host(v, me) {
        Some(h) => h,
        None => {
            return None;
        },
    };
    match get(v, "shared_monitor") {
        Some(p) => {
            if json::object_keys(p).is_none() || !is_text(&get_str(p, "peer"), me) {
                return None;
            }
            let mut x: serde_json::Value = json::copy(p);
            json::set(&mut x, "local_monitor", copy_member(p, "peer_monitor"));
            json::set(&mut x, "peer_monitor", copy_member(p, "local_monitor"));
            json::set(&mut x, "peer", json::of_str(host.as_str()));
            Some(x)
        },
        None => None,
    }
}

/// The arbiter's view as another machine shows it.
pub fn mirror(v: serde_json::Value, me: &str) -> (r: serde_json::Value)
    requires
        markable(json_of(&v)),
    ensures
        json_of(&r) == mirrored(json_of(&v), me@),
{
    let marks: Option<Vec<serde_json::Value>> = match get(&v, "machines") {
        Some(x) => match as_array(x) {
            Some(a) => Some(mark_each(a, me)),
            None => None,
        },
        None => None,
    };
    let mut r: serde_json::Value = v;
    if let Some(a) = marks {
        json::set(&mut r, "machines", json::of_vec(a));
    }
    assert(json_of(&r) == all_marked(json_of(&v), me@));
    if let Some(p) = flip(&r, me) {
        json::set(&mut r, "shared_monitor", p);
    }
    r
}

/// What the editor of a machine serves of what the arbiter pushed last: nothing on a host,
/// where nothing was pushed, or where what was pushed is no JSON or lists a machine that is
/// no object; the editor then serves the machine's own view.
pub fn synced_view(cfg: &Config, pushed: &Option<String>) -> (r: Option<String>)
    ensures
        match *pushed {
            Some(raw) if cfg@.mode == Mode::Client => match json::json_read(
                vstd::utf8::encode_utf8(raw@),
            ) {
                Ok(v) if markable(v) => r matches Some(t) && t@ == json::json_text(
                    mirrored(v, cfg@.name),
                ),
                _ => r is None,
            },
            _ => r is None,
        },
{
    if cfg.mode == Mode::Host {
        return None;
    }
    match pushed {
        Some(raw) => match json::read(raw.as_str().as_bytes()) {
            Ok(v) => {
                if can_mark(&v) {
                    Some(json::write(&mirror(v, cfg.name.as_str())))
                } else {
                    None
                }
            },
            Err(_) => None,
        },
        None => None,
    }
}

/// A view of two machines as the first of them pushes it, the shared panel, if any, being
/// one with the other.
pub open spec fn is_pushed(v: JsonView, host: Seq<char>, other: Seq<char>) -> bool {
    &&& v is Obj
    &&& machines_in(v) matches Some(a) && {
        &&& a.len() == 2
        &&& a[0] is Obj && json::str_member(a[0], "name"@) == Some(host)
        &&& json::bool_member(a[0], "me"@) == Some(true)
        &&& a[1] is Obj && json::str_member(a[1], "name"@) == Some(other)
        &&& json::bool_member(a[1], "me"@) == Some(false)
    }
    &&& json::member(v, "shared_monitor"@) matches Some(p) ==> p is Obj ==> {
        &&& json::str_member(p, "peer"@) == Some(other)
        &&& json::member(p, "local_monitor"@) is Some
        &&& json::member(p, "peer_monitor"@) is Some
    }
}

/// Both editors show the same map: on a desk of two machines, the view that the arbiter
/// pushes and the other machine mirrors, mirrored back, is the arbiter's own.
pub proof fn law_mirroring_twice_is_nothing(v: JsonView, host: Seq<char>, other: Seq<char>)
    requires
        host != other,
        is_pushed(v, host, other),
    ensures
        mirrored(mirrored(v, other), host) == v,
        json::bool_member(machines_in(mirrored(v, other))->0[0], "me"@) == Some(false),
        json::bool_member(machines_in(mirrored(v, other))->0[1], "me"@) == Some(true),
{
    lemma_keys();
    let a = machines_in(v)->0;
    let b = each_marked(a, other);
    let m = mirrored(v, other);
    assert(machines_in(all_marked(v, other)) == Some(b));
    assert(machines_in(m) == Some(b));
    assert(json::str_member(b[0], "name"@) == Some(host));
    assert(json::str_member(b[1], "name"@) == Some(other));
    assert(first_other(b, other) == Some(host));
    let c = each_marked(b, host);
    assert(c[0]->Obj_0 =~= a[0]->Obj_0);
    assert(c[1]->Obj_0 =~= a[1]->Obj_0);
    assert(c =~= a);
    assert(first_other(a, host) == Some(other)) by {
        reveal_with_fuel(first_other, 3);
        assert(a.skip(1)[0] == a[1]);
    }
    let back = all_marked(m, host);
    assert(machines_in(back) == Some(a));
    let end = mirrored(m, host);
    match json::member(v, "shared_monitor"@) {
        Some(p) => {
            if p is Obj {
                let q = flipped(p, host);
                assert(json::member(m, "shared_monitor"@) == Some(q));
                assert(json::member(back, "shared_monitor"@) == Some(q));
                assert(json::str_member(q, "peer"@) == Some(host));
                assert(flipped(q, other)->Obj_0 =~= p->Obj_0);
            }
        },
        None => {},
    }
    assert(end->Obj_0 =~= v->Obj_0);
}

/// The members of a view have different keys.
proof fn lemma_keys()
    ensures
        "machines"@ != "shared_monitor"@,
        "me"@ != "name"@,
        "local_monitor"@ != "peer_monitor"@,
        "local_monitor"@ != "peer"@,
        "peer_monitor"@ != "peer"@,
{
    reveal_strlit("machines");
    reveal_strlit("shared_monitor");
    reveal_strlit("me");
    reveal_strlit("name");
    reveal_strlit("local_monitor");
    reveal_strlit("peer_monitor");
    reveal_strlit("peer");
    assert("machines"@.len() == 8 && "shared_monitor"@.len() == 14);
    assert("me"@.len() == 2 && "name"@.len() == 4);
    assert("local_monitor"@.len() == 13 && "peer_monitor"@.len() == 12 && "peer"@.len() == 4);
}

} // verus!
