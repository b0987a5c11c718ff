//! What JSON Patch operations do to a value.
//!
//! An operation names its place by a path: a slash before each step, where a
//! step is a key of an object or an index of an array. In a step `~0` stands
//! for a tilde and `~1` for a slash.

use crate::diff::OpView;
use crate::json::{json_seconds, json_unsigned, JsonView};
use crate::text::{decimal, starts_with};
use vstd::prelude::*;

verus! {

/// A character of a step as paths show it.
pub open spec fn step_char(c: char) -> Seq<char> {
    if c == '~' {
        seq!['~', '0']
    } else if c == '/' {
        seq!['~', '1']
    } else {
        seq![c]
    }
}

/// A step as paths show it.
pub open spec fn step_text(step: Seq<char>) -> Seq<char>
    decreases step.len(),
{
    if step.len() == 0 {
        seq![]
    } else {
        step_char(step[0]) + step_text(step.skip(1))
    }
}

/// The path that steps make up.
pub open spec fn path_text(steps: Seq<Seq<char>>) -> Seq<char>
    decreases steps.len(),
{
    if steps.len() == 0 {
        seq![]
    } else {
        path_text(steps.drop_last()) + seq!['/'] + step_text(steps.last())
    }
}

/// Whether a step is an index of an array.
pub open spec fn is_index(step: Seq<char>, i: int) -> bool {
    i >= 0 && step == decimal(i as nat)
}

/// The place in an array of some length that a step leads to.
pub open spec fn place(step: Seq<char>, len: nat) -> Option<int> {
    if exists|i: int| 0 <= i < len && #[trigger] is_index(step, i) {
        Some(choose|i: int| 0 <= i < len && #[trigger] is_index(step, i))
    } else {
        None
    }
}

/// The value that a step leads to.
pub open spec fn child(v: JsonView, step: Seq<char>) -> Option<JsonView> {
    match v {
        JsonView::Object(m) => if m.contains_key(step) {
            Some(m[step])
        } else {
            None
        },
        JsonView::Array(a) => match place(step, a.len()) {
            Some(i) => Some(a[i]),
            None => None,
        },
        _ => None,
    }
}

/// A value with another one where a step leads to.
pub open spec fn with_child(v: JsonView, step: Seq<char>, w: JsonView) -> JsonView {
    match v {
        JsonView::Object(m) => JsonView::Object(m.insert(step, w)),
        JsonView::Array(a) => match place(step, a.len()) {
            Some(i) => JsonView::Array(a.update(i, w)),
            None => v,
        },
        _ => v,
    }
}

/// A value with another one added under a step: a key is set, an element put
/// in before the one at the index.
pub open spec fn added(v: JsonView, step: Seq<char>, w: JsonView) -> Option<JsonView> {
    match v {
        JsonView::Object(m) => Some(JsonView::Object(m.insert(step, w))),
        JsonView::Array(a) => match place(step, a.len() + 1) {
            Some(i) => Some(JsonView::Array(a.insert(i, w))),
            None => None,
        },
        _ => None,
    }
}

/// A value without the one that a step leads to.
pub open spec fn removed(v: JsonView, step: Seq<char>) -> Option<JsonView> {
    match v {
        JsonView::Object(m) => if m.contains_key(step) {
            Some(JsonView::Object(m.remove(step)))
        } else {
            None
        },
        JsonView::Array(a) => match place(step, a.len()) {
            Some(i) => Some(JsonView::Array(a.remove(i))),
            None => None,
        },
        _ => None,
    }
}

/// What an operation makes of a value, at the end of steps; nothing if it does
/// not apply.
pub open spec fn applied(v: JsonView, steps: Seq<Seq<char>>, op: OpView) -> Option<JsonView>
    decreases steps.len(),
{
    if steps.len() == 0 {
        match op {
            OpView::Add { value, .. } => Some(value),
            OpView::Replace { value, .. } => Some(value),
            _ => None,
        }
    } else if steps.len() == 1 && op is Add {
        added(v, steps[0], op->Add_value)
    } else if steps.len() == 1 && op is Remove {
        removed(v, steps[0])
    } else {
        match child(v, steps[0]) {
            Some(c) => match applied(c, steps.skip(1), op) {
                Some(w) => Some(with_child(v, steps[0], w)),
                None => None,
            },
            None => None,
        }
    }
}

/// Whether an operation turns a value into another.
pub open spec fn turns(v: JsonView, op: OpView, w: JsonView) -> bool {
    exists|steps: Seq<Seq<char>>| op.path() == path_text(steps) && #[trigger] applied(v, steps, op) == Some(w)
}

/// Whether operations, one after the other, turn a value into another.
pub open spec fn patches(v: JsonView, ops: Seq<OpView>, w: JsonView) -> bool
    decreases ops.len(),
{
    if ops.len() == 0 {
        v == w
    } else {
        exists|mid: JsonView| patches(v, ops.drop_last(), mid) && #[trigger] turns(mid, ops.last(), w)
    }
}

// ── Places ─────────────────────────────────────────────────────────────────

/// The value at the end of steps.
pub open spec fn found(v: JsonView, steps: Seq<Seq<char>>) -> Option<JsonView>
    decreases steps.len(),
{
    if steps.len() == 0 {
        Some(v)
    } else {
        match child(v, steps[0]) {
            Some(c) => found(c, steps.skip(1)),
            None => None,
        }
    }
}

/// Whether two values differ at every place on a way.
pub open spec fn differs_along(l: JsonView, r: JsonView, steps: Seq<Seq<char>>) -> bool {
    forall|n: int| 0 <= n <= steps.len() ==> #[trigger] found(l, steps.take(n)) != found(r, steps.take(n))
}

/// Whether there is an object at the end of steps.
pub open spec fn object_at(v: JsonView, steps: Seq<Seq<char>>) -> bool {
    found(v, steps) matches Some(JsonView::Object(_))
}

/// Whether an operation lies where two values differ: they do at every place
/// on its way, and at its end there is not an object in both.
pub open spec fn lies_in_difference(l: JsonView, r: JsonView, op: OpView) -> bool {
    exists|steps: Seq<Seq<char>>| #[trigger]
        path_text(steps) == op.path() && differs_along(l, r, steps) && !(object_at(l, steps) && object_at(r, steps))
}

/// Whether a path leads to the end of steps or beyond it.
pub open spec fn leads_into(path: Seq<char>, steps: Seq<Seq<char>>) -> bool {
    path == path_text(steps) || starts_with(path, path_text(steps) + seq!['/'])
}

/// Whether a path leaves the place at the end of steps alone: it leads neither
/// there nor to a place that holds it.
pub open spec fn spares(path: Seq<char>, steps: Seq<Seq<char>>) -> bool {
    &&& !leads_into(path, steps)
    &&& forall|n: int| 0 <= n < steps.len() ==> path != #[trigger] path_text(steps.take(n))
}

/// An operation that lies where two values differ leaves alone what is the same
/// in both, within objects that both have.
pub proof fn what_agrees_is_left_alone(l: JsonView, r: JsonView, op: OpView, steps: Seq<Seq<char>>)
    requires
        lies_in_difference(l, r, op),
        found(l, steps) == found(r, steps),
        forall|n: int|
            0 <= n < steps.len() ==> object_at(l, #[trigger] steps.take(n)) && object_at(r, steps.take(n)),
    ensures
        spares(op.path(), steps),
{
    let way = choose|way: Seq<Seq<char>>| #[trigger]
        path_text(way) == op.path() && differs_along(l, r, way) && !(object_at(l, way) && object_at(r, way));
    if leads_into(op.path(), steps) {
        led_by(way, steps);
        assert(found(l, way.take(steps.len() as int)) != found(r, way.take(steps.len() as int)));
    }
    assert forall|n: int| 0 <= n < steps.len() implies op.path() != #[trigger] path_text(steps.take(n)) by {
        if op.path() == path_text(steps.take(n)) {
            assert(leads_into(path_text(way), steps.take(n)));
            led_by(way, steps.take(n));
            assert(leads_into(path_text(steps.take(n)), way));
            led_by(steps.take(n), way);
            assert(way =~= steps.take(n));
        }
    }
}

/// An operation whose way leads neither to a place, nor to one that holds it, nor
/// into it, leaves what is there as it is.
proof fn elsewhere(v: JsonView, way: Seq<Seq<char>>, op: OpView, w: JsonView, steps: Seq<Seq<char>>)
    requires
        applied(v, way, op) == Some(w),
        forall|m: int| 0 <= m < steps.len() ==> object_at(v, #[trigger] steps.take(m)),
        !(way.len() <= steps.len() && steps.take(way.len() as int) == way),
        !(steps.len() <= way.len() && way.take(steps.len() as int) == steps),
    ensures
        found(w, steps) == found(v, steps),
        forall|m: int| 0 <= m < steps.len() ==> object_at(w, #[trigger] steps.take(m)),
    decreases steps.len(),
{
    assert(steps.take(0) =~= seq![]);
    assert(way.take(0) =~= seq![]);
    if steps.len() == 0 {
        assert(way.take(0) == steps);
    } else if way.len() == 0 {
        assert(steps.take(0) == way);
    } else {
        assert(object_at(v, steps.take(0)));
        let k = steps[0];
        let m = v->Object_0;
        let rest = steps.skip(1);
        if way[0] != k {
            assert(w is Object && child(w, k) == child(v, k));
            assert forall|n: int| 0 <= n < steps.len() implies object_at(w, #[trigger] steps.take(n)) by {
                assert(object_at(v, steps.take(n)));
                if n > 0 {
                    assert(steps.take(n)[0] == k);
                }
            }
        } else {
            let way_rest = way.skip(1);
            let c = child(v, k)->0;
            if way.len() == 1 {
                assert(steps.take(1) =~= way);
            }
            if steps.len() == 1 {
                assert(way.take(1) =~= steps);
            }
            assert(applied(c, way_rest, op) is Some);
            let d = applied(c, way_rest, op)->0;
            assert(w == with_child(v, k, d));
            assert(child(w, k) == Some(d));
            assert forall|n: int| 0 <= n < rest.len() implies object_at(c, #[trigger] rest.take(n)) by {
                assert(object_at(v, steps.take(n + 1)));
                assert(steps.take(n + 1).skip(1) =~= rest.take(n));
                assert(steps.take(n + 1)[0] == k);
            }
            if way_rest.len() <= rest.len() && rest.take(way_rest.len() as int) == way_rest {
                assert(steps.take(way.len() as int) =~= way) by {
                    assert forall|i: int| 0 <= i < way.len() implies steps[i] == way[i] by {
                        if i > 0 {
                            assert(rest.take(way_rest.len() as int)[i - 1] == way_rest[i - 1]);
                        }
                    }
                }
            }
            if rest.len() <= way_rest.len() && way_rest.take(rest.len() as int) == rest {
                assert(way.take(steps.len() as int) =~= steps) by {
                    assert forall|i: int| 0 <= i < steps.len() implies way[i] == steps[i] by {
                        if i > 0 {
                            assert(way_rest.take(rest.len() as int)[i - 1] == rest[i - 1]);
                        }
                    }
                }
            }
            elsewhere(c, way_rest, op, d, rest);
            assert forall|n: int| 0 <= n < steps.len() implies object_at(w, #[trigger] steps.take(n)) by {
                if n > 0 {
                    assert(steps.take(n).skip(1) =~= rest.take(n - 1));
                    assert(steps.take(n)[0] == k);
                    assert(object_at(d, rest.take(n - 1)));
                }
            }
        }
    }
}

/// Two ways that read the same are the same.
proof fn one_way(a: Seq<Seq<char>>, b: Seq<Seq<char>>)
    requires
        path_text(a) == path_text(b),
    ensures
        a == b,
{
    assert(leads_into(path_text(a), b));
    led_by(a, b);
    assert(leads_into(path_text(b), a));
    led_by(b, a);
    assert(a.take(b.len() as int) =~= a);
}

/// Whether a value has no parts.
pub open spec fn is_leaf(v: Option<JsonView>) -> bool {
    !(v matches Some(JsonView::Object(_))) && !(v matches Some(JsonView::Array(_)))
}

proof fn nothing_below(v: JsonView, steps: Seq<Seq<char>>, way: Seq<Seq<char>>)
    requires
        is_leaf(found(v, steps)),
        steps.len() < way.len(),
        way.take(steps.len() as int) == steps,
    ensures
        found(v, way.take(steps.len() as int + 1)) is None,
    decreases steps.len(),
{
    let longer = way.take(steps.len() as int + 1);
    if steps.len() == 0 {
        assert(found(v, steps) == Some(v));
        assert(child(v, longer[0]) is None);
    } else {
        assert(longer[0] == way.take(steps.len() as int)[0]);
        match child(v, steps[0]) {
            Some(c) => {
                let rest = way.skip(1);
                assert(rest.take(steps.len() - 1) =~= steps.skip(1)) by {
                    assert forall|i: int| 0 <= i < steps.len() - 1 implies rest[i] == steps.skip(1)[i] by {
                        assert(way.take(steps.len() as int)[i + 1] == steps[i + 1]);
                    }
                }
                nothing_below(c, steps.skip(1), rest);
                assert(rest.take(steps.skip(1).len() as int + 1) =~= longer.skip(1));
            },
            None => {},
        }
    }
}

/// An operation that lies where two values differ, but not at a place without
/// parts within objects that both have, leaves that place alone.
proof fn spared_by(
    l: JsonView,
    r: JsonView,
    v: JsonView,
    op: OpView,
    w: JsonView,
    steps: Seq<Seq<char>>,
)
    requires
        lies_in_difference(l, r, op),
        turns(v, op, w),
        op.path() != path_text(steps),
        is_leaf(found(l, steps)),
        is_leaf(found(r, steps)),
        forall|m: int| 0 <= m < steps.len() ==> object_at(l, #[trigger] steps.take(m)) && object_at(r, steps.take(m)),
        forall|m: int| 0 <= m < steps.len() ==> object_at(v, #[trigger] steps.take(m)),
    ensures
        found(w, steps) == found(v, steps),
        forall|m: int| 0 <= m < steps.len() ==> object_at(w, #[trigger] steps.take(m)),
{
    let way = choose|way: Seq<Seq<char>>| #[trigger]
        path_text(way) == op.path() && differs_along(l, r, way) && !(object_at(l, way) && object_at(r, way));
    let other = choose|s: Seq<Seq<char>>| op.path() == path_text(s) && #[trigger] applied(v, s, op) == Some(w);
    one_way(way, other);
    if way.len() <= steps.len() && steps.take(way.len() as int) == way {
        if way.len() == steps.len() {
            assert(steps.take(way.len() as int) =~= steps);
        } else {
            assert(object_at(l, steps.take(way.len() as int)));
        }
    }
    if steps.len() <= way.len() && way.take(steps.len() as int) == steps {
        if way.len() == steps.len() {
            assert(way.take(steps.len() as int) =~= way);
        } else {
            nothing_below(l, steps, way);
            nothing_below(r, steps, way);
            assert(found(l, way.take(steps.len() as int + 1)) != found(r, way.take(steps.len() as int + 1)));
        }
    }
    elsewhere(v, way, op, w, steps);
}

proof fn all_spare(l: JsonView, r: JsonView, ops: Seq<OpView>, w: JsonView, steps: Seq<Seq<char>>)
    requires
        patches(l, ops, w),
        forall|i: int| 0 <= i < ops.len() ==> lies_in_difference(l, r, #[trigger] ops[i]),
        forall|i: int| 0 <= i < ops.len() ==> (#[trigger] ops[i]).path() != path_text(steps),
        is_leaf(found(l, steps)),
        is_leaf(found(r, steps)),
        forall|m: int| 0 <= m < steps.len() ==> object_at(l, #[trigger] steps.take(m)) && object_at(r, steps.take(m)),
    ensures
        found(w, steps) == found(l, steps),
        forall|m: int| 0 <= m < steps.len() ==> object_at(w, #[trigger] steps.take(m)),
    decreases ops.len(),
{
    if ops.len() > 0 {
        let init = ops.drop_last();
        let mid = choose|mid: JsonView| patches(l, init, mid) && #[trigger] turns(mid, ops.last(), w);
        assert forall|i: int| 0 <= i < init.len() implies lies_in_difference(l, r, #[trigger] init[i]) && init[i].path()
            != path_text(steps) by {
            assert(init[i] == ops[i]);
        }
        all_spare(l, r, init, mid, steps);
        assert(lies_in_difference(l, r, ops[ops.len() - 1]));
        spared_by(l, r, mid, ops.last(), w, steps);
    }
}

/// Where two values differ in a part that has no parts itself, within objects that
/// both have, one of the operations that turn the first into the second names
/// that very place.
pub proof fn what_differs_has_an_operation(l: JsonView, r: JsonView, ops: Seq<OpView>, steps: Seq<Seq<char>>)
    requires
        patches(l, ops, r),
        forall|i: int| 0 <= i < ops.len() ==> lies_in_difference(l, r, #[trigger] ops[i]),
        found(l, steps) != found(r, steps),
        is_leaf(found(l, steps)),
        is_leaf(found(r, steps)),
        forall|m: int| 0 <= m < steps.len() ==> object_at(l, #[trigger] steps.take(m)) && object_at(r, steps.take(m)),
    ensures
        exists|i: int| 0 <= i < ops.len() && (#[trigger] ops[i]).path() == path_text(steps),
{
    if forall|i: int| 0 <= i < ops.len() ==> (#[trigger] ops[i]).path() != path_text(steps) {
        all_spare(l, r, ops, r, steps);
    }
}

/// A path begins with its first step.
proof fn path_front(steps: Seq<Seq<char>>)
    requires
        steps.len() > 0,
    ensures
        path_text(steps) == seq!['/'] + step_text(steps[0]) + path_text(steps.skip(1)),
    decreases steps.len(),
{
    let init = steps.drop_last();
    if init.len() > 0 {
        path_front(init);
        assert(steps.skip(1).drop_last() =~= init.skip(1));
        assert(path_text(steps) =~= seq!['/'] + step_text(steps[0]) + path_text(steps.skip(1)));
    } else {
        assert(path_text(init) =~= seq![]);
        assert(path_text(steps.skip(1)) =~= seq![]);
        assert(path_text(steps) =~= seq!['/'] + step_text(steps[0]) + path_text(steps.skip(1)));
    }
}

/// A step holds no slash as paths show it.
proof fn no_slash(step: Seq<char>)
    ensures
        forall|i: int| 0 <= i < step_text(step).len() ==> step_text(step)[i] != '/',
    decreases step.len(),
{
    if step.len() > 0 {
        let head = step_char(step[0]);
        let tail = step_text(step.skip(1));
        no_slash(step.skip(1));
        assert forall|i: int| 0 <= i < step_text(step).len() implies step_text(step)[i] != '/' by {
            if i < head.len() {
                assert(step_text(step)[i] == head[i]);
            } else {
                assert(step_text(step)[i] == tail[i - head.len()]);
            }
        }
    }
}

/// Different steps read differently.
proof fn steps_differ(a: Seq<char>, b: Seq<char>)
    requires
        step_text(a) == step_text(b),
    ensures
        a == b,
    decreases a.len(),
{
    let x = step_text(a);
    if a.len() == 0 || b.len() == 0 {
        assert(a =~= b);
    } else {
        assert(x[0] == step_char(a[0])[0] && x[0] == step_char(b[0])[0]);
        if x[0] == '~' {
            assert(x[1] == step_char(a[0])[1] && x[1] == step_char(b[0])[1]);
        }
        assert(a[0] == b[0]);
        let n = step_char(a[0]).len() as int;
        assert(x.skip(n) =~= step_text(a.skip(1)));
        assert(x.skip(n) =~= step_text(b.skip(1)));
        steps_differ(a.skip(1), b.skip(1));
        assert(a =~= seq![a[0]] + a.skip(1));
        assert(b =~= seq![b[0]] + b.skip(1));
    }
}

/// A path that leads to the end of steps or beyond it takes these steps first.
proof fn led_by(way: Seq<Seq<char>>, steps: Seq<Seq<char>>)
    requires
        leads_into(path_text(way), steps),
    ensures
        steps.len() <= way.len(),
        way.take(steps.len() as int) == steps,
    decreases steps.len(),
{
    let path = path_text(way);
    if steps.len() == 0 {
        assert(way.take(0) =~= steps);
    } else {
        path_front(steps);
        let target = path_text(steps);
        if path != target {
            assert(path.subrange(0, target.len() as int + 1) == target + seq!['/']);
            assert(target =~= path.take(target.len() as int));
            assert(path[target.len() as int] == '/') by {
                assert((target + seq!['/'])[target.len() as int] == '/');
            }
        }
        assert(path.len() > 0);
        assert(way.len() > 0) by {
            if way.len() == 0 {
                assert(path =~= seq![]);
            }
        }
        path_front(way);
        let a = step_text(way[0]);
        let b = step_text(steps[0]);
        let rest = path_text(way.skip(1));
        let tail = path_text(steps.skip(1));
        no_slash(way[0]);
        no_slash(steps[0]);
        if way.len() > 1 {
            path_front(way.skip(1));
            assert(rest[0] == '/');
        } else {
            assert(rest =~= seq![]);
        }
        if steps.len() > 1 {
            path_front(steps.skip(1));
            assert(tail[0] == '/');
        } else {
            assert(tail =~= seq![]);
        }
        assert(target =~= path.take(target.len() as int));
        assert(target.len() == 1 + b.len() + tail.len());
        assert(path.len() == 1 + a.len() + rest.len());
        if a.len() < b.len() {
            assert(path[1 + a.len() as int] == target[1 + a.len() as int]);
            assert(target[1 + a.len() as int] == b[a.len() as int]);
            assert(path[1 + a.len() as int] == rest[0]);
        } else if b.len() < a.len() {
            assert(path[1 + b.len() as int] == a[b.len() as int]);
            if tail.len() > 0 {
                assert(target[1 + b.len() as int] == tail[0]);
            }
        }
        assert forall|i: int| 0 <= i < a.len() implies a[i] == b[i] by {
            assert(path[1 + i] == a[i]);
            assert(target[1 + i] == b[i]);
        }
        assert(a =~= b);
        steps_differ(way[0], steps[0]);
        let n = 1 + a.len() as int;
        assert(rest =~= path.skip(n));
        assert(tail =~= target.skip(n));
        if path == target {
            assert(rest == tail);
        } else {
            assert(rest.subrange(0, tail.len() as int + 1) =~= tail + seq!['/']);
        }
        led_by(way.skip(1), steps.skip(1));
        assert(way.take(steps.len() as int) =~= steps) by {
            assert(way.skip(1).take(steps.len() - 1) == steps.skip(1));
            assert forall|i: int| 0 <= i < steps.len() implies way.take(steps.len() as int)[i] == steps[i] by {
                if i > 0 {
                    assert(way.skip(1).take(steps.len() - 1)[i - 1] == steps.skip(1)[i - 1]);
                }
            }
        }
    }
}

// ── Numbers ─────────────────────────────────────────────────────────────────

/// Whether a number is an unsigned integer or a span of time in seconds. Two
/// of these are equal to `serde_json` only if they are the same, which does
/// not hold of the two zeros among floating-point numbers.
pub open spec fn is_plain(n: serde_json::Number) -> bool {
    ||| exists|k: u64| n == #[trigger] json_unsigned(k)
    ||| exists|secs: u64, nanos: u32| nanos < 1_000_000_000 && n == #[trigger] json_seconds(secs, nanos)
}

/// Whether every number in a value is an unsigned integer or a span of time.
pub open spec fn plain(v: JsonView) -> bool {
    forall|steps: Seq<Seq<char>>|
        match #[trigger] found(v, steps) {
            Some(JsonView::Number(n)) => is_plain(n),
            _ => true,
        }
}

/// A value without parts is plain unless it is a number that is not.
pub proof fn plain_leaf(v: JsonView)
    requires
        !(v is Array),
        !(v is Object),
        v matches JsonView::Number(n) ==> is_plain(n),
    ensures
        plain(v),
{
    assert forall|steps: Seq<Seq<char>>|
        match #[trigger] found(v, steps) {
            Some(JsonView::Number(n)) => is_plain(n),
            _ => true,
        } by {
        if steps.len() > 0 {
            assert(child(v, steps[0]) is None);
        }
    }
}

/// An object of plain values is plain.
pub proof fn plain_object(m: Map<Seq<char>, JsonView>)
    requires
        forall|k: Seq<char>| m.contains_key(k) ==> plain(#[trigger] m[k]),
    ensures
        plain(JsonView::Object(m)),
{
    let v = JsonView::Object(m);
    assert forall|steps: Seq<Seq<char>>|
        match #[trigger] found(v, steps) {
            Some(JsonView::Number(n)) => is_plain(n),
            _ => true,
        } by {
        if steps.len() > 0 && m.contains_key(steps[0]) {
            assert(plain(m[steps[0]]));
            assert(found(v, steps) == found(m[steps[0]], steps.skip(1)));
        }
    }
}

/// An array of plain values is plain.
pub proof fn plain_array(a: Seq<JsonView>)
    requires
        forall|i: int| 0 <= i < a.len() ==> plain(#[trigger] a[i]),
    ensures
        plain(JsonView::Array(a)),
{
    let v = JsonView::Array(a);
    assert forall|steps: Seq<Seq<char>>|
        match #[trigger] found(v, steps) {
            Some(JsonView::Number(n)) => is_plain(n),
            _ => true,
        } by {
        if steps.len() > 0 {
            match place(steps[0], a.len()) {
                Some(i) => {
                    assert(plain(a[i]));
                    assert(found(v, steps) == found(a[i], steps.skip(1)));
                },
                None => {},
            }
        }
    }
}

} // verus!
