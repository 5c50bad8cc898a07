//! What the comparison of two interfaces reports, and what it leads to.
use crate::abi::compatibility::{
    absent_names, absent_rule, added_error_rule, added_method_rule, additive, breaking,
    breaking_details, changes_between, each, error_diff, error_rule, event_diff, event_rule,
    function_diff, method_rule, renaming, type_diff, type_rule, verdict, ChangeKind, ChangeModel,
};
use crate::abi::evolution::{lemma_nothing_absent, lemma_one_absent};
use crate::abi::inventory::{
    case_names, event_names, function_names, type_names, CaseModel, EventModel, FunctionModel,
    InventoryModel, TypeModel,
};
use crate::sorting::{
    latest, lemma_latest, lemma_name_list, lemma_precedes_irreflexive, lemma_precedes_one_way,
    name_list, precedes,
};
use crate::text::{decimal, joined};
use vstd::prelude::*;

verus! {

/// Of the places where this name stands, `i` is the last.
pub open spec fn last_of(list: Seq<Seq<char>>, i: int) -> bool {
    0 <= i < list.len() && forall|j: int| i < j < list.len() ==> #[trigger] list[j] != list[i]
}

/// `n` is the one name that `a` has and `b` has not.
pub open spec fn sole(a: Seq<Seq<char>>, b: Seq<Seq<char>>, n: Seq<char>) -> bool {
    a.contains(n) && !b.contains(n) && forall|m: Seq<char>| #[trigger]
        a.contains(m) && !b.contains(m) ==> m == n
}

/// The change `c` is about a method that is `x` in the older interface and `y` in the newer.
pub open spec fn tells_of_methods(x: FunctionModel, y: FunctionModel, c: ChangeModel) -> bool {
    ||| x.inputs != y.inputs && c == breaking("type-changed method `"@ + x.name + "` inputs"@)
    ||| x.outputs != y.outputs && c == breaking("type-changed method `"@ + x.name + "` return type"@)
    ||| x.auth != y.auth && c == breaking("authorization changed on `"@ + x.name + "`"@)
}

/// The change `c` is about an event that is `x` in the older interface and `y` in the newer.
pub open spec fn tells_of_events(x: EventModel, y: EventModel, c: ChangeModel) -> bool {
    ||| x.topics != y.topics && c == breaking(
        "reordered or changed topics on event `"@ + x.name + "`"@,
    )
    ||| !x.data.is_prefix_of(y.data) && c == breaking("changed event payload `"@ + x.name + "`"@)
    ||| x.data.is_prefix_of(y.data) && x.data.len() < y.data.len() && c == additive(
        "appended event payload fields on `"@ + x.name + "`"@,
    )
}

/// What a list of names gives, one of its names gives.
proof fn lemma_each_holds<M>(list: Seq<Seq<char>>, f: spec_fn(Seq<char>) -> Seq<M>, c: M)
    ensures
        each(list, f).contains(c) <==> exists|n: Seq<char>| #[trigger]
            list.contains(n) && f(n).contains(c),
    decreases list.len(),
{
    if list.len() > 0 {
        let front = list.drop_last();
        let n = list.last();
        lemma_each_holds(front, f, c);
        let a = each(front, f);
        let b = f(n);
        assert(list[list.len() - 1] == n);
        assert(list.contains(n));
        lemma_in_both(a, b, c);
        assert forall|m: Seq<char>| #[trigger] front.contains(m) implies list.contains(m) by {
            let i = choose|i: int| 0 <= i < front.len() && front[i] == m;
            assert(list[i] == m);
        }
        if a.contains(c) {
            let m = choose|m: Seq<char>| #[trigger] front.contains(m) && f(m).contains(c);
            assert(list.contains(m));
        }
        if exists|m: Seq<char>| #[trigger] list.contains(m) && f(m).contains(c) {
            let m = choose|m: Seq<char>| #[trigger] list.contains(m) && f(m).contains(c);
            let i = choose|i: int| 0 <= i < list.len() && list[i] == m;
            if i < front.len() {
                assert(front[i] == m);
                assert(front.contains(m));
            }
        }
    }
}

/// What stands in one of two lists stands in both together.
proof fn lemma_in_both<M>(a: Seq<M>, b: Seq<M>, c: M)
    ensures
        (a + b).contains(c) <==> a.contains(c) || b.contains(c),
{
    let both = a + b;
    if a.contains(c) {
        let i = choose|i: int| 0 <= i < a.len() && a[i] == c;
        assert(both[i] == c);
    }
    if b.contains(c) {
        let i = choose|i: int| 0 <= i < b.len() && b[i] == c;
        assert(both[a.len() + i] == c);
    }
    if both.contains(c) {
        let i = choose|i: int| 0 <= i < both.len() && both[i] == c;
        if i < a.len() {
            assert(a[i] == c);
        } else {
            assert(b[i - a.len()] == c);
        }
    }
}

/// The absent names are those that one list has and the other has not.
proof fn lemma_absent(a: Seq<Seq<char>>, b: Seq<Seq<char>>, n: Seq<char>)
    ensures
        absent_names(a, b).contains(n) <==> a.contains(n) && !b.contains(n),
{
    lemma_name_list(a);
    let list = name_list(a);
    lemma_each_holds(list, absent_rule(b), n);
    if absent_names(a, b).contains(n) {
        let m = choose|m: Seq<char>| #[trigger]
            list.contains(m) && absent_rule(b)(m).contains(n);
        assert(absent_rule(b)(m)[0] == n);
        assert(list.contains(m) <==> a.contains(m));
    }
    if a.contains(n) && !b.contains(n) {
        assert(list.contains(n) <==> a.contains(n));
        assert(absent_rule(b)(n)[0] == n);
        assert(absent_rule(b)(n).contains(n));
    }
}

/// Exactly one name is absent, if there is one that alone is.
proof fn lemma_sole(a: Seq<Seq<char>>, b: Seq<Seq<char>>)
    ensures
        absent_names(a, b).len() == 1 <==> exists|n: Seq<char>| sole(a, b, n),
        forall|n: Seq<char>| #[trigger] sole(a, b, n) ==> absent_names(a, b) == seq![n],
        absent_names(a, b).len() == 1 ==> sole(a, b, absent_names(a, b)[0]),
{
    let gone = absent_names(a, b);
    assert forall|n: Seq<char>| #[trigger] sole(a, b, n) implies gone == seq![n] by {
        lemma_one_absent(a, b, n);
    }
    if gone.len() == 1 {
        let n = gone[0];
        assert(gone.contains(n));
        lemma_absent(a, b, n);
        assert forall|m: Seq<char>| #[trigger] a.contains(m) && !b.contains(m) implies m == n by {
            lemma_absent(a, b, m);
            assert(gone.contains(m));
        }
        assert(sole(a, b, n));
    }
}

/// A list finds a name where it stands last.
proof fn lemma_last(list: Seq<Seq<char>>, i: int)
    requires
        last_of(list, i),
    ensures
        latest(list, list[i]) == Some(i),
{
    lemma_latest(list, list[i]);
    assert(list.contains(list[i]));
    let k = latest(list, list[i]).unwrap();
    if k < i {
        assert(list[i] != list[i]);
    } else if k > i {
        assert(list[k] != list[i]);
    }
}

/// The last place of a name that is there.
proof fn lemma_has_last(list: Seq<Seq<char>>, n: Seq<char>) -> (i: int)
    requires
        list.contains(n),
    ensures
        last_of(list, i),
        list[i] == n,
        latest(list, n) == Some(i),
{
    lemma_latest(list, n);
    latest(list, n).unwrap()
}

/// Of methods the report says this and nothing else: which are gone, of which the inputs, the
/// return type or the authorization differ, which are new, and, where one is gone and one is new,
/// that this is a renaming. Of two methods of one name the last counts.
pub proof fn methods_are_reported_exactly(old: InventoryModel, new: InventoryModel, c: ChangeModel)
    ensures
        function_diff(old, new).contains(c) <==> {
            let a = function_names(old.functions);
            let b = function_names(new.functions);
            ||| exists|i: int| #[trigger]
                last_of(a, i) && !b.contains(a[i]) && c == breaking("removed method `"@ + a[i] + "`"@)
            ||| exists|i: int, k: int|
                #![trigger old.functions[i], new.functions[k]]
                last_of(a, i) && last_of(b, k) && a[i] == b[k] && tells_of_methods(
                    old.functions[i],
                    new.functions[k],
                    c,
                )
            ||| exists|n: Seq<char>| #[trigger]
                b.contains(n) && !a.contains(n) && c == additive("added method `"@ + n + "`"@)
            ||| exists|x: Seq<char>, y: Seq<char>|
                #![trigger sole(a, b, x), sole(b, a, y)]
                sole(a, b, x) && sole(b, a, y) && c == breaking(
                    "renamed method `"@ + x + "` -> `"@ + y + "`"@,
                )
        },
{
    let a = function_names(old.functions);
    let b = function_names(new.functions);
    let rule = method_rule(old.functions, new.functions);
    let removed = absent_names(a, b);
    let added = absent_names(b, a);
    let kept = each(name_list(a), rule);
    let gained = each(added, added_method_rule());
    let renamed = renaming(removed, added);
    lemma_name_list(a);
    lemma_each_holds(name_list(a), rule, c);
    lemma_each_holds(added, added_method_rule(), c);
    lemma_in_both(kept, gained, c);
    lemma_in_both(kept + gained, renamed, c);
    lemma_sole(a, b);
    lemma_sole(b, a);
    assert(forall|i: int| 0 <= i < a.len() ==> a[i] == (#[trigger] old.functions[i]).name);
    assert(forall|i: int| 0 <= i < b.len() ==> b[i] == (#[trigger] new.functions[i]).name);
    if kept.contains(c) {
        let n = choose|n: Seq<char>| #[trigger] name_list(a).contains(n) && rule(n).contains(c);
        assert(name_list(a).contains(n) <==> a.contains(n));
        let i = lemma_has_last(a, n);
        let said = rule(n);
        let p = choose|p: int| 0 <= p < said.len() && said[p] == c;
        if b.contains(n) {
            let k = lemma_has_last(b, n);
            assert(tells_of_methods(old.functions[i], new.functions[k], c));
        } else {
            lemma_latest(b, n);
            assert(last_of(a, i));
        }
    }
    if exists|i: int| #[trigger]
        last_of(a, i) && !b.contains(a[i]) && c == breaking("removed method `"@ + a[i] + "`"@) {
        let i = choose|i: int| #[trigger]
            last_of(a, i) && !b.contains(a[i]) && c == breaking("removed method `"@ + a[i] + "`"@);
        lemma_last(a, i);
        lemma_latest(b, a[i]);
        assert(a.contains(a[i]));
        assert(name_list(a).contains(a[i]));
        assert(rule(a[i])[0] == c);
        assert(kept.contains(c));
    }
    if exists|i: int, k: int|
        #![trigger old.functions[i], new.functions[k]]
        last_of(a, i) && last_of(b, k) && a[i] == b[k] && tells_of_methods(
            old.functions[i],
            new.functions[k],
            c,
        ) {
        let (i, k) = choose|i: int, k: int|
            #![trigger old.functions[i], new.functions[k]]
            last_of(a, i) && last_of(b, k) && a[i] == b[k] && tells_of_methods(
                old.functions[i],
                new.functions[k],
                c,
            );
        lemma_last(a, i);
        lemma_last(b, k);
        assert(a.contains(a[i]));
        assert(name_list(a).contains(a[i]));
        let said = rule(a[i]);
        let x = old.functions[i];
        let y = new.functions[k];
        let one = if x.inputs != y.inputs {
            1int
        } else {
            0
        };
        let two = one + if x.outputs != y.outputs {
            1int
        } else {
            0
        };
        if x.inputs != y.inputs {
            assert(said[0] == breaking("type-changed method `"@ + x.name + "` inputs"@));
        }
        if x.outputs != y.outputs {
            assert(said[one] == breaking("type-changed method `"@ + x.name + "` return type"@));
        }
        if x.auth != y.auth {
            assert(said[two] == breaking("authorization changed on `"@ + x.name + "`"@));
        }
        assert(said.contains(c));
        assert(kept.contains(c));
    }
    if gained.contains(c) {
        let n = choose|n: Seq<char>| #[trigger]
            added.contains(n) && added_method_rule()(n).contains(c);
        lemma_absent(b, a, n);
        assert(b.contains(n));
    }
    if exists|n: Seq<char>| #[trigger]
        b.contains(n) && !a.contains(n) && c == additive("added method `"@ + n + "`"@) {
        let n = choose|n: Seq<char>| #[trigger]
            b.contains(n) && !a.contains(n) && c == additive("added method `"@ + n + "`"@);
        lemma_absent(b, a, n);
        assert(added.contains(n));
        assert(added_method_rule()(n)[0] == c);
        assert(gained.contains(c));
    }
    if renamed.contains(c) {
        assert(sole(a, b, removed[0]) && sole(b, a, added[0]));
    }
    if exists|x: Seq<char>, y: Seq<char>|
        #![trigger sole(a, b, x), sole(b, a, y)]
        sole(a, b, x) && sole(b, a, y) && c == breaking(
            "renamed method `"@ + x + "` -> `"@ + y + "`"@,
        ) {
        assert(renamed[0] == c);
        assert(renamed.contains(c));
    }
}

/// Of errors the report says this and nothing else: which are gone, which have another number, and
/// which are new. It says nothing where the older interface records no errors.
pub proof fn errors_are_reported_exactly(old: InventoryModel, new: InventoryModel, c: ChangeModel)
    ensures
        error_diff(old, new).contains(c) <==> {
            let a = case_names(old.errors);
            let b = case_names(new.errors);
            ||| exists|i: int| #[trigger]
                last_of(a, i) && !b.contains(a[i]) && c == breaking("removed error `"@ + a[i] + "`"@)
            ||| exists|i: int, k: int|
                #![trigger old.errors[i], new.errors[k]]
                last_of(a, i) && last_of(b, k) && a[i] == b[k] && old.errors[i].discriminant
                    != new.errors[k].discriminant && c == breaking(
                    "renumbered error `"@ + a[i] + "`: "@ + decimal(
                        old.errors[i].discriminant as nat,
                    ) + " -> "@ + decimal(new.errors[k].discriminant as nat),
                )
            ||| a.len() > 0 && exists|n: Seq<char>| #[trigger]
                b.contains(n) && !a.contains(n) && c == additive("added error `"@ + n + "`"@)
        },
{
    let a = case_names(old.errors);
    let b = case_names(new.errors);
    let rule = error_rule(old.errors, new.errors);
    let added = absent_names(b, a);
    let kept = each(name_list(a), rule);
    let gained = each(added, added_error_rule());
    lemma_name_list(a);
    lemma_each_holds(name_list(a), rule, c);
    lemma_each_holds(added, added_error_rule(), c);
    lemma_in_both(kept, gained, c);
    assert(forall|i: int| 0 <= i < a.len() ==> a[i] == (#[trigger] old.errors[i]).name);
    assert(forall|i: int| 0 <= i < b.len() ==> b[i] == (#[trigger] new.errors[i]).name);
    if kept.contains(c) {
        let n = choose|n: Seq<char>| #[trigger] name_list(a).contains(n) && rule(n).contains(c);
        assert(name_list(a).contains(n) <==> a.contains(n));
        let i = lemma_has_last(a, n);
        let said = rule(n);
        let p = choose|p: int| 0 <= p < said.len() && said[p] == c;
        if b.contains(n) {
            let k = lemma_has_last(b, n);
            assert(old.errors[i].discriminant != new.errors[k].discriminant);
        } else {
            lemma_latest(b, n);
            assert(last_of(a, i));
        }
    }
    if exists|i: int| #[trigger]
        last_of(a, i) && !b.contains(a[i]) && c == breaking("removed error `"@ + a[i] + "`"@) {
        let i = choose|i: int| #[trigger]
            last_of(a, i) && !b.contains(a[i]) && c == breaking("removed error `"@ + a[i] + "`"@);
        lemma_last(a, i);
        lemma_latest(b, a[i]);
        assert(a.contains(a[i]));
        assert(name_list(a).contains(a[i]));
        assert(rule(a[i])[0] == c);
        assert(kept.contains(c));
    }
    if exists|i: int, k: int|
        #![trigger old.errors[i], new.errors[k]]
        last_of(a, i) && last_of(b, k) && a[i] == b[k] && old.errors[i].discriminant
            != new.errors[k].discriminant && c == breaking(
            "renumbered error `"@ + a[i] + "`: "@ + decimal(old.errors[i].discriminant as nat)
                + " -> "@ + decimal(new.errors[k].discriminant as nat),
        ) {
        let (i, k) = choose|i: int, k: int|
            #![trigger old.errors[i], new.errors[k]]
            last_of(a, i) && last_of(b, k) && a[i] == b[k] && old.errors[i].discriminant
                != new.errors[k].discriminant && c == breaking(
                "renumbered error `"@ + a[i] + "`: "@ + decimal(old.errors[i].discriminant as nat)
                    + " -> "@ + decimal(new.errors[k].discriminant as nat),
            );
        lemma_last(a, i);
        lemma_last(b, k);
        assert(a.contains(a[i]));
        assert(name_list(a).contains(a[i]));
        assert(rule(a[i])[0] == c);
        assert(kept.contains(c));
    }
    if gained.contains(c) {
        let n = choose|n: Seq<char>| #[trigger]
            added.contains(n) && added_error_rule()(n).contains(c);
        lemma_absent(b, a, n);
        assert(b.contains(n));
    }
    if exists|n: Seq<char>| #[trigger]
        b.contains(n) && !a.contains(n) && c == additive("added error `"@ + n + "`"@) {
        let n = choose|n: Seq<char>| #[trigger]
            b.contains(n) && !a.contains(n) && c == additive("added error `"@ + n + "`"@);
        lemma_absent(b, a, n);
        assert(added.contains(n));
        assert(added_error_rule()(n)[0] == c);
        assert(gained.contains(c));
    }
}

/// Of types the report says this and nothing else: which are gone, and of which the fields or the
/// cases differ.
pub proof fn types_are_reported_exactly(old: InventoryModel, new: InventoryModel, c: ChangeModel)
    ensures
        type_diff(old, new).contains(c) <==> {
            let a = type_names(old.types);
            let b = type_names(new.types);
            ||| exists|i: int| #[trigger]
                last_of(a, i) && !b.contains(a[i]) && c == breaking("removed type `"@ + a[i] + "`"@)
            ||| exists|i: int, k: int|
                #![trigger old.types[i], new.types[k]]
                last_of(a, i) && last_of(b, k) && a[i] == b[k] && (old.types[i].fields
                    != new.types[k].fields || old.types[i].cases != new.types[k].cases) && c
                    == breaking("type-changed UDT `"@ + a[i] + "`"@)
        },
{
    let a = type_names(old.types);
    let b = type_names(new.types);
    let rule = type_rule(old.types, new.types);
    lemma_name_list(a);
    lemma_each_holds(name_list(a), rule, c);
    assert(forall|i: int| 0 <= i < a.len() ==> a[i] == (#[trigger] old.types[i]).name);
    assert(forall|i: int| 0 <= i < b.len() ==> b[i] == (#[trigger] new.types[i]).name);
    if type_diff(old, new).contains(c) {
        let n = choose|n: Seq<char>| #[trigger] name_list(a).contains(n) && rule(n).contains(c);
        assert(name_list(a).contains(n) <==> a.contains(n));
        let i = lemma_has_last(a, n);
        let said = rule(n);
        let p = choose|p: int| 0 <= p < said.len() && said[p] == c;
        if b.contains(n) {
            let k = lemma_has_last(b, n);
            assert(old.types[i].fields != new.types[k].fields || old.types[i].cases
                != new.types[k].cases);
        } else {
            lemma_latest(b, n);
            assert(last_of(a, i));
        }
    }
    if exists|i: int| #[trigger]
        last_of(a, i) && !b.contains(a[i]) && c == breaking("removed type `"@ + a[i] + "`"@) {
        let i = choose|i: int| #[trigger]
            last_of(a, i) && !b.contains(a[i]) && c == breaking("removed type `"@ + a[i] + "`"@);
        lemma_last(a, i);
        lemma_latest(b, a[i]);
        assert(a.contains(a[i]));
        assert(name_list(a).contains(a[i]));
        assert(rule(a[i])[0] == c);
        assert(rule(a[i]).contains(c));
    }
    if exists|i: int, k: int|
        #![trigger old.types[i], new.types[k]]
        last_of(a, i) && last_of(b, k) && a[i] == b[k] && (old.types[i].fields
            != new.types[k].fields || old.types[i].cases != new.types[k].cases) && c == breaking(
            "type-changed UDT `"@ + a[i] + "`"@,
        ) {
        let (i, k) = choose|i: int, k: int|
            #![trigger old.types[i], new.types[k]]
            last_of(a, i) && last_of(b, k) && a[i] == b[k] && (old.types[i].fields
                != new.types[k].fields || old.types[i].cases != new.types[k].cases) && c
                == breaking("type-changed UDT `"@ + a[i] + "`"@);
        lemma_last(a, i);
        lemma_last(b, k);
        assert(a.contains(a[i]));
        assert(name_list(a).contains(a[i]));
        assert(rule(a[i])[0] == c);
        assert(rule(a[i]).contains(c));
    }
}

/// Of events the report says this and nothing else: which are gone, of which the topics differ, of
/// which the payload does not start with what it was, and of which it does and is longer.
pub proof fn events_are_reported_exactly(old: InventoryModel, new: InventoryModel, c: ChangeModel)
    ensures
        event_diff(old, new).contains(c) <==> {
            let a = event_names(old.events);
            let b = event_names(new.events);
            ||| exists|i: int| #[trigger]
                last_of(a, i) && !b.contains(a[i]) && c == breaking("removed event `"@ + a[i] + "`"@)
            ||| exists|i: int, k: int|
                #![trigger old.events[i], new.events[k]]
                last_of(a, i) && last_of(b, k) && a[i] == b[k] && tells_of_events(
                    old.events[i],
                    new.events[k],
                    c,
                )
        },
{
    let a = event_names(old.events);
    let b = event_names(new.events);
    let rule = event_rule(old.events, new.events);
    lemma_name_list(a);
    lemma_each_holds(name_list(a), rule, c);
    assert(forall|i: int| 0 <= i < a.len() ==> a[i] == (#[trigger] old.events[i]).name);
    assert(forall|i: int| 0 <= i < b.len() ==> b[i] == (#[trigger] new.events[i]).name);
    if event_diff(old, new).contains(c) {
        let n = choose|n: Seq<char>| #[trigger] name_list(a).contains(n) && rule(n).contains(c);
        assert(name_list(a).contains(n) <==> a.contains(n));
        let i = lemma_has_last(a, n);
        let said = rule(n);
        let p = choose|p: int| 0 <= p < said.len() && said[p] == c;
        if b.contains(n) {
            let k = lemma_has_last(b, n);
            assert(tells_of_events(old.events[i], new.events[k], c));
        } else {
            lemma_latest(b, n);
            assert(last_of(a, i));
        }
    }
    if exists|i: int| #[trigger]
        last_of(a, i) && !b.contains(a[i]) && c == breaking("removed event `"@ + a[i] + "`"@) {
        let i = choose|i: int| #[trigger]
            last_of(a, i) && !b.contains(a[i]) && c == breaking("removed event `"@ + a[i] + "`"@);
        lemma_last(a, i);
        lemma_latest(b, a[i]);
        assert(a.contains(a[i]));
        assert(name_list(a).contains(a[i]));
        assert(rule(a[i])[0] == c);
        assert(rule(a[i]).contains(c));
    }
    if exists|i: int, k: int|
        #![trigger old.events[i], new.events[k]]
        last_of(a, i) && last_of(b, k) && a[i] == b[k] && tells_of_events(
            old.events[i],
            new.events[k],
            c,
        ) {
        let (i, k) = choose|i: int, k: int|
            #![trigger old.events[i], new.events[k]]
            last_of(a, i) && last_of(b, k) && a[i] == b[k] && tells_of_events(
                old.events[i],
                new.events[k],
                c,
            );
        lemma_last(a, i);
        lemma_last(b, k);
        assert(a.contains(a[i]));
        assert(name_list(a).contains(a[i]));
        let said = rule(a[i]);
        let x = old.events[i];
        let y = new.events[k];
        if x.topics != y.topics {
            assert(said[0] == breaking("reordered or changed topics on event `"@ + x.name + "`"@));
        }
        if !x.data.is_prefix_of(y.data) {
            assert(said[said.len() - 1] == breaking("changed event payload `"@ + x.name + "`"@));
        } else if x.data.len() < y.data.len() {
            assert(said[said.len() - 1] == additive(
                "appended event payload fields on `"@ + x.name + "`"@,
            ));
        }
        assert(said.contains(c));
    }
}

/// The report is that of the methods, then that of the errors, of the types and of the events, each
/// as if there were nothing else to compare.
pub proof fn reports_follow_each_other(old: InventoryModel, new: InventoryModel)
    ensures
        changes_between(old, new) == function_diff(old, new) + error_diff(old, new) + type_diff(
            old,
            new,
        ) + event_diff(old, new),
        forall|x: InventoryModel, y: InventoryModel|
            x.functions == old.functions && y.functions == new.functions ==> #[trigger] function_diff(
                x,
                y,
            ) == function_diff(old, new),
        forall|x: InventoryModel, y: InventoryModel|
            x.errors == old.errors && y.errors == new.errors ==> #[trigger] error_diff(x, y)
                == error_diff(old, new),
        forall|x: InventoryModel, y: InventoryModel|
            x.types == old.types && y.types == new.types ==> #[trigger] type_diff(x, y) == type_diff(
                old,
                new,
            ),
        forall|x: InventoryModel, y: InventoryModel|
            x.events == old.events && y.events == new.events ==> #[trigger] event_diff(x, y)
                == event_diff(old, new),
{
}

/// A name behind all others gives what it gives at the end.
proof fn lemma_each_longer<M>(
    a: Seq<Seq<char>>,
    n: Seq<char>,
    f: spec_fn(Seq<char>) -> Seq<M>,
    g: spec_fn(Seq<char>) -> Seq<M>,
)
    requires
        forall|i: int| 0 <= i < a.len() ==> precedes(#[trigger] a[i], n),
        forall|m: Seq<char>| #[trigger] a.contains(m) ==> f(m) == g(m),
    ensures
        each(name_list(a.push(n)), g) == each(name_list(a), f) + g(n),
{
    let list = name_list(a);
    lemma_name_list(a);
    assert(a.push(n).drop_last() =~= a);
    if list.len() > 0 {
        assert(list.contains(list.last()));
        assert(a.contains(list.last()));
        let i = choose|i: int| 0 <= i < a.len() && a[i] == list.last();
        assert(precedes(a[i], n));
        lemma_precedes_one_way(list.last(), n);
    }
    assert(name_list(a.push(n)) == list.push(n));
    assert(list.push(n).drop_last() =~= list);
    assert forall|i: int| 0 <= i < list.len() implies f(#[trigger] list[i]) == g(list[i]) by {
        assert(list.contains(list[i]));
        assert(a.contains(list[i]));
    }
    lemma_each_same(list, f, g);
}

/// Rules that agree on the names of a list give the same for it.
proof fn lemma_each_same<M>(
    list: Seq<Seq<char>>,
    f: spec_fn(Seq<char>) -> Seq<M>,
    g: spec_fn(Seq<char>) -> Seq<M>,
)
    requires
        forall|i: int| 0 <= i < list.len() ==> f(#[trigger] list[i]) == g(list[i]),
    ensures
        each(list, f) == each(list, g),
    decreases list.len(),
{
    if list.len() > 0 {
        let front = list.drop_last();
        assert forall|i: int| 0 <= i < front.len() implies f(#[trigger] front[i]) == g(front[i]) by {
            assert(front[i] == list[i]);
        }
        lemma_each_same(front, f, g);
        assert(f(list[list.len() - 1]) == g(list[list.len() - 1]));
    }
}

/// Methods are reported on in the order of their names, each once: one that is gone, with a name
/// behind all others, is reported at the end.
pub proof fn methods_are_reported_in_order(
    old: InventoryModel,
    new: InventoryModel,
    f: FunctionModel,
)
    requires
        forall|i: int|
            0 <= i < old.functions.len() ==> precedes((#[trigger] old.functions[i]).name, f.name),
        forall|n: Seq<char>| #[trigger]
            function_names(new.functions).contains(n) ==> function_names(old.functions).contains(n),
    ensures
        function_diff((InventoryModel { functions: old.functions.push(f), ..old }), new)
            == function_diff(old, new).push(breaking("removed method `"@ + f.name + "`"@)),
{
    let longer = InventoryModel { functions: old.functions.push(f), ..old };
    let a = function_names(old.functions);
    let a2 = function_names(longer.functions);
    let b = function_names(new.functions);
    assert(a2 =~= a.push(f.name));
    assert(a2.drop_last() =~= a);
    let r = method_rule(old.functions, new.functions);
    let r2 = method_rule(longer.functions, new.functions);
    assert forall|i: int| 0 <= i < a.len() implies precedes(#[trigger] a[i], f.name) by {
        assert(a[i] == old.functions[i].name);
    }
    lemma_precedes_irreflexive(f.name);
    assert(!a.contains(f.name));
    assert forall|m: Seq<char>| #[trigger] a.contains(m) implies r(m) == r2(m) by {
        lemma_latest(a, m);
        assert(m != f.name);
    }
    lemma_each_longer(a, f.name, r, r2);
    assert forall|n: Seq<char>| #[trigger] b.contains(n) implies a2.contains(n) by {
        let i = choose|i: int| 0 <= i < a.len() && a[i] == n;
        assert(a2[i] == n);
    }
    lemma_nothing_absent(b, a);
    lemma_nothing_absent(b, a2);
    lemma_latest(b, f.name);
    assert(r2(f.name) == seq![breaking("removed method `"@ + f.name + "`"@)]);
    assert(function_diff(longer, new) =~= function_diff(old, new).push(
        breaking("removed method `"@ + f.name + "`"@),
    ));
}

/// Errors are reported on in the order of their names, each once.
pub proof fn errors_are_reported_in_order(old: InventoryModel, new: InventoryModel, c: CaseModel)
    requires
        old.errors.len() > 0,
        forall|i: int| 0 <= i < old.errors.len() ==> precedes((#[trigger] old.errors[i]).name, c.name),
        forall|n: Seq<char>| #[trigger]
            case_names(new.errors).contains(n) ==> case_names(old.errors).contains(n),
    ensures
        error_diff((InventoryModel { errors: old.errors.push(c), ..old }), new) == error_diff(
            old,
            new,
        ).push(breaking("removed error `"@ + c.name + "`"@)),
{
    let longer = InventoryModel { errors: old.errors.push(c), ..old };
    let a = case_names(old.errors);
    let a2 = case_names(longer.errors);
    let b = case_names(new.errors);
    assert(a2 =~= a.push(c.name));
    assert(a2.drop_last() =~= a);
    let r = error_rule(old.errors, new.errors);
    let r2 = error_rule(longer.errors, new.errors);
    assert forall|i: int| 0 <= i < a.len() implies precedes(#[trigger] a[i], c.name) by {
        assert(a[i] == old.errors[i].name);
    }
    lemma_precedes_irreflexive(c.name);
    assert(!a.contains(c.name));
    assert forall|m: Seq<char>| #[trigger] a.contains(m) implies r(m) == r2(m) by {
        lemma_latest(a, m);
        assert(m != c.name);
    }
    lemma_each_longer(a, c.name, r, r2);
    assert forall|n: Seq<char>| #[trigger] b.contains(n) implies a2.contains(n) by {
        let i = choose|i: int| 0 <= i < a.len() && a[i] == n;
        assert(a2[i] == n);
    }
    lemma_nothing_absent(b, a);
    lemma_nothing_absent(b, a2);
    lemma_latest(b, c.name);
    assert(r2(c.name) == seq![breaking("removed error `"@ + c.name + "`"@)]);
    assert(error_diff(longer, new) =~= error_diff(old, new).push(
        breaking("removed error `"@ + c.name + "`"@),
    ));
}

/// Types are reported on in the order of their names, each once.
pub proof fn types_are_reported_in_order(old: InventoryModel, new: InventoryModel, t: TypeModel)
    requires
        forall|i: int| 0 <= i < old.types.len() ==> precedes((#[trigger] old.types[i]).name, t.name),
        !type_names(new.types).contains(t.name),
    ensures
        type_diff((InventoryModel { types: old.types.push(t), ..old }), new) == type_diff(
            old,
            new,
        ).push(breaking("removed type `"@ + t.name + "`"@)),
{
    let longer = InventoryModel { types: old.types.push(t), ..old };
    let a = type_names(old.types);
    let a2 = type_names(longer.types);
    assert(a2 =~= a.push(t.name));
    assert(a2.drop_last() =~= a);
    let r = type_rule(old.types, new.types);
    let r2 = type_rule(longer.types, new.types);
    assert forall|i: int| 0 <= i < a.len() implies precedes(#[trigger] a[i], t.name) by {
        assert(a[i] == old.types[i].name);
    }
    lemma_precedes_irreflexive(t.name);
    assert forall|m: Seq<char>| #[trigger] a.contains(m) implies r(m) == r2(m) by {
        lemma_latest(a, m);
        assert(m != t.name);
    }
    lemma_each_longer(a, t.name, r, r2);
    lemma_latest(type_names(new.types), t.name);
    assert(r2(t.name) == seq![breaking("removed type `"@ + t.name + "`"@)]);
    assert(type_diff(longer, new) =~= type_diff(old, new).push(
        breaking("removed type `"@ + t.name + "`"@),
    ));
}

/// Events are reported on in the order of their names, each once.
pub proof fn events_are_reported_in_order(old: InventoryModel, new: InventoryModel, e: EventModel)
    requires
        forall|i: int| 0 <= i < old.events.len() ==> precedes((#[trigger] old.events[i]).name, e.name),
        !event_names(new.events).contains(e.name),
    ensures
        event_diff((InventoryModel { events: old.events.push(e), ..old }), new) == event_diff(
            old,
            new,
        ).push(breaking("removed event `"@ + e.name + "`"@)),
{
    let longer = InventoryModel { events: old.events.push(e), ..old };
    let a = event_names(old.events);
    let a2 = event_names(longer.events);
    assert(a2 =~= a.push(e.name));
    assert(a2.drop_last() =~= a);
    let r = event_rule(old.events, new.events);
    let r2 = event_rule(longer.events, new.events);
    assert forall|i: int| 0 <= i < a.len() implies precedes(#[trigger] a[i], e.name) by {
        assert(a[i] == old.events[i].name);
    }
    lemma_precedes_irreflexive(e.name);
    assert forall|m: Seq<char>| #[trigger] a.contains(m) implies r(m) == r2(m) by {
        lemma_latest(a, m);
        assert(m != e.name);
    }
    lemma_each_longer(a, e.name, r, r2);
    lemma_latest(event_names(new.events), e.name);
    assert(r2(e.name) == seq![breaking("removed event `"@ + e.name + "`"@)]);
    assert(event_diff(longer, new) =~= event_diff(old, new).push(
        breaking("removed event `"@ + e.name + "`"@),
    ));
}

/// New methods are reported in the order of their names, each once, behind what changed about the
/// others.
pub proof fn new_methods_are_reported_in_order(
    old: InventoryModel,
    new: InventoryModel,
    f: FunctionModel,
)
    requires
        forall|i: int|
            0 <= i < new.functions.len() ==> precedes((#[trigger] new.functions[i]).name, f.name),
        !function_names(old.functions).contains(f.name),
        forall|n: Seq<char>| #[trigger]
            function_names(old.functions).contains(n) ==> function_names(new.functions).contains(n),
    ensures
        function_diff(old, (InventoryModel { functions: new.functions.push(f), ..new }))
            == function_diff(old, new).push(additive("added method `"@ + f.name + "`"@)),
{
    let longer = InventoryModel { functions: new.functions.push(f), ..new };
    let a = function_names(old.functions);
    let b = function_names(new.functions);
    let b2 = function_names(longer.functions);
    assert(b2 =~= b.push(f.name));
    assert(b2.drop_last() =~= b);
    let r = method_rule(old.functions, new.functions);
    let r2 = method_rule(old.functions, longer.functions);
    assert forall|i: int| 0 <= i < b.len() implies precedes(#[trigger] b[i], f.name) by {
        assert(b[i] == new.functions[i].name);
    }
    lemma_each_longer(b, f.name, absent_rule(a), absent_rule(a));
    let added = absent_names(b, a);
    assert(absent_names(b2, a) =~= added.push(f.name));
    assert(added.push(f.name).drop_last() =~= added);
    lemma_name_list(a);
    assert forall|i: int| 0 <= i < name_list(a).len() implies r(#[trigger] name_list(a)[i]) == r2(
        name_list(a)[i],
    ) by {
        let m = name_list(a)[i];
        assert(name_list(a).contains(m));
        assert(a.contains(m));
        lemma_latest(b, m);
    }
    lemma_each_same(name_list(a), r, r2);
    assert forall|n: Seq<char>| #[trigger] a.contains(n) implies b2.contains(n) by {
        let i = choose|i: int| 0 <= i < b.len() && b[i] == n;
        assert(b2[i] == n);
    }
    lemma_nothing_absent(a, b);
    lemma_nothing_absent(a, b2);
    assert(function_diff(old, longer) =~= function_diff(old, new).push(
        additive("added method `"@ + f.name + "`"@),
    ));
}

/// New errors are reported in the order of their names, each once, behind what changed about the
/// others.
pub proof fn new_errors_are_reported_in_order(
    old: InventoryModel,
    new: InventoryModel,
    c: CaseModel,
)
    requires
        old.errors.len() > 0,
        forall|i: int| 0 <= i < new.errors.len() ==> precedes((#[trigger] new.errors[i]).name, c.name),
        !case_names(old.errors).contains(c.name),
    ensures
        error_diff(old, (InventoryModel { errors: new.errors.push(c), ..new })) == error_diff(
            old,
            new,
        ).push(additive("added error `"@ + c.name + "`"@)),
{
    let longer = InventoryModel { errors: new.errors.push(c), ..new };
    let a = case_names(old.errors);
    let b = case_names(new.errors);
    let b2 = case_names(longer.errors);
    assert(b2 =~= b.push(c.name));
    assert(b2.drop_last() =~= b);
    let r = error_rule(old.errors, new.errors);
    let r2 = error_rule(old.errors, longer.errors);
    assert forall|i: int| 0 <= i < b.len() implies precedes(#[trigger] b[i], c.name) by {
        assert(b[i] == new.errors[i].name);
    }
    lemma_each_longer(b, c.name, absent_rule(a), absent_rule(a));
    let added = absent_names(b, a);
    assert(absent_names(b2, a) =~= added.push(c.name));
    assert(added.push(c.name).drop_last() =~= added);
    lemma_name_list(a);
    assert forall|i: int| 0 <= i < name_list(a).len() implies r(#[trigger] name_list(a)[i]) == r2(
        name_list(a)[i],
    ) by {
        let m = name_list(a)[i];
        assert(name_list(a).contains(m));
        assert(a.contains(m));
        lemma_latest(b, m);
    }
    lemma_each_same(name_list(a), r, r2);
    assert(error_diff(old, longer) =~= error_diff(old, new).push(
        additive("added error `"@ + c.name + "`"@),
    ));
}

/// The details of the breaking changes are those of each breaking change, in their order, and of
/// no additive one.
pub proof fn breaking_details_are_in_order(a: Seq<ChangeModel>, c: ChangeModel, b: Seq<ChangeModel>)
    ensures
        breaking_details(Seq::empty()) == Seq::<Seq<char>>::empty(),
        breaking_details(a + seq![c] + b) == breaking_details(a) + (match c.kind {
            ChangeKind::Breaking => seq![c.detail],
            ChangeKind::Additive => Seq::empty(),
        }) + breaking_details(b),
    decreases b.len(),
{
    let all = a + seq![c] + b;
    if b.len() == 0 {
        assert(all =~= a.push(c));
        assert(a.push(c).drop_last() =~= a);
    } else {
        breaking_details_are_in_order(a, c, b.drop_last());
        assert(all.drop_last() =~= a + seq![c] + b.drop_last());
        assert(all.last() == b.last());
    }
}

/// A lower version is refused whatever changed, and a higher one is accepted whatever changed. The
/// same version is refused exactly if a change is breaking, with the details of all that are.
pub proof fn versions_decide(old: InventoryModel, new: InventoryModel)
    ensures
        new.abi_version < old.abi_version ==> verdict(old, new) == Err::<(), Seq<char>>(
            "ABI_VERSION downgrade is not allowed ("@ + decimal(old.abi_version as nat) + " -> "@
                + decimal(new.abi_version as nat) + ")"@,
        ),
        new.abi_version > old.abi_version ==> verdict(old, new) is Ok,
        new.abi_version == old.abi_version ==> (verdict(old, new) is Ok <==> forall|i: int|
            0 <= i < changes_between(old, new).len() ==> (#[trigger] changes_between(old, new)[i]).kind
                == ChangeKind::Additive),
        new.abi_version == old.abi_version && verdict(old, new) is Err ==> verdict(old, new) == Err::<
            (),
            Seq<char>,
        >(
            "breaking ABI change without ABI_VERSION bump (still "@ + decimal(new.abi_version as nat)
                + "): "@ + joined(breaking_details(changes_between(old, new)), "; "@),
        ),
{
    lemma_no_details(changes_between(old, new));
}

/// There are no details exactly if every change is additive.
proof fn lemma_no_details(changes: Seq<ChangeModel>)
    ensures
        breaking_details(changes).len() == 0 <==> forall|i: int|
            0 <= i < changes.len() ==> (#[trigger] changes[i]).kind == ChangeKind::Additive,
    decreases changes.len(),
{
    if changes.len() > 0 {
        let front = changes.drop_last();
        lemma_no_details(front);
        assert(forall|i: int| 0 <= i < front.len() ==> #[trigger] front[i] == changes[i]);
        if breaking_details(changes).len() == 0 {
            assert forall|i: int| 0 <= i < changes.len() implies (#[trigger] changes[i]).kind
                == ChangeKind::Additive by {
                if i < front.len() {
                    assert(front[i].kind == ChangeKind::Additive);
                }
            }
        } else if forall|i: int|
            0 <= i < changes.len() ==> (#[trigger] changes[i]).kind == ChangeKind::Additive {
            assert(changes[changes.len() - 1].kind == ChangeKind::Additive);
        }
    }
}

} // verus!
