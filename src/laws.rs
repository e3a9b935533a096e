//! Properties of the transformation, proved over its specification.
use vstd::prelude::*;
use crate::hooks::{decl_role, hook_bodies, hooks_of, is_test_case, marker_role, HooksView, PrinterAttributeVariant};
use crate::model::{DeclView, FunctionView, Stmt};
use crate::weave::{count_tests, place_end, scaffolding, setup_body, transform, weave_decl, woven, woven_body};

verus! {

broadcast use vstd::seq_lib::group_seq_properties;

/// Weaving never changes a declaration's markers, so never its role.
proof fn lemma_weave_keeps_role(d: DeclView, h: HooksView)
    ensures
        decl_role(weave_decl(d, h)) == decl_role(d),
{
}

/// Every declaration that weaving keeps is plain.
proof fn lemma_woven_plain(items: Seq<DeclView>, h: HooksView)
    ensures
        forall|i: int| 0 <= i < woven(items, h).len() ==> decl_role(#[trigger] woven(items, h)[i]) is None,
    decreases items.len(),
{
    if items.len() > 0 {
        lemma_woven_plain(items.drop_last(), h);
        lemma_weave_keeps_role(items.last(), h);
    }
}

/// No declaration whose first marker names a hook role is left in the output.
pub proof fn lemma_hook_declarations_removed(items: Seq<DeclView>)
    ensures
        forall|i: int| 0 <= i < transform(items).len() ==> decl_role(#[trigger] transform(items)[i]) is None,
{
    let h = hooks_of(items);
    lemma_woven_plain(items, h);
    let out = transform(items);
    assert forall|i: int| 0 <= i < out.len() implies decl_role(#[trigger] out[i]) is None by {
        if h.before_all.len() > 0 {
            if i >= 5 {
                assert(out[i] == woven(items, h)[i - 5]);
            }
        }
    }
}

/// With no hook declarations, every role's store is empty.
proof fn lemma_no_hooks_empty_store(items: Seq<DeclView>, role: PrinterAttributeVariant)
    requires
        forall|i: int| 0 <= i < items.len() ==> decl_role(#[trigger] items[i]) is None,
    ensures
        hook_bodies(items, role) == Seq::<Seq<Stmt>>::empty(),
    decreases items.len(),
{
    if items.len() > 0 {
        let prev = items.drop_last();
        assert forall|i: int| 0 <= i < prev.len() implies decl_role(#[trigger] prev[i]) is None by {
            assert(prev[i] == items[i]);
        }
        lemma_no_hooks_empty_store(prev, role);
        assert(decl_role(items[items.len() - 1]) is None);
    }
}

/// Code placed at the end is no change when there is none.
proof fn lemma_place_nothing(body: Seq<Stmt>, explicit_result: bool)
    ensures
        place_end(body, Seq::empty(), explicit_result) == body,
{
    if explicit_result && body.len() > 0 {
        assert(body.drop_last() + Seq::empty() + seq![body.last()] =~= body);
    } else {
        assert(body + Seq::empty() =~= body);
    }
}

/// Weaving with an empty store leaves every declaration as it was.
proof fn lemma_woven_empty_store(items: Seq<DeclView>, h: HooksView)
    requires
        h.before_each.len() == 0,
        h.after_each.len() == 0,
        h.invariants.len() == 0,
        h.before_all.len() == 0,
        forall|i: int| 0 <= i < items.len() ==> decl_role(#[trigger] items[i]) is None,
    ensures
        woven(items, h) == items,
    decreases items.len(),
{
    if items.len() > 0 {
        let prev = items.drop_last();
        assert forall|i: int| 0 <= i < prev.len() implies decl_role(#[trigger] prev[i]) is None by {
            assert(prev[i] == items[i]);
        }
        lemma_woven_empty_store(prev, h);
        let d = items.last();
        assert(decl_role(items[items.len() - 1]) is None);
        assert(h.before_each.flatten() =~= Seq::empty());
        assert(h.after_each.flatten() =~= Seq::empty());
        assert(h.invariants.flatten() =~= Seq::empty());
        if let DeclView::Function(f) = d {
            lemma_place_nothing(f.body, f.explicit_result);
            let b2 = Seq::<Stmt>::empty() + f.body;
            assert(b2 =~= f.body);
            let b3 = Seq::<Stmt>::empty() + b2;
            assert(b3 =~= f.body);
            lemma_place_nothing(b3, f.explicit_result);
            assert(woven_body(f.body, f.explicit_result, h) == f.body);
            assert(FunctionView { body: f.body, ..f } == f);
        }
        assert(weave_decl(d, h) == d);
        assert(prev.push(d) =~= items);
    }
}

/// A container without hook declarations comes out unchanged.
pub proof fn lemma_no_hooks_no_change(items: Seq<DeclView>)
    requires
        forall|i: int| 0 <= i < items.len() ==> decl_role(#[trigger] items[i]) is None,
    ensures
        transform(items) == items,
{
    let h = hooks_of(items);
    lemma_no_hooks_empty_store(items, PrinterAttributeVariant::BeforeEach);
    lemma_no_hooks_empty_store(items, PrinterAttributeVariant::AfterEach);
    lemma_no_hooks_empty_store(items, PrinterAttributeVariant::Invariant);
    lemma_no_hooks_empty_store(items, PrinterAttributeVariant::BeforeAll);
    assert(Seq::<Seq<Stmt>>::empty().flatten() =~= Seq::<Stmt>::empty());
    lemma_woven_empty_store(items, h);
}

/// Transforming the output of the transformation again changes nothing.
pub proof fn lemma_transform_idempotent(items: Seq<DeclView>)
    ensures
        transform(transform(items)) == transform(items),
{
    lemma_hook_declarations_removed(items);
    lemma_no_hooks_no_change(transform(items));
}

/// Only the first marker decides a role: a function whose first marker names
/// no role is plain whatever its later markers say; it adds nothing to any
/// hook store, and, when it is no test case, is kept exactly as it was.
pub proof fn lemma_first_marker_only(items: Seq<DeclView>, f: FunctionView, h: HooksView)
    requires
        f.markers.len() > 0,
        marker_role(f.markers[0]) is None,
    ensures
        decl_role(DeclView::Function(f)) is None,
        hooks_of(items.push(DeclView::Function(f))) == hooks_of(items),
        !is_test_case(DeclView::Function(f)) ==> woven(items.push(DeclView::Function(f)), h)
            == woven(items, h).push(DeclView::Function(f)),
{
    let d = DeclView::Function(f);
    assert(items.push(d).drop_last() =~= items);
}

/// Whether a declaration is a function whose body begins with the wait-prologue.
pub open spec fn waits_for_setup(d: DeclView) -> bool {
    match d {
        DeclView::Function(f) => f.body.len() > 0 && f.body[0] == Stmt::AwaitSetup,
        _ => false,
    }
}

/// Weaving with before-all statements puts the wait-prologue first in every
/// test case, and keeps the number of test cases.
proof fn lemma_woven_waits(items: Seq<DeclView>, h: HooksView)
    requires
        h.before_all.len() > 0,
    ensures
        count_tests(woven(items, h)) == count_tests(items),
        forall|i: int| 0 <= i < woven(items, h).len() && is_test_case(#[trigger] woven(items, h)[i])
            ==> waits_for_setup(woven(items, h)[i]),
    decreases items.len(),
{
    if items.len() > 0 {
        let prev = items.drop_last();
        lemma_woven_waits(prev, h);
        let d = items.last();
        if decl_role(d) is None {
            lemma_weave_keeps_role(d, h);
            let w = weave_decl(d, h);
            assert(woven(prev, h).push(w).drop_last() =~= woven(prev, h));
        }
    }
}

/// The before-all barrier: the setup test case is emitted once, in front, and
/// sends exactly as many ready signals as there are test cases in the output;
/// each of those test cases waits for one signal before anything else.
pub proof fn lemma_barrier_signals_match_waiters(items: Seq<DeclView>)
    requires
        hooks_of(items).before_all.len() > 0,
    ensures
        transform(items).len() >= 5,
        transform(items)[4] == DeclView::SetupTask(setup_body(hooks_of(items).before_all, count_tests(items))),
        count_tests(transform(items).skip(5)) == count_tests(items),
        forall|i: int| 5 <= i < transform(items).len() && is_test_case(#[trigger] transform(items)[i])
            ==> waits_for_setup(transform(items)[i]),
        forall|i: int| 0 <= i < 5 ==> !is_test_case(#[trigger] transform(items)[i]),
{
    let h = hooks_of(items);
    lemma_woven_waits(items, h);
    let out = transform(items);
    let front = scaffolding(h.before_all, count_tests(items));
    assert(out == front + woven(items, h));
    assert(out.skip(5) =~= woven(items, h));
    assert forall|i: int| 5 <= i < out.len() && is_test_case(#[trigger] out[i]) implies waits_for_setup(out[i]) by {
        assert(out[i] == woven(items, h)[i - 5]);
    }
}

} // verus!
