//! Weaving hook statements into test cases, and the before-all barrier.
use vstd::prelude::*;
use crate::hooks::{
    add_hook, blocks_view, body_of, decl_role, hooks_of, is_test_case, is_test_marker,
    text_is, FunctionAttributeVariant, HooksData, HooksView, PrinterAttributeVariant,
};
use crate::model::{Container, Decl, DeclView, Fragment, FunctionDecl, FunctionView, PrinterError, Stmt};

verus! {

broadcast use vstd::seq_lib::group_seq_properties;

/// `code` placed at the end of `body`: appended when the function has no
/// declared result type (or the body is empty), else put just before the last
/// statement, which yields the result and stays last.
pub open spec fn place_end(body: Seq<Stmt>, code: Seq<Stmt>, explicit_result: bool) -> Seq<Stmt> {
    if explicit_result && body.len() > 0 {
        body.drop_last() + code + seq![body.last()]
    } else {
        body + code
    }
}

/// The body of a test case after weaving:
/// `[wait?] before_each invariant body invariant after_each [last if explicit]`.
pub open spec fn woven_body(body: Seq<Stmt>, explicit_result: bool, h: HooksView) -> Seq<Stmt> {
    let inv = h.invariants.flatten();
    let b1 = place_end(body, inv, explicit_result);
    let b2 = inv + b1;
    let b3 = h.before_each.flatten() + b2;
    let b4 = place_end(b3, h.after_each.flatten(), explicit_result);
    if h.before_all.len() > 0 {
        seq![Stmt::AwaitSetup] + b4
    } else {
        b4
    }
}

/// A retained declaration after weaving: test cases get the woven body,
/// everything else is unchanged.
pub open spec fn weave_decl(d: DeclView, h: HooksView) -> DeclView {
    match d {
        DeclView::Function(f) => if is_test_case(d) {
            DeclView::Function(FunctionView { body: woven_body(f.body, f.explicit_result, h), ..f })
        } else {
            d
        },
        _ => d,
    }
}

/// The plain declarations of `items`, in order, each woven with `h`.
pub open spec fn woven(items: Seq<DeclView>, h: HooksView) -> Seq<DeclView>
    decreases items.len(),
{
    if items.len() == 0 {
        Seq::empty()
    } else {
        let prev = woven(items.drop_last(), h);
        if decl_role(items.last()) is None {
            prev.push(weave_decl(items.last(), h))
        } else {
            prev
        }
    }
}

/// The number of plain declarations of `items` that are test cases.
pub open spec fn count_tests(items: Seq<DeclView>) -> nat
    decreases items.len(),
{
    if items.len() == 0 {
        0
    } else {
        let prev = count_tests(items.drop_last());
        if decl_role(items.last()) is None && is_test_case(items.last()) {
            prev + 1
        } else {
            prev
        }
    }
}

/// The body of the setup test case: open the channel, run the before-all
/// statements, then signal `n` waiting test cases.
pub open spec fn setup_body(before_all: Seq<Stmt>, n: nat) -> Seq<Stmt> {
    seq![Stmt::OpenChannel] + before_all + seq![Stmt::SignalReady(n as u64)]
}

/// The declarations put in front of the container when before-all is used.
pub open spec fn scaffolding(before_all: Seq<Stmt>, n: nat) -> Seq<DeclView> {
    seq![
        DeclView::CellImport,
        DeclView::ChannelImport,
        DeclView::RuntimeImport,
        DeclView::SyncCell,
        DeclView::SetupTask(setup_body(before_all, n)),
    ]
}

/// The container's declarations after the transformation.
pub open spec fn transform(items: Seq<DeclView>) -> Seq<DeclView> {
    let h = hooks_of(items);
    if h.before_all.len() > 0 {
        scaffolding(h.before_all, count_tests(items)) + woven(items, h)
    } else {
        woven(items, h)
    }
}

/// The result of the transformation on a fragment, with or without arguments.
pub open spec fn transform_result(args_given: bool, input: Fragment) -> Result<Seq<DeclView>, PrinterError> {
    if args_given {
        Err(PrinterError::UnexpectedArguments)
    } else {
        match input {
            Fragment::Module(c) => Ok(transform(c@)),
            Fragment::NotAModule => Err(PrinterError::NotAModule),
        }
    }
}

/// The store of a container grows by one declaration as `add_hook` says.
pub proof fn lemma_hooks_step(items: Seq<DeclView>, d: DeclView)
    ensures
        hooks_of(items.push(d)) == (match decl_role(d) {
            Some(role) => add_hook(hooks_of(items), role, body_of(d)),
            None => hooks_of(items),
        }),
{
    assert(items.push(d).drop_last() =~= items);
    let all = crate::hooks::hook_bodies(items, PrinterAttributeVariant::BeforeAll);
    all.lemma_flatten_push(body_of(d));
}

/// The role of a declaration, read from its first marker.
fn role_of_decl(d: &Decl) -> (r: Option<PrinterAttributeVariant>)
    ensures
        r == decl_role(d@),
{
    match d {
        Decl::Function(f) => {
            if f.markers.len() == 0 {
                return None;
            }
            let m = &f.markers[0];
            assert(f@.markers[0] == m@);
            if !m.bare || m.path.len() == 0 {
                return None;
            }
            assert(m@.path[0] == m.path@[0]@);
            match FunctionAttributeVariant::from(m.path[0].clone()) {
                FunctionAttributeVariant::Printer(role) => Some(role),
                FunctionAttributeVariant::External => None,
            }
        },
        _ => None,
    }
}

/// Whether a declaration is a test case: a function with a bare marker whose
/// path ends in `test`.
fn is_test_decl(d: &Decl) -> (r: bool)
    ensures
        r == is_test_case(d@),
{
    match d {
        Decl::Function(f) => {
            let ghost ms = f@.markers;
            let mut i: usize = 0;
            while i < f.markers.len()
                invariant
                    0 <= i <= f.markers.len(),
                    ms == f@.markers,
                    d@ == DeclView::Function(f@),
                    ms.len() == f.markers@.len(),
                    forall|j: int| 0 <= j < i ==> !is_test_marker(#[trigger] ms[j]),
                decreases f.markers.len() - i,
            {
                let m = &f.markers[i];
                assert(ms[i as int] == m@);
                if m.bare && m.path.len() > 0 {
                    assert(m@.path.last() == m.path@[m.path@.len() - 1]@);
                    if text_is(&m.path[m.path.len() - 1], "test") {
                        assert(is_test_marker(ms[i as int]));
                        return true;
                    }
                }
                i += 1;
            }
            false
        },
        _ => false,
    }
}

/// A copy of a statement vector.
fn copy_stmts(v: &Vec<Stmt>) -> (r: Vec<Stmt>)
    ensures
        r@ == v@,
{
    let mut r: Vec<Stmt> = Vec::new();
    let mut i: usize = 0;
    while i < v.len()
        invariant
            0 <= i <= v.len(),
            r@ == v@.take(i as int),
        decreases v.len() - i,
    {
        r.push(v[i]);
        assert(v@.take(i + 1) =~= v@.take(i as int).push(v@[i as int]));
        i += 1;
    }
    assert(v@.take(v.len() as int) =~= v@);
    r
}

/// Appends the statements of `src` to `dst`.
fn push_all(dst: &mut Vec<Stmt>, src: &Vec<Stmt>)
    ensures
        final(dst)@ == old(dst)@ + src@,
{
    let ghost start = dst@;
    let mut i: usize = 0;
    while i < src.len()
        invariant
            0 <= i <= src.len(),
            dst@ == start + src@.take(i as int),
        decreases src.len() - i,
    {
        dst.push(src[i]);
        assert(src@.take(i + 1) =~= src@.take(i as int).push(src@[i as int]));
        i += 1;
    }
    assert(src@.take(src.len() as int) =~= src@);
}

/// All statements of all blocks, in order.
fn flatten_blocks(code_blocks: &Vec<Vec<Stmt>>) -> (r: Vec<Stmt>)
    ensures
        r@ == blocks_view(code_blocks@).flatten(),
{
    let mut r: Vec<Stmt> = Vec::new();
    let mut i: usize = 0;
    while i < code_blocks.len()
        invariant
            0 <= i <= code_blocks.len(),
            r@ == blocks_view(code_blocks@.take(i as int)).flatten(),
        decreases code_blocks.len() - i,
    {
        push_all(&mut r, &code_blocks[i]);
        proof {
            let prev = blocks_view(code_blocks@.take(i as int));
            assert(blocks_view(code_blocks@.take(i + 1)) =~= prev.push(code_blocks@[i as int]@));
            prev.lemma_flatten_push(code_blocks@[i as int]@);
        }
        i += 1;
    }
    assert(code_blocks@.take(code_blocks.len() as int) =~= code_blocks@);
    r
}

/// Puts the statements of all blocks, in order, in front of the body.
pub fn insert_code_front(function: &mut FunctionDecl, code_blocks: &Vec<Vec<Stmt>>)
    ensures
        final(function)@ == (FunctionView {
            body: blocks_view(code_blocks@).flatten() + old(function)@.body,
            ..old(function)@
        }),
{
    let mut body = flatten_blocks(code_blocks);
    push_all(&mut body, &function.body);
    function.body = body;
}

/// Puts the statements of all blocks, in order, at the end of the body: after
/// the last statement when `implicit_result`, else just before it.
pub fn insert_code_end(function: &mut FunctionDecl, code_blocks: &Vec<Vec<Stmt>>, implicit_result: bool)
    ensures
        final(function)@ == (FunctionView {
            body: place_end(old(function)@.body, blocks_view(code_blocks@).flatten(), !implicit_result),
            ..old(function)@
        }),
{
    let code = flatten_blocks(code_blocks);
    if implicit_result || function.body.len() == 0 {
        push_all(&mut function.body, &code);
    } else {
        let ghost body = function.body@;
        let last = function.body.pop().unwrap();
        push_all(&mut function.body, &code);
        function.body.push(last);
        assert(function.body@ =~= body.drop_last() + code@ + seq![body.last()]);
    }
}

/// Puts the wait-prologue in front of the body.
pub fn insert_syncing_code(function: &mut FunctionDecl)
    ensures
        final(function)@ == (FunctionView { body: seq![Stmt::AwaitSetup] + old(function)@.body, ..old(function)@ }),
{
    let ghost body = function.body@;
    function.body.insert(0, Stmt::AwaitSetup);
    assert(function.body@ =~= seq![Stmt::AwaitSetup] + body);
}

/// Weaves every hook of the store into one test case.
pub fn weave_test_case(function: &mut FunctionDecl, hooks_data: &HooksData)
    ensures
        final(function)@ == (FunctionView {
            body: woven_body(old(function)@.body, old(function)@.explicit_result, hooks_data@),
            ..old(function)@
        }),
{
    let implicit_result = !function.explicit_result;
    insert_code_end(function, &hooks_data.invariants, implicit_result);
    insert_code_front(function, &hooks_data.invariants);
    insert_code_front(function, &hooks_data.before_each);
    insert_code_end(function, &hooks_data.after_each, implicit_result);
    if hooks_data.before_all.len() > 0 {
        insert_syncing_code(function);
    }
}

/// Collects the hook store of a container: the body of each declaration whose
/// first marker names a role, in source order.
pub fn get_hooks_from_mod(mod_item: &Container) -> (r: HooksData)
    ensures
        r@ == hooks_of(mod_item@),
{
    let items = &mod_item.items;
    let mut hooks_data = HooksData::new();
    let mut i: usize = 0;
    while i < items.len()
        invariant
            0 <= i <= items.len(),
            items == &mod_item.items,
            mod_item@.len() == items@.len(),
            hooks_data@ == hooks_of(mod_item@.take(i as int)),
        decreases items.len() - i,
    {
        let d = &items[i];
        assert(mod_item@[i as int] == d@);
        assert(mod_item@.take(i + 1) =~= mod_item@.take(i as int).push(d@));
        proof { lemma_hooks_step(mod_item@.take(i as int), d@); }
        match role_of_decl(d) {
            Some(role) => {
                match d {
                    Decl::Function(f) => {
                        let body = copy_stmts(&f.body);
                        role.populate_hooks_data(&mut hooks_data, body);
                    },
                    _ => {},
                }
            },
            None => {},
        }
        i += 1;
    }
    assert(mod_item@.take(items.len() as int) =~= mod_item@);
    hooks_data
}

/// A retained declaration after weaving.
fn weave_item(d: Decl, hooks_data: &HooksData) -> (r: Decl)
    ensures
        r@ == weave_decl(d@, hooks_data@),
{
    let test = is_test_decl(&d);
    match d {
        Decl::Function(mut f) => {
            if test {
                weave_test_case(&mut f, hooks_data);
            }
            Decl::Function(f)
        },
        other => other,
    }
}

/// The number of plain declarations that are test cases.
fn count_test_cases(items: &Vec<Decl>) -> (r: usize)
    ensures
        r == count_tests(items@.map_values(|d: Decl| d@)),
{
    let ghost all = items@.map_values(|d: Decl| d@);
    let mut n: usize = 0;
    let mut i: usize = 0;
    while i < items.len()
        invariant
            0 <= i <= items.len(),
            all == items@.map_values(|d: Decl| d@),
            n == count_tests(all.take(i as int)),
            n <= i,
        decreases items.len() - i,
    {
        let d = &items[i];
        assert(all[i as int] == d@);
        assert(all.take(i + 1).drop_last() =~= all.take(i as int));
        if role_of_decl(d).is_none() && is_test_decl(d) {
            n += 1;
        }
        i += 1;
    }
    assert(all.take(items.len() as int) =~= all);
    n
}

/// Applies the hooks of a tagged module: drops every hook declaration, weaves
/// the hooks into each test case, and, when before-all statements exist, puts
/// the barrier's declarations and the setup test case in front.
pub fn printer_core(args_given: bool, input: Fragment) -> (r: Result<Container, PrinterError>)
    ensures
        match (r, transform_result(args_given, input)) {
            (Ok(c), Ok(items)) => c@ == items,
            (Err(e), Err(f)) => e == f,
            _ => false,
        },
{
    if args_given {
        return Err(PrinterError::UnexpectedArguments);
    }
    let mut mod_item = match input {
        Fragment::Module(c) => c,
        Fragment::NotAModule => return Err(PrinterError::NotAModule),
    };
    let ghost all = mod_item@;
    let hooks_data = get_hooks_from_mod(&mod_item);
    let test_cases_num = count_test_cases(&mod_item.items);
    let mut items: Vec<Decl> = Vec::new();
    if hooks_data.before_all.len() > 0 {
        let mut setup: Vec<Stmt> = Vec::new();
        setup.push(Stmt::OpenChannel);
        push_all(&mut setup, &hooks_data.before_all);
        setup.push(Stmt::SignalReady(test_cases_num as u64));
        items.push(Decl::CellImport);
        items.push(Decl::ChannelImport);
        items.push(Decl::RuntimeImport);
        items.push(Decl::SyncCell);
        items.push(Decl::SetupTask(setup));
        assert(setup@ =~= setup_body(hooks_data@.before_all, count_tests(all)));
    }
    let ghost front = items@.map_values(|d: Decl| d@);
    assert(front =~= (if hooks_data@.before_all.len() > 0 {
        scaffolding(hooks_data@.before_all, count_tests(all))
    } else {
        Seq::empty()
    }));
    assert(all.len() == mod_item.items@.len());
    assert(mod_item.items@.len() == mod_item.items.len());
    let mut k: usize = 0;
    while mod_item.items.len() > 0
        invariant
            0 <= k <= all.len(),
            all.len() <= usize::MAX,
            mod_item@ == all.subrange(k as int, all.len() as int),
            items@.map_values(|d: Decl| d@) == front + woven(all.take(k as int), hooks_data@),
        decreases mod_item.items.len(),
    {
        let ghost rest = mod_item.items@;
        assert(mod_item@.len() == rest.len());
        assert(mod_item@[0] == rest[0]@);
        let d = mod_item.items.remove(0);
        assert(d@ == all[k as int]);
        assert(all.take(k + 1).drop_last() =~= all.take(k as int));
        assert(mod_item.items@ =~= rest.subrange(1, rest.len() as int));
        assert forall|j: int| 0 <= j < mod_item@.len() implies mod_item@[j] == all[k + 1 + j] by {
            assert(mod_item@[j] == rest[j + 1]@);
            assert(rest[j + 1]@ == all.subrange(k as int, all.len() as int)[j + 1]);
        }
        assert(mod_item@ =~= all.subrange(k + 1, all.len() as int));
        if role_of_decl(&d).is_none() {
            let w = weave_item(d, &hooks_data);
            let ghost before = items@;
            items.push(w);
            assert(items@.map_values(|d: Decl| d@) =~= before.map_values(|d: Decl| d@).push(w@));
        }
        k += 1;
    }
    assert(all.take(k as int) =~= all);
    Ok(Container { items })
}

} // verus!
