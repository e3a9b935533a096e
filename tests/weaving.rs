use printer::{
    get_hooks_from_mod, insert_code_end, insert_code_front, insert_syncing_code, printer_core,
    weave_test_case, Container, Decl, Fragment, FunctionAttributeVariant, FunctionDecl, HooksData,
    Marker, PrinterAttributeVariant, PrinterError, Stmt,
};

fn marker(path: &[&str]) -> Marker {
    Marker { path: path.iter().map(|s| s.to_string()).collect(), bare: true }
}

fn marker_with_args(path: &[&str]) -> Marker {
    Marker { path: path.iter().map(|s| s.to_string()).collect(), bare: false }
}

fn stmts(ids: &[u64]) -> Vec<Stmt> {
    ids.iter().map(|&i| Stmt::Source(i)).collect()
}

fn range(from: u64, to: u64) -> Vec<u64> {
    (from..=to).collect()
}

fn cat(parts: &[&[u64]]) -> Vec<u64> {
    parts.iter().flat_map(|p| p.iter().copied()).collect()
}

fn func(item: u64, markers: Vec<Marker>, explicit_result: bool, body: &[u64]) -> Decl {
    Decl::Function(FunctionDecl { item, markers, explicit_result, body: stmts(body) })
}

fn hook(item: u64, role: &str, body: &[u64]) -> Decl {
    func(item, vec![marker(&[role])], false, body)
}

fn e2e_test(item: u64, body: &[u64]) -> Decl {
    func(item, vec![marker(&["ink_e2e", "test"])], true, body)
}

fn e2e_test_with(item: u64, body: Vec<Stmt>) -> Decl {
    Decl::Function(FunctionDecl { item, markers: vec![marker(&["ink_e2e", "test"])], explicit_result: true, body })
}

fn preamble() -> Vec<Decl> {
    vec![Decl::Other(1), Decl::Other(2), Decl::Other(3)]
}

fn run(items: Vec<Decl>) -> Vec<Decl> {
    printer_core(false, Fragment::Module(Container { items })).unwrap().items
}

fn body_of(d: &Decl) -> Vec<Stmt> {
    match d {
        Decl::Function(f) => f.body.clone(),
        _ => panic!("not a function"),
    }
}

fn with_wait(ids: &[u64]) -> Vec<Stmt> {
    let mut v = vec![Stmt::AwaitSetup];
    v.extend(stmts(ids));
    v
}

fn scaffolding(before_all: &[u64], n: u64) -> Vec<Decl> {
    let mut setup = vec![Stmt::OpenChannel];
    setup.extend(stmts(before_all));
    setup.push(Stmt::SignalReady(n));
    vec![Decl::CellImport, Decl::ChannelImport, Decl::RuntimeImport, Decl::SyncCell, Decl::SetupTask(setup)]
}

#[test]
fn ink_before_each_test() {
    let it_works = range(100, 108);
    let default_works = range(200, 205);
    let mut items = preamble();
    items.push(hook(10, "before_each", &[10, 11]));
    items.push(e2e_test(20, &it_works));
    items.push(e2e_test(21, &default_works));
    let after = run(items);
    let mut expected = preamble();
    expected.push(e2e_test(20, &cat(&[&[10, 11], &it_works])));
    expected.push(e2e_test(21, &cat(&[&[10, 11], &default_works])));
    assert_eq!(after, expected);
}

#[test]
fn ink_double_before_each_hook_single_function_test() {
    let it_works = range(100, 108);
    let mut items = preamble();
    items.push(hook(10, "before_each", &[10]));
    items.push(hook(11, "before_each", &[11]));
    items.push(e2e_test(20, &it_works));
    let after = run(items);
    let mut expected = preamble();
    expected.push(e2e_test(20, &cat(&[&[10, 11], &it_works])));
    assert_eq!(after, expected);
}

#[test]
fn ink_before_each_test2() {
    let it_works = range(100, 108);
    let mut items = preamble();
    items.push(hook(10, "before_each", &[10]));
    items.push(hook(11, "before_each", &[11]));
    items.push(e2e_test(20, &it_works));
    let after = run(items);
    assert_eq!(after.len(), 4);
    assert_eq!(body_of(&after[3]), stmts(&cat(&[&[10, 11], &it_works])));
}

#[test]
fn ink_test_after_each() {
    let it_works = range(110, 120);
    let default_works = range(200, 205);
    let mut items = preamble();
    items.push(hook(10, "after_each", &[30, 31]));
    items.push(e2e_test(20, &it_works));
    items.push(e2e_test(21, &default_works));
    let after = run(items);
    let mut expected = preamble();
    expected.push(e2e_test(20, &cat(&[&range(110, 119), &[30, 31, 120]])));
    expected.push(e2e_test(21, &cat(&[&range(200, 204), &[30, 31, 205]])));
    assert_eq!(after, expected);
}

#[test]
fn ink_test_invariant_attr() {
    let it_works = range(110, 120);
    let default_works = range(200, 205);
    let mut items = preamble();
    items.push(hook(10, "invariant", &[40, 41]));
    items.push(e2e_test(20, &it_works));
    items.push(e2e_test(21, &default_works));
    let after = run(items);
    let mut expected = preamble();
    expected.push(e2e_test(20, &cat(&[&[40, 41], &range(110, 119), &[40, 41, 120]])));
    expected.push(e2e_test(21, &cat(&[&[40, 41], &range(200, 204), &[40, 41, 205]])));
    assert_eq!(after, expected);
}

#[test]
fn ink_before_each_after_each_invariant_test() {
    let it_works = range(100, 108);
    let default_works = range(200, 205);
    let mut items = preamble();
    items.push(hook(10, "before_each", &[10, 11, 12]));
    items.push(hook(11, "after_each", &[30]));
    items.push(hook(12, "invariant", &[50, 51, 52]));
    items.push(e2e_test(20, &it_works));
    items.push(e2e_test(21, &default_works));
    let after = run(items);
    let mut expected = preamble();
    expected.push(e2e_test(20, &cat(&[&[10, 11, 12, 50, 51, 52], &range(100, 107), &[50, 51, 52, 30, 108]])));
    expected.push(e2e_test(21, &cat(&[&[10, 11, 12, 50, 51, 52], &range(200, 204), &[50, 51, 52, 30, 205]])));
    assert_eq!(after, expected);
}

#[test]
fn regular_test_mod() {
    let items = vec![
        hook(10, "before_each", &[10, 11]),
        hook(11, "after_each", &[30]),
        func(20, vec![marker(&["test"])], false, &[100, 101, 102]),
    ];
    let after = run(items);
    assert_eq!(after, vec![func(20, vec![marker(&["test"])], false, &[10, 11, 100, 101, 102, 30])]);
}

#[test]
fn ink_before_all_test() {
    let it_works = range(100, 108);
    let default_works = range(200, 205);
    let mut items = preamble();
    items.push(hook(9, "before_all", &[60]));
    items.push(hook(10, "before_each", &[10, 11]));
    items.push(e2e_test(20, &it_works));
    items.push(e2e_test(21, &default_works));
    let after = run(items);
    let mut expected = scaffolding(&[60], 2);
    expected.extend(preamble());
    expected.push(e2e_test_with(20, with_wait(&cat(&[&[10, 11], &it_works]))));
    expected.push(e2e_test_with(21, with_wait(&cat(&[&[10, 11], &default_works]))));
    assert_eq!(after, expected);
}

#[test]
fn printer_macro_used_on_non_mod() {
    assert_eq!(printer_core(false, Fragment::NotAModule), Err(PrinterError::NotAModule));
}

#[test]
fn printer_macro_with_args() {
    let items = vec![hook(10, "before_each", &[1]), func(20, vec![marker(&["test"])], false, &[2])];
    let r = printer_core(true, Fragment::Module(Container { items }));
    assert_eq!(r, Err(PrinterError::UnexpectedArguments));
    assert_eq!(printer_core(true, Fragment::NotAModule), Err(PrinterError::UnexpectedArguments));
}

#[test]
fn printer_with_helper_functions_in_tests_mod() {
    let it_works = range(100, 109);
    let default_works = range(200, 205);
    let mut items = preamble();
    items.push(hook(9, "before_all", &[60]));
    items.push(hook(10, "before_each", &[10, 11]));
    items.push(func(15, vec![], false, &[70, 71]));
    items.push(e2e_test(20, &it_works));
    items.push(e2e_test(21, &default_works));
    let after = run(items);
    let mut expected = scaffolding(&[60], 2);
    expected.extend(preamble());
    expected.push(func(15, vec![], false, &[70, 71]));
    expected.push(e2e_test_with(20, with_wait(&cat(&[&[10, 11], &it_works]))));
    expected.push(e2e_test_with(21, with_wait(&cat(&[&[10, 11], &default_works]))));
    assert_eq!(after, expected);
}

#[test]
fn hook_declarations_are_removed() {
    let items = vec![
        hook(1, "before_each", &[1]),
        hook(2, "after_each", &[2]),
        Decl::Other(3),
        hook(4, "invariant", &[4]),
        hook(5, "before_all", &[5]),
        func(6, vec![marker(&["test"])], false, &[6]),
    ];
    let after = run(items);
    assert_eq!(after.len(), 7);
    for d in &after {
        if let Decl::Function(f) = d {
            assert_eq!(f.item, 6);
        }
    }
}

#[test]
fn before_each_blocks_keep_source_order() {
    let items = vec![hook(1, "before_each", &[1]), hook(2, "before_each", &[2]), e2e_test(3, &[9])];
    assert_eq!(run(items), vec![e2e_test(3, &[1, 2, 9])]);
}

#[test]
fn invariant_with_implicit_result_goes_around_the_body() {
    let t = |b: &[u64]| func(3, vec![marker(&["test"])], false, b);
    let items = vec![hook(1, "invariant", &[1, 2]), t(&[9])];
    assert_eq!(run(items), vec![t(&[1, 2, 9, 1, 2])]);
}

#[test]
fn invariant_with_explicit_result_keeps_last_statement_last() {
    let t = |b: &[u64]| func(3, vec![marker(&["test"])], true, b);
    let items = vec![hook(1, "invariant", &[1, 2]), t(&[8, 9])];
    assert_eq!(run(items), vec![t(&[1, 2, 8, 1, 2, 9])]);
}

#[test]
fn before_all_barrier_with_helper() {
    let helper = func(4, vec![marker(&["inline"])], false, &[40, 41]);
    let items = vec![
        hook(1, "before_all", &[7]),
        hook(2, "before_each", &[8]),
        hook(3, "invariant", &[9]),
        func(5, vec![marker(&["test"])], false, &[50]),
        helper,
        func(6, vec![marker(&["test"])], false, &[60]),
    ];
    let after = run(items);
    let setups: Vec<&Decl> = after.iter().filter(|d| matches!(d, Decl::SetupTask(_))).collect();
    assert_eq!(setups.len(), 1);
    match setups[0] {
        Decl::SetupTask(b) => {
            assert_eq!(b, &vec![Stmt::OpenChannel, Stmt::Source(7), Stmt::SignalReady(2)]);
        }
        _ => unreachable!(),
    }
    assert_eq!(after[6], func(4, vec![marker(&["inline"])], false, &[40, 41]));
    assert_eq!(body_of(&after[5]), with_wait(&[8, 9, 50, 9]));
    assert_eq!(body_of(&after[7]), with_wait(&[8, 9, 60, 9]));
}

#[test]
fn second_pass_changes_nothing() {
    let items = vec![
        hook(1, "before_all", &[7]),
        hook(2, "before_each", &[8]),
        hook(3, "after_each", &[9]),
        Decl::Other(4),
        func(5, vec![marker(&["tokio", "test"])], true, &[50, 51]),
    ];
    let once = run(items);
    let again = run(once.iter().map(copy_decl).collect());
    assert_eq!(again, once);
}

fn copy_decl(d: &Decl) -> Decl {
    match d {
        Decl::Function(f) => Decl::Function(FunctionDecl {
            item: f.item,
            markers: f.markers.iter().map(|m| Marker { path: m.path.clone(), bare: m.bare }).collect(),
            explicit_result: f.explicit_result,
            body: f.body.clone(),
        }),
        Decl::Other(h) => Decl::Other(*h),
        Decl::CellImport => Decl::CellImport,
        Decl::ChannelImport => Decl::ChannelImport,
        Decl::RuntimeImport => Decl::RuntimeImport,
        Decl::SyncCell => Decl::SyncCell,
        Decl::SetupTask(b) => Decl::SetupTask(b.clone()),
    }
}

#[test]
fn hook_marker_after_other_marker_is_plain() {
    let odd = || func(2, vec![marker(&["allow"]), marker(&["before_each"])], false, &[5]);
    let items = vec![odd(), hook(1, "before_each", &[1]), func(3, vec![marker(&["test"])], false, &[9])];
    let after = run(items);
    assert_eq!(after, vec![odd(), func(3, vec![marker(&["test"])], false, &[1, 9])]);
}

#[test]
fn role_names_are_exact() {
    assert_eq!(PrinterAttributeVariant::try_from_string("before_each".to_string()), Some(PrinterAttributeVariant::BeforeEach));
    assert_eq!(PrinterAttributeVariant::try_from_string("after_each".to_string()), Some(PrinterAttributeVariant::AfterEach));
    assert_eq!(PrinterAttributeVariant::try_from_string("invariant".to_string()), Some(PrinterAttributeVariant::Invariant));
    assert_eq!(PrinterAttributeVariant::try_from_string("before_all".to_string()), Some(PrinterAttributeVariant::BeforeAll));
    assert_eq!(PrinterAttributeVariant::try_from_string("Before_each".to_string()), None);
    assert_eq!(PrinterAttributeVariant::try_from_string("before_each ".to_string()), None);
    assert_eq!(PrinterAttributeVariant::try_from_string("test".to_string()), None);
    assert_eq!(PrinterAttributeVariant::try_from_string(String::new()), None);
}

#[test]
fn function_attribute_from_name() {
    assert_eq!(
        FunctionAttributeVariant::from("invariant".to_string()),
        FunctionAttributeVariant::Printer(PrinterAttributeVariant::Invariant)
    );
    assert_eq!(FunctionAttributeVariant::from("tokio".to_string()), FunctionAttributeVariant::External);
}

#[test]
fn populate_groups_all_but_before_all() {
    let mut h = get_hooks_from_mod(&Container { items: vec![] });
    PrinterAttributeVariant::BeforeEach.populate_hooks_data(&mut h, stmts(&[1, 2]));
    PrinterAttributeVariant::BeforeEach.populate_hooks_data(&mut h, stmts(&[3]));
    PrinterAttributeVariant::AfterEach.populate_hooks_data(&mut h, stmts(&[4]));
    PrinterAttributeVariant::Invariant.populate_hooks_data(&mut h, stmts(&[5]));
    PrinterAttributeVariant::BeforeAll.populate_hooks_data(&mut h, stmts(&[6, 7]));
    PrinterAttributeVariant::BeforeAll.populate_hooks_data(&mut h, stmts(&[8]));
    assert_eq!(h.before_each, vec![stmts(&[1, 2]), stmts(&[3])]);
    assert_eq!(h.after_each, vec![stmts(&[4])]);
    assert_eq!(h.invariants, vec![stmts(&[5])]);
    assert_eq!(h.before_all, stmts(&[6, 7, 8]));
}

#[test]
fn hooks_are_collected_in_source_order() {
    let c = Container {
        items: vec![
            hook(1, "after_each", &[1]),
            Decl::Other(2),
            hook(3, "before_all", &[3]),
            hook(4, "after_each", &[4, 5]),
            func(5, vec![marker(&["printer", "before_each"])], false, &[6]),
            func(6, vec![marker_with_args(&["before_each"])], false, &[7]),
            hook(7, "before_all", &[8]),
        ],
    };
    let h = get_hooks_from_mod(&c);
    assert_eq!(
        h,
        HooksData { before_each: vec![], after_each: vec![stmts(&[1]), stmts(&[4, 5])], invariants: vec![], before_all: stmts(&[3, 8]) }
    );
}

#[test]
fn end_insertion_on_empty_body_appends() {
    let mut f = FunctionDecl { item: 1, markers: vec![], explicit_result: true, body: vec![] };
    insert_code_end(&mut f, &vec![stmts(&[1]), stmts(&[2])], false);
    assert_eq!(f.body, stmts(&[1, 2]));
    insert_code_end(&mut f, &vec![stmts(&[3])], false);
    assert_eq!(f.body, stmts(&[1, 3, 2]));
    insert_code_end(&mut f, &vec![stmts(&[4])], true);
    assert_eq!(f.body, stmts(&[1, 3, 2, 4]));
}

#[test]
fn front_insertion_and_prologue() {
    let mut f = FunctionDecl { item: 1, markers: vec![], explicit_result: false, body: stmts(&[9]) };
    insert_code_front(&mut f, &vec![stmts(&[1, 2]), stmts(&[3])]);
    assert_eq!(f.body, stmts(&[1, 2, 3, 9]));
    insert_syncing_code(&mut f);
    assert_eq!(f.body, with_wait(&[1, 2, 3, 9]));
}

#[test]
fn full_weave_order() {
    let c = Container {
        items: vec![
            hook(1, "before_each", &[1]),
            hook(2, "invariant", &[2]),
            hook(3, "after_each", &[3]),
            hook(4, "before_all", &[4]),
        ],
    };
    let h = get_hooks_from_mod(&c);
    let mut f = FunctionDecl { item: 9, markers: vec![marker(&["test"])], explicit_result: true, body: stmts(&[8, 9]) };
    weave_test_case(&mut f, &h);
    assert_eq!(f.body, with_wait(&[1, 2, 8, 2, 3, 9]));
}

#[test]
fn test_markers_by_last_segment_only() {
    let items = vec![
        hook(1, "before_each", &[1]),
        func(2, vec![marker(&["tokio", "test"])], false, &[20]),
        func(3, vec![marker(&["test", "other"])], false, &[30]),
        func(4, vec![marker_with_args(&["test"])], false, &[40]),
        func(5, vec![marker(&["allow"]), marker(&["test"]), marker(&["test"])], false, &[50]),
    ];
    let after = run(items);
    assert_eq!(body_of(&after[0]), stmts(&[1, 20]));
    assert_eq!(body_of(&after[1]), stmts(&[30]));
    assert_eq!(body_of(&after[2]), stmts(&[40]));
    assert_eq!(body_of(&after[3]), stmts(&[1, 50]));
}

#[test]
fn empty_before_all_adds_no_barrier() {
    let items = vec![hook(1, "before_all", &[]), func(2, vec![marker(&["test"])], false, &[20])];
    assert_eq!(run(items), vec![func(2, vec![marker(&["test"])], false, &[20])]);
}

#[test]
fn barrier_counts_only_test_cases() {
    let items = vec![
        hook(1, "before_all", &[1]),
        func(2, vec![marker(&["test"])], false, &[20]),
        func(3, vec![], false, &[30]),
        Decl::Other(4),
        func(5, vec![marker(&["test"])], false, &[50]),
        func(6, vec![marker(&["test"])], false, &[60]),
    ];
    let after = run(items);
    assert_eq!(after[4], Decl::SetupTask(vec![Stmt::OpenChannel, Stmt::Source(1), Stmt::SignalReady(3)]));
    assert_eq!(body_of(&after[6]), stmts(&[30]));
}

#[test]
fn empty_module_stays_empty() {
    assert_eq!(run(vec![]), vec![]);
}
