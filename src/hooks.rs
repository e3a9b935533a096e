//! Classification of declarations and the store of hook bodies.
use vstd::prelude::*;
use crate::model::{DeclView, MarkerView, Stmt};

verus! {

broadcast use vstd::seq_lib::group_seq_properties;

/// A role that a hook declaration can carry.
#[derive(Debug, Clone, Copy, PartialEq, Eq, Structural)]
pub enum PrinterAttributeVariant {
    BeforeEach,
    AfterEach,
    Invariant,
    BeforeAll,
}

/// The role named by the first marker of a function, or none.
#[derive(Debug, Clone, Copy, PartialEq, Eq, Structural)]
pub enum FunctionAttributeVariant {
    Printer(PrinterAttributeVariant),
    External,
}

/// The role that a marker name stands for.
pub open spec fn role_of_name(name: Seq<char>) -> Option<PrinterAttributeVariant> {
    if name == "before_each"@ {
        Some(PrinterAttributeVariant::BeforeEach)
    } else if name == "after_each"@ {
        Some(PrinterAttributeVariant::AfterEach)
    } else if name == "invariant"@ {
        Some(PrinterAttributeVariant::Invariant)
    } else if name == "before_all"@ {
        Some(PrinterAttributeVariant::BeforeAll)
    } else {
        None
    }
}

/// The role of a marker: looked up by the first segment of a bare path.
pub open spec fn marker_role(m: MarkerView) -> Option<PrinterAttributeVariant> {
    if m.bare && m.path.len() > 0 {
        role_of_name(m.path[0])
    } else {
        None
    }
}

/// The role of a declaration: that of its first marker, if it is a function
/// and has one; `None` stands for a plain declaration.
pub open spec fn decl_role(d: DeclView) -> Option<PrinterAttributeVariant> {
    match d {
        DeclView::Function(f) => if f.markers.len() > 0 {
            marker_role(f.markers[0])
        } else {
            None
        },
        _ => None,
    }
}

/// A marker that makes a test case: a bare path whose last segment is `test`.
pub open spec fn is_test_marker(m: MarkerView) -> bool {
    m.bare && m.path.len() > 0 && m.path.last() == "test"@
}

/// Whether some marker of the list makes a test case.
pub open spec fn has_test_marker(markers: Seq<MarkerView>) -> bool {
    exists|i: int| 0 <= i < markers.len() && is_test_marker(#[trigger] markers[i])
}

/// A declaration that is a test case: a function with a test marker anywhere.
pub open spec fn is_test_case(d: DeclView) -> bool {
    match d {
        DeclView::Function(f) => has_test_marker(f.markers),
        _ => false,
    }
}

/// The body of a declaration (empty for one that is not a function).
pub open spec fn body_of(d: DeclView) -> Seq<Stmt> {
    match d {
        DeclView::Function(f) => f.body,
        _ => Seq::empty(),
    }
}

/// The bodies of the declarations of the given role, in source order.
pub open spec fn hook_bodies(items: Seq<DeclView>, role: PrinterAttributeVariant) -> Seq<Seq<Stmt>>
    decreases items.len(),
{
    if items.len() == 0 {
        Seq::empty()
    } else {
        let prev = hook_bodies(items.drop_last(), role);
        if decl_role(items.last()) == Some(role) {
            prev.push(body_of(items.last()))
        } else {
            prev
        }
    }
}

/// The hook store, as values.
pub struct HooksView {
    pub before_each: Seq<Seq<Stmt>>,
    pub after_each: Seq<Seq<Stmt>>,
    pub invariants: Seq<Seq<Stmt>>,
    pub before_all: Seq<Stmt>,
}

/// The hook store that a container's declarations give.
pub open spec fn hooks_of(items: Seq<DeclView>) -> HooksView {
    HooksView {
        before_each: hook_bodies(items, PrinterAttributeVariant::BeforeEach),
        after_each: hook_bodies(items, PrinterAttributeVariant::AfterEach),
        invariants: hook_bodies(items, PrinterAttributeVariant::Invariant),
        before_all: hook_bodies(items, PrinterAttributeVariant::BeforeAll).flatten(),
    }
}

/// The store after one more declaration of the given role with the given body.
pub open spec fn add_hook(h: HooksView, role: PrinterAttributeVariant, body: Seq<Stmt>) -> HooksView {
    match role {
        PrinterAttributeVariant::BeforeEach => HooksView { before_each: h.before_each.push(body), ..h },
        PrinterAttributeVariant::AfterEach => HooksView { after_each: h.after_each.push(body), ..h },
        PrinterAttributeVariant::Invariant => HooksView { invariants: h.invariants.push(body), ..h },
        PrinterAttributeVariant::BeforeAll => HooksView { before_all: h.before_all + body, ..h },
    }
}

/// Statement sequences collected per role from hook declarations.
#[derive(Debug, PartialEq, Eq)]
pub struct HooksData {
    pub before_each: Vec<Vec<Stmt>>,
    pub after_each: Vec<Vec<Stmt>>,
    pub invariants: Vec<Vec<Stmt>>,
    pub before_all: Vec<Stmt>,
}

/// The views of a sequence of statement vectors.
pub open spec fn blocks_view(v: Seq<Vec<Stmt>>) -> Seq<Seq<Stmt>> {
    v.map_values(|b: Vec<Stmt>| b@)
}

impl View for HooksData {
    type V = HooksView;

    open spec fn view(&self) -> HooksView {
        HooksView {
            before_each: blocks_view(self.before_each@),
            after_each: blocks_view(self.after_each@),
            invariants: blocks_view(self.invariants@),
            before_all: self.before_all@,
        }
    }
}

impl HooksData {
    /// An empty store.
    pub fn new() -> (r: HooksData)
        ensures
            r@ == hooks_of(Seq::empty()),
    {
        let r = HooksData { before_each: Vec::new(), after_each: Vec::new(), invariants: Vec::new(), before_all: Vec::new() };
        assert(r@.before_each =~= Seq::empty());
        assert(r@.after_each =~= Seq::empty());
        assert(r@.invariants =~= Seq::empty());
        assert(Seq::<Seq<Stmt>>::empty().flatten() =~= Seq::empty());
        r
    }
}

/// Whether `s` holds exactly the characters of `lit`.
pub(crate) fn text_is(s: &String, lit: &str) -> (r: bool)
    ensures
        r == (s@ == lit@),
{
    let t = String::from_str(lit);
    *s == t
}

impl PrinterAttributeVariant {
    /// The role named `value`, if it names one.
    pub fn try_from_string(value: String) -> (r: Option<Self>)
        ensures
            r == role_of_name(value@),
    {
        if text_is(&value, "before_each") {
            return Some(Self::BeforeEach);
        } else if text_is(&value, "after_each") {
            return Some(Self::AfterEach);
        } else if text_is(&value, "invariant") {
            return Some(Self::Invariant);
        } else if text_is(&value, "before_all") {
            return Some(Self::BeforeAll);
        }
        None
    }

    /// Adds the body of one declaration of this role to the store: as one more
    /// block for before-each, after-each and invariant, flattened for before-all.
    pub fn populate_hooks_data(&self, hooks_data: &mut HooksData, stmt_vec: Vec<Stmt>)
        ensures
            final(hooks_data)@ == add_hook(old(hooks_data)@, *self, stmt_vec@),
    {
        let ghost b = stmt_vec@;
        let ghost before = hooks_data@;
        match self {
            PrinterAttributeVariant::BeforeEach => {
                hooks_data.before_each.push(stmt_vec);
                assert(hooks_data@.before_each =~= before.before_each.push(b));
            },
            PrinterAttributeVariant::AfterEach => {
                hooks_data.after_each.push(stmt_vec);
                assert(hooks_data@.after_each =~= before.after_each.push(b));
            },
            PrinterAttributeVariant::Invariant => {
                hooks_data.invariants.push(stmt_vec);
                assert(hooks_data@.invariants =~= before.invariants.push(b));
            },
            PrinterAttributeVariant::BeforeAll => {
                let mut more = stmt_vec;
                hooks_data.before_all.append(&mut more);
            },
        }
    }
}

impl From<String> for FunctionAttributeVariant {
    fn from(value: String) -> (r: Self) {
        match PrinterAttributeVariant::try_from_string(value) {
            Some(variant) => Self::Printer(variant),
            None => Self::External,
        }
    }
}

impl vstd::std_specs::convert::FromSpecImpl<String> for FunctionAttributeVariant {
    open spec fn obeys_from_spec() -> bool {
        true
    }

    open spec fn from_spec(v: String) -> Self {
        match role_of_name(v@) {
            Some(variant) => FunctionAttributeVariant::Printer(variant),
            None => FunctionAttributeVariant::External,
        }
    }
}

} // verus!
