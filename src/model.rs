//! The program fragment that the weaver works on, as plain values.
//!
//! Statements and declarations of the user's source are not inspected by the
//! weaving rules: they are carried as handles (`u64`) that the caller maps back
//! to its own syntax values. Only the markers of a function, whether it
//! declares a result type, and the order of its statements take part.
use vstd::prelude::*;

verus! {

/// One statement of a function body.
#[derive(Debug, Clone, Copy, PartialEq, Eq, Structural)]
pub enum Stmt {
    /// A statement of the caller's source, by handle.
    Source(u64),
    /// The wait-prologue: poll until the shared channel exists, then take one
    /// ready signal from it.
    AwaitSetup,
    /// Fetch the shared channel, creating it if nobody has yet.
    OpenChannel,
    /// Send the ready signal this many times.
    SignalReady(u64),
}

/// A marker attached to a declaration (an attribute).
#[derive(Debug, PartialEq, Eq)]
pub struct Marker {
    /// The segments of the marker's path, first to last.
    pub path: Vec<String>,
    /// Whether the marker is a bare path, with no arguments or value.
    pub bare: bool,
}

/// A function declaration of the container.
#[derive(Debug, PartialEq, Eq)]
pub struct FunctionDecl {
    /// Handle of the declaration in the caller's source.
    pub item: u64,
    /// The markers, in source order.
    pub markers: Vec<Marker>,
    /// Whether the signature declares a result type.
    pub explicit_result: bool,
    /// The body's statements, in order.
    pub body: Vec<Stmt>,
}

/// One member of a container.
#[derive(Debug, PartialEq, Eq)]
pub enum Decl {
    /// A function-shaped declaration.
    Function(FunctionDecl),
    /// Any other declaration of the caller's source, by handle; passed through.
    Other(u64),
    /// Import of the once-initialised cell type.
    CellImport,
    /// Import of the channel constructor and its two ends.
    ChannelImport,
    /// Import of the async runtime that runs the setup task.
    RuntimeImport,
    /// The shared cell that holds the barrier's channel.
    SyncCell,
    /// The setup test case, with its body.
    SetupTask(Vec<Stmt>),
}

/// The contents of a tagged module.
#[derive(Debug, PartialEq, Eq)]
pub struct Container {
    pub items: Vec<Decl>,
}

/// What the transformation is applied to.
#[derive(Debug, PartialEq, Eq)]
pub enum Fragment {
    /// A module with a body.
    Module(Container),
    /// Anything else.
    NotAModule,
}

/// Why the transformation refused its input.
#[derive(Debug, Clone, Copy, PartialEq, Eq, Structural)]
pub enum PrinterError {
    /// The marker was given arguments; it takes none.
    UnexpectedArguments,
    /// The marker was put on something other than a module with a body.
    NotAModule,
}

pub struct MarkerView {
    pub path: Seq<Seq<char>>,
    pub bare: bool,
}

pub struct FunctionView {
    pub item: u64,
    pub markers: Seq<MarkerView>,
    pub explicit_result: bool,
    pub body: Seq<Stmt>,
}

pub enum DeclView {
    Function(FunctionView),
    Other(u64),
    CellImport,
    ChannelImport,
    RuntimeImport,
    SyncCell,
    SetupTask(Seq<Stmt>),
}

impl View for Marker {
    type V = MarkerView;

    open spec fn view(&self) -> MarkerView {
        MarkerView { path: self.path@.map_values(|s: String| s@), bare: self.bare }
    }
}

impl View for FunctionDecl {
    type V = FunctionView;

    open spec fn view(&self) -> FunctionView {
        FunctionView {
            item: self.item,
            markers: self.markers@.map_values(|m: Marker| m@),
            explicit_result: self.explicit_result,
            body: self.body@,
        }
    }
}

impl View for Decl {
    type V = DeclView;

    open spec fn view(&self) -> DeclView {
        match self {
            Decl::Function(f) => DeclView::Function(f@),
            Decl::Other(h) => DeclView::Other(*h),
            Decl::CellImport => DeclView::CellImport,
            Decl::ChannelImport => DeclView::ChannelImport,
            Decl::RuntimeImport => DeclView::RuntimeImport,
            Decl::SyncCell => DeclView::SyncCell,
            Decl::SetupTask(b) => DeclView::SetupTask(b@),
        }
    }
}

impl View for Container {
    type V = Seq<DeclView>;

    open spec fn view(&self) -> Seq<DeclView> {
        self.items@.map_values(|d: Decl| d@)
    }
}

} // verus!
