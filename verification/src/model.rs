//! What the tool reads of `cargo metadata`: packages, their targets, the
//! workspace layout and the resolved features.
use vstd::prelude::*;

verus! {

/// The kinds of build target that the tool tells apart.
#[derive(Clone, Copy, Debug, PartialEq, Eq, Structural)]
pub enum TargetKind {
    /// A Rust library (`lib`).
    Lib,
    /// A procedural-macro library (`proc-macro`).
    ProcMacro,
    /// Any other kind (binaries, tests, examples, `rlib`, `cdylib`, ...).
    Other,
}

/// A build target of a package.
#[derive(Clone, Debug, PartialEq, Eq)]
pub struct Target {
    /// The target's name (for a library, the name the crate is known by).
    pub name: String,
    /// The kinds that cargo lists for the target.
    pub kinds: Vec<TargetKind>,
}

/// A package as `cargo metadata` describes it.
#[derive(Clone, Debug, PartialEq, Eq)]
pub struct Package {
    /// The package's name.
    pub name: String,
    /// The opaque identifier that cargo gives the package.
    pub id: String,
    /// The package's targets, in cargo's order.
    pub targets: Vec<Target>,
    /// The package's `[package.metadata]` table, as JSON text (`null` where
    /// there is none).
    pub metadata: String,
}

/// A node of the resolved dependency graph.
#[derive(Clone, Debug, PartialEq, Eq)]
pub struct ResolveNode {
    /// The identifier of the package that the node stands for.
    pub id: String,
    /// The features enabled on that package.
    pub features: Vec<String>,
}

/// The output of `cargo metadata`, as far as the tool reads it.
#[derive(Clone, Debug, PartialEq, Eq)]
pub struct Metadata {
    /// All packages, workspace members and dependencies alike.
    pub packages: Vec<Package>,
    /// The index in `packages` of the root package, if the manifest that was
    /// read is a package and not a virtual workspace.
    pub root: Option<usize>,
    /// The indices in `packages` of the workspace members, in package order.
    pub members: Vec<usize>,
    /// The nodes of the resolved dependency graph, if it was resolved.
    pub resolve: Option<Vec<ResolveNode>>,
}

impl Metadata {
    /// Every index that the metadata holds names a package.
    pub open spec fn wf(&self) -> bool {
        &&& (self.root matches Some(r) ==> r < self.packages@.len())
        &&& forall|i: int| 0 <= i < self.members@.len() ==> #[trigger] self.members@[i] < self.packages@.len()
    }
}

} // verus!
