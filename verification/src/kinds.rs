//! What a check covers (`DepScope`) and where a dependency is declared (`DepKind`).
use vstd::prelude::*;

verus! {

/// Scope of a dependency check.
#[derive(Debug, Clone, Copy, PartialEq, Eq, Structural)]
pub enum DepScope {
    /// Run only the unused-dependency scanner (`cargo udeps`).
    Unused,
    /// Run only the outdated-version scanner (`cargo outdated`).
    Outdated,
    /// Run both.
    All,
}

impl DepScope {
    /// Whether this scope includes the unused-dependency scanner.
    pub open spec fn spec_runs_unused(self) -> bool {
        self == DepScope::Unused || self == DepScope::All
    }

    /// Whether this scope includes the outdated-version scanner.
    pub open spec fn spec_runs_outdated(self) -> bool {
        self == DepScope::Outdated || self == DepScope::All
    }

    /// `true` for `Unused` and `All`.
    pub fn runs_unused(self) -> (r: bool)
        ensures
            r == self.spec_runs_unused(),
    {
        match self {
            DepScope::Unused | DepScope::All => true,
            DepScope::Outdated => false,
        }
    }

    /// `true` for `Outdated` and `All`.
    pub fn runs_outdated(self) -> (r: bool)
        ensures
            r == self.spec_runs_outdated(),
    {
        match self {
            DepScope::Outdated | DepScope::All => true,
            DepScope::Unused => false,
        }
    }
}

/// Every scope runs at least one scanner, and only `All` runs both.
pub proof fn lemma_scope_runs_something(s: DepScope)
    ensures
        s.spec_runs_unused() || s.spec_runs_outdated(),
        s.spec_runs_unused() && s.spec_runs_outdated() <==> s == DepScope::All,
{
}

/// Lower-case label of a scope, as it appears in reports.
pub open spec fn spec_scope_label(s: DepScope) -> Seq<char> {
    match s {
        DepScope::Unused => "unused"@,
        DepScope::Outdated => "outdated"@,
        DepScope::All => "all"@,
    }
}

/// Lower-case label of a scope, as it appears in reports.
pub fn scope_label(s: DepScope) -> (r: &'static str)
    ensures
        r@ == spec_scope_label(s),
{
    match s {
        DepScope::Unused => "unused",
        DepScope::Outdated => "outdated",
        DepScope::All => "all",
    }
}

/// Where a dependency is declared in `Cargo.toml`.
#[derive(Debug, Clone, Copy, PartialEq, Eq, PartialOrd, Ord, Hash, Structural)]
pub enum DepKind {
    /// `[dependencies]`.
    Normal,
    /// `[dev-dependencies]`.
    Development,
    /// `[build-dependencies]`.
    Build,
}

/// Position of a kind in the order `Normal < Development < Build`.
pub open spec fn kind_rank(k: DepKind) -> int {
    match k {
        DepKind::Normal => 0,
        DepKind::Development => 1,
        DepKind::Build => 2,
    }
}

impl DepKind {
    /// The `Cargo.toml` section name of this kind.
    pub open spec fn spec_as_str(self) -> Seq<char> {
        match self {
            DepKind::Normal => "dependencies"@,
            DepKind::Development => "dev-dependencies"@,
            DepKind::Build => "build-dependencies"@,
        }
    }

    /// Human-readable label, matching the `Cargo.toml` section name.
    pub fn as_str(self) -> (r: &'static str)
        ensures
            r@ == self.spec_as_str(),
    {
        match self {
            DepKind::Normal => "dependencies",
            DepKind::Development => "dev-dependencies",
            DepKind::Build => "build-dependencies",
        }
    }

    /// `self` comes strictly before `other` in the order `Normal < Development < Build`.
    pub fn precedes(self, other: DepKind) -> (r: bool)
        ensures
            r == (kind_rank(self) < kind_rank(other)),
    {
        let a: u8 = match self {
            DepKind::Normal => 0,
            DepKind::Development => 1,
            DepKind::Build => 2,
        };
        let b: u8 = match other {
            DepKind::Normal => 0,
            DepKind::Development => 1,
            DepKind::Build => 2,
        };
        a < b
    }
}

} // verus!
