//! Errors that can arise during a dependency check, and their messages.
use vstd::prelude::*;
use vstd::string::*;

verus! {

/// Errors that can arise during a dependency check.
#[derive(Debug)]
pub enum DepError {
    /// `cargo-udeps` (or the nightly toolchain it needs) is not installed.
    UdepsToolNotInstalled,
    /// `cargo-outdated` is not installed.
    OutdatedToolNotInstalled,
    /// Subprocess failure with the captured stderr.
    SubprocessFailed(String),
    /// Output parsing failure.
    ParseError(String),
}

/// The content of an error.
pub enum DepErrorView {
    UdepsToolNotInstalled,
    OutdatedToolNotInstalled,
    SubprocessFailed(Seq<char>),
    ParseError(Seq<char>),
}

impl View for DepError {
    type V = DepErrorView;

    open spec fn view(&self) -> DepErrorView {
        match self {
            DepError::UdepsToolNotInstalled => DepErrorView::UdepsToolNotInstalled,
            DepError::OutdatedToolNotInstalled => DepErrorView::OutdatedToolNotInstalled,
            DepError::SubprocessFailed(s) => DepErrorView::SubprocessFailed(s@),
            DepError::ParseError(s) => DepErrorView::ParseError(s@),
        }
    }
}

/// The human-readable message of an error.
pub open spec fn spec_message(e: &DepError) -> Seq<char> {
    match e {
        DepError::UdepsToolNotInstalled => "cargo-udeps is not installed (or nightly toolchain missing); run `cargo install cargo-udeps` and `rustup toolchain install nightly`"@,
        DepError::OutdatedToolNotInstalled => "cargo-outdated is not installed; run `cargo install cargo-outdated`"@,
        DepError::SubprocessFailed(s) => "dependency check subprocess failed: "@ + s@,
        DepError::ParseError(s) => "could not parse subprocess output: "@ + s@,
    }
}

impl DepError {
    /// The human-readable message of this error, with the remedy where
    /// one is known.
    pub fn message(&self) -> (m: String)
        ensures
            m@ == spec_message(self),
    {
        match self {
            DepError::UdepsToolNotInstalled => "cargo-udeps is not installed (or nightly toolchain missing); run `cargo install cargo-udeps` and `rustup toolchain install nightly`".to_owned(),
            DepError::OutdatedToolNotInstalled => "cargo-outdated is not installed; run `cargo install cargo-outdated`".to_owned(),
            DepError::SubprocessFailed(s) => {
                let mut m = "dependency check subprocess failed: ".to_owned();
                m.append(s.as_str());
                m
            },
            DepError::ParseError(s) => {
                let mut m = "could not parse subprocess output: ".to_owned();
                m.append(s.as_str());
                m
            },
        }
    }
}

} // verus!
