//! Backend tag, the once-per-process backend selection, and the
//! diagnostic backend name.

use crate::library::Platform;
use vstd::prelude::*;
use vstd::string::StringExecFns;

verus! {

/// Which discovery implementation serves this process.
#[derive(Debug, Clone, Copy, PartialEq, Eq, Structural)]
pub enum Backend {
    Native,
    Fallback,
}

/// The backend one availability probe of the native library points at.
pub open spec fn spec_backend_for(native_available: bool) -> Backend {
    if native_available {
        Backend::Native
    } else {
        Backend::Fallback
    }
}

/// How the committed backend choice evolves: the first selection commits
/// to its probe's verdict; every later selection returns the committed
/// backend whatever its probe says.
pub open spec fn spec_select(chosen: Option<Backend>, native_available: bool) -> (
    Backend,
    Option<Backend>,
) {
    match chosen {
        Some(b) => (b, Some(b)),
        None => (spec_backend_for(native_available), Some(spec_backend_for(native_available))),
    }
}

/// The once-per-process backend choice, consulted by every operation.
/// There is no re-probing and no hot-switching: availability of the
/// native library does not change at runtime.
pub struct BackendSelector {
    chosen: Option<Backend>,
}

impl BackendSelector {
    /// The committed backend, if one was selected yet.
    pub closed spec fn spec_chosen(&self) -> Option<Backend> {
        self.chosen
    }

    /// A selector that has not committed yet.
    pub fn new() -> (r: BackendSelector)
        ensures
            r.spec_chosen() is None,
    {
        BackendSelector { chosen: None }
    }

    /// Returns the backend, committing on first call.
    pub fn select(&mut self, native_available: bool) -> (b: Backend)
        ensures
            (b, final(self).spec_chosen()) == spec_select(
                old(self).spec_chosen(),
                native_available,
            ),
            final(self).spec_chosen() == Some(b),
    {
        match self.chosen {
            Some(b) => b,
            None => {
                let b = if native_available {
                    Backend::Native
                } else {
                    Backend::Fallback
                };
                self.chosen = Some(b);
                b
            },
        }
    }
}

/// Within a single process run the backend answer never changes: once a
/// selection committed, every later selection returns the same backend,
/// whatever its probe reports.
pub proof fn lemma_selection_deterministic(
    chosen: Option<Backend>,
    probe1: bool,
    probe2: bool,
)
    ensures
        ({
            let first = spec_select(chosen, probe1);
            let second = spec_select(first.1, probe2);
            &&& second.0 == first.0
            &&& second.1 == first.1
        }),
{
}

/// The diagnostic backend name: the vendor tag where the native library
/// is the system's own, a generic tag elsewhere, and the engine's name
/// for the fallback.
pub open spec fn spec_backend_info(backend: Backend, platform: Platform) -> Seq<char> {
    match backend {
        Backend::Native => {
            if platform == Platform::MacOs || platform == Platform::Windows {
                "bonjour"@
            } else {
                "native"@
            }
        },
        Backend::Fallback => "mdns-sd"@,
    }
}

/// The diagnostic backend name. Diagnostics only, never for branching
/// caller logic.
pub fn get_backend_info(backend: Backend, platform: Platform) -> (r: String)
    ensures
        r@ == spec_backend_info(backend, platform),
{
    match backend {
        Backend::Native => {
            match platform {
                Platform::MacOs => String::from_str("bonjour"),
                Platform::Windows => String::from_str("bonjour"),
                _ => String::from_str("native"),
            }
        },
        Backend::Fallback => String::from_str("mdns-sd"),
    }
}

} // verus!
