//! Whether the PawnIO driver is usable, and where to get it.
//!
//! Installing a kernel driver is a system-level change, so nothing here does it: the status
//! says what is true right now, and the person running the scan acts on it.
use vstd::prelude::*;

use crate::text::number::{dec, push_dec};
use crate::win::{error_text, WinError};

verus! {

/// Where to get PawnIO.
pub const INSTALL_URL: &'static str = "https://pawnio.eu/";

#[derive(Debug, Clone)]
pub enum PawnIoStatus {
    /// The library could not be loaded, or loaded but would not answer a version query.
    /// `detail` carries the real error, because the two have different fixes.
    NotInstalled { detail: String },
    /// The library loaded and reports a version.
    Installed { version: String },
}

/// The mathematical model of [`PawnIoStatus`].
#[verifier::ext_equal]
pub enum PawnIoStatusView {
    NotInstalled { detail: Seq<char> },
    Installed { version: Seq<char> },
}

impl DeepView for PawnIoStatus {
    type V = PawnIoStatusView;

    open spec fn deep_view(&self) -> PawnIoStatusView {
        match self {
            PawnIoStatus::NotInstalled { detail } => PawnIoStatusView::NotInstalled {
                detail: detail@,
            },
            PawnIoStatus::Installed { version } => PawnIoStatusView::Installed {
                version: version@,
            },
        }
    }
}

/// The status that follows from loading the library and asking for its version.
pub open spec fn status_of(loaded: Result<Result<(u8, u8, u8), WinError>, WinError>) -> PawnIoStatusView {
    match loaded {
        Ok(Ok((major, minor, patch))) => PawnIoStatusView::Installed {
            version: dec(major as nat) + "."@ + dec(minor as nat) + "."@ + dec(patch as nat),
        },
        Ok(Err(e)) => PawnIoStatusView::NotInstalled {
            detail: "PawnIOLib.dll loaded but pawnio_version failed: "@ + error_text(
                e.context@,
                e.code,
            ),
        },
        Err(e) => PawnIoStatusView::NotInstalled {
            detail: "PawnIOLib.dll: "@ + error_text(e.context@, e.code),
        },
    }
}

/// Whether PawnIO is available. `loaded` is the outcome of loading the library and, where
/// that worked, of asking for its version: a library that loads and answers means that the
/// driver package is present.
pub fn status(loaded: Result<Result<(u8, u8, u8), WinError>, WinError>) -> (s: PawnIoStatus)
    ensures
        s.deep_view() == status_of(loaded),
{
    match loaded {
        Ok(Ok((major, minor, patch))) => {
            let mut version = String::new();
            push_dec(&mut version, major as u128);
            assert(version@ == dec(major as nat));
            version.append(".");
            push_dec(&mut version, minor as u128);
            version.append(".");
            push_dec(&mut version, patch as u128);
            PawnIoStatus::Installed { version }
        },
        Ok(Err(e)) => PawnIoStatus::NotInstalled {
            detail: String::from_str("PawnIOLib.dll loaded but pawnio_version failed: ").concat(
                e.describe().as_str(),
            ),
        },
        Err(e) => PawnIoStatus::NotInstalled {
            detail: String::from_str("PawnIOLib.dll: ").concat(e.describe().as_str()),
        },
    }
}

/// The status explains itself either way: a detail or a version is never empty.
pub proof fn status_always_explains_itself(loaded: Result<Result<(u8, u8, u8), WinError>, WinError>)
    ensures
        match status_of(loaded) {
            PawnIoStatusView::NotInstalled { detail } => detail.len() > 0,
            PawnIoStatusView::Installed { version } => version.len() > 0,
        },
{
    reveal_strlit(".");
    reveal_strlit("PawnIOLib.dll: ");
    reveal_strlit("PawnIOLib.dll loaded but pawnio_version failed: ");
}

/// The driver counts as installed exactly where the library loaded and gave its version, which is
/// shown with a point between its parts; otherwise the error is shown, and which of the two calls
/// it came from.
pub proof fn installed_means_that_a_version_came_back(
    loaded: Result<Result<(u8, u8, u8), WinError>, WinError>,
)
    ensures
        match (loaded, status_of(loaded)) {
            (Ok(Ok(v)), PawnIoStatusView::Installed { version }) => version == dec(v.0 as nat)
                + "."@ + dec(v.1 as nat) + "."@ + dec(v.2 as nat),
            (Ok(Err(e)), PawnIoStatusView::NotInstalled { detail }) => detail
                == "PawnIOLib.dll loaded but pawnio_version failed: "@ + error_text(
                e.context@,
                e.code,
            ),
            (Err(e), PawnIoStatusView::NotInstalled { detail }) => detail == "PawnIOLib.dll: "@
                + error_text(e.context@, e.code),
            _ => false,
        },
{
}

} // verus!
