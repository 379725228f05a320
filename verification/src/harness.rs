//! The Wayland wire-protocol coverage matrix of the client harness.
use vstd::prelude::*;

verus! {

#[derive(Debug, Clone, Copy, PartialEq, Eq, Structural)]
pub enum CoverageStatus {
    HarnessOnly,
    NotRealSession,
}

/// One protocol area, what covers it, and how.
#[derive(Debug, Clone, Copy, PartialEq, Eq)]
pub struct CoverageRow {
    pub area: &'static str,
    pub protocols: &'static str,
    pub status: CoverageStatus,
    pub note: &'static str,
}

/// The coverage matrix: core/SHM/surface and XDG shell through the harness,
/// the remaining protocols listed without a real session.
pub fn coverage_matrix() -> (r: Vec<CoverageRow>)
    ensures
        r@.len() == 3,
        r@[0].area@ == "Core / SHM / Surface"@ && r@[0].status == CoverageStatus::HarnessOnly,
        r@[1].area@ == "XDG Shell"@ && r@[1].status == CoverageStatus::HarnessOnly,
        r@[2].area@ == "Seat / Data Device / Viewporter / Presentation / Layer Shell"@
            && r@[2].status == CoverageStatus::NotRealSession,
{
    let mut rows: Vec<CoverageRow> = Vec::new();
    rows.push(CoverageRow {
        area: "Core / SHM / Surface",
        protocols: "wl_display, wl_registry, wl_compositor, wl_surface, wl_shm",
        status: CoverageStatus::HarnessOnly,
        note: "tempdir isolated socket probe reaches the core handshake and buffer path.",
    });
    rows.push(CoverageRow {
        area: "XDG Shell",
        protocols: "xdg_wm_base, xdg_surface, xdg_toplevel",
        status: CoverageStatus::HarnessOnly,
        note: "real-client isolated probe verifies xdg-shell lifecycle without wl_display_connect(NULL).",
    });
    rows.push(CoverageRow {
        area: "Seat / Data Device / Viewporter / Presentation / Layer Shell",
        protocols: "wl_seat, wl_data_device_manager, wp_viewporter, wp_presentation, zwlr_layer_shell_v1",
        status: CoverageStatus::NotRealSession,
        note: "matrix only; no real Wayland session or input device is touched.",
    });
    proof {
        reveal_strlit("Core / SHM / Surface");
        reveal_strlit("XDG Shell");
        reveal_strlit("Seat / Data Device / Viewporter / Presentation / Layer Shell");
    }
    rows
}

/// Whether this build carries the libwayland-client probe; it is built
/// without it.
pub fn has_libwayland_client() -> (r: bool)
    ensures
        !r,
{
    false
}

} // verus!
