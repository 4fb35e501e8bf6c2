pub mod data;
pub mod formats;
pub mod image_utils;
pub mod management;
pub mod render;

pub use data::MediaCapture;

use vstd::prelude::*;

verus! {

/// The registries the capture pipeline runs on, built once at host startup
/// and passed explicitly to every stage: the per-recorder ring buffers and
/// the lock-protected handoff store.
#[derive(Debug)]
pub struct CaptureState {
    pub recorders: data::ActiveRecorders,
    pub smuggler: data::DataSmuggler,
}

/// A hard initialization failure: setup cannot continue.
#[derive(Clone, Copy, Debug, PartialEq, Eq, Structural)]
pub enum InitError {
    /// The host's render phase is unavailable.  Without it no frame can
    /// ever be read back, so the pipeline refuses to start.
    RenderPhaseUnavailable,
}

/// The capture pipeline's entry point.  Building it wires the pipeline's
/// registries into the host application's startup.
pub struct BevyCapturePlugin;

impl BevyCapturePlugin {
    /// Build the pipeline's state.  The host must offer a render phase; a
    /// host without one is a fatal configuration, and setup aborts with a
    /// clear diagnostic instead of producing a pipeline that can never
    /// capture.
    pub fn build(&self, render_phase_available: bool) -> (r: Result<CaptureState, InitError>)
        ensures
            r is Ok <==> render_phase_available,
            r matches Ok(s) ==> {
                &&& s.recorders.0.entries@.len() == 0
                &&& s.smuggler.0.entries@.len() == 0
                &&& s.recorders.wf()
                &&& s.smuggler.wf()
            },
            r is Err ==> r->Err_0 == InitError::RenderPhaseUnavailable,
    {
        if render_phase_available {
            Ok(
                CaptureState {
                    recorders: data::ActiveRecorders(data::IdMap::new()),
                    smuggler: data::DataSmuggler(data::IdMap::new()),
                },
            )
        } else {
            Err(InitError::RenderPhaseUnavailable)
        }
    }
}

} // verus!
