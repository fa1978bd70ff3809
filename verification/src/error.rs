//! The typed error surfaces of T0 assembly/solving, T1 assembly, and the QSS tier dispatch.
//!
//! Failures raised by the document loader, the interpolant builders, the tyre-model builder and the
//! ERS rulebook builder arrive here as their rendered messages.
use vstd::prelude::*;

verus! {

/// An error assembling a T0 point-mass vehicle or running the T0 passes.
#[derive(Clone, Debug, PartialEq, Eq)]
pub enum T0Error {
    /// A referenced `.ptm`/`.tyr` file failed to load or validate (the loader's message).
    Load(String),
    /// A torque/taper envelope could not be fitted (the interpolant builder's message).
    Envelope(String),
    /// A tyre force model could not be built from a `.tyr` document (the builder's message).
    TireBuild(String),
    /// A drive unit uses a gridded efficiency map, which the point-mass tier cannot read.
    UnsupportedEfficiencyMap {
        /// Index of the offending drive unit.
        unit: usize,
    },
    /// The ERS rulebook could not be built from the `ers:` block (the builder's message).
    ErsRulebook(String),
    /// The vehicle has no propulsion source T0 can use (no drive units and no ERS).
    NoDrive,
    /// The aero block has no `constant` coefficients and `allow_degraded` was not set.
    NoConstantAero,
    /// The closed-lap forward/backward passes did not reach a fixed point within the cap.
    PassesDiverged {
        /// The iteration cap that was hit.
        iterations: usize,
    },
    /// The workspace was sized for a different number of stations than the path.
    WorkspaceMismatch {
        /// Workspace station count.
        workspace: usize,
        /// Path station count.
        path: usize,
    },
}

/// An error assembling a T1 vehicle for the trim solver.
#[derive(Clone, Debug, PartialEq, Eq)]
pub enum T1Error {
    /// A referenced `.tyr` file failed to load or validate (the loader's message).
    Load(String),
    /// A tyre force model could not be built from a `.tyr` document (the builder's message).
    TireBuild(String),
    /// The aero block has no `constant` coefficients and no ride-height map was installed, and
    /// `allow_degraded` was not set.
    NoConstantAero,
    /// A ride-height/yaw aero map referenced an axis name T1 does not recognise.
    UnknownAeroAxis {
        /// The unrecognised axis name.
        name: String,
    },
    /// The ride-height/yaw aero map could not be built into an interpolant (the builder's message).
    AeroMap(String),
    /// A powertrain peak-torque envelope could not be fitted (the builder's message).
    Envelope(String),
    /// A `.ptm` efficiency/loss sidecar table could not be built (the builder's message).
    PowertrainMap(String),
    /// A powertrain-map install referenced a drive-unit index outside the drivetrain.
    UnknownDriveUnit {
        /// The out-of-range drive-unit index.
        unit: usize,
    },
    /// A machine `.emotor` thermal network could not be assembled.
    Thermal(String),
    /// A `battery/1.0` pack could not be assembled.
    Battery(String),
    /// A g-g-g-v envelope table could not be built into an interpolant (the builder's message).
    GgvEnvelope(String),
}

/// Errors from the tier dispatch and the QSS lap solve.
#[derive(Clone, Debug, PartialEq, Eq)]
pub enum QssError {
    /// A T0 velocity-profile failure.
    T0(T0Error),
    /// A T1 trim / envelope failure.
    T1(T1Error),
    /// An energy-manager coupling was supplied without the electro slow stack it schedules.
    ErsCouplingWithoutPack,
    /// A transient tier was requested — it is not implemented in this milestone.
    TierNotImplemented {
        /// The requested tier as written in `sim.yaml` (`t2` / `t3`).
        tier: &'static str,
        /// The milestone that ships it (`M4` for T2, `M6` for T3).
        milestone: &'static str,
    },
}

} // verus!
