//! The error taxonomy of the simulation.
//!
//! [`SimulationError::InvalidParameter`] reports inputs that the validation
//! layer rejects before any computation starts; the other variants report
//! failures of the presentation shell around the core (plot rendering, the
//! windowed view) and a user abort of the interactive menu.

use vstd::prelude::*;
use vstd::string::StringExecFns;

verus! {

/// What went wrong during a simulation run, from the caller's point of view.
///
/// A validation failure ([`SimulationError::InvalidParameter`]) is a usage
/// problem and is kept distinct from the failures of the surrounding
/// presentation layers.
pub enum SimulationError {
    /// The windowed view could not be launched or crashed.
    GuiError(String),
    /// A parameter was rejected before the computation started.
    InvalidParameter(String),
    /// The chart could not be rendered or written.
    PlotError(String),
    /// The user left the interactive menu without choosing parameters.
    UserCancelled,
}

impl SimulationError {
    /// The user-facing description of the error: a fixed prefix naming the
    /// error class, followed by the detail message where the variant has one.
    pub fn message(&self) -> (r: String)
        ensures
            (match self {
                SimulationError::GuiError(m) => r@ == "GUI error: "@ + m@,
                SimulationError::InvalidParameter(m) => r@ == "Invalid parameter: "@ + m@,
                SimulationError::PlotError(m) => r@ == "Plot error: "@ + m@,
                SimulationError::UserCancelled => r@ == "Simulation cancelled by user."@,
            }),
    {
        match self {
            SimulationError::GuiError(m) => {
                let mut s = String::from_str("GUI error: ");
                s.append(m.as_str());
                s
            }
            SimulationError::InvalidParameter(m) => {
                let mut s = String::from_str("Invalid parameter: ");
                s.append(m.as_str());
                s
            }
            SimulationError::PlotError(m) => {
                let mut s = String::from_str("Plot error: ");
                s.append(m.as_str());
                s
            }
            SimulationError::UserCancelled => String::from_str("Simulation cancelled by user."),
        }
    }
}

} // verus!
