//! The phases of application start-up at which custom hooks run.
use vstd::prelude::*;

verus! {

/// A phase of start-up.
#[derive(Clone, Copy, Debug, PartialEq, Eq, Structural)]
pub enum BootstrapPhase {
    PreConfig,
    PostConfig,
    PreDatabase,
    PostDatabase,
    PreSparks,
    PostSparks,
    PostBootstrap,
}

/// The snake-case name of a phase.
pub open spec fn phase_name(p: BootstrapPhase) -> Seq<char> {
    match p {
        BootstrapPhase::PreConfig => "pre_config"@,
        BootstrapPhase::PostConfig => "post_config"@,
        BootstrapPhase::PreDatabase => "pre_database"@,
        BootstrapPhase::PostDatabase => "post_database"@,
        BootstrapPhase::PreSparks => "pre_sparks"@,
        BootstrapPhase::PostSparks => "post_sparks"@,
        BootstrapPhase::PostBootstrap => "post_bootstrap"@,
    }
}

impl BootstrapPhase {
    /// The snake-case name of the phase.
    pub fn name(&self) -> (r: &'static str)
        ensures
            r@ == phase_name(*self),
    {
        match self {
            BootstrapPhase::PreConfig => "pre_config",
            BootstrapPhase::PostConfig => "post_config",
            BootstrapPhase::PreDatabase => "pre_database",
            BootstrapPhase::PostDatabase => "post_database",
            BootstrapPhase::PreSparks => "pre_sparks",
            BootstrapPhase::PostSparks => "post_sparks",
            BootstrapPhase::PostBootstrap => "post_bootstrap",
        }
    }
}

} // verus!
