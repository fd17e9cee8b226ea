//! The phases of the cosmos scene. When a phase ends depends on the scene's
//! timers and physics, which run outside the library; which phase follows is
//! fixed here.
use vstd::prelude::*;

verus! {

/// The phases of the universe, in the order the scene goes through them.
#[derive(Debug, Clone, Copy, PartialEq, Eq, Structural)]
pub enum UniverseState {
    Darkness,
    BigBang,
    Expansion,
    Accretion,
    Singularity,
    Collapse,
}

/// The phase that follows `s` when it ends.
pub open spec fn next_phase(s: UniverseState) -> UniverseState {
    match s {
        UniverseState::Darkness => UniverseState::BigBang,
        UniverseState::BigBang => UniverseState::Expansion,
        UniverseState::Expansion => UniverseState::Accretion,
        UniverseState::Accretion => UniverseState::Singularity,
        UniverseState::Singularity => UniverseState::Collapse,
        UniverseState::Collapse => UniverseState::Darkness,
    }
}

/// The phase after an update: the next phase when the current one has ended,
/// else the same phase.
pub fn advance(s: UniverseState, ended: bool) -> (r: UniverseState)
    ensures
        r == (if ended { next_phase(s) } else { s }),
{
    if !ended {
        return s;
    }
    match s {
        UniverseState::Darkness => UniverseState::BigBang,
        UniverseState::BigBang => UniverseState::Expansion,
        UniverseState::Expansion => UniverseState::Accretion,
        UniverseState::Accretion => UniverseState::Singularity,
        UniverseState::Singularity => UniverseState::Collapse,
        UniverseState::Collapse => UniverseState::Darkness,
    }
}

/// The phases form one cycle: six phase ends bring the universe back to the
/// phase it started in, and fewer never do.
pub proof fn lemma_phase_cycle(s: UniverseState)
    ensures
        next_phase(next_phase(next_phase(next_phase(next_phase(next_phase(s)))))) == s,
        next_phase(s) != s,
        next_phase(next_phase(s)) != s,
        next_phase(next_phase(next_phase(s))) != s,
        next_phase(next_phase(next_phase(next_phase(s)))) != s,
        next_phase(next_phase(next_phase(next_phase(next_phase(s))))) != s,
{
}

} // verus!
