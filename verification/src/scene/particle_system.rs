//! The node that emits particles.

use crate::error::DecodeError;
use crate::scene::base::{Base, BaseView};
use crate::scene::transform::Vector3;
use crate::visitor::{carried, Decoded, Visit, Visitor};
use vstd::prelude::*;

verus! {

/// The bit pattern of -9.81, the vertical acceleration at the start.
pub const GRAVITY: u32 = 0xC11C_F5C3;

/// A source of particles. The particles live with the simulation; the node
/// keeps what acts on all of them.
#[derive(Clone, Debug, PartialEq, Eq)]
pub struct ParticleSystem {
    /// The state that the node shares with the nodes of all kinds.
    pub base: Base,
    /// The acceleration of every particle; gravity at the start.
    pub acceleration: Vector3,
}

/// What a [`ParticleSystem`] holds.
pub struct ParticleSystemView {
    pub base: BaseView,
    pub acceleration: Vector3,
}

impl ParticleSystemView {
    /// The state in which a particle system starts.
    pub open spec fn spec_default() -> ParticleSystemView {
        ParticleSystemView {
            base: BaseView::spec_default(),
            acceleration: Vector3 { x: 0, y: GRAVITY, z: 0 },
        }
    }
}

impl View for ParticleSystem {
    type V = ParticleSystemView;

    open spec fn view(&self) -> ParticleSystemView {
        ParticleSystemView { base: self.base@, acceleration: self.acceleration }
    }
}

impl ParticleSystem {
    /// A particle system in its starting state.
    pub fn new() -> (system: ParticleSystem)
        ensures
            system@ == ParticleSystemView::spec_default(),
    {
        ParticleSystem { base: Base::new(), acceleration: Vector3 { x: 0, y: GRAVITY, z: 0 } }
    }
}

impl Default for ParticleSystem {
    fn default() -> (system: ParticleSystem)
        ensures
            system@ == ParticleSystemView::spec_default(),
    {
        ParticleSystem::new()
    }
}

impl Visit for ParticleSystem {
    open spec fn encodable(value: ParticleSystemView) -> bool {
        Base::encodable(value.base)
    }

    /// The shared state, `acceleration`.
    open spec fn encoding(value: ParticleSystemView) -> Seq<u8> {
        Base::encoding(value.base) + Vector3::encoding(value.acceleration)
    }

    /// The fields are read in the order in which they are written, each into
    /// its place; the read stops at the first that fails.
    open spec fn decoding(dest: ParticleSystemView, input: Seq<u8>) -> Decoded<ParticleSystemView> {
        let base = Base::decoding(dest.base, input);
        let with_base = ParticleSystemView { base: base.value, ..dest };
        if base.fault is Some {
            carried(base, with_base)
        } else {
            let acceleration = Vector3::decoding(dest.acceleration, base.rest);
            carried(
                acceleration,
                ParticleSystemView { acceleration: acceleration.value, ..with_base },
            )
        }
    }

    open spec fn restored(
        value: ParticleSystemView,
        dest: ParticleSystemView,
    ) -> ParticleSystemView {
        ParticleSystemView { base: Base::restored(value.base, dest.base), ..value }
    }

    fn visit(&mut self, visitor: &mut Visitor) -> (result: Result<(), DecodeError>) {
        self.base.visit(visitor)?;
        self.acceleration.visit(visitor)?;
        Ok(())
    }

    proof fn lemma_reads_back(value: ParticleSystemView, dest: ParticleSystemView, rest: Seq<u8>) {
        let after_base = Vector3::encoding(value.acceleration) + rest;
        Base::lemma_reads_back(value.base, dest.base, after_base);
        Vector3::lemma_reads_back(value.acceleration, dest.acceleration, rest);
        assert(ParticleSystem::encoding(value) + rest =~= Base::encoding(value.base) + after_base);
    }
}

} // verus!
