//! The node that shows geometry.

use crate::error::DecodeError;
use crate::scene::base::{Base, BaseView};
use crate::visitor::{carried, Decoded, Visit, Visitor};
use vstd::prelude::*;

verus! {

/// A node that shows geometry. The geometry lives with the renderer; the node
/// keeps how it takes part in lighting.
#[derive(Clone, Debug, PartialEq, Eq)]
pub struct Mesh {
    /// The state that the node shares with the nodes of all kinds.
    pub base: Base,
    /// Whether the geometry casts shadows; it does at the start.
    pub cast_shadows: bool,
}

/// What a [`Mesh`] holds.
pub struct MeshView {
    pub base: BaseView,
    pub cast_shadows: bool,
}

impl MeshView {
    /// The state in which a mesh starts.
    pub open spec fn spec_default() -> MeshView {
        MeshView { base: BaseView::spec_default(), cast_shadows: true }
    }
}

impl View for Mesh {
    type V = MeshView;

    open spec fn view(&self) -> MeshView {
        MeshView { base: self.base@, cast_shadows: self.cast_shadows }
    }
}

impl Mesh {
    /// A mesh in its starting state.
    pub fn new() -> (mesh: Mesh)
        ensures
            mesh@ == MeshView::spec_default(),
    {
        Mesh { base: Base::new(), cast_shadows: true }
    }
}

impl Default for Mesh {
    fn default() -> (mesh: Mesh)
        ensures
            mesh@ == MeshView::spec_default(),
    {
        Mesh::new()
    }
}

impl Visit for Mesh {
    open spec fn encodable(value: MeshView) -> bool {
        Base::encodable(value.base)
    }

    /// The shared state, `cast_shadows`.
    open spec fn encoding(value: MeshView) -> Seq<u8> {
        Base::encoding(value.base) + bool::encoding(value.cast_shadows)
    }

    /// The fields are read in the order in which they are written, each into
    /// its place; the read stops at the first that fails.
    open spec fn decoding(dest: MeshView, input: Seq<u8>) -> Decoded<MeshView> {
        let base = Base::decoding(dest.base, input);
        let with_base = MeshView { base: base.value, ..dest };
        if base.fault is Some {
            carried(base, with_base)
        } else {
            let cast_shadows = bool::decoding(dest.cast_shadows, base.rest);
            carried(cast_shadows, MeshView { cast_shadows: cast_shadows.value, ..with_base })
        }
    }

    open spec fn restored(value: MeshView, dest: MeshView) -> MeshView {
        MeshView { base: Base::restored(value.base, dest.base), ..value }
    }

    fn visit(&mut self, visitor: &mut Visitor) -> (result: Result<(), DecodeError>) {
        self.base.visit(visitor)?;
        self.cast_shadows.visit(visitor)?;
        Ok(())
    }

    proof fn lemma_reads_back(value: MeshView, dest: MeshView, rest: Seq<u8>) {
        let after_base = bool::encoding(value.cast_shadows) + rest;
        Base::lemma_reads_back(value.base, dest.base, after_base);
        bool::lemma_reads_back(value.cast_shadows, dest.cast_shadows, rest);
        assert(Mesh::encoding(value) + rest =~= Base::encoding(value.base) + after_base);
    }
}

} // verus!
