//! The node that shows a rectangle facing the camera.

use crate::error::DecodeError;
use crate::scene::base::{Base, BaseView};
use crate::visitor::{carried, Decoded, Visit, Visitor};
use vstd::prelude::*;

verus! {

/// The size of a sprite at the start: the bit pattern of 0.2.
pub const DEFAULT_SIZE: u32 = 0x3E4C_CCCD;

/// The color of a sprite at the start: opaque white.
pub const DEFAULT_COLOR: u32 = 0xFFFF_FFFF;

/// A rectangle that always faces the camera. Size and rotation are bit
/// patterns of single-precision numbers.
#[derive(Clone, Debug, PartialEq, Eq)]
pub struct Sprite {
    /// The state that the node shares with the nodes of all kinds.
    pub base: Base,
    /// Half the length of a side.
    pub size: u32,
    /// The rotation about the line of sight in radians; none at the start.
    pub rotation: u32,
    /// Red, green, blue and opacity, one byte each, red in the lowest.
    pub color: u32,
}

/// What a [`Sprite`] holds.
pub struct SpriteView {
    pub base: BaseView,
    pub size: u32,
    pub rotation: u32,
    pub color: u32,
}

impl SpriteView {
    /// The state in which a sprite starts.
    pub open spec fn spec_default() -> SpriteView {
        SpriteView {
            base: BaseView::spec_default(),
            size: DEFAULT_SIZE,
            rotation: 0,
            color: DEFAULT_COLOR,
        }
    }
}

impl View for Sprite {
    type V = SpriteView;

    open spec fn view(&self) -> SpriteView {
        SpriteView { base: self.base@, size: self.size, rotation: self.rotation, color: self.color }
    }
}

impl Sprite {
    /// A sprite in its starting state.
    pub fn new() -> (sprite: Sprite)
        ensures
            sprite@ == SpriteView::spec_default(),
    {
        Sprite { base: Base::new(), size: DEFAULT_SIZE, rotation: 0, color: DEFAULT_COLOR }
    }
}

impl Default for Sprite {
    fn default() -> (sprite: Sprite)
        ensures
            sprite@ == SpriteView::spec_default(),
    {
        Sprite::new()
    }
}

impl Visit for Sprite {
    open spec fn encodable(value: SpriteView) -> bool {
        Base::encodable(value.base)
    }

    /// The shared state, `size`, `rotation`, `color`.
    open spec fn encoding(value: SpriteView) -> Seq<u8> {
        Base::encoding(value.base)
            + u32::encoding(value.size)
            + u32::encoding(value.rotation)
            + u32::encoding(value.color)
    }

    /// The fields are read in the order in which they are written, each into
    /// its place; the read stops at the first that fails.
    open spec fn decoding(dest: SpriteView, input: Seq<u8>) -> Decoded<SpriteView> {
        let base = Base::decoding(dest.base, input);
        let with_base = SpriteView { base: base.value, ..dest };
        if base.fault is Some {
            carried(base, with_base)
        } else {
            let size = u32::decoding(dest.size, base.rest);
            let with_size = SpriteView { size: size.value, ..with_base };
            if size.fault is Some {
                carried(size, with_size)
            } else {
                let rotation = u32::decoding(dest.rotation, size.rest);
                let with_rotation = SpriteView { rotation: rotation.value, ..with_size };
                if rotation.fault is Some {
                    carried(rotation, with_rotation)
                } else {
                    let color = u32::decoding(dest.color, rotation.rest);
                    carried(color, SpriteView { color: color.value, ..with_rotation })
                }
            }
        }
    }

    open spec fn restored(value: SpriteView, dest: SpriteView) -> SpriteView {
        SpriteView { base: Base::restored(value.base, dest.base), ..value }
    }

    fn visit(&mut self, visitor: &mut Visitor) -> (result: Result<(), DecodeError>) {
        self.base.visit(visitor)?;
        self.size.visit(visitor)?;
        self.rotation.visit(visitor)?;
        self.color.visit(visitor)?;
        Ok(())
    }

    proof fn lemma_reads_back(value: SpriteView, dest: SpriteView, rest: Seq<u8>) {
        let after_rotation = u32::encoding(value.color) + rest;
        let after_size = u32::encoding(value.rotation) + after_rotation;
        let after_base = u32::encoding(value.size) + after_size;
        Base::lemma_reads_back(value.base, dest.base, after_base);
        u32::lemma_reads_back(value.size, dest.size, after_size);
        u32::lemma_reads_back(value.rotation, dest.rotation, after_rotation);
        u32::lemma_reads_back(value.color, dest.color, rest);
        assert(Sprite::encoding(value) + rest =~= Base::encoding(value.base) + after_base);
    }
}

} // verus!
