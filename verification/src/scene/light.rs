//! The node that lights its surroundings.

use crate::error::DecodeError;
use crate::scene::base::{Base, BaseView};
use crate::visitor::{carried, Decoded, Visit, Visitor};
use vstd::prelude::*;

verus! {

/// The color of a light at the start: opaque white.
pub const DEFAULT_COLOR: u32 = 0xFFFF_FFFF;

/// The reach of a light at the start: the bit pattern of 10.0.
pub const DEFAULT_RADIUS: u32 = 0x4120_0000;

/// A point light.
#[derive(Clone, Debug, PartialEq, Eq)]
pub struct Light {
    /// The state that the node shares with the nodes of all kinds.
    pub base: Base,
    /// Red, green, blue and opacity, one byte each, red in the lowest.
    pub color: u32,
    /// How far the light reaches, as the bit pattern of a single-precision
    /// number.
    pub radius: u32,
}

/// What a [`Light`] holds.
pub struct LightView {
    pub base: BaseView,
    pub color: u32,
    pub radius: u32,
}

impl LightView {
    /// The state in which a light starts.
    pub open spec fn spec_default() -> LightView {
        LightView { base: BaseView::spec_default(), color: DEFAULT_COLOR, radius: DEFAULT_RADIUS }
    }
}

impl View for Light {
    type V = LightView;

    open spec fn view(&self) -> LightView {
        LightView { base: self.base@, color: self.color, radius: self.radius }
    }
}

impl Light {
    /// A light in its starting state.
    pub fn new() -> (light: Light)
        ensures
            light@ == LightView::spec_default(),
    {
        Light { base: Base::new(), color: DEFAULT_COLOR, radius: DEFAULT_RADIUS }
    }
}

impl Default for Light {
    fn default() -> (light: Light)
        ensures
            light@ == LightView::spec_default(),
    {
        Light::new()
    }
}

impl Visit for Light {
    open spec fn encodable(value: LightView) -> bool {
        Base::encodable(value.base)
    }

    /// The shared state, `color`, `radius`.
    open spec fn encoding(value: LightView) -> Seq<u8> {
        Base::encoding(value.base) + u32::encoding(value.color) + u32::encoding(value.radius)
    }

    /// The fields are read in the order in which they are written, each into
    /// its place; the read stops at the first that fails.
    open spec fn decoding(dest: LightView, input: Seq<u8>) -> Decoded<LightView> {
        let base = Base::decoding(dest.base, input);
        let with_base = LightView { base: base.value, ..dest };
        if base.fault is Some {
            carried(base, with_base)
        } else {
            let color = u32::decoding(dest.color, base.rest);
            let with_color = LightView { color: color.value, ..with_base };
            if color.fault is Some {
                carried(color, with_color)
            } else {
                let radius = u32::decoding(dest.radius, color.rest);
                carried(radius, LightView { radius: radius.value, ..with_color })
            }
        }
    }

    open spec fn restored(value: LightView, dest: LightView) -> LightView {
        LightView { base: Base::restored(value.base, dest.base), ..value }
    }

    fn visit(&mut self, visitor: &mut Visitor) -> (result: Result<(), DecodeError>) {
        self.base.visit(visitor)?;
        self.color.visit(visitor)?;
        self.radius.visit(visitor)?;
        Ok(())
    }

    proof fn lemma_reads_back(value: LightView, dest: LightView, rest: Seq<u8>) {
        let after_color = u32::encoding(value.radius) + rest;
        let after_base = u32::encoding(value.color) + after_color;
        Base::lemma_reads_back(value.base, dest.base, after_base);
        u32::lemma_reads_back(value.color, dest.color, after_color);
        u32::lemma_reads_back(value.radius, dest.radius, rest);
        assert(Light::encoding(value) + rest =~= Base::encoding(value.base) + after_base);
    }
}

} // verus!
