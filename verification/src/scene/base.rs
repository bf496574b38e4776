//! The state that every node has, whatever its kind.

use crate::error::DecodeError;
use crate::scene::handle::Handle;
use crate::scene::transform::Transform;
use crate::visitor::{carried, Decoded, Visit, Visitor};
use vstd::prelude::*;

verus! {

/// The state that every node has: a name, a place relative to its parent,
/// visibility, and its links in the graph.
#[derive(Clone, Debug, PartialEq, Eq)]
pub struct Base {
    name: String,
    local_transform: Transform,
    visibility: bool,
    global_visibility: bool,
    parent: Handle,
    children: Vec<Handle>,
}

/// What a [`Base`] holds.
pub struct BaseView {
    pub name: Seq<char>,
    /// Where the node stands relative to its parent.
    pub local_transform: Transform,
    /// Whether the node itself is shown.
    pub visibility: bool,
    /// Whether the node and all its ancestors are shown. The graph derives
    /// it on every update, so it is not stored.
    pub global_visibility: bool,
    /// The node above this one, or the empty handle.
    pub parent: Handle,
    /// The nodes below this one, in the order in which they were added.
    pub children: Seq<Handle>,
}

impl BaseView {
    /// A nameless, visible node at the identity transform, outside any graph.
    pub open spec fn spec_default() -> BaseView {
        BaseView {
            name: Seq::empty(),
            local_transform: Transform::spec_identity(),
            visibility: true,
            global_visibility: true,
            parent: Handle::spec_none(),
            children: Seq::empty(),
        }
    }
}

impl View for Base {
    type V = BaseView;

    closed spec fn view(&self) -> BaseView {
        BaseView {
            name: self.name@,
            local_transform: self.local_transform,
            visibility: self.visibility,
            global_visibility: self.global_visibility,
            parent: self.parent,
            children: self.children@,
        }
    }
}

impl Base {
    /// A nameless, visible node at the identity transform, outside any graph.
    pub fn new() -> (base: Base)
        ensures
            base@ == BaseView::spec_default(),
    {
        Base {
            name: String::new(),
            local_transform: Transform::identity(),
            visibility: true,
            global_visibility: true,
            parent: Handle::none(),
            children: Vec::new(),
        }
    }

    /// The name of the node.
    pub fn name(&self) -> (name: &str)
        ensures
            name@ == self@.name,
    {
        self.name.as_str()
    }

    /// Gives the node the name `name`.
    pub fn set_name(&mut self, name: &str)
        ensures
            final(self)@ == (BaseView { name: name@, ..old(self)@ }),
    {
        self.name = name.to_owned();
    }

    /// Where the node stands relative to its parent.
    pub fn local_transform(&self) -> (transform: Transform)
        ensures
            transform == self@.local_transform,
    {
        self.local_transform
    }

    /// Places the node relative to its parent.
    pub fn set_local_transform(&mut self, transform: Transform)
        ensures
            final(self)@ == (BaseView { local_transform: transform, ..old(self)@ }),
    {
        self.local_transform = transform;
    }

    /// Whether the node itself is shown.
    pub fn visibility(&self) -> (visibility: bool)
        ensures
            visibility == self@.visibility,
    {
        self.visibility
    }

    /// Shows or hides the node.
    pub fn set_visibility(&mut self, visibility: bool)
        ensures
            final(self)@ == (BaseView { visibility, ..old(self)@ }),
    {
        self.visibility = visibility;
    }

    /// Whether the node and all its ancestors are shown.
    pub fn global_visibility(&self) -> (visibility: bool)
        ensures
            visibility == self@.global_visibility,
    {
        self.global_visibility
    }

    /// Records whether the node and all its ancestors are shown. The graph
    /// calls this when it updates the hierarchy.
    pub fn set_global_visibility(&mut self, visibility: bool)
        ensures
            final(self)@ == (BaseView { global_visibility: visibility, ..old(self)@ }),
    {
        self.global_visibility = visibility;
    }

    /// The node above this one, or the empty handle.
    pub fn parent(&self) -> (parent: Handle)
        ensures
            parent == self@.parent,
    {
        self.parent
    }

    /// Records `parent` as the node above this one.
    pub fn set_parent(&mut self, parent: Handle)
        ensures
            final(self)@ == (BaseView { parent, ..old(self)@ }),
    {
        self.parent = parent;
    }

    /// The nodes below this one, in the order in which they were added.
    pub fn children(&self) -> (children: &[Handle])
        ensures
            children@ == self@.children,
    {
        self.children.as_slice()
    }

    /// Puts `child` behind the children that the node has.
    pub fn add_child(&mut self, child: Handle)
        ensures
            final(self)@ == (BaseView { children: old(self)@.children.push(child), ..old(self)@ }),
    {
        self.children.push(child);
    }
}

impl Default for Base {
    fn default() -> (base: Base)
        ensures
            base@ == BaseView::spec_default(),
    {
        Base::new()
    }
}

impl Visit for Base {
    open spec fn encodable(value: BaseView) -> bool {
        String::encodable(value.name) && Vec::<Handle>::encodable(value.children)
    }

    /// Name, transform, visibility, parent, children.
    open spec fn encoding(value: BaseView) -> Seq<u8> {
        String::encoding(value.name) + Transform::encoding(value.local_transform) + bool::encoding(
            value.visibility,
        ) + Handle::encoding(value.parent) + Vec::<Handle>::encoding(value.children)
    }

    /// The fields are read in the order in which they are written, each into
    /// its place; the read stops at the first that fails.
    open spec fn decoding(dest: BaseView, input: Seq<u8>) -> Decoded<BaseView> {
        let name = String::decoding(dest.name, input);
        let named = BaseView { name: name.value, ..dest };
        if name.fault is Some {
            carried(name, named)
        } else {
            let transform = Transform::decoding(dest.local_transform, name.rest);
            let placed = BaseView { local_transform: transform.value, ..named };
            if transform.fault is Some {
                carried(transform, placed)
            } else {
                let visibility = bool::decoding(dest.visibility, transform.rest);
                let shown = BaseView { visibility: visibility.value, ..placed };
                if visibility.fault is Some {
                    carried(visibility, shown)
                } else {
                    let parent = Handle::decoding(dest.parent, visibility.rest);
                    let owned = BaseView { parent: parent.value, ..shown };
                    if parent.fault is Some {
                        carried(parent, owned)
                    } else {
                        let children = Vec::<Handle>::decoding(dest.children, parent.rest);
                        carried(children, BaseView { children: children.value, ..owned })
                    }
                }
            }
        }
    }

    /// Whether the node and all its ancestors are shown is not stored.
    open spec fn restored(value: BaseView, dest: BaseView) -> BaseView {
        BaseView { global_visibility: dest.global_visibility, ..value }
    }

    fn visit(&mut self, visitor: &mut Visitor) -> (result: Result<(), DecodeError>) {
        self.name.visit(visitor)?;
        self.local_transform.visit(visitor)?;
        self.visibility.visit(visitor)?;
        self.parent.visit(visitor)?;
        self.children.visit(visitor)?;
        Ok(())
    }

    proof fn lemma_reads_back(value: BaseView, dest: BaseView, rest: Seq<u8>) {
        let after_parent = Vec::<Handle>::encoding(value.children) + rest;
        let after_visibility = Handle::encoding(value.parent) + after_parent;
        let after_transform = bool::encoding(value.visibility) + after_visibility;
        let after_name = Transform::encoding(value.local_transform) + after_transform;
        String::lemma_reads_back(value.name, dest.name, after_name);
        Transform::lemma_reads_back(value.local_transform, dest.local_transform, after_transform);
        bool::lemma_reads_back(value.visibility, dest.visibility, after_visibility);
        Handle::lemma_reads_back(value.parent, dest.parent, after_parent);
        Vec::<Handle>::lemma_reads_back(value.children, dest.children, rest);
        assert(Base::encoding(value) + rest =~= String::encoding(value.name) + after_name);
    }
}

} // verus!
