//! Ordered descriptions of how per-vertex attributes are packed into a
//! vertex buffer.
//!
//! A [`VertexLayoutDescription`] is an ordered list of named, typed
//! elements; each element's byte offset is the sum of the byte sizes of
//! all elements before it, so the list is also the byte-level layout of
//! one packed vertex.

use vstd::prelude::*;

verus! {

/// The scalar arity of one vertex attribute. Every component is one
/// 32-bit scalar.
#[derive(Clone, Copy, PartialEq, Eq, Structural, Debug)]
pub enum VertexElementType {
    F32,
    F32F32,
    F32F32F32,
    F32F32F32F32,
}

/// The byte size of one attribute of the given type.
pub open spec fn element_size(vtype: VertexElementType) -> int {
    match vtype {
        VertexElementType::F32 => 4,
        VertexElementType::F32F32 => 8,
        VertexElementType::F32F32F32 => 12,
        VertexElementType::F32F32F32F32 => 16,
    }
}

/// The number of 32-bit components of one attribute of the given type.
pub open spec fn element_components(vtype: VertexElementType) -> int {
    match vtype {
        VertexElementType::F32 => 1,
        VertexElementType::F32F32 => 2,
        VertexElementType::F32F32F32 => 3,
        VertexElementType::F32F32F32F32 => 4,
    }
}

impl VertexElementType {
    /// The byte size of one attribute of type `vtype`.
    pub fn get_size(vtype: &VertexElementType) -> (size: usize)
        ensures
            size == element_size(*vtype),
    {
        match *vtype {
            VertexElementType::F32 => 4,
            VertexElementType::F32F32 => 8,
            VertexElementType::F32F32F32 => 12,
            VertexElementType::F32F32F32F32 => 16,
        }
    }

    /// The byte size of one attribute of this type.
    pub fn get_size_of(&self) -> (size: usize)
        ensures
            size == element_size(*self),
    {
        VertexElementType::get_size(self)
    }

    /// The number of 32-bit components of this type.
    pub fn get_num_components(&self) -> (n: i32)
        ensures
            n == element_components(*self),
    {
        match *self {
            VertexElementType::F32 => 1,
            VertexElementType::F32F32 => 2,
            VertexElementType::F32F32F32 => 3,
            VertexElementType::F32F32F32F32 => 4,
        }
    }
}

/// One named, typed vertex attribute at a fixed byte offset within a
/// packed vertex.
#[derive(Clone)]
pub struct VertexElement {
    pub vtype: VertexElementType,
    pub name: String,
    pub offset: usize,
}

/// The sum of the byte sizes of elements `0..i`: the byte offset at which
/// element `i` must start.
pub open spec fn offset_of(elements: Seq<VertexElement>, i: int) -> int
    decreases i,
{
    if i <= 0 {
        0
    } else {
        offset_of(elements, i - 1) + element_size(elements[i - 1].vtype)
    }
}

/// A layout is well formed when every element's stored offset equals the
/// sum of the byte sizes of all elements before it.
pub open spec fn layout_wf(elements: Seq<VertexElement>) -> bool {
    forall|i: int| 0 <= i < elements.len() ==> #[trigger] elements[i].offset == offset_of(
        elements,
        i,
    )
}

/// `offset_of` only looks at elements before `i`, so appending to a
/// layout does not move the elements already in it.
pub proof fn lemma_offset_of_push(elements: Seq<VertexElement>, e: VertexElement, i: int)
    requires
        0 <= i <= elements.len(),
    ensures
        offset_of(elements.push(e), i) == offset_of(elements, i),
    decreases i,
{
    if i > 0 {
        lemma_offset_of_push(elements, e, i - 1);
    }
}

/// An ordered sequence of vertex attributes with computed byte offsets.
#[derive(Clone)]
pub struct VertexLayoutDescription {
    pub elements: Vec<VertexElement>,
}

impl VertexLayoutDescription {
    /// A layout's invariant: stored offsets are the cumulative byte sizes.
    pub open spec fn wf(&self) -> bool {
        layout_wf(self.elements@)
    }

    /// The byte size of one whole packed vertex under this layout.
    pub open spec fn spec_stride(&self) -> int {
        offset_of(self.elements@, self.elements@.len() as int)
    }

    /// An empty layout.
    pub fn new() -> (result: VertexLayoutDescription)
        ensures
            result.elements@.len() == 0,
            result.wf(),
    {
        VertexLayoutDescription { elements: Vec::new() }
    }

    /// Appends an element whose offset is the sum of the byte sizes of
    /// all elements already in the layout.
    pub fn add_element(&mut self, name: String, vtype: VertexElementType)
        requires
            old(self).wf(),
            old(self).spec_stride() + 16 <= usize::MAX,
        ensures
            final(self).wf(),
            final(self).elements@.len() == old(self).elements@.len() + 1,
            final(self).elements@.subrange(0, old(self).elements@.len() as int) == old(
                self,
            ).elements@,
            final(self).elements@.last().name == name,
            final(self).elements@.last().vtype == vtype,
            final(self).elements@.last().offset == old(self).spec_stride(),
            final(self).spec_stride() == old(self).spec_stride() + element_size(vtype),
    {
        let n = self.elements.len();
        let offset: usize = if n == 0 {
            0
        } else {
            let lastelem = &self.elements[n - 1];
            lastelem.offset + lastelem.vtype.get_size_of()
        };
        let e = VertexElement { vtype, name, offset };
        proof {
            assert forall|i: int| 0 <= i <= self.elements@.len() implies offset_of(
                self.elements@.push(e),
                i,
            ) == offset_of(self.elements@, i) by {
                lemma_offset_of_push(self.elements@, e, i);
            }
        }
        self.elements.push(e);
        proof {
            assert(final(self).elements@.subrange(0, old(self).elements@.len() as int) =~= old(
                self,
            ).elements@);
        }
    }

    /// The byte size of one whole packed vertex: the sum of all element
    /// sizes.
    pub fn stride(&self) -> (stride: usize)
        requires
            self.wf(),
            self.spec_stride() <= usize::MAX,
        ensures
            stride == self.spec_stride(),
    {
        let n = self.elements.len();
        if n == 0 {
            0
        } else {
            let lastelem = &self.elements[n - 1];
            lastelem.offset + lastelem.vtype.get_size_of()
        }
    }
}

} // verus!
