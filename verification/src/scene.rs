//! The scene: a renderer, a camera, and the node tree, stored as a
//! single arena of nodes addressed by stable indices (the root is index
//! 0). A child's index is always greater than its parent's, which makes
//! recursion over the tree well founded.
//!
//! Rendering walks the tree pre-order, depth-first: a node's components
//! render first, then each child subtree in child-list order, so a
//! sibling renders only after every descendant of the siblings before it.

use crate::camera::Camera;
use crate::gl_commands::GlCommand;
use crate::mesh::MeshData;
use crate::model::{lemma_model_draws_congruence, Model, SceneError};
use crate::node::{component_clean, component_draws, component_geometries, component_render_ok,
    component_rendered, component_valid, lemma_component_render_ok_transfer,
    lemma_component_rendered_trans, lemma_rendered_component_clean, Node, SceneComponent};
use crate::opengl::{clear_count, draws_of, lemma_cmd_shape_concat, lemma_cmd_shape_single,
    OpenGLRenderer, ProgramReflection};
use crate::renderer::Renderer;
use vstd::prelude::*;

verus! {

/// The arena is a forest whose edges always point to higher indices.
pub open spec fn arena_wf(nodes: Seq<Node>) -> bool {
    forall|i: int, k: int|
        0 <= i < nodes.len() && 0 <= k < nodes[i].children@.len() ==> i < (
        #[trigger] nodes[i].children@[k]) < nodes.len()
}

/// The pre-order visit sequence of the subtree rooted at `idx`: the node
/// itself, then each child's whole subtree in child-list order.
pub open spec fn preorder(nodes: Seq<Node>, idx: int) -> Seq<usize>
    decreases nodes.len() - idx, 1int, 0int,
        when 0 <= idx < nodes.len() && arena_wf(nodes)
{
    seq![idx as usize] + preorder_children(nodes, idx, 0)
}

/// The concatenated pre-order sequences of children `k..` of `idx`.
pub open spec fn preorder_children(nodes: Seq<Node>, idx: int, k: int) -> Seq<usize>
    decreases nodes.len() - idx, 0int, nodes[idx].children@.len() - k,
        when 0 <= idx < nodes.len() && arena_wf(nodes) && 0 <= k <= nodes[idx].children@.len()
{
    if k == nodes[idx].children@.len() {
        Seq::empty()
    } else {
        preorder(nodes, nodes[idx].children@[k] as int) + preorder_children(nodes, idx, k + 1)
    }
}

/// Where child `k`'s subtree starts inside `preorder(nodes, idx)`: one
/// (for the node itself) plus the lengths of the earlier children's
/// subtrees.
pub open spec fn child_offset(nodes: Seq<Node>, idx: int, k: int) -> int
    decreases k,
{
    if k <= 0 {
        1
    } else {
        child_offset(nodes, idx, k - 1) + preorder(nodes, nodes[idx].children@[k - 1] as int).len()
    }
}

/// Dropping the first `child_offset(k)` visits of a subtree's pre-order
/// sequence leaves exactly the pre-order sequences of children `k..`.
proof fn lemma_preorder_skip(nodes: Seq<Node>, idx: int, k: int)
    requires
        arena_wf(nodes),
        0 <= idx < nodes.len(),
        0 <= k <= nodes[idx].children@.len(),
    ensures
        1 <= child_offset(nodes, idx, k) <= preorder(nodes, idx).len(),
        preorder(nodes, idx).skip(child_offset(nodes, idx, k)) == preorder_children(nodes, idx, k),
    decreases k,
{
    if k == 0 {
        assert(preorder(nodes, idx).skip(1) =~= preorder_children(nodes, idx, 0));
    } else {
        lemma_preorder_skip(nodes, idx, k - 1);
        let child = nodes[idx].children@[k - 1] as int;
        let rest = preorder(nodes, idx).skip(child_offset(nodes, idx, k - 1));
        assert(rest == preorder(nodes, child) + preorder_children(nodes, idx, k));
        assert(rest.len() == preorder(nodes, idx).len() - child_offset(nodes, idx, k - 1));
        assert(child_offset(nodes, idx, k) == child_offset(nodes, idx, k - 1) + preorder(
            nodes,
            child,
        ).len());
        assert(child_offset(nodes, idx, k) <= preorder(nodes, idx).len());
        assert(rest.skip(preorder(nodes, child).len() as int) =~= preorder_children(
            nodes,
            idx,
            k,
        ));
        assert(preorder(nodes, idx).skip(child_offset(nodes, idx, k)) =~= rest.skip(
            preorder(nodes, child).len() as int,
        ));
    }
}

/// Pre-order visits every descendant of an earlier sibling before any
/// later sibling: child `k`'s subtree occupies the consecutive index
/// range starting at `child_offset(k)` inside the parent's sequence, and
/// these ranges follow one another in child-list order.
pub proof fn lemma_preorder_sibling_order(nodes: Seq<Node>, idx: int, k: int)
    requires
        arena_wf(nodes),
        0 <= idx < nodes.len(),
        0 <= k < nodes[idx].children@.len(),
    ensures
        1 <= child_offset(nodes, idx, k),
        child_offset(nodes, idx, k) + preorder(nodes, nodes[idx].children@[k] as int).len()
            == child_offset(nodes, idx, k + 1),
        child_offset(nodes, idx, k + 1) <= preorder(nodes, idx).len(),
        preorder(nodes, idx).subrange(
            child_offset(nodes, idx, k),
            child_offset(nodes, idx, k + 1),
        ) == preorder(nodes, nodes[idx].children@[k] as int),
    decreases k,
{
    lemma_preorder_skip(nodes, idx, k);
    lemma_preorder_skip(nodes, idx, k + 1);
    let child = nodes[idx].children@[k] as int;
    let rest = preorder(nodes, idx).skip(child_offset(nodes, idx, k));
    assert(rest == preorder(nodes, child) + preorder_children(nodes, idx, k + 1));
    if k > 0 {
        lemma_preorder_sibling_order(nodes, idx, k - 1);
    }
    assert(preorder(nodes, idx).subrange(
        child_offset(nodes, idx, k),
        child_offset(nodes, idx, k + 1),
    ) =~= preorder(nodes, child));
}

/// The scene: the renderer it draws with, the camera, and the node
/// arena; index 0 is the root.
pub struct Scene {
    renderer: Renderer,
    nodes: Vec<Node>,
    camera: Camera,
}

impl Scene {
    /// The node arena, for contracts.
    pub closed spec fn spec_nodes(&self) -> Seq<Node> {
        self.nodes@
    }

    /// The renderer, for contracts.
    pub closed spec fn spec_renderer(&self) -> Renderer {
        self.renderer
    }

    /// The camera, for contracts.
    pub closed spec fn spec_camera(&self) -> Camera {
        self.camera
    }

    /// The scene's invariant: a root exists, edges point upward in index
    /// order, the renderer is well formed, and every attached component
    /// can be drawn by it.
    pub open spec fn wf(&self) -> bool {
        &&& self.spec_nodes().len() >= 1
        &&& arena_wf(self.spec_nodes())
        &&& self.spec_renderer().wf()
        &&& forall|i: int, c: int|
            0 <= i < self.spec_nodes().len() && 0 <= c < self.spec_nodes()[i].components@.len()
                ==> component_valid(
                #[trigger] self.spec_nodes()[i].components@[c],
                self.spec_renderer(),
            )
    }

    /// A scene with the given renderer and camera and a single root node
    /// named `_root`.
    pub fn new(renderer: Renderer, camera: Camera) -> (scene: Scene)
        requires
            renderer.wf(),
        ensures
            scene.wf(),
            scene.spec_nodes().len() == 1,
            scene.spec_nodes()[0].children@.len() == 0,
            scene.spec_nodes()[0].components@.len() == 0,
            scene.spec_nodes()[0].name@ == "_root"@,
            scene.spec_renderer() == renderer,
            scene.spec_camera() == camera,
    {
        let mut nodes: Vec<Node> = Vec::new();
        nodes.push(Node::new("_root", None));
        Scene { renderer, nodes, camera }
    }

    /// The camera, for updating.
    pub fn camera_mut(&mut self) -> (camera: &mut Camera)
        requires
            old(self).wf(),
        ensures
            *camera == old(self).spec_camera(),
            final(self).spec_camera() == *final(camera),
            final(self).spec_nodes() == old(self).spec_nodes(),
            final(self).spec_renderer() == old(self).spec_renderer(),
            final(self).wf(),
    {
        &mut self.camera
    }

    /// Attaches `node` as a child of `parent` and returns its index:
    /// always the next free slot, so indices are stable. An attached
    /// node starts childless — the arena's edges point from lower to
    /// higher indices, so a subtree is built top-down by attaching each
    /// child to its parent's index in turn.
    pub fn attach_child(&mut self, parent: usize, node: Node) -> (child: usize)
        requires
            old(self).wf(),
            parent < old(self).spec_nodes().len(),
            node.children@.len() == 0,
            forall|c: int|
                0 <= c < node.components@.len() ==> component_valid(
                    #[trigger] node.components@[c],
                    old(self).spec_renderer(),
                ),
        ensures
            final(self).wf(),
            child == old(self).spec_nodes().len(),
            final(self).spec_nodes().len() == old(self).spec_nodes().len() + 1,
            final(self).spec_nodes()[child as int].name == node.name,
            final(self).spec_nodes()[child as int].components@ == node.components@,
            final(self).spec_nodes()[child as int].transform == node.transform,
            final(self).spec_nodes()[child as int].children@.len() == 0,
            final(self).spec_nodes()[child as int].parent == node.parent,
            final(self).spec_nodes()[parent as int].children@ == old(self).spec_nodes()[
                parent as int
            ].children@.push(child),
            forall|i: int|
                0 <= i < old(self).spec_nodes().len() && i != parent
                    ==> #[trigger] final(self).spec_nodes()[i] == old(self).spec_nodes()[i],
            final(self).spec_renderer() == old(self).spec_renderer(),
            final(self).spec_camera() == old(self).spec_camera(),
    {
        let child = self.nodes.len();
        self.nodes.push(node);
        self.nodes[parent].children.push(child);
        proof {
            assert forall|i: int, k: int|
                0 <= i < self.nodes@.len() && 0 <= k < self.nodes@[i].children@.len() implies i < (
            #[trigger] self.nodes@[i].children@[k]) < self.nodes@.len() by {
                if i == parent as int && k == self.nodes@[i].children@.len() - 1 {
                } else if i < old(self).spec_nodes().len() {
                    assert(old(self).spec_nodes()[i].children@[k]
                        == self.nodes@[i].children@[k]);
                }
            }
            assert forall|i: int, c: int|
                0 <= i < self.nodes@.len() && 0 <= c
                    < self.nodes@[i].components@.len() implies component_valid(
                #[trigger] self.nodes@[i].components@[c],
                self.renderer,
            ) by {
                if i < old(self).spec_nodes().len() {
                    assert(component_valid(
                        old(self).spec_nodes()[i].components@[c],
                        old(self).spec_renderer(),
                    ));
                } else {
                    assert(component_valid(node.components@[c], old(self).spec_renderer()));
                }
            }
        }
        child
    }

    /// Creates a node named `name` as a child of the root and returns
    /// its index.
    pub fn new_child_node(&mut self, name: &str) -> (child: usize)
        requires
            old(self).wf(),
        ensures
            final(self).wf(),
            child == old(self).spec_nodes().len(),
            final(self).spec_nodes().len() == old(self).spec_nodes().len() + 1,
            final(self).spec_nodes()[child as int].name@ == name@,
            final(self).spec_nodes()[child as int].parent == Some(0usize),
            final(self).spec_nodes()[child as int].children@.len() == 0,
            final(self).spec_nodes()[child as int].components@.len() == 0,
            final(self).spec_nodes()[child as int].transform
                == crate::transform::identity_value(),
            final(self).spec_nodes()[0].children@ == old(self).spec_nodes()[0].children@.push(
                child,
            ),
            forall|i: int|
                0 < i < old(self).spec_nodes().len() ==> #[trigger] final(self).spec_nodes()[i]
                    == old(self).spec_nodes()[i],
            final(self).spec_renderer() == old(self).spec_renderer(),
            final(self).spec_camera() == old(self).spec_camera(),
    {
        let node = Node::new(name, Some(0));
        self.attach_child(0, node)
    }

    /// Searches the children of `node` for one named `name`, in
    /// child-list order; with `recursive`, each child's subtree is
    /// searched before its next sibling. Some node bearing the name is
    /// found exactly when one stands in the searched range.
    pub fn get_child_by_name(&self, node: usize, name: &str, recursive: bool) -> (found: Option<
        usize,
    >)
        requires
            self.wf(),
            node < self.spec_nodes().len(),
        ensures
            found matches Some(i) ==> i < self.spec_nodes().len() && self.spec_nodes()[
                i as int
            ].name@ == name@,
            recursive ==> (found is Some <==> name_in_children(
                self.spec_nodes(),
                node as int,
                0,
                name@,
            )),
            !recursive ==> (found is Some <==> exists|k: int|
                0 <= k < self.spec_nodes()[node as int].children@.len() && self.spec_nodes()[
                    (#[trigger] self.spec_nodes()[node as int].children@[k]) as int
                ].name@ == name@),
        decreases self.spec_nodes().len() - node,
    {
        let children_count = self.nodes[node].children.len();
        let mut k: usize = 0;
        while k < children_count
            invariant
                self.wf(),
                node < self.spec_nodes().len(),
                children_count == self.spec_nodes()[node as int].children@.len(),
                k <= children_count,
                name@ == name@,
                recursive ==> name_in_children(self.spec_nodes(), node as int, 0, name@)
                    == name_in_children(self.spec_nodes(), node as int, k as int, name@),
                !recursive ==> forall|k1: int|
                    0 <= k1 < k ==> self.spec_nodes()[(#[trigger] self.spec_nodes()[node
                        as int].children@[k1]) as int].name@ != name@,
            decreases children_count - k,
        {
            let child = self.nodes[node].children[k];
            if self.nodes[child].name == name.to_owned() {
                proof {
                    assert(name_in_children(self.spec_nodes(), node as int, k as int, name@));
                }
                return Some(child);
            }
            if recursive {
                match self.get_child_by_name(child, name, recursive) {
                    Some(found) => {
                        proof {
                            assert(name_in_children(
                                self.spec_nodes(),
                                node as int,
                                k as int,
                                name@,
                            ));
                        }
                        return Some(found);
                    },
                    None => (),
                }
                proof {
                    assert(name_in_children(self.spec_nodes(), node as int, k as int, name@)
                        == name_in_children(self.spec_nodes(), node as int, k + 1, name@));
                }
            }
            k = k + 1;
        }
        None
    }
}


/// Every visit in a subtree's pre-order sequence is a node at or after
/// the subtree's root.
proof fn lemma_preorder_in_range(nodes: Seq<Node>, idx: int)
    requires
        arena_wf(nodes),
        0 <= idx < nodes.len(),
        nodes.len() <= usize::MAX,
    ensures
        forall|j: int|
            0 <= j < preorder(nodes, idx).len() ==> idx <= (#[trigger] preorder(nodes, idx)[j])
                < nodes.len(),
    decreases nodes.len() - idx, 1int, 0int,
{
    lemma_preorder_children_in_range(nodes, idx, 0);
    assert forall|j: int| 0 <= j < preorder(nodes, idx).len() implies idx <= (
    #[trigger] preorder(nodes, idx)[j]) < nodes.len() by {
        if j > 0 {
            assert(preorder(nodes, idx)[j] == preorder_children(nodes, idx, 0)[j - 1]);
        }
    }
}

/// Every visit under children `k..` of `idx` is a node after `idx`.
proof fn lemma_preorder_children_in_range(nodes: Seq<Node>, idx: int, k: int)
    requires
        arena_wf(nodes),
        0 <= idx < nodes.len(),
        nodes.len() <= usize::MAX,
        0 <= k <= nodes[idx].children@.len(),
    ensures
        forall|j: int|
            0 <= j < preorder_children(nodes, idx, k).len() ==> idx < (
            #[trigger] preorder_children(nodes, idx, k)[j]) < nodes.len(),
    decreases nodes.len() - idx, 0int, nodes[idx].children@.len() - k,
{
    if k < nodes[idx].children@.len() {
        let child = nodes[idx].children@[k] as int;
        lemma_preorder_in_range(nodes, child);
        lemma_preorder_children_in_range(nodes, idx, k + 1);
        let front = preorder(nodes, child);
        let rest = preorder_children(nodes, idx, k + 1);
        assert forall|j: int| 0 <= j < preorder_children(nodes, idx, k).len() implies idx < (
        #[trigger] preorder_children(nodes, idx, k)[j]) < nodes.len() by {
            if j < front.len() {
                assert(preorder_children(nodes, idx, k)[j] == front[j]);
            } else {
                assert(preorder_children(nodes, idx, k)[j] == rest[j - front.len()]);
            }
        }
    }
}

/// Whether a node named `name` stands among children `k..` of `idx`, or
/// anywhere in those children's subtrees.
pub open spec fn name_in_children(nodes: Seq<Node>, idx: int, k: int, name: Seq<char>) -> bool
    decreases nodes.len() - idx, 0int, nodes[idx].children@.len() - k,
        when 0 <= idx < nodes.len() && arena_wf(nodes) && 0 <= k <= nodes[idx].children@.len()
{
    if k == nodes[idx].children@.len() {
        false
    } else {
        let child = nodes[idx].children@[k] as int;
        nodes[child].name@ == name || name_in_children(nodes, child, 0, name) || name_in_children(
            nodes,
            idx,
            k + 1,
            name,
        )
    }
}

/// The draw commands a component list produces, in order.
pub open spec fn comps_draws(renderer: OpenGLRenderer, comps: Seq<SceneComponent>) -> Seq<GlCommand>
    decreases comps.len(),
{
    if comps.len() == 0 {
        Seq::empty()
    } else {
        component_draws(renderer, comps[0]) + comps_draws(renderer, comps.skip(1))
    }
}

/// The draw commands one node's components produce, in order.
pub open spec fn node_draws(renderer: OpenGLRenderer, node: Node) -> Seq<GlCommand> {
    comps_draws(renderer, node.components@)
}

/// The draw commands of the nodes in `order`, each node's components in
/// insertion order.
pub open spec fn order_draws(renderer: OpenGLRenderer, nodes: Seq<Node>, order: Seq<usize>) -> Seq<
    GlCommand,
>
    decreases order.len(),
{
    if order.len() == 0 {
        Seq::empty()
    } else {
        node_draws(renderer, nodes[order[0] as int]) + order_draws(renderer, nodes, order.skip(1))
    }
}

/// The draw commands one frame produces: the pre-order walk's nodes, in
/// order, each node's components in insertion order.
pub open spec fn frame_draws(renderer: OpenGLRenderer, nodes: Seq<Node>) -> Seq<GlCommand> {
    order_draws(renderer, nodes, preorder(nodes, 0))
}

/// Every component the frame visits has an empty dirty log.
pub open spec fn scene_clean(nodes: Seq<Node>) -> bool {
    forall|pos: int, c: int|
        0 <= pos < preorder(nodes, 0).len() && 0 <= c < nodes[preorder(nodes, 0)[pos]
            as int].components@.len() ==> component_clean(
            #[trigger] nodes[preorder(nodes, 0)[pos] as int].components@[c],
        )
}

/// Every component the frame visits is owed to render.
pub open spec fn scene_render_ok(camera: Camera, renderer: OpenGLRenderer, nodes: Seq<Node>) -> bool {
    forall|pos: int, c: int|
        0 <= pos < preorder(nodes, 0).len() && 0 <= c < nodes[preorder(nodes, 0)[pos]
            as int].components@.len() ==> component_render_ok(
            camera,
            #[trigger] nodes[preorder(nodes, 0)[pos] as int].components@[c],
            renderer,
        )
}

/// Well-formed renderers with equal block sizes have equal shadow-byte
/// lengths (each equals its block's size).
proof fn lemma_blocks_length_preserved(r_old: OpenGLRenderer, r_cur: OpenGLRenderer)
    requires
        r_old.wf(),
        r_cur.wf(),
        r_cur.progs@.len() == r_old.progs@.len(),
        forall|p: int|
            0 <= p < r_old.progs@.len() ==> {
                &&& (#[trigger] r_cur.progs@[p]).uniform_blocks@.len()
                    == r_old.progs@[p].uniform_blocks@.len()
                &&& forall|b: int|
                    0 <= b < r_old.progs@[p].uniform_blocks@.len()
                        ==> (#[trigger] r_cur.progs@[p].uniform_blocks@[b]).size
                        == r_old.progs@[p].uniform_blocks@[b].size
            },
    ensures
        forall|p: int, b: int|
            0 <= p < r_old.progs@.len() && 0 <= b < r_old.progs@[p].uniform_blocks@.len()
                ==> (#[trigger] r_cur.progs@[p].uniform_blocks@[b]).buffer_data.bytes@.len()
                == r_old.progs@[p].uniform_blocks@[b].buffer_data.bytes@.len(),
{
    assert forall|p: int, b: int|
        0 <= p < r_old.progs@.len() && 0 <= b < r_old.progs@[p].uniform_blocks@.len() implies (
    #[trigger] r_cur.progs@[p].uniform_blocks@[b]).buffer_data.bytes@.len()
        == r_old.progs@[p].uniform_blocks@[b].buffer_data.bytes@.len() by {
        assert(crate::opengl::prog_wf(r_old.progs@[p]));
        assert(crate::opengl::prog_wf(r_cur.progs@[p]));
        assert(crate::opengl::block_wf(r_old.progs@[p].uniform_blocks@[b]));
        assert(crate::opengl::block_wf(r_cur.progs@[p].uniform_blocks@[b]));
    }
}

impl Scene {
    /// Appends the pre-order visit sequence of the subtree at `idx`.
    fn preorder_walk(nodes: &Vec<Node>, idx: usize, out: &mut Vec<usize>)
        requires
            arena_wf(nodes@),
            idx < nodes@.len(),
        ensures
            final(out)@ == old(out)@ + preorder(nodes@, idx as int),
        decreases nodes@.len() - idx,
    {
        out.push(idx);
        proof {
            assert(out@ + preorder_children(nodes@, idx as int, 0) =~= old(out)@ + preorder(
                nodes@,
                idx as int,
            ));
        }
        let children_count = nodes[idx].children.len();
        let mut k: usize = 0;
        while k < children_count
            invariant
                arena_wf(nodes@),
                idx < nodes@.len(),
                children_count == nodes@[idx as int].children@.len(),
                k <= children_count,
                out@ + preorder_children(nodes@, idx as int, k as int) == old(out)@ + preorder(
                    nodes@,
                    idx as int,
                ),
            decreases children_count - k,
        {
            let child = nodes[idx].children[k];
            let ghost before = out@;
            Self::preorder_walk(nodes, child, out);
            proof {
                assert(preorder_children(nodes@, idx as int, k as int) == preorder(
                    nodes@,
                    child as int,
                ) + preorder_children(nodes@, idx as int, k + 1));
                assert(out@ + preorder_children(nodes@, idx as int, k + 1) =~= before
                    + preorder_children(nodes@, idx as int, k as int));
            }
            k = k + 1;
        }
        proof {
            assert(out@ =~= out@ + preorder_children(
                nodes@,
                idx as int,
                nodes@[idx as int].children@.len() as int,
            ));
        }
    }

    /// The pre-order visit sequence of the whole scene, starting at the
    /// root: a node first, then each child's subtree in child-list
    /// order.
    pub fn preorder_indices(&self) -> (order: Vec<usize>)
        requires
            self.wf(),
        ensures
            order@ == preorder(self.spec_nodes(), 0),
            forall|j: int| 0 <= j < order@.len() ==> (#[trigger] order@[j]) < self.spec_nodes().len(),
    {
        let mut out: Vec<usize> = Vec::new();
        let arena_len = self.nodes.len();
        Self::preorder_walk(&self.nodes, 0, &mut out);
        proof {
            assert(self.nodes@.len() == arena_len);
            lemma_preorder_in_range(self.nodes@, 0);
            assert(out@ =~= preorder(self.nodes@, 0));
        }
        out
    }

    /// Creates one geometry per mesh against the given shader pair and
    /// its reflection, and attaches one model owning them — in mesh
    /// order, at the node's current transform — to the node. Succeeds
    /// exactly when every creation does: the reflection must be valid
    /// with distinct parameter names, and the renderer must have ids
    /// left for every mesh.
    pub fn attach_model_component(
        &mut self,
        node: usize,
        meshes: &Vec<MeshData>,
        vert_src: &str,
        frag_src: &str,
        reflection: &ProgramReflection,
        cmds: &mut Vec<GlCommand>,
    ) -> (result: Result<(), SceneError>)
        requires
            old(self).wf(),
            node < old(self).spec_nodes().len(),
            forall|m: int|
                0 <= m < meshes@.len() ==> {
                    &&& (#[trigger] meshes@[m]).layout.wf()
                    &&& meshes@[m].layout.spec_stride() <= usize::MAX
                    &&& meshes@[m].layout.elements@.len() <= u32::MAX
                },
        ensures
            final(self).wf(),
            final(self).spec_nodes().len() == old(self).spec_nodes().len(),
            final(self).spec_camera() == old(self).spec_camera(),
            forall|i: int|
                0 <= i < old(self).spec_nodes().len() && i != node
                    ==> #[trigger] final(self).spec_nodes()[i] == old(self).spec_nodes()[i],
            final(self).spec_nodes()[node as int].children@ == old(self).spec_nodes()[
                node as int
            ].children@,
            final(self).spec_nodes()[node as int].name == old(self).spec_nodes()[node as int].name,
            result is Ok <==> meshes@.len() == 0 || (crate::opengl::reflection_blocks_valid(
                *reflection,
            ) && reflection.blocks@.len() <= u32::MAX && reflection.uniforms@.len() <= u32::MAX
                && crate::opengl::reflection_names_distinct(*reflection) && old(
                self,
            ).spec_renderer().gl().next_id + meshes@.len() * (4 + reflection.blocks@.len())
                <= u32::MAX),
            result is Ok ==> {
                let comps0 = old(self).spec_nodes()[node as int].components@;
                let comps1 = final(self).spec_nodes()[node as int].components@;
                let r0 = old(self).spec_renderer().gl();
                &&& comps1.len() == comps0.len() + 1
                &&& comps1.subrange(0, comps0.len() as int) == comps0
                &&& comps1.last() matches SceneComponent::Model(m) && m.spec_global() == old(
                    self,
                ).spec_nodes()[node as int].transform && m.spec_local()
                    == crate::transform::identity_value() && m.spec_geometries().len()
                    == meshes@.len() && (forall|g: int|
                    0 <= g < meshes@.len() ==> {
                        &&& (#[trigger] m.spec_geometries()[g]).gl().vbo == r0.vbos@.len() + g
                        &&& m.spec_geometries()[g].gl().ibo == r0.ibos@.len() + g
                        &&& m.spec_geometries()[g].gl().vao == r0.vaos@.len() + g
                        &&& m.spec_geometries()[g].gl().program == r0.progs@.len() + g
                    })
            },
            result is Err ==> final(self).spec_nodes()[node as int].components@ == old(
                self,
            ).spec_nodes()[node as int].components@,
    {
        let ghost r0 = old(self).spec_renderer().gl();
        let ghost per_mesh = 4 + reflection.blocks@.len() as int;
        let mut geometries: Vec<crate::renderer::Geometry> = Vec::new();
        let mut m: usize = 0;
        while m < meshes.len()
            invariant
                m <= meshes@.len(),
                node < self.nodes@.len(),
                self.renderer.wf(),
                self.nodes@ == old(self).spec_nodes(),
                self.camera == old(self).spec_camera(),
                old(self).wf(),
                r0 == old(self).spec_renderer().gl(),
                per_mesh == 4 + reflection.blocks@.len() as int,
                forall|mm: int|
                    0 <= mm < meshes@.len() ==> {
                        &&& (#[trigger] meshes@[mm]).layout.wf()
                        &&& meshes@[mm].layout.spec_stride() <= usize::MAX
                        &&& meshes@[mm].layout.elements@.len() <= u32::MAX
                    },
                self.renderer.gl().vbos@.len() == r0.vbos@.len() + m,
                self.renderer.gl().ibos@.len() == r0.ibos@.len() + m,
                self.renderer.gl().vaos@.len() == r0.vaos@.len() + m,
                self.renderer.gl().progs@.len() == r0.progs@.len() + m,
                self.renderer.gl().next_id == r0.next_id + m * per_mesh,
                m >= 1 ==> crate::opengl::reflection_blocks_valid(*reflection)
                    && reflection.blocks@.len() <= u32::MAX && reflection.uniforms@.len()
                    <= u32::MAX && crate::opengl::reflection_names_distinct(*reflection)
                    && r0.next_id + m * per_mesh <= u32::MAX,
                geometries@.len() == m,
                forall|g: int|
                    0 <= g < geometries@.len() ==> {
                        &&& (#[trigger] geometries@[g]).gl().vbo == r0.vbos@.len() + g
                        &&& geometries@[g].gl().ibo == r0.ibos@.len() + g
                        &&& geometries@[g].gl().vao == r0.vaos@.len() + g
                        &&& geometries@[g].gl().program == r0.progs@.len() + g
                    },
                forall|g: int|
                    0 <= g < geometries@.len() ==> crate::renderer::geometry_valid(
                        #[trigger] geometries@[g],
                        self.renderer,
                    ),
                forall|i: int, c: int|
                    0 <= i < self.nodes@.len() && 0 <= c < self.nodes@[i].components@.len()
                        ==> component_valid(
                        #[trigger] self.nodes@[i].components@[c],
                        self.renderer,
                    ),
            decreases meshes@.len() - m,
        {
            let mesh = &meshes[m];
            let created = self.renderer.create_geometry(
                &mesh.vertex_data,
                &mesh.index_data,
                &mesh.layout,
                crate::IndexType::U32,
                vert_src,
                frag_src,
                reflection,
                cmds,
            );
            proof {
                assert((m + 1) * per_mesh == m * per_mesh + per_mesh) by (nonlinear_arith);
            }
            match created {
                Ok(g) => {
                    geometries.push(g);
                },
                Err(e) => {
                    proof {
                        if crate::opengl::reflection_blocks_valid(*reflection)
                            && reflection.blocks@.len() <= u32::MAX && reflection.uniforms@.len()
                            <= u32::MAX && crate::opengl::reflection_names_distinct(*reflection)
                            && r0.next_id + meshes@.len() * per_mesh <= u32::MAX {
                            assert((m + 1) * per_mesh <= meshes@.len() * per_mesh)
                                by (nonlinear_arith)
                                requires
                                    m + 1 <= meshes@.len(),
                                    per_mesh >= 0,
                            ;
                            assert(false);
                        }
                    }
                    return Err(SceneError::Render(e));
                },
            }
            m = m + 1;
        }
        proof {
            if meshes@.len() >= 1 {
                assert(meshes@.len() * per_mesh == meshes@.len() as int * per_mesh);
            } else {
                assert(geometries@.len() == 0);
            }
        }
        let transform = *self.nodes[node].transform();
        let model = Model::new(&transform, geometries);
        self.nodes[node].attach_component(SceneComponent::Model(model));
        Ok(())
    }

    /// Renders one frame: clears the color buffer once (to the fixed
    /// frame color, 1.0, 0.3, 0.3, 1.0 in fixed point), then walks the
    /// node tree pre-order, depth-first, rendering each node's components
    /// in insertion order before descending into its children in
    /// child-list order — so the frame's draw commands are exactly
    /// `frame_draws`. When every visited component's dirty logs are
    /// empty on entry, the frame succeeds exactly when every visited
    /// component is owed to render.
    pub fn frame(&mut self, cmds: &mut Vec<GlCommand>) -> (result: Result<(), SceneError>)
        requires
            old(self).wf(),
        ensures
            final(self).wf(),
            final(self).spec_nodes().len() == old(self).spec_nodes().len(),
            forall|i: int|
                0 <= i < old(self).spec_nodes().len() ==> {
                    &&& (#[trigger] final(self).spec_nodes()[i]).children@ == old(
                        self,
                    ).spec_nodes()[i].children@
                    &&& final(self).spec_nodes()[i].name == old(self).spec_nodes()[i].name
                    &&& final(self).spec_nodes()[i].components@.len() == old(self).spec_nodes()[
                        i
                    ].components@.len()
                },
            final(self).spec_camera() == old(self).spec_camera(),
            final(cmds)@.len() > old(cmds)@.len(),
            final(cmds)@.subrange(0, old(cmds)@.len() as int) == old(cmds)@,
            (final(cmds)@[old(cmds)@.len() as int] == GlCommand::Clear {
                r: 65536i32,
                g: 19661i32,
                b: 19661i32,
                a: 65536i32,
            }),
            clear_count(final(cmds)@.skip(old(cmds)@.len() as int)) == 1,
            result is Ok ==> draws_of(final(cmds)@.skip(old(cmds)@.len() as int)) == frame_draws(
                old(self).spec_renderer().gl(),
                old(self).spec_nodes(),
            ),
            scene_clean(old(self).spec_nodes()) ==> (result is Ok <==> scene_render_ok(
                old(self).spec_camera(),
                old(self).spec_renderer().gl(),
                old(self).spec_nodes(),
            )),
    {
        let ghost nodes0 = old(self).spec_nodes();
        let ghost r0 = old(self).spec_renderer().gl();
        let ghost camera0 = old(self).spec_camera();
        let ghost n0 = old(cmds)@.len() as int;
        self.renderer.clear(65536, 19661, 19661, 65536, cmds);
        proof {
            let clear = GlCommand::Clear { r: 65536i32, g: 19661i32, b: 19661i32, a: 65536i32 };
            assert(cmds@.skip(n0) =~= seq![clear]);
            lemma_cmd_shape_single(clear);
            assert(draws_of(cmds@.skip(n0)) == Seq::<GlCommand>::empty());
            assert(clear_count(cmds@.skip(n0)) == 1);
        }
        let order = self.preorder_indices();
        let ghost order0 = order@;
        proof {
            assert(order0.skip(0) =~= order0);
        }
        let mut t: usize = 0;
        while t < order.len()
            invariant
                t <= order0.len(),
                order@ == order0,
                order0 == preorder(nodes0, 0),
                nodes0 == old(self).spec_nodes(),
                r0 == old(self).spec_renderer().gl(),
                camera0 == old(self).spec_camera(),
                n0 == old(cmds)@.len() as int,
                old(self).wf(),
                forall|j: int| 0 <= j < order0.len() ==> (#[trigger] order0[j]) < nodes0.len(),
                self.nodes@.len() == nodes0.len(),
                forall|i: int|
                    0 <= i < nodes0.len() ==> {
                        &&& (#[trigger] self.nodes@[i]).children@ == nodes0[i].children@
                        &&& self.nodes@[i].name == nodes0[i].name
                        &&& self.nodes@[i].components@.len() == nodes0[i].components@.len()
                        &&& self.nodes@[i].transform == nodes0[i].transform
                        &&& self.nodes@[i].parent == nodes0[i].parent
                    },
                forall|i: int, c: int|
                    0 <= i < nodes0.len() && 0 <= c < nodes0[i].components@.len() ==> {
                        ||| #[trigger] self.nodes@[i].components@[c] == nodes0[i].components@[c]
                        ||| component_rendered(
                            nodes0[i].components@[c],
                            self.nodes@[i].components@[c],
                        )
                    },
                self.camera == camera0,
                self.renderer.wf(),
                arena_wf(self.nodes@),
                self.renderer.gl().vbos@ == r0.vbos@,
                self.renderer.gl().ibos@ == r0.ibos@,
                self.renderer.gl().vaos@ == r0.vaos@,
                self.renderer.gl().progs@.len() == r0.progs@.len(),
                self.renderer.gl().next_id == r0.next_id,
                forall|p: int|
                    0 <= p < r0.progs@.len() ==> {
                        &&& (#[trigger] self.renderer.gl().progs@[p]).uniform_blocks@.len()
                            == r0.progs@[p].uniform_blocks@.len()
                        &&& forall|b: int|
                            0 <= b < r0.progs@[p].uniform_blocks@.len() ==> {
                                &&& (#[trigger] self.renderer.gl().progs@[p].uniform_blocks@[
                                    b
                                ]).uniforms@ == r0.progs@[p].uniform_blocks@[b].uniforms@
                                &&& self.renderer.gl().progs@[p].uniform_blocks@[b].size
                                    == r0.progs@[p].uniform_blocks@[b].size
                            }
                    },
                forall|i: int, c: int|
                    0 <= i < self.nodes@.len() && 0 <= c < self.nodes@[i].components@.len()
                        ==> component_valid(
                        #[trigger] self.nodes@[i].components@[c],
                        self.renderer,
                    ),
                scene_clean(nodes0) ==> forall|pos: int, c: int|
                    0 <= pos < t && 0 <= c < nodes0[order0[pos] as int].components@.len()
                        ==> component_render_ok(
                        camera0,
                        #[trigger] nodes0[order0[pos] as int].components@[c],
                        r0,
                    ),
                cmds@.len() > n0,
                cmds@.subrange(0, n0) == old(cmds)@,
                (cmds@[n0] == GlCommand::Clear {
                    r: 65536i32,
                    g: 19661i32,
                    b: 19661i32,
                    a: 65536i32,
                }),
                clear_count(cmds@.skip(n0)) == 1,
                draws_of(cmds@.skip(n0)) + order_draws(r0, nodes0, order0.skip(t as int))
                    == frame_draws(r0, nodes0),
            decreases order0.len() - t,
        {
            let idx = order[t];
            let components_count = self.nodes[idx].components.len();
            let ghost node_comps0 = nodes0[idx as int].components@;
            proof {
                assert(order0.skip(t as int)[0] == order0[t as int]);
                assert(order0.skip(t as int).skip(1) =~= order0.skip(t + 1));
                assert(node_comps0.skip(0) =~= node_comps0);
            }
            let mut c: usize = 0;
            while c < components_count
                invariant
                    c <= components_count,
                    idx < self.nodes@.len(),
                    t < order0.len(),
                    idx == order0[t as int],
                    components_count == node_comps0.len(),
                    node_comps0 == nodes0[idx as int].components@,
                    order0 == preorder(nodes0, 0),
                    nodes0 == old(self).spec_nodes(),
                    r0 == old(self).spec_renderer().gl(),
                    camera0 == old(self).spec_camera(),
                    n0 == old(cmds)@.len() as int,
                    old(self).wf(),
                    self.nodes@.len() == nodes0.len(),
                    forall|i: int|
                        0 <= i < nodes0.len() ==> {
                            &&& (#[trigger] self.nodes@[i]).children@ == nodes0[i].children@
                            &&& self.nodes@[i].name == nodes0[i].name
                            &&& self.nodes@[i].components@.len() == nodes0[i].components@.len()
                            &&& self.nodes@[i].transform == nodes0[i].transform
                            &&& self.nodes@[i].parent == nodes0[i].parent
                        },
                    forall|i: int, cc: int|
                        0 <= i < nodes0.len() && 0 <= cc < nodes0[i].components@.len() ==> {
                            ||| #[trigger] self.nodes@[i].components@[cc] == nodes0[
                                i
                            ].components@[cc]
                            ||| component_rendered(
                                nodes0[i].components@[cc],
                                self.nodes@[i].components@[cc],
                            )
                        },
                    self.camera == camera0,
                    self.renderer.wf(),
                    arena_wf(self.nodes@),
                    self.renderer.gl().vbos@ == r0.vbos@,
                    self.renderer.gl().ibos@ == r0.ibos@,
                    self.renderer.gl().vaos@ == r0.vaos@,
                    self.renderer.gl().progs@.len() == r0.progs@.len(),
                    self.renderer.gl().next_id == r0.next_id,
                    forall|p: int|
                        0 <= p < r0.progs@.len() ==> {
                            &&& (#[trigger] self.renderer.gl().progs@[p]).uniform_blocks@.len()
                                == r0.progs@[p].uniform_blocks@.len()
                            &&& forall|b: int|
                                0 <= b < r0.progs@[p].uniform_blocks@.len() ==> {
                                    &&& (#[trigger] self.renderer.gl().progs@[
                                        p
                                    ].uniform_blocks@[b]).uniforms@ == r0.progs@[
                                        p
                                    ].uniform_blocks@[b].uniforms@
                                    &&& self.renderer.gl().progs@[p].uniform_blocks@[b].size
                                        == r0.progs@[p].uniform_blocks@[b].size
                                }
                        },
                    forall|i: int, cc: int|
                        0 <= i < self.nodes@.len() && 0 <= cc < self.nodes@[i].components@.len()
                            ==> component_valid(
                            #[trigger] self.nodes@[i].components@[cc],
                            self.renderer,
                        ),
                    scene_clean(nodes0) ==> forall|pos: int, cc: int|
                        0 <= pos < t && 0 <= cc < nodes0[order0[pos] as int].components@.len()
                            ==> component_render_ok(
                            camera0,
                            #[trigger] nodes0[order0[pos] as int].components@[cc],
                            r0,
                        ),
                    scene_clean(nodes0) ==> forall|cc: int|
                        0 <= cc < c ==> component_render_ok(
                            camera0,
                            #[trigger] node_comps0[cc],
                            r0,
                        ),
                    cmds@.len() > n0,
                    cmds@.subrange(0, n0) == old(cmds)@,
                    (cmds@[n0] == GlCommand::Clear {
                        r: 65536i32,
                        g: 19661i32,
                        b: 19661i32,
                        a: 65536i32,
                    }),
                    clear_count(cmds@.skip(n0)) == 1,
                    draws_of(cmds@.skip(n0)) + comps_draws(r0, node_comps0.skip(c as int))
                        + order_draws(r0, nodes0, order0.skip(t + 1)) == frame_draws(r0, nodes0),
                decreases components_count - c,
            {
                let ghost comp_old = nodes0[idx as int].components@[c as int];
                let ghost comp_pre = self.nodes@[idx as int].components@[c as int];
                proof {
                    assert(component_valid(comp_pre, self.renderer));
                }
                let ghost renderer_pre = self.renderer;
                let ghost cmds_pre = cmds@;
                let render_result = {
                    let component = &mut self.nodes[idx].components[c];
                    component.render(&mut self.renderer, &self.camera, cmds)
                };
                proof {
                    assert(cmds@.subrange(0, cmds_pre.len() as int) == cmds_pre);
                    assert forall|x: int| 0 <= x <= n0 implies cmds@[x] == cmds_pre[x] by {
                        assert(cmds@.subrange(0, cmds_pre.len() as int)[x] == cmds@[x]);
                    }
                    assert(cmds@.subrange(0, n0) =~= old(cmds)@);
                    let appended = cmds@.skip(cmds_pre.len() as int);
                    assert(cmds@.skip(n0) =~= cmds_pre.skip(n0) + appended);
                    lemma_cmd_shape_concat(cmds_pre.skip(n0), appended);
                    if scene_clean(nodes0) {
                        assert(component_clean(comp_old)) by {
                            assert(nodes0[preorder(nodes0, 0)[t as int] as int].components@[
                                c as int
                            ] == comp_old);
                        }
                        if comp_pre == comp_old {
                        } else {
                            lemma_rendered_component_clean(comp_old, comp_pre);
                        }
                        assert(component_clean(comp_pre));
                        lemma_blocks_length_preserved(r0, renderer_pre.gl());
                        assert forall|k: int|
                            0 <= k < component_geometries(comp_old).len() implies (
                        #[trigger] component_geometries(comp_old)[k]).gl().program
                            < r0.progs@.len() by {
                            assert(component_valid(comp_old, old(self).spec_renderer()));
                        }
                        lemma_component_render_ok_transfer(
                            camera0,
                            comp_old,
                            comp_pre,
                            r0,
                            renderer_pre.gl(),
                        );
                        assert(render_result is Ok <==> component_render_ok(
                            camera0,
                            comp_old,
                            r0,
                        ));
                    }
                }
                match render_result {
                    Ok(()) => (),
                    Err(e) => {
                        proof {
                            if scene_clean(nodes0) {
                                assert(!component_render_ok(camera0, comp_old, r0));
                                assert(!scene_render_ok(camera0, r0, nodes0)) by {
                                    assert(nodes0[preorder(nodes0, 0)[t as int]
                                        as int].components@[c as int] == comp_old);
                                }
                            }
                        }
                        return Err(e);
                    },
                }
                proof {
                    let appended = cmds@.skip(cmds_pre.len() as int);
                    assert(draws_of(appended) == component_draws(renderer_pre.gl(), comp_pre));
                    if comp_pre == comp_old {
                        lemma_model_draws_congruence(
                            renderer_pre.gl(),
                            r0,
                            component_geometries(comp_pre),
                            component_geometries(comp_old),
                        );
                    } else {
                        assert forall|k: int|
                            0 <= k < component_geometries(comp_pre).len() implies (
                        #[trigger] component_geometries(comp_pre)[k]).gl().ibo
                            == component_geometries(comp_old)[k].gl().ibo by {
                            let g0 = component_geometries(comp_old)[k];
                            let g1 = component_geometries(comp_pre)[k];
                        }
                        lemma_model_draws_congruence(
                            renderer_pre.gl(),
                            r0,
                            component_geometries(comp_pre),
                            component_geometries(comp_old),
                        );
                    }
                    assert(draws_of(appended) == component_draws(r0, comp_old));
                    assert(node_comps0.skip(c as int)[0] == node_comps0[c as int]);
                    assert(node_comps0.skip(c as int).skip(1) =~= node_comps0.skip(c + 1));
                    assert(comps_draws(r0, node_comps0.skip(c as int)) == component_draws(
                        r0,
                        comp_old,
                    ) + comps_draws(r0, node_comps0.skip(c + 1)));
                    assert(draws_of(cmds@.skip(n0)) + comps_draws(r0, node_comps0.skip(c + 1))
                        + order_draws(r0, nodes0, order0.skip(t + 1)) =~= draws_of(
                        cmds_pre.skip(n0),
                    ) + comps_draws(r0, node_comps0.skip(c as int)) + order_draws(
                        r0,
                        nodes0,
                        order0.skip(t + 1),
                    ));
                    // the rendered component composes with whatever state it was in
                    let comp_new = self.nodes@[idx as int].components@[c as int];
                    lemma_component_rendered_trans(comp_old, comp_pre, comp_new);
                }
                c = c + 1;
            }
            proof {
                assert(node_comps0.skip(components_count as int) =~= Seq::<SceneComponent>::empty());
                assert(comps_draws(r0, Seq::<SceneComponent>::empty()) == Seq::<
                    GlCommand,
                >::empty());
                assert(draws_of(cmds@.skip(n0)) + order_draws(r0, nodes0, order0.skip(t + 1))
                    =~= draws_of(cmds@.skip(n0)) + comps_draws(
                    r0,
                    node_comps0.skip(components_count as int),
                ) + order_draws(r0, nodes0, order0.skip(t + 1)));
            }
            t = t + 1;
        }
        proof {
            assert(order0.skip(order0.len() as int) =~= Seq::<usize>::empty());
            assert(order_draws(r0, nodes0, Seq::<usize>::empty()) == Seq::<GlCommand>::empty());
            assert(draws_of(cmds@.skip(n0)) =~= draws_of(cmds@.skip(n0)) + Seq::<
                GlCommand,
            >::empty());
            if scene_clean(nodes0) {
                assert forall|pos: int, cc: int|
                    0 <= pos < preorder(nodes0, 0).len() && 0 <= cc < nodes0[preorder(nodes0, 0)[
                        pos
                    ] as int].components@.len() implies component_render_ok(
                    camera0,
                    #[trigger] nodes0[preorder(nodes0, 0)[pos] as int].components@[cc],
                    r0,
                ) by {
                    assert(component_render_ok(
                        camera0,
                        nodes0[order0[pos] as int].components@[cc],
                        r0,
                    ));
                }
            }
        }
        Ok(())
    }
}

} // verus!
