//! Scene-graph nodes and the components attached to them.
//!
//! Nodes live in a single arena owned by the scene; a node's parent and
//! children are stable indices into that arena, so the strong
//! parent-to-child ownership and the weak child-to-parent back-reference
//! carry no lifetime hazards.

use crate::camera::{view_ok, Camera};
use crate::gl_commands::GlCommand;
use crate::model::{model_draws, model_valid, mvp_entry_ok, mvp_param_name, pv_entry_ok, Model,
    SceneError};
use crate::opengl::{clear_count, draws_of, mat4_write_fits, OpenGLRenderer};
use crate::renderer::{Geometry, Renderer};
use crate::shader_params::{groups_have, same_schema};
use crate::transform::{compose_ok, compose_value, identity_value, to_matrix_ok, Transform};
use vstd::prelude::*;

verus! {

/// A component that can hang off a node: a closed set of kinds.
pub enum SceneComponent {
    Model(Model),
}

/// The component can be rendered by the renderer.
pub open spec fn component_valid(c: SceneComponent, renderer: Renderer) -> bool {
    match c {
        SceneComponent::Model(m) => model_valid(m, renderer),
    }
}

/// The geometries a component owns.
pub open spec fn component_geometries(c: SceneComponent) -> Seq<Geometry> {
    match c {
        SceneComponent::Model(m) => m.spec_geometries(),
    }
}

/// The component's cached global transform.
pub open spec fn component_global(c: SceneComponent) -> Transform {
    match c {
        SceneComponent::Model(m) => m.spec_global(),
    }
}

/// Every geometry of the component has an empty dirty log.
pub open spec fn component_clean(c: SceneComponent) -> bool {
    forall|k: int|
        0 <= k < component_geometries(c).len() ==> (#[trigger] component_geometries(c)[
            k
        ]).gl().params.spec_changes().len() == 0
}

/// The draw commands rendering the component produces, in order.
pub open spec fn component_draws(renderer: OpenGLRenderer, c: SceneComponent) -> Seq<GlCommand> {
    model_draws(renderer, component_geometries(c))
}

/// When rendering the component is owed to succeed: the camera inverts,
/// the matrix chain fits, and every geometry's schema takes the matrix.
pub open spec fn component_render_ok(
    camera: Camera,
    c: SceneComponent,
    renderer: OpenGLRenderer,
) -> bool {
    &&& view_ok(camera.spec_transform())
    &&& to_matrix_ok(component_global(c))
    &&& forall|r: int, c2: int| 0 <= r < 4 && 0 <= c2 < 4 ==> pv_entry_ok(camera, r, c2)
    &&& forall|r: int, c2: int|
        0 <= r < 4 && 0 <= c2 < 4 ==> mvp_entry_ok(camera, component_global(c), r, c2)
    &&& forall|k: int|
        0 <= k < component_geometries(c).len() ==> groups_have(
            (#[trigger] component_geometries(c)[k]).gl().params.spec_groups(),
            mvp_param_name(),
        )
    &&& forall|k: int|
        0 <= k < component_geometries(c).len() ==> mat4_write_fits(
            renderer.progs@[(#[trigger] component_geometries(c)[k]).gl().program
                as int].uniform_blocks@,
            mvp_param_name(),
        )
}

/// What rendering leaves of a component: the same transforms and
/// geometry handles, every schema shape kept, every dirty log drained.
pub open spec fn component_rendered(old_c: SceneComponent, new_c: SceneComponent) -> bool {
    &&& component_global(new_c) == component_global(old_c)
    &&& component_geometries(new_c).len() == component_geometries(old_c).len()
    &&& forall|k: int|
        0 <= k < component_geometries(old_c).len() ==> {
            let g0 = #[trigger] component_geometries(old_c)[k];
            let g1 = component_geometries(new_c)[k];
            &&& g1.gl().vbo == g0.gl().vbo
            &&& g1.gl().ibo == g0.gl().ibo
            &&& g1.gl().vao == g0.gl().vao
            &&& g1.gl().program == g0.gl().program
            &&& g1.gl().params.spec_changes() == Seq::<Seq<char>>::empty()
            &&& same_schema(g0.gl().params.spec_groups(), g1.gl().params.spec_groups())
        }
}


/// A rendered component is clean: every dirty log was drained.
pub proof fn lemma_rendered_component_clean(old_c: SceneComponent, new_c: SceneComponent)
    requires
        component_rendered(old_c, new_c),
    ensures
        component_clean(new_c),
{
    assert forall|k: int| 0 <= k < component_geometries(new_c).len() implies (
    #[trigger] component_geometries(new_c)[k]).gl().params.spec_changes().len() == 0 by {
        let g0 = component_geometries(old_c)[k];
        let g1 = component_geometries(new_c)[k];
        assert(g1.gl().params.spec_changes() == Seq::<Seq<char>>::empty());
    }
}

/// When rendering is owed only depends on the camera, the component's
/// transform and schemas, and the blocks' members and room — all of
/// which rendering and drawing preserve.
pub proof fn lemma_component_render_ok_transfer(
    camera: Camera,
    c_old: SceneComponent,
    c_cur: SceneComponent,
    r_old: OpenGLRenderer,
    r_cur: OpenGLRenderer,
)
    requires
        c_cur == c_old || component_rendered(c_old, c_cur),
        r_cur.progs@.len() == r_old.progs@.len(),
        forall|p: int|
            0 <= p < r_old.progs@.len() ==> {
                &&& (#[trigger] r_cur.progs@[p]).uniform_blocks@.len()
                    == r_old.progs@[p].uniform_blocks@.len()
                &&& forall|b: int|
                    0 <= b < r_old.progs@[p].uniform_blocks@.len() ==> {
                        &&& (#[trigger] r_cur.progs@[p].uniform_blocks@[b]).uniforms@
                            == r_old.progs@[p].uniform_blocks@[b].uniforms@
                        &&& r_cur.progs@[p].uniform_blocks@[b].buffer_data.bytes@.len()
                            == r_old.progs@[p].uniform_blocks@[b].buffer_data.bytes@.len()
                    }
            },
        forall|k: int|
            0 <= k < component_geometries(c_old).len() ==> (#[trigger] component_geometries(c_old)[
                k
            ]).gl().program < r_old.progs@.len(),
    ensures
        component_render_ok(camera, c_cur, r_cur) <==> component_render_ok(camera, c_old, r_old),
{
    if c_cur == c_old {
        assert forall|k: int|
            0 <= k < component_geometries(c_old).len() implies (mat4_write_fits(
            r_cur.progs@[(#[trigger] component_geometries(c_old)[k]).gl().program
                as int].uniform_blocks@,
            mvp_param_name(),
        ) <==> mat4_write_fits(
            r_old.progs@[component_geometries(c_old)[k].gl().program as int].uniform_blocks@,
            mvp_param_name(),
        )) by {
            let ph = component_geometries(c_old)[k].gl().program as int;
            crate::opengl::lemma_mat4_write_fits_structure(
                r_cur.progs@[ph].uniform_blocks@,
                r_old.progs@[ph].uniform_blocks@,
                mvp_param_name(),
            );
        }
    } else {
        assert(component_global(c_cur) == component_global(c_old));
        assert forall|k: int|
            0 <= k < component_geometries(c_old).len() implies ((groups_have(
            (#[trigger] component_geometries(c_cur)[k]).gl().params.spec_groups(),
            mvp_param_name(),
        ) <==> groups_have(
            component_geometries(c_old)[k].gl().params.spec_groups(),
            mvp_param_name(),
        )) && (mat4_write_fits(
            r_cur.progs@[component_geometries(c_cur)[k].gl().program as int].uniform_blocks@,
            mvp_param_name(),
        ) <==> mat4_write_fits(
            r_old.progs@[component_geometries(c_old)[k].gl().program as int].uniform_blocks@,
            mvp_param_name(),
        ))) by {
            let g0 = component_geometries(c_old)[k];
            let g1 = component_geometries(c_cur)[k];
            crate::shader_params::lemma_same_schema_has(
                component_geometries(c_old)[k].gl().params.spec_groups(),
                component_geometries(c_cur)[k].gl().params.spec_groups(),
                mvp_param_name(),
            );
            let ph = component_geometries(c_old)[k].gl().program as int;
            assert(component_geometries(c_cur)[k].gl().program as int == ph);
            crate::opengl::lemma_mat4_write_fits_structure(
                r_cur.progs@[ph].uniform_blocks@,
                r_old.progs@[ph].uniform_blocks@,
                mvp_param_name(),
            );
        }
        assert(component_geometries(c_cur).len() == component_geometries(c_old).len());
    }
}

/// Rendering composes: rendering an already-rendered (or untouched)
/// component leaves it rendered relative to the original.
pub proof fn lemma_component_rendered_trans(
    a: SceneComponent,
    b: SceneComponent,
    c: SceneComponent,
)
    requires
        b == a || component_rendered(a, b),
        component_rendered(b, c),
    ensures
        component_rendered(a, c),
{
    if b == a {
    } else {
        assert forall|k: int| 0 <= k < component_geometries(a).len() implies {
            let g0 = #[trigger] component_geometries(a)[k];
            let g1 = component_geometries(c)[k];
            &&& g1.gl().vbo == g0.gl().vbo
            &&& g1.gl().ibo == g0.gl().ibo
            &&& g1.gl().vao == g0.gl().vao
            &&& g1.gl().program == g0.gl().program
            &&& g1.gl().params.spec_changes() == Seq::<Seq<char>>::empty()
            &&& same_schema(g0.gl().params.spec_groups(), g1.gl().params.spec_groups())
        } by {
            let gm = component_geometries(b)[k];
            let gc = component_geometries(c)[k];
            crate::shader_params::lemma_same_schema_trans(
                component_geometries(a)[k].gl().params.spec_groups(),
                gm.gl().params.spec_groups(),
                gc.gl().params.spec_groups(),
            );
        }
    }
}

/// Whether notifying the component of a new global transform succeeds.
pub open spec fn component_notify_ok(c: SceneComponent, t: Transform) -> bool {
    match c {
        SceneComponent::Model(m) => compose_ok(t, m.spec_local()),
    }
}

/// The relation `global_transform_change` leaves between a component's
/// old and new state when the node's global transform became `t`.
pub open spec fn component_notified(old_c: SceneComponent, new_c: SceneComponent, t: Transform) -> bool {
    match (old_c, new_c) {
        (SceneComponent::Model(om), SceneComponent::Model(nm)) => {
            &&& compose_ok(t, om.spec_local())
            &&& nm.spec_global() == compose_value(t, om.spec_local())
            &&& nm.spec_local() == om.spec_local()
            &&& nm.spec_geometries() == om.spec_geometries()
        },
    }
}

impl SceneComponent {
    /// Tells the component its node's global transform changed.
    pub fn global_transform_change(&mut self, transform: &Transform) -> (result: Result<
        (),
        SceneError,
    >)
        ensures
            result is Ok <==> component_notify_ok(*old(self), *transform),
            result is Ok ==> component_notified(*old(self), *final(self), *transform),
            result is Err ==> *final(self) == *old(self),
    {
        match self {
            SceneComponent::Model(m) => m.global_transform_change(transform),
        }
    }

    /// The component's local transform.
    pub fn local_transform(&self) -> (t: &Transform) {
        match self {
            SceneComponent::Model(m) => m.local_transform(),
        }
    }

    /// The component's local transform, for updating.
    pub fn local_transform_mut(&mut self) -> (t: &mut Transform) {
        match self {
            SceneComponent::Model(m) => m.local_transform_mut(),
        }
    }

    /// Renders the component.
    pub fn render(
        &mut self,
        renderer: &mut Renderer,
        camera: &Camera,
        cmds: &mut Vec<GlCommand>,
    ) -> (result: Result<(), SceneError>)
        requires
            old(renderer).wf(),
            component_valid(*old(self), *old(renderer)),
        ensures
            final(renderer).wf(),
            final(renderer).gl().vbos@ == old(renderer).gl().vbos@,
            final(renderer).gl().ibos@ == old(renderer).gl().ibos@,
            final(renderer).gl().vaos@ == old(renderer).gl().vaos@,
            final(renderer).gl().progs@.len() == old(renderer).gl().progs@.len(),
            final(renderer).gl().next_id == old(renderer).gl().next_id,
            forall|p: int|
                0 <= p < old(renderer).gl().progs@.len() ==> {
                    &&& (#[trigger] final(renderer).gl().progs@[p]).uniform_blocks@.len() == old(
                        renderer,
                    ).gl().progs@[p].uniform_blocks@.len()
                    &&& forall|b: int|
                        0 <= b < old(renderer).gl().progs@[p].uniform_blocks@.len() ==> {
                            &&& (#[trigger] final(renderer).gl().progs@[p].uniform_blocks@[
                                b
                            ]).uniforms@ == old(renderer).gl().progs@[p].uniform_blocks@[
                                b
                            ].uniforms@
                            &&& final(renderer).gl().progs@[p].uniform_blocks@[b].size == old(
                                renderer,
                            ).gl().progs@[p].uniform_blocks@[b].size
                        }
                },
            component_valid(*final(self), *final(renderer)),
            final(cmds)@.len() >= old(cmds)@.len(),
            final(cmds)@.subrange(0, old(cmds)@.len() as int) == old(cmds)@,
            clear_count(final(cmds)@.skip(old(cmds)@.len() as int)) == 0,
            result is Ok ==> draws_of(final(cmds)@.skip(old(cmds)@.len() as int))
                == component_draws(old(renderer).gl(), *old(self)),
            result is Ok ==> component_rendered(*old(self), *final(self)),
            component_clean(*old(self)) ==> (result is Ok <==> component_render_ok(
                *camera,
                *old(self),
                old(renderer).gl(),
            )),
    {
        match self {
            SceneComponent::Model(m) => m.render(renderer, camera, cmds),
        }
    }
}

/// One scene node: a name, its place in the arena, its components, and
/// its local transform.
pub struct Node {
    pub name: String,
    pub parent: Option<usize>,
    pub children: Vec<usize>,
    pub components: Vec<SceneComponent>,
    pub transform: Transform,
}

impl Node {
    /// A fresh node at the identity transform, with no children and no
    /// components.
    pub fn new(name: &str, parent: Option<usize>) -> (node: Node)
        ensures
            node.name@ == name@,
            node.parent == parent,
            node.children@.len() == 0,
            node.components@.len() == 0,
            node.transform == identity_value(),
    {
        Node {
            name: name.to_owned(),
            parent,
            children: Vec::new(),
            components: Vec::new(),
            transform: Transform::identity(),
        }
    }

    /// The node's local transform.
    pub fn transform(&self) -> (t: &Transform)
        ensures
            *t == self.transform,
    {
        &self.transform
    }

    /// Replaces the node's local transform and immediately notifies
    /// every component attached to this node (descendant nodes are not
    /// notified). Fails when a component's composition overflows;
    /// components before the failing one are already notified then.
    pub fn transform_change(&mut self, transform: Transform) -> (result: Result<(), SceneError>)
        ensures
            final(self).name == old(self).name,
            final(self).parent == old(self).parent,
            final(self).children == old(self).children,
            final(self).transform == transform,
            final(self).components@.len() == old(self).components@.len(),
            result is Ok <==> (forall|i: int|
                0 <= i < old(self).components@.len() ==> component_notify_ok(
                    #[trigger] old(self).components@[i],
                    transform,
                )),
            result is Ok ==> forall|i: int|
                0 <= i < old(self).components@.len() ==> component_notified(
                    old(self).components@[i],
                    #[trigger] final(self).components@[i],
                    transform,
                ),
            forall|i: int|
                0 <= i < old(self).components@.len() ==> (#[trigger] final(self).components@[i]
                    == old(self).components@[i] || component_notified(
                    old(self).components@[i],
                    final(self).components@[i],
                    transform,
                )),
    {
        self.transform = transform;
        let mut i: usize = 0;
        while i < self.components.len()
            invariant
                i <= self.components@.len(),
                self.name == old(self).name,
                self.parent == old(self).parent,
                self.children == old(self).children,
                self.transform == transform,
                self.components@.len() == old(self).components@.len(),
                forall|k: int|
                    0 <= k < i ==> component_notified(
                        old(self).components@[k],
                        #[trigger] self.components@[k],
                        transform,
                    ),
                forall|k: int|
                    i <= k < self.components@.len() ==> #[trigger] self.components@[k] == old(
                        self,
                    ).components@[k],
            decreases self.components@.len() - i,
        {
            let notify_result = self.components[i].global_transform_change(&transform);
            match notify_result {
                Ok(()) => (),
                Err(e) => {
                    return Err(e);
                },
            }
            i = i + 1;
        }
        proof {
            assert forall|k: int| 0 <= k < old(self).components@.len() implies component_notify_ok(
                #[trigger] old(self).components@[k],
                transform,
            ) by {
                assert(component_notified(
                    old(self).components@[k],
                    self.components@[k],
                    transform,
                ));
            }
        }
        Ok(())
    }

    /// Appends a component; components keep insertion order.
    pub fn attach_component(&mut self, component: SceneComponent)
        ensures
            final(self).components@ == old(self).components@.push(component),
            final(self).name == old(self).name,
            final(self).parent == old(self).parent,
            final(self).children == old(self).children,
            final(self).transform == old(self).transform,
    {
        self.components.push(component);
    }

    /// The node's components, in insertion order.
    pub fn components(&self) -> (components: &Vec<SceneComponent>)
        ensures
            components@ == self.components@,
    {
        &self.components
    }

    /// The node's components, for updating.
    pub fn components_mut(&mut self) -> (components: &mut Vec<SceneComponent>)
        ensures
            *components == old(self).components,
            final(self).components == *final(components),
            final(self).name == old(self).name,
            final(self).parent == old(self).parent,
            final(self).children == old(self).children,
            final(self).transform == old(self).transform,
    {
        &mut self.components
    }

    /// How many children the node has.
    pub fn child_count(&self) -> (count: usize)
        ensures
            count == self.children@.len(),
    {
        self.children.len()
    }

    /// The arena index of the node's `index`-th child, if it has one.
    pub fn child_by_index(&self, index: usize) -> (child: Option<usize>)
        ensures
            child == (if index < self.children@.len() {
                Some(self.children@[index as int])
            } else {
                Option::<usize>::None
            }),
    {
        if index < self.children.len() {
            Some(self.children[index])
        } else {
            None
        }
    }
}

} // verus!
