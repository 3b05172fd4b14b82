//! The bind-state cache: the last object bound to each GPU binding point.
//!
//! Every `set_*` method records the requested handle and returns the bind
//! command to issue — or `None` exactly when the handle is already bound,
//! which is how the renderer avoids redundant driver calls on every draw.

use crate::gl_commands::GlCommand;
use std::collections::HashMap;
use vstd::prelude::*;

verus! {

broadcast use vstd::std_specs::hash::group_hash_axioms;

/// The last handle bound to each binding point (0: nothing bound yet),
/// and the texture bound to each texture unit.
pub struct GLStateManager {
    prog: u32,
    vao: u32,
    vbo: u32,
    ibo: u32,
    ubo: u32,
    tex_units: HashMap<u32, u32>,
}

impl GLStateManager {
    /// The cached program handle.
    pub closed spec fn spec_prog(&self) -> u32 {
        self.prog
    }

    /// The cached vertex array handle.
    pub closed spec fn spec_vao(&self) -> u32 {
        self.vao
    }

    /// The cached vertex buffer handle.
    pub closed spec fn spec_vbo(&self) -> u32 {
        self.vbo
    }

    /// The cached index buffer handle.
    pub closed spec fn spec_ibo(&self) -> u32 {
        self.ibo
    }

    /// The cached uniform buffer handle.
    pub closed spec fn spec_ubo(&self) -> u32 {
        self.ubo
    }

    /// The cached texture bindings, one per texture unit.
    pub closed spec fn spec_tex_units(&self) -> Map<u32, u32> {
        self.tex_units@
    }

    /// A cache with nothing bound anywhere.
    pub fn new() -> (state: GLStateManager)
        ensures
            state.spec_prog() == 0 && state.spec_vao() == 0 && state.spec_vbo() == 0
                && state.spec_ibo() == 0 && state.spec_ubo() == 0,
            state.spec_tex_units() == Map::<u32, u32>::empty(),
    {
        GLStateManager {
            prog: 0,
            vao: 0,
            vbo: 0,
            ibo: 0,
            ubo: 0,
            tex_units: HashMap::new(),
        }
    }

    /// Records `prog` as current and returns the bind command, or `None`
    /// exactly when `prog` is already current.
    pub fn set_program(&mut self, prog: u32) -> (cmd: Option<GlCommand>)
        ensures
            final(self).spec_prog() == prog,
            final(self).spec_vao() == old(self).spec_vao(),
            final(self).spec_vbo() == old(self).spec_vbo(),
            final(self).spec_ibo() == old(self).spec_ibo(),
            final(self).spec_ubo() == old(self).spec_ubo(),
            final(self).spec_tex_units() == old(self).spec_tex_units(),
            cmd == (if old(self).spec_prog() == prog {
                Option::<GlCommand>::None
            } else {
                Option::Some(GlCommand::UseProgram(prog))
            }),
    {
        if self.prog != prog {
            self.prog = prog;
            Some(GlCommand::UseProgram(prog))
        } else {
            None
        }
    }

    /// Records `vao` as bound and returns the bind command, or `None`
    /// exactly when `vao` is already bound.
    pub fn set_vao(&mut self, vao: u32) -> (cmd: Option<GlCommand>)
        ensures
            final(self).spec_vao() == vao,
            final(self).spec_prog() == old(self).spec_prog(),
            final(self).spec_vbo() == old(self).spec_vbo(),
            final(self).spec_ibo() == old(self).spec_ibo(),
            final(self).spec_ubo() == old(self).spec_ubo(),
            final(self).spec_tex_units() == old(self).spec_tex_units(),
            cmd == (if old(self).spec_vao() == vao {
                Option::<GlCommand>::None
            } else {
                Option::Some(GlCommand::BindVertexArray(vao))
            }),
    {
        if self.vao != vao {
            self.vao = vao;
            Some(GlCommand::BindVertexArray(vao))
        } else {
            None
        }
    }

    /// Records `vbo` as bound and returns the bind command, or `None`
    /// exactly when `vbo` is already bound.
    pub fn set_vbo(&mut self, vbo: u32) -> (cmd: Option<GlCommand>)
        ensures
            final(self).spec_vbo() == vbo,
            final(self).spec_prog() == old(self).spec_prog(),
            final(self).spec_vao() == old(self).spec_vao(),
            final(self).spec_ibo() == old(self).spec_ibo(),
            final(self).spec_ubo() == old(self).spec_ubo(),
            final(self).spec_tex_units() == old(self).spec_tex_units(),
            cmd == (if old(self).spec_vbo() == vbo {
                Option::<GlCommand>::None
            } else {
                Option::Some(GlCommand::BindArrayBuffer(vbo))
            }),
    {
        if self.vbo != vbo {
            self.vbo = vbo;
            Some(GlCommand::BindArrayBuffer(vbo))
        } else {
            None
        }
    }

    /// Records `ibo` as bound and returns the bind command, or `None`
    /// exactly when `ibo` is already bound.
    pub fn set_ibo(&mut self, ibo: u32) -> (cmd: Option<GlCommand>)
        ensures
            final(self).spec_ibo() == ibo,
            final(self).spec_prog() == old(self).spec_prog(),
            final(self).spec_vao() == old(self).spec_vao(),
            final(self).spec_vbo() == old(self).spec_vbo(),
            final(self).spec_ubo() == old(self).spec_ubo(),
            final(self).spec_tex_units() == old(self).spec_tex_units(),
            cmd == (if old(self).spec_ibo() == ibo {
                Option::<GlCommand>::None
            } else {
                Option::Some(GlCommand::BindElementArrayBuffer(ibo))
            }),
    {
        if self.ibo != ibo {
            self.ibo = ibo;
            Some(GlCommand::BindElementArrayBuffer(ibo))
        } else {
            None
        }
    }

    /// Records `ubo` as bound and returns the bind command, or `None`
    /// exactly when `ubo` is already bound.
    pub fn set_ubo(&mut self, ubo: u32) -> (cmd: Option<GlCommand>)
        ensures
            final(self).spec_ubo() == ubo,
            final(self).spec_prog() == old(self).spec_prog(),
            final(self).spec_vao() == old(self).spec_vao(),
            final(self).spec_vbo() == old(self).spec_vbo(),
            final(self).spec_ibo() == old(self).spec_ibo(),
            final(self).spec_tex_units() == old(self).spec_tex_units(),
            cmd == (if old(self).spec_ubo() == ubo {
                Option::<GlCommand>::None
            } else {
                Option::Some(GlCommand::BindUniformBuffer(ubo))
            }),
    {
        if self.ubo != ubo {
            self.ubo = ubo;
            Some(GlCommand::BindUniformBuffer(ubo))
        } else {
            None
        }
    }

    /// Records `tex2d` as bound to `tex_unit` and returns the bind
    /// command, or `None` exactly when that unit already holds `tex2d`.
    pub fn set_tex2d(&mut self, tex_unit: u32, tex2d: u32) -> (cmd: Option<GlCommand>)
        ensures
            final(self).spec_tex_units() == old(self).spec_tex_units().insert(tex_unit, tex2d),
            final(self).spec_prog() == old(self).spec_prog(),
            final(self).spec_vao() == old(self).spec_vao(),
            final(self).spec_vbo() == old(self).spec_vbo(),
            final(self).spec_ibo() == old(self).spec_ibo(),
            final(self).spec_ubo() == old(self).spec_ubo(),
            cmd == (if old(self).spec_tex_units().contains_key(tex_unit) && old(
                self,
            ).spec_tex_units()[tex_unit] == tex2d {
                Option::<GlCommand>::None
            } else {
                Option::Some(GlCommand::BindTexture { unit: tex_unit, texture: tex2d })
            }),
    {
        let already = match self.tex_units.get(&tex_unit) {
            Some(bound) => *bound == tex2d,
            None => false,
        };
        self.tex_units.insert(tex_unit, tex2d);
        if already {
            None
        } else {
            Some(GlCommand::BindTexture { unit: tex_unit, texture: tex2d })
        }
    }
}

} // verus!
