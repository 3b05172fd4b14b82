//! Named, grouped shader parameter values with dirty-change tracking.
//!
//! A [`ShaderParams`] holds a fixed schema of named parameters, grouped
//! to mirror the backend's memory-block boundaries. The schema is fixed
//! at creation; `set` changes a value and records its name as dirty, and
//! `flush_changes` drains the dirty log.

use crate::fixed::Fp;
use vstd::prelude::*;

verus! {

/// Error raised when a parameter name is absent from every group.
#[derive(Clone, Debug)]
pub enum ParamError {
    UnknownParameter(String),
}

/// One shader parameter value: a tagged union over the engine's scalar
/// kinds plus a texture binding handle. Matrices are stored row-major.
#[derive(Clone, Copy, Debug)]
pub enum ParamValue {
    F32(Fp),
    Vec4([Fp; 4]),
    Mat3([Fp; 9]),
    Mat4([Fp; 16]),
    Texture2D(u32),
}

/// One named parameter.
#[derive(Clone, Debug)]
pub struct Param {
    pub name: String,
    pub value: ParamValue,
}

/// A named, ordered list of parameters, mirroring one backend memory
/// block (or the synthetic texture group).
#[derive(Clone, Debug)]
pub struct ParamGroup {
    pub name: String,
    pub params: Vec<Param>,
}

/// Whether some group holds a parameter named `name`.
pub open spec fn groups_have(groups: Seq<ParamGroup>, name: Seq<char>) -> bool {
    exists|i: int, j: int|
        0 <= i < groups.len() && 0 <= j < groups[i].params@.len() && groups[i].params@[j].name@
            == name
}

/// Parameter names are unique across all groups.
pub open spec fn names_unique(groups: Seq<ParamGroup>) -> bool {
    forall|i: int, j: int, k: int, l: int|
        0 <= i < groups.len() && 0 <= j < groups[i].params@.len() && 0 <= k < groups.len() && 0 <= l
            < groups[k].params@.len() && (i != k || j != l)
            ==> #[trigger] groups[i].params@[j].name@ != #[trigger] groups[k].params@[l].name@
}

/// `b` has the same groups, in order, with the same parameter names in
/// order, as `a`; only values may differ.
pub open spec fn same_schema(a: Seq<ParamGroup>, b: Seq<ParamGroup>) -> bool {
    &&& a.len() == b.len()
    &&& forall|i: int|
        0 <= i < a.len() ==> {
            &&& (#[trigger] b[i]).name@ == a[i].name@
            &&& b[i].params@.len() == a[i].params@.len()
            &&& forall|j: int|
                0 <= j < a[i].params@.len() ==> (#[trigger] b[i].params@[j]).name@
                    == a[i].params@[j].name@
        }
}

/// `b` is `a` with every parameter named `name` set to `value` and every
/// other parameter unchanged.
pub open spec fn schema_set(
    a: Seq<ParamGroup>,
    b: Seq<ParamGroup>,
    name: Seq<char>,
    value: ParamValue,
) -> bool {
    &&& same_schema(a, b)
    &&& forall|i: int, j: int|
        0 <= i < a.len() && 0 <= j < a[i].params@.len() ==> (#[trigger] b[i].params@[j]).value == (
        if a[i].params@[j].name@ == name {
            value
        } else {
            a[i].params@[j].value
        })
}

/// Schemas with the same group and parameter names agree on name
/// uniqueness.
pub proof fn lemma_same_schema_unique(a: Seq<ParamGroup>, b: Seq<ParamGroup>)
    requires
        same_schema(a, b),
    ensures
        names_unique(b) <==> names_unique(a),
{
    if names_unique(a) {
        assert forall|i: int, j: int, k: int, l: int|
            0 <= i < b.len() && 0 <= j < b[i].params@.len() && 0 <= k < b.len() && 0 <= l
                < b[k].params@.len() && (i != k || j != l) implies (
        #[trigger] b[i].params@[j].name@) != (#[trigger] b[k].params@[l].name@) by {
            assert(b[i].params@[j].name@ == a[i].params@[j].name@);
            assert(b[k].params@[l].name@ == a[k].params@[l].name@);
        }
    }
    if names_unique(b) {
        assert forall|i: int, j: int, k: int, l: int|
            0 <= i < a.len() && 0 <= j < a[i].params@.len() && 0 <= k < a.len() && 0 <= l
                < a[k].params@.len() && (i != k || j != l) implies (
        #[trigger] a[i].params@[j].name@) != (#[trigger] a[k].params@[l].name@) by {
            assert(b[i].params@[j].name@ == a[i].params@[j].name@);
            assert(b[k].params@[l].name@ == a[k].params@[l].name@);
        }
    }
}

/// A fixed schema of named parameter values plus the accumulating list of
/// names changed since the last flush.
pub struct ShaderParams {
    groups: Vec<ParamGroup>,
    changes: Vec<String>,
}

/// A well-formed parameter set's dirty log only names parameters the
/// schema holds.
pub proof fn lemma_wf_changes_present(sp: &ShaderParams)
    requires
        sp.wf(),
    ensures
        forall|k: int|
            0 <= k < sp.spec_changes().len() ==> groups_have(
                sp.spec_groups(),
                #[trigger] sp.spec_changes()[k],
            ),
{
}

/// Schema shape is transitive.
pub proof fn lemma_same_schema_trans(a: Seq<ParamGroup>, b: Seq<ParamGroup>, c: Seq<ParamGroup>)
    requires
        same_schema(a, b),
        same_schema(b, c),
    ensures
        same_schema(a, c),
{
    assert forall|i: int| 0 <= i < a.len() implies {
        &&& (#[trigger] c[i]).name@ == a[i].name@
        &&& c[i].params@.len() == a[i].params@.len()
        &&& forall|j: int|
            0 <= j < a[i].params@.len() ==> (#[trigger] c[i].params@[j]).name@
                == a[i].params@[j].name@
    } by {
        assert(b[i].name@ == a[i].name@);
        assert(c[i].name@ == b[i].name@);
        assert forall|j: int| 0 <= j < a[i].params@.len() implies (
        #[trigger] c[i].params@[j]).name@ == a[i].params@[j].name@ by {
            assert(b[i].params@[j].name@ == a[i].params@[j].name@);
            assert(c[i].params@[j].name@ == b[i].params@[j].name@);
        }
    }
}

/// Same-shaped schemas hold the same parameter names.
pub proof fn lemma_same_schema_has(a: Seq<ParamGroup>, b: Seq<ParamGroup>, name: Seq<char>)
    requires
        same_schema(a, b),
    ensures
        groups_have(a, name) <==> groups_have(b, name),
{
    if groups_have(a, name) {
        let (i, j) = choose|i: int, j: int|
            0 <= i < a.len() && 0 <= j < a[i].params@.len() && a[i].params@[j].name@ == name;
        assert(b[i].params@[j].name@ == name);
    }
    if groups_have(b, name) {
        let (i, j) = choose|i: int, j: int|
            0 <= i < b.len() && 0 <= j < b[i].params@.len() && b[i].params@[j].name@ == name;
        assert(a[i].params@[j].name@ == name);
    }
}

impl ShaderParams {
    /// The schema invariant: parameter names are unique across groups,
    /// and every name in the dirty log names a parameter.
    pub closed spec fn wf(&self) -> bool {
        &&& names_unique(self.groups@)
        &&& forall|k: int|
            0 <= k < self.changes.deep_view().len() ==> groups_have(
                self.groups@,
                #[trigger] self.changes.deep_view()[k],
            )
    }

    /// The current groups, for contracts.
    pub closed spec fn spec_groups(&self) -> Seq<ParamGroup> {
        self.groups@
    }

    /// The dirty log, for contracts.
    pub closed spec fn spec_changes(&self) -> Seq<Seq<char>> {
        self.changes.deep_view()
    }

    /// Wraps a schema. The schema is fixed from here on: `set` and `get`
    /// only reach names already present.
    pub fn new(groups: Vec<ParamGroup>) -> (result: ShaderParams)
        requires
            names_unique(groups@),
        ensures
            result.wf(),
            result.spec_groups() == groups@,
            result.spec_changes() == Seq::<Seq<char>>::empty(),
    {
        let result = ShaderParams { groups, changes: Vec::new() };
        proof {
            assert(result.changes.deep_view() =~= Seq::<Seq<char>>::empty());
        }
        result
    }

    /// The groups, exposing the schema as `{group name -> ordered params}`.
    pub fn groups(&self) -> (groups: &Vec<ParamGroup>)
        ensures
            groups@ == self.spec_groups(),
    {
        &self.groups
    }

    /// The position of the parameter named `name`, if any group holds one.
    fn find_param(&self, name: &str) -> (r: Option<(usize, usize)>)
        ensures
            r is Some <==> groups_have(self.groups@, name@),
            r matches Some((i, j)) ==> 0 <= i < self.groups@.len() && 0 <= j
                < self.groups@[i as int].params@.len() && self.groups@[i as int].params@[
                j as int
            ].name@ == name@,
    {
        let owned = name.to_owned();
        let mut i: usize = 0;
        while i < self.groups.len()
            invariant
                i <= self.groups@.len(),
                owned@ == name@,
                forall|k: int, l: int|
                    0 <= k < i && 0 <= l < self.groups@[k].params@.len()
                        ==> (#[trigger] self.groups@[k].params@[l]).name@ != name@,
            decreases self.groups@.len() - i,
        {
            let group = &self.groups[i];
            let mut j: usize = 0;
            while j < group.params.len()
                invariant
                    i < self.groups@.len(),
                    *group == self.groups@[i as int],
                    j <= group.params@.len(),
                    owned@ == name@,
                    forall|l: int|
                        0 <= l < j ==> (#[trigger] group.params@[l]).name@ != name@,
                decreases group.params@.len() - j,
            {
                if group.params[j].name == owned {
                    return Some((i, j));
                }
                j = j + 1;
            }
            i = i + 1;
        }
        None
    }

    /// Sets the parameter named `name` to `value` and records the name in
    /// the dirty log (duplicates allowed; the consumer dedupes). Fails
    /// with [`ParamError::UnknownParameter`] exactly when no group holds
    /// that name, leaving values and the dirty log unchanged.
    pub fn set(&mut self, name: &str, value: ParamValue) -> (result: Result<(), ParamError>)
        requires
            old(self).wf(),
        ensures
            final(self).wf(),
            result is Ok <==> groups_have(old(self).spec_groups(), name@),
            result is Ok ==> {
                &&& schema_set(old(self).spec_groups(), final(self).spec_groups(), name@, value)
                &&& final(self).spec_changes() == old(self).spec_changes().push(name@)
            },
            result matches Err(e) ==> {
                &&& final(self).spec_groups() == old(self).spec_groups()
                &&& final(self).spec_changes() == old(self).spec_changes()
                &&& e matches ParamError::UnknownParameter(n) && n@ == name@
            },
    {
        match self.find_param(name) {
            Some((i, j)) => {
                self.groups[i].params[j].value = value;
                self.changes.push(name.to_owned());
                proof {
                    assert(self.groups@[i as int].params@[j as int].value == value);
                    assert(self.changes.deep_view() =~= old(self).changes.deep_view().push(name@));
                    assert forall|k: int, l: int|
                        0 <= k < old(self).groups@.len() && 0 <= l < old(
                            self,
                        ).groups@[k].params@.len() implies (
                    #[trigger] self.groups@[k].params@[l]).value == (if old(
                        self,
                    ).groups@[k].params@[l].name@ == name@ {
                        value
                    } else {
                        old(self).groups@[k].params@[l].value
                    }) by {
                        if k == i as int {
                            if l != j as int {
                                assert(self.groups@[k].params@[l] == old(
                                    self,
                                ).groups@[k].params@[l]);
                                assert(old(self).groups@[k].params@[l].name@ != old(
                                    self,
                                ).groups@[i as int].params@[j as int].name@);
                            }
                        } else {
                            assert(self.groups@[k] == old(self).groups@[k]);
                            assert(old(self).groups@[k].params@[l].name@ != old(
                                self,
                            ).groups@[i as int].params@[j as int].name@);
                        }
                    }
                    lemma_same_schema_unique(old(self).groups@, self.groups@);
                    assert forall|k: int|
                        0 <= k < self.changes.deep_view().len() implies groups_have(
                        self.groups@,
                        #[trigger] self.changes.deep_view()[k],
                    ) by {
                        if k < old(self).changes.deep_view().len() {
                            lemma_same_schema_has(
                                old(self).groups@,
                                self.groups@,
                                self.changes.deep_view()[k],
                            );
                        } else {
                            assert(self.changes.deep_view()[k] == name@);
                            lemma_same_schema_has(old(self).groups@, self.groups@, name@);
                        }
                    }
                }
                Ok(())
            },
            None => Err(ParamError::UnknownParameter(name.to_owned())),
        }
    }

    /// The current value of the parameter named `name`. Fails with
    /// [`ParamError::UnknownParameter`] exactly when no group holds that
    /// name.
    pub fn get(&self, name: &str) -> (result: Result<&ParamValue, ParamError>)
        ensures
            result is Ok <==> groups_have(self.spec_groups(), name@),
            result matches Ok(v) ==> exists|i: int, j: int|
                0 <= i < self.spec_groups().len() && 0 <= j < self.spec_groups()[i].params@.len()
                    && self.spec_groups()[i].params@[j].name@ == name@ && self.spec_groups()[
                i
                ].params@[j].value == *v,
            self.wf() ==> (result matches Ok(v) ==> forall|i: int, j: int|
                0 <= i < self.spec_groups().len() && 0 <= j < self.spec_groups()[i].params@.len()
                    && (#[trigger] self.spec_groups()[i].params@[j]).name@ == name@
                    ==> self.spec_groups()[i].params@[j].value == *v),
            result matches Err(e) ==> e matches ParamError::UnknownParameter(n) && n@ == name@,
    {
        match self.find_param(name) {
            Some((i, j)) => Ok(&self.groups[i].params[j].value),
            None => Err(ParamError::UnknownParameter(name.to_owned())),
        }
    }

    /// Returns the accumulated dirty names, in the order `set` recorded
    /// them, and clears the log; values are untouched. A second flush
    /// with no intervening `set` therefore returns an empty list.
    pub fn flush_changes(&mut self) -> (changed: Vec<String>)
        ensures
            changed.deep_view() == old(self).spec_changes(),
            final(self).spec_changes() == Seq::<Seq<char>>::empty(),
            final(self).spec_groups() == old(self).spec_groups(),
            old(self).wf() ==> final(self).wf(),
    {
        let mut drained: Vec<String> = Vec::new();
        core::mem::swap(&mut drained, &mut self.changes);
        proof {
            assert(self.changes.deep_view() =~= Seq::<Seq<char>>::empty());
        }
        drained
    }
}


/// Checks, pair by pair, that no two parameters anywhere in `groups`
/// share a name.
pub fn check_names_unique(groups: &Vec<ParamGroup>) -> (unique: bool)
    ensures
        unique == names_unique(groups@),
{
    let mut i: usize = 0;
    while i < groups.len()
        invariant
            i <= groups@.len(),
            forall|i1: int, j1: int, k1: int, l1: int|
                0 <= i1 < i && 0 <= j1 < groups@[i1].params@.len() && 0 <= k1 < groups@.len() && 0
                    <= l1 < groups@[k1].params@.len() && (i1 != k1 || j1 != l1)
                    ==> #[trigger] groups@[i1].params@[j1].name@
                    != #[trigger] groups@[k1].params@[l1].name@,
        decreases groups@.len() - i,
    {
        let group_i = &groups[i];
        let mut j: usize = 0;
        while j < group_i.params.len()
            invariant
                i < groups@.len(),
                *group_i == groups@[i as int],
                j <= group_i.params@.len(),
                forall|j1: int, k1: int, l1: int|
                    0 <= j1 < j && 0 <= k1 < groups@.len() && 0 <= l1 < groups@[k1].params@.len()
                        && (i as int != k1 || j1 != l1)
                        ==> #[trigger] groups@[i as int].params@[j1].name@
                        != #[trigger] groups@[k1].params@[l1].name@,
            decreases group_i.params@.len() - j,
        {
            let mut k: usize = 0;
            while k < groups.len()
                invariant
                    i < groups@.len(),
                    *group_i == groups@[i as int],
                    j < group_i.params@.len(),
                    k <= groups@.len(),
                    forall|k1: int, l1: int|
                        0 <= k1 < k && 0 <= l1 < groups@[k1].params@.len() && (i as int != k1 || j
                            as int != l1) ==> groups@[i as int].params@[j as int].name@
                            != #[trigger] groups@[k1].params@[l1].name@,
                decreases groups@.len() - k,
            {
                let group_k = &groups[k];
                let mut l: usize = 0;
                while l < group_k.params.len()
                    invariant
                        i < groups@.len(),
                        k < groups@.len(),
                        *group_i == groups@[i as int],
                        *group_k == groups@[k as int],
                        j < group_i.params@.len(),
                        l <= group_k.params@.len(),
                        forall|l1: int|
                            0 <= l1 < l && (i != k || j as int != l1) ==> groups@[i
                                as int].params@[j as int].name@ != (#[trigger] groups@[k
                                as int].params@[l1]).name@,
                    decreases group_k.params@.len() - l,
                {
                    if !(i == k && j == l) {
                        if group_i.params[j].name == group_k.params[l].name {
                            return false;
                        }
                    }
                    l = l + 1;
                }
                k = k + 1;
            }
            j = j + 1;
        }
        i = i + 1;
    }
    true
}

/// What `flush_changes` guarantees, over the dirty-log model: it returns
/// the whole log and leaves the log empty.
pub open spec fn flush_transition(
    log_before: Seq<Seq<char>>,
    log_after: Seq<Seq<char>>,
    returned: Seq<Seq<char>>,
) -> bool {
    returned == log_before && log_after == Seq::<Seq<char>>::empty()
}

/// Draining the dirty log is idempotent: after one flush, a second flush
/// with no intervening `set` returns the empty list.
pub proof fn lemma_flush_idempotent(
    log0: Seq<Seq<char>>,
    log1: Seq<Seq<char>>,
    first: Seq<Seq<char>>,
    log2: Seq<Seq<char>>,
    second: Seq<Seq<char>>,
)
    requires
        flush_transition(log0, log1, first),
        flush_transition(log1, log2, second),
    ensures
        second.len() == 0,
{
}

} // verus!
