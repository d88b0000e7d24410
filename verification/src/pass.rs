//! The compile pass pipeline.
//!
//! A fixed, ordered list of whole-graph passes runs once over the entire
//! unit before any lowering is attempted: reference resolution first,
//! then type-spec synthesis. No node is visited by a later pass before
//! every node has completed the earlier one, and a failing node aborts
//! the whole pass run without mutating the unit. Each pass is idempotent
//! per node: a node that has already completed it is left untouched,
//! which is what `lemma_pass_rerun_noop` in the laws module rests on.

use vstd::prelude::*;
use crate::errors::CompileError;
use crate::ir::{
    ArrayLength, ArrayVariant, CompilationUnit, ContainerField, ContainerFieldType,
    ContainerVariant, NodeState, PathRef, SimpleScalarVariant, SizedBufferVariant,
    TerminatedBufferVariant, TypeData, TypeNode, UnionCase, UnionVariant, Variant,
    VariantType, scalar_width_of, spec_has_property, spec_resolve_child, spec_scalar_width,
};

verus! {

/// The ordered stages of the pipeline.
#[derive(Debug, Clone, Copy, PartialEq, Eq, Structural)]
pub enum CompilePass {
    /// Convert every textual path reference into a resolved node index.
    ResolveReferences,
    /// Synthesize per-node backend metadata: scalar widths, virtual
    /// field wiring.
    MakeTypeSpecs,
}

/// The node reached by climbing `up` owners from `from`, if the chain
/// is long enough and stays inside the table.
pub open spec fn spec_ancestor(nodes: Seq<TypeNode>, from: int, up: nat) -> Option<int>
    decreases up,
{
    if from < 0 || from >= nodes.len() {
        None
    } else if up == 0 {
        Some(from)
    } else {
        match nodes[from].data.parent {
            Some(p) => spec_ancestor(nodes, p as int, (up - 1) as nat),
            None => None,
        }
    }
}

/// Where a path reference leads: climb `up` owners, then look a child
/// up by name. `None` when no such node exists.
pub open spec fn spec_resolve_path(nodes: Seq<TypeNode>, from: int, up: nat, name: Seq<char>) -> Option<usize> {
    match spec_ancestor(nodes, from, up) {
        Some(a) => spec_resolve_child(nodes[a].variant, name),
        None => None,
    }
}

/// Resolve one path reference from node `from` against the unit.
/// Fails with an unresolved-reference error (or, at a childless
/// ancestor, a child-access error) exactly when the path names no node.
pub fn resolve_path(unit: &CompilationUnit, from: usize, up: usize, name: &String)
    -> (r: Result<usize, CompileError>)
    ensures
        r is Ok <==> spec_resolve_path(unit.nodes@, from as int, up as nat, name@) is Some,
        r matches Ok(c) ==> spec_resolve_path(unit.nodes@, from as int, up as nat, name@) == Some(c),
        r matches Err(e) ==> {
            ||| (e matches CompileError::UnresolvedReference { path, at }
                && path@ == name@
                && (from < unit.nodes@.len() ==> at@ == unit.nodes@[from as int].data.name@))
            ||| e is ChildAccessUnsupported
        },
{
    if from >= unit.nodes.len() {
        return Err(CompileError::UnresolvedReference { path: name.clone(), at: name.clone() });
    }
    let mut cur: usize = from;
    let mut k: usize = 0;
    while k < up
        invariant
            k <= up,
            from < unit.nodes@.len(),
            cur < unit.nodes@.len(),
            spec_ancestor(unit.nodes@, from as int, up as nat)
                == spec_ancestor(unit.nodes@, cur as int, (up - k) as nat),
        decreases up - k,
    {
        match unit.nodes[cur].data.parent {
            Some(p) => {
                if p >= unit.nodes.len() {
                    proof {
                        assert(spec_ancestor(unit.nodes@, p as int, (up - k - 1) as nat) is None);
                        assert(spec_ancestor(unit.nodes@, cur as int, (up - k) as nat) is None);
                    }
                    return Err(CompileError::UnresolvedReference {
                        path: name.clone(),
                        at: unit.nodes[from].data.name.clone(),
                    });
                }
                cur = p;
            }
            None => {
                return Err(CompileError::UnresolvedReference {
                    path: name.clone(),
                    at: unit.nodes[from].data.name.clone(),
                });
            }
        }
        k = k + 1;
    }
    proof {
        assert(spec_ancestor(unit.nodes@, cur as int, 0) == Some(cur as int));
        assert(spec_ancestor(unit.nodes@, from as int, up as nat) == Some(cur as int));
    }
    match unit.nodes[cur].variant.resolve_child_name(&unit.nodes[cur].data, name) {
        Ok(c) => Ok(c),
        Err(e) => match e {
            CompileError::UnresolvedReference { path, at: _ } => {
                // Report the referencing node's identity, not the
                // ancestor's where the lookup came up empty.
                Err(CompileError::UnresolvedReference {
                    path,
                    at: unit.nodes[from].data.name.clone(),
                })
            }
            other => Err(other),
        },
    }
}

/// A reference with its cached resolution filled in, or `None` when the
/// path names no node.
pub open spec fn spec_resolve_pathref(nodes: Seq<TypeNode>, from: int, pr: PathRef) -> Option<PathRef> {
    match spec_resolve_path(nodes, from, pr.up as nat, pr.name@) {
        Some(t) => Some(PathRef { up: pr.up, name: pr.name, resolved: Some(t) }),
        None => None,
    }
}

/// Container fields with every virtual-field source reference resolved,
/// or `None` when some source does not resolve. Field names, order,
/// children and virtual-ness are untouched.
pub open spec fn spec_resolve_fields(nodes: Seq<TypeNode>, from: int, fields: Seq<ContainerField>)
    -> Option<Seq<ContainerField>>
    decreases fields.len(),
{
    if fields.len() == 0 {
        Some(Seq::empty())
    } else {
        match spec_resolve_fields(nodes, from, fields.drop_last()) {
            Some(front) => {
                let f = fields.last();
                match f.field_type {
                    ContainerFieldType::Normal => Some(front.push(f)),
                    ContainerFieldType::Virtual { source, property } => {
                        match spec_resolve_pathref(nodes, from, source) {
                            Some(pr) => Some(front.push(ContainerField {
                                name: f.name,
                                field_type: ContainerFieldType::Virtual { source: pr, property },
                                child: f.child,
                            })),
                            None => None,
                        }
                    }
                }
            }
            None => None,
        }
    }
}

/// Whether `path` is the textual target of one of this variant's own
/// embedded references: an array's length, a union's discriminant, a
/// sized buffer's length, or a virtual field's source.
pub open spec fn names_a_reference_of(v: Variant, path: Seq<char>) -> bool {
    match v {
        Variant::Array(a) => a.length matches ArrayLength::Referenced(pr) && pr.name@ == path,
        Variant::Union(u) => u.discriminant.name@ == path,
        Variant::SizedBuffer(b) => b.length.name@ == path,
        Variant::Container(c) => exists|j: int| 0 <= j < c.fields@.len()
            && ((#[trigger] c.fields@[j].field_type) matches ContainerFieldType::Virtual { source, property }
                && source.name@ == path),
        _ => false,
    }
}

/// `v` is the resolved form of node `from`'s variant: every embedded
/// path reference carries its resolved index, everything else is
/// unchanged. False when some reference does not resolve.
pub open spec fn resolved_variant_rel(nodes: Seq<TypeNode>, from: int, v: Variant) -> bool {
    match nodes[from].variant {
        Variant::Container(c) => match spec_resolve_fields(nodes, from, c.fields@) {
            Some(fs) => v matches Variant::Container(c2) && c2.fields@ == fs,
            None => false,
        },
        Variant::Array(a) => match a.length {
            ArrayLength::Fixed(_) => v == nodes[from].variant,
            ArrayLength::Referenced(pr) => match spec_resolve_pathref(nodes, from, pr) {
                Some(r) => v == Variant::Array(ArrayVariant { element: a.element, length: ArrayLength::Referenced(r) }),
                None => false,
            },
        },
        Variant::Union(u) => match spec_resolve_pathref(nodes, from, u.discriminant) {
            Some(r) => v matches Variant::Union(u2) && u2.discriminant == r && u2.cases@ == u.cases@,
            None => false,
        },
        Variant::SizedBuffer(b) => match spec_resolve_pathref(nodes, from, b.length) {
            Some(r) => v == Variant::SizedBuffer(SizedBufferVariant { length: r }),
            None => false,
        },
        Variant::TerminatedBuffer(_) => v == nodes[from].variant,
        Variant::SimpleScalar(_) => v == nodes[from].variant,
    }
}

/// Whether every reference embedded in node `from` resolves.
pub open spec fn resolvable(nodes: Seq<TypeNode>, from: int) -> bool {
    exists|v: Variant| #[trigger] resolved_variant_rel(nodes, from, v)
}

/// Whether the resolution pass succeeds on node `i`: a node past `Raw`
/// is skipped, a raw node must have every reference resolve.
pub open spec fn resolve_node_ok(nodes: Seq<TypeNode>, i: int) -> bool {
    nodes[i].data.state != NodeState::Raw || resolvable(nodes, i)
}

/// What the resolution pass leaves at position `i`: a raw node becomes
/// `Resolved` with its references cached and its identity untouched;
/// any other node is left as it stands.
pub open spec fn resolve_result_rel(nodes: Seq<TypeNode>, i: int, nd: TypeNode) -> bool {
    if nodes[i].data.state == NodeState::Raw {
        &&& nd.data.name == nodes[i].data.name
        &&& nd.data.parent == nodes[i].data.parent
        &&& nd.data.state == NodeState::Resolved
        &&& resolved_variant_rel(nodes, i, nd.variant)
    } else {
        nd == nodes[i]
    }
}

/// Build the resolved form of node `from`'s variant.
#[verifier::loop_isolation(false)]
fn resolve_variant(unit: &CompilationUnit, from: usize) -> (r: Result<Variant, CompileError>)
    requires
        from < unit.nodes@.len(),
    ensures
        r is Ok <==> resolvable(unit.nodes@, from as int),
        r matches Ok(v) ==> resolved_variant_rel(unit.nodes@, from as int, v),
        r matches Err(e) ==> {
            ||| (e matches CompileError::UnresolvedReference { path, at }
                && at@ == unit.nodes@[from as int].data.name@
                && names_a_reference_of(unit.nodes@[from as int].variant, path@))
            ||| e is ChildAccessUnsupported
        },
{
    match &unit.nodes[from].variant {
        Variant::Container(c) => {
            let n: usize = c.fields.len();
            let mut out: Vec<ContainerField> = Vec::new();
            proof {
                assert(c.fields@.take(0) =~= Seq::<ContainerField>::empty());
            }
            for j in 0..n
                invariant
                    Some(out@) == spec_resolve_fields(unit.nodes@, from as int, c.fields@.take(j as int)),
            {
                proof {
                    assert(c.fields@.take(j as int + 1).drop_last() =~= c.fields@.take(j as int));
                    assert(c.fields@.take(j as int + 1).last() == c.fields@[j as int]);
                }
                let f = &c.fields[j];
                match &f.field_type {
                    ContainerFieldType::Normal => {
                        out.push(ContainerField {
                            name: f.name.clone(),
                            field_type: ContainerFieldType::Normal,
                            child: f.child,
                        });
                    }
                    ContainerFieldType::Virtual { source, property } => {
                        match resolve_path(unit, from, source.up, &source.name) {
                            Ok(t) => {
                                out.push(ContainerField {
                                    name: f.name.clone(),
                                    field_type: ContainerFieldType::Virtual {
                                        source: PathRef { up: source.up, name: source.name.clone(), resolved: Some(t) },
                                        property: property.clone(),
                                    },
                                    child: f.child,
                                });
                            }
                            Err(e) => {
                                proof {
                                    lemma_resolve_fields_extend_none(
                                        unit.nodes@, from as int, c.fields@, j as int);
                                    assert(c.fields@.take(c.fields@.len() as int) =~= c.fields@);
                                    assert(spec_resolve_fields(unit.nodes@, from as int, c.fields@) is None);
                                    assert(forall|v: Variant|
                                        !(#[trigger] resolved_variant_rel(unit.nodes@, from as int, v)));
                                    assert(c.fields@[j as int].field_type matches
                                        ContainerFieldType::Virtual { source: s2, property: p2 }
                                        && s2.name@ == source.name@);
                                    assert(names_a_reference_of(unit.nodes@[from as int].variant, source.name@));
                                }
                                return Err(e);
                            }
                        }
                    }
                }
            }
            proof {
                assert(c.fields@.take(n as int) =~= c.fields@);
            }
            let v = Variant::Container(ContainerVariant { fields: out });
            assert(resolved_variant_rel(unit.nodes@, from as int, v));
            Ok(v)
        }
        Variant::Array(a) => {
            match &a.length {
                ArrayLength::Fixed(k) => {
                    let v = Variant::Array(ArrayVariant {
                        element: a.element,
                        length: ArrayLength::Fixed(*k),
                    });
                    assert(resolved_variant_rel(unit.nodes@, from as int, v));
                    Ok(v)
                }
                ArrayLength::Referenced(pr) => {
                    let t = match resolve_path(unit, from, pr.up, &pr.name) {
                        Ok(t) => t,
                        Err(e) => {
                            return Err(e);
                        }
                    };
                    let v = Variant::Array(ArrayVariant {
                        element: a.element,
                        length: ArrayLength::Referenced(PathRef {
                            up: pr.up, name: pr.name.clone(), resolved: Some(t),
                        }),
                    });
                    assert(resolved_variant_rel(unit.nodes@, from as int, v));
                    Ok(v)
                }
            }
        }
        Variant::Union(u) => {
            let t = match resolve_path(unit, from, u.discriminant.up, &u.discriminant.name) {
                Ok(t) => t,
                Err(e) => {
                    return Err(e);
                }
            };
            let mut cases: Vec<UnionCase> = Vec::new();
            let n: usize = u.cases.len();
            for j in 0..n
                invariant
                    cases@ == u.cases@.take(j as int),
            {
                proof {
                    assert(u.cases@.take(j as int + 1).drop_last() =~= u.cases@.take(j as int));
                }
                cases.push(UnionCase { match_value: u.cases[j].match_value, child: u.cases[j].child });
            }
            proof {
                assert(u.cases@.take(n as int) =~= u.cases@);
                assert(cases@ =~= u.cases@);
            }
            let v = Variant::Union(UnionVariant {
                discriminant: PathRef { up: u.discriminant.up, name: u.discriminant.name.clone(), resolved: Some(t) },
                cases,
            });
            assert(resolved_variant_rel(unit.nodes@, from as int, v));
            Ok(v)
        }
        Variant::SizedBuffer(b) => {
            let t = match resolve_path(unit, from, b.length.up, &b.length.name) {
                Ok(t) => t,
                Err(e) => {
                    return Err(e);
                }
            };
            let v = Variant::SizedBuffer(SizedBufferVariant {
                length: PathRef { up: b.length.up, name: b.length.name.clone(), resolved: Some(t) },
            });
            assert(resolved_variant_rel(unit.nodes@, from as int, v));
            Ok(v)
        }
        Variant::TerminatedBuffer(_) => {
            let v = Variant::TerminatedBuffer(TerminatedBufferVariant {});
            assert(resolved_variant_rel(unit.nodes@, from as int, v));
            Ok(v)
        }
        Variant::SimpleScalar(s) => {
            let v = Variant::SimpleScalar(SimpleScalarVariant { width: s.width });
            assert(resolved_variant_rel(unit.nodes@, from as int, v));
            Ok(v)
        }
    }
}

/// If resolving field `j`'s source fails, resolving the whole field list
/// fails.
proof fn lemma_resolve_fields_extend_none(nodes: Seq<TypeNode>, from: int, fields: Seq<ContainerField>, j: int)
    requires
        0 <= j < fields.len(),
        fields[j].field_type matches ContainerFieldType::Virtual { source, property }
            && spec_resolve_pathref(nodes, from, source) is None,
    ensures
        forall|k: int| j < k <= fields.len() ==>
            #[trigger] spec_resolve_fields(nodes, from, fields.take(k)) is None,
    decreases fields.len(),
{
    assert forall|k: int| j < k <= fields.len() implies
        #[trigger] spec_resolve_fields(nodes, from, fields.take(k)) is None by {
        lemma_resolve_fields_none_at(nodes, from, fields, j, k);
    }
}

/// Helper: an unresolvable virtual source at position `j` poisons every
/// prefix that includes it.
proof fn lemma_resolve_fields_none_at(nodes: Seq<TypeNode>, from: int, fields: Seq<ContainerField>, j: int, k: int)
    requires
        0 <= j < k <= fields.len(),
        fields[j].field_type matches ContainerFieldType::Virtual { source, property }
            && spec_resolve_pathref(nodes, from, source) is None,
    ensures
        spec_resolve_fields(nodes, from, fields.take(k)) is None,
    decreases k,
{
    assert(fields.take(k).drop_last() =~= fields.take(k - 1));
    assert(fields.take(k).last() == fields[k - 1]);
    if k - 1 > j {
        lemma_resolve_fields_none_at(nodes, from, fields, j, k - 1);
    }
}

/// Run the reference-resolution pass over every node, in index order.
/// Succeeds exactly when every raw node's references resolve; on
/// failure the unit is left untouched.
#[verifier::loop_isolation(false)]
pub fn run_resolve_pass(unit: &mut CompilationUnit) -> (r: Result<(), CompileError>)
    ensures
        r is Ok <==> forall|i: int| 0 <= i < old(unit).nodes@.len() ==> #[trigger] resolve_node_ok(old(unit).nodes@, i),
        r is Ok ==> final(unit).nodes@.len() == old(unit).nodes@.len()
            && forall|i: int| 0 <= i < old(unit).nodes@.len() ==>
                #[trigger] resolve_result_rel(old(unit).nodes@, i, final(unit).nodes@[i]),
        r is Err ==> *final(unit) == *old(unit),
        r matches Err(e) ==> exists|i: int| 0 <= i < old(unit).nodes@.len()
            && !(#[trigger] resolve_node_ok(old(unit).nodes@, i))
            && {
                ||| (e matches CompileError::UnresolvedReference { path, at }
                    && at@ == old(unit).nodes@[i].data.name@
                    && names_a_reference_of(old(unit).nodes@[i].variant, path@))
                ||| e is ChildAccessUnsupported
            },
        final(unit).root == old(unit).root,
{
    let n: usize = unit.nodes.len();
    let mut staged: Vec<Option<Variant>> = Vec::new();
    for i in 0..n
        invariant
            n == unit.nodes@.len(),
            *unit == *old(unit),
            staged@.len() == i,
            forall|j: int| 0 <= j < i ==> #[trigger] resolve_node_ok(unit.nodes@, j),
            forall|j: int| 0 <= j < i ==> match #[trigger] staged@[j] {
                Some(v) => unit.nodes@[j].data.state == NodeState::Raw
                    && resolved_variant_rel(unit.nodes@, j, v),
                None => unit.nodes@[j].data.state != NodeState::Raw,
            },
    {
        let raw: bool = unit.nodes[i].data.state == NodeState::Raw;
        if raw {
            match resolve_variant(unit, i) {
                Ok(v) => staged.push(Some(v)),
                Err(e) => {
                    assert(!resolve_node_ok(unit.nodes@, i as int));
                    assert(0 <= i < old(unit).nodes@.len()
                        && !resolve_node_ok(old(unit).nodes@, i as int));
                    return Err(e);
                }
            }
        } else {
            staged.push(None);
        }
    }
    let mut i: usize = n;
    while i > 0
        invariant
            n == unit.nodes@.len(),
            n == old(unit).nodes@.len(),
            i <= n,
            staged@.len() == i,
            unit.root == old(unit).root,
            forall|j: int| 0 <= j < i ==> #[trigger] unit.nodes@[j] == old(unit).nodes@[j],
            forall|j: int| 0 <= j < i ==> match #[trigger] staged@[j] {
                Some(v) => old(unit).nodes@[j].data.state == NodeState::Raw
                    && resolved_variant_rel(old(unit).nodes@, j, v),
                None => old(unit).nodes@[j].data.state != NodeState::Raw,
            },
            forall|j: int| i <= j < n ==>
                #[trigger] resolve_result_rel(old(unit).nodes@, j, unit.nodes@[j]),
        decreases i,
    {
        i = i - 1;
        match staged.pop() {
            Some(slot) => {
                match slot {
                    Some(v) => {
                        unit.nodes[i].variant = v;
                        unit.nodes[i].data.state = NodeState::Resolved;
                    }
                    None => {}
                }
            }
            None => {
                proof { assert(false); }
            }
        }
    }
    Ok(())
}

/// Whether every virtual field's wiring is in order: its source is
/// resolved and the source node exposes the requested property.
pub open spec fn virtual_ok(nodes: Seq<TypeNode>, f: ContainerField) -> bool {
    f.field_type matches ContainerFieldType::Virtual { source, property } ==>
        source.resolved matches Some(t) && t < nodes.len()
            && spec_has_property(nodes[t as int].variant, property@)
}

/// Whether every virtual field of `fields` is wired as `virtual_ok`
/// asks.
pub open spec fn virtuals_ok(nodes: Seq<TypeNode>, fields: Seq<ContainerField>) -> bool {
    forall|j: int| 0 <= j < fields.len() ==> #[trigger] virtual_ok(nodes, fields[j])
}

/// Whether the type-spec synthesis pass succeeds on node `i`. A
/// finalized node is skipped. A resolved scalar must name a registered
/// primitive; a resolved container's virtual fields must be wired to a
/// property their source exposes; the terminated buffer's synthesis is
/// an unimplemented gap that fails loudly; a raw node means the pass
/// order was violated.
pub open spec fn specs_node_ok(nodes: Seq<TypeNode>, i: int) -> bool {
    ||| nodes[i].data.state == NodeState::Finalized
    ||| (nodes[i].data.state == NodeState::Resolved && match nodes[i].variant {
        Variant::SimpleScalar(_) => spec_scalar_width(nodes[i].data.name@) is Some,
        Variant::TerminatedBuffer(_) => false,
        Variant::Container(c) => virtuals_ok(nodes, c.fields@),
        _ => true,
    })
}

/// What the synthesis pass leaves at position `i`: a finalized node is
/// untouched; a resolved node becomes `Finalized`, a scalar gaining its
/// lowered width, every other variant unchanged.
pub open spec fn specs_result_rel(nodes: Seq<TypeNode>, i: int, nd: TypeNode) -> bool {
    if nodes[i].data.state == NodeState::Finalized {
        nd == nodes[i]
    } else {
        &&& nd.data.name == nodes[i].data.name
        &&& nd.data.parent == nodes[i].data.parent
        &&& nd.data.state == NodeState::Finalized
        &&& match nodes[i].variant {
            Variant::SimpleScalar(_) => spec_scalar_width(nodes[i].data.name@) matches Some(w)
                && nd.variant == Variant::SimpleScalar(SimpleScalarVariant { width: Some(w as u64) }),
            _ => nd.variant == nodes[i].variant,
        }
    }
}

/// Run the type-spec synthesis pass over every node, in index order.
/// Succeeds exactly when synthesis is defined for every node that has
/// not already completed it; on failure the unit is left untouched.
#[verifier::loop_isolation(false)]
pub fn run_specs_pass(unit: &mut CompilationUnit) -> (r: Result<(), CompileError>)
    ensures
        r is Ok <==> forall|i: int| 0 <= i < old(unit).nodes@.len() ==> #[trigger] specs_node_ok(old(unit).nodes@, i),
        r is Ok ==> final(unit).nodes@.len() == old(unit).nodes@.len()
            && forall|i: int| 0 <= i < old(unit).nodes@.len() ==>
                #[trigger] specs_result_rel(old(unit).nodes@, i, final(unit).nodes@[i]),
        r is Err ==> *final(unit) == *old(unit),
        r matches Err(e) ==> exists|i: int| 0 <= i < old(unit).nodes@.len()
            && !(#[trigger] specs_node_ok(old(unit).nodes@, i))
            && match e {
                CompileError::PassOrderViolation => true,
                CompileError::UnknownScalarType(nm) => nm@ == old(unit).nodes@[i].data.name@,
                CompileError::PassUnimplemented(t) => t is TerminatedBuffer,
                CompileError::UnresolvedReference { path, at } => at@ == old(unit).nodes@[i].data.name@,
                CompileError::NoSuchProperty(_) => true,
                _ => false,
            },
        final(unit).root == old(unit).root,
{
    let n: usize = unit.nodes.len();
    // Stage one: validate every node and stage the scalar widths;
    // nothing is written yet, so a failure leaves the unit untouched.
    let mut staged: Vec<Option<Option<u64>>> = Vec::new();
    for i in 0..n
        invariant
            n == unit.nodes@.len(),
            *unit == *old(unit),
            staged@.len() == i,
            forall|j: int| 0 <= j < i ==> #[trigger] specs_node_ok(unit.nodes@, j),
            forall|j: int| 0 <= j < i ==> match #[trigger] staged@[j] {
                Some(w) => unit.nodes@[j].data.state != NodeState::Finalized
                    && match unit.nodes@[j].variant {
                        Variant::SimpleScalar(_) => w matches Some(ww)
                            && spec_scalar_width(unit.nodes@[j].data.name@) == Some(ww as nat),
                        _ => w is None,
                    },
                None => unit.nodes@[j].data.state == NodeState::Finalized,
            },
    {
        let state = unit.nodes[i].data.state;
        if state == NodeState::Finalized {
            assert(specs_node_ok(unit.nodes@, i as int));
            staged.push(None);
        } else if state == NodeState::Raw {
            assert(!specs_node_ok(unit.nodes@, i as int));
            return Err(CompileError::PassOrderViolation);
        } else {
            match &unit.nodes[i].variant {
                Variant::SimpleScalar(_) => {
                    match scalar_width_of(&unit.nodes[i].data.name) {
                        Some(w) => {
                            assert(specs_node_ok(unit.nodes@, i as int));
                            staged.push(Some(Some(w)));
                        }
                        None => {
                            assert(!specs_node_ok(unit.nodes@, i as int));
                            return Err(CompileError::UnknownScalarType(unit.nodes[i].data.name.clone()));
                        }
                    }
                }
                Variant::TerminatedBuffer(_) => {
                    // The metadata-synthesis gap: fail loudly, never
                    // silently succeed.
                    assert(!specs_node_ok(unit.nodes@, i as int));
                    return Err(CompileError::PassUnimplemented(VariantType::TerminatedBuffer));
                }
                Variant::Container(c) => {
                    let m: usize = c.fields.len();
                    let mut j: usize = 0;
                    while j < m
                        invariant
                            j <= m,
                            m == c.fields@.len(),
                            virtuals_ok(unit.nodes@, c.fields@.take(j as int)),
                            unit.nodes@[i as int].variant == Variant::Container(*c),
                        decreases m - j,
                    {
                        proof {
                            assert(c.fields@.take(j as int + 1).drop_last() =~= c.fields@.take(j as int));
                            assert(c.fields@.take(j as int + 1).last() == c.fields@[j as int]);
                        }
                        match &c.fields[j].field_type {
                            ContainerFieldType::Normal => {}
                            ContainerFieldType::Virtual { source, property } => {
                                match source.resolved {
                                    Some(t) => {
                                        if t >= unit.nodes.len() {
                                            assert(!virtual_ok(unit.nodes@, c.fields@[j as int]));
                                            assert(!specs_node_ok(unit.nodes@, i as int));
                                            return Err(CompileError::UnresolvedReference {
                                                path: source.name.clone(),
                                                at: unit.nodes[i].data.name.clone(),
                                            });
                                        }
                                        match unit.nodes[t].variant.has_spec_property(&unit.nodes[t].data, property) {
                                            Ok(()) => {}
                                            Err(e) => {
                                                assert(!virtual_ok(unit.nodes@, c.fields@[j as int]));
                                                assert(!specs_node_ok(unit.nodes@, i as int));
                                                return Err(e);
                                            }
                                        }
                                    }
                                    None => {
                                        assert(!virtual_ok(unit.nodes@, c.fields@[j as int]));
                                        assert(!specs_node_ok(unit.nodes@, i as int));
                                        return Err(CompileError::UnresolvedReference {
                                            path: source.name.clone(),
                                            at: unit.nodes[i].data.name.clone(),
                                        });
                                    }
                                }
                            }
                        }
                        j = j + 1;
                    }
                    proof {
                        assert(c.fields@.take(m as int) =~= c.fields@);
                        assert(virtuals_ok(unit.nodes@, c.fields@));
                        assert(specs_node_ok(unit.nodes@, i as int));
                    }
                    staged.push(Some(None));
                }
                _ => {
                    assert(specs_node_ok(unit.nodes@, i as int));
                    staged.push(Some(None));
                }
            }
        }
    }
    // Stage two: write the staged results back.
    let mut i: usize = n;
    while i > 0
        invariant
            n == unit.nodes@.len(),
            n == old(unit).nodes@.len(),
            i <= n,
            staged@.len() == i,
            unit.root == old(unit).root,
            forall|j: int| 0 <= j < i ==> #[trigger] unit.nodes@[j] == old(unit).nodes@[j],
            forall|j: int| 0 <= j < i ==> match #[trigger] staged@[j] {
                Some(w) => old(unit).nodes@[j].data.state != NodeState::Finalized
                    && match old(unit).nodes@[j].variant {
                        Variant::SimpleScalar(_) => w matches Some(ww)
                            && spec_scalar_width(old(unit).nodes@[j].data.name@) == Some(ww as nat),
                        _ => w is None,
                    },
                None => old(unit).nodes@[j].data.state == NodeState::Finalized,
            },
            forall|j: int| i <= j < n ==>
                #[trigger] specs_result_rel(old(unit).nodes@, j, unit.nodes@[j]),
        decreases i,
    {
        i = i - 1;
        match staged.pop() {
            Some(slot) => {
                match slot {
                    Some(w) => {
                        match w {
                            Some(ww) => {
                                unit.nodes[i].variant = Variant::SimpleScalar(SimpleScalarVariant { width: Some(ww) });
                            }
                            None => {}
                        }
                        unit.nodes[i].data.state = NodeState::Finalized;
                    }
                    None => {}
                }
            }
            None => {
                proof { assert(false); }
            }
        }
    }
    Ok(())
}

/// Run one named pass over the whole unit.
pub fn run_compile_pass(unit: &mut CompilationUnit, pass: CompilePass) -> (r: Result<(), CompileError>)
    ensures
        pass == CompilePass::ResolveReferences ==> {
            &&& (r is Ok <==> forall|i: int| 0 <= i < old(unit).nodes@.len() ==> #[trigger] resolve_node_ok(old(unit).nodes@, i))
            &&& (r is Ok ==> final(unit).nodes@.len() == old(unit).nodes@.len()
                && forall|i: int| 0 <= i < old(unit).nodes@.len() ==>
                    #[trigger] resolve_result_rel(old(unit).nodes@, i, final(unit).nodes@[i]))
        },
        pass == CompilePass::MakeTypeSpecs ==> {
            &&& (r is Ok <==> forall|i: int| 0 <= i < old(unit).nodes@.len() ==> #[trigger] specs_node_ok(old(unit).nodes@, i))
            &&& (r is Ok ==> final(unit).nodes@.len() == old(unit).nodes@.len()
                && forall|i: int| 0 <= i < old(unit).nodes@.len() ==>
                    #[trigger] specs_result_rel(old(unit).nodes@, i, final(unit).nodes@[i]))
        },
        r is Err ==> *final(unit) == *old(unit),
        final(unit).root == old(unit).root,
{
    match pass {
        CompilePass::ResolveReferences => run_resolve_pass(unit),
        CompilePass::MakeTypeSpecs => run_specs_pass(unit),
    }
}

/// `mid` stands to `old` as a successful resolution pass leaves the
/// node table.
pub open spec fn resolved_graph_rel(old_nodes: Seq<TypeNode>, mid: Seq<TypeNode>) -> bool {
    &&& mid.len() == old_nodes.len()
    &&& forall|i: int| 0 <= i < old_nodes.len() ==> #[trigger] resolve_result_rel(old_nodes, i, mid[i])
}

/// The whole pipeline is defined on a graph: every raw node's
/// references resolve, and on any table the resolution pass can leave
/// (all such tables agree on everything synthesis reads), synthesis is
/// defined for every node.
pub open spec fn compile_succeeds(nodes: Seq<TypeNode>) -> bool {
    &&& forall|i: int| 0 <= i < nodes.len() ==> #[trigger] resolve_node_ok(nodes, i)
    &&& forall|mid: Seq<TypeNode>| #[trigger] resolved_graph_rel(nodes, mid) ==>
        forall|i: int| 0 <= i < mid.len() ==> #[trigger] specs_node_ok(mid, i)
}

/// Run the whole pipeline in its fixed order: resolution, then
/// type-spec synthesis. Success is owed whenever `compile_succeeds`
/// holds of the graph; the exact per-pass success conditions are
/// stated on `run_resolve_pass` and `run_specs_pass`. If some
/// reference does not resolve, compilation fails already at the
/// resolution pass, with the offending path and the referencing
/// node's identity, and the unit is left untouched.
pub fn compile(unit: &mut CompilationUnit) -> (r: Result<(), CompileError>)
    ensures
        compile_succeeds(old(unit).nodes@) ==> r is Ok,
        !(forall|i: int| 0 <= i < old(unit).nodes@.len() ==> #[trigger] resolve_node_ok(old(unit).nodes@, i))
            ==> r is Err && *final(unit) == *old(unit),
        r matches Err(e) ==>
            (!(forall|i: int| 0 <= i < old(unit).nodes@.len() ==> #[trigger] resolve_node_ok(old(unit).nodes@, i)))
            ==> exists|i: int| 0 <= i < old(unit).nodes@.len()
                && !(#[trigger] resolve_node_ok(old(unit).nodes@, i))
                && {
                    ||| (e matches CompileError::UnresolvedReference { path, at }
                        && at@ == old(unit).nodes@[i].data.name@
                        && names_a_reference_of(old(unit).nodes@[i].variant, path@))
                    ||| e is ChildAccessUnsupported
                },
        r is Ok ==> exists|mid: Seq<TypeNode>|
            {
                &&& #[trigger] mid.len() == old(unit).nodes@.len()
                &&& final(unit).nodes@.len() == mid.len()
                &&& (forall|i: int| 0 <= i < mid.len() ==> #[trigger] resolve_result_rel(old(unit).nodes@, i, mid[i]))
                &&& (forall|i: int| 0 <= i < mid.len() ==> #[trigger] specs_node_ok(mid, i))
                &&& (forall|i: int| 0 <= i < mid.len() ==> #[trigger] specs_result_rel(mid, i, final(unit).nodes@[i]))
            },
        final(unit).root == old(unit).root,
{
    match run_resolve_pass(unit) {
        Ok(()) => {}
        Err(e) => {
            return Err(e);
        }
    }
    let ghost mid = unit.nodes@;
    match run_specs_pass(unit) {
        Ok(()) => {
            proof {
                assert(mid.len() == old(unit).nodes@.len());
            }
            Ok(())
        }
        Err(e) => {
            proof {
                assert(resolved_graph_rel(old(unit).nodes@, mid));
                assert(!compile_succeeds(old(unit).nodes@));
            }
            Err(e)
        }
    }
}

impl TerminatedBufferVariant {
    /// This variant's contribution to a pass. It has nothing to resolve,
    /// and its metadata synthesis is an explicitly unresolved feature:
    /// rather than silently passing through, it reports the gap.
    pub fn do_compile_pass(&mut self, data: &mut TypeData, pass: CompilePass)
        -> (r: Result<(), CompileError>)
        ensures
            *final(self) == *old(self),
            *final(data) == *old(data),
            r is Ok <==> pass == CompilePass::ResolveReferences,
            r matches Err(e) ==> e == CompileError::PassUnimplemented(VariantType::TerminatedBuffer),
    {
        match pass {
            CompilePass::MakeTypeSpecs => {
                Err(CompileError::PassUnimplemented(VariantType::TerminatedBuffer))
            }
            CompilePass::ResolveReferences => Ok(()),
        }
    }
}

} // verus!
