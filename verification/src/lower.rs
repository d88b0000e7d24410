//! The lowering backend for the serialized-size property.
//!
//! Given a finalized node, lowering produces a size expression that,
//! evaluated against a runtime value conforming to the node's type,
//! yields the value's serialized byte count. Scalars lower to their
//! width; containers to a sum over their fields in declared order, a
//! virtual field charging its own wire footprint without reading data;
//! arrays to count-times-width for fixed-width elements or a per-element
//! sum otherwise; unions to a conditional on the resolved discriminant;
//! sized buffers to a read of the referenced length field. Lowering a
//! node that has not completed every pass fails, as does a reference
//! that was never resolved; nothing proceeds on a best-effort guess.

use vstd::prelude::*;
use crate::errors::CompileError;
use crate::expr::SizeExpr;
use crate::ir::{
    ArrayLength, CompilationUnit, ContainerField, ContainerFieldType, NodeState, TypeNode,
    UnionCase, Variant,
};

verus! {

/// The statically known wire width of node `idx`: defined exactly for a
/// finalized simple scalar with synthesized width.
pub open spec fn elem_width(nodes: Seq<TypeNode>, idx: int) -> Option<u64> {
    if idx < 0 || idx >= nodes.len() {
        None
    } else if nodes[idx].data.state != NodeState::Finalized {
        None
    } else {
        match nodes[idx].variant {
            Variant::SimpleScalar(s) => s.width,
            _ => None,
        }
    }
}

/// First field of `fields` whose child node is `t`, if any.
pub open spec fn spec_find_field_by_child(fields: Seq<ContainerField>, t: int) -> Option<ContainerField>
    decreases fields.len(),
{
    if fields.len() == 0 {
        None
    } else if fields[0].child == t {
        Some(fields[0])
    } else {
        spec_find_field_by_child(fields.drop_first(), t)
    }
}

/// The expression supplying an externally described element or byte
/// count, read at the enclosing container's scope. A fixed count is a
/// constant; a reference to a normal sibling reads that field's value;
/// a reference to a virtual sibling wired to a "length" property reads
/// the source field's own count.
pub open spec fn spec_count_expr(fields: Seq<ContainerField>, length: ArrayLength) -> Option<SizeExpr> {
    match length {
        ArrayLength::Fixed(n) => Some(SizeExpr::Const(n)),
        ArrayLength::Referenced(pr) => match pr.resolved {
            Some(t) => match spec_find_field_by_child(fields, t as int) {
                Some(g) => match g.field_type {
                    ContainerFieldType::Normal => Some(SizeExpr::ReadField(g.name)),
                    ContainerFieldType::Virtual { source, property } => {
                        if property@ != "length"@ {
                            None
                        } else {
                            match source.resolved {
                                Some(sn) => match spec_find_field_by_child(fields, sn as int) {
                                    Some(h) => Some(SizeExpr::LenOfField(h.name)),
                                    None => None,
                                },
                                None => None,
                            }
                        }
                    }
                },
                None => None,
            },
            None => None,
        },
    }
}

/// The size expression of a finalized node, or `None` when the node is
/// not finalized, a reference is unresolved or out of its container's
/// scope, or a variant cannot be lowered in its position. A union or
/// sized buffer is lowered only as a container field, where its
/// discriminant or length sibling is in scope; a terminated buffer is
/// never lowered (it cannot complete the pass pipeline).
pub open spec fn spec_lower(nodes: Seq<TypeNode>, idx: int) -> Option<SizeExpr>
    decreases idx, 3int, 0int, 0int,
{
    if idx < 0 || idx >= nodes.len() {
        None
    } else if nodes[idx].data.state != NodeState::Finalized {
        None
    } else {
        match nodes[idx].variant {
            Variant::SimpleScalar(s) => match s.width {
                Some(w) => Some(SizeExpr::Const(w)),
                None => None,
            },
            Variant::Container(c) => spec_lower_fields(nodes, idx, c.fields@, c.fields@.len() as int),
            Variant::Array(a) => {
                if !(0 <= a.element < idx) {
                    None
                } else {
                    match a.length {
                        ArrayLength::Fixed(n) => match elem_width(nodes, a.element as int) {
                            Some(w) => Some(SizeExpr::Mul(
                                Box::new(SizeExpr::Const(n)),
                                Box::new(SizeExpr::Const(w)),
                            )),
                            None => match spec_lower(nodes, a.element as int) {
                                Some(be) => Some(SizeExpr::ForEachCurrent(Box::new(be))),
                                None => None,
                            },
                        },
                        ArrayLength::Referenced(_) => None,
                    }
                }
            }
            Variant::Union(_) => None,
            Variant::SizedBuffer(_) => None,
            Variant::TerminatedBuffer(_) => None,
        }
    }
}

/// Sum expression over the first `k` fields of a container, in declared
/// order; the empty prefix contributes a zero constant.
pub open spec fn spec_lower_fields(nodes: Seq<TypeNode>, idx: int, fields: Seq<ContainerField>, k: int)
    -> Option<SizeExpr>
    decreases idx, 2int, k, 0int,
{
    if k <= 0 {
        Some(SizeExpr::Const(0))
    } else {
        match spec_lower_fields(nodes, idx, fields, k - 1) {
            Some(acc) => match spec_field_expr(nodes, idx, fields, fields[k - 1]) {
                Some(fe) => Some(SizeExpr::Add(Box::new(acc), Box::new(fe))),
                None => None,
            },
            None => None,
        }
    }
}

/// One field's contribution to its container's size, with the sibling
/// list in scope for count, length and discriminant references. A
/// virtual field charges its type's static width without reading the
/// runtime value.
pub open spec fn spec_field_expr(nodes: Seq<TypeNode>, idx: int, fields: Seq<ContainerField>, f: ContainerField)
    -> Option<SizeExpr>
    decreases idx, 1int, 0int, 0int,
{
    if !(0 <= f.child < idx) {
        None
    } else {
        match f.field_type {
            ContainerFieldType::Virtual { source, property } => match elem_width(nodes, f.child as int) {
                Some(w) => Some(SizeExpr::Const(w)),
                None => None,
            },
            ContainerFieldType::Normal => match nodes[f.child as int].variant {
                Variant::SimpleScalar(_) => match elem_width(nodes, f.child as int) {
                    Some(w) => Some(SizeExpr::Const(w)),
                    None => None,
                },
                Variant::Container(_) => match spec_lower(nodes, f.child as int) {
                    Some(e) => Some(SizeExpr::Field(f.name, Box::new(e))),
                    None => None,
                },
                Variant::Array(a) => {
                    if nodes[f.child as int].data.state != NodeState::Finalized {
                        None
                    } else if !(0 <= a.element < f.child) {
                        None
                    } else {
                        match elem_width(nodes, a.element as int) {
                            Some(w) => match spec_count_expr(fields, a.length) {
                                Some(ce) => Some(SizeExpr::Mul(Box::new(ce), Box::new(SizeExpr::Const(w)))),
                                None => None,
                            },
                            None => match spec_lower(nodes, a.element as int) {
                                Some(be) => Some(SizeExpr::ForEachField(f.name, Box::new(be))),
                                None => None,
                            },
                        }
                    }
                }
                Variant::Union(u) => {
                    if nodes[f.child as int].data.state != NodeState::Finalized {
                        None
                    } else {
                        match u.discriminant.resolved {
                            Some(t) => match spec_find_field_by_child(fields, t as int) {
                                Some(g) => if g.field_type is Normal {
                                    spec_lower_cases(nodes, f.child as int, u.cases@, f.name, g.name)
                                } else {
                                    None
                                },
                                None => None,
                            },
                            None => None,
                        }
                    }
                }
                Variant::SizedBuffer(b) => {
                    if nodes[f.child as int].data.state != NodeState::Finalized {
                        None
                    } else {
                        spec_count_expr(fields, ArrayLength::Referenced(b.length))
                    }
                }
                Variant::TerminatedBuffer(_) => None,
            },
        }
    }
}

/// The discriminant-dispatching conditional chain of a union standing
/// as container field `fname`, with discriminant field `dname`: cases
/// are tried in declared order, and no match is a loud failure.
pub open spec fn spec_lower_cases(nodes: Seq<TypeNode>, uidx: int, cases: Seq<UnionCase>, fname: String, dname: String)
    -> Option<SizeExpr>
    decreases uidx, 0int, cases.len(), 0int,
{
    if cases.len() == 0 {
        Some(SizeExpr::NoMatch)
    } else if !(0 <= cases[0].child < uidx) {
        None
    } else {
        match spec_lower(nodes, cases[0].child as int) {
            Some(ce) => match spec_lower_cases(nodes, uidx, cases.drop_first(), fname, dname) {
                Some(rest) => Some(SizeExpr::Cond(
                    dname,
                    cases[0].match_value,
                    Box::new(SizeExpr::Field(fname, Box::new(ce))),
                    Box::new(rest),
                )),
                None => None,
            },
            None => None,
        }
    }
}

/// A field whose contribution cannot be lowered poisons every prefix
/// sum that includes it.
proof fn lemma_lower_fields_none(nodes: Seq<TypeNode>, idx: int, fields: Seq<ContainerField>, j: int, k: int)
    requires
        0 <= j < k <= fields.len(),
        spec_field_expr(nodes, idx, fields, fields[j]) is None,
    ensures
        spec_lower_fields(nodes, idx, fields, k) is None,
    decreases k,
{
    if k - 1 > j {
        lemma_lower_fields_none(nodes, idx, fields, j, k - 1);
    }
}

/// A case whose type cannot be lowered poisons the whole conditional
/// chain.
proof fn lemma_lower_cases_none(nodes: Seq<TypeNode>, uidx: int, cases: Seq<UnionCase>, fname: String, dname: String, j: int)
    requires
        0 <= j <= cases.len(),
        spec_lower_cases(nodes, uidx, cases.skip(j), fname, dname) is None,
    ensures
        spec_lower_cases(nodes, uidx, cases, fname, dname) is None,
    decreases j,
{
    if j == 0 {
        assert(cases.skip(0) =~= cases);
    } else {
        assert(cases.skip(j - 1).drop_first() =~= cases.skip(j));
        assert(cases.skip(j - 1).len() > 0);
        assert(cases.skip(j - 1)[0] == cases[j - 1]);
        lemma_lower_cases_none(nodes, uidx, cases, fname, dname, j - 1);
    }
}

/// Find the first sibling field whose type node is `t`; a resolved
/// reference that leads anywhere else is out of the container's scope.
#[verifier::loop_isolation(false)]
fn find_field_by_child(fields: &Vec<ContainerField>, t: usize) -> (r: Option<&ContainerField>)
    ensures
        match spec_find_field_by_child(fields@, t as int) {
            Some(g) => r matches Some(rg) && *rg == g,
            None => r is None,
        },
{
    let n: usize = fields.len();
    proof {
        assert(fields@.skip(0) =~= fields@);
    }
    for i in 0..n
        invariant
            spec_find_field_by_child(fields@, t as int)
                == spec_find_field_by_child(fields@.skip(i as int), t as int),
    {
        proof {
            assert(fields@.skip(i as int).drop_first() =~= fields@.skip(i as int + 1));
            assert(fields@.skip(i as int)[0] == fields@[i as int]);
        }
        if fields[i].child == t {
            return Some(&fields[i]);
        }
    }
    None
}

/// Build the count expression for an external length description.
#[verifier::loop_isolation(false)]
fn count_expr(fields: &Vec<ContainerField>, length: &ArrayLength) -> (r: Result<SizeExpr, CompileError>)
    ensures
        r is Ok <==> spec_count_expr(fields@, *length) is Some,
        r matches Ok(e) ==> spec_count_expr(fields@, *length) == Some(e),
        *length matches ArrayLength::Referenced(pr) ==> (pr.resolved is None ==>
            (r matches Err(e) && e matches CompileError::UnresolvedReference { path, at }
                && path@ == pr.name@)),
{
    match length {
        ArrayLength::Fixed(n) => Ok(SizeExpr::Const(*n)),
        ArrayLength::Referenced(pr) => {
            match pr.resolved {
                Some(t) => match find_field_by_child(fields, t) {
                    Some(g) => match &g.field_type {
                        ContainerFieldType::Normal => Ok(SizeExpr::ReadField(g.name.clone())),
                        ContainerFieldType::Virtual { source, property } => {
                            let len_name: String = "length".to_owned();
                            if !(*property == len_name) {
                                return Err(CompileError::NoSuchProperty(property.clone()));
                            }
                            match source.resolved {
                                Some(sn) => match find_field_by_child(fields, sn) {
                                    Some(h) => Ok(SizeExpr::LenOfField(h.name.clone())),
                                    None => Err(CompileError::ReferenceOutOfScope),
                                },
                                None => Err(CompileError::UnresolvedReference {
                                    path: source.name.clone(),
                                    at: g.name.clone(),
                                }),
                            }
                        }
                    },
                    None => Err(CompileError::ReferenceOutOfScope),
                },
                None => Err(CompileError::UnresolvedReference {
                    path: pr.name.clone(),
                    at: pr.name.clone(),
                }),
            }
        }
    }
}

/// Lower one finalized node to its size expression.
#[verifier::loop_isolation(false)]
pub fn lower_node(unit: &CompilationUnit, idx: usize) -> (r: Result<SizeExpr, CompileError>)
    ensures
        r is Ok <==> spec_lower(unit.nodes@, idx as int) is Some,
        r matches Ok(e) ==> spec_lower(unit.nodes@, idx as int) == Some(e),
        (idx >= unit.nodes@.len() || unit.nodes@[idx as int].data.state != NodeState::Finalized)
            ==> r == Err::<SizeExpr, CompileError>(CompileError::NotFinalized),
    decreases idx, 3int,
{
    if idx >= unit.nodes.len() {
        return Err(CompileError::NotFinalized);
    }
    if !(unit.nodes[idx].data.state == NodeState::Finalized) {
        return Err(CompileError::NotFinalized);
    }
    match &unit.nodes[idx].variant {
        Variant::SimpleScalar(s) => match s.width {
            Some(w) => Ok(SizeExpr::Const(w)),
            None => Err(CompileError::NotFinalized),
        },
        Variant::Container(c) => {
            let n: usize = c.fields.len();
            let mut acc = SizeExpr::Const(0);
            for k in 0..n
                invariant
                    Some(acc) == spec_lower_fields(unit.nodes@, idx as int, c.fields@, k as int),
            {
                match field_expr(unit, idx, &c.fields, k) {
                    Ok(fe) => {
                        acc = SizeExpr::Add(Box::new(acc), Box::new(fe));
                    }
                    Err(e) => {
                        proof {
                            lemma_lower_fields_none(
                                unit.nodes@, idx as int, c.fields@, k as int, c.fields@.len() as int);
                        }
                        return Err(e);
                    }
                }
            }
            Ok(acc)
        }
        Variant::Array(a) => {
            if a.element >= idx {
                return Err(CompileError::ReferenceOutOfScope);
            }
            match &a.length {
                ArrayLength::Fixed(n) => {
                    match scalar_width_at(unit, a.element) {
                        Some(w) => Ok(SizeExpr::Mul(
                            Box::new(SizeExpr::Const(*n)),
                            Box::new(SizeExpr::Const(w)),
                        )),
                        None => {
                            match lower_node(unit, a.element) {
                                Ok(be) => Ok(SizeExpr::ForEachCurrent(Box::new(be))),
                                Err(e) => Err(e),
                            }
                        }
                    }
                }
                ArrayLength::Referenced(pr) => Err(CompileError::ReferenceOutOfScope),
            }
        }
        Variant::Union(_) => Err(CompileError::ReferenceOutOfScope),
        Variant::SizedBuffer(_) => Err(CompileError::ReferenceOutOfScope),
        Variant::TerminatedBuffer(_) => Err(CompileError::NotFinalized),
    }
}

/// The statically known width of node `idx`, as `elem_width` defines
/// it.
fn scalar_width_at(unit: &CompilationUnit, idx: usize) -> (r: Option<u64>)
    ensures
        r == elem_width(unit.nodes@, idx as int),
{
    if idx >= unit.nodes.len() {
        return None;
    }
    if !(unit.nodes[idx].data.state == NodeState::Finalized) {
        return None;
    }
    match &unit.nodes[idx].variant {
        Variant::SimpleScalar(s) => s.width,
        _ => None,
    }
}

/// Lower one container field's contribution.
#[verifier::loop_isolation(false)]
fn field_expr(unit: &CompilationUnit, idx: usize, fields: &Vec<ContainerField>, k: usize)
    -> (r: Result<SizeExpr, CompileError>)
    requires
        k < fields@.len(),
        idx <= unit.nodes@.len(),
    ensures
        r is Ok <==> spec_field_expr(unit.nodes@, idx as int, fields@, fields@[k as int]) is Some,
        r matches Ok(e) ==> spec_field_expr(unit.nodes@, idx as int, fields@, fields@[k as int]) == Some(e),
        fields@[k as int].field_type is Normal ==>
            (unit.nodes@[fields@[k as int].child as int].variant matches Variant::Union(u) ==>
                ((fields@[k as int].child < idx
                    && unit.nodes@[fields@[k as int].child as int].data.state == NodeState::Finalized
                    && u.discriminant.resolved is None) ==>
                    (r matches Err(e) && e matches CompileError::UnresolvedReference { path, at }
                        && path@ == u.discriminant.name@))),
    decreases idx, 2int,
{
    let f = &fields[k];
    if f.child >= idx {
        return Err(CompileError::ReferenceOutOfScope);
    }
    match &f.field_type {
        ContainerFieldType::Virtual { source, property } => {
            match scalar_width_at(unit, f.child) {
                Some(w) => Ok(SizeExpr::Const(w)),
                None => Err(CompileError::UnsupportedVirtual),
            }
        }
        ContainerFieldType::Normal => match &unit.nodes[f.child].variant {
            Variant::SimpleScalar(_) => match scalar_width_at(unit, f.child) {
                Some(w) => Ok(SizeExpr::Const(w)),
                None => Err(CompileError::NotFinalized),
            },
            Variant::Container(_) => match lower_node(unit, f.child) {
                Ok(e) => Ok(SizeExpr::Field(f.name.clone(), Box::new(e))),
                Err(e) => Err(e),
            },
            Variant::Array(a) => {
                if !(unit.nodes[f.child].data.state == NodeState::Finalized) {
                    return Err(CompileError::NotFinalized);
                }
                if a.element >= f.child {
                    return Err(CompileError::ReferenceOutOfScope);
                }
                match scalar_width_at(unit, a.element) {
                    Some(w) => match count_expr(fields, &a.length) {
                        Ok(ce) => Ok(SizeExpr::Mul(Box::new(ce), Box::new(SizeExpr::Const(w)))),
                        Err(e) => Err(e),
                    },
                    None => match lower_node(unit, a.element) {
                        Ok(be) => Ok(SizeExpr::ForEachField(f.name.clone(), Box::new(be))),
                        Err(e) => Err(e),
                    },
                }
            }
            Variant::Union(u) => {
                if !(unit.nodes[f.child].data.state == NodeState::Finalized) {
                    return Err(CompileError::NotFinalized);
                }
                match u.discriminant.resolved {
                    Some(t) => match find_field_by_child(fields, t) {
                        Some(g) => match &g.field_type {
                            ContainerFieldType::Normal => {
                                lower_cases(unit, f.child, &u.cases, &f.name, &g.name)
                            }
                            ContainerFieldType::Virtual { .. } => Err(CompileError::ReferenceOutOfScope),
                        },
                        None => Err(CompileError::ReferenceOutOfScope),
                    },
                    None => Err(CompileError::UnresolvedReference {
                        path: u.discriminant.name.clone(),
                        at: f.name.clone(),
                    }),
                }
            }
            Variant::SizedBuffer(b) => {
                if !(unit.nodes[f.child].data.state == NodeState::Finalized) {
                    return Err(CompileError::NotFinalized);
                }
                let ghost glen = ArrayLength::Referenced(b.length);
                let r = count_expr(fields, &ArrayLength::Referenced(clone_path_ref(&b.length)));
                proof {
                    assert(spec_count_expr(fields@, ArrayLength::Referenced(b.length))
                        == spec_count_expr(fields@, glen));
                }
                r
            }
            Variant::TerminatedBuffer(_) => Err(CompileError::NotFinalized),
        },
    }
}

/// Copy of a path reference, for handing an owned length description to
/// the count builder.
fn clone_path_ref(pr: &crate::ir::PathRef) -> (r: crate::ir::PathRef)
    ensures
        r == *pr,
{
    crate::ir::PathRef { up: pr.up, name: pr.name.clone(), resolved: pr.resolved }
}

/// Build a union's conditional chain, last case outward.
#[verifier::loop_isolation(false)]
fn lower_cases(unit: &CompilationUnit, uidx: usize, cases: &Vec<UnionCase>, fname: &String, dname: &String)
    -> (r: Result<SizeExpr, CompileError>)
    ensures
        r is Ok <==> spec_lower_cases(unit.nodes@, uidx as int, cases@, *fname, *dname) is Some,
        r matches Ok(e) ==> spec_lower_cases(unit.nodes@, uidx as int, cases@, *fname, *dname) == Some(e),
    decreases uidx, 1int,
{
    let n: usize = cases.len();
    let mut acc = SizeExpr::NoMatch;
    let mut j: usize = n;
    proof {
        assert(cases@.skip(n as int) =~= Seq::<UnionCase>::empty());
    }
    while j > 0
        invariant
            j <= n,
            Some(acc) == spec_lower_cases(unit.nodes@, uidx as int, cases@.skip(j as int), *fname, *dname),
        decreases j,
    {
        j = j - 1;
        proof {
            assert(cases@.skip(j as int).drop_first() =~= cases@.skip(j as int + 1));
            assert(cases@.skip(j as int)[0] == cases@[j as int]);
        }
        if cases[j].child >= uidx {
            proof {
                lemma_lower_cases_none(unit.nodes@, uidx as int, cases@, *fname, *dname, j as int);
            }
            return Err(CompileError::ReferenceOutOfScope);
        }
        match lower_node(unit, cases[j].child) {
            Ok(ce) => {
                acc = SizeExpr::Cond(
                    dname.clone(),
                    cases[j].match_value,
                    Box::new(SizeExpr::Field(fname.clone(), Box::new(ce))),
                    Box::new(acc),
                );
            }
            Err(e) => {
                proof {
                    lemma_lower_cases_none(unit.nodes@, uidx as int, cases@, *fname, *dname, j as int);
                }
                return Err(e);
            }
        }
    }
    proof {
        assert(cases@.skip(0) =~= cases@);
    }
    Ok(acc)
}

/// Generate the size computation for the unit's top-level type: the
/// whole backend, from a finalized graph to the expression tree a
/// renderer would print.
pub fn generate_size_of(unit: &CompilationUnit) -> (r: Result<SizeExpr, CompileError>)
    ensures
        r is Ok <==> spec_lower(unit.nodes@, unit.root as int) is Some,
        r matches Ok(e) ==> spec_lower(unit.nodes@, unit.root as int) == Some(e),
        (unit.root >= unit.nodes@.len() || unit.nodes@[unit.root as int].data.state != NodeState::Finalized)
            ==> r == Err::<SizeExpr, CompileError>(CompileError::NotFinalized),
{
    lower_node(unit, unit.root)
}

} // verus!
