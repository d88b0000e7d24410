//! The mathematical size model and the laws the compiler obeys.
//!
//! `value_size` says, by structural recursion over the type graph and a
//! runtime value, how many bytes the value occupies serialized — and is
//! defined exactly on values that conform to the type, cross-field
//! count and discriminant constraints included. The proof functions
//! here relate the pass pipeline and the lowering backend to that
//! model: passes are idempotent on finished graphs, unresolved
//! references fail at the resolution pass, and evaluating a lowered
//! size expression against a conforming value yields exactly the
//! model's byte count.

use vstd::prelude::*;
use crate::ir::{
    ArrayLength, ContainerField, ContainerFieldType, NodeState, TypeNode, UnionCase, Variant,
    distinct_field_names, spec_scalar_width, variant_child_ok,
};
use crate::pass::{
    resolve_node_ok, resolved_variant_rel, resolve_result_rel, specs_node_ok,
    specs_result_rel, spec_resolve_fields, spec_resolve_path,
};
use crate::expr::{SizeExpr, Value, opt_mul, spec_eval, spec_eval_seq, spec_lookup};
use crate::lower::{
    elem_width, spec_count_expr, spec_field_expr, spec_find_field_by_child, spec_lower,
    spec_lower_cases, spec_lower_fields,
};

verus! {

/// How many of the first `k` fields are normal (carry runtime data):
/// the position of a normal field's entry in the record.
pub open spec fn normal_count(fields: Seq<ContainerField>, k: int) -> int
    decreases k,
{
    if k <= 0 {
        0
    } else {
        normal_count(fields, k - 1) + if fields[k - 1].field_type is Normal { 1int } else { 0int }
    }
}

/// First union case matching discriminant value `d`, if any.
pub open spec fn spec_find_case(cases: Seq<UnionCase>, d: u64) -> Option<UnionCase>
    decreases cases.len(),
{
    if cases.len() == 0 {
        None
    } else if cases[0].match_value == d {
        Some(cases[0])
    } else {
        spec_find_case(cases.drop_first(), d)
    }
}

/// The element or byte count an external length description denotes on
/// a given record: a literal for a fixed count, the referenced normal
/// sibling's integer value, or — through a virtual sibling wired to the
/// "length" property — the source field's own element count.
pub open spec fn count_value(fields: Seq<ContainerField>, length: ArrayLength, entries: Seq<(String, Value)>)
    -> Option<nat>
{
    match length {
        ArrayLength::Fixed(n) => Some(n as nat),
        ArrayLength::Referenced(pr) => match pr.resolved {
            Some(t) => match spec_find_field_by_child(fields, t as int) {
                Some(g) => match g.field_type {
                    ContainerFieldType::Normal => match spec_lookup(entries, g.name@) {
                        Some(Value::Uint(c)) => Some(c as nat),
                        _ => None,
                    },
                    ContainerFieldType::Virtual { source, property } => {
                        if property@ != "length"@ {
                            None
                        } else {
                            match source.resolved {
                                Some(sn) => match spec_find_field_by_child(fields, sn as int) {
                                    Some(h) => match spec_lookup(entries, h.name@) {
                                        Some(Value::Array(es)) => Some(es@.len()),
                                        Some(Value::Bytes(bs)) => Some(bs@.len()),
                                        _ => None,
                                    },
                                    None => None,
                                },
                                None => None,
                            }
                        }
                    }
                },
                None => None,
            },
            None => None,
        },
    }
}

/// The serialized byte size of value `v` at type node `idx`: defined
/// exactly on conforming values. A scalar's size is its registered
/// width whatever the value holds; a container's the sum over its
/// fields in declared order; an array's the sum of its elements'
/// sizes; a sized buffer's its byte count. A union or buffer carries
/// its cross-field constraints at the container that holds it.
pub open spec fn value_size(nodes: Seq<TypeNode>, idx: int, v: Value) -> Option<nat>
    decreases idx, 2int, 0int,
{
    if idx < 0 || idx >= nodes.len() {
        None
    } else {
        match nodes[idx].variant {
            Variant::SimpleScalar(_) => match spec_scalar_width(nodes[idx].data.name@) {
                Some(w) => match v {
                    Value::Uint(_) => Some(w),
                    _ => None,
                },
                None => None,
            },
            Variant::Container(c) => match v {
                Value::Record(entries) => {
                    if entries@.len() == normal_count(c.fields@, c.fields@.len() as int) {
                        fields_size(nodes, idx, c.fields@, c.fields@.len() as int, entries@)
                    } else {
                        None
                    }
                }
                _ => None,
            },
            Variant::Array(a) => {
                if !(0 <= a.element < idx) {
                    None
                } else {
                    match v {
                        Value::Array(es) => {
                            let count_ok = match a.length {
                                ArrayLength::Fixed(n) => es@.len() == n,
                                ArrayLength::Referenced(_) => true,
                            };
                            if count_ok {
                                values_size(nodes, a.element as int, es@)
                            } else {
                                None
                            }
                        }
                        _ => None,
                    }
                }
            }
            Variant::SizedBuffer(_) => match v {
                Value::Bytes(bs) => Some(bs@.len()),
                _ => None,
            },
            Variant::Union(_) => None,
            Variant::TerminatedBuffer(_) => None,
        }
    }
}

/// Byte size of the first `k` fields of a container against a record's
/// entries, in declared order; each normal field consumes the next
/// entry, whose name must match; a virtual field consumes none and
/// charges its scalar type's width.
pub open spec fn fields_size(nodes: Seq<TypeNode>, idx: int, fields: Seq<ContainerField>, k: int, entries: Seq<(String, Value)>)
    -> Option<nat>
    decreases idx, 1int, k,
{
    if k <= 0 {
        Some(0)
    } else {
        match fields_size(nodes, idx, fields, k - 1, entries) {
            Some(front) => {
                let f = fields[k - 1];
                match f.field_type {
                    ContainerFieldType::Virtual { .. } => {
                        if !(0 <= f.child < idx) {
                            None
                        } else {
                            match nodes[f.child as int].variant {
                                Variant::SimpleScalar(_) => match spec_scalar_width(nodes[f.child as int].data.name@) {
                                    Some(w) => Some((front + w) as nat),
                                    None => None,
                                },
                                _ => None,
                            }
                        }
                    }
                    ContainerFieldType::Normal => {
                        let ei = normal_count(fields, k - 1);
                        if !(0 <= ei < entries.len()) {
                            None
                        } else if entries[ei].0@ != f.name@ {
                            None
                        } else {
                            match field_value_size(nodes, idx, fields, f, entries[ei].1, entries) {
                                Some(sz) => Some((front + sz) as nat),
                                None => None,
                            }
                        }
                    }
                }
            }
            None => None,
        }
    }
}

/// Byte size of one normal field's value, with its container's sibling
/// list and entries in scope for count, length and discriminant
/// constraints: an array's described count must equal its element
/// count, a sized buffer's its byte count, and a union's discriminant
/// must select a case the value conforms to.
pub open spec fn field_value_size(nodes: Seq<TypeNode>, idx: int, fields: Seq<ContainerField>, f: ContainerField, fv: Value, entries: Seq<(String, Value)>)
    -> Option<nat>
    decreases idx, 0int, 0int,
{
    if !(0 <= f.child < idx) {
        None
    } else {
        match nodes[f.child as int].variant {
            Variant::SimpleScalar(_) => value_size(nodes, f.child as int, fv),
            Variant::Container(_) => value_size(nodes, f.child as int, fv),
            Variant::Array(a) => match fv {
                Value::Array(es) => match count_value(fields, a.length, entries) {
                    Some(cv) => if cv == es@.len() {
                        value_size(nodes, f.child as int, fv)
                    } else {
                        None
                    },
                    None => None,
                },
                _ => None,
            },
            Variant::Union(u) => match u.discriminant.resolved {
                Some(t) => match spec_find_field_by_child(fields, t as int) {
                    Some(g) => if g.field_type is Normal {
                        match spec_lookup(entries, g.name@) {
                            Some(Value::Uint(d)) => match spec_find_case(u.cases@, d) {
                                Some(c) => if 0 <= c.child < f.child {
                                    value_size(nodes, c.child as int, fv)
                                } else {
                                    None
                                },
                                None => None,
                            },
                            _ => None,
                        }
                    } else {
                        None
                    },
                    None => None,
                },
                None => None,
            },
            Variant::SizedBuffer(b) => match fv {
                Value::Bytes(bs) => match count_value(fields, ArrayLength::Referenced(b.length), entries) {
                    Some(cv) => if cv == bs@.len() {
                        Some(bs@.len())
                    } else {
                        None
                    },
                    None => None,
                },
                _ => None,
            },
            Variant::TerminatedBuffer(_) => None,
        }
    }
}

/// Sum of the sizes of array elements against the element type.
pub open spec fn values_size(nodes: Seq<TypeNode>, elem: int, vs: Seq<Value>) -> Option<nat>
    decreases elem, 3int, vs.len(),
{
    if vs.len() == 0 {
        Some(0)
    } else {
        match values_size(nodes, elem, vs.drop_last()) {
            Some(front) => match value_size(nodes, elem, vs.last()) {
                Some(sz) => Some((front + sz) as nat),
                None => None,
            },
            None => None,
        }
    }
}

/// A value conforms to a type exactly when the model gives its size.
pub open spec fn conforms(nodes: Seq<TypeNode>, idx: int, v: Value) -> bool {
    value_size(nodes, idx, v) is Some
}

/// Every scalar's synthesized width agrees with its registered name:
/// what a successful metadata pass guarantees.
pub open spec fn node_widths_ok(nodes: Seq<TypeNode>, i: int) -> bool {
    match nodes[i].variant {
        Variant::SimpleScalar(s) => s.width matches Some(w)
            && spec_scalar_width(nodes[i].data.name@) == Some(w as nat),
        _ => true,
    }
}

/// Structural well-formedness of every node: children created before
/// their owners, field names distinct.
pub open spec fn wf_all(nodes: Seq<TypeNode>) -> bool {
    forall|i: int| 0 <= i < nodes.len() ==>
        #[trigger] variant_child_ok(nodes[i].variant, i) && distinct_field_names(nodes[i].variant)
}

/// Pass idempotence: on a graph whose every node is finalized, either
/// pass succeeds on every node and is bound to leave every node exactly
/// as it stands. Rerunning a pass on a finished graph is a no-op.
pub proof fn lemma_pass_rerun_noop(nodes: Seq<TypeNode>, i: int)
    requires
        0 <= i < nodes.len(),
        forall|j: int| 0 <= j < nodes.len() ==> #[trigger] nodes[j].data.state == NodeState::Finalized,
    ensures
        resolve_node_ok(nodes, i),
        forall|nd: TypeNode| #[trigger] resolve_result_rel(nodes, i, nd) <==> nd == nodes[i],
        specs_node_ok(nodes, i),
        forall|nd: TypeNode| #[trigger] specs_result_rel(nodes, i, nd) <==> nd == nodes[i],
{
    assert(nodes[i].data.state == NodeState::Finalized);
}

/// Fail-fast on an unresolved reference: a raw array node whose length
/// reference names no node makes the resolution pass fail on it — so
/// the pass, and with it the whole pipeline, reports an error before
/// any lowering could run.
pub proof fn lemma_unresolved_reference_fails(nodes: Seq<TypeNode>, i: int)
    requires
        0 <= i < nodes.len(),
        nodes[i].data.state == NodeState::Raw,
        nodes[i].variant matches Variant::Array(a)
            && a.length matches ArrayLength::Referenced(pr)
            && spec_resolve_path(nodes, i, pr.up as nat, pr.name@) is None,
    ensures
        !resolve_node_ok(nodes, i),
{
    assert forall|v: Variant| !(#[trigger] resolved_variant_rel(nodes, i, v)) by {}
}

/// Scalar invariance: a lowered simple scalar of width `w` evaluates to
/// `w` against every value whatsoever.
pub proof fn lemma_scalar_invariance(nodes: Seq<TypeNode>, idx: int, e: SizeExpr, v: Value)
    requires
        0 <= idx < nodes.len(),
        nodes[idx].variant is SimpleScalar,
        spec_lower(nodes, idx) == Some(e),
    ensures
        nodes[idx].variant->SimpleScalar_0.width matches Some(w)
            && spec_eval(e, v) == Some(w as nat),
{
}


/// Counting normal fields is monotone in the prefix length.
proof fn lemma_nc_mono(fields: Seq<ContainerField>, k1: int, k2: int)
    requires
        0 <= k1 <= k2,
    ensures
        normal_count(fields, k1) <= normal_count(fields, k2),
        normal_count(fields, k2) <= normal_count(fields, k1) + (k2 - k1),
        0 <= normal_count(fields, k1),
    decreases k2,
{
    if k2 > k1 {
        lemma_nc_mono(fields, k1, k2 - 1);
    } else {
        lemma_nc_zero(fields, k1);
    }
}

/// A normal-field count is nonnegative.
proof fn lemma_nc_zero(fields: Seq<ContainerField>, k: int)
    ensures
        0 <= normal_count(fields, k),
    decreases k,
{
    if k > 0 {
        lemma_nc_zero(fields, k - 1);
    }
}

/// Every entry position below the total normal count is some normal
/// field's position.
proof fn lemma_nc_preimage(fields: Seq<ContainerField>, i: int, m: int)
    requires
        0 <= m,
        0 <= i < normal_count(fields, m),
    ensures
        exists|j: int| 0 <= j < m && #[trigger] normal_count(fields, j) == i
            && fields[j].field_type is Normal,
    decreases m,
{
    if m > 0 {
        if fields[m - 1].field_type is Normal && normal_count(fields, m - 1) == i {
            assert(normal_count(fields, m - 1) == i && fields[m - 1].field_type is Normal);
        } else {
            lemma_nc_zero(fields, m - 1);
            lemma_nc_preimage(fields, i, m - 1);
        }
    }
}

/// A defined size over a longer prefix keeps every shorter prefix
/// defined, and sizes only grow with the prefix.
proof fn lemma_fields_size_prefix(nodes: Seq<TypeNode>, idx: int, fields: Seq<ContainerField>, k1: int, k2: int, entries: Seq<(String, Value)>)
    requires
        0 <= k1 <= k2,
        fields_size(nodes, idx, fields, k2, entries) is Some,
    ensures
        fields_size(nodes, idx, fields, k1, entries) is Some,
        fields_size(nodes, idx, fields, k1, entries)->Some_0
            <= fields_size(nodes, idx, fields, k2, entries)->Some_0,
    decreases k2,
{
    if k2 > k1 {
        lemma_fields_size_prefix(nodes, idx, fields, k1, k2 - 1, entries);
    }
}

/// The same, for the lowered field sum.
proof fn lemma_lower_fields_prefix(nodes: Seq<TypeNode>, idx: int, fields: Seq<ContainerField>, k1: int, k2: int)
    requires
        0 <= k1 <= k2,
        spec_lower_fields(nodes, idx, fields, k2) is Some,
    ensures
        spec_lower_fields(nodes, idx, fields, k1) is Some,
        forall|j: int| k1 <= j < k2 ==> #[trigger] spec_field_expr(nodes, idx, fields, fields[j]) is Some,
    decreases k2,
{
    if k2 > k1 {
        lemma_lower_fields_prefix(nodes, idx, fields, k1, k2 - 1);
        assert(spec_field_expr(nodes, idx, fields, fields[k2 - 1]) is Some);
    }
}

/// From a fully defined record size, each normal field's entry exists,
/// sits at the field's normal position, and carries the field's name.
proof fn lemma_entry_name(nodes: Seq<TypeNode>, idx: int, fields: Seq<ContainerField>, entries: Seq<(String, Value)>, j: int)
    requires
        0 <= j < fields.len(),
        fields[j].field_type is Normal,
        fields_size(nodes, idx, fields, fields.len() as int, entries) is Some,
    ensures
        0 <= normal_count(fields, j) < entries.len(),
        entries[normal_count(fields, j)].0@ == fields[j].name@,
        field_value_size(nodes, idx, fields, fields[j], entries[normal_count(fields, j)].1, entries) is Some,
{
    lemma_fields_size_prefix(nodes, idx, fields, j + 1, fields.len() as int, entries);
}

/// In a record aligned with distinct-named fields, looking a normal
/// field's name up finds exactly its positional entry.
proof fn lemma_lookup_positional(nodes: Seq<TypeNode>, idx: int, fields: Seq<ContainerField>, entries: Seq<(String, Value)>, j: int, i: int)
    requires
        0 <= j < fields.len(),
        fields[j].field_type is Normal,
        fields_size(nodes, idx, fields, fields.len() as int, entries) is Some,
        entries.len() == normal_count(fields, fields.len() as int),
        forall|j1: int, j2: int| 0 <= j1 < j2 < fields.len() ==>
            #[trigger] fields[j1].name@ != #[trigger] fields[j2].name@,
        0 <= i <= normal_count(fields, j),
    ensures
        spec_lookup(entries.skip(i), fields[j].name@) == Some(entries[normal_count(fields, j)].1),
    decreases normal_count(fields, j) - i,
{
    lemma_entry_name(nodes, idx, fields, entries, j);
    let nj = normal_count(fields, j);
    if i == nj {
        assert(entries.skip(i)[0] == entries[nj]);
        assert(entries.skip(i).len() > 0);
    } else {
        // The entry at position i belongs to an earlier normal field,
        // whose distinct name cannot match.
        lemma_nc_mono(fields, j, fields.len() as int);
        lemma_nc_preimage(fields, i, fields.len() as int);
        let j2 = choose|j2: int| 0 <= j2 < fields.len() && #[trigger] normal_count(fields, j2) == i
            && fields[j2].field_type is Normal;
        lemma_entry_name(nodes, idx, fields, entries, j2);
        assert(entries[i].0@ == fields[j2].name@);
        assert(j2 != j);
        if j2 < j {
            assert(fields[j2].name@ != fields[j].name@);
        } else {
            lemma_nc_mono(fields, j + 1, j2);
            assert(normal_count(fields, j + 1) == nj + 1);
            assert(i >= nj + 1);
            assert(false);
        }
        assert(entries.skip(i)[0] == entries[i]);
        assert(entries.skip(i).drop_first() =~= entries.skip(i + 1));
        lemma_lookup_positional(nodes, idx, fields, entries, j, i + 1);
    }
}


/// Reading an externally described count through the lowered count
/// expression gives exactly the count the model reads, wherever both
/// are defined.
proof fn lemma_count_correct(fields: Seq<ContainerField>, length: ArrayLength, v: Value)
    requires
        v is Record,
        spec_count_expr(fields, length) is Some,
        count_value(fields, length, v->Record_0@) is Some,
    ensures
        spec_eval(spec_count_expr(fields, length)->Some_0, v)
            == count_value(fields, length, v->Record_0@),
{
    let entries = v->Record_0@;
    match length {
        ArrayLength::Fixed(n) => {}
        ArrayLength::Referenced(pr) => {
            let t = pr.resolved->Some_0;
            let g = spec_find_field_by_child(fields, t as int)->Some_0;
            match g.field_type {
                ContainerFieldType::Normal => {}
                ContainerFieldType::Virtual { source, property } => {
                    let sn = source.resolved->Some_0;
                    let h = spec_find_field_by_child(fields, sn as int)->Some_0;
                    match spec_lookup(entries, h.name@) {
                        Some(Value::Array(es)) => {
                            assert(es.len() == es@.len());
                            assert(es@.len() <= u64::MAX);
                        }
                        Some(Value::Bytes(bs)) => {
                            assert(bs.len() == bs@.len());
                            assert(bs@.len() <= u64::MAX);
                        }
                        _ => {}
                    }
                }
            }
        }
    }
}

/// The element-sum of a fixed-width scalar element type is the element
/// count times the width.
proof fn lemma_values_scalar(nodes: Seq<TypeNode>, elem: int, vs: Seq<Value>, w: u64)
    requires
        forall|i: int| 0 <= i < nodes.len() ==> #[trigger] node_widths_ok(nodes, i),
        elem_width(nodes, elem) == Some(w),
        values_size(nodes, elem, vs) is Some,
    ensures
        values_size(nodes, elem, vs)->Some_0 == vs.len() * (w as nat),
    decreases vs.len(),
{
    assert(node_widths_ok(nodes, elem));
    if vs.len() == 0 {
        assert(vs.len() * (w as nat) == 0);
    } else {
        lemma_values_scalar(nodes, elem, vs.drop_last(), w);
        assert(vs.drop_last().len() == vs.len() - 1);
        assert((vs.len() - 1) * (w as nat) + (w as nat) == vs.len() * (w as nat)) by (nonlinear_arith);
        assert(value_size(nodes, elem, vs.last()) == Some(w as nat));
    }
}

/// Evaluating the lowered element body over a whole array sums to the
/// model's element-sum.
proof fn lemma_values_correct(nodes: Seq<TypeNode>, elem: int, vs: Seq<Value>)
    requires
        wf_all(nodes),
        forall|i: int| 0 <= i < nodes.len() ==> #[trigger] node_widths_ok(nodes, i),
        spec_lower(nodes, elem) is Some,
        values_size(nodes, elem, vs) is Some,
        values_size(nodes, elem, vs)->Some_0 <= u64::MAX,
    ensures
        spec_eval_seq(spec_lower(nodes, elem)->Some_0, vs) == values_size(nodes, elem, vs),
    decreases elem, 6int, vs.len(),
{
    if vs.len() > 0 {
        lemma_values_correct(nodes, elem, vs.drop_last());
        lemma_size_of_correct(nodes, elem, vs.last());
    }
}

/// Walking a union's conditional chain selects exactly the case the
/// model's discriminant lookup selects.
proof fn lemma_cases_correct(nodes: Seq<TypeNode>, uidx: int, cases: Seq<UnionCase>, fname: String, dname: String, d: u64, v: Value, fv: Value)
    requires
        wf_all(nodes),
        forall|i: int| 0 <= i < nodes.len() ==> #[trigger] node_widths_ok(nodes, i),
        spec_lower_cases(nodes, uidx, cases, fname, dname) is Some,
        spec_find_case(cases, d) is Some,
        value_size(nodes, spec_find_case(cases, d)->Some_0.child as int, fv) is Some,
        value_size(nodes, spec_find_case(cases, d)->Some_0.child as int, fv)->Some_0 <= u64::MAX,
        v is Record,
        spec_lookup(v->Record_0@, dname@) == Some(Value::Uint(d)),
        spec_lookup(v->Record_0@, fname@) == Some(fv),
    ensures
        spec_eval(spec_lower_cases(nodes, uidx, cases, fname, dname)->Some_0, v)
            == value_size(nodes, spec_find_case(cases, d)->Some_0.child as int, fv),
    decreases uidx, 5int, cases.len(),
{
    let c = spec_find_case(cases, d)->Some_0;
    let ce = spec_lower(nodes, cases[0].child as int)->Some_0;
    let rest = spec_lower_cases(nodes, uidx, cases.drop_first(), fname, dname)->Some_0;
    assert(spec_lower_cases(nodes, uidx, cases, fname, dname)->Some_0 == SizeExpr::Cond(
        dname, cases[0].match_value,
        Box::new(SizeExpr::Field(fname, Box::new(ce))),
        Box::new(rest)));
    if cases[0].match_value == d {
        assert(c == cases[0]);
        lemma_size_of_correct(nodes, c.child as int, fv);
        assert(spec_eval(SizeExpr::Field(fname, Box::new(ce)), v) == value_size(nodes, c.child as int, fv));
    } else {
        assert(spec_find_case(cases.drop_first(), d) == spec_find_case(cases, d));
        lemma_cases_correct(nodes, uidx, cases.drop_first(), fname, dname, d, v, fv);
    }
}

/// Round trip with the execution harness, in the abstract: evaluating
/// the lowered size expression of a type against any conforming value
/// whose size fits a machine word yields exactly the model's byte
/// count. The executable pipeline carries this to runtime through the
/// contracts of `generate_size_of` and `eval_size`.
pub proof fn lemma_size_of_correct(nodes: Seq<TypeNode>, idx: int, v: Value)
    requires
        wf_all(nodes),
        forall|i: int| 0 <= i < nodes.len() ==> #[trigger] node_widths_ok(nodes, i),
        spec_lower(nodes, idx) is Some,
        value_size(nodes, idx, v) is Some,
        value_size(nodes, idx, v)->Some_0 <= u64::MAX,
    ensures
        spec_eval(spec_lower(nodes, idx)->Some_0, v) == value_size(nodes, idx, v),
    decreases idx, 5int, 0int,
{
    match nodes[idx].variant {
        Variant::SimpleScalar(_) => {
            assert(node_widths_ok(nodes, idx));
        }
        Variant::Container(c) => {
            lemma_fields_correct(nodes, idx, c.fields@, c.fields@.len() as int, v);
            assert(spec_lower(nodes, idx)->Some_0
                == spec_lower_fields(nodes, idx, c.fields@, c.fields@.len() as int)->Some_0);
            assert(value_size(nodes, idx, v)
                == fields_size(nodes, idx, c.fields@, c.fields@.len() as int, v->Record_0@));
        }
        Variant::Array(a) => {
            let es = v->Array_0;
            match a.length {
                ArrayLength::Fixed(n0) => {
                    assert(es@.len() == n0);
                    match elem_width(nodes, a.element as int) {
                        Some(w) => {
                            lemma_values_scalar(nodes, a.element as int, es@, w);
                            assert(es.len() == es@.len());
                            assert(value_size(nodes, idx, v)->Some_0 == (n0 as nat) * (w as nat));
                            assert(spec_lower(nodes, idx)->Some_0 == SizeExpr::Mul(
                                Box::new(SizeExpr::Const(n0)), Box::new(SizeExpr::Const(w))));
                            assert(opt_mul(Some(n0 as nat), Some(w as nat))
                                == Some(value_size(nodes, idx, v)->Some_0));
                            assert(spec_eval(spec_lower(nodes, idx)->Some_0, v) == opt_mul(
                                spec_eval(SizeExpr::Const(n0), v), spec_eval(SizeExpr::Const(w), v)));
                        }
                        None => {
                            lemma_values_correct(nodes, a.element as int, es@);
                            assert(spec_lower(nodes, idx)->Some_0 == SizeExpr::ForEachCurrent(
                                Box::new(spec_lower(nodes, a.element as int)->Some_0)));
                        }
                    }
                }
                ArrayLength::Referenced(_) => {
                    assert(false);
                }
            }
        }
        Variant::Union(_) => {
            assert(false);
        }
        Variant::SizedBuffer(_) => {
            assert(false);
        }
        Variant::TerminatedBuffer(_) => {
            assert(false);
        }
    }
}

/// Container additivity, field by field: evaluating the lowered sum of
/// the first `k` fields yields the model's sum of their contributions
/// in declared order.
pub proof fn lemma_fields_correct(nodes: Seq<TypeNode>, idx: int, fields: Seq<ContainerField>, k: int, v: Value)
    requires
        wf_all(nodes),
        forall|i: int| 0 <= i < nodes.len() ==> #[trigger] node_widths_ok(nodes, i),
        0 <= idx < nodes.len(),
        nodes[idx].variant matches Variant::Container(c) && c.fields@ == fields,
        v matches Value::Record(ev) && ev@.len() == normal_count(fields, fields.len() as int),
        fields_size(nodes, idx, fields, fields.len() as int, v->Record_0@) is Some,
        fields_size(nodes, idx, fields, fields.len() as int, v->Record_0@)->Some_0 <= u64::MAX,
        spec_lower_fields(nodes, idx, fields, fields.len() as int) is Some,
        0 <= k <= fields.len(),
    ensures
        spec_lower_fields(nodes, idx, fields, k) is Some,
        spec_eval(spec_lower_fields(nodes, idx, fields, k)->Some_0, v)
            == fields_size(nodes, idx, fields, k, v->Record_0@),
    decreases idx, 4int, k,
{
    let entries = v->Record_0@;
    lemma_lower_fields_prefix(nodes, idx, fields, k, fields.len() as int);
    lemma_fields_size_prefix(nodes, idx, fields, k, fields.len() as int, entries);
    if k > 0 {
        lemma_fields_correct(nodes, idx, fields, k - 1, v);
        lemma_fields_size_prefix(nodes, idx, fields, k - 1, k, entries);
        let f = fields[k - 1];
        let fe = spec_field_expr(nodes, idx, fields, f)->Some_0;
        let front = fields_size(nodes, idx, fields, k - 1, entries)->Some_0;
        let contribution = fields_size(nodes, idx, fields, k, entries)->Some_0 - front;
        match f.field_type {
            ContainerFieldType::Virtual { .. } => {
                assert(node_widths_ok(nodes, f.child as int));
                assert(spec_eval(fe, v) == Some(contribution as nat));
            }
            ContainerFieldType::Normal => {
                let ei = normal_count(fields, k - 1);
                let fv = entries[ei].1;
                let sz = field_value_size(nodes, idx, fields, f, fv, entries)->Some_0;
                // Field names are distinct, so the by-name lookup the
                // expression performs finds the positional entry.
                assert(variant_child_ok(nodes[idx].variant, idx) && distinct_field_names(nodes[idx].variant));
                lemma_lookup_positional(nodes, idx, fields, entries, k - 1, 0);
                assert(entries.skip(0) =~= entries);
                assert(spec_lookup(entries, f.name@) == Some(fv));
                assert(sz == contribution);
                assert(sz <= u64::MAX);
                match nodes[f.child as int].variant {
                    Variant::SimpleScalar(_) => {
                        assert(node_widths_ok(nodes, f.child as int));
                        assert(spec_eval(fe, v) == Some(sz));
                    }
                    Variant::Container(_) => {
                        lemma_size_of_correct(nodes, f.child as int, fv);
                        assert(fe == SizeExpr::Field(f.name, Box::new(spec_lower(nodes, f.child as int)->Some_0)));
                        assert(spec_eval(fe, v) == Some(sz));
                    }
                    Variant::Array(a) => {
                        let es = fv->Array_0;
                        match elem_width(nodes, a.element as int) {
                            Some(w) => {
                                lemma_count_correct(fields, a.length, v);
                                lemma_values_scalar(nodes, a.element as int, es@, w);
                                assert(es.len() == es@.len());
                                let cv = count_value(fields, a.length, entries)->Some_0;
                                assert(cv == es@.len());
                                assert(sz == cv * (w as nat));
                                assert(fe == SizeExpr::Mul(
                                    Box::new(spec_count_expr(fields, a.length)->Some_0),
                                    Box::new(SizeExpr::Const(w))));
                                assert(spec_eval(spec_count_expr(fields, a.length)->Some_0, v) == Some(cv));
                                assert(spec_eval(fe, v) == opt_mul(
                                    spec_eval(spec_count_expr(fields, a.length)->Some_0, v),
                                    spec_eval(SizeExpr::Const(w), v)));
                                assert(opt_mul(Some(cv), Some(w as nat)) == Some(sz));
                                assert(spec_eval(fe, v) == Some(sz));
                            }
                            None => {
                                lemma_values_correct(nodes, a.element as int, es@);
                                assert(fe == SizeExpr::ForEachField(f.name,
                                    Box::new(spec_lower(nodes, a.element as int)->Some_0)));
                                assert(spec_eval(fe, v) == Some(sz));
                            }
                        }
                    }
                    Variant::Union(u) => {
                        let t = u.discriminant.resolved->Some_0;
                        let g = spec_find_field_by_child(fields, t as int)->Some_0;
                        let d = spec_lookup(entries, g.name@)->Some_0->Uint_0;
                        lemma_cases_correct(nodes, f.child as int, u.cases@, f.name, g.name, d, v, fv);
                        assert(spec_eval(fe, v) == Some(sz));
                    }
                    Variant::SizedBuffer(b) => {
                        let bs = fv->Bytes_0;
                        lemma_count_correct(fields, ArrayLength::Referenced(b.length), v);
                        assert(bs.len() == bs@.len());
                        assert(spec_eval(fe, v) == Some(sz));
                    }
                    Variant::TerminatedBuffer(_) => {
                        assert(false);
                    }
                }
            }
        }
        assert(spec_eval(fe, v) == Some(contribution as nat));
        assert(spec_lower_fields(nodes, idx, fields, k)->Some_0 == SizeExpr::Add(
            Box::new(spec_lower_fields(nodes, idx, fields, k - 1)->Some_0),
            Box::new(fe)));
        assert(front + contribution <= u64::MAX);
    }
}


/// Virtual-field charge: a container holding a virtual length field
/// over an array whose count that field supplies reports the virtual
/// field's own width plus the sum of the element sizes — even though
/// the runtime record carries no entry for the virtual field.
pub proof fn lemma_virtual_field_charge(nodes: Seq<TypeNode>, idx: int, v: Value, w: u64)
    requires
        0 <= idx < nodes.len(),
        nodes[idx].variant matches Variant::Container(c) && {
            let fields = c.fields@;
            &&& fields.len() == 2
            &&& 0 <= fields[0].child < idx
            &&& 0 <= fields[1].child < idx
            &&& (fields[0].field_type matches ContainerFieldType::Virtual { source, property }
                && property@ == "length"@ && source.resolved == Some(fields[1].child))
            &&& fields[1].field_type is Normal
            &&& nodes[fields[0].child as int].variant is SimpleScalar
            &&& spec_scalar_width(nodes[fields[0].child as int].data.name@) == Some(w as nat)
            &&& (nodes[fields[1].child as int].variant matches Variant::Array(a)
                && (a.length matches ArrayLength::Referenced(pr) && pr.resolved == Some(fields[0].child))
                && 0 <= a.element < fields[1].child)
        },
        v matches Value::Record(ev) && {
            let fields = nodes[idx].variant->Container_0.fields@;
            &&& ev@.len() == 1
            &&& ev@[0].0@ == fields[1].name@
            &&& ev@[0].1 is Array
        },
        values_size(
            nodes,
            nodes[nodes[idx].variant->Container_0.fields@[1].child as int].variant->Array_0.element as int,
            v->Record_0@[0].1->Array_0@,
        ) is Some,
    ensures
        value_size(nodes, idx, v) matches Some(n) && n == w + values_size(
            nodes,
            nodes[nodes[idx].variant->Container_0.fields@[1].child as int].variant->Array_0.element as int,
            v->Record_0@[0].1->Array_0@,
        )->Some_0,
{
    let c = nodes[idx].variant->Container_0;
    let fields = c.fields@;
    let entries = v->Record_0@;
    let f0 = fields[0];
    let f1 = fields[1];
    let child1 = f1.child;
    let arr = nodes[child1 as int].variant->Array_0;
    let es = entries[0].1->Array_0;
    // The two children are distinct nodes: one is a scalar, the other
    // an array.
    assert(f0.child != child1);
    // The count reference leads through the virtual field back to the
    // array field itself.
    assert(fields.drop_first() =~= seq![f1]);
    assert(spec_find_field_by_child(fields, f0.child as int) == Some(f0));
    assert(fields.drop_first()[0] == f1 && fields.drop_first().len() == 1);
    assert(spec_find_field_by_child(fields.drop_first(), child1 as int) == Some(f1));
    assert(spec_find_field_by_child(fields, child1 as int) == Some(f1));
    assert(spec_lookup(entries, f1.name@) == Some(entries[0].1));
    assert(count_value(fields, arr.length, entries) == Some(es@.len()));
    // The record's sole entry feeds the array field; the virtual field
    // charges its scalar width with no entry at all.
    assert(normal_count(fields, 0) == 0);
    assert(normal_count(fields, 1) == 0);
    assert(normal_count(fields, 2) == 1);
    assert(field_value_size(nodes, idx, fields, f1, entries[0].1, entries)
        == values_size(nodes, arr.element as int, es@));
    assert(fields_size(nodes, idx, fields, 0, entries) == Some(0nat));
    assert(fields_size(nodes, idx, fields, 1, entries) == Some(w as nat));
    assert(fields_size(nodes, idx, fields, 2, entries) matches Some(n)
        && n == w + values_size(nodes, arr.element as int, es@)->Some_0);
}


/// Declared order charges wire order, but moving the virtual length
/// field to the other side of its array changes nothing: with the
/// fields of `lemma_virtual_field_charge` swapped — the array first,
/// the virtual length field after it — the size is still the virtual
/// field's width plus the sum of the element sizes. No length
/// computation here depends on field position (counts are resolved to
/// sibling names), so this reordering leaves the result as it was.
pub proof fn lemma_virtual_field_reorder(nodes: Seq<TypeNode>, idx: int, v: Value, w: u64)
    requires
        0 <= idx < nodes.len(),
        nodes[idx].variant matches Variant::Container(c) && {
            let fields = c.fields@;
            &&& fields.len() == 2
            &&& 0 <= fields[0].child < idx
            &&& 0 <= fields[1].child < idx
            &&& fields[0].field_type is Normal
            &&& (fields[1].field_type matches ContainerFieldType::Virtual { source, property }
                && property@ == "length"@ && source.resolved == Some(fields[0].child))
            &&& nodes[fields[1].child as int].variant is SimpleScalar
            &&& spec_scalar_width(nodes[fields[1].child as int].data.name@) == Some(w as nat)
            &&& (nodes[fields[0].child as int].variant matches Variant::Array(a)
                && (a.length matches ArrayLength::Referenced(pr) && pr.resolved == Some(fields[1].child))
                && 0 <= a.element < fields[0].child)
        },
        v matches Value::Record(ev) && {
            let fields = nodes[idx].variant->Container_0.fields@;
            &&& ev@.len() == 1
            &&& ev@[0].0@ == fields[0].name@
            &&& ev@[0].1 is Array
        },
        values_size(
            nodes,
            nodes[nodes[idx].variant->Container_0.fields@[0].child as int].variant->Array_0.element as int,
            v->Record_0@[0].1->Array_0@,
        ) is Some,
    ensures
        value_size(nodes, idx, v) matches Some(n) && n == w + values_size(
            nodes,
            nodes[nodes[idx].variant->Container_0.fields@[0].child as int].variant->Array_0.element as int,
            v->Record_0@[0].1->Array_0@,
        )->Some_0,
{
    let c = nodes[idx].variant->Container_0;
    let fields = c.fields@;
    let entries = v->Record_0@;
    let f0 = fields[0];
    let f1 = fields[1];
    let child0 = f0.child;
    let arr = nodes[child0 as int].variant->Array_0;
    let es = entries[0].1->Array_0;
    assert(f1.child != child0);
    // The count reference still leads through the virtual field back to
    // the array field: the lookups go by child index and name, never by
    // position.
    assert(spec_find_field_by_child(fields, child0 as int) == Some(f0));
    assert(fields.drop_first() =~= seq![f1]);
    assert(fields.drop_first()[0] == f1 && fields.drop_first().len() == 1);
    assert(spec_find_field_by_child(fields.drop_first(), f1.child as int) == Some(f1));
    assert(spec_find_field_by_child(fields, f1.child as int) == Some(f1));
    assert(spec_lookup(entries, f0.name@) == Some(entries[0].1));
    assert(count_value(fields, arr.length, entries) == Some(es@.len()));
    // The sole entry still feeds the array field, now first; the
    // virtual field still charges its width with no entry.
    assert(normal_count(fields, 0) == 0);
    assert(normal_count(fields, 1) == 1);
    assert(normal_count(fields, 2) == 1);
    assert(field_value_size(nodes, idx, fields, f0, entries[0].1, entries)
        == values_size(nodes, arr.element as int, es@));
    assert(fields_size(nodes, idx, fields, 0, entries) == Some(0nat));
    assert(fields_size(nodes, idx, fields, 1, entries)
        == values_size(nodes, arr.element as int, es@));
    assert(fields_size(nodes, idx, fields, 2, entries) matches Some(n)
        && n == w + values_size(nodes, arr.element as int, es@)->Some_0);
}

/// Container additivity: the lowered size of a container evaluates,
/// on a conforming record, to the model's sum of the per-field
/// contributions taken in declared order — the field order is wire
/// order.
pub proof fn lemma_container_additivity(nodes: Seq<TypeNode>, idx: int, v: Value)
    requires
        wf_all(nodes),
        forall|i: int| 0 <= i < nodes.len() ==> #[trigger] node_widths_ok(nodes, i),
        0 <= idx < nodes.len(),
        nodes[idx].variant is Container,
        spec_lower(nodes, idx) is Some,
        value_size(nodes, idx, v) is Some,
        value_size(nodes, idx, v)->Some_0 <= u64::MAX,
    ensures
        v is Record,
        spec_eval(spec_lower(nodes, idx)->Some_0, v) == fields_size(
            nodes,
            idx,
            nodes[idx].variant->Container_0.fields@,
            nodes[idx].variant->Container_0.fields@.len() as int,
            v->Record_0@,
        ),
{
    lemma_size_of_correct(nodes, idx, v);
}

/// Resolution rewires references but keeps every field's name, child
/// and virtual-ness, in order.
proof fn lemma_resolve_fields_pointwise(nodes: Seq<TypeNode>, from: int, fields: Seq<ContainerField>)
    requires
        spec_resolve_fields(nodes, from, fields) is Some,
    ensures
        spec_resolve_fields(nodes, from, fields)->Some_0.len() == fields.len(),
        forall|j: int| 0 <= j < fields.len() ==> {
            &&& (#[trigger] spec_resolve_fields(nodes, from, fields)->Some_0[j]).name == fields[j].name
            &&& spec_resolve_fields(nodes, from, fields)->Some_0[j].child == fields[j].child
            &&& (spec_resolve_fields(nodes, from, fields)->Some_0[j].field_type is Normal
                <==> fields[j].field_type is Normal)
        },
    decreases fields.len(),
{
    if fields.len() > 0 {
        lemma_resolve_fields_pointwise(nodes, from, fields.drop_last());
        let fs = spec_resolve_fields(nodes, from, fields)->Some_0;
        let front = spec_resolve_fields(nodes, from, fields.drop_last())->Some_0;
        assert(forall|j: int| 0 <= j < fields.len() - 1 ==> #[trigger] fs[j] == front[j]);
        assert(forall|j: int| 0 <= j < fields.len() - 1 ==> #[trigger] fields.drop_last()[j] == fields[j]);
    }
}

/// One compiled node is ready for the size model and the lowering
/// theorem: finalized, identity preserved, structure well formed, and
/// its scalar width agreeing with its registered name. `mid` is the
/// graph between the two passes, `new` the compiled one.
pub proof fn lemma_compiled_node_ready(old_nodes: Seq<TypeNode>, mid: Seq<TypeNode>, new: Seq<TypeNode>, i: int)
    requires
        0 <= i < old_nodes.len(),
        mid.len() == old_nodes.len(),
        new.len() == old_nodes.len(),
        old_nodes[i].data.state == NodeState::Raw,
        resolve_result_rel(old_nodes, i, mid[i]),
        specs_node_ok(mid, i),
        specs_result_rel(mid, i, new[i]),
        variant_child_ok(old_nodes[i].variant, i),
        distinct_field_names(old_nodes[i].variant),
    ensures
        new[i].data.state == NodeState::Finalized,
        new[i].data.name == old_nodes[i].data.name,
        node_widths_ok(new, i),
        variant_child_ok(new[i].variant, i),
        distinct_field_names(new[i].variant),
{
    match old_nodes[i].variant {
        Variant::Container(c) => {
            lemma_resolve_fields_pointwise(old_nodes, i, c.fields@);
        }
        _ => {}
    }
}


/// A freshly built graph that the whole pipeline accepted satisfies
/// every premise of the size theorems: all nodes finalized, structure
/// still well formed, names kept, and scalar widths synthesized. `mid`
/// is the graph between the two passes, `new` the compiled one, as
/// `compile`'s contract provides them.
pub proof fn lemma_compiled_graph_ready(old_nodes: Seq<TypeNode>, mid: Seq<TypeNode>, new: Seq<TypeNode>)
    requires
        mid.len() == old_nodes.len(),
        new.len() == old_nodes.len(),
        forall|i: int| 0 <= i < old_nodes.len() ==> #[trigger] old_nodes[i].data.state == NodeState::Raw,
        forall|i: int| 0 <= i < old_nodes.len() ==> #[trigger] resolve_result_rel(old_nodes, i, mid[i]),
        forall|i: int| 0 <= i < old_nodes.len() ==> #[trigger] specs_node_ok(mid, i),
        forall|i: int| 0 <= i < old_nodes.len() ==> #[trigger] specs_result_rel(mid, i, new[i]),
        wf_all(old_nodes),
    ensures
        wf_all(new),
        forall|i: int| 0 <= i < new.len() ==> #[trigger] node_widths_ok(new, i),
        forall|i: int| 0 <= i < new.len() ==> #[trigger] new[i].data.state == NodeState::Finalized,
        forall|i: int| 0 <= i < new.len() ==> #[trigger] new[i].data.name == old_nodes[i].data.name,
{
    assert forall|i: int| 0 <= i < new.len() implies
        #[trigger] variant_child_ok(new[i].variant, i) && distinct_field_names(new[i].variant) by {
        assert(variant_child_ok(old_nodes[i].variant, i));
        lemma_compiled_node_ready(old_nodes, mid, new, i);
    }
    assert forall|i: int| 0 <= i < new.len() implies #[trigger] node_widths_ok(new, i) by {
        assert(variant_child_ok(old_nodes[i].variant, i));
        lemma_compiled_node_ready(old_nodes, mid, new, i);
    }
    assert forall|i: int| 0 <= i < new.len() implies
        #[trigger] new[i].data.state == NodeState::Finalized by {
        assert(variant_child_ok(old_nodes[i].variant, i));
        lemma_compiled_node_ready(old_nodes, mid, new, i);
    }
    assert forall|i: int| 0 <= i < new.len() implies
        #[trigger] new[i].data.name == old_nodes[i].data.name by {
        assert(variant_child_ok(old_nodes[i].variant, i));
        lemma_compiled_node_ready(old_nodes, mid, new, i);
    }
}

} // verus!
