//! The type graph: nodes, variants, and the compilation unit that owns them.
//!
//! A `CompilationUnit` exclusively owns every type node of one spec
//! document, in one table. Cross-references between nodes are non-owning
//! path lookups (`PathRef`), resolved by the compile pass pipeline into
//! indices of that table. Structural children always stand at a smaller
//! index than their owner: raw-IR construction creates children first,
//! and that order is what grounds every recursion over the graph.

use vstd::prelude::*;
use crate::errors::CompileError;

verus! {

/// The compilation state of a node: `Raw` after construction,
/// `Resolved` once the reference-resolution pass has completed on it,
/// `Finalized` once every pass has. States only move forward.
#[derive(Debug, Clone, Copy, PartialEq, Eq, Structural)]
pub enum NodeState {
    Raw,
    Resolved,
    Finalized,
}

/// Common identity and metadata attached to every node. The name and
/// the owner link fix the node's identity at construction; compile
/// passes change only the state (and variant-internal metadata).
#[derive(Debug)]
pub struct TypeData {
    /// The node's name: a field or type name, or for a simple scalar the
    /// registered primitive name (for instance an eight-bit unsigned
    /// integer's).
    pub name: String,
    /// The owning node's index, if any; the root has none.
    pub parent: Option<usize>,
    /// How far the pass pipeline has carried this node.
    pub state: NodeState,
}

/// A non-owning, path-based reference from one node to another: climb
/// `up` owners from the referencing node, then look a child up by name.
/// The resolution pass caches the result as an index into the owning
/// unit's node table.
#[derive(Debug)]
pub struct PathRef {
    /// How many owners to climb before the name lookup.
    pub up: usize,
    /// The child name resolved at that ancestor.
    pub name: String,
    /// The resolved node index, filled by the resolution pass.
    pub resolved: Option<usize>,
}

impl PathRef {
    /// A fresh, unresolved reference.
    pub fn new(up: usize, name: String) -> (r: PathRef)
        ensures
            r.up == up,
            r.name == name,
            r.resolved is None,
    {
        PathRef { up, name, resolved: None }
    }
}

/// Whether a container field carries its own runtime data or is
/// virtual: absent from the runtime value, derived from another field's
/// property, yet still occupying wire space.
#[derive(Debug)]
pub enum ContainerFieldType {
    Normal,
    Virtual { source: PathRef, property: String },
}

/// One named field of a container. Field order is wire order.
#[derive(Debug)]
pub struct ContainerField {
    pub name: String,
    pub field_type: ContainerFieldType,
    /// Index of the node giving the field's type.
    pub child: usize,
}

impl ContainerField {
    /// A field whose data is present in the runtime value.
    pub fn normal(name: String, child: usize) -> (r: ContainerField)
        ensures
            r.name == name,
            r.child == child,
            r.field_type is Normal,
    {
        ContainerField { name, field_type: ContainerFieldType::Normal, child }
    }

    /// A virtual field derived from `property` of the field that
    /// `source` names.
    pub fn virtual_field(name: String, child: usize, source: PathRef, property: String)
        -> (r: ContainerField)
        ensures
            r.name == name,
            r.child == child,
            r.field_type == (ContainerFieldType::Virtual { source, property }),
    {
        ContainerField { name, field_type: ContainerFieldType::Virtual { source, property }, child }
    }
}

/// An ordered set of named fields.
#[derive(Debug)]
pub struct ContainerVariant {
    pub fields: Vec<ContainerField>,
}

/// An array's length descriptor: a fixed element count, or a path
/// reference to the field supplying the count.
#[derive(Debug)]
pub enum ArrayLength {
    Fixed(u64),
    Referenced(PathRef),
}

/// An element type plus a length descriptor.
#[derive(Debug)]
pub struct ArrayVariant {
    pub element: usize,
    pub length: ArrayLength,
}

/// One alternative of a union: a discriminant value and the node chosen
/// when the discriminant takes that value.
#[derive(Debug)]
pub struct UnionCase {
    pub match_value: u64,
    pub child: usize,
}

/// A discriminant reference plus the mapping from discriminant value to
/// concrete type.
#[derive(Debug)]
pub struct UnionVariant {
    pub discriminant: PathRef,
    pub cases: Vec<UnionCase>,
}

/// Raw bytes whose length is given by a path reference to another field.
#[derive(Debug)]
pub struct SizedBufferVariant {
    pub length: PathRef,
}

/// Raw bytes delimited by a sentinel value. Sizing this variant is an
/// explicitly unresolved feature: its metadata-synthesis pass fails
/// loudly rather than silently succeeding.
#[derive(Debug)]
pub struct TerminatedBufferVariant {}

/// A primitive identified by its registered name (held in the node's
/// `TypeData`); the metadata-synthesis pass fills in the lowered width.
#[derive(Debug)]
pub struct SimpleScalarVariant {
    /// The scalar's wire width in bytes, synthesized from the registered
    /// name by the metadata pass.
    pub width: Option<u64>,
}

/// The closed set of node kinds, dispatched by exhaustive matching so
/// that adding a kind is a compile-time-checked exhaustiveness failure
/// everywhere it must be handled.
#[derive(Debug)]
pub enum Variant {
    Container(ContainerVariant),
    Array(ArrayVariant),
    Union(UnionVariant),
    SizedBuffer(SizedBufferVariant),
    TerminatedBuffer(TerminatedBufferVariant),
    SimpleScalar(SimpleScalarVariant),
}

/// A node's classification, used for dispatch and diagnostics. A simple
/// scalar's classification carries the scalar's registered type name, so
/// scalar kinds stay distinguishable.
#[derive(Debug, Clone)]
pub enum VariantType {
    Container,
    Array,
    Union,
    SizedBuffer,
    TerminatedBuffer,
    SimpleScalar(String),
}

impl PartialEq for VariantType {
    /// Two classifications are equal when they are the same kind and,
    /// for simple scalars, carry the same registered name.
    fn eq(&self, other: &VariantType) -> (r: bool) {
        match (self, other) {
            (VariantType::Container, VariantType::Container) => true,
            (VariantType::Array, VariantType::Array) => true,
            (VariantType::Union, VariantType::Union) => true,
            (VariantType::SizedBuffer, VariantType::SizedBuffer) => true,
            (VariantType::TerminatedBuffer, VariantType::TerminatedBuffer) => true,
            (VariantType::SimpleScalar(a), VariantType::SimpleScalar(b)) => *a == *b,
            _ => false,
        }
    }
}

impl Eq for VariantType {}

impl vstd::std_specs::cmp::PartialEqSpecImpl for VariantType {
    open spec fn obeys_eq_spec() -> bool {
        true
    }

    open spec fn eq_spec(&self, other: &VariantType) -> bool {
        match (self, other) {
            (VariantType::Container, VariantType::Container) => true,
            (VariantType::Array, VariantType::Array) => true,
            (VariantType::Union, VariantType::Union) => true,
            (VariantType::SizedBuffer, VariantType::SizedBuffer) => true,
            (VariantType::TerminatedBuffer, VariantType::TerminatedBuffer) => true,
            (VariantType::SimpleScalar(a), VariantType::SimpleScalar(b)) => a@ == b@,
            _ => false,
        }
    }
}

/// One type node: fixed identity plus kind-specific behavior and state.
#[derive(Debug)]
pub struct TypeNode {
    pub data: TypeData,
    pub variant: Variant,
}

/// The exclusive owner of every node of one spec document. `root` is
/// the top-level named type.
#[derive(Debug)]
pub struct CompilationUnit {
    pub nodes: Vec<TypeNode>,
    pub root: usize,
}

/// The classification a node's `get_type` returns.
pub open spec fn spec_variant_type(v: Variant, data: TypeData) -> VariantType {
    match v {
        Variant::Container(_) => VariantType::Container,
        Variant::Array(_) => VariantType::Array,
        Variant::Union(_) => VariantType::Union,
        Variant::SizedBuffer(_) => VariantType::SizedBuffer,
        Variant::TerminatedBuffer(_) => VariantType::TerminatedBuffer,
        Variant::SimpleScalar(_) => VariantType::SimpleScalar(data.name),
    }
}

/// First field of `fields` named `name`, if any.
pub open spec fn spec_find_field(fields: Seq<ContainerField>, name: Seq<char>) -> Option<ContainerField>
    decreases fields.len(),
{
    if fields.len() == 0 {
        None
    } else if fields[0].name@ == name {
        Some(fields[0])
    } else {
        spec_find_field(fields.drop_first(), name)
    }
}

/// The immediate child that `resolve_child_name` yields: only containers
/// have structural children.
pub open spec fn spec_resolve_child(v: Variant, name: Seq<char>) -> Option<usize> {
    match v {
        Variant::Container(c) => match spec_find_field(c.fields@, name) {
            Some(f) => Some(f.child),
            None => None,
        },
        _ => None,
    }
}

/// Whether a variant exposes the named derived property to other nodes.
/// Arrays and sized buffers expose their runtime element count as
/// "length" — that is what virtual length fields derive from. A
/// container exposes nothing: its field count is fixed by the spec, not
/// by the runtime value, so no wire quantity can derive from it.
pub open spec fn spec_has_property(v: Variant, property: Seq<char>) -> bool {
    match v {
        Variant::Array(_) => property == "length"@,
        Variant::SizedBuffer(_) => property == "length"@,
        _ => false,
    }
}

impl Variant {
    /// Pure classification; always succeeds and never mutates.
    pub fn get_type(&self, data: &TypeData) -> (t: VariantType)
        ensures
            t == spec_variant_type(*self, *data),
    {
        match *self {
            Variant::Container(_) => VariantType::Container,
            Variant::Array(_) => VariantType::Array,
            Variant::Union(_) => VariantType::Union,
            Variant::SizedBuffer(_) => VariantType::SizedBuffer,
            Variant::TerminatedBuffer(_) => VariantType::TerminatedBuffer,
            Variant::SimpleScalar(_) => VariantType::SimpleScalar(data.name.clone()),
        }
    }

    /// Look an immediate structural child up by name. Variants without
    /// children fail with a child-access error carrying their
    /// classification; a container without such a field fails with an
    /// unresolved-reference error naming the missing field.
    #[verifier::loop_isolation(false)]
    pub fn resolve_child_name(&self, data: &TypeData, name: &String) -> (r: Result<usize, CompileError>)
        ensures
            r is Ok <==> spec_resolve_child(*self, name@) is Some,
            r matches Ok(c) ==> spec_resolve_child(*self, name@) == Some(c),
            (self is Container && r is Err) ==> (r->Err_0 matches CompileError::UnresolvedReference { path, at }
                && path@ == name@ && at@ == data.name@),
            (!(self is Container) && r is Err) ==>
                r->Err_0 == CompileError::ChildAccessUnsupported(spec_variant_type(*self, *data)),
    {
        match *self {
            Variant::Container(ref c) => {
                let n: usize = c.fields.len();
                proof {
                    assert(c.fields@.skip(0) =~= c.fields@);
                }
                for i in 0..n
                    invariant
                        n == c.fields@.len(),
                        spec_find_field(c.fields@, name@) == spec_find_field(c.fields@.skip(i as int), name@),
                {
                    proof {
                        assert(c.fields@.skip(i as int).drop_first() =~= c.fields@.skip(i as int + 1));
                        assert(c.fields@.skip(i as int)[0] == c.fields@[i as int]);
                        assert(c.fields@.skip(i as int).len() > 0);
                    }
                    let hit: bool = c.fields[i].name == *name;
                    if hit {
                        assert(c.fields@.skip(i as int)[0].name@ == name@);
                        assert(spec_find_field(c.fields@.skip(i as int), name@) == Some(c.fields@[i as int]));
                        assert(spec_resolve_child(*self, name@) == Some(c.fields@[i as int].child));
                        return Ok(c.fields[i].child);
                    }
                }
                assert(c.fields@.skip(n as int).len() == 0);
                Err(CompileError::UnresolvedReference { path: name.clone(), at: data.name.clone() })
            }
            _ => Err(CompileError::ChildAccessUnsupported(self.get_type(data))),
        }
    }

    /// Resolve a named derived property, for virtual-field wiring.
    /// Variants with no such property fail with a capability error.
    pub fn has_spec_property(&self, data: &TypeData, property: &String) -> (r: Result<(), CompileError>)
        ensures
            r is Ok <==> spec_has_property(*self, property@),
            r matches Err(e) ==> e matches CompileError::NoSuchProperty(p) && p@ == property@,
    {
        let supported: bool = match *self {
            Variant::Array(_) => true,
            Variant::SizedBuffer(_) => true,
            _ => false,
        };
        let len_name: String = "length".to_owned();
        if supported && *property == len_name {
            Ok(())
        } else {
            Err(CompileError::NoSuchProperty(property.clone()))
        }
    }
}

/// The structural children of a variant, those a recursion over the
/// graph descends into.
pub open spec fn variant_child_ok(v: Variant, i: int) -> bool {
    match v {
        Variant::Container(c) => forall|j: int| 0 <= j < c.fields@.len() ==> #[trigger] c.fields@[j].child < i,
        Variant::Array(a) => a.element < i,
        Variant::Union(u) => forall|j: int| 0 <= j < u.cases@.len() ==> #[trigger] u.cases@[j].child < i,
        _ => true,
    }
}

/// Container field names are pairwise distinct, so a lookup by name is
/// a lookup by position.
pub open spec fn distinct_field_names(v: Variant) -> bool {
    match v {
        Variant::Container(c) => forall|j1: int, j2: int|
            0 <= j1 < j2 < c.fields@.len() ==> #[trigger] c.fields@[j1].name@ != #[trigger] c.fields@[j2].name@,
        _ => true,
    }
}

/// Well-formedness of one node in its unit: structural children were
/// created before it (smaller index), any owner link stays inside the
/// table, and field names do not collide.
pub open spec fn wf_node(unit: CompilationUnit, i: int) -> bool {
    &&& variant_child_ok(unit.nodes@[i].variant, i)
    &&& distinct_field_names(unit.nodes@[i].variant)
    &&& (unit.nodes@[i].data.parent matches Some(p) ==> p < unit.nodes@.len())
}

/// Well-formedness of a whole unit.
pub open spec fn wf_unit(unit: CompilationUnit) -> bool {
    &&& unit.nodes@.len() > 0
    &&& unit.root < unit.nodes@.len()
    &&& forall|i: int| 0 <= i < unit.nodes@.len() ==> #[trigger] wf_node(unit, i)
}

/// The registered primitive scalars and their wire widths in bytes.
pub open spec fn spec_scalar_width(name: Seq<char>) -> Option<nat> {
    if name == "u8"@ || name == "i8"@ {
        Some(1)
    } else if name == "u16"@ || name == "i16"@ {
        Some(2)
    } else if name == "u32"@ || name == "i32"@ {
        Some(4)
    } else if name == "u64"@ || name == "i64"@ {
        Some(8)
    } else {
        None
    }
}

/// Width in bytes of the registered primitive named `name`, or none for
/// an unregistered name.
pub fn scalar_width_of(name: &String) -> (r: Option<u64>)
    ensures
        match spec_scalar_width(name@) {
            Some(w) => r == Some(w as u64),
            None => r is None,
        },
{
    if *name == "u8".to_owned() || *name == "i8".to_owned() {
        Some(1)
    } else if *name == "u16".to_owned() || *name == "i16".to_owned() {
        Some(2)
    } else if *name == "u32".to_owned() || *name == "i32".to_owned() {
        Some(4)
    } else if *name == "u64".to_owned() || *name == "i64".to_owned() {
        Some(8)
    } else {
        None
    }
}

/// What appending one raw node does to the table: the new node stands
/// at the old length, carries the given name and variant, is unowned
/// and raw; existing nodes keep their identity, except that each
/// structural child of the new node now has it as owner.
pub open spec fn appended_node(old_nodes: Seq<TypeNode>, new_nodes: Seq<TypeNode>, name: String, v: Variant, children: Seq<usize>) -> bool {
    &&& new_nodes.len() == old_nodes.len() + 1
    &&& new_nodes[old_nodes.len() as int].data.name == name
    &&& new_nodes[old_nodes.len() as int].data.parent is None
    &&& new_nodes[old_nodes.len() as int].data.state == NodeState::Raw
    &&& new_nodes[old_nodes.len() as int].variant == v
    &&& forall|i: int| 0 <= i < old_nodes.len() ==>
        #[trigger] new_nodes[i].variant == old_nodes[i].variant
        && new_nodes[i].data.name == old_nodes[i].data.name
        && new_nodes[i].data.state == old_nodes[i].data.state
    &&& forall|i: int| 0 <= i < old_nodes.len() && !children.contains(i as usize) ==>
        #[trigger] new_nodes[i].data.parent == old_nodes[i].data.parent
    &&& forall|i: int| 0 <= i < old_nodes.len() && children.contains(i as usize) ==>
        #[trigger] new_nodes[i].data.parent == Some(old_nodes.len() as usize)
}

impl CompilationUnit {
    /// An empty unit; nodes are added bottom-up, children first.
    pub fn new() -> (r: CompilationUnit)
        ensures
            r.nodes@.len() == 0,
            r.root == 0,
    {
        CompilationUnit { nodes: Vec::new(), root: 0 }
    }

    /// Append one raw node, claiming ownership of its structural
    /// children: each child's owner link is set to the new node.
    /// Returns the new node's index.
    fn push_node(&mut self, name: String, variant: Variant, children: &Vec<usize>) -> (r: usize)
        requires
            forall|j: int| 0 <= j < children@.len() ==> #[trigger] children@[j] < old(self).nodes@.len(),
        ensures
            r == old(self).nodes@.len(),
            final(self).root == old(self).root,
            appended_node(old(self).nodes@, final(self).nodes@, name, variant, children@),
    {
        let r: usize = self.nodes.len();
        let data = TypeData { name, parent: None, state: NodeState::Raw };
        self.nodes.push(TypeNode { data, variant });
        let ghost pushed = self.nodes@[r as int];
        let n: usize = children.len();
        for k in 0..n
            invariant
                n == children@.len(),
                r < self.nodes@.len(),
                self.nodes@.len() == old(self).nodes@.len() + 1,
                self.root == old(self).root,
                forall|j: int| 0 <= j < children@.len() ==> #[trigger] children@[j] < r,
                self.nodes@[r as int] == pushed,
                forall|i: int| 0 <= i < r ==>
                    #[trigger] self.nodes@[i].variant == old(self).nodes@[i].variant
                    && self.nodes@[i].data.name == old(self).nodes@[i].data.name
                    && self.nodes@[i].data.state == old(self).nodes@[i].data.state,
                forall|i: int| 0 <= i < r && !children@.take(k as int).contains(i as usize) ==>
                    #[trigger] self.nodes@[i].data.parent == old(self).nodes@[i].data.parent,
                forall|i: int| 0 <= i < r && children@.take(k as int).contains(i as usize) ==>
                    #[trigger] self.nodes@[i].data.parent == Some(r),
        {
            let c: usize = children[k];
            self.nodes[c].data.parent = Some(r);
            proof {
                assert(children@.take(k as int + 1).drop_last() =~= children@.take(k as int));
                assert(children@.take(k as int + 1).last() == children@[k as int]);
            }
        }
        proof {
            assert(children@.take(n as int) =~= children@);
        }
        r
    }

    /// Add a simple scalar node named after its registered primitive.
    pub fn add_scalar(&mut self, name: String) -> (r: usize)
        ensures
            r == old(self).nodes@.len(),
            final(self).root == old(self).root,
            appended_node(old(self).nodes@, final(self).nodes@, name,
                Variant::SimpleScalar(SimpleScalarVariant { width: None }), Seq::empty()),
    {
        let children: Vec<usize> = Vec::new();
        self.push_node(name, Variant::SimpleScalar(SimpleScalarVariant { width: None }), &children)
    }

    /// Add a container node owning the given fields, whose child nodes
    /// must already exist.
    pub fn add_container(&mut self, name: String, fields: Vec<ContainerField>) -> (r: Result<usize, CompileError>)
        ensures
            r is Ok <==> (forall|j: int| 0 <= j < fields@.len() ==> #[trigger] fields@[j].child < old(self).nodes@.len()),
            r matches Ok(i) ==> i == old(self).nodes@.len()
                && appended_node(old(self).nodes@, final(self).nodes@, name,
                    Variant::Container(ContainerVariant { fields }),
                    fields@.map_values(|f: ContainerField| f.child)),
            final(self).root == old(self).root,
            r is Err ==> *final(self) == *old(self),
            r matches Err(e) ==> e matches CompileError::UnresolvedReference { path, at }
                && at@ == name@,
    {
        let mut children: Vec<usize> = Vec::new();
        let n: usize = fields.len();
        for k in 0..n
            invariant
                n == fields@.len(),
                *self == *old(self),
                children@.len() == k,
                forall|j: int| 0 <= j < k ==> #[trigger] children@[j] == fields@[j].child,
                forall|j: int| 0 <= j < k ==> #[trigger] fields@[j].child < self.nodes@.len(),
        {
            if fields[k].child >= self.nodes.len() {
                return Err(CompileError::UnresolvedReference {
                    path: fields[k].name.clone(),
                    at: name,
                });
            }
            children.push(fields[k].child);
        }
        proof {
            assert(children@ =~= fields@.map_values(|f: ContainerField| f.child));
        }
        let r = self.push_node(name, Variant::Container(ContainerVariant { fields }), &children);
        Ok(r)
    }

    /// Add an array node over an existing element node.
    pub fn add_array(&mut self, name: String, element: usize, length: ArrayLength)
        -> (r: Result<usize, CompileError>)
        ensures
            r is Ok <==> element < old(self).nodes@.len(),
            r matches Ok(i) ==> i == old(self).nodes@.len()
                && appended_node(old(self).nodes@, final(self).nodes@, name,
                    Variant::Array(ArrayVariant { element, length }), seq![element]),
            final(self).root == old(self).root,
            r is Err ==> *final(self) == *old(self),
            r matches Err(e) ==> e matches CompileError::UnresolvedReference { path, at }
                && at@ == name@,
    {
        if element >= self.nodes.len() {
            return Err(CompileError::UnresolvedReference { path: name.clone(), at: name });
        }
        let mut children: Vec<usize> = Vec::new();
        children.push(element);
        proof {
            assert(children@ =~= seq![element]);
        }
        let r = self.push_node(name, Variant::Array(ArrayVariant { element, length }), &children);
        Ok(r)
    }

    /// Add a union node over existing case nodes.
    pub fn add_union(&mut self, name: String, discriminant: PathRef, cases: Vec<UnionCase>)
        -> (r: Result<usize, CompileError>)
        ensures
            r is Ok <==> (forall|j: int| 0 <= j < cases@.len() ==> #[trigger] cases@[j].child < old(self).nodes@.len()),
            r matches Ok(i) ==> i == old(self).nodes@.len()
                && appended_node(old(self).nodes@, final(self).nodes@, name,
                    Variant::Union(UnionVariant { discriminant, cases }),
                    cases@.map_values(|c: UnionCase| c.child)),
            final(self).root == old(self).root,
            r is Err ==> *final(self) == *old(self),
            r matches Err(e) ==> e matches CompileError::UnresolvedReference { path, at }
                && at@ == name@,
    {
        let mut children: Vec<usize> = Vec::new();
        let n: usize = cases.len();
        for k in 0..n
            invariant
                n == cases@.len(),
                *self == *old(self),
                children@.len() == k,
                forall|j: int| 0 <= j < k ==> #[trigger] children@[j] == cases@[j].child,
                forall|j: int| 0 <= j < k ==> #[trigger] cases@[j].child < self.nodes@.len(),
        {
            if cases[k].child >= self.nodes.len() {
                return Err(CompileError::UnresolvedReference { path: name.clone(), at: name });
            }
            children.push(cases[k].child);
        }
        proof {
            assert(children@ =~= cases@.map_values(|c: UnionCase| c.child));
        }
        let r = self.push_node(name, Variant::Union(UnionVariant { discriminant, cases }), &children);
        Ok(r)
    }

    /// Add a sized-buffer node; its byte count comes from the field the
    /// reference names.
    pub fn add_sized_buffer(&mut self, name: String, length: PathRef) -> (r: usize)
        ensures
            r == old(self).nodes@.len(),
            final(self).root == old(self).root,
            appended_node(old(self).nodes@, final(self).nodes@, name,
                Variant::SizedBuffer(SizedBufferVariant { length }), Seq::empty()),
    {
        let children: Vec<usize> = Vec::new();
        self.push_node(name, Variant::SizedBuffer(SizedBufferVariant { length }), &children)
    }

    /// Add a terminated-buffer node.
    pub fn add_terminated_buffer(&mut self, name: String) -> (r: usize)
        ensures
            r == old(self).nodes@.len(),
            final(self).root == old(self).root,
            appended_node(old(self).nodes@, final(self).nodes@, name,
                Variant::TerminatedBuffer(TerminatedBufferVariant {}), Seq::empty()),
    {
        let children: Vec<usize> = Vec::new();
        self.push_node(name, Variant::TerminatedBuffer(TerminatedBufferVariant {}), &children)
    }

    /// Mark an existing node as the unit's top-level type.
    pub fn set_root(&mut self, root: usize)
        ensures
            final(self).nodes == old(self).nodes,
            final(self).root == root,
    {
        self.root = root;
    }
}

} // verus!
