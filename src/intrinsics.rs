use vstd::prelude::*;
use crate::dispatch_table::{intrinsic_new, new_prototype, FunctionPrototype, PrototypeView};
use crate::layout::TargetDataLayout;
use crate::program::{
    body_preorder, preorder, Body, Callee, ExprKind, FunctionDef, MemoryKind, Program, StructDef,
    Ty, Visibility,
};

verus! {

/// Whether an expression allocates a struct through the runtime: a struct constructor call, a
/// record literal, or a unit struct's path.
pub open spec fn allocates(k: ExprKind) -> bool {
    match k {
        ExprKind::Call(Callee::Struct(_)) => true,
        ExprKind::RecordLit(_) => true,
        ExprKind::StructPath(_) => true,
        _ => false,
    }
}

/// Whether a body allocates anywhere in the tree below its root.
pub open spec fn body_allocates(b: Body) -> bool {
    exists|k: int|
        0 <= k < preorder(b, b.root as int).len() && allocates(
            b.exprs@[#[trigger] preorder(b, b.root as int)[k] as int].kind,
        )
}

/// Whether `t` is a struct stored by value.
pub open spec fn is_value_struct(ss: Seq<StructDef>, t: Ty) -> bool {
    t matches Ty::Struct(s) && ss[s as int].memory_kind == MemoryKind::Value
}

/// Whether a function can be called across the runtime boundary as it is: no parameter and no
/// return value is a value struct.
pub open spec fn marshallable(ss: Seq<StructDef>, f: FunctionDef) -> bool {
    &&& forall|k: int| 0 <= k < f.params@.len() ==> !is_value_struct(ss, #[trigger] f.params@[k])
    &&& !is_value_struct(ss, f.ret)
}

/// Whether a function gets a marshalling wrapper: it is public, defined in the file, and not
/// marshallable.
pub open spec fn needs_wrapper(ss: Seq<StructDef>, f: FunctionDef) -> bool {
    f.visibility == Visibility::Public && !f.is_extern && !marshallable(ss, f)
}

/// Whether the generated code of a function uses the allocator.
pub open spec fn uses_alloc(ss: Seq<StructDef>, f: FunctionDef) -> bool {
    !f.is_extern && (body_allocates(f.body) || needs_wrapper(ss, f))
}

/// Whether any function of the file uses the allocator.
pub open spec fn needs_alloc(ss: Seq<StructDef>, fs: Seq<FunctionDef>) -> bool {
    exists|g: int| 0 <= g < fs.len() && uses_alloc(ss, #[trigger] fs[g])
}

/// The intrinsics that the file's generated code calls, in order; the allocator is the only one.
pub open spec fn group_intrinsics(ss: Seq<StructDef>, fs: Seq<FunctionDef>, dl: TargetDataLayout) -> Seq<
    PrototypeView,
> {
    if needs_alloc(ss, fs) {
        seq![new_prototype(dl)]
    } else {
        Seq::empty()
    }
}

/// Whether function `f` can be called across the runtime boundary as it is (see
/// `marshallable`).
pub fn is_marshallable(p: &Program, f: usize) -> (r: bool)
    requires
        p.wf(),
        f < p.num_functions(),
    ensures
        r == marshallable(p.structs@, p.functions@[f as int]),
{
    let def = &p.functions[f];
    let mut k: usize = 0;
    while k < def.params.len()
        invariant
            p.wf(),
            f < p.num_functions(),
            def == p.functions@[f as int],
            0 <= k <= def.params@.len(),
            forall|j: int| 0 <= j < k ==> !is_value_struct(p.structs@, #[trigger] def.params@[j]),
        decreases def.params@.len() - k,
    {
        if let Ty::Struct(s) = def.params[k] {
            assert(crate::program::ty_wf(p.functions@[f as int].params@[k as int], p.num_structs()));
            if p.structs[s].memory_kind == MemoryKind::Value {
                return false;
            }
        }
        k = k + 1;
    }
    if let Ty::Struct(s) = def.ret {
        assert(crate::program::ty_wf(p.functions@[f as int].ret, p.num_structs()));
        if p.structs[s].memory_kind == MemoryKind::Value {
            return false;
        }
    }
    true
}

/// The intrinsics collected so far: the allocator once it is needed.
pub struct IntrinsicsMap {
    prototypes: Vec<FunctionPrototype>,
    needs_alloc: bool,
}

impl IntrinsicsMap {
    pub closed spec fn needs_alloc_spec(&self) -> bool {
        self.needs_alloc
    }

    pub closed spec fn view_prototypes(&self) -> Seq<PrototypeView> {
        self.prototypes@.map_values(|pr: FunctionPrototype| pr@)
    }

    pub closed spec fn inv(&self, dl: TargetDataLayout) -> bool {
        self.view_prototypes() == (if self.needs_alloc {
            seq![new_prototype(dl)]
        } else {
            Seq::<PrototypeView>::empty()
        })
    }

    pub fn new() -> (r: IntrinsicsMap)
        ensures
            forall|dl: TargetDataLayout| r.inv(dl),
            !r.needs_alloc_spec(),
    {
        let r = IntrinsicsMap { prototypes: Vec::new(), needs_alloc: false };
        assert(r.view_prototypes() =~= Seq::<PrototypeView>::empty());
        r
    }

    /// Records that the allocator is needed.
    fn collect_alloc(&mut self, dl: &TargetDataLayout)
        requires
            old(self).inv(*dl),
            dl.wf(),
        ensures
            final(self).inv(*dl),
            final(self).needs_alloc_spec(),
    {
        if !self.needs_alloc {
            self.prototypes.push(intrinsic_new(dl));
            self.needs_alloc = true;
            assert(self.view_prototypes() =~= seq![new_prototype(*dl)]);
        }
    }

    /// Whether the allocator is needed.
    pub fn needs_alloc(&self) -> (r: bool)
        ensures
            r == self.needs_alloc_spec(),
    {
        self.needs_alloc
    }

    /// The collected intrinsics, in dispatch order.
    pub fn prototypes(&self) -> (r: &Vec<FunctionPrototype>)
        ensures
            r@.map_values(|pr: FunctionPrototype| pr@) == self.view_prototypes(),
    {
        &self.prototypes
    }
}

/// Records the allocator if the body of function `f` allocates.
pub fn collect_fn_body(p: &Program, dl: &TargetDataLayout, f: usize, entries: &mut IntrinsicsMap)
    requires
        p.wf(),
        dl.wf(),
        f < p.num_functions(),
        old(entries).inv(*dl),
    ensures
        final(entries).inv(*dl),
        final(entries).needs_alloc_spec() == (old(entries).needs_alloc_spec() || body_allocates(
            p.functions@[f as int].body,
        )),
{
    let body = &p.functions[f].body;
    assert(body.wf(p.num_structs(), p.num_functions()));
    let order = body_preorder(body);
    let mut i: usize = 0;
    while i < order.len()
        invariant
            dl.wf(),
            body == p.functions@[f as int].body,
            order@ == preorder(*body, body.root as int),
            forall|k: int| 0 <= k < order@.len() ==> (#[trigger] order@[k]) < body.exprs@.len(),
            0 <= i <= order@.len(),
            forall|k: int| 0 <= k < i ==> !allocates(body.exprs@[#[trigger] order@[k] as int].kind),
            *entries == *old(entries),
            entries.inv(*dl),
        decreases order@.len() - i,
    {
        let kind = body.exprs[order[i]].kind;
        let alloc = match kind {
            ExprKind::Call(Callee::Struct(_)) => true,
            ExprKind::RecordLit(_) => true,
            ExprKind::StructPath(_) => true,
            _ => false,
        };
        if alloc {
            assert(allocates(body.exprs@[preorder(*body, body.root as int)[i as int] as int].kind));
            entries.collect_alloc(dl);
            return;
        }
        i = i + 1;
    }
}

/// Records the allocator, which a marshalling wrapper uses.
pub fn collect_wrapper_body(dl: &TargetDataLayout, entries: &mut IntrinsicsMap)
    requires
        dl.wf(),
        old(entries).inv(*dl),
    ensures
        final(entries).inv(*dl),
        final(entries).needs_alloc_spec(),
{
    entries.collect_alloc(dl)
}

/// The intrinsics of the file (see `group_intrinsics`).
pub fn collect_intrinsics(p: &Program, dl: &TargetDataLayout) -> (r: IntrinsicsMap)
    requires
        p.wf(),
        dl.wf(),
    ensures
        r.inv(*dl),
        r.needs_alloc_spec() == needs_alloc(p.structs@, p.functions@),
        r.view_prototypes() == group_intrinsics(p.structs@, p.functions@, *dl),
{
    let mut entries = IntrinsicsMap::new();
    let mut g: usize = 0;
    while g < p.functions.len()
        invariant
            p.wf(),
            dl.wf(),
            entries.inv(*dl),
            0 <= g <= p.functions@.len(),
            entries.needs_alloc_spec() == exists|h: int|
                0 <= h < g && uses_alloc(p.structs@, #[trigger] p.functions@[h]),
        decreases p.functions@.len() - g,
    {
        let ghost before = entries.needs_alloc_spec();
        if !p.functions[g].is_extern {
            collect_fn_body(p, dl, g, &mut entries);
            if p.functions[g].visibility == Visibility::Public && !is_marshallable(p, g) {
                collect_wrapper_body(dl, &mut entries);
            }
        }
        proof {
            let fg = p.functions@[g as int];
            if entries.needs_alloc_spec() && !before {
                assert(uses_alloc(p.structs@, fg));
            }
            if uses_alloc(p.structs@, fg) {
                assert(entries.needs_alloc_spec());
            }
        }
        g = g + 1;
    }
    entries
}

} // verus!
