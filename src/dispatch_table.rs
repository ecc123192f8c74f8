use vstd::prelude::*;
use crate::layout::TargetDataLayout;
use crate::program::{
    body_preorder, preorder, Body, Callee, ExprKind, FunctionDef, Program, StructDef, Ty,
};
use crate::ty::{type_info, type_info_of, type_size_of, TypeGroup, TypeInfo, TypeInfoView, TypeSize};

verus! {

/// A unique signature that can be added to the dispatch table.
#[derive(Clone, Debug)]
pub struct FunctionPrototype {
    pub name: String,
    pub arg_types: Vec<TypeInfo>,
    pub ret_type: Option<TypeInfo>,
}

pub ghost struct PrototypeView {
    pub name: Seq<char>,
    pub arg_types: Seq<TypeInfoView>,
    pub ret_type: Option<TypeInfoView>,
}

pub open spec fn infos_view(v: Seq<TypeInfo>) -> Seq<TypeInfoView> {
    v.map_values(|t: TypeInfo| t@)
}

pub open spec fn opt_info_view(o: Option<TypeInfo>) -> Option<TypeInfoView> {
    match o {
        Some(t) => Some(t@),
        None => None,
    }
}

impl View for FunctionPrototype {
    type V = PrototypeView;

    open spec fn view(&self) -> PrototypeView {
        PrototypeView {
            name: self.name@,
            arg_types: infos_view(self.arg_types@),
            ret_type: opt_info_view(self.ret_type),
        }
    }
}

/// Copies a list of type infos.
pub fn duplicate_infos(v: &Vec<TypeInfo>) -> (r: Vec<TypeInfo>)
    ensures
        infos_view(r@) == infos_view(v@),
{
    let mut r: Vec<TypeInfo> = Vec::new();
    let mut i: usize = 0;
    while i < v.len()
        invariant
            0 <= i <= v@.len(),
            r@.len() == i,
            forall|j: int| 0 <= j < i ==> (#[trigger] r@[j])@ == v@[j]@,
        decreases v@.len() - i,
    {
        r.push(v[i].duplicate());
        i = i + 1;
    }
    assert(infos_view(r@) =~= infos_view(v@));
    r
}

impl FunctionPrototype {
    /// A copy with the same view.
    pub fn duplicate(&self) -> (r: FunctionPrototype)
        ensures
            r@ == self@,
    {
        let ret_type = match &self.ret_type {
            Some(t) => Some(t.duplicate()),
            None => None,
        };
        FunctionPrototype {
            name: self.name.clone(),
            arg_types: duplicate_infos(&self.arg_types),
            ret_type,
        }
    }

    /// Whether two prototypes are equal: same name, argument types and return type.
    pub fn same(&self, other: &FunctionPrototype) -> (r: bool)
        ensures
            r == (self@ == other@),
    {
        if self.name != other.name || self.arg_types.len() != other.arg_types.len() {
            proof {
                if self@ == other@ {
                    assert(infos_view(self.arg_types@).len() == self.arg_types@.len());
                    assert(infos_view(other.arg_types@).len() == other.arg_types@.len());
                }
            }
            return false;
        }
        let mut i: usize = 0;
        while i < self.arg_types.len()
            invariant
                self.arg_types@.len() == other.arg_types@.len(),
                0 <= i <= self.arg_types@.len(),
                forall|j: int| 0 <= j < i ==> self.arg_types@[j]@ == other.arg_types@[j]@,
            decreases self.arg_types@.len() - i,
        {
            if !self.arg_types[i].same(&other.arg_types[i]) {
                proof {
                    if self@ == other@ {
                        assert(infos_view(self.arg_types@)[i as int] == self.arg_types@[i as int]@);
                        assert(infos_view(other.arg_types@)[i as int]
                            == other.arg_types@[i as int]@);
                    }
                }
                return false;
            }
            i = i + 1;
        }
        assert(infos_view(self.arg_types@) =~= infos_view(other.arg_types@));
        match (&self.ret_type, &other.ret_type) {
            (Some(a), Some(b)) => a.same(b),
            (None, None) => true,
            _ => false,
        }
    }
}

/// An entry of the dispatch table: a prototype, and the function it belongs to unless it is an
/// intrinsic of the runtime.
#[derive(Clone, Debug)]
pub struct DispatchableFunction {
    pub prototype: FunctionPrototype,
    pub hir: Option<usize>,
}

pub ghost struct DispatchView {
    pub prototype: PrototypeView,
    pub hir: Option<usize>,
}

impl View for DispatchableFunction {
    type V = DispatchView;

    open spec fn view(&self) -> DispatchView {
        DispatchView { prototype: self.prototype@, hir: self.hir }
    }
}

/// The type infos of a list of types, or `None` if one of them has none.
pub open spec fn infos_of(ss: Seq<StructDef>, dl: TargetDataLayout, tys: Seq<Ty>) -> Option<
    Seq<TypeInfoView>,
>
    decreases tys.len(),
{
    if tys.len() == 0 {
        Some(Seq::empty())
    } else {
        match (infos_of(ss, dl, tys.drop_last()), type_info_of(ss, dl, tys.last())) {
            (Some(a), Some(t)) => Some(a.push(t)),
            _ => None,
        }
    }
}

/// The prototype of a function: its name, the type infos of its parameters and, unless it
/// returns the empty type, of its return type.
pub open spec fn prototype_of(ss: Seq<StructDef>, dl: TargetDataLayout, f: FunctionDef) -> Option<
    PrototypeView,
> {
    match infos_of(ss, dl, f.params@) {
        Some(args) => if f.ret == Ty::Empty {
            Some(PrototypeView { name: f.name@, arg_types: args, ret_type: None })
        } else {
            match type_info_of(ss, dl, f.ret) {
                Some(r) => Some(PrototypeView { name: f.name@, arg_types: args, ret_type: Some(r) }),
                None => None,
            }
        },
        None => None,
    }
}

pub proof fn lemma_infos_prefix(ss: Seq<StructDef>, dl: TargetDataLayout, tys: Seq<Ty>, k: int)
    requires
        0 <= k <= tys.len(),
        infos_of(ss, dl, tys.take(k)) is None,
    ensures
        infos_of(ss, dl, tys) is None,
    decreases tys.len() - k,
{
    if k == tys.len() {
        assert(tys.take(k) =~= tys);
    } else {
        assert(tys.take(k + 1).drop_last() =~= tys.take(k));
        lemma_infos_prefix(ss, dl, tys, k + 1);
    }
}

/// The prototype of function `f` (see `prototype_of`).
pub fn function_prototype(p: &Program, dl: &TargetDataLayout, f: usize) -> (r: Option<
    FunctionPrototype,
>)
    requires
        p.wf(),
        dl.wf(),
        f < p.num_functions(),
    ensures
        match r {
            Some(pr) => prototype_of(p.structs@, *dl, p.functions@[f as int]) == Some(pr@),
            None => prototype_of(p.structs@, *dl, p.functions@[f as int]) is None,
        },
{
    let def = &p.functions[f];
    let ghost tys = def.params@;
    let mut args: Vec<TypeInfo> = Vec::new();
    let mut i: usize = 0;
    while i < def.params.len()
        invariant
            p.wf(),
            dl.wf(),
            f < p.num_functions(),
            def == p.functions@[f as int],
            tys == def.params@,
            0 <= i <= tys.len(),
            infos_of(p.structs@, *dl, tys.take(i as int)) == Some(infos_view(args@)),
        decreases tys.len() - i,
    {
        assert(tys.take(i + 1).drop_last() =~= tys.take(i as int));
        assert(crate::program::ty_wf(p.functions@[f as int].params@[i as int], p.num_structs()));
        match type_info(p, dl, def.params[i]) {
            Some(ti) => {
                args.push(ti);
                assert(infos_view(args@) =~= infos_view(args@.drop_last()).push(ti@));
            },
            None => {
                proof {
                    lemma_infos_prefix(p.structs@, *dl, tys, i + 1);
                }
                return None;
            },
        }
        i = i + 1;
    }
    assert(tys.take(tys.len() as int) =~= tys);
    let ret_type = if def.ret == Ty::Empty {
        None
    } else {
        match type_info(p, dl, def.ret) {
            Some(ti) => Some(ti),
            None => {
                return None;
            },
        }
    };
    Some(FunctionPrototype { name: def.name.clone(), arg_types: args, ret_type })
}

/// Whether every function of the program has a prototype.
pub open spec fn all_typed(ss: Seq<StructDef>, dl: TargetDataLayout, fs: Seq<FunctionDef>) -> bool {
    forall|g: int| 0 <= g < fs.len() ==> (#[trigger] prototype_of(ss, dl, fs[g])) is Some
}

/// The prototypes of all functions of the program, by index; `None` if one has none.
pub fn all_prototypes(p: &Program, dl: &TargetDataLayout) -> (r: Option<Vec<FunctionPrototype>>)
    requires
        p.wf(),
        dl.wf(),
    ensures
        r is Some <==> all_typed(p.structs@, *dl, p.functions@),
        r matches Some(v) ==> v@.len() == p.functions@.len() && forall|g: int|
            0 <= g < v@.len() ==> prototype_of(p.structs@, *dl, p.functions@[g]) == Some(
                (#[trigger] v@[g])@,
            ),
{
    let mut v: Vec<FunctionPrototype> = Vec::new();
    let mut g: usize = 0;
    while g < p.functions.len()
        invariant
            p.wf(),
            dl.wf(),
            0 <= g <= p.functions@.len(),
            v@.len() == g,
            forall|h: int|
                0 <= h < g ==> prototype_of(p.structs@, *dl, p.functions@[h]) == Some(
                    (#[trigger] v@[h])@,
                ),
        decreases p.functions@.len() - g,
    {
        match function_prototype(p, dl, g) {
            Some(pr) => v.push(pr),
            None => {
                assert(prototype_of(p.structs@, *dl, p.functions@[g as int]) is None);
                return None;
            },
        }
        g = g + 1;
    }
    assert forall|h: int| 0 <= h < p.functions@.len() implies (#[trigger] prototype_of(
        p.structs@,
        *dl,
        p.functions@[h],
    )) is Some by {
        assert(prototype_of(p.structs@, *dl, p.functions@[h]) == Some(v@[h]@));
    }
    Some(v)
}

/// The functions called in a sequence of expressions, in order, one entry per call site.
pub open spec fn callees(b: Body, ids: Seq<usize>) -> Seq<usize>
    decreases ids.len(),
{
    if ids.len() == 0 {
        Seq::empty()
    } else {
        let prev = callees(b, ids.drop_last());
        match b.exprs@[ids.last() as int].kind {
            ExprKind::Call(Callee::Function(g)) => prev.push(g),
            _ => prev,
        }
    }
}

/// The call sites of a function's body in pre-order.
pub open spec fn fn_calls(f: FunctionDef) -> Seq<usize> {
    callees(f.body, preorder(f.body, f.body.root as int))
}

/// Registers `calls` in order after `seen`: a function not yet present takes the next slot.
pub open spec fn register(seen: Seq<usize>, calls: Seq<usize>) -> Seq<usize>
    decreases calls.len(),
{
    if calls.len() == 0 {
        seen
    } else {
        let prev = register(seen, calls.drop_last());
        if prev.contains(calls.last()) {
            prev
        } else {
            prev.push(calls.last())
        }
    }
}

/// Whether the body of a function is scanned for the dispatch table: it is defined in the file.
pub open spec fn scanned(f: FunctionDef) -> bool {
    !f.is_extern
}

/// The functions that the first `n` functions' bodies call, in order of first discovery.
pub open spec fn group_fns(fs: Seq<FunctionDef>, n: int) -> Seq<usize>
    decreases n,
{
    if n <= 0 {
        Seq::empty()
    } else if scanned(fs[n - 1]) {
        register(group_fns(fs, n - 1), fn_calls(fs[n - 1]))
    } else {
        group_fns(fs, n - 1)
    }
}

pub open spec fn intrinsic_entry(pr: PrototypeView) -> DispatchView {
    DispatchView { prototype: pr, hir: None }
}

pub open spec fn function_entry(
    ss: Seq<StructDef>,
    dl: TargetDataLayout,
    fs: Seq<FunctionDef>,
    g: usize,
) -> DispatchView {
    DispatchView { prototype: prototype_of(ss, dl, fs[g as int]).unwrap(), hir: Some(g) }
}

/// The entries of a dispatch table that holds the given intrinsics and then the functions
/// `fns`, in slot order.
pub open spec fn table_entries(
    ss: Seq<StructDef>,
    dl: TargetDataLayout,
    fs: Seq<FunctionDef>,
    intrinsics: Seq<PrototypeView>,
    fns: Seq<usize>,
) -> Seq<DispatchView> {
    intrinsics.map_values(|pr: PrototypeView| intrinsic_entry(pr)) + fns.map_values(
        |g: usize| function_entry(ss, dl, fs, g),
    )
}

/// No two entries belong to the same function.
pub open spec fn one_slot_each(es: Seq<DispatchView>) -> bool {
    forall|i: int, j: int|
        0 <= i < es.len() && 0 <= j < es.len() && i != j && (#[trigger] es[i]).hir is Some ==> es[i].hir
            != (#[trigger] es[j]).hir
}

/// A table built from functions without repeats has one slot per function.
pub proof fn lemma_one_slot_each(
    ss: Seq<StructDef>,
    dl: TargetDataLayout,
    fs: Seq<FunctionDef>,
    intrinsics: Seq<PrototypeView>,
    fns: Seq<usize>,
)
    requires
        fns.no_duplicates(),
    ensures
        one_slot_each(table_entries(ss, dl, fs, intrinsics, fns)),
{
    let t = table_entries(ss, dl, fs, intrinsics, fns);
    let n = intrinsics.len() as int;
    assert forall|i: int, j: int|
        0 <= i < t.len() && 0 <= j < t.len() && i != j && (#[trigger] t[i]).hir is Some implies t[i].hir
            != (#[trigger] t[j]).hir by {
        if i < n {
            assert(t[i].hir is None);
        } else if j < n {
            assert(t[j].hir is None);
        } else {
            assert(t[i].hir == Some(fns[i - n]));
            assert(t[j].hir == Some(fns[j - n]));
        }
    }
}

/// Builds the dispatch table: intrinsics first, then every function called from a scanned body
/// in order of first discovery.
pub struct DispatchTableBuilder {
    entries: Vec<DispatchableFunction>,
    num_intrinsics: usize,
    intrinsics: Ghost<Seq<PrototypeView>>,
    fns: Ghost<Seq<usize>>,
}

/// What a slot of the dispatch table initially points to.
#[derive(Clone, Copy, Debug, PartialEq, Eq, Structural)]
pub enum SlotInit {
    /// Nothing; the runtime fills the slot when it loads the assembly.
    Null,
    /// The generated code of the function with this index.
    Function(usize),
}

/// The initial value of the slot for an entry.
pub open spec fn slot_init(fs: Seq<FunctionDef>, e: DispatchView) -> SlotInit {
    match e.hir {
        Some(g) => if fs[g as int].is_extern {
            SlotInit::Null
        } else {
            SlotInit::Function(g)
        },
        None => SlotInit::Null,
    }
}

/// A dispatch table: one patchable function-pointer slot per entry, with the slot's initial
/// value. Calls from generated code go through these slots.
pub struct DispatchTable {
    entries: Vec<DispatchableFunction>,
    initializers: Vec<SlotInit>,
}

pub open spec fn entries_view(v: Seq<DispatchableFunction>) -> Seq<DispatchView> {
    v.map_values(|e: DispatchableFunction| e@)
}

impl DispatchTableBuilder {
    pub closed spec fn view_entries(&self) -> Seq<DispatchView> {
        entries_view(self.entries@)
    }

    pub closed spec fn registered(&self) -> Seq<usize> {
        self.fns@
    }

    pub closed spec fn seeded(&self) -> Seq<PrototypeView> {
        self.intrinsics@
    }

    /// The entries are the seeded intrinsics followed by the registered functions.
    pub closed spec fn inv(&self, p: &Program, dl: TargetDataLayout) -> bool {
        &&& self.num_intrinsics == self.intrinsics@.len()
        &&& self.entries@.len() == self.intrinsics@.len() + self.fns@.len()
        &&& entries_view(self.entries@) == table_entries(
            p.structs@,
            dl,
            p.functions@,
            self.intrinsics@,
            self.fns@,
        )
        &&& forall|i: int| 0 <= i < self.fns@.len() ==> (#[trigger] self.fns@[i]) < p.functions@.len()
        &&& self.fns@.no_duplicates()
    }

    /// No function is registered twice.
    pub proof fn lemma_registered_unique(&self, p: &Program, dl: TargetDataLayout)
        requires
            self.inv(p, dl),
        ensures
            self.registered().no_duplicates(),
    {
    }

    /// A builder seeded with the intrinsics, in the order given.
    pub fn new(p: &Program, dl: &TargetDataLayout, intrinsics: &Vec<FunctionPrototype>) -> (r:
        DispatchTableBuilder)
        ensures
            r.inv(p, *dl),
            r.seeded() == intrinsics@.map_values(|pr: FunctionPrototype| pr@),
            r.registered() == Seq::<usize>::empty(),
    {
        let mut entries: Vec<DispatchableFunction> = Vec::new();
        let mut i: usize = 0;
        let ghost iv = intrinsics@.map_values(|pr: FunctionPrototype| pr@);
        while i < intrinsics.len()
            invariant
                0 <= i <= intrinsics@.len(),
                iv == intrinsics@.map_values(|pr: FunctionPrototype| pr@),
                entries@.len() == i,
                forall|j: int| 0 <= j < i ==> (#[trigger] entries@[j])@ == intrinsic_entry(iv[j]),
            decreases intrinsics@.len() - i,
        {
            entries.push(DispatchableFunction { prototype: intrinsics[i].duplicate(), hir: None });
            i = i + 1;
        }
        let r = DispatchTableBuilder {
            entries,
            num_intrinsics: intrinsics.len(),
            intrinsics: Ghost(iv),
            fns: Ghost(Seq::empty()),
        };
        assert(entries_view(r.entries@) =~= table_entries(
            p.structs@,
            *dl,
            p.functions@,
            iv,
            Seq::empty(),
        ));
        r
    }

    /// The slot of function `g`, if it is registered.
    fn find_function(&self, g: usize) -> (r: Option<usize>)
        requires
            self.num_intrinsics <= self.entries@.len(),
            forall|i: int|
                0 <= i < self.num_intrinsics ==> (#[trigger] self.entries@[i]).hir is None,
        ensures
            match r {
                Some(i) => self.num_intrinsics <= i < self.entries@.len() && self.entries@[i as int].hir
                    == Some(g),
                None => forall|i: int|
                    self.num_intrinsics <= i < self.entries@.len() ==> (
                    #[trigger] self.entries@[i]).hir != Some(g),
            },
    {
        let mut i: usize = self.num_intrinsics;
        while i < self.entries.len()
            invariant
                self.num_intrinsics <= i <= self.entries@.len(),
                forall|j: int|
                    self.num_intrinsics <= j < i ==> (#[trigger] self.entries@[j]).hir != Some(g),
            decreases self.entries@.len() - i,
        {
            if self.entries[i].hir == Some(g) {
                return Some(i);
            }
            i = i + 1;
        }
        None
    }

    /// Registers function `g` in the next slot unless it is already present.
    fn collect_fn_def(&mut self, p: &Program, dl: &TargetDataLayout, protos: &Vec<FunctionPrototype>, g: usize)
        requires
            old(self).inv(p, *dl),
            g < p.functions@.len(),
            protos@.len() == p.functions@.len(),
            forall|h: int|
                0 <= h < protos@.len() ==> prototype_of(p.structs@, *dl, p.functions@[h]) == Some(
                    (#[trigger] protos@[h])@,
                ),
        ensures
            final(self).inv(p, *dl),
            final(self).seeded() == old(self).seeded(),
            final(self).registered() == (if old(self).registered().contains(g) {
                old(self).registered()
            } else {
                old(self).registered().push(g)
            }),
    {
        let ghost ss = p.structs@;
        let ghost fs = p.functions@;
        let ghost iv = self.intrinsics@;
        let ghost fns = self.fns@;
        proof {
            assert forall|i: int| 0 <= i < self.num_intrinsics implies (
            #[trigger] self.entries@[i]).hir is None by {
                assert(entries_view(self.entries@)[i] == self.entries@[i]@);
                assert(table_entries(ss, *dl, fs, iv, fns)[i] == intrinsic_entry(iv[i]));
            }
        }
        let found = self.find_function(g);
        proof {
            let n = self.num_intrinsics as int;
            if fns.contains(g) {
                let k = choose|k: int| 0 <= k < fns.len() && fns[k] == g;
                assert(entries_view(self.entries@)[n + k] == self.entries@[n + k]@);
                assert(table_entries(ss, *dl, fs, iv, fns)[n + k] == function_entry(ss, *dl, fs, fns[k]));
            }
            if let Some(i) = found {
                assert(entries_view(self.entries@)[i as int] == self.entries@[i as int]@);
                assert(table_entries(ss, *dl, fs, iv, fns)[i as int] == function_entry(
                    ss,
                    *dl,
                    fs,
                    fns[i - n],
                ));
                assert(fns.contains(g));
            }
        }
        if found.is_none() {
            let pr = protos[g].duplicate();
            let ghost old_entries = self.entries@;
            self.entries.push(DispatchableFunction { prototype: pr, hir: Some(g) });
            self.fns = Ghost(fns.push(g));
            proof {
                let before = table_entries(ss, *dl, fs, iv, fns);
                let after = table_entries(ss, *dl, fs, iv, fns.push(g));
                assert(after.len() == before.len() + 1);
                assert forall|j: int| 0 <= j < after.len() implies entries_view(self.entries@)[j]
                    == after[j] by {
                    if j < before.len() {
                        assert(self.entries@[j] == old_entries[j]);
                        assert(entries_view(old_entries)[j] == before[j]);
                        if j >= iv.len() {
                            assert(fns.push(g)[j - iv.len()] == fns[j - iv.len()]);
                        }
                    } else {
                        assert(fns.push(g)[j - iv.len()] == g);
                        assert(prototype_of(ss, *dl, fs[g as int]) == Some(protos@[g as int]@));
                    }
                }
                assert(entries_view(self.entries@) =~= table_entries(
                    ss,
                    *dl,
                    fs,
                    iv,
                    fns.push(g),
                ));
            }
        }
    }

    /// Registers, in pre-order, every function called from the body of function `f`.
    pub fn collect_body(&mut self, p: &Program, dl: &TargetDataLayout, protos: &Vec<FunctionPrototype>, f: usize)
        requires
            old(self).inv(p, *dl),
            p.wf(),
            f < p.functions@.len(),
            protos@.len() == p.functions@.len(),
            forall|h: int|
                0 <= h < protos@.len() ==> prototype_of(p.structs@, *dl, p.functions@[h]) == Some(
                    (#[trigger] protos@[h])@,
                ),
        ensures
            final(self).inv(p, *dl),
            final(self).seeded() == old(self).seeded(),
            final(self).registered() == register(
                old(self).registered(),
                fn_calls(p.functions@[f as int]),
            ),
    {
        let body = &p.functions[f].body;
        assert(body.wf(p.num_structs(), p.num_functions()));
        let order = body_preorder(body);
        let ghost start = self.registered();
        let mut i: usize = 0;
        while i < order.len()
            invariant
                self.inv(p, *dl),
                p.wf(),
                f < p.functions@.len(),
                body == p.functions@[f as int].body,
                order@ == preorder(*body, body.root as int),
                forall|k: int| 0 <= k < order@.len() ==> (#[trigger] order@[k]) < body.exprs@.len(),
                protos@.len() == p.functions@.len(),
                forall|h: int|
                    0 <= h < protos@.len() ==> prototype_of(p.structs@, *dl, p.functions@[h])
                        == Some((#[trigger] protos@[h])@),
                self.seeded() == old(self).seeded(),
                0 <= i <= order@.len(),
                self.registered() == register(start, callees(*body, order@.take(i as int))),
            decreases order@.len() - i,
        {
            let e = order[i];
            proof {
                assert(order@.take(i + 1).drop_last() =~= order@.take(i as int));
            }
            let ghost before = callees(*body, order@.take(i as int));
            if let ExprKind::Call(Callee::Function(g)) = body.exprs[e].kind {
                assert(body.wf(p.num_structs(), p.num_functions()));
                assert(g < p.functions@.len());
                assert(callees(*body, order@.take(i + 1)) == before.push(g));
                assert(before.push(g).drop_last() =~= before);
                self.collect_fn_def(p, dl, protos, g);
            } else {
                assert(callees(*body, order@.take(i + 1)) == before);
            }
            i = i + 1;
        }
        assert(order@.take(order@.len() as int) =~= order@);
    }

    /// The finished table. A slot starts out empty for intrinsics and extern functions, and
    /// points to the function's generated code otherwise.
    pub fn build(self, p: &Program, dl: &TargetDataLayout) -> (r: DispatchTable)
        requires
            self.inv(p, *dl),
        ensures
            r.view_entries() == table_entries(
                p.structs@,
                *dl,
                p.functions@,
                self.seeded(),
                self.registered(),
            ),
            r.initializers() == r.view_entries().map_values(
                |e: DispatchView| slot_init(p.functions@, e),
            ),
            one_slot_each(r.view_entries()),
    {
        proof {
            lemma_one_slot_each(p.structs@, *dl, p.functions@, self.intrinsics@, self.fns@);
        }
        let mut initializers: Vec<SlotInit> = Vec::new();
        let mut i: usize = 0;
        let ghost ev = entries_view(self.entries@);
        while i < self.entries.len()
            invariant
                self.inv(p, *dl),
                ev == entries_view(self.entries@),
                0 <= i <= self.entries@.len(),
                initializers@ == ev.take(i as int).map_values(
                    |e: DispatchView| slot_init(p.functions@, e),
                ),
            decreases self.entries@.len() - i,
        {
            let init = match self.entries[i].hir {
                Some(g) => {
                    proof {
                        let n = self.num_intrinsics as int;
                        assert(ev[i as int] == self.entries@[i as int]@);
                        let tv = table_entries(
                            p.structs@,
                            *dl,
                            p.functions@,
                            self.intrinsics@,
                            self.fns@,
                        );
                        if i < n {
                            assert(tv[i as int] == intrinsic_entry(self.intrinsics@[i as int]));
                        } else {
                            assert(tv[i as int] == function_entry(
                                p.structs@,
                                *dl,
                                p.functions@,
                                self.fns@[i - n],
                            ));
                            assert(self.fns@[i - n] < p.functions@.len());
                        }
                    }
                    if p.functions[g].is_extern {
                        SlotInit::Null
                    } else {
                        SlotInit::Function(g)
                    }
                },
                None => SlotInit::Null,
            };
            proof {
                assert(ev[i as int] == self.entries@[i as int]@);
            }
            initializers.push(init);
            i = i + 1;
            assert(initializers@ =~= ev.take(i as int).map_values(
                |e: DispatchView| slot_init(p.functions@, e),
            ));
        }
        assert(ev.take(i as int) =~= ev);
        DispatchTable { entries: self.entries, initializers }
    }
}

impl DispatchTable {
    pub closed spec fn view_entries(&self) -> Seq<DispatchView> {
        entries_view(self.entries@)
    }

    pub closed spec fn initializers(&self) -> Seq<SlotInit> {
        self.initializers@
    }

    /// The entries of the table, in slot order.
    pub fn entries(&self) -> (r: &Vec<DispatchableFunction>)
        ensures
            entries_view(r@) == self.view_entries(),
    {
        &self.entries
    }

    /// The initial value of each slot, in slot order.
    pub fn slot_initializers(&self) -> (r: &Vec<SlotInit>)
        ensures
            r@ == self.initializers(),
    {
        &self.initializers
    }

    /// Whether the table has a global at all: it has none when it has no entries.
    pub fn has_global(&self) -> (r: bool)
        ensures
            r == (self.view_entries().len() > 0),
    {
        self.entries.len() > 0
    }

    /// Whether function `f` has a slot in the table.
    pub fn contains(&self, f: usize) -> (r: bool)
        ensures
            r == exists|i: int|
                0 <= i < self.view_entries().len() && (#[trigger] self.view_entries()[i]).hir
                    == Some(f),
    {
        let mut i: usize = 0;
        while i < self.entries.len()
            invariant
                0 <= i <= self.entries@.len(),
                forall|j: int|
                    0 <= j < i ==> (#[trigger] entries_view(self.entries@)[j]).hir != Some(f),
            decreases self.entries@.len() - i,
        {
            if self.entries[i].hir == Some(f) {
                assert(self.view_entries()[i as int].hir == Some(f));
                return true;
            }
            i = i + 1;
        }
        false
    }

    /// The slot through which generated code calls function `f`, which must have one.
    pub fn gen_function_lookup(&self, f: usize) -> (r: usize)
        requires
            exists|i: int|
                0 <= i < self.view_entries().len() && (#[trigger] self.view_entries()[i]).hir
                    == Some(f),
        ensures
            r < self.view_entries().len(),
            self.view_entries()[r as int].hir == Some(f),
    {
        let mut i: usize = 0;
        while i < self.entries.len()
            invariant
                0 <= i <= self.entries@.len(),
                exists|k: int|
                    0 <= k < self.view_entries().len() && (#[trigger] self.view_entries()[k]).hir
                        == Some(f),
                forall|j: int|
                    0 <= j < i ==> (#[trigger] entries_view(self.entries@)[j]).hir != Some(f),
            decreases self.entries@.len() - i,
        {
            if self.entries[i].hir == Some(f) {
                return i;
            }
            i = i + 1;
        }
        proof {
            let k = choose|k: int|
                0 <= k < self.view_entries().len() && (#[trigger] self.view_entries()[k]).hir
                    == Some(f);
            assert(entries_view(self.entries@)[k].hir != Some(f));
        }
        0
    }

    /// The slot through which generated code calls the intrinsic with prototype `pr`, which
    /// must have been seeded.
    pub fn gen_intrinsic_lookup(&self, pr: &FunctionPrototype) -> (r: usize)
        requires
            exists|i: int|
                0 <= i < self.view_entries().len() && (#[trigger] self.view_entries()[i]).hir
                    is None && self.view_entries()[i].prototype == pr@,
        ensures
            r < self.view_entries().len(),
            self.view_entries()[r as int].hir is None,
            self.view_entries()[r as int].prototype == pr@,
    {
        let mut i: usize = 0;
        while i < self.entries.len()
            invariant
                0 <= i <= self.entries@.len(),
                exists|k: int|
                    0 <= k < self.view_entries().len() && (#[trigger] self.view_entries()[k]).hir
                        is None && self.view_entries()[k].prototype == pr@,
                forall|j: int|
                    0 <= j < i ==> !((#[trigger] entries_view(self.entries@)[j]).hir is None
                        && entries_view(self.entries@)[j].prototype == pr@),
            decreases self.entries@.len() - i,
        {
            if self.entries[i].hir.is_none() && self.entries[i].prototype.same(pr) {
                return i;
            }
            i = i + 1;
        }
        proof {
            let k = choose|k: int|
                0 <= k < self.view_entries().len() && (#[trigger] self.view_entries()[k]).hir
                    is None && self.view_entries()[k].prototype == pr@;
            assert(!(entries_view(self.entries@)[k].hir is None
                && entries_view(self.entries@)[k].prototype == pr@));
        }
        0
    }
}

/// The name the runtime knows a pointer type by, with its pointer layout.
pub open spec fn pointer_info(dl: TargetDataLayout, name: Seq<char>) -> TypeInfoView {
    TypeInfoView {
        guid: crate::ty::md5_digest(name),
        name,
        size: type_size_of(dl.pointer_layout()),
        group: TypeGroup::FundamentalTypes,
    }
}

/// The prototype of the runtime's allocation intrinsic `new`, which takes the type information
/// of the object and the allocator handle and returns the new object's handle.
pub open spec fn new_prototype(dl: TargetDataLayout) -> PrototypeView {
    PrototypeView {
        name: "new"@,
        arg_types: seq![
            pointer_info(dl, "*const TypeInfo"@),
            pointer_info(dl, "*mut core::void"@),
        ],
        ret_type: Some(pointer_info(dl, "*const *mut core::void"@)),
    }
}

fn pointer_type_info(dl: &TargetDataLayout, name: &str) -> (r: TypeInfo)
    requires
        dl.wf(),
    ensures
        r@ == pointer_info(*dl, name@),
{
    let size = TypeSize { bit_size: dl.pointer_bytes * 8, alignment: dl.pointer_align as u32 };
    TypeInfo::new(String::from_str(name), size, TypeGroup::FundamentalTypes)
}

/// The prototype of the allocation intrinsic (see `new_prototype`).
pub fn intrinsic_new(dl: &TargetDataLayout) -> (r: FunctionPrototype)
    requires
        dl.wf(),
    ensures
        r@ == new_prototype(*dl),
{
    let mut arg_types: Vec<TypeInfo> = Vec::new();
    arg_types.push(pointer_type_info(dl, "*const TypeInfo"));
    arg_types.push(pointer_type_info(dl, "*mut core::void"));
    let ret = pointer_type_info(dl, "*const *mut core::void");
    let r = FunctionPrototype { name: String::from_str("new"), arg_types, ret_type: Some(ret) };
    assert(infos_view(r.arg_types@) =~= new_prototype(*dl).arg_types);
    r
}

} // verus!
