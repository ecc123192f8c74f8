use vstd::prelude::*;
use crate::abi_types::{gen_abi_types, AbiTypes};
use crate::code_gen::CodeGenerationError;
use crate::dispatch_table::{
    all_prototypes, all_typed, fn_calls, group_fns, infos_of, prototype_of, register, scanned,
    slot_init, table_entries, DispatchTable, DispatchTableBuilder, DispatchView, PrototypeView,
};
use crate::intrinsics::{collect_intrinsics, group_intrinsics, needs_alloc, IntrinsicsMap};
use crate::layout::TargetDataLayout;
use crate::program::{field_tys, FunctionDef, Program, StructDef, Ty, Visibility};
use crate::ty::{type_info_of, TypeInfoView};
use crate::type_table::{
    descriptor_of, distinct, fn_types, guids_distinct, info_key, intrinsic_types, sorted_by_guid,
    strictly_sorted_by_guid, names_distinct, global_names_distinct, struct_types, TypeTable,
    TypeTableBuilder,
};

verus! {

/// The dispatch table entries of a file: its intrinsics, then the functions its bodies
/// call in order of first discovery.
pub open spec fn group_dispatch_entries(
    ss: Seq<StructDef>,
    dl: TargetDataLayout,
    fs: Seq<FunctionDef>,
) -> Seq<DispatchView> {
    table_entries(ss, dl, fs, group_intrinsics(ss, fs, dl), group_fns(fs, fs.len() as int))
}

/// The type information of the first `n` structs and of their fields.
pub open spec fn structs_types(ss: Seq<StructDef>, dl: TargetDataLayout, n: int) -> Option<
    Set<TypeInfoView>,
>
    decreases n,
{
    if n <= 0 {
        Some(Set::empty())
    } else {
        match (structs_types(ss, dl, n - 1), struct_types(ss, dl, n - 1)) {
            (Some(a), Some(b)) => Some(a + b),
            _ => None,
        }
    }
}

/// Whether the runtime sees function `f` of a file whose dispatch table calls `called`.
pub open spec fn visible(fs: Seq<FunctionDef>, called: Seq<usize>, f: int) -> bool {
    fs[f].visibility == Visibility::Public || called.contains(f as usize)
}

/// The type information of the signatures of the first `n` functions that the runtime sees.
pub open spec fn fns_types(
    ss: Seq<StructDef>,
    dl: TargetDataLayout,
    fs: Seq<FunctionDef>,
    called: Seq<usize>,
    n: int,
) -> Option<Set<TypeInfoView>>
    decreases n,
{
    if n <= 0 {
        Some(Set::empty())
    } else if visible(fs, called, n - 1) {
        match (fns_types(ss, dl, fs, called, n - 1), fn_types(ss, dl, fs[n - 1])) {
            (Some(a), Some(b)) => Some(a + b),
            _ => None,
        }
    } else {
        fns_types(ss, dl, fs, called, n - 1)
    }
}

/// Every runtime-visible type of a file: the intrinsics' types, every struct and its field
/// types, and the signature types of the functions the runtime sees.
pub open spec fn group_types(ss: Seq<StructDef>, dl: TargetDataLayout, fs: Seq<FunctionDef>) -> Option<
    Set<TypeInfoView>,
> {
    match (
        structs_types(ss, dl, ss.len() as int),
        fns_types(ss, dl, fs, group_fns(fs, fs.len() as int), fs.len() as int),
    ) {
        (Some(a), Some(b)) => Some(intrinsic_types(group_intrinsics(ss, fs, dl)) + a + b),
        _ => None,
    }
}

/// Whether code can be generated for a file: every function has a prototype, every runtime
/// type has information, and each of them a descriptor.
pub open spec fn group_ok(ss: Seq<StructDef>, dl: TargetDataLayout, fs: Seq<FunctionDef>) -> bool {
    &&& all_typed(ss, dl, fs)
    &&& group_types(ss, dl, fs) is Some
    &&& guids_distinct(group_types(ss, dl, fs).unwrap())
    &&& names_distinct(group_types(ss, dl, fs).unwrap())
    &&& forall|t: TypeInfoView| #[trigger]
        group_types(ss, dl, fs).unwrap().contains(t) ==> descriptor_of(ss, dl, t) is Some
}

/// What `group_ir` generates for a program: the runtime structures, the allocator handle when
/// the file allocates, the file's intrinsics, the dispatch table of its calls, and its
/// runtime-visible types once each in guid order with their descriptors.
pub open spec fn group_result(p: Program, dl: TargetDataLayout, g: FileGroupIR) -> bool {
    &&& g.abi_types.wf()
    &&& g.allocator_handle == needs_alloc(p.structs@, p.functions@)
    &&& g.intrinsics.view_prototypes() == group_intrinsics(p.structs@, p.functions@, dl)
    &&& g.dispatch_table.view_entries() == group_dispatch_entries(p.structs@, dl, p.functions@)
    &&& g.dispatch_table.initializers() == g.dispatch_table.view_entries().map_values(
        |e: DispatchView| slot_init(p.functions@, e),
    )
    &&& sorted_by_guid(g.type_table.view_entries())
    &&& strictly_sorted_by_guid(g.type_table.view_entries())
    &&& global_names_distinct(g.type_table.view_descriptors())
    &&& distinct(g.type_table.view_entries())
    &&& g.type_table.view_entries().to_set() == group_types(p.structs@, dl, p.functions@).unwrap()
    &&& g.type_table.view_descriptors() == g.type_table.view_entries().map_values(
        |t: TypeInfoView| descriptor_of(p.structs@, dl, t).unwrap(),
    )
}

/// What is shared by the files of a group: the runtime structures, the dispatch table, the
/// type table, the intrinsics, and whether the allocator handle global exists.
pub struct FileGroupIR {
    pub abi_types: AbiTypes,
    pub dispatch_table: DispatchTable,
    pub type_table: TypeTable,
    pub intrinsics: IntrinsicsMap,
    pub allocator_handle: bool,
}

/// The prototype of a function with a signature has the same types as its signature.
proof fn lemma_fn_types_of_prototype(ss: Seq<StructDef>, dl: TargetDataLayout, f: FunctionDef)
    requires
        prototype_of(ss, dl, f) is Some,
    ensures
        fn_types(ss, dl, f) is Some,
{
}

/// Generates what a file's group shares, for a well-formed program on a supported target.
pub fn group_ir(p: &Program, dl: &TargetDataLayout) -> (r: Result<FileGroupIR, CodeGenerationError>)
    requires
        p.wf(),
        dl.wf(),
    ensures
        r is Ok <==> group_ok(p.structs@, *dl, p.functions@),
        r is Err ==> r == Err::<FileGroupIR, CodeGenerationError>(CodeGenerationError::UnsupportedType),
        r matches Ok(g) ==> group_result(*p, *dl, g),
{
    let ghost ss = p.structs@;
    let ghost fs = p.functions@;
    let intrinsics = collect_intrinsics(p, dl);
    let protos = match all_prototypes(p, dl) {
        Some(v) => v,
        None => {
            return Err(CodeGenerationError::UnsupportedType);
        },
    };
    let mut builder = DispatchTableBuilder::new(p, dl, intrinsics.prototypes());
    let mut f: usize = 0;
    while f < p.functions.len()
        invariant
            p.wf(),
            dl.wf(),
            ss == p.structs@,
            fs == p.functions@,
            builder.inv(p, *dl),
            builder.seeded() == group_intrinsics(ss, fs, *dl),
            protos@.len() == fs.len(),
            forall|h: int|
                0 <= h < protos@.len() ==> prototype_of(ss, *dl, fs[h]) == Some(
                    (#[trigger] protos@[h])@,
                ),
            0 <= f <= fs.len(),
            builder.registered() == group_fns(fs, f as int),
        decreases fs.len() - f,
    {
        let def = &p.functions[f];
        if !def.is_extern {
            builder.collect_body(p, dl, &protos, f);
        }
        f = f + 1;
    }
    let dispatch_table = builder.build(p, dl);
    let abi_types = gen_abi_types();
    let ghost called = group_fns(fs, fs.len() as int);
    let mut types = TypeTableBuilder::new(intrinsics.prototypes());
    let mut s: usize = 0;
    while s < p.structs.len()
        invariant
            p.wf(),
            dl.wf(),
            ss == p.structs@,
            types.inv(),
            0 <= s <= ss.len(),
            structs_types(ss, *dl, s as int) is Some,
            types.collected() == intrinsic_types(group_intrinsics(ss, fs, *dl)) + structs_types(
                ss,
                *dl,
                s as int,
            ).unwrap(),
        decreases ss.len() - s,
    {
        let ghost before = types.collected();
        if !types.collect_struct(p, dl, s) {
            proof {
                lemma_structs_types_none(ss, *dl, s as int + 1, ss.len() as int);
            }
            return Err(CodeGenerationError::UnsupportedType);
        }
        s = s + 1;
        proof {
            assert(types.collected() =~= intrinsic_types(group_intrinsics(ss, fs, *dl)) + structs_types(
                ss,
                *dl,
                s as int,
            ).unwrap());
        }
    }
    let ghost with_structs = types.collected();
    let mut g: usize = 0;
    while g < p.functions.len()
        invariant
            p.wf(),
            dl.wf(),
            ss == p.structs@,
            fs == p.functions@,
            types.inv(),
            all_typed(ss, *dl, fs),
            dispatch_table.view_entries() == table_entries(
                ss,
                *dl,
                fs,
                group_intrinsics(ss, fs, *dl),
                called,
            ),
            0 <= g <= fs.len(),
            fns_types(ss, *dl, fs, called, g as int) is Some,
            types.collected() == with_structs + fns_types(ss, *dl, fs, called, g as int).unwrap(),
        decreases fs.len() - g,
    {
        proof {
            assert(prototype_of(ss, *dl, fs[g as int]) is Some);
            lemma_fn_types_of_prototype(ss, *dl, fs[g as int]);
            lemma_table_contains(ss, *dl, fs, group_intrinsics(ss, fs, *dl), called, g as usize);
        }
        let ok = types.collect_fn(p, dl, &dispatch_table, g);
        assert(ok);
        g = g + 1;
        proof {
            assert(types.collected() =~= with_structs + fns_types(ss, *dl, fs, called, g as int).unwrap());
        }
    }
    assert(types.collected() =~= group_types(ss, *dl, fs).unwrap());
    let ghost ev = types.view_entries();
    let ghost collected = types.collected();
    proof {
        types.lemma_entries();
    }
    let type_table = match types.build(p, dl) {
        Some(tt) => tt,
        None => {
            proof {
                lemma_build_failure(ss, *dl, fs, ev, collected);
            }
            return Err(CodeGenerationError::UnsupportedType);
        },
    };
    let allocator_handle = intrinsics.needs_alloc();
    Ok(FileGroupIR { abi_types, dispatch_table, type_table, intrinsics, allocator_handle })
}

/// A type table whose build fails makes the group fail.
proof fn lemma_build_failure(
    ss: Seq<StructDef>,
    dl: TargetDataLayout,
    fs: Seq<FunctionDef>,
    ev: Seq<TypeInfoView>,
    collected: Set<TypeInfoView>,
)
    requires
        group_types(ss, dl, fs) is Some,
        collected == group_types(ss, dl, fs).unwrap(),
        ev.to_set() == collected,
        !(guids_distinct(collected) && names_distinct(collected) && forall|i: int|
            0 <= i < ev.len() ==> (#[trigger] descriptor_of(ss, dl, ev[i])) is Some),
    ensures
        !group_ok(ss, dl, fs),
{
    if guids_distinct(collected) && names_distinct(collected) {
        let i = choose|i: int| 0 <= i < ev.len() && !((#[trigger] descriptor_of(ss, dl, ev[i])) is Some);
        assert(ev.contains(ev[i]));
        assert(ev.to_set().contains(ev[i]));
    }
}

proof fn lemma_structs_types_none(ss: Seq<StructDef>, dl: TargetDataLayout, k: int, n: int)
    requires
        0 < k <= n,
        structs_types(ss, dl, k) is None,
    ensures
        structs_types(ss, dl, n) is None,
    decreases n - k,
{
    if k < n {
        lemma_structs_types_none(ss, dl, k + 1, n);
    }
}

/// A function has a slot in a table built from `fns` exactly when it is one of them.
proof fn lemma_table_contains(
    ss: Seq<StructDef>,
    dl: TargetDataLayout,
    fs: Seq<FunctionDef>,
    intrinsics: Seq<PrototypeView>,
    fns: Seq<usize>,
    f: usize,
)
    ensures
        (exists|i: int|
            0 <= i < table_entries(ss, dl, fs, intrinsics, fns).len() && (#[trigger] table_entries(
                ss,
                dl,
                fs,
                intrinsics,
                fns,
            )[i]).hir == Some(f)) <==> fns.contains(f),
{
    let t = table_entries(ss, dl, fs, intrinsics, fns);
    let n = intrinsics.len() as int;
    if fns.contains(f) {
        let k = choose|k: int| 0 <= k < fns.len() && fns[k] == f;
        assert(t[n + k].hir == Some(f));
    }
    if exists|i: int| 0 <= i < t.len() && (#[trigger] t[i]).hir == Some(f) {
        let i = choose|i: int| 0 <= i < t.len() && (#[trigger] t[i]).hir == Some(f);
        if i < n {
            assert(t[i].hir is None);
        } else {
            assert(fns[i - n] == f);
        }
    }
}

/// The information of every struct of the program is among the first `n` structs' types.
proof fn lemma_struct_in_structs_types(ss: Seq<StructDef>, dl: TargetDataLayout, s: int, n: int)
    requires
        0 <= s < n,
        structs_types(ss, dl, n) is Some,
    ensures
        type_info_of(ss, dl, Ty::Struct(s as usize)) is Some,
        structs_types(ss, dl, n).unwrap().contains(
            type_info_of(ss, dl, Ty::Struct(s as usize)).unwrap(),
        ),
    decreases n,
{
    if s < n - 1 {
        lemma_struct_in_structs_types(ss, dl, s, n - 1);
    }
}

/// A struct's type information is in the type table exactly once, however many signatures and
/// struct fields use the struct.
pub proof fn lemma_type_table_dedup(p: Program, dl: TargetDataLayout, g: FileGroupIR, s: usize)
    requires
        group_result(p, dl, g),
        group_ok(p.structs@, dl, p.functions@),
        s < p.structs@.len(),
    ensures
        ({
            let t = type_info_of(p.structs@, dl, Ty::Struct(s)).unwrap();
            let es = g.type_table.view_entries();
            &&& exists|i: int| 0 <= i < es.len() && es[i] == t
            &&& forall|i: int, j: int| 0 <= i < es.len() && 0 <= j < es.len() && es[i] == t && es[j] == t ==> i == j
        }),
{
    let ss = p.structs@;
    let t = type_info_of(ss, dl, Ty::Struct(s)).unwrap();
    let es = g.type_table.view_entries();
    lemma_struct_in_structs_types(ss, dl, s as int, ss.len() as int);
    assert(group_types(ss, dl, p.functions@).unwrap().contains(t));
    assert(es.to_set().contains(t));
    assert forall|i: int, j: int| 0 <= i < es.len() && 0 <= j < es.len() && es[i] == t && es[j] == t implies i == j by {
        if i < j {
            assert(es[i] != es[j]);
        } else if j < i {
            assert(es[j] != es[i]);
        }
    }
}

proof fn lemma_struct_types_in(ss: Seq<StructDef>, dl: TargetDataLayout, s: int, n: int)
    requires
        0 <= s < n,
        structs_types(ss, dl, n) is Some,
    ensures
        struct_types(ss, dl, s) is Some,
        struct_types(ss, dl, s).unwrap().subset_of(structs_types(ss, dl, n).unwrap()),
    decreases n,
{
    if s < n - 1 {
        lemma_struct_types_in(ss, dl, s, n - 1);
    }
}

/// The type table is closed under struct fields: for every struct in it, the type information
/// of each of its fields is in it too.
pub proof fn lemma_type_table_closed(p: Program, dl: TargetDataLayout, g: FileGroupIR, t: TypeInfoView)
    requires
        group_result(p, dl, g),
        group_ok(p.structs@, dl, p.functions@),
        g.type_table.view_entries().contains(t),
        t.group is StructTypes,
    ensures
        ({
            let s = t.group->StructTypes_0 as int;
            let ss = p.structs@;
            &&& s < ss.len()
            &&& infos_of(ss, dl, field_tys(ss, s)) is Some
            &&& forall|k: int|
                0 <= k < infos_of(ss, dl, field_tys(ss, s)).unwrap().len()
                    ==> g.type_table.view_entries().contains(
                    #[trigger] infos_of(ss, dl, field_tys(ss, s)).unwrap()[k],
                )
        }),
{
    let ss = p.structs@;
    let s = t.group->StructTypes_0 as int;
    let es = g.type_table.view_entries();
    let gt = group_types(ss, dl, p.functions@).unwrap();
    assert(es.to_set().contains(t));
    assert(gt.contains(t));
    assert(descriptor_of(ss, dl, t) is Some);
    assert(s < ss.len());
    lemma_struct_types_in(ss, dl, s, ss.len() as int);
    let fi = infos_of(ss, dl, field_tys(ss, s)).unwrap();
    assert forall|k: int| 0 <= k < fi.len() implies es.contains(#[trigger] fi[k]) by {
        assert(fi.contains(fi[k]));
        assert(fi.to_set().contains(fi[k]));
        assert(gt.contains(fi[k]));
        assert(es.to_set().contains(fi[k]));
    }
}

/// Two sequences in strictly increasing guid order that hold the same elements are the same
/// sequence.
proof fn lemma_sorted_unique(a: Seq<TypeInfoView>, b: Seq<TypeInfoView>)
    requires
        strictly_sorted_by_guid(a),
        strictly_sorted_by_guid(b),
        a.to_set() == b.to_set(),
    ensures
        a == b,
    decreases a.len(),
{
    if a.len() == 0 {
        if b.len() > 0 {
            assert(b.to_set().contains(b[0]));
        }
        assert(a =~= b);
    } else {
        assert(a.to_set().contains(a[0]));
        assert(b.to_set().contains(a[0]));
        assert(b.len() > 0);
        assert(b.to_set().contains(b[0]));
        assert(a.to_set().contains(b[0]));
        let ka = choose|k: int| 0 <= k < a.len() && a[k] == b[0];
        let kb = choose|k: int| 0 <= k < b.len() && b[k] == a[0];
        if ka > 0 {
            assert(info_key(a[0]) < info_key(a[ka]));
        }
        if kb > 0 {
            assert(info_key(b[0]) < info_key(b[kb]));
        }
        assert(a[0] == b[0]);
        let a1 = a.drop_first();
        let b1 = b.drop_first();
        assert forall|x| a1.to_set().contains(x) implies b1.to_set().contains(x) by {
            let k = choose|k: int| 0 <= k < a1.len() && a1[k] == x;
            assert(a[k + 1] == x);
            assert(x != a[0]);
            assert(b.to_set().contains(x));
            let m = choose|m: int| 0 <= m < b.len() && b[m] == x;
            assert(m != 0);
            assert(b1[m - 1] == x);
        }
        assert forall|x| b1.to_set().contains(x) implies a1.to_set().contains(x) by {
            let k = choose|k: int| 0 <= k < b1.len() && b1[k] == x;
            assert(b[k + 1] == x);
            assert(x != b[0]);
            assert(a.to_set().contains(x));
            let m = choose|m: int| 0 <= m < a.len() && a[m] == x;
            assert(m != 0);
            assert(a1[m - 1] == x);
        }
        assert(a1.to_set() =~= b1.to_set());
        lemma_sorted_unique(a1, b1);
        assert(a =~= seq![a[0]] + a1);
        assert(b =~= seq![b[0]] + b1);
    }
}

/// Generating a group twice from the same program gives the same dispatch table (entries and
/// slot initializers) and the same type table (entries and descriptors).
pub proof fn lemma_group_deterministic(p: Program, dl: TargetDataLayout, g1: FileGroupIR, g2: FileGroupIR)
    requires
        group_result(p, dl, g1),
        group_result(p, dl, g2),
    ensures
        g1.dispatch_table.view_entries() == g2.dispatch_table.view_entries(),
        g1.dispatch_table.initializers() == g2.dispatch_table.initializers(),
        g1.type_table.view_entries() == g2.type_table.view_entries(),
        g1.type_table.view_descriptors() == g2.type_table.view_descriptors(),
{
    lemma_sorted_unique(g1.type_table.view_entries(), g2.type_table.view_entries());
}

proof fn lemma_register_prefix(seen: Seq<usize>, calls: Seq<usize>)
    ensures
        register(seen, calls).len() >= seen.len(),
        forall|i: int| 0 <= i < seen.len() ==> register(seen, calls)[i] == seen[i],
        forall|x: usize| #[trigger]
            register(seen, calls).contains(x) ==> seen.contains(x) || calls.contains(x),
    decreases calls.len(),
{
    if calls.len() > 0 {
        lemma_register_prefix(seen, calls.drop_last());
        let prev = register(seen, calls.drop_last());
        assert forall|x: usize| #[trigger] register(seen, calls).contains(x) implies seen.contains(x)
            || calls.contains(x) by {
            if prev.contains(x) {
                if calls.drop_last().contains(x) {
                    let k = choose|k: int| 0 <= k < calls.drop_last().len() && calls.drop_last()[k] == x;
                    assert(calls[k] == x);
                }
            } else {
                assert(x == calls.last());
                assert(calls[calls.len() - 1] == x);
            }
        }
    }
}

proof fn lemma_group_fns_same_prefix(fs: Seq<FunctionDef>, fs2: Seq<FunctionDef>, n: int)
    requires
        0 <= n <= fs.len(),
        n <= fs2.len(),
        forall|k: int| 0 <= k < n ==> fs2[k] == fs[k],
    ensures
        group_fns(fs2, n) == group_fns(fs, n),
    decreases n,
{
    if n > 0 {
        lemma_group_fns_same_prefix(fs, fs2, n - 1);
    }
}

proof fn lemma_group_fns_bound(fs: Seq<FunctionDef>, n: int, bound: int)
    requires
        0 <= n <= fs.len(),
        forall|h: int, c: usize|
            0 <= h < n && #[trigger] fn_calls(fs[h]).contains(c) ==> c < bound,
    ensures
        forall|x: usize| #[trigger] group_fns(fs, n).contains(x) ==> x < bound,
    decreases n,
{
    if n > 0 {
        lemma_group_fns_bound(fs, n - 1, bound);
        if scanned(fs[n - 1]) {
            lemma_register_prefix(group_fns(fs, n - 1), fn_calls(fs[n - 1]));
            assert forall|x: usize| #[trigger] group_fns(fs, n).contains(x) implies x < bound by {
                assert(register(group_fns(fs, n - 1), fn_calls(fs[n - 1])).contains(x));
                if group_fns(fs, n - 1).contains(x) {
                } else {
                    assert(fn_calls(fs[n - 1]).contains(x));
                }
            }
        } else {
            assert(group_fns(fs, n) == group_fns(fs, n - 1));
        }
    }
}

/// Adding a function to the end of a file keeps the slot of every function already in the
/// dispatch table, provided no existing body calls the new function (all calls of existing
/// bodies name existing functions) and the file's intrinsics stay the same.
pub proof fn lemma_dispatch_slot_stability(
    ss: Seq<StructDef>,
    dl: TargetDataLayout,
    fs: Seq<FunctionDef>,
    g: FunctionDef,
)
    requires
        forall|h: int, c: usize|
            0 <= h < fs.len() && #[trigger] fn_calls(fs[h]).contains(c) ==> c < fs.len(),
        group_intrinsics(ss, fs.push(g), dl) == group_intrinsics(ss, fs, dl),
    ensures
        group_dispatch_entries(ss, dl, fs).len() <= group_dispatch_entries(ss, dl, fs.push(g)).len(),
        forall|i: int|
            0 <= i < group_dispatch_entries(ss, dl, fs).len() ==> #[trigger] group_dispatch_entries(
                ss,
                dl,
                fs.push(g),
            )[i] == group_dispatch_entries(ss, dl, fs)[i],
{
    let fs2 = fs.push(g);
    let n = fs.len() as int;
    let intr = group_intrinsics(ss, fs, dl);
    lemma_group_fns_same_prefix(fs, fs2, n);
    let old_fns = group_fns(fs, n);
    let new_fns = group_fns(fs2, n + 1);
    if scanned(fs2[n]) {
        lemma_register_prefix(old_fns, fn_calls(g));
    }
    assert(new_fns.len() >= old_fns.len());
    assert(forall|i: int| 0 <= i < old_fns.len() ==> new_fns[i] == old_fns[i]);
    lemma_group_fns_bound(fs, n, n);
    let e1 = group_dispatch_entries(ss, dl, fs);
    let e2 = group_dispatch_entries(ss, dl, fs2);
    assert forall|i: int| 0 <= i < e1.len() implies #[trigger] e2[i] == e1[i] by {
        if i >= intr.len() {
            let h = old_fns[i - intr.len()];
            assert(old_fns.contains(h));
            assert(h < n);
            assert(fs2[h as int] == fs[h as int]);
        }
    }
}

} // verus!
