use mun_codegen::abi_types::gen_abi_types;
use mun_codegen::code_gen::{assembly_output_path, CodeGenerationError};
use mun_codegen::context::{CodeGenParams, CodegenContext, OptimizationLevel, Target};
use mun_codegen::dispatch_table::{intrinsic_new, SlotInit};
use mun_codegen::file::file_ir;
use mun_codegen::file_group::group_ir;
use mun_codegen::layout::{align_to, layout_struct, Layout, TargetDataLayout};
use mun_codegen::program::{
    Body, Callee, Expr, ExprKind, FloatBitness, FunctionDef, IntBitness, MemoryKind, Program,
    Signedness, StructDef, StructField, Ty, Visibility,
};
use mun_codegen::ty::{struct_layout, type_info, TypeGroup};
use mun_codegen::type_manager::{NativeType, TypeManager};
use mun_codegen::type_table::type_info_global_name;

fn x86_64() -> TargetDataLayout {
    TargetDataLayout {
        pointer_bytes: 8,
        pointer_align: 8,
        i16_align: 2,
        i32_align: 4,
        i64_align: 8,
        i128_align: 16,
        f32_align: 4,
        f64_align: 8,
    }
}

fn i686() -> TargetDataLayout {
    TargetDataLayout {
        pointer_bytes: 4,
        pointer_align: 4,
        i16_align: 2,
        i32_align: 4,
        i64_align: 4,
        i128_align: 4,
        f32_align: 4,
        f64_align: 4,
    }
}

fn i32_ty() -> Ty {
    Ty::Int(Signedness::Signed, IntBitness::X32)
}

fn f64_ty() -> Ty {
    Ty::Float(FloatBitness::X64)
}

fn leaf(kind: ExprKind) -> Expr {
    Expr { kind, children: vec![] }
}

/// A body whose root has the given expressions as children, in order.
fn body_of(kinds: Vec<ExprKind>) -> Body {
    let mut exprs: Vec<Expr> = kinds.into_iter().map(leaf).collect();
    let children: Vec<usize> = (0..exprs.len()).collect();
    exprs.push(Expr { kind: ExprKind::Other, children });
    let root = exprs.len() - 1;
    Body { exprs, root }
}

fn function(name: &str, visibility: Visibility, params: Vec<Ty>, ret: Ty, body: Body) -> FunctionDef {
    FunctionDef { name: name.to_string(), visibility, is_extern: false, params, ret, body }
}

fn field(name: &str, ty: Ty) -> StructField {
    StructField { name: name.to_string(), ty }
}

fn bar_struct(m: Ty) -> StructDef {
    StructDef { name: "Bar".to_string(), memory_kind: MemoryKind::GC, fields: vec![field("m", m)] }
}

fn target(dl: TargetDataLayout) -> Target {
    Target {
        llvm_target: "x86_64-unknown-linux-gnu".to_string(),
        cpu: "generic".to_string(),
        features: String::new(),
        data_layout: dl,
    }
}

fn call(f: usize) -> ExprKind {
    ExprKind::Call(Callee::Function(f))
}

fn slot_functions(p: &Program) -> Vec<Option<usize>> {
    let g = group_ir(p, &x86_64()).unwrap();
    g.dispatch_table.entries().iter().map(|e| e.hir).collect()
}

#[test]
fn align_to_rounds_up() {
    assert_eq!(align_to(5, 4), 8);
    assert_eq!(align_to(8, 4), 8);
    assert_eq!(align_to(0, 16), 0);
    assert_eq!(align_to(1, 1), 1);
}

#[test]
fn struct_layout_pads_fields() {
    let fields = vec![
        Layout { size: 1, align: 1 },
        Layout { size: 4, align: 4 },
        Layout { size: 8, align: 8 },
        Layout { size: 2, align: 2 },
    ];
    let sl = layout_struct(&fields).unwrap();
    assert_eq!(sl.offsets, vec![0, 4, 8, 16]);
    assert_eq!(sl.layout, Layout { size: 24, align: 8 });
}

#[test]
fn empty_struct_layout() {
    let sl = layout_struct(&vec![]).unwrap();
    assert!(sl.offsets.is_empty());
    assert_eq!(sl.layout, Layout { size: 0, align: 1 });
}

#[test]
fn oversized_struct_is_rejected() {
    let big = Layout { size: 0x1000_0000, align: 1 };
    assert!(layout_struct(&vec![big]).is_some());
    assert!(layout_struct(&vec![big, Layout { size: 1, align: 1 }]).is_none());
}

#[test]
fn fundamental_type_info() {
    let p = Program { structs: vec![], functions: vec![] };
    let ti = type_info(&p, &x86_64(), i32_ty()).unwrap();
    assert_eq!(ti.name, "core::i32");
    assert_eq!(ti.size.bit_size, 32);
    assert_eq!(ti.size.alignment, 4);
    assert_eq!(ti.group, TypeGroup::FundamentalTypes);
    assert_eq!(ti.guid, [23, 121, 122, 116, 25, 214, 50, 23, 210, 53, 149, 67, 23, 136, 91, 250]);
    assert!(type_info(&p, &x86_64(), Ty::Empty).is_none());
}

#[test]
fn pointer_sized_int_follows_target() {
    let p = Program { structs: vec![], functions: vec![] };
    let usize_ty = Ty::Int(Signedness::Signed, IntBitness::Xsize);
    let on64 = type_info(&p, &x86_64(), usize_ty).unwrap();
    assert_eq!(on64.name, "core::i64");
    assert_eq!(on64.size.bit_size, 64);
    assert_eq!(on64.guid, [71, 19, 59, 116, 151, 106, 56, 24, 215, 77, 131, 96, 29, 200, 25, 37]);
    let on32 = type_info(&p, &i686(), usize_ty).unwrap();
    assert_eq!(on32.name, "core::i32");
    assert_eq!(on32.size.bit_size, 32);
}

#[test]
fn struct_type_info_and_layout() {
    let value = StructDef {
        name: "Pair".to_string(),
        memory_kind: MemoryKind::Value,
        fields: vec![field("a", Ty::Bool), field("b", f64_ty())],
    };
    let holder = StructDef {
        name: "Holder".to_string(),
        memory_kind: MemoryKind::GC,
        fields: vec![field("p", Ty::Struct(0)), field("n", Ty::Int(Signedness::Unsigned, IntBitness::X16))],
    };
    let p = Program { structs: vec![value, holder], functions: vec![] };
    let dl = x86_64();
    let pair = struct_layout(&p, &dl, 0, 2).unwrap();
    assert_eq!(pair.offsets, vec![0, 8]);
    assert_eq!(pair.layout, Layout { size: 16, align: 8 });
    let holder_layout = struct_layout(&p, &dl, 1, 2).unwrap();
    assert_eq!(holder_layout.offsets, vec![0, 16]);
    assert_eq!(holder_layout.layout, Layout { size: 24, align: 8 });
    let ti = type_info(&p, &dl, Ty::Struct(1)).unwrap();
    assert_eq!(ti.name, "Holder");
    assert_eq!(ti.size.bit_size, 192);
    assert_eq!(ti.group, TypeGroup::StructTypes(1));
}

#[test]
fn self_containing_value_struct_has_no_layout() {
    let looped = StructDef {
        name: "Loop".to_string(),
        memory_kind: MemoryKind::Value,
        fields: vec![field("next", Ty::Struct(0))],
    };
    let p = Program { structs: vec![looped], functions: vec![] };
    assert!(type_info(&p, &x86_64(), Ty::Struct(0)).is_none());
}

#[test]
fn self_referencing_gc_struct_has_a_layout() {
    let node = StructDef {
        name: "Node".to_string(),
        memory_kind: MemoryKind::GC,
        fields: vec![field("value", i32_ty()), field("next", Ty::Struct(0))],
    };
    let p = Program { structs: vec![node], functions: vec![] };
    let sl = struct_layout(&p, &x86_64(), 0, 1).unwrap();
    assert_eq!(sl.offsets, vec![0, 8]);
    assert_eq!(sl.layout, Layout { size: 16, align: 8 });
}

#[test]
fn struct_cache_keeps_handle_for_unchanged_fields() {
    let p = Program { structs: vec![bar_struct(f64_ty())], functions: vec![] };
    let mut tm = TypeManager::new();
    let first = tm.struct_ty(&p, 0);
    let second = tm.struct_ty(&p, 0);
    assert_eq!(first, second);
    let changed = Program { structs: vec![bar_struct(i32_ty())], functions: vec![] };
    let third = tm.struct_ty(&changed, 0);
    assert_ne!(third, first);
    let old_native = tm.native_struct(first).unwrap();
    let new_native = tm.native_struct(third).unwrap();
    assert_eq!(old_native.name, "Bar");
    assert_eq!(new_native.name, "Bar");
    assert_eq!(old_native.fields, vec![f64_ty()]);
    assert_eq!(new_native.fields, vec![i32_ty()]);
    assert_eq!(tm.struct_ty(&changed, 0), third);
}

#[test]
fn type_ir_marshals_value_structs() {
    let value = StructDef { name: "V".to_string(), memory_kind: MemoryKind::Value, fields: vec![] };
    let gc = StructDef { name: "G".to_string(), memory_kind: MemoryKind::GC, fields: vec![] };
    let p = Program { structs: vec![value, gc], functions: vec![] };
    let dl = x86_64();
    let mut tm = TypeManager::new();
    let v = tm.struct_ty(&p, 0);
    let g = tm.struct_ty(&p, 1);
    assert_eq!(tm.type_ir(&p, &dl, Ty::Struct(0), false), NativeType::Struct(v));
    assert_eq!(tm.type_ir(&p, &dl, Ty::Struct(0), true), NativeType::HandleRef(v));
    assert_eq!(tm.type_ir(&p, &dl, Ty::Struct(1), false), NativeType::HandleRef(g));
    assert_eq!(tm.type_ir(&p, &dl, Ty::Bool, false), NativeType::Int(1));
    assert_eq!(tm.type_ir(&p, &dl, Ty::Int(Signedness::Unsigned, IntBitness::Xsize), false), NativeType::Int(64));
    assert_eq!(tm.type_ir(&p, &dl, f64_ty(), false), NativeType::Float(64));
    assert_eq!(tm.type_ir(&p, &dl, Ty::Empty, false), NativeType::EmptyStruct);
}

#[test]
fn dispatch_slots_follow_first_discovery() {
    // main calls bar, then foo, then bar again; foo calls baz.
    let main = function("main", Visibility::Public, vec![], Ty::Empty, body_of(vec![call(2), call(1), call(2)]));
    let foo = function("foo", Visibility::Public, vec![i32_ty()], i32_ty(), body_of(vec![call(3)]));
    let bar = function("bar", Visibility::Private, vec![], Ty::Empty, body_of(vec![]));
    let baz = function("baz", Visibility::Private, vec![], Ty::Empty, body_of(vec![]));
    let p = Program { structs: vec![], functions: vec![main, foo, bar, baz] };
    assert_eq!(slot_functions(&p), vec![Some(2), Some(1), Some(3)]);
    let g = group_ir(&p, &x86_64()).unwrap();
    assert!(g.dispatch_table.has_global());
    assert_eq!(g.dispatch_table.gen_function_lookup(1), 1);
    assert!(g.dispatch_table.contains(3));
    assert!(!g.dispatch_table.contains(0));
    let foo_entry = &g.dispatch_table.entries()[1];
    assert_eq!(foo_entry.prototype.name, "foo");
    assert_eq!(foo_entry.prototype.arg_types.len(), 1);
    assert_eq!(foo_entry.prototype.arg_types[0].name, "core::i32");
    assert_eq!(foo_entry.prototype.ret_type.as_ref().unwrap().name, "core::i32");
}

#[test]
fn private_bodies_are_scanned() {
    // main calls helper, which is private and calls leaf, also private.
    let main = function("main", Visibility::Public, vec![], Ty::Empty, body_of(vec![call(1)]));
    let helper = function("helper", Visibility::Private, vec![], Ty::Empty, body_of(vec![call(2)]));
    let leaf = function("leaf", Visibility::Private, vec![], Ty::Empty, body_of(vec![]));
    let p = Program { structs: vec![], functions: vec![main, helper, leaf] };
    let g = group_ir(&p, &x86_64()).unwrap();
    assert!(g.dispatch_table.contains(2));
    assert_eq!(slot_functions(&p), vec![Some(1), Some(2)]);
}

#[test]
fn call_only_from_private_function_gets_a_slot() {
    let a = function("a", Visibility::Private, vec![], Ty::Empty, body_of(vec![call(1)]));
    let b = function("b", Visibility::Private, vec![], Ty::Empty, body_of(vec![]));
    let p = Program { structs: vec![], functions: vec![a, b] };
    let g = group_ir(&p, &x86_64()).unwrap();
    assert!(g.dispatch_table.contains(1));
    assert_eq!(g.dispatch_table.gen_function_lookup(1), 0);
    assert!(g.dispatch_table.has_global());
}

#[test]
fn each_function_has_one_slot() {
    let main = function("main", Visibility::Public, vec![], Ty::Empty, body_of(vec![call(1), call(1), call(2)]));
    let f = function("f", Visibility::Private, vec![], Ty::Empty, body_of(vec![call(1), call(2)]));
    let g_fn = function("g", Visibility::Private, vec![], Ty::Empty, body_of(vec![call(1)]));
    let p = Program { structs: vec![], functions: vec![main, f, g_fn] };
    assert_eq!(slot_functions(&p), vec![Some(1), Some(2)]);
}

#[test]
fn same_named_types_fail_the_group() {
    let a = StructDef { name: "Dup".to_string(), memory_kind: MemoryKind::GC, fields: vec![field("x", i32_ty())] };
    let b = StructDef { name: "Dup".to_string(), memory_kind: MemoryKind::GC, fields: vec![field("y", f64_ty())] };
    let p = Program { structs: vec![a, b], functions: vec![] };
    assert_eq!(group_ir(&p, &x86_64()).err(), Some(CodeGenerationError::UnsupportedType));
}

#[test]
fn descriptor_globals_have_distinct_names() {
    let s = StructDef { name: "S".to_string(), memory_kind: MemoryKind::Value, fields: vec![field("a", i32_ty()), field("b", Ty::Bool)] };
    let f = function("f", Visibility::Public, vec![Ty::Struct(0)], f64_ty(), body_of(vec![]));
    let p = Program { structs: vec![s], functions: vec![f] };
    let g = group_ir(&p, &x86_64()).unwrap();
    let mut names: Vec<String> = g.type_table.descriptors().iter().map(|d| d.global_name.clone()).collect();
    let n = names.len();
    names.sort();
    names.dedup();
    assert_eq!(names.len(), n);
    assert_eq!(n, 7);
}

#[test]
fn extern_slots_start_null() {
    let mut ext = function("ext", Visibility::Public, vec![], i32_ty(), body_of(vec![]));
    ext.is_extern = true;
    let main = function("main", Visibility::Public, vec![], i32_ty(), body_of(vec![call(0), call(2)]));
    let local = function("local", Visibility::Private, vec![], Ty::Empty, body_of(vec![]));
    let p = Program { structs: vec![], functions: vec![ext, main, local] };
    let g = group_ir(&p, &x86_64()).unwrap();
    assert_eq!(g.dispatch_table.slot_initializers(), &vec![SlotInit::Null, SlotInit::Function(2)]);
}

#[test]
fn allocation_seeds_intrinsic_first() {
    let s = StructDef { name: "Foo".to_string(), memory_kind: MemoryKind::GC, fields: vec![field("a", i32_ty())] };
    let main = function(
        "main",
        Visibility::Public,
        vec![],
        Ty::Empty,
        body_of(vec![call(1), ExprKind::RecordLit(0)]),
    );
    let other = function("other", Visibility::Private, vec![], Ty::Empty, body_of(vec![]));
    let p = Program { structs: vec![s], functions: vec![main, other] };
    let dl = x86_64();
    let g = group_ir(&p, &dl).unwrap();
    assert!(g.allocator_handle);
    let entries = g.dispatch_table.entries();
    assert_eq!(entries.len(), 2);
    assert_eq!(entries[0].hir, None);
    assert_eq!(entries[0].prototype.name, "new");
    assert_eq!(entries[1].hir, Some(1));
    let new_proto = intrinsic_new(&dl);
    assert_eq!(g.dispatch_table.gen_intrinsic_lookup(&new_proto), 0);
    assert_eq!(g.dispatch_table.slot_initializers(), &vec![SlotInit::Null, SlotInit::Function(1)]);
    let names: Vec<String> = g.type_table.entries().iter().map(|t| t.name.clone()).collect();
    assert!(names.contains(&"*const TypeInfo".to_string()));
    assert!(names.contains(&"*mut core::void".to_string()));
    assert!(names.contains(&"*const *mut core::void".to_string()));
}

#[test]
fn unused_function_keeps_slots() {
    let main = function("main", Visibility::Public, vec![], Ty::Empty, body_of(vec![call(2), call(1)]));
    let a = function("a", Visibility::Private, vec![], Ty::Empty, body_of(vec![]));
    let b = function("b", Visibility::Private, vec![], Ty::Empty, body_of(vec![]));
    let p = Program { structs: vec![], functions: vec![main.clone(), a.clone(), b.clone()] };
    let before = slot_functions(&p);
    let unused = function("unused", Visibility::Public, vec![], Ty::Empty, body_of(vec![call(1)]));
    let p2 = Program { structs: vec![], functions: vec![main, a, b, unused] };
    let after = slot_functions(&p2);
    assert_eq!(before, vec![Some(2), Some(1)]);
    assert_eq!(&after[..before.len()], &before[..]);
}

#[test]
fn building_twice_gives_identical_tables() {
    let s = StructDef { name: "Foo".to_string(), memory_kind: MemoryKind::Value, fields: vec![field("x", f64_ty())] };
    let main = function("main", Visibility::Public, vec![Ty::Struct(0)], i32_ty(), body_of(vec![call(1)]));
    let helper = function("helper", Visibility::Private, vec![], Ty::Bool, body_of(vec![]));
    let p = Program { structs: vec![s], functions: vec![main, helper] };
    let dl = x86_64();
    let g1 = group_ir(&p, &dl).unwrap();
    let g2 = group_ir(&p, &dl).unwrap();
    let h1: Vec<Option<usize>> = g1.dispatch_table.entries().iter().map(|e| e.hir).collect();
    let h2: Vec<Option<usize>> = g2.dispatch_table.entries().iter().map(|e| e.hir).collect();
    assert_eq!(h1, h2);
    assert_eq!(g1.dispatch_table.slot_initializers(), g2.dispatch_table.slot_initializers());
    let n1: Vec<String> = g1.type_table.descriptors().iter().map(|d| d.global_name.clone()).collect();
    let n2: Vec<String> = g2.type_table.descriptors().iter().map(|d| d.global_name.clone()).collect();
    assert_eq!(n1, n2);
}

#[test]
fn type_table_is_sorted_and_deduplicated() {
    let inner = StructDef { name: "Inner".to_string(), memory_kind: MemoryKind::GC, fields: vec![field("v", i32_ty())] };
    let outer = StructDef {
        name: "Outer".to_string(),
        memory_kind: MemoryKind::GC,
        fields: vec![field("inner", Ty::Struct(0)), field("w", i32_ty())],
    };
    let f = function("take", Visibility::Public, vec![Ty::Struct(0), i32_ty()], i32_ty(), body_of(vec![]));
    let p = Program { structs: vec![inner, outer], functions: vec![f] };
    let g = group_ir(&p, &x86_64()).unwrap();
    let names: Vec<String> = g.type_table.entries().iter().map(|t| t.name.clone()).collect();
    assert_eq!(names.iter().filter(|n| n.as_str() == "Inner").count(), 1);
    assert_eq!(names.iter().filter(|n| n.as_str() == "core::i32").count(), 1);
    assert_eq!(g.type_table.num_types(), 3);
    let guids: Vec<[u8; 16]> = g.type_table.entries().iter().map(|t| t.guid).collect();
    let mut sorted = guids.clone();
    sorted.sort();
    assert_eq!(guids, sorted);
    let inner_info = type_info(&p, &x86_64(), Ty::Struct(0)).unwrap();
    let index = g.type_table.gen_type_info_lookup(&inner_info);
    assert_eq!(g.type_table.entries()[index].name, "Inner");
}

#[test]
fn struct_descriptor_records_offsets() {
    let s = StructDef {
        name: "Mixed".to_string(),
        memory_kind: MemoryKind::Value,
        fields: vec![field("a", Ty::Int(Signedness::Unsigned, IntBitness::X8)), field("b", f64_ty()), field("c", i32_ty())],
    };
    let p = Program { structs: vec![s], functions: vec![] };
    let dl = x86_64();
    let g = group_ir(&p, &dl).unwrap();
    let d = g.type_table.descriptors().iter().find(|d| d.name == "Mixed").unwrap();
    assert_eq!(d.global_name, "type_info::<Mixed>");
    assert_eq!(d.size_in_bits, 192);
    assert_eq!(d.alignment, 8);
    assert_eq!(d.group, 1);
    let si = d.struct_info.as_ref().unwrap();
    assert_eq!(si.field_names, vec!["a".to_string(), "b".to_string(), "c".to_string()]);
    assert_eq!(si.field_types, vec![
        "type_info::<core::u8>".to_string(),
        "type_info::<core::f64>".to_string(),
        "type_info::<core::i32>".to_string(),
    ]);
    let layout = struct_layout(&p, &dl, 0, 1).unwrap();
    let expected: Vec<u16> = layout.offsets.iter().map(|o| *o as u16).collect();
    assert_eq!(si.field_offsets, expected);
    assert_eq!(si.field_offsets, vec![0, 8, 16]);
    assert_eq!(si.num_fields, 3);
    assert_eq!(si.memory_kind, 1);
    let fundamental = g.type_table.descriptors().iter().find(|d| d.name == "core::f64").unwrap();
    assert_eq!(fundamental.group, 0);
    assert!(fundamental.struct_info.is_none());
}

#[test]
fn wrapper_only_for_value_struct_signatures() {
    let v = StructDef { name: "V".to_string(), memory_kind: MemoryKind::Value, fields: vec![field("x", i32_ty())] };
    let g_struct = StructDef { name: "G".to_string(), memory_kind: MemoryKind::GC, fields: vec![field("x", i32_ty())] };
    let takes_value = function("takes_value", Visibility::Public, vec![Ty::Struct(0)], Ty::Empty, body_of(vec![]));
    let returns_value = function("returns_value", Visibility::Public, vec![], Ty::Struct(0), body_of(vec![]));
    let fundamental = function("fundamental", Visibility::Public, vec![i32_ty()], f64_ty(), body_of(vec![]));
    let takes_gc = function("takes_gc", Visibility::Public, vec![Ty::Struct(1)], Ty::Empty, body_of(vec![]));
    let private_value = function("private_value", Visibility::Private, vec![Ty::Struct(0)], Ty::Empty, body_of(vec![]));
    let p = Program {
        structs: vec![v, g_struct],
        functions: vec![takes_value, returns_value, fundamental, takes_gc, private_value],
    };
    let dl = x86_64();
    let group = group_ir(&p, &dl).unwrap();
    let mut tm = TypeManager::new();
    let ir = file_ir(&mut tm, &p, &dl, &group);
    let wrapped: Vec<usize> = ir.wrappers.iter().map(|w| w.function).collect();
    assert_eq!(wrapped, vec![0, 1]);
    assert_eq!(ir.wrappers[0].name, "takes_value_wrapper");
    assert!(ir.wrappers[0].is_wrapper);
    assert!(matches!(ir.wrappers[0].params[0], NativeType::HandleRef(_)));
    assert!(matches!(ir.signatures[0].params[0], NativeType::Struct(_)));
    assert_eq!(ir.signatures.len(), 5);
    assert_eq!(ir.api, vec![0, 1, 2, 3]);
    assert!(group.allocator_handle);
}

#[test]
fn scenario_single_main_returning_five() {
    // pub fn main() -> i32 { 5 }
    let main = function("main", Visibility::Public, vec![], i32_ty(), body_of(vec![ExprKind::Other]));
    let p = Program { structs: vec![], functions: vec![main] };
    let mut ctx = CodegenContext::new(p, target(x86_64())).unwrap();
    let group = ctx.group_ir().unwrap();
    assert!(group.dispatch_table.entries().is_empty());
    assert!(!group.allocator_handle);
    let names: Vec<String> = group.type_table.entries().iter().map(|t| t.name.clone()).collect();
    assert_eq!(names, vec!["core::i32".to_string()]);
    let ir = ctx.file_ir(&group);
    assert_eq!(ir.signatures.len(), 1);
    assert_eq!(ir.signatures[0].name, "main");
    assert_eq!(ir.signatures[0].ret, Some(NativeType::Int(32)));
    assert!(ir.wrappers.is_empty());
    assert_eq!(ir.api, vec![0]);
    assert!(!ir.globals.dispatch_table);
    assert!(ir.globals.type_table);
    assert!(!ir.globals.alloc_handle);
    assert_eq!(assembly_output_path("main.mun", None), Some("main.munlib".to_string()));
}

#[test]
fn scenario_struct_field_type_change() {
    let make = |m: Ty, value: ExprKind| Program {
        structs: vec![bar_struct(m)],
        functions: vec![function("main", Visibility::Public, vec![], i32_ty(), body_of(vec![value]))],
    };
    let mut ctx = CodegenContext::new(make(f64_ty(), ExprKind::Other), target(x86_64())).unwrap();
    let handle_before = ctx.struct_ty(0);
    let group = ctx.group_ir().unwrap();
    let d = group.type_table.descriptors().iter().find(|d| d.name == "Bar").unwrap();
    assert_eq!(d.size_in_bits, 64);
    assert_eq!(d.struct_info.as_ref().unwrap().field_types, vec!["type_info::<core::f64>".to_string()]);
    ctx.set_hir_db(make(i32_ty(), ExprKind::Other)).unwrap();
    let handle_after = ctx.struct_ty(0);
    assert_ne!(handle_before, handle_after);
    let group = ctx.group_ir().unwrap();
    let d = group.type_table.descriptors().iter().find(|d| d.name == "Bar").unwrap();
    assert_eq!(d.size_in_bits, 32);
    assert_eq!(d.alignment, 4);
    let si = d.struct_info.as_ref().unwrap();
    assert_eq!(si.field_types, vec!["type_info::<core::i32>".to_string()]);
    assert_eq!(si.field_offsets, vec![0]);
    assert_eq!(ctx.struct_ty(0), handle_after);
}

#[test]
fn context_rejects_bad_configuration() {
    let p = Program { structs: vec![], functions: vec![] };
    let mut dl = x86_64();
    dl.pointer_bytes = 2;
    assert_eq!(CodegenContext::new(p.clone(), target(dl)).err(), Some(CodeGenerationError::UnsupportedTarget));
    let bad = Program {
        structs: vec![],
        functions: vec![function("f", Visibility::Public, vec![Ty::Struct(3)], Ty::Empty, body_of(vec![]))],
    };
    assert_eq!(CodegenContext::new(bad, target(x86_64())).err(), Some(CodeGenerationError::InvalidProgram));
    let bad_call = Program {
        structs: vec![],
        functions: vec![function("f", Visibility::Public, vec![], Ty::Empty, body_of(vec![call(7)]))],
    };
    assert!(!bad_call.check_wf());
    let mut ctx = CodegenContext::new(p, target(x86_64())).unwrap();
    assert_eq!(ctx.optimization_lvl(), OptimizationLevel::Off);
    ctx.set_optimization_lvl(OptimizationLevel::Aggressive);
    assert_eq!(ctx.optimization_lvl(), OptimizationLevel::Aggressive);
    assert_eq!(ctx.set_hir_db(bad_call), Err(CodeGenerationError::InvalidProgram));
    assert_eq!(ctx.target_data_layout(), x86_64());
}

#[test]
fn unsupported_type_fails_the_group() {
    let looped = StructDef { name: "Loop".to_string(), memory_kind: MemoryKind::Value, fields: vec![field("next", Ty::Struct(0))] };
    let p = Program { structs: vec![looped], functions: vec![] };
    assert_eq!(group_ir(&p, &x86_64()).err(), Some(CodeGenerationError::UnsupportedType));
}

#[test]
fn context_type_queries() {
    let p = Program { structs: vec![bar_struct(f64_ty())], functions: vec![] };
    let mut ctx = CodegenContext::new(p, target(x86_64())).unwrap();
    let h = ctx.struct_ty(0);
    assert_eq!(ctx.type_ir(Ty::Struct(0), CodeGenParams { make_marshallable: false }), NativeType::HandleRef(h));
    let ti = ctx.type_info(Ty::Struct(0)).unwrap();
    assert_eq!(ti.name, "Bar");
    assert_eq!(ti.guid, [221, 195, 95, 136, 250, 113, 182, 239, 20, 42, 230, 31, 53, 54, 70, 83]);
    assert_eq!(ctx.hir_db().structs.len(), 1);
    assert_eq!(ctx.target().cpu, "generic");
}

#[test]
fn output_paths() {
    assert_eq!(assembly_output_path("src/main.mun", None), Some("main.munlib".to_string()));
    assert_eq!(assembly_output_path("a/b/lib.tar.mun", Some("out")), Some("out/lib.tar.munlib".to_string()));
    assert_eq!(assembly_output_path("x.mun", Some("out/")), Some("out/x.munlib".to_string()));
    assert_eq!(assembly_output_path(".hidden", Some("")), Some(".hidden.munlib".to_string()));
    assert_eq!(assembly_output_path("noext", None), Some("noext.munlib".to_string()));
    assert_eq!(assembly_output_path("dir/", None), None);
    assert_eq!(assembly_output_path("..", None), None);
}

#[test]
fn global_names() {
    let p = Program { structs: vec![], functions: vec![] };
    let ti = type_info(&p, &x86_64(), i32_ty()).unwrap();
    assert_eq!(type_info_global_name(&ti), "type_info::<core::i32>");
}

#[test]
fn abi_catalog_shapes() {
    let abi = gen_abi_types();
    assert_eq!(abi.guid_len, 16);
    assert_eq!(abi.type_info_type.name, "struct.MunTypeInfo");
    assert_eq!(abi.type_info_type.fields.len(), 5);
    assert_eq!(abi.function_signature_type.fields.len(), 3);
    assert_eq!(abi.struct_info_type.fields.len(), 5);
    assert_eq!(abi.module_info_type.fields.len(), 5);
    assert_eq!(abi.dispatch_table_type.fields.len(), 3);
    assert_eq!(abi.assembly_info_type.fields.len(), 4);
    assert_eq!(abi.assembly_info_type.name, "struct.MunAssemblyInfo");
}
