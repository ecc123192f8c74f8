use vstd::prelude::*;
use crate::layout::{
    all_wf, fields_align, fields_fit, fields_size, layout_struct, Layout, StructLayout,
    TargetDataLayout,
};
use crate::program::{
    field_tys, FloatBitness, IntBitness, MemoryKind, Program, Signedness, StructDef, Ty, ty_wf,
};

verus! {

/// Resolves a pointer-sized bitness to the target's pointer width.
pub open spec fn resolve_bitness(b: IntBitness, dl: TargetDataLayout) -> IntBitness {
    match b {
        IntBitness::Xsize => if dl.pointer_bytes == 4 {
            IntBitness::X32
        } else {
            IntBitness::X64
        },
        _ => b,
    }
}

pub fn resolve_int_bitness(b: IntBitness, dl: &TargetDataLayout) -> (r: IntBitness)
    ensures
        r == resolve_bitness(b, *dl),
{
    match b {
        IntBitness::Xsize => if dl.pointer_bytes == 4 {
            IntBitness::X32
        } else {
            IntBitness::X64
        },
        _ => b,
    }
}

/// The layout of a (resolved) integer of the given width.
pub open spec fn int_layout(b: IntBitness, dl: TargetDataLayout) -> Layout {
    match resolve_bitness(b, dl) {
        IntBitness::X8 => Layout { size: 1, align: 1 },
        IntBitness::X16 => Layout { size: 2, align: dl.i16_align },
        IntBitness::X32 => Layout { size: 4, align: dl.i32_align },
        IntBitness::X64 => Layout { size: 8, align: dl.i64_align },
        _ => Layout { size: 16, align: dl.i128_align },
    }
}

pub open spec fn float_layout(b: FloatBitness, dl: TargetDataLayout) -> Layout {
    match b {
        FloatBitness::X32 => Layout { size: 4, align: dl.f32_align },
        FloatBitness::X64 => Layout { size: 8, align: dl.f64_align },
    }
}

/// The number of struct nestings that layout follows before it gives up; enough for any
/// program whose value structs do not contain themselves, as they nest at most that deep.
pub open spec fn layout_fuel(ss: Seq<StructDef>) -> nat {
    ss.len()
}

/// The native layout of a value of type `t` stored in a field or passed by value. A GC struct is
/// a pointer to a relocatable handle; a value struct is stored inline.
pub open spec fn ty_layout(ss: Seq<StructDef>, dl: TargetDataLayout, t: Ty, fuel: nat) -> Option<Layout>
    decreases fuel, 2nat,
{
    match t {
        Ty::Empty => Some(Layout { size: 0, align: 1 }),
        Ty::Bool => Some(Layout { size: 1, align: 1 }),
        Ty::Int(_, b) => Some(int_layout(b, dl)),
        Ty::Float(b) => Some(float_layout(b, dl)),
        Ty::Struct(s) => if s >= ss.len() {
            None
        } else if ss[s as int].memory_kind == MemoryKind::GC {
            Some(dl.pointer_layout())
        } else {
            struct_inline_layout(ss, dl, s as int, fuel)
        },
    }
}

/// The layouts of a list of types, or `None` if one of them has none.
pub open spec fn tys_layouts(ss: Seq<StructDef>, dl: TargetDataLayout, tys: Seq<Ty>, fuel: nat) -> Option<
    Seq<Layout>,
>
    decreases fuel, tys.len() + 3,
{
    if tys.len() == 0 {
        Some(Seq::empty())
    } else {
        match (tys_layouts(ss, dl, tys.drop_last(), fuel), ty_layout(ss, dl, tys.last(), fuel)) {
            (Some(ls), Some(l)) => Some(ls.push(l)),
            _ => None,
        }
    }
}

/// The layouts of the fields of struct `s`.
pub open spec fn struct_field_layouts(ss: Seq<StructDef>, dl: TargetDataLayout, s: int, fuel: nat) -> Option<
    Seq<Layout>,
>
    decreases fuel, 0nat,
{
    if fuel == 0 || !(0 <= s < ss.len()) {
        None
    } else {
        tys_layouts(ss, dl, field_tys(ss, s), (fuel - 1) as nat)
    }
}

/// The layout of struct `s` itself, with its fields inline.
pub open spec fn struct_inline_layout(ss: Seq<StructDef>, dl: TargetDataLayout, s: int, fuel: nat) -> Option<
    Layout,
>
    decreases fuel, 1nat,
{
    match struct_field_layouts(ss, dl, s, fuel) {
        Some(fs) => if fields_fit(fs) {
            Some(Layout { size: fields_size(fs) as u64, align: fields_align(fs) as u64 })
        } else {
            None
        },
        None => None,
    }
}

proof fn lemma_tys_layouts_prefix(ss: Seq<StructDef>, dl: TargetDataLayout, tys: Seq<Ty>, k: int, fuel: nat)
    requires
        0 <= k <= tys.len(),
        tys_layouts(ss, dl, tys.take(k), fuel) is None,
    ensures
        tys_layouts(ss, dl, tys, fuel) is None,
    decreases tys.len() - k,
{
    if k == tys.len() {
        assert(tys.take(k) =~= tys);
    } else {
        let q = tys.take(k + 1);
        assert(q.drop_last() =~= tys.take(k));
        lemma_tys_layouts_prefix(ss, dl, tys, k + 1, fuel);
    }
}

/// The layout of a value of type `t` (see `ty_layout`).
pub fn type_layout(p: &Program, dl: &TargetDataLayout, t: Ty, fuel: u64) -> (r: Option<Layout>)
    requires
        p.wf(),
        dl.wf(),
        ty_wf(t, p.num_structs()),
    ensures
        r == ty_layout(p.structs@, *dl, t, fuel as nat),
        r matches Some(l) ==> l.wf(),
    decreases fuel, 1nat,
{
    match t {
        Ty::Empty => Some(Layout { size: 0, align: 1 }),
        Ty::Bool => Some(Layout { size: 1, align: 1 }),
        Ty::Int(_, b) => {
            let rb = resolve_int_bitness(b, dl);
            match rb {
                IntBitness::X8 => Some(Layout { size: 1, align: 1 }),
                IntBitness::X16 => Some(Layout { size: 2, align: dl.i16_align }),
                IntBitness::X32 => Some(Layout { size: 4, align: dl.i32_align }),
                IntBitness::X64 => Some(Layout { size: 8, align: dl.i64_align }),
                _ => Some(Layout { size: 16, align: dl.i128_align }),
            }
        },
        Ty::Float(b) => match b {
            FloatBitness::X32 => Some(Layout { size: 4, align: dl.f32_align }),
            FloatBitness::X64 => Some(Layout { size: 8, align: dl.f64_align }),
        },
        Ty::Struct(s) => {
            if p.structs[s].memory_kind == MemoryKind::GC {
                Some(dl.pointer())
            } else {
                match struct_layout(p, dl, s, fuel) {
                    Some(sl) => Some(sl.layout),
                    None => None,
                }
            }
        },
    }
}

/// The native layout of struct `s` with its fields inline: each field's offset, and the
/// struct's size and alignment. `None` when a field has no layout (a value struct that contains
/// itself) or the struct is too large.
pub fn struct_layout(p: &Program, dl: &TargetDataLayout, s: usize, fuel: u64) -> (r: Option<
    StructLayout,
>)
    requires
        p.wf(),
        dl.wf(),
        s < p.num_structs(),
    ensures
        r is Some <==> struct_inline_layout(p.structs@, *dl, s as int, fuel as nat) is Some,
        r matches Some(sl) ==> {
            &&& struct_field_layouts(p.structs@, *dl, s as int, fuel as nat) matches Some(fs)
            &&& sl.describes(fs)
            &&& struct_inline_layout(p.structs@, *dl, s as int, fuel as nat) == Some(sl.layout)
            &&& sl.layout.wf()
        },
    decreases fuel, 0nat,
{
    if fuel == 0 {
        return None;
    }
    let fields = &p.structs[s].fields;
    let ghost tys = p.field_tys(s as int);
    let mut layouts: Vec<Layout> = Vec::new();
    let mut i: usize = 0;
    while i < fields.len()
        invariant
            p.wf(),
            dl.wf(),
            s < p.num_structs(),
            fuel > 0,
            fields == p.structs@[s as int].fields,
            tys == p.field_tys(s as int),
            tys.len() == fields@.len(),
            0 <= i <= fields@.len(),
            tys_layouts(p.structs@, *dl, tys.take(i as int), (fuel - 1) as nat) == Some(layouts@),
            all_wf(layouts@),
        decreases fields@.len() - i,
    {
        let ghost q = tys.take(i + 1);
        proof {
            assert(q.drop_last() =~= tys.take(i as int));
            assert(q.last() == fields@[i as int].ty);
        }
        assert(ty_wf(p.structs@[s as int].fields@[i as int].ty, p.num_structs()));
        match type_layout(p, dl, fields[i].ty, fuel - 1) {
            Some(l) => {
                layouts.push(l);
            },
            None => {
                proof {
                    lemma_tys_layouts_prefix(p.structs@, *dl, tys, i + 1, (fuel - 1) as nat);
                }
                return None;
            },
        }
        i = i + 1;
    }
    assert(tys.take(i as int) =~= tys);
    layout_struct(&layouts)
}

/// The runtime's classification of a type: fundamental, or a struct of the program.
#[derive(Clone, Copy, Debug, PartialEq, Eq, Structural)]
pub enum TypeGroup {
    FundamentalTypes,
    StructTypes(usize),
}

/// Size in bits and alignment in bytes of a type, as the runtime sees it.
#[derive(Clone, Copy, Debug, PartialEq, Eq, Structural)]
pub struct TypeSize {
    pub bit_size: u64,
    pub alignment: u32,
}

/// Runtime type information: a globally unique id derived from the name, the name, the size and
/// the group. Two `TypeInfo`s denote the same type exactly when all of these agree.
#[derive(Clone, Debug)]
pub struct TypeInfo {
    pub guid: [u8; 16],
    pub name: String,
    pub size: TypeSize,
    pub group: TypeGroup,
}

pub ghost struct TypeInfoView {
    pub guid: Seq<u8>,
    pub name: Seq<char>,
    pub size: TypeSize,
    pub group: TypeGroup,
}

impl View for TypeInfo {
    type V = TypeInfoView;

    open spec fn view(&self) -> TypeInfoView {
        TypeInfoView { guid: self.guid@, name: self.name@, size: self.size, group: self.group }
    }
}

/// The MD5 digest of the UTF-8 encoding of a string.
pub uninterp spec fn md5_digest(data: Seq<char>) -> Seq<u8>;

/// Relies on md5::compute: the 16-byte digest of the name's bytes, which depends on the name
/// alone.
#[verifier::external_body]
fn name_guid(name: &str) -> (r: [u8; 16])
    ensures
        r@ == md5_digest(name@),
{
    md5::compute(name.as_bytes()).0
}

impl TypeInfo {
    /// The type information of a type named `name`: its id is the digest of the name.
    pub fn new(name: String, size: TypeSize, group: TypeGroup) -> (r: TypeInfo)
        ensures
            r@ == (TypeInfoView { guid: md5_digest(name@), name: name@, size, group }),
    {
        let guid = name_guid(name.as_str());
        TypeInfo { guid, name, size, group }
    }

    /// A copy with the same view.
    pub fn duplicate(&self) -> (r: TypeInfo)
        ensures
            r@ == self@,
    {
        TypeInfo { guid: self.guid, name: self.name.clone(), size: self.size, group: self.group }
    }

    /// Whether two type infos denote the same type.
    pub fn same(&self, other: &TypeInfo) -> (r: bool)
        ensures
            r == (self@ == other@),
    {
        let mut i: usize = 0;
        while i < 16
            invariant
                0 <= i <= 16,
                forall|j: int| 0 <= j < i ==> self.guid@[j] == other.guid@[j],
            decreases 16 - i,
        {
            if self.guid[i] != other.guid[i] {
                return false;
            }
            i = i + 1;
        }
        assert(self.guid@ =~= other.guid@);
        self.name == other.name && self.size == other.size && self.group == other.group
    }
}

/// The name the runtime knows a fundamental type by.
pub open spec fn int_name(sign: Signedness, b: IntBitness) -> Seq<char> {
    match (sign, b) {
        (Signedness::Signed, IntBitness::X8) => "core::i8"@,
        (Signedness::Signed, IntBitness::X16) => "core::i16"@,
        (Signedness::Signed, IntBitness::X32) => "core::i32"@,
        (Signedness::Signed, IntBitness::X64) => "core::i64"@,
        (Signedness::Signed, _) => "core::i128"@,
        (Signedness::Unsigned, IntBitness::X8) => "core::u8"@,
        (Signedness::Unsigned, IntBitness::X16) => "core::u16"@,
        (Signedness::Unsigned, IntBitness::X32) => "core::u32"@,
        (Signedness::Unsigned, IntBitness::X64) => "core::u64"@,
        (Signedness::Unsigned, _) => "core::u128"@,
    }
}

/// The runtime name of a type that has one: `core::<primitive>` for fundamental types (with
/// pointer-sized integers resolved), the struct's name for structs.
pub open spec fn runtime_name(ss: Seq<StructDef>, dl: TargetDataLayout, t: Ty) -> Seq<char> {
    match t {
        Ty::Bool => "core::bool"@,
        Ty::Int(sign, b) => int_name(sign, resolve_bitness(b, dl)),
        Ty::Float(FloatBitness::X32) => "core::f32"@,
        Ty::Float(FloatBitness::X64) => "core::f64"@,
        Ty::Struct(s) => ss[s as int].name@,
        Ty::Empty => Seq::empty(),
    }
}

pub open spec fn type_size_of(l: Layout) -> TypeSize {
    TypeSize { bit_size: (l.size * 8) as u64, alignment: l.align as u32 }
}

/// The runtime type information of `t`; the empty type has none, and neither has a type
/// without a layout. A struct's size is that of the struct itself, whatever its memory kind.
pub open spec fn type_info_of(ss: Seq<StructDef>, dl: TargetDataLayout, t: Ty) -> Option<TypeInfoView> {
    let name = runtime_name(ss, dl, t);
    match t {
        Ty::Empty => None,
        Ty::Struct(s) => match struct_inline_layout(ss, dl, s as int, layout_fuel(ss)) {
            Some(l) => Some(
                TypeInfoView {
                    guid: md5_digest(name),
                    name,
                    size: type_size_of(l),
                    group: TypeGroup::StructTypes(s),
                },
            ),
            None => None,
        },
        _ => match ty_layout(ss, dl, t, layout_fuel(ss)) {
            Some(l) => Some(
                TypeInfoView {
                    guid: md5_digest(name),
                    name,
                    size: type_size_of(l),
                    group: TypeGroup::FundamentalTypes,
                },
            ),
            None => None,
        },
    }
}

fn int_type_name(sign: Signedness, b: IntBitness) -> (r: String)
    ensures
        r@ == int_name(sign, b),
{
    match (sign, b) {
        (Signedness::Signed, IntBitness::X8) => String::from_str("core::i8"),
        (Signedness::Signed, IntBitness::X16) => String::from_str("core::i16"),
        (Signedness::Signed, IntBitness::X32) => String::from_str("core::i32"),
        (Signedness::Signed, IntBitness::X64) => String::from_str("core::i64"),
        (Signedness::Signed, _) => String::from_str("core::i128"),
        (Signedness::Unsigned, IntBitness::X8) => String::from_str("core::u8"),
        (Signedness::Unsigned, IntBitness::X16) => String::from_str("core::u16"),
        (Signedness::Unsigned, IntBitness::X32) => String::from_str("core::u32"),
        (Signedness::Unsigned, IntBitness::X64) => String::from_str("core::u64"),
        (Signedness::Unsigned, _) => String::from_str("core::u128"),
    }
}

/// The runtime name of `t` (see `runtime_name`).
pub fn runtime_name_of(p: &Program, dl: &TargetDataLayout, t: Ty) -> (r: String)
    requires
        ty_wf(t, p.num_structs()),
    ensures
        r@ == runtime_name(p.structs@, *dl, t),
{
    match t {
        Ty::Bool => String::from_str("core::bool"),
        Ty::Int(sign, b) => {
            let rb = resolve_int_bitness(b, dl);
            int_type_name(sign, rb)
        },
        Ty::Float(FloatBitness::X32) => String::from_str("core::f32"),
        Ty::Float(FloatBitness::X64) => String::from_str("core::f64"),
        Ty::Struct(s) => p.structs[s].name.clone(),
        Ty::Empty => String::new(),
    }
}

fn size_of_layout(l: Layout) -> (r: TypeSize)
    requires
        l.wf(),
    ensures
        r == type_size_of(l),
{
    TypeSize { bit_size: l.size * 8, alignment: l.align as u32 }
}

/// The runtime type information of `t` (see `type_info_of`).
pub fn type_info(p: &Program, dl: &TargetDataLayout, t: Ty) -> (r: Option<TypeInfo>)
    requires
        p.wf(),
        dl.wf(),
        ty_wf(t, p.num_structs()),
    ensures
        match r {
            Some(ti) => type_info_of(p.structs@, *dl, t) == Some(ti@),
            None => type_info_of(p.structs@, *dl, t) is None,
        },
{
    let fuel = p.structs.len() as u64;
    let name = runtime_name_of(p, dl, t);
    match t {
        Ty::Empty => None,
        Ty::Struct(s) => match struct_layout(p, dl, s, fuel) {
            Some(sl) => Some(TypeInfo::new(name, size_of_layout(sl.layout), TypeGroup::StructTypes(s))),
            None => None,
        },
        _ => match type_layout(p, dl, t, fuel) {
            Some(l) => Some(TypeInfo::new(name, size_of_layout(l), TypeGroup::FundamentalTypes)),
            None => None,
        },
    }
}

} // verus!
