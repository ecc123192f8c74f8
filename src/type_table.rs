use vstd::prelude::*;
use crate::dispatch_table::{infos_of, infos_view, DispatchTable, FunctionPrototype};
use crate::layout::{field_offset, TargetDataLayout};
use crate::program::{field_tys, MemoryKind, Program, StructDef, Ty, Visibility};
use crate::ty::{
    layout_fuel, struct_field_layouts, struct_inline_layout, struct_layout, type_info,
    type_info_of, TypeGroup, TypeInfo, TypeInfoView,
};

verus! {

pub open spec fn pow256(n: nat) -> int
    decreases n,
{
    if n == 0 {
        1
    } else {
        256 * pow256((n - 1) as nat)
    }
}

/// The guid read as a big-endian number; ordering by it orders guids lexicographically.
pub open spec fn guid_key(g: Seq<u8>) -> int
    decreases g.len(),
{
    if g.len() == 0 {
        0
    } else {
        guid_key(g.drop_last()) * 256 + g.last()
    }
}

pub open spec fn info_key(t: TypeInfoView) -> int {
    guid_key(t.guid)
}

proof fn lemma_pow256_monotone(a: nat, b: nat)
    requires
        a <= b,
    ensures
        1 <= pow256(a) <= pow256(b),
    decreases b,
{
    if a < b {
        lemma_pow256_monotone(a, (b - 1) as nat);
    } else if b > 0 {
        lemma_pow256_monotone(0, (b - 1) as nat);
    }
}

/// The sort key of a guid.
fn guid_key_of(g: &[u8; 16]) -> (r: u128)
    ensures
        r == guid_key(g@),
{
    let mut k: u128 = 0;
    let mut i: usize = 0;
    proof {
        reveal_with_fuel(pow256, 17);
        assert(pow256(16) == 0x1_0000_0000_0000_0000_0000_0000_0000_0000);
    }
    while i < 16
        invariant
            0 <= i <= 16,
            g@.len() == 16,
            k == guid_key(g@.take(i as int)),
            0 <= k < pow256(i as nat),
            pow256(16) == 0x1_0000_0000_0000_0000_0000_0000_0000_0000,
        decreases 16 - i,
    {
        let b = g[i];
        assert(g@.take(i + 1).drop_last() =~= g@.take(i as int));
        proof {
            lemma_pow256_monotone((i + 1) as nat, 16);
            let p = pow256(i as nat);
            assert(k * 256 + b < p * 256) by (nonlinear_arith)
                requires
                    k < p,
                    b < 256,
            ;
        }
        k = k * 256 + b as u128;
        i = i + 1;
    }
    assert(g@.take(16) =~= g@);
    k
}

/// Entries in non-decreasing order of their guids.
pub open spec fn sorted_by_guid(s: Seq<TypeInfoView>) -> bool {
    forall|i: int, j: int| 0 <= i < j < s.len() ==> info_key(s[i]) <= info_key(s[j])
}

/// Entries in strictly increasing order of their guids.
pub open spec fn strictly_sorted_by_guid(s: Seq<TypeInfoView>) -> bool {
    forall|i: int, j: int| 0 <= i < j < s.len() ==> info_key(s[i]) < info_key(s[j])
}

/// No two distinct types of the set share a guid.
pub open spec fn guids_distinct(set: Set<TypeInfoView>) -> bool {
    forall|x: TypeInfoView, y: TypeInfoView|
        #![trigger set.contains(x), set.contains(y)]
        set.contains(x) && set.contains(y) && info_key(x) == info_key(y) ==> x == y
}

/// No two distinct types of the set share a name.
pub open spec fn names_distinct(set: Set<TypeInfoView>) -> bool {
    forall|x: TypeInfoView, y: TypeInfoView|
        #![trigger set.contains(x), set.contains(y)]
        set.contains(x) && set.contains(y) && x.name == y.name ==> x == y
}

/// No two descriptors are held by globals of the same name.
pub open spec fn global_names_distinct(ds: Seq<DescriptorView>) -> bool {
    forall|i: int, j: int| 0 <= i < j < ds.len() ==> ds[i].global_name != ds[j].global_name
}

proof fn lemma_global_name_injective(n: Seq<char>, m: Seq<char>)
    requires
        global_name_of(n) == global_name_of(m),
    ensures
        n == m,
{
    let pre = "type_info::<"@;
    let post = ">"@;
    assert(global_name_of(n).len() == pre.len() + n.len() + post.len());
    assert(n =~= global_name_of(n).subrange(pre.len() as int, (pre.len() + n.len()) as int));
    assert(m =~= global_name_of(m).subrange(pre.len() as int, (pre.len() + m.len()) as int));
}

/// No entry appears twice.
pub open spec fn distinct(s: Seq<TypeInfoView>) -> bool {
    forall|i: int, j: int| 0 <= i < j < s.len() ==> s[i] != s[j]
}

/// Collects the runtime-visible types of a file into a set ordered by guid.
pub struct TypeTableBuilder {
    entries: Vec<TypeInfo>,
    collected: Ghost<Set<TypeInfoView>>,
}

impl TypeTableBuilder {
    pub closed spec fn view_entries(&self) -> Seq<TypeInfoView> {
        infos_view(self.entries@)
    }

    /// Every type info collected so far.
    pub closed spec fn collected(&self) -> Set<TypeInfoView> {
        self.collected@
    }

    /// The entries are exactly the collected infos, once each, ordered by guid.
    pub closed spec fn inv(&self) -> bool {
        &&& sorted_by_guid(infos_view(self.entries@))
        &&& distinct(infos_view(self.entries@))
        &&& infos_view(self.entries@).to_set() == self.collected@
    }

    /// The entries are the collected infos, once each, ordered by guid.
    pub proof fn lemma_entries(&self)
        requires
            self.inv(),
        ensures
            self.view_entries().to_set() == self.collected(),
            sorted_by_guid(self.view_entries()),
            distinct(self.view_entries()),
    {
    }

    /// Inserts `t` at its place in guid order, unless it is already present.
    fn insert(&mut self, t: TypeInfo)
        requires
            old(self).inv(),
        ensures
            final(self).inv(),
            final(self).collected() == old(self).collected().insert(t@),
    {
        let ghost s = infos_view(self.entries@);
        let mut j: usize = 0;
        while j < self.entries.len()
            invariant
                self.inv(),
                *self == *old(self),
                s == infos_view(self.entries@),
                0 <= j <= s.len(),
                forall|k: int| 0 <= k < j ==> s[k] != t@,
            decreases s.len() - j,
        {
            if self.entries[j].same(&t) {
                assert(s[j as int] == t@);
                assert(s.contains(t@));
                assert(s.to_set().contains(t@));
                assert(self.collected@.contains(t@));
                assert(self.collected@.insert(t@) =~= self.collected@);
                return;
            }
            j = j + 1;
        }
        let key = guid_key_of(&t.guid);
        let mut i: usize = self.entries.len();
        while i > 0 && guid_key_of(&self.entries[i - 1].guid) > key
            invariant
                self.inv(),
                *self == *old(self),
                forall|k: int| 0 <= k < s.len() ==> s[k] != t@,
                s == infos_view(self.entries@),
                0 <= i <= s.len(),
                key == info_key(t@),
                forall|k: int| i <= k < s.len() ==> info_key(s[k]) > key,
            decreases i,
        {
            i = i - 1;
        }
        let ghost tv = t@;
        self.entries.insert(i, t);
        proof {
            let n = infos_view(self.entries@);
            assert(n =~= s.insert(i as int, tv));
            assert forall|a: int, b: int| 0 <= a < b < n.len() implies n[a] != n[b] by {
                if a == i {
                    assert(n[b] == s[b - 1]);
                } else if b == i {
                    assert(n[a] == s[a]);
                } else if a < i && b < i {
                    assert(n[a] == s[a] && n[b] == s[b]);
                } else if a < i {
                    assert(n[a] == s[a] && n[b] == s[b - 1]);
                } else {
                    assert(n[a] == s[a - 1] && n[b] == s[b - 1]);
                }
            }
            assert forall|a: int, b: int| 0 <= a < b < n.len() implies info_key(n[a]) <= info_key(
                n[b],
            ) by {
                if i > 0 && a < i as int && b == i as int {
                    assert(info_key(s[i - 1]) <= key);
                    assert(info_key(s[a]) <= info_key(s[i - 1]));
                }
            }
            assert(n.to_set() =~= s.to_set().insert(tv)) by {
                assert forall|x| n.to_set().contains(x) implies s.to_set().insert(tv).contains(
                    x,
                ) by {
                    let k = choose|k: int| 0 <= k < n.len() && n[k] == x;
                    if k < i {
                        assert(s[k] == x);
                    } else if k > i {
                        assert(s[k - 1] == x);
                    }
                }
                assert forall|x| s.to_set().insert(tv).contains(x) implies n.to_set().contains(
                    x,
                ) by {
                    if x == tv {
                        assert(n[i as int] == tv);
                    } else {
                        let k = choose|k: int| 0 <= k < s.len() && s[k] == x;
                        if k < i {
                            assert(n[k] == x);
                        } else {
                            assert(n[k + 1] == x);
                        }
                    }
                }
            }
        }
        self.collected = Ghost(self.collected@.insert(tv));
    }

    /// A builder seeded with the argument and return types of the intrinsics. These are
    /// fundamental pointer types; a struct among them would add its own information only, as every
    /// struct of a file, fields included, is collected by `collect_struct`.
    pub fn new(intrinsics: &Vec<FunctionPrototype>) -> (r: TypeTableBuilder)
        ensures
            r.inv(),
            r.collected() == intrinsic_types(intrinsics@.map_values(|pr: FunctionPrototype| pr@)),
    {
        let mut b = TypeTableBuilder { entries: Vec::new(), collected: Ghost(Set::empty()) };
        assert(infos_view(b.entries@).to_set() =~= Set::empty());
        let ghost iv = intrinsics@.map_values(|pr: FunctionPrototype| pr@);
        let mut i: usize = 0;
        while i < intrinsics.len()
            invariant
                b.inv(),
                iv == intrinsics@.map_values(|pr: FunctionPrototype| pr@),
                0 <= i <= intrinsics@.len(),
                b.collected() == intrinsic_types(iv.take(i as int)),
            decreases intrinsics@.len() - i,
        {
            let pr = &intrinsics[i];
            let ghost before = b.collected();
            let mut k: usize = 0;
            while k < pr.arg_types.len()
                invariant
                    b.inv(),
                    0 <= k <= pr.arg_types@.len(),
                    b.collected() == before + infos_view(pr.arg_types@).take(k as int).to_set(),
                decreases pr.arg_types@.len() - k,
            {
                b.insert(pr.arg_types[k].duplicate());
                k = k + 1;
                assert(infos_view(pr.arg_types@).take(k as int) =~= infos_view(
                    pr.arg_types@,
                ).take(k - 1).push(pr.arg_types@[k - 1]@));
                proof {
                    infos_view(pr.arg_types@).take(k - 1).lemma_push_to_set_commute(
                        pr.arg_types@[k - 1]@,
                    );
                }
                assert(b.collected() =~= before + infos_view(pr.arg_types@).take(k as int).to_set());
            }
            assert(infos_view(pr.arg_types@).take(k as int) =~= infos_view(pr.arg_types@));
            if let Some(rt) = &pr.ret_type {
                b.insert(rt.duplicate());
            }
            i = i + 1;
            proof {
                assert(iv.take(i as int).drop_last() =~= iv.take(i - 1));
                assert(iv.take(i as int).last() == iv[i - 1]);
                assert(b.collected() =~= intrinsic_types(iv.take(i as int)));
            }
        }
        assert(iv.take(i as int) =~= iv);
        b
    }

    /// Collects a type's information.
    fn collect_type(&mut self, t: TypeInfo)
        requires
            old(self).inv(),
        ensures
            final(self).inv(),
            final(self).collected() == old(self).collected().insert(t@),
    {
        self.insert(t)
    }

    /// Collects the information of the types of a list, or returns false, collecting nothing
    /// more than its prefix, if one has none.
    fn collect_tys(&mut self, p: &Program, dl: &TargetDataLayout, tys: &Vec<Ty>) -> (ok: bool)
        requires
            old(self).inv(),
            p.wf(),
            dl.wf(),
            forall|k: int| 0 <= k < tys@.len() ==> crate::program::ty_wf(#[trigger] tys@[k], p.num_structs()),
        ensures
            final(self).inv(),
            ok == infos_of(p.structs@, *dl, tys@) is Some,
            ok ==> final(self).collected() == old(self).collected() + infos_of(
                p.structs@,
                *dl,
                tys@,
            ).unwrap().to_set(),
    {
        let mut k: usize = 0;
        let ghost start = self.collected();
        while k < tys.len()
            invariant
                self.inv(),
                p.wf(),
                dl.wf(),
                forall|j: int| 0 <= j < tys@.len() ==> crate::program::ty_wf(#[trigger] tys@[j], p.num_structs()),
                0 <= k <= tys@.len(),
                infos_of(p.structs@, *dl, tys@.take(k as int)) is Some,
                self.collected() == start + infos_of(p.structs@, *dl, tys@.take(k as int)).unwrap().to_set(),
            decreases tys@.len() - k,
        {
            assert(tys@.take(k + 1).drop_last() =~= tys@.take(k as int));
            assert(tys@.take(k + 1).last() == tys@[k as int]);
            match type_info(p, dl, tys[k]) {
                Some(ti) => {
                    self.collect_type(ti);
                },
                None => {
                    proof {
                        crate::dispatch_table::lemma_infos_prefix(p.structs@, *dl, tys@, k + 1);
                    }
                    return false;
                },
            }
            k = k + 1;
            proof {
                let prev = infos_of(p.structs@, *dl, tys@.take(k - 1)).unwrap();
                let cur = infos_of(p.structs@, *dl, tys@.take(k as int)).unwrap();
                assert(cur == prev.push(cur.last()));
                prev.lemma_push_to_set_commute(cur.last());
                assert(cur.to_set() =~= prev.to_set().insert(cur.last()));
                assert(self.collected() =~= start + cur.to_set());
            }
        }
        assert(tys@.take(k as int) =~= tys@);
        true
    }

    /// Collects the information of struct `s` and of the types of its fields. Every struct of
    /// a file is collected in its own right, so a struct-typed field adds only the field struct's
    /// own information here.
    pub fn collect_struct(&mut self, p: &Program, dl: &TargetDataLayout, s: usize) -> (ok: bool)
        requires
            old(self).inv(),
            p.wf(),
            dl.wf(),
            s < p.num_structs(),
        ensures
            final(self).inv(),
            ok == struct_types(p.structs@, *dl, s as int) is Some,
            ok ==> final(self).collected() == old(self).collected() + struct_types(
                p.structs@,
                *dl,
                s as int,
            ).unwrap(),
    {
        let ti = match type_info(p, dl, Ty::Struct(s)) {
            Some(ti) => ti,
            None => {
                return false;
            },
        };
        let mut tys: Vec<Ty> = Vec::new();
        let mut k: usize = 0;
        let fields = &p.structs[s].fields;
        while k < fields.len()
            invariant
                fields == p.structs@[s as int].fields,
                0 <= k <= fields@.len(),
                tys@ == field_tys(p.structs@, s as int).take(k as int),
            decreases fields@.len() - k,
        {
            tys.push(fields[k].ty);
            k = k + 1;
            assert(tys@ =~= field_tys(p.structs@, s as int).take(k as int));
        }
        assert(tys@ =~= field_tys(p.structs@, s as int));
        assert forall|j: int| 0 <= j < tys@.len() implies crate::program::ty_wf(
            #[trigger] tys@[j],
            p.num_structs(),
        ) by {
            assert(tys@[j] == p.structs@[s as int].fields@[j].ty);
        }
        let ghost tv = ti@;
        self.collect_type(ti);
        let ok = self.collect_tys(p, dl, &tys);
        proof {
            if ok {
                let fi = infos_of(p.structs@, *dl, field_tys(p.structs@, s as int)).unwrap();
                assert(self.collected() =~= old(self).collected() + fi.to_set().insert(tv));
            }
        }
        ok
    }

    /// Collects the parameter and return types of function `f` if it is visible to the runtime:
    /// public, or called through the dispatch table.
    pub fn collect_fn(&mut self, p: &Program, dl: &TargetDataLayout, table: &DispatchTable, f: usize) -> (ok:
        bool)
        requires
            old(self).inv(),
            p.wf(),
            dl.wf(),
            f < p.num_functions(),
        ensures
            final(self).inv(),
            ok == (fn_visible(p.functions@[f as int], f, table) ==> fn_types(
                p.structs@,
                *dl,
                p.functions@[f as int],
            ) is Some),
            ok ==> final(self).collected() == old(self).collected() + (if fn_visible(
                p.functions@[f as int],
                f,
                table,
            ) {
                fn_types(p.structs@, *dl, p.functions@[f as int]).unwrap()
            } else {
                Set::empty()
            }),
    {
        let def = &p.functions[f];
        if def.visibility == Visibility::Private && !table.contains(f) {
            assert(old(self).collected() + Set::empty() =~= old(self).collected());
            return true;
        }
        assert forall|j: int| 0 <= j < def.params@.len() implies crate::program::ty_wf(
            #[trigger] def.params@[j],
            p.num_structs(),
        ) by {
            assert(crate::program::ty_wf(p.functions@[f as int].params@[j], p.num_structs()));
        }
        if !self.collect_tys(p, dl, &def.params) {
            return false;
        }
        if def.ret != Ty::Empty {
            match type_info(p, dl, def.ret) {
                Some(ti) => {
                    let ghost before = self.collected();
                    self.collect_type(ti);
                    assert(self.collected() =~= old(self).collected() + fn_types(
                        p.structs@,
                        *dl,
                        p.functions@[f as int],
                    ).unwrap());
                },
                None => {
                    return false;
                },
            }
        } else {
            assert(self.collected() =~= old(self).collected() + fn_types(
                p.structs@,
                *dl,
                p.functions@[f as int],
            ).unwrap());
        }
        true
    }
}

/// The argument and return types of the intrinsics.
pub open spec fn intrinsic_types(ps: Seq<crate::dispatch_table::PrototypeView>) -> Set<TypeInfoView>
    decreases ps.len(),
{
    if ps.len() == 0 {
        Set::empty()
    } else {
        let pr = ps.last();
        let with_args = intrinsic_types(ps.drop_last()) + pr.arg_types.to_set();
        match pr.ret_type {
            Some(r) => with_args.insert(r),
            None => with_args,
        }
    }
}

/// The information of a struct and of the types of its fields.
pub open spec fn struct_types(ss: Seq<StructDef>, dl: TargetDataLayout, s: int) -> Option<
    Set<TypeInfoView>,
> {
    match (type_info_of(ss, dl, Ty::Struct(s as usize)), infos_of(ss, dl, field_tys(ss, s))) {
        (Some(t), Some(fi)) => Some(fi.to_set().insert(t)),
        _ => None,
    }
}

/// Whether the runtime sees function `f`: it is public or has a dispatch slot.
pub open spec fn fn_visible(def: crate::program::FunctionDef, f: usize, table: &DispatchTable) -> bool {
    def.visibility == Visibility::Public || exists|i: int|
        0 <= i < table.view_entries().len() && (#[trigger] table.view_entries()[i]).hir == Some(f)
}

/// The information of a function's parameter types and, unless it is empty, its return type.
pub open spec fn fn_types(ss: Seq<StructDef>, dl: TargetDataLayout, def: crate::program::FunctionDef) -> Option<
    Set<TypeInfoView>,
> {
    match infos_of(ss, dl, def.params@) {
        Some(args) => if def.ret == Ty::Empty {
            Some(args.to_set())
        } else {
            match type_info_of(ss, dl, def.ret) {
                Some(r) => Some(args.to_set().insert(r)),
                None => None,
            }
        },
        None => None,
    }
}


/// The runtime's tag for fundamental types.
pub const TYPE_GROUP_FUNDAMENTAL: u8 = 0;

/// The runtime's tag for struct types.
pub const TYPE_GROUP_STRUCT: u8 = 1;

/// The runtime's tag for garbage-collected structs.
pub const MEMORY_KIND_GC: u8 = 0;

/// The runtime's tag for value structs.
pub const MEMORY_KIND_VALUE: u8 = 1;

pub open spec fn memory_kind_tag(k: MemoryKind) -> u8 {
    match k {
        MemoryKind::GC => MEMORY_KIND_GC,
        MemoryKind::Value => MEMORY_KIND_VALUE,
    }
}

/// The name of the global that holds the descriptor of the type named `name`.
pub open spec fn global_name_of(name: Seq<char>) -> Seq<char> {
    "type_info::<"@ + name + ">"@
}

/// The name of the global that holds the descriptor of `type_info`.
pub fn type_info_global_name(type_info: &TypeInfo) -> (r: String)
    ensures
        r@ == global_name_of(type_info.name@),
{
    let s = String::from_str("type_info::<");
    let s = s.concat(type_info.name.as_str());
    s.concat(">")
}

/// The struct part of a type descriptor: field names, the descriptor globals of the field
/// types, the byte offset of each field, the field count and the memory kind.
#[derive(Clone, Debug)]
pub struct StructInfo {
    pub field_names: Vec<String>,
    pub field_types: Vec<String>,
    pub field_offsets: Vec<u16>,
    pub num_fields: u16,
    pub memory_kind: u8,
}

pub ghost struct StructInfoView {
    pub field_names: Seq<Seq<char>>,
    pub field_types: Seq<Seq<char>>,
    pub field_offsets: Seq<u16>,
    pub num_fields: u16,
    pub memory_kind: u8,
}

pub open spec fn strings_view(v: Seq<String>) -> Seq<Seq<char>> {
    v.map_values(|s: String| s@)
}

impl View for StructInfo {
    type V = StructInfoView;

    open spec fn view(&self) -> StructInfoView {
        StructInfoView {
            field_names: strings_view(self.field_names@),
            field_types: strings_view(self.field_types@),
            field_offsets: self.field_offsets@,
            num_fields: self.num_fields,
            memory_kind: self.memory_kind,
        }
    }
}

/// The descriptor of a type as the runtime reads it, with the name of the global that holds it.
#[derive(Clone, Debug)]
pub struct TypeDescriptor {
    pub global_name: String,
    pub guid: [u8; 16],
    pub name: String,
    pub size_in_bits: u32,
    pub alignment: u8,
    pub group: u8,
    pub struct_info: Option<StructInfo>,
}

pub ghost struct DescriptorView {
    pub global_name: Seq<char>,
    pub guid: Seq<u8>,
    pub name: Seq<char>,
    pub size_in_bits: u32,
    pub alignment: u8,
    pub group: u8,
    pub struct_info: Option<StructInfoView>,
}

impl View for TypeDescriptor {
    type V = DescriptorView;

    open spec fn view(&self) -> DescriptorView {
        DescriptorView {
            global_name: self.global_name@,
            guid: self.guid@,
            name: self.name@,
            size_in_bits: self.size_in_bits,
            alignment: self.alignment,
            group: self.group,
            struct_info: match self.struct_info {
                Some(si) => Some(si@),
                None => None,
            },
        }
    }
}

/// Whether the field offsets and count fit the 16-bit integers of the runtime's struct info.
pub open spec fn offsets_fit(fs: Seq<crate::layout::Layout>) -> bool {
    &&& fs.len() <= 0xFFFF
    &&& forall|i: int| 0 <= i < fs.len() ==> 0 <= #[trigger] field_offset(fs, i) <= 0xFFFF
}

/// The struct info of struct `s`; `None` when it has no layout, a field type has no type
/// information, or an offset does not fit.
pub open spec fn struct_info_of(ss: Seq<StructDef>, dl: TargetDataLayout, s: int) -> Option<
    StructInfoView,
> {
    if !(0 <= s < ss.len()) {
        None
    } else {
        match (
            struct_field_layouts(ss, dl, s, layout_fuel(ss)),
            struct_inline_layout(ss, dl, s, layout_fuel(ss)),
            infos_of(ss, dl, field_tys(ss, s)),
        ) {
            (Some(fs), Some(_), Some(fi)) => if offsets_fit(fs) {
                Some(
                    StructInfoView {
                        field_names: ss[s].fields@.map_values(
                            |f: crate::program::StructField| f.name@,
                        ),
                        field_types: fi.map_values(|t: TypeInfoView| global_name_of(t.name)),
                        field_offsets: Seq::new(fs.len(), |i: int| field_offset(fs, i) as u16),
                        num_fields: fs.len() as u16,
                        memory_kind: memory_kind_tag(ss[s].memory_kind),
                    },
                )
            } else {
                None
            },
            _ => None,
        }
    }
}

/// The descriptor of `t`; `None` when its size or alignment does not fit the descriptor, or it
/// is a struct without struct info.
pub open spec fn descriptor_of(ss: Seq<StructDef>, dl: TargetDataLayout, t: TypeInfoView) -> Option<
    DescriptorView,
> {
    if t.size.bit_size > u32::MAX || t.size.alignment > u8::MAX {
        None
    } else {
        match t.group {
            TypeGroup::FundamentalTypes => Some(
                DescriptorView {
                    global_name: global_name_of(t.name),
                    guid: t.guid,
                    name: t.name,
                    size_in_bits: t.size.bit_size as u32,
                    alignment: t.size.alignment as u8,
                    group: TYPE_GROUP_FUNDAMENTAL,
                    struct_info: None,
                },
            ),
            TypeGroup::StructTypes(s) => match struct_info_of(ss, dl, s as int) {
                Some(si) => Some(
                    DescriptorView {
                        global_name: global_name_of(t.name),
                        guid: t.guid,
                        name: t.name,
                        size_in_bits: t.size.bit_size as u32,
                        alignment: t.size.alignment as u8,
                        group: TYPE_GROUP_STRUCT,
                        struct_info: Some(si),
                    },
                ),
                None => None,
            },
        }
    }
}

/// The struct info of struct `s` (see `struct_info_of`).
pub fn gen_struct_info(p: &Program, dl: &TargetDataLayout, s: usize) -> (r: Option<StructInfo>)
    requires
        p.wf(),
        dl.wf(),
        s < p.num_structs(),
    ensures
        match r {
            Some(si) => struct_info_of(p.structs@, *dl, s as int) == Some(si@),
            None => struct_info_of(p.structs@, *dl, s as int) is None,
        },
{
    let ghost ss = p.structs@;
    let sl = match struct_layout(p, dl, s, p.structs.len() as u64) {
        Some(sl) => sl,
        None => {
            return None;
        },
    };
    let ghost fs = struct_field_layouts(ss, *dl, s as int, layout_fuel(ss)).unwrap();
    let fields = &p.structs[s].fields;
    assert(fs.len() == fields@.len()) by {
        lemma_field_layouts_len(ss, *dl, s as int, layout_fuel(ss));
    }
    let mut field_names: Vec<String> = Vec::new();
    let mut field_types: Vec<String> = Vec::new();
    let mut field_offsets: Vec<u16> = Vec::new();
    let ghost tys = field_tys(ss, s as int);
    let mut k: usize = 0;
    while k < fields.len()
        invariant
            p.wf(),
            dl.wf(),
            s < p.num_structs(),
            ss == p.structs@,
            fields == ss[s as int].fields,
            tys == field_tys(ss, s as int),
            sl.describes(fs),
            struct_field_layouts(ss, *dl, s as int, layout_fuel(ss)) == Some(fs),
            struct_inline_layout(ss, *dl, s as int, layout_fuel(ss)) is Some,
            fs.len() == fields@.len(),
            0 <= k <= fields@.len(),
            field_names@.len() == k,
            forall|j: int| 0 <= j < k ==> (#[trigger] field_names@[j])@ == fields@[j].name@,
            infos_of(ss, *dl, tys.take(k as int)) is Some,
            strings_view(field_types@) == infos_of(ss, *dl, tys.take(k as int)).unwrap().map_values(
                |t: TypeInfoView| global_name_of(t.name),
            ),
            field_offsets@.len() == k,
            forall|j: int| 0 <= j < k ==> (#[trigger] field_offsets@[j]) as int == field_offset(fs, j),
            forall|j: int| 0 <= j < k ==> 0 <= #[trigger] field_offset(fs, j) <= 0xFFFF,
        decreases fields@.len() - k,
    {
        field_names.push(fields[k].name.clone());
        assert(tys.take(k + 1).drop_last() =~= tys.take(k as int));
        assert(tys.take(k + 1).last() == fields@[k as int].ty);
        assert(crate::program::ty_wf(ss[s as int].fields@[k as int].ty, p.num_structs()));
        match type_info(p, dl, fields[k].ty) {
            Some(ti) => {
                let ghost prev = infos_of(ss, *dl, tys.take(k as int)).unwrap();
                let ghost prev_types = field_types@;
                field_types.push(type_info_global_name(&ti));
                proof {
                    let cur = infos_of(ss, *dl, tys.take(k + 1)).unwrap();
                    assert(cur == prev.push(ti@));
                    assert(strings_view(field_types@) =~= strings_view(prev_types).push(
                        global_name_of(ti@.name),
                    ));
                    assert(cur.map_values(|t: TypeInfoView| global_name_of(t.name)) =~= prev.map_values(
                        |t: TypeInfoView| global_name_of(t.name),
                    ).push(global_name_of(ti@.name)));
                }
            },
            None => {
                proof {
                    crate::dispatch_table::lemma_infos_prefix(ss, *dl, tys, k + 1);
                }
                return None;
            },
        }
        let off = sl.offsets[k];
        if off > 0xFFFF {
            assert(field_offset(fs, k as int) > 0xFFFF);
            assert(!offsets_fit(fs));
            assert(struct_field_layouts(ss, *dl, s as int, layout_fuel(ss)) == Some(fs));
            return None;
        }
        field_offsets.push(off as u16);
        k = k + 1;
    }
    assert(tys.take(k as int) =~= tys);
    if fields.len() > 0xFFFF {
        return None;
    }
    let memory_kind = match p.structs[s].memory_kind {
        MemoryKind::GC => MEMORY_KIND_GC,
        MemoryKind::Value => MEMORY_KIND_VALUE,
    };
    let si = StructInfo {
        field_names,
        field_types,
        field_offsets,
        num_fields: fields.len() as u16,
        memory_kind,
    };
    proof {
        let want = struct_info_of(ss, *dl, s as int).unwrap();
        assert(si@.field_names =~= want.field_names);
        assert(si@.field_offsets =~= want.field_offsets);
    }
    Some(si)
}

proof fn lemma_tys_layouts_len(ss: Seq<StructDef>, dl: TargetDataLayout, tys: Seq<Ty>, fuel: nat)
    requires
        crate::ty::tys_layouts(ss, dl, tys, fuel) is Some,
    ensures
        crate::ty::tys_layouts(ss, dl, tys, fuel).unwrap().len() == tys.len(),
    decreases tys.len(),
{
    if tys.len() > 0 {
        lemma_tys_layouts_len(ss, dl, tys.drop_last(), fuel);
    }
}

proof fn lemma_field_layouts_len(ss: Seq<StructDef>, dl: TargetDataLayout, s: int, fuel: nat)
    requires
        0 <= s < ss.len(),
        struct_field_layouts(ss, dl, s, fuel) is Some,
    ensures
        struct_field_layouts(ss, dl, s, fuel).unwrap().len() == ss[s].fields@.len(),
{
    lemma_tys_layouts_len(ss, dl, field_tys(ss, s), (fuel - 1) as nat);
}

/// The descriptor of `t` (see `descriptor_of`).
pub fn gen_type_info(p: &Program, dl: &TargetDataLayout, t: &TypeInfo) -> (r: Option<TypeDescriptor>)
    requires
        p.wf(),
        dl.wf(),
    ensures
        match r {
            Some(d) => descriptor_of(p.structs@, *dl, t@) == Some(d@),
            None => descriptor_of(p.structs@, *dl, t@) is None,
        },
{
    if t.size.bit_size > 0xFFFF_FFFF || t.size.alignment > 0xFF {
        return None;
    }
    let (group, struct_info) = match t.group {
        TypeGroup::FundamentalTypes => (TYPE_GROUP_FUNDAMENTAL, None),
        TypeGroup::StructTypes(s) => {
            if s >= p.structs.len() {
                return None;
            }
            match gen_struct_info(p, dl, s) {
                Some(si) => (TYPE_GROUP_STRUCT, Some(si)),
                None => {
                    return None;
                },
            }
        },
    };
    Some(
        TypeDescriptor {
            global_name: type_info_global_name(t),
            guid: t.guid,
            name: t.name.clone(),
            size_in_bits: t.size.bit_size as u32,
            alignment: t.size.alignment as u8,
            group,
            struct_info,
        },
    )
}

/// A type table: the runtime-visible types of a file, once each and ordered by guid, with
/// their descriptors in the same order.
pub struct TypeTable {
    entries: Vec<TypeInfo>,
    descriptors: Vec<TypeDescriptor>,
}

pub open spec fn descriptors_view(v: Seq<TypeDescriptor>) -> Seq<DescriptorView> {
    v.map_values(|d: TypeDescriptor| d@)
}

impl TypeTableBuilder {
    /// Builds the descriptors of all collected types; `None` if one of them has none.
    pub fn build(self, p: &Program, dl: &TargetDataLayout) -> (r: Option<TypeTable>)
        requires
            self.inv(),
            p.wf(),
            dl.wf(),
        ensures
            r is Some <==> guids_distinct(self.collected()) && names_distinct(self.collected())
                && forall|i: int|
                0 <= i < self.view_entries().len() ==> (#[trigger] descriptor_of(
                    p.structs@,
                    *dl,
                    self.view_entries()[i],
                )) is Some,
            r matches Some(tt) ==> {
                &&& tt.view_entries() == self.view_entries()
                &&& sorted_by_guid(tt.view_entries())
                &&& strictly_sorted_by_guid(tt.view_entries())
                &&& global_names_distinct(tt.view_descriptors())
                &&& distinct(tt.view_entries())
                &&& tt.view_entries().to_set() == self.collected()
                &&& tt.view_descriptors() == self.view_entries().map_values(
                    |t: TypeInfoView| descriptor_of(p.structs@, *dl, t).unwrap(),
                )
            },
    {
        let ghost ev = infos_view(self.entries@);
        let mut k: usize = 1;
        while k < self.entries.len()
            invariant
                self.inv(),
                ev == infos_view(self.entries@),
                1 <= k,
                k <= self.entries@.len() || self.entries@.len() == 0,
                forall|j: int| 1 <= j < k && j < ev.len() ==> info_key(ev[j - 1]) < info_key(#[trigger] ev[j]),
            decreases self.entries@.len() - k,
        {
            let a = guid_key_of(&self.entries[k - 1].guid);
            let b = guid_key_of(&self.entries[k].guid);
            if a >= b {
                proof {
                    let x = ev[k - 1];
                    let y = ev[k as int];
                    assert(x != y);
                    assert(ev.contains(x) && ev.contains(y));
                    assert(self.collected().contains(x) && self.collected().contains(y));
                    assert(info_key(x) == info_key(y));
                }
                return None;
            }
            k = k + 1;
        }
        proof {
            assert forall|a: int, b: int| 0 <= a < b < ev.len() implies info_key(ev[a]) < info_key(ev[b]) by {
                assert(info_key(ev[a]) < info_key(ev[a + 1]));
                if a + 1 < b {
                    assert(info_key(ev[a + 1]) <= info_key(ev[b]));
                }
            }
            assert forall|x: TypeInfoView, y: TypeInfoView|
                #![trigger self.collected().contains(x), self.collected().contains(y)]
                self.collected().contains(x) && self.collected().contains(y) && info_key(x) == info_key(y)
                implies x == y by {
                assert(ev.to_set().contains(x) && ev.to_set().contains(y));
                let a = choose|a: int| 0 <= a < ev.len() && ev[a] == x;
                let b = choose|b: int| 0 <= b < ev.len() && ev[b] == y;
                if a < b {
                    assert(info_key(ev[a]) < info_key(ev[b]));
                } else if b < a {
                    assert(info_key(ev[b]) < info_key(ev[a]));
                }
            }
        }
        let mut a: usize = 0;
        while a < self.entries.len()
            invariant
                self.inv(),
                ev == infos_view(self.entries@),
                0 <= a <= ev.len(),
                forall|x: int, y: int| 0 <= x < a && x < y < ev.len() ==> ev[x].name != ev[y].name,
            decreases ev.len() - a,
        {
            let mut b: usize = a + 1;
            while b < self.entries.len()
                invariant
                    self.inv(),
                    ev == infos_view(self.entries@),
                    a < ev.len(),
                    a + 1 <= b <= ev.len(),
                    forall|y: int| a < y < b ==> ev[a as int].name != ev[y].name,
                decreases ev.len() - b,
            {
                if self.entries[a].name == self.entries[b].name {
                    proof {
                        let x = ev[a as int];
                        let y = ev[b as int];
                        assert(x != y);
                        assert(ev.contains(x) && ev.contains(y));
                        assert(self.collected().contains(x) && self.collected().contains(y));
                        assert(!names_distinct(self.collected()));
                    }
                    return None;
                }
                b = b + 1;
            }
            a = a + 1;
        }
        proof {
            assert forall|x: TypeInfoView, y: TypeInfoView|
                #![trigger self.collected().contains(x), self.collected().contains(y)]
                self.collected().contains(x) && self.collected().contains(y) && x.name == y.name
                implies x == y by {
                assert(ev.to_set().contains(x) && ev.to_set().contains(y));
                let i = choose|i: int| 0 <= i < ev.len() && ev[i] == x;
                let j = choose|j: int| 0 <= j < ev.len() && ev[j] == y;
                if i < j {
                    assert(ev[i].name != ev[j].name);
                } else if j < i {
                    assert(ev[j].name != ev[i].name);
                }
            }
        }
        let mut descriptors: Vec<TypeDescriptor> = Vec::new();
        let mut i: usize = 0;
        while i < self.entries.len()
            invariant
                p.wf(),
                dl.wf(),
                ev == infos_view(self.entries@),
                0 <= i <= self.entries@.len(),
                descriptors@.len() == i,
                forall|j: int|
                    0 <= j < i ==> descriptor_of(p.structs@, *dl, ev[j]) == Some(
                        (#[trigger] descriptors@[j])@,
                    ),
            decreases self.entries@.len() - i,
        {
            match gen_type_info(p, dl, &self.entries[i]) {
                Some(d) => descriptors.push(d),
                None => {
                    assert(descriptor_of(p.structs@, *dl, ev[i as int]) is None);
                    return None;
                },
            }
            i = i + 1;
        }
        let tt = TypeTable { entries: self.entries, descriptors };
        assert(descriptors_view(tt.descriptors@) =~= ev.map_values(
            |t: TypeInfoView| descriptor_of(p.structs@, *dl, t).unwrap(),
        ));
        assert forall|j: int| 0 <= j < ev.len() implies (#[trigger] descriptor_of(
            p.structs@,
            *dl,
            ev[j],
        )) is Some by {
            assert(descriptor_of(p.structs@, *dl, ev[j]) == Some(tt.descriptors@[j]@));
        }
        assert forall|x: int, y: int| 0 <= x < y < ev.len() implies tt.view_descriptors()[x].global_name
            != tt.view_descriptors()[y].global_name by {
            assert(tt.view_descriptors()[x] == descriptor_of(p.structs@, *dl, ev[x]).unwrap());
            assert(tt.view_descriptors()[y] == descriptor_of(p.structs@, *dl, ev[y]).unwrap());
            if global_name_of(ev[x].name) == global_name_of(ev[y].name) {
                lemma_global_name_injective(ev[x].name, ev[y].name);
            }
        }
        Some(tt)
    }
}

impl TypeTable {
    pub closed spec fn view_entries(&self) -> Seq<TypeInfoView> {
        infos_view(self.entries@)
    }

    pub closed spec fn view_descriptors(&self) -> Seq<DescriptorView> {
        descriptors_view(self.descriptors@)
    }

    /// The number of types in the table.
    pub fn num_types(&self) -> (r: usize)
        ensures
            r == self.view_entries().len(),
    {
        self.entries.len()
    }

    /// Whether the table is empty; an empty table has no global at all.
    pub fn is_empty(&self) -> (r: bool)
        ensures
            r == (self.view_entries().len() == 0),
    {
        self.entries.len() == 0
    }

    /// The types of the table, in order.
    pub fn entries(&self) -> (r: &Vec<TypeInfo>)
        ensures
            infos_view(r@) == self.view_entries(),
    {
        &self.entries
    }

    /// The descriptors of the table's types, in the same order.
    pub fn descriptors(&self) -> (r: &Vec<TypeDescriptor>)
        ensures
            descriptors_view(r@) == self.view_descriptors(),
    {
        &self.descriptors
    }

    /// The index through which generated code finds the descriptor of `type_info`, which must be
    /// in the table.
    pub fn gen_type_info_lookup(&self, type_info: &TypeInfo) -> (r: usize)
        requires
            self.view_entries().contains(type_info@),
        ensures
            r < self.view_entries().len(),
            self.view_entries()[r as int] == type_info@,
    {
        let mut i: usize = 0;
        while i < self.entries.len()
            invariant
                0 <= i <= self.entries@.len(),
                self.view_entries().contains(type_info@),
                forall|j: int| 0 <= j < i ==> infos_view(self.entries@)[j] != type_info@,
            decreases self.entries@.len() - i,
        {
            if self.entries[i].same(type_info) {
                return i;
            }
            i = i + 1;
        }
        proof {
            let k = choose|k: int| 0 <= k < self.view_entries().len() && self.view_entries()[k] == type_info@;
            assert(infos_view(self.entries@)[k] != type_info@);
        }
        0
    }
}

/// The field offsets that a struct's descriptor records are the offsets that the layout engine
/// computes for the struct's fields, in field order.
pub proof fn lemma_field_offsets_round_trip(ss: Seq<StructDef>, dl: TargetDataLayout, t: TypeInfoView)
    requires
        descriptor_of(ss, dl, t) is Some,
        t.group is StructTypes,
    ensures
        ({
            let s = t.group->StructTypes_0 as int;
            let si = descriptor_of(ss, dl, t).unwrap().struct_info.unwrap();
            let fs = struct_field_layouts(ss, dl, s, layout_fuel(ss)).unwrap();
            &&& struct_field_layouts(ss, dl, s, layout_fuel(ss)) is Some
            &&& si.field_offsets.len() == fs.len()
            &&& si.num_fields == fs.len()
            &&& forall|i: int|
                0 <= i < fs.len() ==> si.field_offsets[i] as int == #[trigger] field_offset(fs, i)
        }),
{
}

} // verus!
