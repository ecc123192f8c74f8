use vstd::prelude::*;
use crate::layout::TargetDataLayout;
use crate::program::{FloatBitness, IntBitness, MemoryKind, Program, StructDef, Ty, ty_wf};
use crate::ty::{resolve_bitness, resolve_int_bitness, type_info, type_info_of, TypeInfo};

verus! {

/// A native struct type that the code generator created: its name and the semantic types of
/// its fields at the time it was populated. Handles index the list of these.
#[derive(Clone, Debug)]
pub struct NativeStruct {
    pub name: String,
    pub fields: Vec<Ty>,
}

/// A native machine type. Struct types are referred to by their handle.
#[derive(Clone, Copy, Debug, PartialEq, Eq, Structural)]
pub enum NativeType {
    /// The empty struct that stands for the unit type.
    EmptyStruct,
    /// An integer of the given number of bits (a boolean is one bit).
    Int(u32),
    Float(u32),
    /// A struct stored inline.
    Struct(usize),
    /// A pointer to a pointer to a struct: the relocatable handle of a heap object.
    HandleRef(usize),
}

/// A cached struct: the field types it was last generated with and its native handle.
#[derive(Clone, Debug)]
pub struct StructCacheState {
    pub fields: Vec<Ty>,
    pub handle: usize,
}

/// Creates and caches native struct types. A struct keeps its native type as long as its field
/// types stay the same; when they change it gets a new native type under the same name.
#[derive(Debug)]
pub struct TypeManager {
    /// Every native struct type created so far; a handle is an index into this list.
    handles: Vec<NativeStruct>,
    /// The cache, indexed by struct.
    structs: Vec<Option<StructCacheState>>,
}

pub open spec fn native_view(n: NativeStruct) -> (Seq<char>, Seq<Ty>) {
    (n.name@, n.fields@)
}

impl TypeManager {
    /// The cached field types and handle of struct `s`, if it has been generated.
    pub closed spec fn cached(&self, s: usize) -> Option<(Seq<Ty>, usize)> {
        if s < self.structs@.len() {
            match self.structs@[s as int] {
                Some(st) => Some((st.fields@, st.handle)),
                None => None,
            }
        } else {
            None
        }
    }

    /// Whether the cached native type of `s` was generated with its current field types.
    pub open spec fn reusable(&self, p: &Program, s: usize) -> bool {
        self.cached(s) matches Some((fs, _)) && fs == p.field_tys(s as int)
    }

    /// The name and field types of every native struct created so far, by handle.
    pub closed spec fn handle_views(&self) -> Seq<(Seq<char>, Seq<Ty>)> {
        self.handles@.map_values(|n: NativeStruct| native_view(n))
    }

    /// Every cached handle exists and holds the cached field types.
    pub closed spec fn wf(&self) -> bool {
        forall|s: usize|
            #![trigger self.cached(s)]
            self.cached(s) matches Some((fs, h)) ==> h < self.handles@.len()
                && self.handles@[h as int].fields@ == fs
    }

    pub fn new() -> (r: TypeManager)
        ensures
            r.wf(),
            r.handle_views().len() == 0,
            forall|s: usize| r.cached(s) is None,
    {
        TypeManager { handles: Vec::new(), structs: Vec::new() }
    }

    /// The native struct type of `s`. It is the cached one when the struct's current field
    /// types equal those it was generated with; otherwise a new native struct with the struct's
    /// name and current field types is created and replaces the cache entry.
    pub fn struct_ty(&mut self, p: &Program, s: usize) -> (r: usize)
        requires
            old(self).wf(),
            s < p.num_structs(),
        ensures
            final(self).wf(),
            final(self).cached(s) == Some((p.field_tys(s as int), r)),
            r < final(self).handle_views().len(),
            old(self).reusable(p, s) ==> {
                &&& r == old(self).cached(s).unwrap().1
                &&& final(self).handle_views() == old(self).handle_views()
            },
            !old(self).reusable(p, s) ==> {
                &&& r == old(self).handle_views().len()
                &&& final(self).handle_views() == old(self).handle_views().push(
                    (p.structs@[s as int].name@, p.field_tys(s as int)),
                )
            },
            forall|t: usize| t != s ==> final(self).cached(t) == old(self).cached(t),
    {
        let def = &p.structs[s];
        let mut fields: Vec<Ty> = Vec::new();
        let mut i: usize = 0;
        while i < def.fields.len()
            invariant
                def == p.structs@[s as int],
                0 <= i <= def.fields@.len(),
                fields@ == p.field_tys(s as int).take(i as int),
            decreases def.fields@.len() - i,
        {
            fields.push(def.fields[i].ty);
            i = i + 1;
            assert(fields@ =~= p.field_tys(s as int).take(i as int));
        }
        assert(fields@ =~= p.field_tys(s as int));
        if s < self.structs.len() {
            if let Some(st) = &self.structs[s] {
                if same_tys(&st.fields, &fields) {
                    return st.handle;
                }
            }
        }
        let handle = self.handles.len();
        let fields_copy = fields.clone();
        let name = def.name.clone();
        let ghost entry = (p.structs@[s as int].name@, p.field_tys(s as int));
        self.handles.push(NativeStruct { name, fields: fields_copy });
        assert(native_view(self.handles@.last()) == entry);
        let ghost old_structs = self.structs@;
        let ghost pushed = self.handles@;
        assert(pushed == old(self).handles@.push(pushed.last()));
        while self.structs.len() <= s
            invariant
                self.handles@ == pushed,
                self.structs@.len() >= old_structs.len(),
                forall|j: int| 0 <= j < old_structs.len() ==> self.structs@[j] == old_structs[j],
                forall|j: int| old_structs.len() <= j < self.structs@.len() ==> self.structs@[j] is None,
            decreases s + 1 - self.structs@.len(),
        {
            self.structs.push(None);
        }
        self.structs.set(s, Some(StructCacheState { fields, handle }));
        proof {
            assert forall|t: usize| t != s implies #[trigger] self.cached(t) == old(self).cached(t) by {
                if t < old_structs.len() {
                    assert(self.structs@[t as int] == old_structs[t as int]);
                }
            }
            assert forall|t: usize|
                #![trigger self.cached(t)]
                self.cached(t) is Some implies self.cached(t).unwrap().1 < self.handles@.len()
                && self.handles@[self.cached(t).unwrap().1 as int].fields@ == self.cached(t).unwrap().0 by {
                if t != s {
                    assert(old(self).cached(t) == self.cached(t));
                    let h = self.cached(t).unwrap().1;
                    assert(h < old(self).handles@.len());
                    assert(old(self).handles@[h as int] == self.handles@[h as int]);
                }
            }
            assert(self.handle_views() =~= old(self).handle_views().push(entry));
        }
        handle
    }

    /// The name and field types of the native struct with handle `h`.
    pub fn native_struct(&self, h: usize) -> (r: Option<NativeStruct>)
        ensures
            r is Some <==> h < self.handle_views().len(),
            r matches Some(n) ==> native_view(n) == self.handle_views()[h as int],
    {
        if h < self.handles.len() {
            let n = &self.handles[h];
            Some(NativeStruct { name: n.name.clone(), fields: n.fields.clone() })
        } else {
            None
        }
    }

    /// The native type of `t`. A GC struct is always a handle reference; a value struct is
    /// stored inline, except where `make_marshallable` asks for the representation that crosses
    /// the runtime boundary, which is a handle reference too.
    pub fn type_ir(&mut self, p: &Program, dl: &TargetDataLayout, t: Ty, make_marshallable: bool) -> (r:
        NativeType)
        requires
            old(self).wf(),
            ty_wf(t, p.num_structs()),
        ensures
            final(self).wf(),
            r == native_type_of(p.structs@, *dl, t, make_marshallable, final(self).cached_handle(t)),
            t matches Ty::Struct(s) ==> final(self).cached(s) == Some(
                (p.field_tys(s as int), final(self).cached_handle(t)),
            ),
            !(t is Struct) ==> *final(self) == *old(self),
            forall|u: usize| !(t == Ty::Struct(u)) ==> final(self).cached(u) == old(self).cached(u),
            t matches Ty::Struct(s) ==> (old(self).reusable(p, s) ==> final(self).cached(s) == old(
                self,
            ).cached(s)),
    {
        match t {
            Ty::Empty => NativeType::EmptyStruct,
            Ty::Bool => NativeType::Int(1),
            Ty::Int(_, b) => {
                let rb = resolve_int_bitness(b, dl);
                NativeType::Int(
                    match rb {
                        IntBitness::X8 => 8,
                        IntBitness::X16 => 16,
                        IntBitness::X32 => 32,
                        IntBitness::X64 => 64,
                        _ => 128,
                    },
                )
            },
            Ty::Float(FloatBitness::X32) => NativeType::Float(32),
            Ty::Float(FloatBitness::X64) => NativeType::Float(64),
            Ty::Struct(s) => {
                let h = self.struct_ty(p, s);
                if p.structs[s].memory_kind == MemoryKind::GC || make_marshallable {
                    NativeType::HandleRef(h)
                } else {
                    NativeType::Struct(h)
                }
            },
        }
    }

    /// The handle cached for a struct type (and zero for other types).
    pub open spec fn cached_handle(&self, t: Ty) -> usize {
        match t {
            Ty::Struct(s) => match self.cached(s) {
                Some((_, h)) => h,
                None => 0,
            },
            _ => 0,
        }
    }

    /// The runtime type information of `t` (see `type_info_of`).
    pub fn type_info(&self, p: &Program, dl: &TargetDataLayout, t: Ty) -> (r: Option<TypeInfo>)
        requires
            p.wf(),
            dl.wf(),
            ty_wf(t, p.num_structs()),
        ensures
            match r {
                Some(ti) => type_info_of(p.structs@, *dl, t) == Some(ti@),
                None => type_info_of(p.structs@, *dl, t) is None,
            },
    {
        type_info(p, dl, t)
    }
}

/// The native type of `t`, given the handle of its struct if it is one.
pub open spec fn native_type_of(
    ss: Seq<StructDef>,
    dl: TargetDataLayout,
    t: Ty,
    make_marshallable: bool,
    handle: usize,
) -> NativeType {
    match t {
        Ty::Empty => NativeType::EmptyStruct,
        Ty::Bool => NativeType::Int(1),
        Ty::Int(_, b) => NativeType::Int(
            match resolve_bitness(b, dl) {
                IntBitness::X8 => 8,
                IntBitness::X16 => 16,
                IntBitness::X32 => 32,
                IntBitness::X64 => 64,
                _ => 128,
            },
        ),
        Ty::Float(FloatBitness::X32) => NativeType::Float(32),
        Ty::Float(FloatBitness::X64) => NativeType::Float(64),
        Ty::Struct(s) => if ss[s as int].memory_kind == MemoryKind::GC
            || make_marshallable {
            NativeType::HandleRef(handle)
        } else {
            NativeType::Struct(handle)
        },
    }
}

/// Whether two lists of semantic types are equal.
pub fn same_tys(a: &Vec<Ty>, b: &Vec<Ty>) -> (r: bool)
    ensures
        r == (a@ == b@),
{
    if a.len() != b.len() {
        return false;
    }
    let mut i: usize = 0;
    while i < a.len()
        invariant
            a@.len() == b@.len(),
            0 <= i <= a@.len(),
            forall|j: int| 0 <= j < i ==> a@[j] == b@[j],
        decreases a@.len() - i,
    {
        if a[i] != b[i] {
            return false;
        }
        i = i + 1;
    }
    assert(a@ =~= b@);
    true
}

} // verus!
