use vstd::prelude::*;

verus! {

/// Largest size in bytes of any type that the code generator lays out. Sizes are stored in bits
/// as 32-bit integers in the runtime's type descriptors, so larger types are rejected.
pub const MAX_TYPE_BYTES: u64 = 0x1000_0000;

/// Largest alignment in bytes that a target may ask of a primitive.
pub const MAX_ALIGN: u64 = 16;

/// Size and alignment, in bytes, of a native machine type.
#[derive(Clone, Copy, Debug, PartialEq, Eq, Structural)]
pub struct Layout {
    pub size: u64,
    pub align: u64,
}

impl Layout {
    pub open spec fn wf(self) -> bool {
        &&& 1 <= self.align <= MAX_ALIGN
        &&& self.size <= MAX_TYPE_BYTES
    }
}

/// The part of a target's data layout that type lowering depends on: the width of a pointer and
/// the ABI alignment of each primitive.
#[derive(Clone, Copy, Debug, PartialEq, Eq, Structural)]
pub struct TargetDataLayout {
    pub pointer_bytes: u64,
    pub pointer_align: u64,
    pub i16_align: u64,
    pub i32_align: u64,
    pub i64_align: u64,
    pub i128_align: u64,
    pub f32_align: u64,
    pub f64_align: u64,
}

pub open spec fn valid_align(a: u64) -> bool {
    1 <= a <= MAX_ALIGN
}

impl TargetDataLayout {
    /// A data layout that code generation supports: 32- or 64-bit pointers and alignments
    /// between one and sixteen bytes.
    pub open spec fn wf(self) -> bool {
        &&& (self.pointer_bytes == 4 || self.pointer_bytes == 8)
        &&& valid_align(self.pointer_align)
        &&& valid_align(self.i16_align)
        &&& valid_align(self.i32_align)
        &&& valid_align(self.i64_align)
        &&& valid_align(self.i128_align)
        &&& valid_align(self.f32_align)
        &&& valid_align(self.f64_align)
    }

    pub open spec fn pointer_layout(self) -> Layout {
        Layout { size: self.pointer_bytes, align: self.pointer_align }
    }

    /// Checks the conditions of `wf`; a target that fails them is a configuration error.
    pub fn is_supported(&self) -> (r: bool)
        ensures
            r == self.wf(),
    {
        (self.pointer_bytes == 4 || self.pointer_bytes == 8) && 1 <= self.pointer_align
            && self.pointer_align <= MAX_ALIGN && 1 <= self.i16_align && self.i16_align
            <= MAX_ALIGN && 1 <= self.i32_align && self.i32_align <= MAX_ALIGN && 1
            <= self.i64_align && self.i64_align <= MAX_ALIGN && 1 <= self.i128_align
            && self.i128_align <= MAX_ALIGN && 1 <= self.f32_align && self.f32_align <= MAX_ALIGN
            && 1 <= self.f64_align && self.f64_align <= MAX_ALIGN
    }

    /// The layout of a pointer on this target.
    pub fn pointer(&self) -> (r: Layout)
        ensures
            r == self.pointer_layout(),
    {
        Layout { size: self.pointer_bytes, align: self.pointer_align }
    }
}

/// The smallest multiple of `a` that is at least `x`.
pub open spec fn align_up(x: int, a: int) -> int {
    if x % a == 0 {
        x
    } else {
        x + (a - x % a)
    }
}

pub proof fn lemma_align_up(x: int, a: int)
    requires
        x >= 0,
        a >= 1,
    ensures
        x <= align_up(x, a) < x + a,
        align_up(x, a) % a == 0,
{
    if x % a != 0 {
        assert((x + (a - x % a)) % a == 0) by {
            vstd::arithmetic::div_mod::lemma_fundamental_div_mod(x, a);
            vstd::arithmetic::div_mod::lemma_mod_multiples_basic(x / a + 1, a);
            assert(x + (a - x % a) == (x / a + 1) * a) by (nonlinear_arith)
                requires
                    x == a * (x / a) + x % a,
            ;
        }
    }
}

/// Rounds `x` up to a multiple of `a`.
pub fn align_to(x: u64, a: u64) -> (r: u64)
    requires
        1 <= a <= MAX_ALIGN,
        x <= 2 * MAX_TYPE_BYTES,
    ensures
        r == align_up(x as int, a as int),
{
    proof {
        lemma_align_up(x as int, a as int);
    }
    let rem: u64 = x % a;
    if rem == 0 {
        x
    } else {
        x + (a - rem)
    }
}

/// The offset one past the last field when the fields are placed in order, each at the first
/// offset after its predecessor that is a multiple of its alignment.
pub open spec fn fields_end(fs: Seq<Layout>) -> int
    decreases fs.len(),
{
    if fs.len() == 0 {
        0
    } else {
        align_up(fields_end(fs.drop_last()), fs.last().align as int) + fs.last().size
    }
}

/// The byte offset of field `i`.
pub open spec fn field_offset(fs: Seq<Layout>, i: int) -> int {
    align_up(fields_end(fs.take(i)), fs[i].align as int)
}

/// The alignment of a struct: the largest alignment of its fields, and one for no fields.
pub open spec fn fields_align(fs: Seq<Layout>) -> int
    decreases fs.len(),
{
    if fs.len() == 0 {
        1
    } else if fields_align(fs.drop_last()) >= fs.last().align {
        fields_align(fs.drop_last())
    } else {
        fs.last().align as int
    }
}

/// The size of a struct: the end of its last field rounded up to the struct's alignment.
pub open spec fn fields_size(fs: Seq<Layout>) -> int {
    align_up(fields_end(fs), fields_align(fs))
}

pub open spec fn all_wf(fs: Seq<Layout>) -> bool {
    forall|i: int| 0 <= i < fs.len() ==> (#[trigger] fs[i]).wf()
}

/// Whether a struct with these fields fits the size limit of the runtime's descriptors.
pub open spec fn fields_fit(fs: Seq<Layout>) -> bool {
    fields_size(fs) <= MAX_TYPE_BYTES
}

/// The native layout of a struct with the given fields (non-packed): field offsets, size and
/// alignment.
#[derive(Clone, Debug)]
pub struct StructLayout {
    pub offsets: Vec<u64>,
    pub layout: Layout,
}

impl StructLayout {
    pub open spec fn describes(self, fs: Seq<Layout>) -> bool {
        &&& self.offsets@.len() == fs.len()
        &&& forall|i: int| 0 <= i < fs.len() ==> self.offsets@[i] == field_offset(fs, i)
        &&& self.layout.size == fields_size(fs)
        &&& self.layout.align == fields_align(fs)
    }
}

proof fn lemma_fields_align_bounds(fs: Seq<Layout>)
    requires
        all_wf(fs),
    ensures
        1 <= fields_align(fs) <= MAX_ALIGN,
    decreases fs.len(),
{
    if fs.len() > 0 {
        assert(fs.drop_last().len() < fs.len());
        assert forall|i: int| 0 <= i < fs.drop_last().len() implies (
        #[trigger] fs.drop_last()[i]).wf() by {
            assert(fs.drop_last()[i] == fs[i]);
        }
        lemma_fields_align_bounds(fs.drop_last());
        assert(fs.last() == fs[fs.len() - 1]);
    }
}

/// The end of any prefix of the fields is at most the end of all of them.
proof fn lemma_fields_end_monotone(fs: Seq<Layout>, k: int)
    requires
        0 <= k <= fs.len(),
        all_wf(fs),
    ensures
        0 <= fields_end(fs.take(k)) <= fields_end(fs),
    decreases fs.len() - k,
{
    if k == fs.len() {
        assert(fs.take(k) =~= fs);
        lemma_fields_end_nonneg(fs);
    } else {
        lemma_fields_end_monotone(fs, k + 1);
        let p = fs.take(k + 1);
        assert(p.drop_last() =~= fs.take(k));
        assert(p.last() == fs[k]);
        lemma_fields_end_nonneg(fs.take(k));
        lemma_align_up(fields_end(fs.take(k)), fs[k].align as int);
    }
}

proof fn lemma_fields_end_nonneg(fs: Seq<Layout>)
    requires
        all_wf(fs),
    ensures
        fields_end(fs) >= 0,
    decreases fs.len(),
{
    if fs.len() > 0 {
        assert forall|i: int| 0 <= i < fs.drop_last().len() implies (
        #[trigger] fs.drop_last()[i]).wf() by {
            assert(fs.drop_last()[i] == fs[i]);
        }
        lemma_fields_end_nonneg(fs.drop_last());
        assert(fs.last() == fs[fs.len() - 1]);
        lemma_align_up(fields_end(fs.drop_last()), fs.last().align as int);
    }
}

/// Lays out a struct with the given field layouts, in order. Returns `None` when the struct
/// exceeds `MAX_TYPE_BYTES`.
pub fn layout_struct(fields: &Vec<Layout>) -> (r: Option<StructLayout>)
    requires
        all_wf(fields@),
    ensures
        r is Some <==> fields_fit(fields@),
        r matches Some(sl) ==> sl.describes(fields@) && sl.layout.wf(),
{
    let ghost fs = fields@;
    let mut offsets: Vec<u64> = Vec::new();
    let mut end: u64 = 0;
    let mut align: u64 = 1;
    let mut i: usize = 0;
    while i < fields.len()
        invariant
            fs == fields@,
            all_wf(fs),
            0 <= i <= fs.len(),
            end == fields_end(fs.take(i as int)),
            end <= MAX_TYPE_BYTES,
            align == fields_align(fs.take(i as int)),
            offsets@.len() == i,
            forall|j: int| 0 <= j < i ==> offsets@[j] == field_offset(fs, j),
        decreases fs.len() - i,
    {
        let f = fields[i];
        assert(f.wf());
        let off = align_to(end, f.align);
        let new_end = off + f.size;
        proof {
            let p = fs.take(i + 1);
            assert(p.drop_last() =~= fs.take(i as int));
            assert(p.last() == fs[i as int]);
        }
        if new_end > MAX_TYPE_BYTES {
            proof {
                lemma_fields_end_monotone(fs, i + 1);
                lemma_fields_align_bounds(fs);
                lemma_align_up(fields_end(fs), fields_align(fs));
            }
            return None;
        }
        offsets.push(off);
        end = new_end;
        if f.align > align {
            align = f.align;
        }
        i = i + 1;
    }
    assert(fs.take(fs.len() as int) =~= fs);
    proof {
        lemma_fields_align_bounds(fs);
        lemma_align_up(end as int, align as int);
    }
    let size = align_to(end, align);
    if size > MAX_TYPE_BYTES {
        return None;
    }
    Some(StructLayout { offsets, layout: Layout { size, align } })
}

} // verus!
