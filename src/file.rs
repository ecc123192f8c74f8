use vstd::prelude::*;
use crate::file_group::FileGroupIR;
use crate::intrinsics::{is_marshallable, is_value_struct, needs_wrapper};
use crate::layout::TargetDataLayout;
use crate::program::{FunctionDef, Program, StructDef, Ty, Visibility};
use crate::type_manager::{native_type_of, NativeType, TypeManager};

verus! {

/// The native signature of a function or of its marshalling wrapper.
#[derive(Clone, Debug)]
pub struct FunctionSignature {
    /// The function, by index.
    pub function: usize,
    /// The symbol: the function's name, with `_wrapper` appended for a wrapper.
    pub name: String,
    pub params: Vec<NativeType>,
    /// The return type; `None` for a function that returns nothing.
    pub ret: Option<NativeType>,
    pub is_wrapper: bool,
}

pub open spec fn symbol_name(f: FunctionDef, wrapper: bool) -> Seq<char> {
    if wrapper {
        f.name@ + "_wrapper"@
    } else {
        f.name@
    }
}

/// Whether a struct type's cached native type is the current one.
pub open spec fn covered(tm: TypeManager, p: Program, t: Ty) -> bool {
    t matches Ty::Struct(s) ==> tm.reusable(&p, s)
}

/// Whether `sig` is the signature of function `f` (or of its wrapper) with the native struct
/// types that `tm` caches.
pub open spec fn signature_of(
    tm: TypeManager,
    p: Program,
    dl: TargetDataLayout,
    sig: FunctionSignature,
    f: int,
    wrapper: bool,
) -> bool {
    let def = p.functions@[f];
    &&& sig.function == f
    &&& sig.is_wrapper == wrapper
    &&& sig.name@ == symbol_name(def, wrapper)
    &&& sig.params@.len() == def.params@.len()
    &&& forall|k: int|
        0 <= k < def.params@.len() ==> {
            &&& covered(tm, p, def.params@[k])
            &&& #[trigger] sig.params@[k] == native_type_of(
                p.structs@,
                dl,
                def.params@[k],
                wrapper,
                tm.cached_handle(def.params@[k]),
            )
        }
    &&& covered(tm, p, def.ret)
    &&& sig.ret == (if def.ret == Ty::Empty {
        None
    } else {
        Some(native_type_of(p.structs@, dl, def.ret, wrapper, tm.cached_handle(def.ret)))
    })
}

/// A later lookup of other types keeps the native types of covered struct types.
pub open spec fn keeps(tm0: TypeManager, tm1: TypeManager, p: Program) -> bool {
    forall|s: usize| tm0.reusable(&p, s) ==> #[trigger] tm1.cached(s) == tm0.cached(s)
}

proof fn lemma_keeps_signature(
    tm0: TypeManager,
    tm1: TypeManager,
    p: Program,
    dl: TargetDataLayout,
    sig: FunctionSignature,
    f: int,
    wrapper: bool,
)
    requires
        signature_of(tm0, p, dl, sig, f, wrapper),
        keeps(tm0, tm1, p),
    ensures
        signature_of(tm1, p, dl, sig, f, wrapper),
{
    let def = p.functions@[f];
    assert forall|k: int| 0 <= k < def.params@.len() implies {
        &&& covered(tm1, p, def.params@[k])
        &&& #[trigger] sig.params@[k] == native_type_of(
            p.structs@,
            dl,
            def.params@[k],
            wrapper,
            tm1.cached_handle(def.params@[k]),
        )
    } by {
        assert(covered(tm0, p, def.params@[k]));
        if let Ty::Struct(s) = def.params@[k] {
            assert(tm1.cached(s) == tm0.cached(s));
        }
    }
    if let Ty::Struct(s) = def.ret {
        assert(tm1.cached(s) == tm0.cached(s));
    }
}

/// Looks up the native type of `t`, keeping every covered struct's native type.
fn lookup(tm: &mut TypeManager, p: &Program, dl: &TargetDataLayout, t: Ty, wrapper: bool) -> (r: NativeType)
    requires
        old(tm).wf(),
        crate::program::ty_wf(t, p.num_structs()),
    ensures
        final(tm).wf(),
        keeps(*old(tm), *final(tm), *p),
        covered(*final(tm), *p, t),
        r == native_type_of(p.structs@, *dl, t, wrapper, final(tm).cached_handle(t)),
{
    let r = tm.type_ir(p, dl, t, wrapper);
    proof {
        assert forall|s: usize| old(tm).reusable(p, s) implies #[trigger] tm.cached(s) == old(tm).cached(s) by {
            if t != Ty::Struct(s) {
            }
        }
    }
    r
}

/// The native signature of function `f`, or of its marshalling wrapper, whose value-struct
/// parameters and return value are handle references.
pub fn gen_signature(tm: &mut TypeManager, p: &Program, dl: &TargetDataLayout, f: usize, make_marshallable: bool) -> (r:
    FunctionSignature)
    requires
        old(tm).wf(),
        p.wf(),
        f < p.num_functions(),
    ensures
        final(tm).wf(),
        keeps(*old(tm), *final(tm), *p),
        signature_of(*final(tm), *p, *dl, r, f as int, make_marshallable),
{
    let def = &p.functions[f];
    let mut params: Vec<NativeType> = Vec::new();
    let mut k: usize = 0;
    while k < def.params.len()
        invariant
            tm.wf(),
            p.wf(),
            f < p.num_functions(),
            def == p.functions@[f as int],
            keeps(*old(tm), *tm, *p),
            0 <= k <= def.params@.len(),
            params@.len() == k,
            forall|j: int|
                0 <= j < k ==> {
                    &&& covered(*tm, *p, def.params@[j])
                    &&& #[trigger] params@[j] == native_type_of(
                        p.structs@,
                        *dl,
                        def.params@[j],
                        make_marshallable,
                        tm.cached_handle(def.params@[j]),
                    )
                },
        decreases def.params@.len() - k,
    {
        assert(crate::program::ty_wf(p.functions@[f as int].params@[k as int], p.num_structs()));
        let ghost tm0 = *tm;
        let nt = lookup(tm, p, dl, def.params[k], make_marshallable);
        proof {
            assert forall|j: int| 0 <= j < k implies {
                &&& covered(*tm, *p, def.params@[j])
                &&& #[trigger] params@[j] == native_type_of(
                    p.structs@,
                    *dl,
                    def.params@[j],
                    make_marshallable,
                    tm.cached_handle(def.params@[j]),
                )
            } by {
                if let Ty::Struct(s) = def.params@[j] {
                    assert(tm.cached(s) == tm0.cached(s));
                }
            }
            assert forall|s: usize| old(tm).reusable(p, s) implies #[trigger] tm.cached(s) == old(
                tm,
            ).cached(s) by {
                assert(tm0.cached(s) == old(tm).cached(s));
            }
        }
        params.push(nt);
        k = k + 1;
    }
    assert(crate::program::ty_wf(p.functions@[f as int].ret, p.num_structs()));
    let ret = if def.ret == Ty::Empty {
        None
    } else {
        let ghost tm0 = *tm;
        let nt = lookup(tm, p, dl, def.ret, make_marshallable);
        proof {
            assert forall|j: int| 0 <= j < def.params@.len() implies {
                &&& covered(*tm, *p, def.params@[j])
                &&& #[trigger] params@[j] == native_type_of(
                    p.structs@,
                    *dl,
                    def.params@[j],
                    make_marshallable,
                    tm.cached_handle(def.params@[j]),
                )
            } by {
                if let Ty::Struct(s) = def.params@[j] {
                    assert(tm.cached(s) == tm0.cached(s));
                }
            }
            assert forall|s: usize| old(tm).reusable(p, s) implies #[trigger] tm.cached(s) == old(
                tm,
            ).cached(s) by {
                assert(tm0.cached(s) == old(tm).cached(s));
            }
        }
        Some(nt)
    };
    let name = if make_marshallable {
        def.name.clone().concat("_wrapper")
    } else {
        def.name.clone()
    };
    FunctionSignature { function: f, name, params, ret, is_wrapper: make_marshallable }
}

/// The functions defined in the file (not extern) among the first `n`, in order.
pub open spec fn defined_fns(fs: Seq<FunctionDef>, n: int) -> Seq<usize>
    decreases n,
{
    if n <= 0 {
        Seq::empty()
    } else if !fs[n - 1].is_extern {
        defined_fns(fs, n - 1).push((n - 1) as usize)
    } else {
        defined_fns(fs, n - 1)
    }
}

/// The functions among the first `n` that get a marshalling wrapper, in order.
pub open spec fn wrapper_fns(ss: Seq<StructDef>, fs: Seq<FunctionDef>, n: int) -> Seq<usize>
    decreases n,
{
    if n <= 0 {
        Seq::empty()
    } else if needs_wrapper(ss, fs[n - 1]) {
        wrapper_fns(ss, fs, n - 1).push((n - 1) as usize)
    } else {
        wrapper_fns(ss, fs, n - 1)
    }
}

/// The public functions defined in the file among the first `n`, in order: the file's API.
pub open spec fn api_fns(fs: Seq<FunctionDef>, n: int) -> Seq<usize>
    decreases n,
{
    if n <= 0 {
        Seq::empty()
    } else if !fs[n - 1].is_extern && fs[n - 1].visibility == Visibility::Public {
        api_fns(fs, n - 1).push((n - 1) as usize)
    } else {
        api_fns(fs, n - 1)
    }
}

/// The group globals that a file's code refers to.
#[derive(Clone, Copy, Debug, PartialEq, Eq, Structural)]
pub struct ExternalGlobals {
    pub alloc_handle: bool,
    pub dispatch_table: bool,
    pub type_table: bool,
}

/// What is generated for one file: the signatures of its functions, those of its wrappers,
/// its API and the group globals it declares.
pub struct FileIR {
    pub signatures: Vec<FunctionSignature>,
    pub wrappers: Vec<FunctionSignature>,
    pub api: Vec<usize>,
    pub globals: ExternalGlobals,
}

pub open spec fn sig_fns(v: Seq<FunctionSignature>) -> Seq<usize> {
    v.map_values(|s: FunctionSignature| s.function)
}

/// Generates the signatures of all functions of the file before any body, then those of the
/// wrappers, and declares the group's globals.
pub fn file_ir(tm: &mut TypeManager, p: &Program, dl: &TargetDataLayout, group: &FileGroupIR) -> (r:
    FileIR)
    requires
        old(tm).wf(),
        p.wf(),
    ensures
        final(tm).wf(),
        sig_fns(r.signatures@) == defined_fns(p.functions@, p.functions@.len() as int),
        sig_fns(r.wrappers@) == wrapper_fns(p.structs@, p.functions@, p.functions@.len() as int),
        forall|i: int|
            0 <= i < r.signatures@.len() ==> signature_of(
                *final(tm),
                *p,
                *dl,
                #[trigger] r.signatures@[i],
                r.signatures@[i].function as int,
                false,
            ),
        forall|i: int|
            0 <= i < r.wrappers@.len() ==> signature_of(
                *final(tm),
                *p,
                *dl,
                #[trigger] r.wrappers@[i],
                r.wrappers@[i].function as int,
                true,
            ),
        r.api@ == api_fns(p.functions@, p.functions@.len() as int),
        r.globals == (ExternalGlobals {
            alloc_handle: group.allocator_handle,
            dispatch_table: group.dispatch_table.view_entries().len() > 0,
            type_table: group.type_table.view_entries().len() > 0,
        }),
{
    let mut signatures: Vec<FunctionSignature> = Vec::new();
    let mut wrappers: Vec<FunctionSignature> = Vec::new();
    let mut api: Vec<usize> = Vec::new();
    let mut f: usize = 0;
    while f < p.functions.len()
        invariant
            tm.wf(),
            p.wf(),
            0 <= f <= p.functions@.len(),
            sig_fns(signatures@) == defined_fns(p.functions@, f as int),
            sig_fns(wrappers@) == wrapper_fns(p.structs@, p.functions@, f as int),
            api@ == api_fns(p.functions@, f as int),
            forall|i: int|
                0 <= i < signatures@.len() ==> signature_of(
                    *tm,
                    *p,
                    *dl,
                    #[trigger] signatures@[i],
                    signatures@[i].function as int,
                    false,
                ),
            forall|i: int|
                0 <= i < wrappers@.len() ==> signature_of(
                    *tm,
                    *p,
                    *dl,
                    #[trigger] wrappers@[i],
                    wrappers@[i].function as int,
                    true,
                ),
        decreases p.functions@.len() - f,
    {
        let def = &p.functions[f];
        if !def.is_extern {
            let ghost tm0 = *tm;
            let sig = gen_signature(tm, p, dl, f, false);
            proof {
                assert forall|i: int| 0 <= i < signatures@.len() implies signature_of(
                    *tm,
                    *p,
                    *dl,
                    #[trigger] signatures@[i],
                    signatures@[i].function as int,
                    false,
                ) by {
                    lemma_keeps_signature(tm0, *tm, *p, *dl, signatures@[i], signatures@[i].function as int, false);
                }
                assert forall|i: int| 0 <= i < wrappers@.len() implies signature_of(
                    *tm,
                    *p,
                    *dl,
                    #[trigger] wrappers@[i],
                    wrappers@[i].function as int,
                    true,
                ) by {
                    lemma_keeps_signature(tm0, *tm, *p, *dl, wrappers@[i], wrappers@[i].function as int, true);
                }
            }
            signatures.push(sig);
            assert(sig_fns(signatures@) =~= defined_fns(p.functions@, f as int + 1));
            if def.visibility == Visibility::Public {
                api.push(f);
                if !is_marshallable(p, f) {
                    let ghost tm1 = *tm;
                    let wsig = gen_signature(tm, p, dl, f, true);
                    proof {
                        assert forall|i: int| 0 <= i < signatures@.len() implies signature_of(
                            *tm,
                            *p,
                            *dl,
                            #[trigger] signatures@[i],
                            signatures@[i].function as int,
                            false,
                        ) by {
                            lemma_keeps_signature(tm1, *tm, *p, *dl, signatures@[i], signatures@[i].function as int, false);
                        }
                        assert forall|i: int| 0 <= i < wrappers@.len() implies signature_of(
                            *tm,
                            *p,
                            *dl,
                            #[trigger] wrappers@[i],
                            wrappers@[i].function as int,
                            true,
                        ) by {
                            lemma_keeps_signature(tm1, *tm, *p, *dl, wrappers@[i], wrappers@[i].function as int, true);
                        }
                    }
                    wrappers.push(wsig);
                }
            }
        }
        f = f + 1;
        proof {
            assert(sig_fns(wrappers@) =~= wrapper_fns(p.structs@, p.functions@, f as int));
        }
    }
    let globals = ExternalGlobals {
        alloc_handle: group.allocator_handle,
        dispatch_table: group.dispatch_table.has_global(),
        type_table: !group.type_table.is_empty(),
    };
    FileIR { signatures, wrappers, api, globals }
}

proof fn lemma_wrapper_fns(ss: Seq<StructDef>, fs: Seq<FunctionDef>, n: int)
    requires
        0 <= n <= fs.len(),
        fs.len() <= usize::MAX,
    ensures
        forall|i: int|
            0 <= i < wrapper_fns(ss, fs, n).len() ==> (#[trigger] wrapper_fns(ss, fs, n)[i]) < n
                && needs_wrapper(ss, fs[wrapper_fns(ss, fs, n)[i] as int]),
        forall|i: int, j: int|
            0 <= i < j < wrapper_fns(ss, fs, n).len() ==> wrapper_fns(ss, fs, n)[i] < wrapper_fns(
                ss,
                fs,
                n,
            )[j],
        forall|f: int|
            0 <= f < n && needs_wrapper(ss, #[trigger] fs[f]) ==> wrapper_fns(ss, fs, n).contains(
                f as usize,
            ),
    decreases n,
{
    if n > 0 {
        lemma_wrapper_fns(ss, fs, n - 1);
        let prev = wrapper_fns(ss, fs, n - 1);
        if needs_wrapper(ss, fs[n - 1]) {
            let w = wrapper_fns(ss, fs, n);
            assert(w == prev.push((n - 1) as usize));
            assert forall|i: int| 0 <= i < w.len() implies (#[trigger] w[i]) < n && needs_wrapper(
                ss,
                fs[w[i] as int],
            ) by {
                if i < prev.len() {
                    assert(w[i] == prev[i]);
                }
            }
            assert forall|i: int, j: int| 0 <= i < j < w.len() implies w[i] < w[j] by {
                assert(w[i] == prev[i]);
                if j < prev.len() {
                    assert(w[j] == prev[j]);
                }
            }
            assert forall|f: int| 0 <= f < n && needs_wrapper(ss, #[trigger] fs[f]) implies wrapper_fns(
                ss,
                fs,
                n,
            ).contains(f as usize) by {
                if f < n - 1 {
                    let k = choose|k: int| 0 <= k < prev.len() && prev[k] == f as usize;
                    assert(wrapper_fns(ss, fs, n)[k] == f as usize);
                } else {
                    assert(wrapper_fns(ss, fs, n)[prev.len() as int] == f as usize);
                }
            }
        }
    }
}

/// A public function of the file gets exactly one marshalling wrapper when it takes or returns a
/// value struct, and none otherwise; in particular none when its signature has fundamental
/// types only.
pub proof fn lemma_wrapper_generation(ss: Seq<StructDef>, fs: Seq<FunctionDef>, f: int)
    requires
        0 <= f < fs.len(),
        fs.len() <= usize::MAX,
        fs[f].visibility == Visibility::Public,
        !fs[f].is_extern,
    ensures
        ({
            let w = wrapper_fns(ss, fs, fs.len() as int);
            let def = fs[f];
            &&& (exists|i: int| 0 <= i < w.len() && w[i] == f) <==> (exists|k: int|
                0 <= k < def.params@.len() && is_value_struct(ss, #[trigger] def.params@[k]))
                || is_value_struct(ss, def.ret)
            &&& forall|i: int, j: int|
                0 <= i < w.len() && 0 <= j < w.len() && w[i] == f && w[j] == f ==> i == j
            &&& (forall|k: int| 0 <= k < def.params@.len() ==> !(#[trigger] def.params@[k] is Struct))
                && !(def.ret is Struct) ==> !(exists|i: int| 0 <= i < w.len() && w[i] == f)
        }),
{
    let n = fs.len() as int;
    let w = wrapper_fns(ss, fs, n);
    lemma_wrapper_fns(ss, fs, n);
    if needs_wrapper(ss, fs[f]) {
        assert(w.contains(f as usize));
        let i = choose|i: int| 0 <= i < w.len() && w[i] == f as usize;
        assert(w[i] == f);
    }
    if exists|i: int| 0 <= i < w.len() && w[i] == f {
        let i = choose|i: int| 0 <= i < w.len() && w[i] == f;
        assert(needs_wrapper(ss, fs[w[i] as int]));
    }
    assert forall|i: int, j: int| 0 <= i < w.len() && 0 <= j < w.len() && w[i] == f && w[j] == f implies i == j by {
        if i < j {
            assert(w[i] < w[j]);
        } else if j < i {
            assert(w[j] < w[i]);
        }
    }
}

} // verus!
