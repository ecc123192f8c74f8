use vstd::prelude::*;

verus! {

#[derive(Clone, Copy, Debug, PartialEq, Eq, Structural)]
pub enum Signedness {
    Signed,
    Unsigned,
}

/// Width of an integer type; `Xsize` is as wide as a pointer on the target.
#[derive(Clone, Copy, Debug, PartialEq, Eq, Structural)]
pub enum IntBitness {
    X8,
    X16,
    X32,
    X64,
    X128,
    Xsize,
}

#[derive(Clone, Copy, Debug, PartialEq, Eq, Structural)]
pub enum FloatBitness {
    X32,
    X64,
}

/// How values of a struct are stored: inline (`Value`) or on the garbage-collected heap (`GC`).
#[derive(Clone, Copy, Debug, PartialEq, Eq, Structural)]
pub enum MemoryKind {
    Value,
    GC,
}

/// A semantic type of the source language. Structs are named by their index in
/// `Program::structs`.
#[derive(Clone, Copy, Debug, PartialEq, Eq, Structural)]
pub enum Ty {
    Empty,
    Bool,
    Int(Signedness, IntBitness),
    Float(FloatBitness),
    Struct(usize),
}

#[derive(Clone, Copy, Debug, PartialEq, Eq, Structural)]
pub enum Visibility {
    Public,
    Private,
}

/// What a call expression calls: a function, or a struct's constructor.
#[derive(Clone, Copy, Debug, PartialEq, Eq, Structural)]
pub enum Callee {
    Function(usize),
    Struct(usize),
}

/// The kinds of expressions that code generation distinguishes.
#[derive(Clone, Copy, Debug, PartialEq, Eq, Structural)]
pub enum ExprKind {
    Call(Callee),
    /// A record literal `S { .. }`.
    RecordLit(usize),
    /// A path that resolves to a unit struct, which constructs it.
    StructPath(usize),
    Other,
}

/// One expression of a body; `children` are indices into the body's arena, in source order.
#[derive(Clone, Debug)]
pub struct Expr {
    pub kind: ExprKind,
    pub children: Vec<usize>,
}

/// A function body: an arena of expressions and its root. Sub-expressions are allocated before
/// the expressions that contain them, so every child index is smaller than its parent's.
#[derive(Clone, Debug)]
pub struct Body {
    pub exprs: Vec<Expr>,
    pub root: usize,
}

#[derive(Clone, Debug)]
pub struct StructField {
    pub name: String,
    pub ty: Ty,
}

#[derive(Clone, Debug)]
pub struct StructDef {
    pub name: String,
    pub memory_kind: MemoryKind,
    pub fields: Vec<StructField>,
}

#[derive(Clone, Debug)]
pub struct FunctionDef {
    pub name: String,
    pub visibility: Visibility,
    pub is_extern: bool,
    pub params: Vec<Ty>,
    pub ret: Ty,
    pub body: Body,
}

/// A type-checked source file: its structs and functions in definition order.
#[derive(Clone, Debug)]
pub struct Program {
    pub structs: Vec<StructDef>,
    pub functions: Vec<FunctionDef>,
}

pub open spec fn ty_wf(t: Ty, num_structs: nat) -> bool {
    t matches Ty::Struct(s) ==> s < num_structs
}

impl Body {
    /// The root is an expression of the arena and every child precedes its parent.
    pub open spec fn arena_wf(&self) -> bool {
        &&& self.root < self.exprs@.len()
        &&& forall|i: int, k: int|
            0 <= i < self.exprs@.len() && 0 <= k < self.exprs@[i].children@.len() ==> (
            #[trigger] self.exprs@[i].children@[k]) < i
    }

    /// An arena whose calls and struct references name functions and structs that exist.
    pub open spec fn wf(&self, num_structs: nat, num_functions: nat) -> bool {
        &&& self.arena_wf()
        &&& forall|i: int|
            0 <= i < self.exprs@.len() ==> match (#[trigger] self.exprs@[i]).kind {
                ExprKind::Call(Callee::Function(f)) => f < num_functions,
                ExprKind::Call(Callee::Struct(s)) => s < num_structs,
                ExprKind::RecordLit(s) => s < num_structs,
                ExprKind::StructPath(s) => s < num_structs,
                ExprKind::Other => true,
            }
    }
}

impl Program {
    pub open spec fn num_structs(&self) -> nat {
        self.structs@.len()
    }

    pub open spec fn num_functions(&self) -> nat {
        self.functions@.len()
    }

    /// Every struct reference names a struct of the program, every call a function of it, and
    /// every body is a well-formed arena.
    pub open spec fn wf(&self) -> bool {
        &&& forall|s: int, k: int|
            0 <= s < self.structs@.len() && 0 <= k < self.structs@[s].fields@.len() ==> ty_wf(
                #[trigger] self.structs@[s].fields@[k].ty,
                self.num_structs(),
            )
        &&& forall|f: int, k: int|
            0 <= f < self.functions@.len() && 0 <= k < self.functions@[f].params@.len()
                ==> ty_wf(#[trigger] self.functions@[f].params@[k], self.num_structs())
        &&& forall|f: int|
            0 <= f < self.functions@.len() ==> {
                &&& ty_wf((#[trigger] self.functions@[f]).ret, self.num_structs())
                &&& self.functions@[f].body.wf(self.num_structs(), self.num_functions())
            }
    }

    pub open spec fn field_tys(&self, s: int) -> Seq<Ty> {
        field_tys(self.structs@, s)
    }
}

/// The types of the fields of struct `s`, in order.
pub open spec fn field_tys(ss: Seq<StructDef>, s: int) -> Seq<Ty> {
    ss[s].fields@.map_values(|f: StructField| f.ty)
}

/// The expressions of `b` below `id` in pre-order: `id` itself, then the sub-trees of its
/// children in source order.
pub open spec fn preorder(b: Body, id: int) -> Seq<usize>
    decreases id, b.exprs@[id].children@.len() + 1,
{
    if 0 <= id < b.exprs@.len() {
        seq![id as usize] + preorder_children(b, id, b.exprs@[id].children@.len() as int)
    } else {
        Seq::empty()
    }
}

/// The pre-order sequences of the first `k` children of `id`, concatenated.
pub open spec fn preorder_children(b: Body, id: int, k: int) -> Seq<usize>
    decreases id, k,
{
    if k <= 0 || !(0 <= id < b.exprs@.len()) || k > b.exprs@[id].children@.len() {
        Seq::empty()
    } else {
        let child = b.exprs@[id].children@[k - 1] as int;
        if 0 <= child < id {
            preorder_children(b, id, k - 1) + preorder(b, child)
        } else {
            preorder_children(b, id, k - 1)
        }
    }
}

/// Appends the pre-order walk of the sub-tree at `id` to `out`.
fn walk(b: &Body, id: usize, out: &mut Vec<usize>)
    requires
        id < b.exprs@.len(),
        forall|i: int, k: int|
            0 <= i < b.exprs@.len() && 0 <= k < b.exprs@[i].children@.len() ==> (
            #[trigger] b.exprs@[i].children@[k]) < i,
    ensures
        final(out)@ == old(out)@ + preorder(*b, id as int),
        forall|k: int|
            old(out)@.len() <= k < final(out)@.len() ==> (#[trigger] final(out)@[k]) < b.exprs@.len(),
    decreases id,
{
    let ghost start = out@;
    out.push(id);
    let children = &b.exprs[id].children;
    let mut k: usize = 0;
    while k < children.len()
        invariant
            id < b.exprs@.len(),
            children == b.exprs@[id as int].children,
            forall|i: int, j: int|
                0 <= i < b.exprs@.len() && 0 <= j < b.exprs@[i].children@.len() ==> (
                #[trigger] b.exprs@[i].children@[j]) < i,
            0 <= k <= children@.len(),
            out@ == start + seq![id] + preorder_children(*b, id as int, k as int),
            forall|j: int| start.len() <= j < out@.len() ==> (#[trigger] out@[j]) < b.exprs@.len(),
        decreases children@.len() - k,
    {
        let child = children[k];
        assert(b.exprs@[id as int].children@[k as int] < id);
        walk(b, child, out);
        k = k + 1;
    }
    assert(start + seq![id] + preorder_children(*b, id as int, children@.len() as int)
        =~= start + preorder(*b, id as int));
}

/// The indices of all expressions of a well-formed body, in pre-order from its root.
pub fn body_preorder(b: &Body) -> (r: Vec<usize>)
    requires
        b.arena_wf(),
    ensures
        r@ == preorder(*b, b.root as int),
        forall|k: int| 0 <= k < r@.len() ==> (#[trigger] r@[k]) < b.exprs@.len(),
{
    let mut out: Vec<usize> = Vec::new();
    walk(b, b.root, &mut out);
    assert(out@ =~= preorder(*b, b.root as int));
    out
}

fn check_ty(t: Ty, num_structs: usize) -> (r: bool)
    ensures
        r == ty_wf(t, num_structs as nat),
{
    match t {
        Ty::Struct(s) => s < num_structs,
        _ => true,
    }
}

impl Body {
    /// Checks the conditions of `wf`.
    pub fn check_wf(&self, num_structs: usize, num_functions: usize) -> (r: bool)
        ensures
            r == self.wf(num_structs as nat, num_functions as nat),
    {
        if self.root >= self.exprs.len() {
            return false;
        }
        let mut i: usize = 0;
        while i < self.exprs.len()
            invariant
                0 <= i <= self.exprs@.len(),
                forall|a: int, k: int|
                    0 <= a < i && 0 <= k < self.exprs@[a].children@.len() ==> (
                    #[trigger] self.exprs@[a].children@[k]) < a,
                forall|a: int|
                    0 <= a < i ==> match (#[trigger] self.exprs@[a]).kind {
                        ExprKind::Call(Callee::Function(f)) => f < num_functions,
                        ExprKind::Call(Callee::Struct(s)) => s < num_structs,
                        ExprKind::RecordLit(s) => s < num_structs,
                        ExprKind::StructPath(s) => s < num_structs,
                        ExprKind::Other => true,
                    },
            decreases self.exprs@.len() - i,
        {
            let e = &self.exprs[i];
            let kind_ok = match e.kind {
                ExprKind::Call(Callee::Function(f)) => f < num_functions,
                ExprKind::Call(Callee::Struct(s)) => s < num_structs,
                ExprKind::RecordLit(s) => s < num_structs,
                ExprKind::StructPath(s) => s < num_structs,
                ExprKind::Other => true,
            };
            if !kind_ok {
                return false;
            }
            let mut k: usize = 0;
            while k < e.children.len()
                invariant
                    i < self.exprs@.len(),
                    e == self.exprs@[i as int],
                    0 <= k <= e.children@.len(),
                    forall|j: int| 0 <= j < k ==> (#[trigger] e.children@[j]) < i,
                decreases e.children@.len() - k,
            {
                if e.children[k] >= i {
                    assert(self.exprs@[i as int].children@[k as int] >= i);
                    return false;
                }
                k = k + 1;
            }
            i = i + 1;
        }
        true
    }
}

impl Program {
    /// Checks the conditions of `wf`: what a type checker guarantees of its output.
    pub fn check_wf(&self) -> (r: bool)
        ensures
            r == self.wf(),
    {
        let ns = self.structs.len();
        let nf = self.functions.len();
        let mut s: usize = 0;
        while s < ns
            invariant
                ns == self.structs@.len(),
                0 <= s <= ns,
                forall|a: int, k: int|
                    0 <= a < s && 0 <= k < self.structs@[a].fields@.len() ==> ty_wf(
                        #[trigger] self.structs@[a].fields@[k].ty,
                        ns as nat,
                    ),
            decreases ns - s,
        {
            let fields = &self.structs[s].fields;
            let mut k: usize = 0;
            while k < fields.len()
                invariant
                    s < ns,
                    ns == self.structs@.len(),
                    fields == self.structs@[s as int].fields,
                    0 <= k <= fields@.len(),
                    forall|j: int| 0 <= j < k ==> ty_wf(#[trigger] fields@[j].ty, ns as nat),
                decreases fields@.len() - k,
            {
                if !check_ty(fields[k].ty, ns) {
                    assert(!ty_wf(self.structs@[s as int].fields@[k as int].ty, ns as nat));
                    return false;
                }
                k = k + 1;
            }
            s = s + 1;
        }
        let mut f: usize = 0;
        while f < nf
            invariant
                ns == self.structs@.len(),
                nf == self.functions@.len(),
                0 <= f <= nf,
                forall|a: int, k: int|
                    0 <= a < f && 0 <= k < self.functions@[a].params@.len() ==> ty_wf(
                        #[trigger] self.functions@[a].params@[k],
                        ns as nat,
                    ),
                forall|a: int|
                    0 <= a < f ==> {
                        &&& ty_wf((#[trigger] self.functions@[a]).ret, ns as nat)
                        &&& self.functions@[a].body.wf(ns as nat, nf as nat)
                    },
            decreases nf - f,
        {
            let def = &self.functions[f];
            let mut k: usize = 0;
            while k < def.params.len()
                invariant
                    f < nf,
                    nf == self.functions@.len(),
                    ns == self.structs@.len(),
                    def == self.functions@[f as int],
                    0 <= k <= def.params@.len(),
                    forall|j: int| 0 <= j < k ==> ty_wf(#[trigger] def.params@[j], ns as nat),
                decreases def.params@.len() - k,
            {
                if !check_ty(def.params[k], ns) {
                    assert(!ty_wf(self.functions@[f as int].params@[k as int], ns as nat));
                    return false;
                }
                k = k + 1;
            }
            if !check_ty(def.ret, ns) || !def.body.check_wf(ns, nf) {
                assert(!(ty_wf(self.functions@[f as int].ret, ns as nat)
                    && self.functions@[f as int].body.wf(ns as nat, nf as nat)));
                return false;
            }
            f = f + 1;
        }
        true
    }
}

} // verus!
