use vstd::prelude::*;
use crate::code_gen::CodeGenerationError;
use crate::file::{
    api_fns, defined_fns, file_ir, sig_fns, signature_of, wrapper_fns, ExternalGlobals, FileIR,
};
use crate::file_group::{group_ir, group_ok, group_result, FileGroupIR};
use crate::layout::TargetDataLayout;
use crate::program::{Program, Ty, ty_wf};
use crate::ty::{type_info_of, TypeInfo};
use crate::type_manager::{native_type_of, native_view, NativeStruct, NativeType, TypeManager};

verus! {

#[derive(Clone, Copy, Debug, PartialEq, Eq, Structural)]
pub enum OptimizationLevel {
    Off,
    Less,
    Default,
    Aggressive,
}

/// Options of type lowering: whether types take the representation that crosses the runtime
/// boundary.
#[derive(Clone, Copy, Debug, PartialEq, Eq, Structural)]
pub struct CodeGenParams {
    pub make_marshallable: bool,
}

/// The target to generate code for.
#[derive(Clone, Debug)]
pub struct Target {
    pub llvm_target: String,
    pub cpu: String,
    pub features: String,
    pub data_layout: TargetDataLayout,
}

/// The state of code generation for one program: the program, the target, the optimization
/// level, and the cache of native struct types that persists across rebuilds.
pub struct CodegenContext {
    optimization_lvl: OptimizationLevel,
    hir_db: Program,
    target: Target,
    type_manager: TypeManager,
}

impl CodegenContext {
    pub closed spec fn program(&self) -> Program {
        self.hir_db
    }

    pub closed spec fn layout(&self) -> TargetDataLayout {
        self.target.data_layout
    }

    pub closed spec fn types(&self) -> TypeManager {
        self.type_manager
    }

    pub closed spec fn level(&self) -> OptimizationLevel {
        self.optimization_lvl
    }

    pub closed spec fn wf(&self) -> bool {
        &&& self.hir_db.wf()
        &&& self.target.data_layout.wf()
        &&& self.type_manager.wf()
    }

    /// A context for `hir_db` on `target`, without optimization. A target whose data layout is
    /// unsupported is a configuration error; a program that refers to structs, functions or
    /// expressions that do not exist is rejected.
    pub fn new(hir_db: Program, target: Target) -> (r: Result<CodegenContext, CodeGenerationError>)
        ensures
            match r {
                Ok(c) => {
                    &&& c.wf()
                    &&& c.program() == hir_db
                    &&& c.layout() == target.data_layout
                    &&& c.level() == OptimizationLevel::Off
                    &&& c.types().handle_views().len() == 0
                    &&& forall|s: usize| c.types().cached(s) is None
                },
                Err(e) => if !target.data_layout.wf() {
                    e == CodeGenerationError::UnsupportedTarget
                } else {
                    !hir_db.wf() && e == CodeGenerationError::InvalidProgram
                },
            },
    {
        if !target.data_layout.is_supported() {
            return Err(CodeGenerationError::UnsupportedTarget);
        }
        if !hir_db.check_wf() {
            return Err(CodeGenerationError::InvalidProgram);
        }
        Ok(
            CodegenContext {
                optimization_lvl: OptimizationLevel::Off,
                hir_db,
                target,
                type_manager: TypeManager::new(),
            },
        )
    }

    /// The program being compiled.
    pub fn hir_db(&self) -> (r: &Program)
        ensures
            *r == self.program(),
    {
        &self.hir_db
    }

    /// Replaces the program with a new version of it, keeping the cache of native struct types.
    /// A program that is not well formed is rejected and the old one kept.
    pub fn set_hir_db(&mut self, hir_db: Program) -> (r: Result<(), CodeGenerationError>)
        requires
            old(self).wf(),
        ensures
            final(self).wf(),
            final(self).types() == old(self).types(),
            final(self).layout() == old(self).layout(),
            final(self).level() == old(self).level(),
            r is Ok <==> hir_db.wf(),
            r is Ok ==> final(self).program() == hir_db,
            r is Err ==> r == Err::<(), CodeGenerationError>(CodeGenerationError::InvalidProgram)
                && final(self).program() == old(self).program(),
    {
        if !hir_db.check_wf() {
            return Err(CodeGenerationError::InvalidProgram);
        }
        self.hir_db = hir_db;
        Ok(())
    }

    pub fn optimization_lvl(&self) -> (r: OptimizationLevel)
        ensures
            r == self.level(),
    {
        self.optimization_lvl
    }

    pub fn set_optimization_lvl(&mut self, optimization_lvl: OptimizationLevel)
        requires
            old(self).wf(),
        ensures
            final(self).wf(),
            final(self).level() == optimization_lvl,
            final(self).program() == old(self).program(),
            final(self).layout() == old(self).layout(),
            final(self).types() == old(self).types(),
    {
        self.optimization_lvl = optimization_lvl;
    }

    pub fn target(&self) -> (r: &Target)
        ensures
            r.data_layout == self.layout(),
    {
        &self.target
    }

    pub fn target_data_layout(&self) -> (r: TargetDataLayout)
        ensures
            r == self.layout(),
    {
        self.target.data_layout
    }

    /// The native type of `t` (see `TypeManager::type_ir`).
    pub fn type_ir(&mut self, t: Ty, params: CodeGenParams) -> (r: NativeType)
        requires
            old(self).wf(),
            ty_wf(t, old(self).program().num_structs()),
        ensures
            final(self).wf(),
            final(self).program() == old(self).program(),
            final(self).layout() == old(self).layout(),
            r == native_type_of(
                final(self).program().structs@,
                final(self).layout(),
                t,
                params.make_marshallable,
                final(self).types().cached_handle(t),
            ),
    {
        self.type_manager.type_ir(&self.hir_db, &self.target.data_layout, t, params.make_marshallable)
    }

    /// The native struct type of struct `s` (see `TypeManager::struct_ty`).
    pub fn struct_ty(&mut self, s: usize) -> (r: usize)
        requires
            old(self).wf(),
            s < old(self).program().num_structs(),
        ensures
            final(self).wf(),
            final(self).program() == old(self).program(),
            final(self).layout() == old(self).layout(),
            final(self).types().cached(s) == Some((final(self).program().field_tys(s as int), r)),
            r < final(self).types().handle_views().len(),
            old(self).types().reusable(&old(self).program(), s) ==> {
                &&& r == old(self).types().cached(s).unwrap().1
                &&& final(self).types().handle_views() == old(self).types().handle_views()
            },
            !old(self).types().reusable(&old(self).program(), s) ==> {
                &&& r == old(self).types().handle_views().len()
                &&& final(self).types().handle_views() == old(self).types().handle_views().push(
                    (
                        old(self).program().structs@[s as int].name@,
                        old(self).program().field_tys(s as int),
                    ),
                )
            },
    {
        self.type_manager.struct_ty(&self.hir_db, s)
    }

    /// The name and field types of the native struct with handle `h`.
    pub fn native_struct(&self, h: usize) -> (r: Option<NativeStruct>)
        ensures
            r is Some <==> h < self.types().handle_views().len(),
            r matches Some(n) ==> native_view(n) == self.types().handle_views()[h as int],
    {
        self.type_manager.native_struct(h)
    }

    /// The runtime type information of `t` (see `type_info_of`).
    pub fn type_info(&self, t: Ty) -> (r: Option<TypeInfo>)
        requires
            self.wf(),
            ty_wf(t, self.program().num_structs()),
        ensures
            match r {
                Some(ti) => type_info_of(self.program().structs@, self.layout(), t) == Some(ti@),
                None => type_info_of(self.program().structs@, self.layout(), t) is None,
            },
    {
        self.type_manager.type_info(&self.hir_db, &self.target.data_layout, t)
    }

    /// What the program's file group shares (see `group_ir`).
    pub fn group_ir(&self) -> (r: Result<FileGroupIR, CodeGenerationError>)
        requires
            self.wf(),
        ensures
            r is Ok <==> group_ok(self.program().structs@, self.layout(), self.program().functions@),
            r matches Ok(g) ==> group_result(self.program(), self.layout(), g),
    {
        group_ir(&self.hir_db, &self.target.data_layout)
    }

    /// The signatures, wrappers, API and globals of the program's file (see `file_ir`).
    pub fn file_ir(&mut self, group: &FileGroupIR) -> (r: FileIR)
        requires
            old(self).wf(),
        ensures
            final(self).wf(),
            final(self).program() == old(self).program(),
            final(self).layout() == old(self).layout(),
            sig_fns(r.signatures@) == defined_fns(
                old(self).program().functions@,
                old(self).program().functions@.len() as int,
            ),
            sig_fns(r.wrappers@) == wrapper_fns(
                old(self).program().structs@,
                old(self).program().functions@,
                old(self).program().functions@.len() as int,
            ),
            forall|i: int|
                0 <= i < r.signatures@.len() ==> signature_of(
                    final(self).types(),
                    final(self).program(),
                    final(self).layout(),
                    #[trigger] r.signatures@[i],
                    r.signatures@[i].function as int,
                    false,
                ),
            forall|i: int|
                0 <= i < r.wrappers@.len() ==> signature_of(
                    final(self).types(),
                    final(self).program(),
                    final(self).layout(),
                    #[trigger] r.wrappers@[i],
                    r.wrappers@[i].function as int,
                    true,
                ),
            r.api@ == api_fns(old(self).program().functions@, old(self).program().functions@.len() as int),
            r.globals == (ExternalGlobals {
                alloc_handle: group.allocator_handle,
                dispatch_table: group.dispatch_table.view_entries().len() > 0,
                type_table: group.type_table.view_entries().len() > 0,
            }),
    {
        file_ir(&mut self.type_manager, &self.hir_db, &self.target.data_layout, group)
    }
}

} // verus!
