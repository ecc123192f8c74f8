use vstd::prelude::*;

verus! {

/// The runtime structures that make up the binary contract between compiler and runtime.
#[derive(Clone, Copy, Debug, PartialEq, Eq, Structural)]
pub enum AbiStruct {
    TypeInfo,
    FunctionSignature,
    FunctionPrototype,
    FunctionDefinition,
    StructInfo,
    ModuleInfo,
    DispatchTable,
    AssemblyInfo,
}

/// The type of one field of a runtime structure.
#[derive(Clone, Copy, Debug, PartialEq, Eq, Structural)]
pub enum AbiField {
    I8,
    I16,
    I32,
    /// The 16-byte type identifier, an array of sixteen `i8`.
    Guid,
    /// A pointer to a string.
    Str,
    /// A pointer to an array of strings.
    StrArray,
    /// A pointer to the structure of the given kind.
    Ptr(AbiStruct),
    /// A pointer to an array of pointers to the structure of the given kind.
    PtrArray(AbiStruct),
    /// A pointer to an array of 16-bit integers.
    I16Array,
    /// A pointer to a function that takes nothing and returns nothing.
    FnPtr,
    /// A pointer to an array of mutable function pointers.
    FnPtrArray,
    /// The structure of the given kind, stored inline.
    Inline(AbiStruct),
}

/// The fields of each runtime structure, in order.
pub open spec fn abi_fields(k: AbiStruct) -> Seq<AbiField> {
    match k {
        // guid, name, size_in_bits, alignment, group
        AbiStruct::TypeInfo => seq![
            AbiField::Guid,
            AbiField::Str,
            AbiField::I32,
            AbiField::I8,
            AbiField::I8,
        ],
        // arg_types, return_type, num_arg_types
        AbiStruct::FunctionSignature => seq![
            AbiField::PtrArray(AbiStruct::TypeInfo),
            AbiField::Ptr(AbiStruct::TypeInfo),
            AbiField::I16,
        ],
        // name, signature
        AbiStruct::FunctionPrototype => seq![
            AbiField::Str,
            AbiField::Inline(AbiStruct::FunctionSignature),
        ],
        // prototype, fn_ptr
        AbiStruct::FunctionDefinition => seq![
            AbiField::Inline(AbiStruct::FunctionPrototype),
            AbiField::FnPtr,
        ],
        // field_names, field_types, field_offsets, num_fields, memory_kind
        AbiStruct::StructInfo => seq![
            AbiField::StrArray,
            AbiField::PtrArray(AbiStruct::TypeInfo),
            AbiField::I16Array,
            AbiField::I16,
            AbiField::I8,
        ],
        // path, functions, num_functions, types, num_types
        AbiStruct::ModuleInfo => seq![
            AbiField::Str,
            AbiField::Ptr(AbiStruct::FunctionDefinition),
            AbiField::I32,
            AbiField::PtrArray(AbiStruct::TypeInfo),
            AbiField::I32,
        ],
        // signatures, fn_ptrs, num_entries
        AbiStruct::DispatchTable => seq![
            AbiField::Ptr(AbiStruct::FunctionSignature),
            AbiField::FnPtrArray,
            AbiField::I32,
        ],
        // symbols, dispatch_table, dependencies, num_dependencies
        AbiStruct::AssemblyInfo => seq![
            AbiField::Inline(AbiStruct::ModuleInfo),
            AbiField::Inline(AbiStruct::DispatchTable),
            AbiField::StrArray,
            AbiField::I32,
        ],
    }
}

/// The name of each runtime structure in generated code.
pub open spec fn abi_name(k: AbiStruct) -> Seq<char> {
    match k {
        AbiStruct::TypeInfo => "struct.MunTypeInfo"@,
        AbiStruct::FunctionSignature => "struct.MunFunctionSignature"@,
        AbiStruct::FunctionPrototype => "struct.MunFunctionPrototype"@,
        AbiStruct::FunctionDefinition => "struct.MunFunctionDefinition"@,
        AbiStruct::StructInfo => "struct.MunStructInfo"@,
        AbiStruct::ModuleInfo => "struct.MunModuleInfo"@,
        AbiStruct::DispatchTable => "struct.MunDispatchTable"@,
        AbiStruct::AssemblyInfo => "struct.MunAssemblyInfo"@,
    }
}

/// A runtime structure: its name and its fields.
#[derive(Clone, Debug)]
pub struct AbiStructType {
    pub name: String,
    pub fields: Vec<AbiField>,
}

impl AbiStructType {
    pub open spec fn is(&self, k: AbiStruct) -> bool {
        &&& self.name@ == abi_name(k)
        &&& self.fields@ == abi_fields(k)
    }
}

/// The catalog of runtime structures, and the integer widths of the guid's bytes, the type
/// group tag and the privacy tag.
#[derive(Clone, Debug)]
pub struct AbiTypes {
    pub guid_len: u32,
    pub type_group_bits: u32,
    pub privacy_bits: u32,
    pub type_info_type: AbiStructType,
    pub function_signature_type: AbiStructType,
    pub function_prototype_type: AbiStructType,
    pub function_definition_type: AbiStructType,
    pub struct_info_type: AbiStructType,
    pub module_info_type: AbiStructType,
    pub dispatch_table_type: AbiStructType,
    pub assembly_info_type: AbiStructType,
}

impl AbiTypes {
    /// The catalog as the runtime expects it.
    pub open spec fn wf(&self) -> bool {
        &&& self.guid_len == 16
        &&& self.type_group_bits == 8
        &&& self.privacy_bits == 8
        &&& self.type_info_type.is(AbiStruct::TypeInfo)
        &&& self.function_signature_type.is(AbiStruct::FunctionSignature)
        &&& self.function_prototype_type.is(AbiStruct::FunctionPrototype)
        &&& self.function_definition_type.is(AbiStruct::FunctionDefinition)
        &&& self.struct_info_type.is(AbiStruct::StructInfo)
        &&& self.module_info_type.is(AbiStruct::ModuleInfo)
        &&& self.dispatch_table_type.is(AbiStruct::DispatchTable)
        &&& self.assembly_info_type.is(AbiStruct::AssemblyInfo)
    }
}

fn abi_struct_type(k: AbiStruct) -> (r: AbiStructType)
    ensures
        r.is(k),
{
    let mut fields: Vec<AbiField> = Vec::new();
    let name = match k {
        AbiStruct::TypeInfo => {
            fields.push(AbiField::Guid);
            fields.push(AbiField::Str);
            fields.push(AbiField::I32);
            fields.push(AbiField::I8);
            fields.push(AbiField::I8);
            String::from_str("struct.MunTypeInfo")
        },
        AbiStruct::FunctionSignature => {
            fields.push(AbiField::PtrArray(AbiStruct::TypeInfo));
            fields.push(AbiField::Ptr(AbiStruct::TypeInfo));
            fields.push(AbiField::I16);
            String::from_str("struct.MunFunctionSignature")
        },
        AbiStruct::FunctionPrototype => {
            fields.push(AbiField::Str);
            fields.push(AbiField::Inline(AbiStruct::FunctionSignature));
            String::from_str("struct.MunFunctionPrototype")
        },
        AbiStruct::FunctionDefinition => {
            fields.push(AbiField::Inline(AbiStruct::FunctionPrototype));
            fields.push(AbiField::FnPtr);
            String::from_str("struct.MunFunctionDefinition")
        },
        AbiStruct::StructInfo => {
            fields.push(AbiField::StrArray);
            fields.push(AbiField::PtrArray(AbiStruct::TypeInfo));
            fields.push(AbiField::I16Array);
            fields.push(AbiField::I16);
            fields.push(AbiField::I8);
            String::from_str("struct.MunStructInfo")
        },
        AbiStruct::ModuleInfo => {
            fields.push(AbiField::Str);
            fields.push(AbiField::Ptr(AbiStruct::FunctionDefinition));
            fields.push(AbiField::I32);
            fields.push(AbiField::PtrArray(AbiStruct::TypeInfo));
            fields.push(AbiField::I32);
            String::from_str("struct.MunModuleInfo")
        },
        AbiStruct::DispatchTable => {
            fields.push(AbiField::Ptr(AbiStruct::FunctionSignature));
            fields.push(AbiField::FnPtrArray);
            fields.push(AbiField::I32);
            String::from_str("struct.MunDispatchTable")
        },
        AbiStruct::AssemblyInfo => {
            fields.push(AbiField::Inline(AbiStruct::ModuleInfo));
            fields.push(AbiField::Inline(AbiStruct::DispatchTable));
            fields.push(AbiField::StrArray);
            fields.push(AbiField::I32);
            String::from_str("struct.MunAssemblyInfo")
        },
    };
    let r = AbiStructType { name, fields };
    assert(r.fields@ =~= abi_fields(k));
    r
}

/// The catalog of runtime structures (see `AbiTypes::wf`).
pub fn gen_abi_types() -> (r: AbiTypes)
    ensures
        r.wf(),
{
    AbiTypes {
        guid_len: 16,
        type_group_bits: 8,
        privacy_bits: 8,
        type_info_type: abi_struct_type(AbiStruct::TypeInfo),
        function_signature_type: abi_struct_type(AbiStruct::FunctionSignature),
        function_prototype_type: abi_struct_type(AbiStruct::FunctionPrototype),
        function_definition_type: abi_struct_type(AbiStruct::FunctionDefinition),
        struct_info_type: abi_struct_type(AbiStruct::StructInfo),
        module_info_type: abi_struct_type(AbiStruct::ModuleInfo),
        dispatch_table_type: abi_struct_type(AbiStruct::DispatchTable),
        assembly_info_type: abi_struct_type(AbiStruct::AssemblyInfo),
    }
}

} // verus!
