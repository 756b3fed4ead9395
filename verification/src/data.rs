//! The data a built mod carries to the applier: descriptions of the types,
//! methods and fields it links against in the game, and the definitions it
//! adds. Positions into the description tables are plain `usize` indices.
use vstd::prelude::*;

verus! {

#[derive(Debug)]
pub struct ImageDescription {
    pub name: String,
}

#[derive(Debug)]
pub struct TypeDefDescription {
    pub image: usize,
    pub decl_type: Option<usize>,
    pub name: String,
    pub namespace: String,
}

#[derive(Debug)]
pub enum GenericParamOwner {
    Class(usize),
    Method(usize),
}

#[derive(Debug)]
pub enum TypeDescriptionData {
    /// for VALUETYPE and CLASS
    TypeDefIdx(usize),
    /// for PTR and SZARRAY
    TypeIdx(usize),
    /// for VAR and MVAR
    GenericParam(GenericContainerOwner, u16),
    /// for GENERICINST
    GenericClass(usize),
}

#[derive(Debug)]
pub struct TypeDescription {
    pub data: TypeDescriptionData,
    pub attrs: u16,
    pub ty: u8,
    pub by_ref: bool,
    pub pinned: bool,
}

#[derive(Debug)]
pub struct MethodDescription {
    pub defining_type: usize,
    pub name: String,
    pub params: Vec<usize>,
    pub return_ty: usize,
    pub num_gen_params: u32,
}

#[derive(Debug)]
pub struct FieldDescription {
    pub defining_type: usize,
    pub idx: u32,
}

#[derive(Debug)]
pub struct AddedAssembly {
    pub name: String,
    pub culture: String,
    pub public_key: String,
    pub hash_alg: u32,
    pub hash_len: u32,
    pub flags: u32,
    pub major: u32,
    pub minor: u32,
    pub build: u32,
    pub revision: u32,
    pub public_key_token: [u8; 8],
    pub token: u32,
}

#[derive(Debug)]
pub struct AddedImage {
    pub name: String,
    pub token: u32,
}

#[derive(Debug)]
pub struct AddedField {
    pub name: String,
    pub ty: usize,
    pub token: u32,
}

#[derive(Debug)]
pub struct AddedParameter {
    pub name: String,
    pub token: u32,
    pub ty: usize,
}

#[derive(Debug)]
pub struct AddedMethod {
    pub name: String,
    pub declaring_type: usize,
    pub return_ty: usize,
    pub parameters: Vec<AddedParameter>,
    pub generic_container: Option<AddedGenericContainer>,
    pub token: u32,
    pub flags: u16,
    pub iflags: u16,
    pub slot: u16,
}

#[derive(Debug)]
pub struct AddedEvent {
    pub name: String,
    pub ty: usize,
    pub add: usize,
    pub remove: usize,
    pub raise: usize,
    pub token: u32,
}

#[derive(Debug)]
pub struct AddedProperty {
    pub name: String,
    pub get: usize,
    pub set: usize,
    pub attrs: u32,
    pub token: u32,
}

/// What a metadata usage or vtable slot refers to, by table.
#[derive(Debug, Clone, Copy, PartialEq, Eq, Structural)]
pub enum EncodedMethodIndex {
    Il2CppClass(usize),
    Il2CppType(usize),
    MethodInfo(usize),
    FieldInfo(usize),
    StringLiteral(usize),
    MethodRef(usize),
}

#[derive(Debug)]
pub struct AddedTypeDefinition {
    pub name: String,
    pub namespace: String,
    pub byval_type: usize,
    pub byref_type: usize,
    pub declaring_type_def: Option<usize>,
    pub declaring_type: Option<usize>,
    pub parent_type: Option<usize>,
    pub element_type: usize,
    pub generic_container: Option<AddedGenericContainer>,
    pub flags: u32,
    pub fields: Vec<AddedField>,
    pub methods: Vec<AddedMethod>,
    pub events: Vec<AddedEvent>,
    pub properties: Vec<AddedProperty>,
    pub nested_types: Vec<usize>,
    pub interfaces: Vec<usize>,
    pub vtable: Vec<EncodedMethodIndex>,
    pub interface_offsets: Vec<(usize, u32)>,
    pub bitfield: u32,
    pub token: u32,
}

#[derive(Debug)]
pub struct AddedMetadataUsagePair {
    pub source: EncodedMethodIndex,
    pub dest: usize,
}

#[derive(Debug, Clone, Copy, PartialEq, Eq, Structural)]
pub enum GenericContainerOwner {
    Class(usize),
    Method(usize),
}

#[derive(Debug)]
pub struct AddedGenericParameter {
    pub name: String,
    pub constraints: Vec<usize>,
    pub flags: u16,
}

#[derive(Debug)]
pub struct AddedGenericContainer {
    pub owner: GenericContainerOwner,
    pub parameters: Vec<AddedGenericParameter>,
}

#[derive(Debug)]
pub struct GenericInst {
    pub types: Vec<usize>,
}

#[derive(Debug)]
pub struct GenericContext {
    pub class: Option<usize>,
    pub method: Option<usize>,
}

#[derive(Debug)]
pub struct GenericMethodInst {
    pub method: usize,
    pub context: GenericContext,
}

#[derive(Debug)]
pub struct GenericMethodFunctions {
    pub generic_method: usize,
    pub method_idx: usize,
    pub invoker_idx: usize,
    pub adjustor_thunk_idx: Option<usize>,
}

#[derive(Debug)]
pub struct GenericClassInst {
    pub class: Option<usize>,
    pub context: GenericContext,
}

#[derive(Debug)]
pub struct CustomAttributeTypeRange {
    pub token: u32,
    pub types: Vec<usize>,
}

#[derive(Debug)]
pub struct CodeTableSizes {
    pub generic_adjustor_thunks: usize,
    pub generic_method_pointers: usize,
    pub invoker_pointers: usize,
    pub metadata_usages: usize,
    pub attribute_generators: usize,
}

#[derive(Debug)]
pub struct MergeModData {
    pub code_table_sizes: CodeTableSizes,
    pub image_descriptions: Vec<ImageDescription>,
    pub type_def_descriptions: Vec<TypeDefDescription>,
    pub type_descriptions: Vec<TypeDescription>,
    pub method_descriptions: Vec<MethodDescription>,
    pub field_descriptions: Vec<FieldDescription>,
    pub dependencies: Vec<String>,
    pub load_before: Vec<String>,
    pub load_after: Vec<String>,
    pub added_assembly: AddedAssembly,
    pub added_image: AddedImage,
    pub added_type_defintions: Vec<AddedTypeDefinition>,
    pub added_usage_lists: Vec<Vec<AddedMetadataUsagePair>>,
    pub added_string_literals: Vec<String>,
    pub added_ca_ranges: Vec<CustomAttributeTypeRange>,
    pub generic_instances: Vec<GenericInst>,
    pub generic_method_insts: Vec<GenericMethodInst>,
    pub generic_method_funcs: Vec<GenericMethodFunctions>,
    pub generic_class_insts: Vec<GenericClassInst>,
}

} // verus!
