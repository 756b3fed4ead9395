//! The il2cpp type table: the kinds of `Il2CppType`, and the parse of
//! `Il2CppTypeDefinitions.c` and `Il2CppGenericClassTable.c`.
use crate::build::parser::{has_prefix, table_lines, table_rows};
use crate::error::{Error, Fault, Outcome};
use crate::text::{
    lines, lines_of, parse_u16, parse_u8, parse_unsigned, parse_usize, split_whitespace,
    starts_with, str_eq, trim, trim_end_char, trim_end_matches_char, trim_start_char,
    trim_start_matches, trim_start_matches_char, trim_start_str, trim_ws, views, words,
};
use vstd::hash_map::StringHashMap;
use vstd::prelude::*;

verus! {

/// The kinds of `Il2CppType` (`Il2CppTypeEnum` of the il2cpp headers).
#[derive(Clone, Copy, Debug, PartialEq, Eq, Structural)]
pub enum Il2CppTypeEnum {
    Void,
    Boolean,
    Char,
    I1,
    U1,
    I2,
    U2,
    I4,
    U4,
    I8,
    U8,
    R4,
    R8,
    String,
    Ptr,
    Valuetype,
    Class,
    Var,
    Array,
    Genericinst,
    Typedbyref,
    I,
    U,
    Object,
    Szarray,
    Mvar,
}

impl Il2CppTypeEnum {
    /// The number il2cpp gives each kind.
    pub open spec fn id(self) -> u8 {
        match self {
            Il2CppTypeEnum::Void => 0x01,
            Il2CppTypeEnum::Boolean => 0x02,
            Il2CppTypeEnum::Char => 0x03,
            Il2CppTypeEnum::I1 => 0x04,
            Il2CppTypeEnum::U1 => 0x05,
            Il2CppTypeEnum::I2 => 0x06,
            Il2CppTypeEnum::U2 => 0x07,
            Il2CppTypeEnum::I4 => 0x08,
            Il2CppTypeEnum::U4 => 0x09,
            Il2CppTypeEnum::I8 => 0x0a,
            Il2CppTypeEnum::U8 => 0x0b,
            Il2CppTypeEnum::R4 => 0x0c,
            Il2CppTypeEnum::R8 => 0x0d,
            Il2CppTypeEnum::String => 0x0e,
            Il2CppTypeEnum::Ptr => 0x0f,
            Il2CppTypeEnum::Valuetype => 0x11,
            Il2CppTypeEnum::Class => 0x12,
            Il2CppTypeEnum::Var => 0x13,
            Il2CppTypeEnum::Array => 0x14,
            Il2CppTypeEnum::Genericinst => 0x15,
            Il2CppTypeEnum::Typedbyref => 0x16,
            Il2CppTypeEnum::I => 0x18,
            Il2CppTypeEnum::U => 0x19,
            Il2CppTypeEnum::Object => 0x1c,
            Il2CppTypeEnum::Szarray => 0x1d,
            Il2CppTypeEnum::Mvar => 0x1e,
        }
    }

    /// The name of the kind in generated C (`IL2CPP_TYPE_...`).
    pub open spec fn c_name(self) -> Seq<char> {
        match self {
            Il2CppTypeEnum::Void => "IL2CPP_TYPE_VOID"@,
            Il2CppTypeEnum::Boolean => "IL2CPP_TYPE_BOOLEAN"@,
            Il2CppTypeEnum::Char => "IL2CPP_TYPE_CHAR"@,
            Il2CppTypeEnum::I1 => "IL2CPP_TYPE_I1"@,
            Il2CppTypeEnum::U1 => "IL2CPP_TYPE_U1"@,
            Il2CppTypeEnum::I2 => "IL2CPP_TYPE_I2"@,
            Il2CppTypeEnum::U2 => "IL2CPP_TYPE_U2"@,
            Il2CppTypeEnum::I4 => "IL2CPP_TYPE_I4"@,
            Il2CppTypeEnum::U4 => "IL2CPP_TYPE_U4"@,
            Il2CppTypeEnum::I8 => "IL2CPP_TYPE_I8"@,
            Il2CppTypeEnum::U8 => "IL2CPP_TYPE_U8"@,
            Il2CppTypeEnum::R4 => "IL2CPP_TYPE_R4"@,
            Il2CppTypeEnum::R8 => "IL2CPP_TYPE_R8"@,
            Il2CppTypeEnum::String => "IL2CPP_TYPE_STRING"@,
            Il2CppTypeEnum::Ptr => "IL2CPP_TYPE_PTR"@,
            Il2CppTypeEnum::Valuetype => "IL2CPP_TYPE_VALUETYPE"@,
            Il2CppTypeEnum::Class => "IL2CPP_TYPE_CLASS"@,
            Il2CppTypeEnum::Var => "IL2CPP_TYPE_VAR"@,
            Il2CppTypeEnum::Array => "IL2CPP_TYPE_ARRAY"@,
            Il2CppTypeEnum::Genericinst => "IL2CPP_TYPE_GENERICINST"@,
            Il2CppTypeEnum::Typedbyref => "IL2CPP_TYPE_TYPEDBYREF"@,
            Il2CppTypeEnum::I => "IL2CPP_TYPE_I"@,
            Il2CppTypeEnum::U => "IL2CPP_TYPE_U"@,
            Il2CppTypeEnum::Object => "IL2CPP_TYPE_OBJECT"@,
            Il2CppTypeEnum::Szarray => "IL2CPP_TYPE_SZARRAY"@,
            Il2CppTypeEnum::Mvar => "IL2CPP_TYPE_MVAR"@,
        }
    }

    /// The kind that a C name stands for, tried in the order of the kinds.
    pub open spec fn named(name: Seq<char>) -> Option<Il2CppTypeEnum> {
        if name == "IL2CPP_TYPE_VOID"@ {
            Some(Il2CppTypeEnum::Void)
        } else if name == "IL2CPP_TYPE_BOOLEAN"@ {
            Some(Il2CppTypeEnum::Boolean)
        } else if name == "IL2CPP_TYPE_CHAR"@ {
            Some(Il2CppTypeEnum::Char)
        } else if name == "IL2CPP_TYPE_I1"@ {
            Some(Il2CppTypeEnum::I1)
        } else if name == "IL2CPP_TYPE_U1"@ {
            Some(Il2CppTypeEnum::U1)
        } else if name == "IL2CPP_TYPE_I2"@ {
            Some(Il2CppTypeEnum::I2)
        } else if name == "IL2CPP_TYPE_U2"@ {
            Some(Il2CppTypeEnum::U2)
        } else if name == "IL2CPP_TYPE_I4"@ {
            Some(Il2CppTypeEnum::I4)
        } else if name == "IL2CPP_TYPE_U4"@ {
            Some(Il2CppTypeEnum::U4)
        } else if name == "IL2CPP_TYPE_I8"@ {
            Some(Il2CppTypeEnum::I8)
        } else if name == "IL2CPP_TYPE_U8"@ {
            Some(Il2CppTypeEnum::U8)
        } else if name == "IL2CPP_TYPE_R4"@ {
            Some(Il2CppTypeEnum::R4)
        } else if name == "IL2CPP_TYPE_R8"@ {
            Some(Il2CppTypeEnum::R8)
        } else if name == "IL2CPP_TYPE_STRING"@ {
            Some(Il2CppTypeEnum::String)
        } else if name == "IL2CPP_TYPE_PTR"@ {
            Some(Il2CppTypeEnum::Ptr)
        } else if name == "IL2CPP_TYPE_VALUETYPE"@ {
            Some(Il2CppTypeEnum::Valuetype)
        } else if name == "IL2CPP_TYPE_CLASS"@ {
            Some(Il2CppTypeEnum::Class)
        } else if name == "IL2CPP_TYPE_VAR"@ {
            Some(Il2CppTypeEnum::Var)
        } else if name == "IL2CPP_TYPE_ARRAY"@ {
            Some(Il2CppTypeEnum::Array)
        } else if name == "IL2CPP_TYPE_GENERICINST"@ {
            Some(Il2CppTypeEnum::Genericinst)
        } else if name == "IL2CPP_TYPE_TYPEDBYREF"@ {
            Some(Il2CppTypeEnum::Typedbyref)
        } else if name == "IL2CPP_TYPE_I"@ {
            Some(Il2CppTypeEnum::I)
        } else if name == "IL2CPP_TYPE_U"@ {
            Some(Il2CppTypeEnum::U)
        } else if name == "IL2CPP_TYPE_OBJECT"@ {
            Some(Il2CppTypeEnum::Object)
        } else if name == "IL2CPP_TYPE_SZARRAY"@ {
            Some(Il2CppTypeEnum::Szarray)
        } else if name == "IL2CPP_TYPE_MVAR"@ {
            Some(Il2CppTypeEnum::Mvar)
        } else {
            None
        }
    }

    pub fn get_id(self) -> (r: u8)
        ensures
            r == self.id(),
    {
        match self {
            Il2CppTypeEnum::Void => 0x01,
            Il2CppTypeEnum::Boolean => 0x02,
            Il2CppTypeEnum::Char => 0x03,
            Il2CppTypeEnum::I1 => 0x04,
            Il2CppTypeEnum::U1 => 0x05,
            Il2CppTypeEnum::I2 => 0x06,
            Il2CppTypeEnum::U2 => 0x07,
            Il2CppTypeEnum::I4 => 0x08,
            Il2CppTypeEnum::U4 => 0x09,
            Il2CppTypeEnum::I8 => 0x0a,
            Il2CppTypeEnum::U8 => 0x0b,
            Il2CppTypeEnum::R4 => 0x0c,
            Il2CppTypeEnum::R8 => 0x0d,
            Il2CppTypeEnum::String => 0x0e,
            Il2CppTypeEnum::Ptr => 0x0f,
            Il2CppTypeEnum::Valuetype => 0x11,
            Il2CppTypeEnum::Class => 0x12,
            Il2CppTypeEnum::Var => 0x13,
            Il2CppTypeEnum::Array => 0x14,
            Il2CppTypeEnum::Genericinst => 0x15,
            Il2CppTypeEnum::Typedbyref => 0x16,
            Il2CppTypeEnum::I => 0x18,
            Il2CppTypeEnum::U => 0x19,
            Il2CppTypeEnum::Object => 0x1c,
            Il2CppTypeEnum::Szarray => 0x1d,
            Il2CppTypeEnum::Mvar => 0x1e,
        }
    }

    /// The kind named `name`; an error naming it where it names none.
    pub fn from_name(name: &str) -> (r: Result<Il2CppTypeEnum, Error>)
        ensures
            match r {
                Ok(t) => Il2CppTypeEnum::named(name@) == Some(t),
                Err(e) => Il2CppTypeEnum::named(name@) is None && e is InvalidTypeEnumName
                    && e->InvalidTypeEnumName_0@ == name@,
            },
    {
        if str_eq(name, "IL2CPP_TYPE_VOID") {
            Ok(Il2CppTypeEnum::Void)
        } else if str_eq(name, "IL2CPP_TYPE_BOOLEAN") {
            Ok(Il2CppTypeEnum::Boolean)
        } else if str_eq(name, "IL2CPP_TYPE_CHAR") {
            Ok(Il2CppTypeEnum::Char)
        } else if str_eq(name, "IL2CPP_TYPE_I1") {
            Ok(Il2CppTypeEnum::I1)
        } else if str_eq(name, "IL2CPP_TYPE_U1") {
            Ok(Il2CppTypeEnum::U1)
        } else if str_eq(name, "IL2CPP_TYPE_I2") {
            Ok(Il2CppTypeEnum::I2)
        } else if str_eq(name, "IL2CPP_TYPE_U2") {
            Ok(Il2CppTypeEnum::U2)
        } else if str_eq(name, "IL2CPP_TYPE_I4") {
            Ok(Il2CppTypeEnum::I4)
        } else if str_eq(name, "IL2CPP_TYPE_U4") {
            Ok(Il2CppTypeEnum::U4)
        } else if str_eq(name, "IL2CPP_TYPE_I8") {
            Ok(Il2CppTypeEnum::I8)
        } else if str_eq(name, "IL2CPP_TYPE_U8") {
            Ok(Il2CppTypeEnum::U8)
        } else if str_eq(name, "IL2CPP_TYPE_R4") {
            Ok(Il2CppTypeEnum::R4)
        } else if str_eq(name, "IL2CPP_TYPE_R8") {
            Ok(Il2CppTypeEnum::R8)
        } else if str_eq(name, "IL2CPP_TYPE_STRING") {
            Ok(Il2CppTypeEnum::String)
        } else if str_eq(name, "IL2CPP_TYPE_PTR") {
            Ok(Il2CppTypeEnum::Ptr)
        } else if str_eq(name, "IL2CPP_TYPE_VALUETYPE") {
            Ok(Il2CppTypeEnum::Valuetype)
        } else if str_eq(name, "IL2CPP_TYPE_CLASS") {
            Ok(Il2CppTypeEnum::Class)
        } else if str_eq(name, "IL2CPP_TYPE_VAR") {
            Ok(Il2CppTypeEnum::Var)
        } else if str_eq(name, "IL2CPP_TYPE_ARRAY") {
            Ok(Il2CppTypeEnum::Array)
        } else if str_eq(name, "IL2CPP_TYPE_GENERICINST") {
            Ok(Il2CppTypeEnum::Genericinst)
        } else if str_eq(name, "IL2CPP_TYPE_TYPEDBYREF") {
            Ok(Il2CppTypeEnum::Typedbyref)
        } else if str_eq(name, "IL2CPP_TYPE_I") {
            Ok(Il2CppTypeEnum::I)
        } else if str_eq(name, "IL2CPP_TYPE_U") {
            Ok(Il2CppTypeEnum::U)
        } else if str_eq(name, "IL2CPP_TYPE_OBJECT") {
            Ok(Il2CppTypeEnum::Object)
        } else if str_eq(name, "IL2CPP_TYPE_SZARRAY") {
            Ok(Il2CppTypeEnum::Szarray)
        } else if str_eq(name, "IL2CPP_TYPE_MVAR") {
            Ok(Il2CppTypeEnum::Mvar)
        } else {
            Err(Error::InvalidTypeEnumName(name.to_string()))
        }
    }
}

/// Each kind is found again by its C name, and no two kinds share a number.
pub proof fn lemma_type_enum_names(t: Il2CppTypeEnum, u: Il2CppTypeEnum)
    ensures
        Il2CppTypeEnum::named(t.c_name()) == Some(t),
        t.id() == u.id() ==> t == u,
{
    reveal_strlit("IL2CPP_TYPE_VOID");
    reveal_strlit("IL2CPP_TYPE_BOOLEAN");
    reveal_strlit("IL2CPP_TYPE_CHAR");
    reveal_strlit("IL2CPP_TYPE_I1");
    reveal_strlit("IL2CPP_TYPE_U1");
    reveal_strlit("IL2CPP_TYPE_I2");
    reveal_strlit("IL2CPP_TYPE_U2");
    reveal_strlit("IL2CPP_TYPE_I4");
    reveal_strlit("IL2CPP_TYPE_U4");
    reveal_strlit("IL2CPP_TYPE_I8");
    reveal_strlit("IL2CPP_TYPE_U8");
    reveal_strlit("IL2CPP_TYPE_R4");
    reveal_strlit("IL2CPP_TYPE_R8");
    reveal_strlit("IL2CPP_TYPE_STRING");
    reveal_strlit("IL2CPP_TYPE_PTR");
    reveal_strlit("IL2CPP_TYPE_VALUETYPE");
    reveal_strlit("IL2CPP_TYPE_CLASS");
    reveal_strlit("IL2CPP_TYPE_VAR");
    reveal_strlit("IL2CPP_TYPE_ARRAY");
    reveal_strlit("IL2CPP_TYPE_GENERICINST");
    reveal_strlit("IL2CPP_TYPE_TYPEDBYREF");
    reveal_strlit("IL2CPP_TYPE_I");
    reveal_strlit("IL2CPP_TYPE_U");
    reveal_strlit("IL2CPP_TYPE_OBJECT");
    reveal_strlit("IL2CPP_TYPE_SZARRAY");
    reveal_strlit("IL2CPP_TYPE_MVAR");
    assert("IL2CPP_TYPE_VOID"@.len() == 16);
    assert("IL2CPP_TYPE_BOOLEAN"@.len() == 19);
    assert("IL2CPP_TYPE_CHAR"@.len() == 16);
    assert("IL2CPP_TYPE_I1"@.len() == 14);
    assert("IL2CPP_TYPE_U1"@.len() == 14);
    assert("IL2CPP_TYPE_I2"@.len() == 14);
    assert("IL2CPP_TYPE_U2"@.len() == 14);
    assert("IL2CPP_TYPE_I4"@.len() == 14);
    assert("IL2CPP_TYPE_U4"@.len() == 14);
    assert("IL2CPP_TYPE_I8"@.len() == 14);
    assert("IL2CPP_TYPE_U8"@.len() == 14);
    assert("IL2CPP_TYPE_R4"@.len() == 14);
    assert("IL2CPP_TYPE_R8"@.len() == 14);
    assert("IL2CPP_TYPE_STRING"@.len() == 18);
    assert("IL2CPP_TYPE_PTR"@.len() == 15);
    assert("IL2CPP_TYPE_VALUETYPE"@.len() == 21);
    assert("IL2CPP_TYPE_CLASS"@.len() == 17);
    assert("IL2CPP_TYPE_VAR"@.len() == 15);
    assert("IL2CPP_TYPE_ARRAY"@.len() == 17);
    assert("IL2CPP_TYPE_GENERICINST"@.len() == 23);
    assert("IL2CPP_TYPE_TYPEDBYREF"@.len() == 22);
    assert("IL2CPP_TYPE_I"@.len() == 13);
    assert("IL2CPP_TYPE_U"@.len() == 13);
    assert("IL2CPP_TYPE_OBJECT"@.len() == 18);
    assert("IL2CPP_TYPE_SZARRAY"@.len() == 19);
    assert("IL2CPP_TYPE_MVAR"@.len() == 16);
    assert("IL2CPP_TYPE_VOID"@[12] == 'V');
    assert("IL2CPP_TYPE_VOID"@[13] == 'O');
    assert("IL2CPP_TYPE_BOOLEAN"@[12] == 'B');
    assert("IL2CPP_TYPE_BOOLEAN"@[13] == 'O');
    assert("IL2CPP_TYPE_CHAR"@[12] == 'C');
    assert("IL2CPP_TYPE_CHAR"@[13] == 'H');
    assert("IL2CPP_TYPE_I1"@[12] == 'I');
    assert("IL2CPP_TYPE_I1"@[13] == '1');
    assert("IL2CPP_TYPE_U1"@[12] == 'U');
    assert("IL2CPP_TYPE_U1"@[13] == '1');
    assert("IL2CPP_TYPE_I2"@[12] == 'I');
    assert("IL2CPP_TYPE_I2"@[13] == '2');
    assert("IL2CPP_TYPE_U2"@[12] == 'U');
    assert("IL2CPP_TYPE_U2"@[13] == '2');
    assert("IL2CPP_TYPE_I4"@[12] == 'I');
    assert("IL2CPP_TYPE_I4"@[13] == '4');
    assert("IL2CPP_TYPE_U4"@[12] == 'U');
    assert("IL2CPP_TYPE_U4"@[13] == '4');
    assert("IL2CPP_TYPE_I8"@[12] == 'I');
    assert("IL2CPP_TYPE_I8"@[13] == '8');
    assert("IL2CPP_TYPE_U8"@[12] == 'U');
    assert("IL2CPP_TYPE_U8"@[13] == '8');
    assert("IL2CPP_TYPE_R4"@[12] == 'R');
    assert("IL2CPP_TYPE_R4"@[13] == '4');
    assert("IL2CPP_TYPE_R8"@[12] == 'R');
    assert("IL2CPP_TYPE_R8"@[13] == '8');
    assert("IL2CPP_TYPE_STRING"@[12] == 'S');
    assert("IL2CPP_TYPE_STRING"@[13] == 'T');
    assert("IL2CPP_TYPE_PTR"@[12] == 'P');
    assert("IL2CPP_TYPE_PTR"@[13] == 'T');
    assert("IL2CPP_TYPE_VALUETYPE"@[12] == 'V');
    assert("IL2CPP_TYPE_VALUETYPE"@[13] == 'A');
    assert("IL2CPP_TYPE_CLASS"@[12] == 'C');
    assert("IL2CPP_TYPE_CLASS"@[13] == 'L');
    assert("IL2CPP_TYPE_VAR"@[12] == 'V');
    assert("IL2CPP_TYPE_VAR"@[13] == 'A');
    assert("IL2CPP_TYPE_ARRAY"@[12] == 'A');
    assert("IL2CPP_TYPE_ARRAY"@[13] == 'R');
    assert("IL2CPP_TYPE_GENERICINST"@[12] == 'G');
    assert("IL2CPP_TYPE_GENERICINST"@[13] == 'E');
    assert("IL2CPP_TYPE_TYPEDBYREF"@[12] == 'T');
    assert("IL2CPP_TYPE_TYPEDBYREF"@[13] == 'Y');
    assert("IL2CPP_TYPE_I"@[12] == 'I');
    assert("IL2CPP_TYPE_U"@[12] == 'U');
    assert("IL2CPP_TYPE_OBJECT"@[12] == 'O');
    assert("IL2CPP_TYPE_OBJECT"@[13] == 'B');
    assert("IL2CPP_TYPE_SZARRAY"@[12] == 'S');
    assert("IL2CPP_TYPE_SZARRAY"@[13] == 'Z');
    assert("IL2CPP_TYPE_MVAR"@[12] == 'M');
    assert("IL2CPP_TYPE_MVAR"@[13] == 'V');
    match t {
        Il2CppTypeEnum::Void => assert(Il2CppTypeEnum::named(t.c_name()) == Some(t)),
        Il2CppTypeEnum::Boolean => assert(Il2CppTypeEnum::named(t.c_name()) == Some(t)),
        Il2CppTypeEnum::Char => assert(Il2CppTypeEnum::named(t.c_name()) == Some(t)),
        Il2CppTypeEnum::I1 => assert(Il2CppTypeEnum::named(t.c_name()) == Some(t)),
        Il2CppTypeEnum::U1 => assert(Il2CppTypeEnum::named(t.c_name()) == Some(t)),
        Il2CppTypeEnum::I2 => assert(Il2CppTypeEnum::named(t.c_name()) == Some(t)),
        Il2CppTypeEnum::U2 => assert(Il2CppTypeEnum::named(t.c_name()) == Some(t)),
        Il2CppTypeEnum::I4 => assert(Il2CppTypeEnum::named(t.c_name()) == Some(t)),
        Il2CppTypeEnum::U4 => assert(Il2CppTypeEnum::named(t.c_name()) == Some(t)),
        Il2CppTypeEnum::I8 => assert(Il2CppTypeEnum::named(t.c_name()) == Some(t)),
        Il2CppTypeEnum::U8 => assert(Il2CppTypeEnum::named(t.c_name()) == Some(t)),
        Il2CppTypeEnum::R4 => assert(Il2CppTypeEnum::named(t.c_name()) == Some(t)),
        Il2CppTypeEnum::R8 => assert(Il2CppTypeEnum::named(t.c_name()) == Some(t)),
        Il2CppTypeEnum::String => assert(Il2CppTypeEnum::named(t.c_name()) == Some(t)),
        Il2CppTypeEnum::Ptr => assert(Il2CppTypeEnum::named(t.c_name()) == Some(t)),
        Il2CppTypeEnum::Valuetype => assert(Il2CppTypeEnum::named(t.c_name()) == Some(t)),
        Il2CppTypeEnum::Class => assert(Il2CppTypeEnum::named(t.c_name()) == Some(t)),
        Il2CppTypeEnum::Var => assert(Il2CppTypeEnum::named(t.c_name()) == Some(t)),
        Il2CppTypeEnum::Array => assert(Il2CppTypeEnum::named(t.c_name()) == Some(t)),
        Il2CppTypeEnum::Genericinst => assert(Il2CppTypeEnum::named(t.c_name()) == Some(t)),
        Il2CppTypeEnum::Typedbyref => assert(Il2CppTypeEnum::named(t.c_name()) == Some(t)),
        Il2CppTypeEnum::I => assert(Il2CppTypeEnum::named(t.c_name()) == Some(t)),
        Il2CppTypeEnum::U => assert(Il2CppTypeEnum::named(t.c_name()) == Some(t)),
        Il2CppTypeEnum::Object => assert(Il2CppTypeEnum::named(t.c_name()) == Some(t)),
        Il2CppTypeEnum::Szarray => assert(Il2CppTypeEnum::named(t.c_name()) == Some(t)),
        Il2CppTypeEnum::Mvar => assert(Il2CppTypeEnum::named(t.c_name()) == Some(t)),
    }
}

} // verus!

verus! {

/// What an `Il2CppType` refers to, by its kind.
#[derive(Clone, Copy, Debug)]
pub enum Il2CppTypeData<'src> {
    /// for VALUETYPE and CLASS (and I guess everything else)
    TypeDefIdx(usize),
    /// for VAR and MVAR
    GenericParamIdx(usize),
    /// for PTR and SZARRAY
    Il2CppType(&'src str),
    /// for ARRAY
    Il2CppArrayType(&'src str),
    /// for GENERICINST
    Il2CppGenericClass(&'src str),
}

#[derive(Clone, Copy, Debug)]
pub struct Il2CppType<'src> {
    pub data: Il2CppTypeData<'src>,
    pub attrs: u16,
    pub ty: Il2CppTypeEnum,
    pub byref: bool,
    pub pinned: bool,
}

#[derive(Clone, Copy, Debug)]
pub struct GenericClass<'src> {
    pub ty_def_idx: usize,
    pub class_inst: &'src str,
}

/// `Il2CppTypeData` with its names taken as character sequences.
pub ghost enum TypeDataModel {
    TypeDefIdx(usize),
    GenericParamIdx(usize),
    Il2CppType(Seq<char>),
    Il2CppArrayType(Seq<char>),
    Il2CppGenericClass(Seq<char>),
}

pub ghost struct TypeModel {
    pub data: TypeDataModel,
    pub attrs: u16,
    pub ty: Il2CppTypeEnum,
    pub byref: bool,
    pub pinned: bool,
}

pub ghost struct GenericClassModel {
    pub ty_def_idx: usize,
    pub class_inst: Seq<char>,
}

impl<'src> Il2CppType<'src> {
    pub open spec fn model(self) -> TypeModel {
        TypeModel {
            data: match self.data {
                Il2CppTypeData::TypeDefIdx(i) => TypeDataModel::TypeDefIdx(i),
                Il2CppTypeData::GenericParamIdx(i) => TypeDataModel::GenericParamIdx(i),
                Il2CppTypeData::Il2CppType(s) => TypeDataModel::Il2CppType(s@),
                Il2CppTypeData::Il2CppArrayType(s) => TypeDataModel::Il2CppArrayType(s@),
                Il2CppTypeData::Il2CppGenericClass(s) => TypeDataModel::Il2CppGenericClass(s@),
            },
            attrs: self.attrs,
            ty: self.ty,
            byref: self.byref,
            pinned: self.pinned,
        }
    }
}

impl<'src> GenericClass<'src> {
    pub open spec fn model(self) -> GenericClassModel {
        GenericClassModel { ty_def_idx: self.ty_def_idx, class_inst: self.class_inst@ }
    }
}

/// A line that defines an `Il2CppType`.
pub open spec fn is_type_line(line: Seq<char>) -> bool {
    has_prefix(line, "const Il2CppType "@)
}

/// A line that defines an `Il2CppGenericClass`.
pub open spec fn is_gc_line(line: Seq<char>) -> bool {
    has_prefix(line, "Il2CppGenericClass "@)
}

/// What the data word of a type line refers to, by the type's kind.
pub open spec fn type_data(ty: Il2CppTypeEnum, data: Seq<char>) -> Option<TypeDataModel> {
    match ty {
        Il2CppTypeEnum::Var | Il2CppTypeEnum::Mvar => match parse_unsigned(data, usize::MAX as nat) {
            Some(v) => Some(TypeDataModel::GenericParamIdx(v as usize)),
            None => None,
        },
        Il2CppTypeEnum::Ptr | Il2CppTypeEnum::Szarray => Some(
            TypeDataModel::Il2CppType(trim_start_char(data, '&')),
        ),
        Il2CppTypeEnum::Array => Some(TypeDataModel::Il2CppArrayType(trim_start_char(data, '&'))),
        Il2CppTypeEnum::Genericinst => Some(
            TypeDataModel::Il2CppGenericClass(trim_start_char(data, '&')),
        ),
        _ => match parse_unsigned(data, usize::MAX as nat) {
            Some(v) => Some(TypeDataModel::TypeDefIdx(v as usize)),
            None => None,
        },
    }
}

/// A type line `const Il2CppType <name> = { <data>, <attrs>, <kind>, _, <byref>, <pinned> };`
/// read word by word: its name and type, the first word that does not
/// parse, or a panic where the line has fewer than eleven words.
pub open spec fn type_line_parse(line: Seq<char>) -> Outcome<(Seq<char>, TypeModel)> {
    let w = words(line);
    if w.len() < 11 {
        Outcome::Panic
    } else {
        let data = trim_start_str(trim_end_char(w[5], ','), "(void*)"@);
        let attrs_s = trim_end_char(w[6], ',');
        let ty_s = trim_end_char(w[7], ',');
        let byref_s = trim_end_char(w[9], ',');
        match parse_unsigned(attrs_s, u16::MAX as nat) {
            None => Outcome::Fail(Fault::InvalidNumber(attrs_s)),
            Some(attrs) => match Il2CppTypeEnum::named(ty_s) {
                None => Outcome::Fail(Fault::InvalidTypeEnumName(ty_s)),
                Some(ty) => match parse_unsigned(byref_s, u8::MAX as nat) {
                    None => Outcome::Fail(Fault::InvalidNumber(byref_s)),
                    Some(byref) => match parse_unsigned(w[10], u8::MAX as nat) {
                        None => Outcome::Fail(Fault::InvalidNumber(w[10])),
                        Some(pinned) => match type_data(ty, data) {
                            None => Outcome::Fail(Fault::InvalidNumber(data)),
                            Some(d) => Outcome::Done(
                                (
                                    w[2],
                                    TypeModel {
                                        data: d,
                                        attrs: attrs as u16,
                                        ty,
                                        byref: byref != 0,
                                        pinned: pinned != 0,
                                    },
                                ),
                            ),
                        },
                    },
                },
            },
        }
    }
}

/// A generic class line `Il2CppGenericClass <name> = { <type def>, { &<inst>, ... } };`:
/// its name and class, the index that does not parse, or a panic where the
/// line has fewer than seven words.
pub open spec fn gc_line_parse(line: Seq<char>) -> Outcome<(Seq<char>, GenericClassModel)> {
    let w = words(line);
    if w.len() < 7 {
        Outcome::Panic
    } else {
        let idx_s = trim_end_char(w[4], ',');
        match parse_unsigned(idx_s, usize::MAX as nat) {
            None => Outcome::Fail(Fault::InvalidNumber(idx_s)),
            Some(idx) => Outcome::Done(
                (
                    w[1],
                    GenericClassModel {
                        ty_def_idx: idx as usize,
                        class_inst: trim_end_char(trim_start_char(w[6], '&'), ','),
                    },
                ),
            ),
        }
    }
}

/// The definitions gathered from the lines of a source: a later definition
/// of a name replaces an earlier one.
pub ghost struct Definitions {
    pub types: Map<Seq<char>, TypeModel>,
    pub gcs: Map<Seq<char>, GenericClassModel>,
}

/// The definitions of the lines `ls`, read in order; the first line that
/// fails or panics decides.
pub open spec fn scan_definitions(ls: Seq<Seq<char>>) -> Outcome<Definitions>
    decreases ls.len(),
{
    if ls.len() == 0 {
        Outcome::Done(Definitions { types: Map::empty(), gcs: Map::empty() })
    } else {
        match scan_definitions(ls.drop_last()) {
            Outcome::Done(d) => {
                let l = ls.last();
                if is_type_line(l) {
                    match type_line_parse(l) {
                        Outcome::Done((n, t)) => Outcome::Done(
                            Definitions { types: d.types.insert(n, t), gcs: d.gcs },
                        ),
                        Outcome::Fail(e) => Outcome::Fail(e),
                        Outcome::Panic => Outcome::Panic,
                    }
                } else if is_gc_line(l) {
                    match gc_line_parse(l) {
                        Outcome::Done((n, g)) => Outcome::Done(
                            Definitions { types: d.types, gcs: d.gcs.insert(n, g) },
                        ),
                        Outcome::Fail(e) => Outcome::Fail(e),
                        Outcome::Panic => Outcome::Panic,
                    }
                } else {
                    Outcome::Done(d)
                }
            },
            other => other,
        }
    }
}

/// A scan that has stopped at a line stays stopped there.
proof fn lemma_scan_stops(ls: Seq<Seq<char>>, i: int)
    requires
        0 <= i <= ls.len(),
        !(scan_definitions(ls.take(i)) is Done),
    ensures
        scan_definitions(ls) == scan_definitions(ls.take(i)),
    decreases ls.len() - i,
{
    if i < ls.len() {
        assert(ls.take(i + 1).drop_last() =~= ls.take(i));
        lemma_scan_stops(ls, i + 1);
    } else {
        assert(ls.take(i) =~= ls);
    }
}

/// The name a table row holds: `&name,` trimmed.
pub open spec fn row_name(row: Seq<char>) -> Seq<char> {
    trim_end_char(trim_start_char(trim(row), '&'), ',')
}

pub open spec fn row_names(rows: Seq<Seq<char>>) -> Seq<Seq<char>> {
    rows.map_values(|r: Seq<char>| row_name(r))
}

/// Each name's position in `names` (the last, where a name repeats).
pub open spec fn index_map(names: Seq<Seq<char>>) -> Map<Seq<char>, usize>
    decreases names.len(),
{
    if names.len() == 0 {
        Map::empty()
    } else {
        index_map(names.drop_last()).insert(names.last(), (names.len() - 1) as usize)
    }
}

/// The types that `names` list, in order, each taken out of `m` as it is
/// used: an error at the first name that is not (or no longer) there.
pub open spec fn take_types(names: Seq<Seq<char>>, m: Map<Seq<char>, TypeModel>) -> Result<
    Seq<TypeModel>,
    Fault,
>
    decreases names.len(),
{
    if names.len() == 0 {
        Ok(Seq::empty())
    } else if m.contains_key(names[0]) {
        match take_types(names.drop_first(), m.remove(names[0])) {
            Ok(r) => Ok(seq![m[names[0]]] + r),
            Err(e) => Err(e),
        }
    } else {
        Err(Fault::UnknownType(names[0]))
    }
}

/// The generic classes that `names` list, taken out of `m` as `take_types` does.
pub open spec fn take_gcs(
    names: Seq<Seq<char>>,
    m: Map<Seq<char>, GenericClassModel>,
) -> Result<Seq<GenericClassModel>, Fault>
    decreases names.len(),
{
    if names.len() == 0 {
        Ok(Seq::empty())
    } else if m.contains_key(names[0]) {
        match take_gcs(names.drop_first(), m.remove(names[0])) {
            Ok(r) => Ok(seq![m[names[0]]] + r),
            Err(e) => Err(e),
        }
    } else {
        Err(Fault::UnknownGenericClass(names[0]))
    }
}

pub ghost struct TypeDefinitionsModel {
    pub types: Seq<TypeModel>,
    pub ty_name_map: Map<Seq<char>, usize>,
    pub generic_classes: Seq<GenericClassModel>,
    pub gc_name_map: Map<Seq<char>, usize>,
}

pub open spec fn type_table_header() -> Seq<char> {
    "const Il2CppType* const  g_Il2CppTypeTable"@
}

pub open spec fn gc_table_header() -> Seq<char> {
    "Il2CppGenericClass* const s_Il2CppGenericTypes"@
}

/// The parse of `Il2CppTypeDefinitions.c` (`src`) and
/// `Il2CppGenericClassTable.c` (`gct_src`): the definitions of `src`, then
/// its type table, then the generic class table of `gct_src`, each table's
/// rows resolved against the definitions.
pub open spec fn parse_model(src: Seq<char>, gct_src: Seq<char>) -> Outcome<TypeDefinitionsModel> {
    match scan_definitions(lines(src)) {
        Outcome::Panic => Outcome::Panic,
        Outcome::Fail(e) => Outcome::Fail(e),
        Outcome::Done(d) => match table_rows(src, type_table_header(), 3) {
            None => Outcome::Fail(Fault::TableNotFound("g_Il2CppTypeTable"@)),
            Some(rows) => match take_types(row_names(rows), d.types) {
                Err(e) => Outcome::Fail(e),
                Ok(types) => match table_rows(gct_src, gc_table_header(), 3) {
                    None => Outcome::Fail(Fault::TableNotFound("s_Il2CppGenericTypes"@)),
                    Some(gc_rows) => match take_gcs(row_names(gc_rows), d.gcs) {
                        Err(e) => Outcome::Fail(e),
                        Ok(gcs) => Outcome::Done(
                            TypeDefinitionsModel {
                                types,
                                ty_name_map: index_map(row_names(rows)),
                                generic_classes: gcs,
                                gc_name_map: index_map(row_names(gc_rows)),
                            },
                        ),
                    },
                },
            },
        },
    }
}

pub struct TypeDefinitionsFile<'src> {
    pub types: Vec<Il2CppType<'src>>,
    pub ty_name_map: StringHashMap<usize>,
    pub generic_classes: Vec<GenericClass<'src>>,
    pub gc_name_map: StringHashMap<usize>,
}

impl<'src> TypeDefinitionsFile<'src> {
    pub open spec fn model(&self) -> TypeDefinitionsModel {
        TypeDefinitionsModel {
            types: self.types@.map_values(|t: Il2CppType<'src>| t.model()),
            ty_name_map: self.ty_name_map@,
            generic_classes: self.generic_classes@.map_values(|g: GenericClass<'src>| g.model()),
            gc_name_map: self.gc_name_map@,
        }
    }
}

fn parse_type_line<'src>(line: &'src str) -> (r: Result<(&'src str, Il2CppType<'src>), Error>)
    requires
        !(type_line_parse(line@) is Panic),
    ensures
        match r {
            Ok((n, t)) => type_line_parse(line@) == Outcome::Done((n@, t.model())),
            Err(e) => type_line_parse(line@) == Outcome::<(Seq<char>, TypeModel)>::Fail(e@),
        },
{
    let w = split_whitespace(line);
    proof {
        assert(views(w@).len() == w@.len());
        assert forall|k: int| 0 <= k < w@.len() implies #[trigger] words(line@)[k] == w@[k]@ by {
            assert(views(w@)[k] == w@[k]@);
        }
    }
    let data = trim_start_matches(trim_end_matches_char(w[5], ','), "(void*)");
    let attrs_s = trim_end_matches_char(w[6], ',');
    let ty_s = trim_end_matches_char(w[7], ',');
    let byref_s = trim_end_matches_char(w[9], ',');
    let attrs = match parse_u16(attrs_s) {
        Some(v) => v,
        None => {
            return Err(Error::InvalidNumber(attrs_s.to_string()));
        },
    };
    let ty = match Il2CppTypeEnum::from_name(ty_s) {
        Ok(t) => t,
        Err(e) => {
            return Err(e);
        },
    };
    let byref = match parse_u8(byref_s) {
        Some(v) => v,
        None => {
            return Err(Error::InvalidNumber(byref_s.to_string()));
        },
    };
    let pinned = match parse_u8(w[10]) {
        Some(v) => v,
        None => {
            return Err(Error::InvalidNumber(w[10].to_string()));
        },
    };
    let d = match ty {
        Il2CppTypeEnum::Var | Il2CppTypeEnum::Mvar => match parse_usize(data) {
            Some(v) => Il2CppTypeData::GenericParamIdx(v),
            None => {
                return Err(Error::InvalidNumber(data.to_string()));
            },
        },
        Il2CppTypeEnum::Ptr | Il2CppTypeEnum::Szarray => Il2CppTypeData::Il2CppType(
            trim_start_matches_char(data, '&'),
        ),
        Il2CppTypeEnum::Array => Il2CppTypeData::Il2CppArrayType(trim_start_matches_char(data, '&')),
        Il2CppTypeEnum::Genericinst => Il2CppTypeData::Il2CppGenericClass(
            trim_start_matches_char(data, '&'),
        ),
        _ => match parse_usize(data) {
            Some(v) => Il2CppTypeData::TypeDefIdx(v),
            None => {
                return Err(Error::InvalidNumber(data.to_string()));
            },
        },
    };
    Ok((w[2], Il2CppType { data: d, attrs, ty, byref: byref != 0, pinned: pinned != 0 }))
}

fn parse_gc_line<'src>(line: &'src str) -> (r: Result<(&'src str, GenericClass<'src>), Error>)
    requires
        !(gc_line_parse(line@) is Panic),
    ensures
        match r {
            Ok((n, g)) => gc_line_parse(line@) == Outcome::Done((n@, g.model())),
            Err(e) => gc_line_parse(line@) == Outcome::<(Seq<char>, GenericClassModel)>::Fail(e@),
        },
{
    let w = split_whitespace(line);
    proof {
        assert(views(w@).len() == w@.len());
        assert forall|k: int| 0 <= k < w@.len() implies #[trigger] words(line@)[k] == w@[k]@ by {
            assert(views(w@)[k] == w@[k]@);
        }
    }
    let idx_s = trim_end_matches_char(w[4], ',');
    let idx = match parse_usize(idx_s) {
        Some(v) => v,
        None => {
            return Err(Error::InvalidNumber(idx_s.to_string()));
        },
    };
    let class_inst = trim_end_matches_char(trim_start_matches_char(w[6], '&'), ',');
    Ok((w[1], GenericClass { ty_def_idx: idx, class_inst }))
}

} // verus!

verus! {

pub open spec fn type_models<'src>(m: Map<Seq<char>, Il2CppType<'src>>) -> Map<Seq<char>, TypeModel> {
    m.map_values(|t: Il2CppType<'src>| t.model())
}

pub open spec fn gc_models<'src>(m: Map<Seq<char>, GenericClass<'src>>) -> Map<
    Seq<char>,
    GenericClassModel,
> {
    m.map_values(|g: GenericClass<'src>| g.model())
}

/// The definitions of the lines of `src`.
fn scan_source<'src>(src: &'src str) -> (r: Result<
    (StringHashMap<Il2CppType<'src>>, StringHashMap<GenericClass<'src>>),
    Error,
>)
    requires
        !(scan_definitions(lines(src@)) is Panic),
    ensures
        match r {
            Ok((t, g)) => scan_definitions(lines(src@)) == Outcome::Done(
                Definitions { types: type_models(t@), gcs: gc_models(g@) },
            ),
            Err(e) => scan_definitions(lines(src@)) == Outcome::<Definitions>::Fail(e@),
        },
{
    let ls = lines_of(src);
    let ghost all = views(ls@);
    let mut types: StringHashMap<Il2CppType<'src>> = StringHashMap::new();
    let mut gcs: StringHashMap<GenericClass<'src>> = StringHashMap::new();
    proof {
        reveal_strlit("const Il2CppType ");
        reveal_strlit("Il2CppGenericClass ");
        assert(all.take(0) =~= Seq::<Seq<char>>::empty());
        assert(type_models(types@) =~= Map::empty());
        assert(gc_models(gcs@) =~= Map::empty());
    }
    let mut i: usize = 0;
    while i < ls.len()
        invariant
            0 <= i <= ls@.len(),
            all == views(ls@),
            all == lines(src@),
            !(scan_definitions(all) is Panic),
            scan_definitions(all.take(i as int)) == Outcome::Done(
                Definitions { types: type_models(types@), gcs: gc_models(gcs@) },
            ),
        decreases ls@.len() - i,
    {
        let line = ls[i];
        let ghost pre = all.take(i as int);
        proof {
            assert(all[i as int] == line@);
            assert(all.take(i + 1).drop_last() =~= pre);
            assert(all.take(i + 1).last() == line@);
        }
        if starts_with(line, "const Il2CppType ") {
            proof {
                if type_line_parse(line@) is Panic {
                    lemma_scan_stops(all, i + 1);
                }
            }
            match parse_type_line(line) {
                Ok((n, t)) => {
                    let ghost old_types = types@;
                    types.insert(n.to_string(), t);
                    proof {
                        assert(type_models(types@) =~= type_models(old_types).insert(n@, t.model()));
                    }
                },
                Err(e) => {
                    proof {
                        lemma_scan_stops(all, i + 1);
                    }
                    return Err(e);
                },
            }
        } else if starts_with(line, "Il2CppGenericClass ") {
            proof {
                if gc_line_parse(line@) is Panic {
                    lemma_scan_stops(all, i + 1);
                }
            }
            match parse_gc_line(line) {
                Ok((n, g)) => {
                    let ghost old_gcs = gcs@;
                    gcs.insert(n.to_string(), g);
                    proof {
                        assert(gc_models(gcs@) =~= gc_models(old_gcs).insert(n@, g.model()));
                    }
                },
                Err(e) => {
                    proof {
                        lemma_scan_stops(all, i + 1);
                    }
                    return Err(e);
                },
            }
        }
        i = i + 1;
    }
    proof {
        assert(all.take(ls@.len() as int) =~= all);
    }
    Ok((types, gcs))
}

} // verus!

verus! {

pub open spec fn after<T>(acc: Seq<T>, r: Result<Seq<T>, Fault>) -> Result<Seq<T>, Fault> {
    match r {
        Ok(s) => Ok(acc + s),
        Err(e) => Err(e),
    }
}

/// `row_name` on a string.
fn row_name_str<'src>(row: &'src str) -> (r: &'src str)
    ensures
        r@ == row_name(row@),
{
    trim_end_matches_char(trim_start_matches_char(trim_ws(row), '&'), ',')
}

/// The types that the table rows list, taken out of `types`, and each row
/// name's position.
fn take_type_rows<'src>(rows: &Vec<&'src str>, defs: StringHashMap<Il2CppType<'src>>) -> (r: Result<
    (Vec<Il2CppType<'src>>, StringHashMap<usize>),
    Error,
>)
    ensures
        match r {
            Ok((v, m)) => take_types(row_names(views(rows@)), type_models(defs@)) == Ok::<
                Seq<TypeModel>,
                Fault,
            >(v@.map_values(|t: Il2CppType<'src>| t.model())) && m@ == index_map(
                row_names(views(rows@)),
            ),
            Err(e) => take_types(row_names(views(rows@)), type_models(defs@)) == Err::<
                Seq<TypeModel>,
                Fault,
            >(e@),
        },
{
    let ghost names = row_names(views(rows@));
    let ghost m0 = type_models(defs@);
    let mut types = defs;
    let mut out: Vec<Il2CppType<'src>> = Vec::new();
    let mut name_map: StringHashMap<usize> = StringHashMap::new();
    proof {
        assert(names.skip(0) =~= names);
        assert(out@.map_values(|t: Il2CppType<'src>| t.model()) =~= Seq::<TypeModel>::empty());
        assert(after(Seq::<TypeModel>::empty(), take_types(names, m0)) == take_types(names, m0)) by {
            match take_types(names, m0) {
                Ok(s) => assert(Seq::<TypeModel>::empty() + s =~= s),
                Err(_) => {},
            }
        }
        assert(names.take(0) =~= Seq::<Seq<char>>::empty());
    }
    let mut i: usize = 0;
    while i < rows.len()
        invariant
            0 <= i <= rows@.len(),
            names == row_names(views(rows@)),
            names.len() == rows@.len(),
            m0 == type_models(defs@),
            take_types(names, m0) == after(
                out@.map_values(|t: Il2CppType<'src>| t.model()),
                take_types(names.skip(i as int), type_models(types@)),
            ),
            name_map@ == index_map(names.take(i as int)),
        decreases rows@.len() - i,
    {
        let n = row_name_str(rows[i]);
        let ghost rest = names.skip(i as int);
        let ghost cur = type_models(types@);
        let ghost acc = out@.map_values(|t: Il2CppType<'src>| t.model());
        proof {
            assert(names[i as int] == n@);
            assert(rest[0] == n@);
            assert(rest.drop_first() =~= names.skip(i + 1));
            assert(names.take(i + 1).drop_last() =~= names.take(i as int));
            assert(names.take(i + 1).last() == n@);
        }
        let ghost old_map = name_map@;
        name_map.insert(n.to_string(), i);
        proof {
            assert(name_map@ == index_map(names.take(i + 1)));
        }
        let found = types.get(n);
        if found.is_none() {
            proof {
                assert(!cur.contains_key(n@));
                assert(take_types(rest, cur) == Err::<Seq<TypeModel>, Fault>(Fault::UnknownType(n@)));
            }
            return Err(Error::UnknownType(n.to_string()));
        }
        let t = *found.unwrap();
        types.remove(n);
        proof {
            assert(cur.contains_key(n@));
            assert(cur[n@] == t.model());
            assert(type_models(types@) =~= cur.remove(n@));
        }
        let ghost prev = out@;
        out.push(t);
        proof {
            let acc2 = out@.map_values(|t: Il2CppType<'src>| t.model());
            assert(acc2 =~= acc.push(t.model()));
            match take_types(names.skip(i + 1), type_models(types@)) {
                Ok(s) => {
                    assert(acc + (seq![t.model()] + s) =~= acc2 + s);
                },
                Err(_) => {},
            }
        }
        i = i + 1;
    }
    proof {
        assert(names.skip(rows@.len() as int) =~= Seq::<Seq<char>>::empty());
        assert(names.take(rows@.len() as int) =~= names);
        let acc = out@.map_values(|t: Il2CppType<'src>| t.model());
        assert(acc + Seq::<TypeModel>::empty() =~= acc);
    }
    Ok((out, name_map))
}

/// The generic classes that the table rows list, taken out of `gcs`, and
/// each row name's position.
fn take_gc_rows<'src>(rows: &Vec<&'src str>, defs: StringHashMap<GenericClass<'src>>) -> (r: Result<
    (Vec<GenericClass<'src>>, StringHashMap<usize>),
    Error,
>)
    ensures
        match r {
            Ok((v, m)) => take_gcs(row_names(views(rows@)), gc_models(defs@)) == Ok::<
                Seq<GenericClassModel>,
                Fault,
            >(v@.map_values(|g: GenericClass<'src>| g.model())) && m@ == index_map(
                row_names(views(rows@)),
            ),
            Err(e) => take_gcs(row_names(views(rows@)), gc_models(defs@)) == Err::<
                Seq<GenericClassModel>,
                Fault,
            >(e@),
        },
{
    let ghost names = row_names(views(rows@));
    let ghost m0 = gc_models(defs@);
    let mut gcs = defs;
    let mut out: Vec<GenericClass<'src>> = Vec::new();
    let mut name_map: StringHashMap<usize> = StringHashMap::new();
    proof {
        assert(names.skip(0) =~= names);
        assert(out@.map_values(|g: GenericClass<'src>| g.model()) =~= Seq::<GenericClassModel>::empty());
        assert(after(Seq::<GenericClassModel>::empty(), take_gcs(names, m0)) == take_gcs(names, m0)) by {
            match take_gcs(names, m0) {
                Ok(s) => assert(Seq::<GenericClassModel>::empty() + s =~= s),
                Err(_) => {},
            }
        }
        assert(names.take(0) =~= Seq::<Seq<char>>::empty());
    }
    let mut i: usize = 0;
    while i < rows.len()
        invariant
            0 <= i <= rows@.len(),
            names == row_names(views(rows@)),
            names.len() == rows@.len(),
            m0 == gc_models(defs@),
            take_gcs(names, m0) == after(
                out@.map_values(|g: GenericClass<'src>| g.model()),
                take_gcs(names.skip(i as int), gc_models(gcs@)),
            ),
            name_map@ == index_map(names.take(i as int)),
        decreases rows@.len() - i,
    {
        let n = row_name_str(rows[i]);
        let ghost rest = names.skip(i as int);
        let ghost cur = gc_models(gcs@);
        let ghost acc = out@.map_values(|g: GenericClass<'src>| g.model());
        proof {
            assert(names[i as int] == n@);
            assert(rest[0] == n@);
            assert(rest.drop_first() =~= names.skip(i + 1));
            assert(names.take(i + 1).drop_last() =~= names.take(i as int));
            assert(names.take(i + 1).last() == n@);
        }
        name_map.insert(n.to_string(), i);
        proof {
            assert(name_map@ == index_map(names.take(i + 1)));
        }
        let found = gcs.get(n);
        if found.is_none() {
            proof {
                assert(!cur.contains_key(n@));
                assert(take_gcs(rest, cur) == Err::<Seq<GenericClassModel>, Fault>(
                    Fault::UnknownGenericClass(n@),
                ));
            }
            return Err(Error::UnknownGenericClass(n.to_string()));
        }
        let g = *found.unwrap();
        gcs.remove(n);
        proof {
            assert(cur.contains_key(n@));
            assert(cur[n@] == g.model());
            assert(gc_models(gcs@) =~= cur.remove(n@));
        }
        out.push(g);
        proof {
            let acc2 = out@.map_values(|g: GenericClass<'src>| g.model());
            assert(acc2 =~= acc.push(g.model()));
            match take_gcs(names.skip(i + 1), gc_models(gcs@)) {
                Ok(s) => {
                    assert(acc + (seq![g.model()] + s) =~= acc2 + s);
                },
                Err(_) => {},
            }
        }
        i = i + 1;
    }
    proof {
        assert(names.skip(rows@.len() as int) =~= Seq::<Seq<char>>::empty());
        assert(names.take(rows@.len() as int) =~= names);
        let acc = out@.map_values(|g: GenericClass<'src>| g.model());
        assert(acc + Seq::<GenericClassModel>::empty() =~= acc);
    }
    Ok((out, name_map))
}

} // verus!

verus! {

/// Every definition line of `src` has the words its parse reads.
pub open spec fn definition_lines_complete(src: Seq<char>) -> bool {
    forall|i: int|
        0 <= i < lines(src).len() ==> {
            let l = #[trigger] lines(src)[i];
            &&& is_type_line(l) ==> words(l).len() >= 11
            &&& !is_type_line(l) && is_gc_line(l) ==> words(l).len() >= 7
        }
}

proof fn lemma_complete_no_panic(ls: Seq<Seq<char>>)
    requires
        forall|i: int|
            0 <= i < ls.len() ==> {
                let l = #[trigger] ls[i];
                &&& is_type_line(l) ==> words(l).len() >= 11
                &&& !is_type_line(l) && is_gc_line(l) ==> words(l).len() >= 7
            },
    ensures
        !(scan_definitions(ls) is Panic),
    decreases ls.len(),
{
    if ls.len() > 0 {
        let p = ls.drop_last();
        assert forall|i: int| 0 <= i < p.len() implies {
            let l = #[trigger] p[i];
            &&& is_type_line(l) ==> words(l).len() >= 11
            &&& !is_type_line(l) && is_gc_line(l) ==> words(l).len() >= 7
        } by {
            assert(p[i] == ls[i]);
        }
        lemma_complete_no_panic(p);
        let l = ls[ls.len() - 1];
        assert(ls.last() == l);
    }
}

/// Whether every definition line of `src` has the words that `parse`
/// reads; where it has, `parse` does not panic on `src`.
pub fn definition_lines_complete_exec(src: &str) -> (b: bool)
    ensures
        b == definition_lines_complete(src@),
        b ==> forall|gct_src: Seq<char>| !(#[trigger] parse_model(src@, gct_src) is Panic),
{
    let ls = lines_of(src);
    let ghost all = views(ls@);
    proof {
        reveal_strlit("const Il2CppType ");
        reveal_strlit("Il2CppGenericClass ");
    }
    let mut i: usize = 0;
    while i < ls.len()
        invariant
            0 <= i <= ls@.len(),
            all == views(ls@),
            all == lines(src@),
            forall|j: int|
                0 <= j < i ==> {
                    let l = #[trigger] all[j];
                    &&& is_type_line(l) ==> words(l).len() >= 11
                    &&& !is_type_line(l) && is_gc_line(l) ==> words(l).len() >= 7
                },
        decreases ls@.len() - i,
    {
        let line = ls[i];
        proof {
            assert(all[i as int] == line@);
        }
        if starts_with(line, "const Il2CppType ") {
            let w = split_whitespace(line);
            proof {
                assert(views(w@).len() == w@.len());
            }
            if w.len() < 11 {
                return false;
            }
        } else if starts_with(line, "Il2CppGenericClass ") {
            let w = split_whitespace(line);
            proof {
                assert(views(w@).len() == w@.len());
            }
            if w.len() < 7 {
                return false;
            }
        }
        i = i + 1;
    }
    proof {
        lemma_complete_no_panic(all);
    }
    true
}

/// Parses `Il2CppTypeDefinitions.c` (`src`) and `Il2CppGenericClassTable.c`
/// (`gct_src`) as `parse_model` says.
pub fn parse<'src>(src: &'src str, gct_src: &'src str) -> (r: Result<TypeDefinitionsFile<'src>, Error>)
    requires
        !(parse_model(src@, gct_src@) is Panic),
    ensures
        match r {
            Ok(f) => parse_model(src@, gct_src@) == Outcome::Done(f.model()),
            Err(e) => parse_model(src@, gct_src@) == Outcome::<TypeDefinitionsModel>::Fail(e@),
        },
{
    let (types, gcs) = match scan_source(src) {
        Ok(p) => p,
        Err(e) => {
            return Err(e);
        },
    };
    proof {
        reveal_strlit("const Il2CppType* const  g_Il2CppTypeTable");
        reveal_strlit("Il2CppGenericClass* const s_Il2CppGenericTypes");
    }
    let rows = match table_lines(src, "const Il2CppType* const  g_Il2CppTypeTable", 3) {
        Some(r) => r,
        None => {
            return Err(Error::TableNotFound("g_Il2CppTypeTable".to_string()));
        },
    };
    let (types_arr, ty_name_map) = match take_type_rows(&rows, types) {
        Ok(p) => p,
        Err(e) => {
            return Err(e);
        },
    };
    let gc_rows = match table_lines(gct_src, "Il2CppGenericClass* const s_Il2CppGenericTypes", 3) {
        Some(r) => r,
        None => {
            return Err(Error::TableNotFound("s_Il2CppGenericTypes".to_string()));
        },
    };
    let (gc_arr, gc_name_map) = match take_gc_rows(&gc_rows, gcs) {
        Ok(p) => p,
        Err(e) => {
            return Err(e);
        },
    };
    Ok(
        TypeDefinitionsFile {
            types: types_arr,
            ty_name_map,
            generic_classes: gc_arr,
            gc_name_map,
        },
    )
}

} // verus!
