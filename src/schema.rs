//! Name-coded enumerations of tileset and metadata records, with the
//! mapping between each variant and the name that records spell it with.

use vstd::prelude::*;

use crate::text::str_eq;
use crate::tiling::SubdivisionScheme;

verus! {

impl SubdivisionScheme {
    /// The scheme that `name` spells (`"QUADTREE"` or `"OCTREE"`), if any.
    pub fn from_name(name: &str) -> (r: Option<SubdivisionScheme>)
        ensures
            name@ == "QUADTREE"@ ==> r == Some(SubdivisionScheme::Quadtree),
            name@ == "OCTREE"@ ==> r == Some(SubdivisionScheme::Octree),
            (name@ != "QUADTREE"@ && name@ != "OCTREE"@) ==> r is None,
    {
        proof {
            reveal_strlit("QUADTREE");
            reveal_strlit("OCTREE");
            assert("QUADTREE"@.len() == 8);
            assert("OCTREE"@.len() == 6);
            assert("QUADTREE"@ != "OCTREE"@);
        }
        if str_eq(name, "QUADTREE") {
            Some(SubdivisionScheme::Quadtree)
        } else if str_eq(name, "OCTREE") {
            Some(SubdivisionScheme::Octree)
        } else {
            None
        }
    }

    /// The name records spell the scheme with.
    pub fn name(&self) -> (r: &'static str)
        ensures
            *self == SubdivisionScheme::Quadtree ==> r@ == "QUADTREE"@,
            *self == SubdivisionScheme::Octree ==> r@ == "OCTREE"@,
    {
        match self {
            SubdivisionScheme::Quadtree => "QUADTREE",
            SubdivisionScheme::Octree => "OCTREE",
        }
    }
}

/// Whether all elements of an availability are available (1) or none (0),
/// or another integer that records may hold.
#[derive(PartialEq, Eq, Structural, Clone, Copy, Debug)]
pub enum Constant {
    AVAILABLE,
    UNAVAILABLE,
    Other(i32),
}

impl Constant {
    /// The constant an integer codes: 1 and 0, or any other value kept as it is.
    pub fn from_code(code: i32) -> (r: Constant)
        ensures
            code == 1 ==> r == Constant::AVAILABLE,
            code == 0 ==> r == Constant::UNAVAILABLE,
            (code != 0 && code != 1) ==> r == Constant::Other(code),
    {
        match code {
            0 => Constant::UNAVAILABLE,
            1 => Constant::AVAILABLE,
            _ => Constant::Other(code),
        }
    }

    /// The integer that codes the constant.
    pub fn code(&self) -> (r: i32)
        ensures
            *self == Constant::AVAILABLE ==> r == 1,
            *self == Constant::UNAVAILABLE ==> r == 0,
            self matches Constant::Other(v) ==> r == v,
    {
        match self {
            Constant::AVAILABLE => 1,
            Constant::UNAVAILABLE => 0,
            Constant::Other(v) => *v,
        }
    }
}

/// The kind of a metadata class property's elements.
#[derive(PartialEq, Eq, Clone, Debug)]
pub enum ElementType {
    SCALAR,
    VEC2,
    VEC3,
    VEC4,
    MAT2,
    MAT3,
    MAT4,
    STRING,
    BOOLEAN,
    ENUM,
    Other(String),
}

impl ElementType {
    /// The variant that `name` spells; any other name is kept in `Other`.
    pub fn from_name(name: &str) -> (r: ElementType)
        ensures
            name@ == "SCALAR"@ ==> r == ElementType::SCALAR,
            name@ == "VEC2"@ ==> r == ElementType::VEC2,
            name@ == "VEC3"@ ==> r == ElementType::VEC3,
            name@ == "VEC4"@ ==> r == ElementType::VEC4,
            name@ == "MAT2"@ ==> r == ElementType::MAT2,
            name@ == "MAT3"@ ==> r == ElementType::MAT3,
            name@ == "MAT4"@ ==> r == ElementType::MAT4,
            name@ == "STRING"@ ==> r == ElementType::STRING,
            name@ == "BOOLEAN"@ ==> r == ElementType::BOOLEAN,
            name@ == "ENUM"@ ==> r == ElementType::ENUM,
            (name@ != "SCALAR"@ && name@ != "VEC2"@ && name@ != "VEC3"@ && name@ != "VEC4"@ && name@ != "MAT2"@ && name@ != "MAT3"@ && name@ != "MAT4"@ && name@ != "STRING"@ && name@ != "BOOLEAN"@ && name@ != "ENUM"@) ==> (r matches ElementType::Other(v) && v@ == name@),
    {
        proof {
            reveal_strlit("SCALAR");
            reveal_strlit("VEC2");
            reveal_strlit("VEC3");
            reveal_strlit("VEC4");
            reveal_strlit("MAT2");
            reveal_strlit("MAT3");
            reveal_strlit("MAT4");
            reveal_strlit("STRING");
            reveal_strlit("BOOLEAN");
            reveal_strlit("ENUM");
            assert("SCALAR"@.len() == 6);
            assert("VEC2"@.len() == 4);
            assert("VEC3"@.len() == 4);
            assert("VEC4"@.len() == 4);
            assert("MAT2"@.len() == 4);
            assert("MAT3"@.len() == 4);
            assert("MAT4"@.len() == 4);
            assert("STRING"@.len() == 6);
            assert("BOOLEAN"@.len() == 7);
            assert("ENUM"@.len() == 4);
            assert("SCALAR"@ != "VEC2"@);
            assert("SCALAR"@ != "VEC3"@);
            assert("SCALAR"@ != "VEC4"@);
            assert("SCALAR"@ != "MAT2"@);
            assert("SCALAR"@ != "MAT3"@);
            assert("SCALAR"@ != "MAT4"@);
            assert("SCALAR"@[1] != "STRING"@[1]);
            assert("SCALAR"@ != "STRING"@);
            assert("SCALAR"@ != "BOOLEAN"@);
            assert("SCALAR"@ != "ENUM"@);
            assert("VEC2"@[3] != "VEC3"@[3]);
            assert("VEC2"@ != "VEC3"@);
            assert("VEC2"@[3] != "VEC4"@[3]);
            assert("VEC2"@ != "VEC4"@);
            assert("VEC2"@[0] != "MAT2"@[0]);
            assert("VEC2"@ != "MAT2"@);
            assert("VEC2"@[0] != "MAT3"@[0]);
            assert("VEC2"@ != "MAT3"@);
            assert("VEC2"@[0] != "MAT4"@[0]);
            assert("VEC2"@ != "MAT4"@);
            assert("VEC2"@ != "STRING"@);
            assert("VEC2"@ != "BOOLEAN"@);
            assert("VEC2"@[0] != "ENUM"@[0]);
            assert("VEC2"@ != "ENUM"@);
            assert("VEC3"@[3] != "VEC4"@[3]);
            assert("VEC3"@ != "VEC4"@);
            assert("VEC3"@[0] != "MAT2"@[0]);
            assert("VEC3"@ != "MAT2"@);
            assert("VEC3"@[0] != "MAT3"@[0]);
            assert("VEC3"@ != "MAT3"@);
            assert("VEC3"@[0] != "MAT4"@[0]);
            assert("VEC3"@ != "MAT4"@);
            assert("VEC3"@ != "STRING"@);
            assert("VEC3"@ != "BOOLEAN"@);
            assert("VEC3"@[0] != "ENUM"@[0]);
            assert("VEC3"@ != "ENUM"@);
            assert("VEC4"@[0] != "MAT2"@[0]);
            assert("VEC4"@ != "MAT2"@);
            assert("VEC4"@[0] != "MAT3"@[0]);
            assert("VEC4"@ != "MAT3"@);
            assert("VEC4"@[0] != "MAT4"@[0]);
            assert("VEC4"@ != "MAT4"@);
            assert("VEC4"@ != "STRING"@);
            assert("VEC4"@ != "BOOLEAN"@);
            assert("VEC4"@[0] != "ENUM"@[0]);
            assert("VEC4"@ != "ENUM"@);
            assert("MAT2"@[3] != "MAT3"@[3]);
            assert("MAT2"@ != "MAT3"@);
            assert("MAT2"@[3] != "MAT4"@[3]);
            assert("MAT2"@ != "MAT4"@);
            assert("MAT2"@ != "STRING"@);
            assert("MAT2"@ != "BOOLEAN"@);
            assert("MAT2"@[0] != "ENUM"@[0]);
            assert("MAT2"@ != "ENUM"@);
            assert("MAT3"@[3] != "MAT4"@[3]);
            assert("MAT3"@ != "MAT4"@);
            assert("MAT3"@ != "STRING"@);
            assert("MAT3"@ != "BOOLEAN"@);
            assert("MAT3"@[0] != "ENUM"@[0]);
            assert("MAT3"@ != "ENUM"@);
            assert("MAT4"@ != "STRING"@);
            assert("MAT4"@ != "BOOLEAN"@);
            assert("MAT4"@[0] != "ENUM"@[0]);
            assert("MAT4"@ != "ENUM"@);
            assert("STRING"@ != "BOOLEAN"@);
            assert("STRING"@ != "ENUM"@);
            assert("BOOLEAN"@ != "ENUM"@);
        }
        if str_eq(name, "SCALAR") {
            ElementType::SCALAR
        } else if str_eq(name, "VEC2") {
            ElementType::VEC2
        } else if str_eq(name, "VEC3") {
            ElementType::VEC3
        } else if str_eq(name, "VEC4") {
            ElementType::VEC4
        } else if str_eq(name, "MAT2") {
            ElementType::MAT2
        } else if str_eq(name, "MAT3") {
            ElementType::MAT3
        } else if str_eq(name, "MAT4") {
            ElementType::MAT4
        } else if str_eq(name, "STRING") {
            ElementType::STRING
        } else if str_eq(name, "BOOLEAN") {
            ElementType::BOOLEAN
        } else if str_eq(name, "ENUM") {
            ElementType::ENUM
        } else {
            ElementType::Other(name.to_owned())
        }
    }

    /// The name records spell this variant with.
    pub fn name(&self) -> (r: &str)
        ensures
            *self == ElementType::SCALAR ==> r@ == "SCALAR"@,
            *self == ElementType::VEC2 ==> r@ == "VEC2"@,
            *self == ElementType::VEC3 ==> r@ == "VEC3"@,
            *self == ElementType::VEC4 ==> r@ == "VEC4"@,
            *self == ElementType::MAT2 ==> r@ == "MAT2"@,
            *self == ElementType::MAT3 ==> r@ == "MAT3"@,
            *self == ElementType::MAT4 ==> r@ == "MAT4"@,
            *self == ElementType::STRING ==> r@ == "STRING"@,
            *self == ElementType::BOOLEAN ==> r@ == "BOOLEAN"@,
            *self == ElementType::ENUM ==> r@ == "ENUM"@,
            self matches ElementType::Other(v) ==> r@ == v@,
    {
        match self {
            ElementType::SCALAR => "SCALAR",
            ElementType::VEC2 => "VEC2",
            ElementType::VEC3 => "VEC3",
            ElementType::VEC4 => "VEC4",
            ElementType::MAT2 => "MAT2",
            ElementType::MAT3 => "MAT3",
            ElementType::MAT4 => "MAT4",
            ElementType::STRING => "STRING",
            ElementType::BOOLEAN => "BOOLEAN",
            ElementType::ENUM => "ENUM",
            ElementType::Other(v) => v.as_str(),
        }
    }
}

/// The datatype of the components of a `SCALAR`, `VECN` or `MATN` property.
#[derive(PartialEq, Eq, Structural, Clone, Copy, Debug)]
pub enum ComponentType {
    INT8,
    UINT8,
    INT16,
    UINT16,
    INT32,
    UINT32,
    INT64,
    UINT64,
    FLOAT32,
    FLOAT64,
}

impl ComponentType {
    /// The variant that `name` spells, if any.
    pub fn from_name(name: &str) -> (r: Option<ComponentType>)
        ensures
            name@ == "INT8"@ ==> r == Some(ComponentType::INT8),
            name@ == "UINT8"@ ==> r == Some(ComponentType::UINT8),
            name@ == "INT16"@ ==> r == Some(ComponentType::INT16),
            name@ == "UINT16"@ ==> r == Some(ComponentType::UINT16),
            name@ == "INT32"@ ==> r == Some(ComponentType::INT32),
            name@ == "UINT32"@ ==> r == Some(ComponentType::UINT32),
            name@ == "INT64"@ ==> r == Some(ComponentType::INT64),
            name@ == "UINT64"@ ==> r == Some(ComponentType::UINT64),
            name@ == "FLOAT32"@ ==> r == Some(ComponentType::FLOAT32),
            name@ == "FLOAT64"@ ==> r == Some(ComponentType::FLOAT64),
            (name@ != "INT8"@ && name@ != "UINT8"@ && name@ != "INT16"@ && name@ != "UINT16"@ && name@ != "INT32"@ && name@ != "UINT32"@ && name@ != "INT64"@ && name@ != "UINT64"@ && name@ != "FLOAT32"@ && name@ != "FLOAT64"@) ==> r is None,
    {
        proof {
            reveal_strlit("INT8");
            reveal_strlit("UINT8");
            reveal_strlit("INT16");
            reveal_strlit("UINT16");
            reveal_strlit("INT32");
            reveal_strlit("UINT32");
            reveal_strlit("INT64");
            reveal_strlit("UINT64");
            reveal_strlit("FLOAT32");
            reveal_strlit("FLOAT64");
            assert("INT8"@.len() == 4);
            assert("UINT8"@.len() == 5);
            assert("INT16"@.len() == 5);
            assert("UINT16"@.len() == 6);
            assert("INT32"@.len() == 5);
            assert("UINT32"@.len() == 6);
            assert("INT64"@.len() == 5);
            assert("UINT64"@.len() == 6);
            assert("FLOAT32"@.len() == 7);
            assert("FLOAT64"@.len() == 7);
            assert("INT8"@ != "UINT8"@);
            assert("INT8"@ != "INT16"@);
            assert("INT8"@ != "UINT16"@);
            assert("INT8"@ != "INT32"@);
            assert("INT8"@ != "UINT32"@);
            assert("INT8"@ != "INT64"@);
            assert("INT8"@ != "UINT64"@);
            assert("INT8"@ != "FLOAT32"@);
            assert("INT8"@ != "FLOAT64"@);
            assert("UINT8"@[0] != "INT16"@[0]);
            assert("UINT8"@ != "INT16"@);
            assert("UINT8"@ != "UINT16"@);
            assert("UINT8"@[0] != "INT32"@[0]);
            assert("UINT8"@ != "INT32"@);
            assert("UINT8"@ != "UINT32"@);
            assert("UINT8"@[0] != "INT64"@[0]);
            assert("UINT8"@ != "INT64"@);
            assert("UINT8"@ != "UINT64"@);
            assert("UINT8"@ != "FLOAT32"@);
            assert("UINT8"@ != "FLOAT64"@);
            assert("INT16"@ != "UINT16"@);
            assert("INT16"@[3] != "INT32"@[3]);
            assert("INT16"@ != "INT32"@);
            assert("INT16"@ != "UINT32"@);
            assert("INT16"@[3] != "INT64"@[3]);
            assert("INT16"@ != "INT64"@);
            assert("INT16"@ != "UINT64"@);
            assert("INT16"@ != "FLOAT32"@);
            assert("INT16"@ != "FLOAT64"@);
            assert("UINT16"@ != "INT32"@);
            assert("UINT16"@[4] != "UINT32"@[4]);
            assert("UINT16"@ != "UINT32"@);
            assert("UINT16"@ != "INT64"@);
            assert("UINT16"@[4] != "UINT64"@[4]);
            assert("UINT16"@ != "UINT64"@);
            assert("UINT16"@ != "FLOAT32"@);
            assert("UINT16"@ != "FLOAT64"@);
            assert("INT32"@ != "UINT32"@);
            assert("INT32"@[3] != "INT64"@[3]);
            assert("INT32"@ != "INT64"@);
            assert("INT32"@ != "UINT64"@);
            assert("INT32"@ != "FLOAT32"@);
            assert("INT32"@ != "FLOAT64"@);
            assert("UINT32"@ != "INT64"@);
            assert("UINT32"@[4] != "UINT64"@[4]);
            assert("UINT32"@ != "UINT64"@);
            assert("UINT32"@ != "FLOAT32"@);
            assert("UINT32"@ != "FLOAT64"@);
            assert("INT64"@ != "UINT64"@);
            assert("INT64"@ != "FLOAT32"@);
            assert("INT64"@ != "FLOAT64"@);
            assert("UINT64"@ != "FLOAT32"@);
            assert("UINT64"@ != "FLOAT64"@);
            assert("FLOAT32"@[5] != "FLOAT64"@[5]);
            assert("FLOAT32"@ != "FLOAT64"@);
        }
        if str_eq(name, "INT8") {
            Some(ComponentType::INT8)
        } else if str_eq(name, "UINT8") {
            Some(ComponentType::UINT8)
        } else if str_eq(name, "INT16") {
            Some(ComponentType::INT16)
        } else if str_eq(name, "UINT16") {
            Some(ComponentType::UINT16)
        } else if str_eq(name, "INT32") {
            Some(ComponentType::INT32)
        } else if str_eq(name, "UINT32") {
            Some(ComponentType::UINT32)
        } else if str_eq(name, "INT64") {
            Some(ComponentType::INT64)
        } else if str_eq(name, "UINT64") {
            Some(ComponentType::UINT64)
        } else if str_eq(name, "FLOAT32") {
            Some(ComponentType::FLOAT32)
        } else if str_eq(name, "FLOAT64") {
            Some(ComponentType::FLOAT64)
        } else {
            None
        }
    }

    /// The name records spell this variant with.
    pub fn name(&self) -> (r: &str)
        ensures
            *self == ComponentType::INT8 ==> r@ == "INT8"@,
            *self == ComponentType::UINT8 ==> r@ == "UINT8"@,
            *self == ComponentType::INT16 ==> r@ == "INT16"@,
            *self == ComponentType::UINT16 ==> r@ == "UINT16"@,
            *self == ComponentType::INT32 ==> r@ == "INT32"@,
            *self == ComponentType::UINT32 ==> r@ == "UINT32"@,
            *self == ComponentType::INT64 ==> r@ == "INT64"@,
            *self == ComponentType::UINT64 ==> r@ == "UINT64"@,
            *self == ComponentType::FLOAT32 ==> r@ == "FLOAT32"@,
            *self == ComponentType::FLOAT64 ==> r@ == "FLOAT64"@,
    {
        match self {
            ComponentType::INT8 => "INT8",
            ComponentType::UINT8 => "UINT8",
            ComponentType::INT16 => "INT16",
            ComponentType::UINT16 => "UINT16",
            ComponentType::INT32 => "INT32",
            ComponentType::UINT32 => "UINT32",
            ComponentType::INT64 => "INT64",
            ComponentType::UINT64 => "UINT64",
            ComponentType::FLOAT32 => "FLOAT32",
            ComponentType::FLOAT64 => "FLOAT64",
        }
    }
}

/// The integer type of an enum's values.
#[derive(PartialEq, Eq, Structural, Clone, Copy, Debug)]
pub enum ValueType {
    INT8,
    UINT8,
    INT16,
    UINT16,
    INT32,
    UINT32,
    INT64,
    UINT64,
}

impl ValueType {
    /// The variant that `name` spells, if any.
    pub fn from_name(name: &str) -> (r: Option<ValueType>)
        ensures
            name@ == "INT8"@ ==> r == Some(ValueType::INT8),
            name@ == "UINT8"@ ==> r == Some(ValueType::UINT8),
            name@ == "INT16"@ ==> r == Some(ValueType::INT16),
            name@ == "UINT16"@ ==> r == Some(ValueType::UINT16),
            name@ == "INT32"@ ==> r == Some(ValueType::INT32),
            name@ == "UINT32"@ ==> r == Some(ValueType::UINT32),
            name@ == "INT64"@ ==> r == Some(ValueType::INT64),
            name@ == "UINT64"@ ==> r == Some(ValueType::UINT64),
            (name@ != "INT8"@ && name@ != "UINT8"@ && name@ != "INT16"@ && name@ != "UINT16"@ && name@ != "INT32"@ && name@ != "UINT32"@ && name@ != "INT64"@ && name@ != "UINT64"@) ==> r is None,
    {
        proof {
            reveal_strlit("INT8");
            reveal_strlit("UINT8");
            reveal_strlit("INT16");
            reveal_strlit("UINT16");
            reveal_strlit("INT32");
            reveal_strlit("UINT32");
            reveal_strlit("INT64");
            reveal_strlit("UINT64");
            assert("INT8"@.len() == 4);
            assert("UINT8"@.len() == 5);
            assert("INT16"@.len() == 5);
            assert("UINT16"@.len() == 6);
            assert("INT32"@.len() == 5);
            assert("UINT32"@.len() == 6);
            assert("INT64"@.len() == 5);
            assert("UINT64"@.len() == 6);
            assert("INT8"@ != "UINT8"@);
            assert("INT8"@ != "INT16"@);
            assert("INT8"@ != "UINT16"@);
            assert("INT8"@ != "INT32"@);
            assert("INT8"@ != "UINT32"@);
            assert("INT8"@ != "INT64"@);
            assert("INT8"@ != "UINT64"@);
            assert("UINT8"@[0] != "INT16"@[0]);
            assert("UINT8"@ != "INT16"@);
            assert("UINT8"@ != "UINT16"@);
            assert("UINT8"@[0] != "INT32"@[0]);
            assert("UINT8"@ != "INT32"@);
            assert("UINT8"@ != "UINT32"@);
            assert("UINT8"@[0] != "INT64"@[0]);
            assert("UINT8"@ != "INT64"@);
            assert("UINT8"@ != "UINT64"@);
            assert("INT16"@ != "UINT16"@);
            assert("INT16"@[3] != "INT32"@[3]);
            assert("INT16"@ != "INT32"@);
            assert("INT16"@ != "UINT32"@);
            assert("INT16"@[3] != "INT64"@[3]);
            assert("INT16"@ != "INT64"@);
            assert("INT16"@ != "UINT64"@);
            assert("UINT16"@ != "INT32"@);
            assert("UINT16"@[4] != "UINT32"@[4]);
            assert("UINT16"@ != "UINT32"@);
            assert("UINT16"@ != "INT64"@);
            assert("UINT16"@[4] != "UINT64"@[4]);
            assert("UINT16"@ != "UINT64"@);
            assert("INT32"@ != "UINT32"@);
            assert("INT32"@[3] != "INT64"@[3]);
            assert("INT32"@ != "INT64"@);
            assert("INT32"@ != "UINT64"@);
            assert("UINT32"@ != "INT64"@);
            assert("UINT32"@[4] != "UINT64"@[4]);
            assert("UINT32"@ != "UINT64"@);
            assert("INT64"@ != "UINT64"@);
        }
        if str_eq(name, "INT8") {
            Some(ValueType::INT8)
        } else if str_eq(name, "UINT8") {
            Some(ValueType::UINT8)
        } else if str_eq(name, "INT16") {
            Some(ValueType::INT16)
        } else if str_eq(name, "UINT16") {
            Some(ValueType::UINT16)
        } else if str_eq(name, "INT32") {
            Some(ValueType::INT32)
        } else if str_eq(name, "UINT32") {
            Some(ValueType::UINT32)
        } else if str_eq(name, "INT64") {
            Some(ValueType::INT64)
        } else if str_eq(name, "UINT64") {
            Some(ValueType::UINT64)
        } else {
            None
        }
    }

    /// The name records spell this variant with.
    pub fn name(&self) -> (r: &str)
        ensures
            *self == ValueType::INT8 ==> r@ == "INT8"@,
            *self == ValueType::UINT8 ==> r@ == "UINT8"@,
            *self == ValueType::INT16 ==> r@ == "INT16"@,
            *self == ValueType::UINT16 ==> r@ == "UINT16"@,
            *self == ValueType::INT32 ==> r@ == "INT32"@,
            *self == ValueType::UINT32 ==> r@ == "UINT32"@,
            *self == ValueType::INT64 ==> r@ == "INT64"@,
            *self == ValueType::UINT64 ==> r@ == "UINT64"@,
    {
        match self {
            ValueType::INT8 => "INT8",
            ValueType::UINT8 => "UINT8",
            ValueType::INT16 => "INT16",
            ValueType::UINT16 => "UINT16",
            ValueType::INT32 => "INT32",
            ValueType::UINT32 => "UINT32",
            ValueType::INT64 => "INT64",
            ValueType::UINT64 => "UINT64",
        }
    }
}

/// The type of the values in `arrayOffsets`.
#[derive(PartialEq, Eq, Clone, Debug)]
pub enum ArrayOffsetType {
    UINT8,
    UINT16,
    UINT32,
    UINT64,
    Other(String),
}

impl ArrayOffsetType {
    /// The variant that `name` spells; any other name is kept in `Other`.
    pub fn from_name(name: &str) -> (r: ArrayOffsetType)
        ensures
            name@ == "UINT8"@ ==> r == ArrayOffsetType::UINT8,
            name@ == "UINT16"@ ==> r == ArrayOffsetType::UINT16,
            name@ == "UINT32"@ ==> r == ArrayOffsetType::UINT32,
            name@ == "UINT64"@ ==> r == ArrayOffsetType::UINT64,
            (name@ != "UINT8"@ && name@ != "UINT16"@ && name@ != "UINT32"@ && name@ != "UINT64"@) ==> (r matches ArrayOffsetType::Other(v) && v@ == name@),
    {
        proof {
            reveal_strlit("UINT8");
            reveal_strlit("UINT16");
            reveal_strlit("UINT32");
            reveal_strlit("UINT64");
            assert("UINT8"@.len() == 5);
            assert("UINT16"@.len() == 6);
            assert("UINT32"@.len() == 6);
            assert("UINT64"@.len() == 6);
            assert("UINT8"@ != "UINT16"@);
            assert("UINT8"@ != "UINT32"@);
            assert("UINT8"@ != "UINT64"@);
            assert("UINT16"@[4] != "UINT32"@[4]);
            assert("UINT16"@ != "UINT32"@);
            assert("UINT16"@[4] != "UINT64"@[4]);
            assert("UINT16"@ != "UINT64"@);
            assert("UINT32"@[4] != "UINT64"@[4]);
            assert("UINT32"@ != "UINT64"@);
        }
        if str_eq(name, "UINT8") {
            ArrayOffsetType::UINT8
        } else if str_eq(name, "UINT16") {
            ArrayOffsetType::UINT16
        } else if str_eq(name, "UINT32") {
            ArrayOffsetType::UINT32
        } else if str_eq(name, "UINT64") {
            ArrayOffsetType::UINT64
        } else {
            ArrayOffsetType::Other(name.to_owned())
        }
    }

    /// The name records spell this variant with.
    pub fn name(&self) -> (r: &str)
        ensures
            *self == ArrayOffsetType::UINT8 ==> r@ == "UINT8"@,
            *self == ArrayOffsetType::UINT16 ==> r@ == "UINT16"@,
            *self == ArrayOffsetType::UINT32 ==> r@ == "UINT32"@,
            *self == ArrayOffsetType::UINT64 ==> r@ == "UINT64"@,
            self matches ArrayOffsetType::Other(v) ==> r@ == v@,
    {
        match self {
            ArrayOffsetType::UINT8 => "UINT8",
            ArrayOffsetType::UINT16 => "UINT16",
            ArrayOffsetType::UINT32 => "UINT32",
            ArrayOffsetType::UINT64 => "UINT64",
            ArrayOffsetType::Other(v) => v.as_str(),
        }
    }
}

/// The type of the values in `stringOffsets`.
#[derive(PartialEq, Eq, Clone, Debug)]
pub enum StringOffsetType {
    UINT8,
    UINT16,
    UINT32,
    UINT64,
    Other(String),
}

impl StringOffsetType {
    /// The variant that `name` spells; any other name is kept in `Other`.
    pub fn from_name(name: &str) -> (r: StringOffsetType)
        ensures
            name@ == "UINT8"@ ==> r == StringOffsetType::UINT8,
            name@ == "UINT16"@ ==> r == StringOffsetType::UINT16,
            name@ == "UINT32"@ ==> r == StringOffsetType::UINT32,
            name@ == "UINT64"@ ==> r == StringOffsetType::UINT64,
            (name@ != "UINT8"@ && name@ != "UINT16"@ && name@ != "UINT32"@ && name@ != "UINT64"@) ==> (r matches StringOffsetType::Other(v) && v@ == name@),
    {
        proof {
            reveal_strlit("UINT8");
            reveal_strlit("UINT16");
            reveal_strlit("UINT32");
            reveal_strlit("UINT64");
            assert("UINT8"@.len() == 5);
            assert("UINT16"@.len() == 6);
            assert("UINT32"@.len() == 6);
            assert("UINT64"@.len() == 6);
            assert("UINT8"@ != "UINT16"@);
            assert("UINT8"@ != "UINT32"@);
            assert("UINT8"@ != "UINT64"@);
            assert("UINT16"@[4] != "UINT32"@[4]);
            assert("UINT16"@ != "UINT32"@);
            assert("UINT16"@[4] != "UINT64"@[4]);
            assert("UINT16"@ != "UINT64"@);
            assert("UINT32"@[4] != "UINT64"@[4]);
            assert("UINT32"@ != "UINT64"@);
        }
        if str_eq(name, "UINT8") {
            StringOffsetType::UINT8
        } else if str_eq(name, "UINT16") {
            StringOffsetType::UINT16
        } else if str_eq(name, "UINT32") {
            StringOffsetType::UINT32
        } else if str_eq(name, "UINT64") {
            StringOffsetType::UINT64
        } else {
            StringOffsetType::Other(name.to_owned())
        }
    }

    /// The name records spell this variant with.
    pub fn name(&self) -> (r: &str)
        ensures
            *self == StringOffsetType::UINT8 ==> r@ == "UINT8"@,
            *self == StringOffsetType::UINT16 ==> r@ == "UINT16"@,
            *self == StringOffsetType::UINT32 ==> r@ == "UINT32"@,
            *self == StringOffsetType::UINT64 ==> r@ == "UINT64"@,
            self matches StringOffsetType::Other(v) ==> r@ == v@,
    {
        match self {
            StringOffsetType::UINT8 => "UINT8",
            StringOffsetType::UINT16 => "UINT16",
            StringOffsetType::UINT32 => "UINT32",
            StringOffsetType::UINT64 => "UINT64",
            StringOffsetType::Other(v) => v.as_str(),
        }
    }
}

/// Whether a batch table property is a scalar or a vector.
#[derive(PartialEq, Eq, Clone, Debug)]
pub enum ScaleOrVectorType {
    SCALAR,
    VEC2,
    VEC3,
    VEC4,
    Other(String),
}

impl ScaleOrVectorType {
    /// The variant that `name` spells; any other name is kept in `Other`.
    pub fn from_name(name: &str) -> (r: ScaleOrVectorType)
        ensures
            name@ == "SCALAR"@ ==> r == ScaleOrVectorType::SCALAR,
            name@ == "VEC2"@ ==> r == ScaleOrVectorType::VEC2,
            name@ == "VEC3"@ ==> r == ScaleOrVectorType::VEC3,
            name@ == "VEC4"@ ==> r == ScaleOrVectorType::VEC4,
            (name@ != "SCALAR"@ && name@ != "VEC2"@ && name@ != "VEC3"@ && name@ != "VEC4"@) ==> (r matches ScaleOrVectorType::Other(v) && v@ == name@),
    {
        proof {
            reveal_strlit("SCALAR");
            reveal_strlit("VEC2");
            reveal_strlit("VEC3");
            reveal_strlit("VEC4");
            assert("SCALAR"@.len() == 6);
            assert("VEC2"@.len() == 4);
            assert("VEC3"@.len() == 4);
            assert("VEC4"@.len() == 4);
            assert("SCALAR"@ != "VEC2"@);
            assert("SCALAR"@ != "VEC3"@);
            assert("SCALAR"@ != "VEC4"@);
            assert("VEC2"@[3] != "VEC3"@[3]);
            assert("VEC2"@ != "VEC3"@);
            assert("VEC2"@[3] != "VEC4"@[3]);
            assert("VEC2"@ != "VEC4"@);
            assert("VEC3"@[3] != "VEC4"@[3]);
            assert("VEC3"@ != "VEC4"@);
        }
        if str_eq(name, "SCALAR") {
            ScaleOrVectorType::SCALAR
        } else if str_eq(name, "VEC2") {
            ScaleOrVectorType::VEC2
        } else if str_eq(name, "VEC3") {
            ScaleOrVectorType::VEC3
        } else if str_eq(name, "VEC4") {
            ScaleOrVectorType::VEC4
        } else {
            ScaleOrVectorType::Other(name.to_owned())
        }
    }

    /// The name records spell this variant with.
    pub fn name(&self) -> (r: &str)
        ensures
            *self == ScaleOrVectorType::SCALAR ==> r@ == "SCALAR"@,
            *self == ScaleOrVectorType::VEC2 ==> r@ == "VEC2"@,
            *self == ScaleOrVectorType::VEC3 ==> r@ == "VEC3"@,
            *self == ScaleOrVectorType::VEC4 ==> r@ == "VEC4"@,
            self matches ScaleOrVectorType::Other(v) ==> r@ == v@,
    {
        match self {
            ScaleOrVectorType::SCALAR => "SCALAR",
            ScaleOrVectorType::VEC2 => "VEC2",
            ScaleOrVectorType::VEC3 => "VEC3",
            ScaleOrVectorType::VEC4 => "VEC4",
            ScaleOrVectorType::Other(v) => v.as_str(),
        }
    }
}

/// Whether a binary body property is a scalar or a vector.
#[derive(PartialEq, Eq, Structural, Clone, Copy, Debug)]
pub enum BinaryBodyReferenceType {
    SCALAR,
    VEC2,
    VEC3,
    VEC4,
}

impl BinaryBodyReferenceType {
    /// The variant that `name` spells, if any.
    pub fn from_name(name: &str) -> (r: Option<BinaryBodyReferenceType>)
        ensures
            name@ == "SCALAR"@ ==> r == Some(BinaryBodyReferenceType::SCALAR),
            name@ == "VEC2"@ ==> r == Some(BinaryBodyReferenceType::VEC2),
            name@ == "VEC3"@ ==> r == Some(BinaryBodyReferenceType::VEC3),
            name@ == "VEC4"@ ==> r == Some(BinaryBodyReferenceType::VEC4),
            (name@ != "SCALAR"@ && name@ != "VEC2"@ && name@ != "VEC3"@ && name@ != "VEC4"@) ==> r is None,
    {
        proof {
            reveal_strlit("SCALAR");
            reveal_strlit("VEC2");
            reveal_strlit("VEC3");
            reveal_strlit("VEC4");
            assert("SCALAR"@.len() == 6);
            assert("VEC2"@.len() == 4);
            assert("VEC3"@.len() == 4);
            assert("VEC4"@.len() == 4);
            assert("SCALAR"@ != "VEC2"@);
            assert("SCALAR"@ != "VEC3"@);
            assert("SCALAR"@ != "VEC4"@);
            assert("VEC2"@[3] != "VEC3"@[3]);
            assert("VEC2"@ != "VEC3"@);
            assert("VEC2"@[3] != "VEC4"@[3]);
            assert("VEC2"@ != "VEC4"@);
            assert("VEC3"@[3] != "VEC4"@[3]);
            assert("VEC3"@ != "VEC4"@);
        }
        if str_eq(name, "SCALAR") {
            Some(BinaryBodyReferenceType::SCALAR)
        } else if str_eq(name, "VEC2") {
            Some(BinaryBodyReferenceType::VEC2)
        } else if str_eq(name, "VEC3") {
            Some(BinaryBodyReferenceType::VEC3)
        } else if str_eq(name, "VEC4") {
            Some(BinaryBodyReferenceType::VEC4)
        } else {
            None
        }
    }

    /// The name records spell this variant with.
    pub fn name(&self) -> (r: &str)
        ensures
            *self == BinaryBodyReferenceType::SCALAR ==> r@ == "SCALAR"@,
            *self == BinaryBodyReferenceType::VEC2 ==> r@ == "VEC2"@,
            *self == BinaryBodyReferenceType::VEC3 ==> r@ == "VEC3"@,
            *self == BinaryBodyReferenceType::VEC4 ==> r@ == "VEC4"@,
    {
        match self {
            BinaryBodyReferenceType::SCALAR => "SCALAR",
            BinaryBodyReferenceType::VEC2 => "VEC2",
            BinaryBodyReferenceType::VEC3 => "VEC3",
            BinaryBodyReferenceType::VEC4 => "VEC4",
        }
    }
}

/// How a tile's children refine it.
#[derive(PartialEq, Eq, Structural, Clone, Copy, Debug)]
pub enum Refine {
    ADD,
    REPLACE,
}

impl Refine {
    /// The variant that `name` spells, if any.
    pub fn from_name(name: &str) -> (r: Option<Refine>)
        ensures
            name@ == "ADD"@ ==> r == Some(Refine::ADD),
            name@ == "REPLACE"@ ==> r == Some(Refine::REPLACE),
            (name@ != "ADD"@ && name@ != "REPLACE"@) ==> r is None,
    {
        proof {
            reveal_strlit("ADD");
            reveal_strlit("REPLACE");
            assert("ADD"@.len() == 3);
            assert("REPLACE"@.len() == 7);
            assert("ADD"@ != "REPLACE"@);
        }
        if str_eq(name, "ADD") {
            Some(Refine::ADD)
        } else if str_eq(name, "REPLACE") {
            Some(Refine::REPLACE)
        } else {
            None
        }
    }

    /// The name records spell this variant with.
    pub fn name(&self) -> (r: &str)
        ensures
            *self == Refine::ADD ==> r@ == "ADD"@,
            *self == Refine::REPLACE ==> r@ == "REPLACE"@,
    {
        match self {
            Refine::ADD => "ADD",
            Refine::REPLACE => "REPLACE",
        }
    }
}

/// An array of boolean values.
#[derive(PartialEq, Eq, Clone, Debug)]
pub struct BooleanArray1D(pub Vec<bool>);

/// An array of string values.
#[derive(PartialEq, Eq, Clone, Debug)]
pub struct StringArray1D(pub Vec<String>);

/// The integer type of an enum's values, or another type name.
#[derive(PartialEq, Eq, Clone, Debug)]
pub enum EnumType {
    INT8,
    UINT8,
    INT16,
    UINT16,
    INT32,
    UINT32,
    INT64,
    UINT64,
    String(String),
}

/// How a tile's children refine it, or another refinement name.
#[derive(PartialEq, Eq, Clone, Debug)]
pub enum RefineType {
    ADD,
    REPLACE,
    String(String),
}

/// How often a value occurs: one count, or a count per array element.
#[derive(PartialEq, Eq, Clone, Debug)]
pub enum OccurrencesValue {
    Integer(i64),
    Array(Vec<i64>),
}

} // verus!
