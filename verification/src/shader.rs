use vstd::prelude::*;

use crate::module::TypeInfo;
use crate::result::Error;

verus! {

/// The scalar kind at the bottom of an interface type.
#[derive(Debug, Clone, PartialEq, Eq, Structural)]
pub enum ScalarType {
    Int,
    Unsigned,
    Float,
}

/// The shape of one shader interface slot: a scalar, a vector of scalars,
/// or a matrix of them, each with a component width in bits.
#[derive(Debug, Clone, PartialEq, Eq, Structural)]
pub enum ShaderIoType {
    Scalar { component_type: ScalarType, component_width: u32 },
    Vector { component_type: ScalarType, component_width: u32, component_count: u32 },
    Matrix { component_type: ScalarType, component_width: u32, cols: u32, rows: u32 },
}

/// The resource kind a binding maps to on the graphics side.
#[derive(Debug, PartialEq, Eq, Structural)]
pub enum UniformType {
    Sampler,
    SampledImage,
    StorageImage,
    UniformBuffer,
    StorageBuffer,
    Other,
}

/// A resource binding in summary form: its slot, its set, its kind, and
/// its name where the module has one.
#[derive(Debug)]
pub struct UniformInfo {
    pub binding: u32,
    pub set: u32,
    pub uniform_type: UniformType,
    pub name: Option<String>,
}

/// A shader interface slot in summary form: the variable's id, its binding
/// and location, its shape, the byte stride that shape takes in a vertex
/// stream, and its name where the module has one.
#[derive(Debug, Clone)]
pub struct ShaderIoInfo {
    pub id: u32,
    pub binding: u32,
    pub location: u32,
    pub io_type: ShaderIoType,
    pub stride: u32,
    pub name: Option<String>,
}

/// The byte size of one interface slot of shape `io_type`: the component
/// width in bytes, multiplied out over a vector's components or a matrix's
/// grid.
pub open spec fn shader_io_type_size(io_type: ShaderIoType) -> int {
    match io_type {
        ShaderIoType::Scalar { component_width, .. } => (component_width / 8) as int,
        ShaderIoType::Vector { component_width, component_count, .. } => (component_width as int
            * component_count as int) / 8,
        ShaderIoType::Matrix { component_width, cols, rows, .. } => (component_width as int
            * cols as int * rows as int) / 8,
    }
}

/// The byte size of one interface slot of shape `io_type`.
pub fn get_shader_io_type_size(io_type: &ShaderIoType) -> (r: u32)
    requires
        io_type matches ShaderIoType::Vector { component_width, component_count, .. }
            ==> component_width as int * component_count as int <= u32::MAX,
        io_type matches ShaderIoType::Matrix { component_width, cols, rows, .. } ==> {
            &&& component_width as int * cols as int <= u32::MAX
            &&& component_width as int * cols as int * rows as int <= u32::MAX
        },
    ensures
        r == shader_io_type_size(*io_type),
{
    match io_type {
        ShaderIoType::Scalar { component_width, .. } => *component_width / 8,
        ShaderIoType::Vector { component_width, component_count, .. } => *component_width
            * *component_count / 8,
        ShaderIoType::Matrix { component_width, cols, rows, .. } => *component_width * *cols
            * *rows / 8,
    }
}


/// The interface shape of a resolved type: integers and floats are
/// scalars, a vector of scalars is a vector, a matrix whose columns are
/// vectors of scalars is a matrix, and nothing else has an interface
/// shape.
pub open spec fn io_shape_of(t: crate::module::TypeModel) -> Result<ShaderIoType, Error>
    decreases t,
{
    match t {
        crate::module::TypeModel::Int { width, signed, .. } => Ok(ShaderIoType::Scalar {
            component_type: if signed {
                ScalarType::Int
            } else {
                ScalarType::Unsigned
            },
            component_width: width,
        }),
        crate::module::TypeModel::Float { width, .. } => Ok(ShaderIoType::Scalar {
            component_type: ScalarType::Float,
            component_width: width,
        }),
        crate::module::TypeModel::Vec { component_type, component_count, .. } => {
            match io_shape_of(*component_type) {
                Ok(ShaderIoType::Scalar { component_type, component_width }) => Ok(
                    ShaderIoType::Vector { component_type, component_width, component_count },
                ),
                _ => Err(Error::InvalidType),
            }
        },
        crate::module::TypeModel::Mat { col_type, col_count, .. } => {
            match io_shape_of(*col_type) {
                Ok(
                    ShaderIoType::Vector { component_type, component_width, component_count },
                ) => Ok(
                    ShaderIoType::Matrix {
                        component_type,
                        component_width,
                        cols: col_count,
                        rows: component_count,
                    },
                ),
                _ => Err(Error::InvalidType),
            }
        },
        _ => Err(Error::InvalidType),
    }
}

impl ShaderIoType {
    /// The interface shape of a resolved type, or why it has none.
    pub fn from_type_info(ty: &TypeInfo) -> (r: Result<ShaderIoType, Error>)
        ensures
            r == io_shape_of(ty.model()),
        decreases *ty,
    {
        match ty {
            TypeInfo::Int { width, signed, .. } => Ok(ShaderIoType::Scalar {
                component_type: if *signed {
                    ScalarType::Int
                } else {
                    ScalarType::Unsigned
                },
                component_width: *width,
            }),
            TypeInfo::Float { width, .. } => Ok(ShaderIoType::Scalar {
                component_type: ScalarType::Float,
                component_width: *width,
            }),
            TypeInfo::Vec { component_type, component_count, .. } => {
                match Self::from_type_info(component_type) {
                    Ok(ShaderIoType::Scalar { component_type, component_width }) => Ok(
                        ShaderIoType::Vector {
                            component_type,
                            component_width,
                            component_count: *component_count,
                        },
                    ),
                    _ => Err(Error::InvalidType),
                }
            },
            TypeInfo::Mat { col_type, col_count, .. } => {
                match Self::from_type_info(col_type) {
                    Ok(
                        ShaderIoType::Vector { component_type, component_width, component_count },
                    ) => Ok(
                        ShaderIoType::Matrix {
                            component_type,
                            component_width,
                            cols: *col_count,
                            rows: component_count,
                        },
                    ),
                    _ => Err(Error::InvalidType),
                }
            },
            _ => Err(Error::InvalidType),
        }
    }
}

/// The resource kind of a variable: the storage-buffer class is a storage
/// buffer outright; otherwise the variable's type decides - a structure is
/// a uniform buffer, an image is sampled or storage depending on its
/// sampled flag, samplers and combined image-samplers keep their kind, and
/// anything else is out of the mapping.
pub open spec fn uniform_kind_of(storage_class: u32, t: crate::module::TypeModel) -> UniformType {
    if storage_class == crate::STORAGE_CLASS_STORAGE_BUFFER {
        UniformType::StorageBuffer
    } else {
        match t {
            crate::module::TypeModel::Pointer { .. } => UniformType::Other,
            crate::module::TypeModel::Struct { .. } => UniformType::UniformBuffer,
            crate::module::TypeModel::Image { sampled, .. } => if sampled == 2 {
                UniformType::SampledImage
            } else {
                UniformType::StorageBuffer
            },
            crate::module::TypeModel::Sampler => UniformType::Sampler,
            crate::module::TypeModel::SampledImage { .. } => UniformType::SampledImage,
            _ => UniformType::Other,
        }
    }
}

impl UniformType {
    /// The resource kind of a variable with the given storage class and
    /// resolved type.
    pub fn of_variable(storage_class: u32, ty: &TypeInfo) -> (r: UniformType)
        ensures
            r == uniform_kind_of(storage_class, ty.model()),
    {
        if storage_class == crate::STORAGE_CLASS_STORAGE_BUFFER {
            return UniformType::StorageBuffer;
        }
        match ty {
            TypeInfo::Pointer { .. } => UniformType::Other,
            TypeInfo::Struct { .. } => UniformType::UniformBuffer,
            TypeInfo::Image { sampled, .. } => if *sampled == 2 {
                UniformType::SampledImage
            } else {
                UniformType::StorageBuffer
            },
            TypeInfo::Sampler => UniformType::Sampler,
            TypeInfo::SampledImage { .. } => UniformType::SampledImage,
            _ => UniformType::Other,
        }
    }
}

} // verus!
