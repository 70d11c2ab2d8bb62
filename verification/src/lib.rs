//! Static reflection over compiled shader binaries, with the small generic
//! linear-algebra library and the id-keyed storage that live alongside it.
//!
//! The reflector ingests one compiled shader module as a byte buffer, splits
//! it into 32-bit little-endian words, decodes the word stream into a flat
//! list of instructions, and reconstructs from those instructions the
//! module's interface: its input attributes, its resource bindings, its entry
//! points, and a fully resolved tree for every type the module declares.

pub mod mat3;
pub mod mat4;
pub mod module;
pub mod result;
pub mod shader;
pub mod storage;
pub mod vec2;
pub mod vec3;
pub mod vec4;

use vstd::prelude::*;

verus! {

/// The magic constant that opens every well-formed shader binary.
pub const MAGIC_NUMBER: u32 = 0x0723_0203;

/// The newest format version this reflector accepts.
pub const SPIRV_VERSION: u32 = 0x0001_0600;

/// Attaches a printable name to a target id.
pub const OP_NAME: u32 = 5;

/// Attaches a printable name to one member of a structure type.
pub const OP_MEMBER_NAME: u32 = 6;

/// Declares an entry point: execution model, function id, name, interface.
pub const OP_ENTRY_POINT: u32 = 15;

/// Declares the void type.
pub const OP_TYPE_VOID: u32 = 19;

/// Declares the boolean type.
pub const OP_TYPE_BOOL: u32 = 20;

/// Declares an integer type: width in bits and signedness.
pub const OP_TYPE_INT: u32 = 21;

/// Declares a floating-point type: width in bits.
pub const OP_TYPE_FLOAT: u32 = 22;

/// Declares a vector type: component type id and component count.
pub const OP_TYPE_VECTOR: u32 = 23;

/// Declares a matrix type: column type id and column count.
pub const OP_TYPE_MATRIX: u32 = 24;

/// Declares an image type.
pub const OP_TYPE_IMAGE: u32 = 25;

/// Declares the sampler type.
pub const OP_TYPE_SAMPLER: u32 = 26;

/// Declares a combined image-sampler type: image type id.
pub const OP_TYPE_SAMPLED_IMAGE: u32 = 27;

/// Declares a sized array type: element type id and element count.
pub const OP_TYPE_ARRAY: u32 = 28;

/// Declares a runtime-sized array type: element type id.
pub const OP_TYPE_RUNTIME_ARRAY: u32 = 29;

/// Declares a structure type: one member type id per member.
pub const OP_TYPE_STRUCT: u32 = 30;

/// Declares a pointer type: storage class and pointee type id.
pub const OP_TYPE_POINTER: u32 = 32;

/// Declares a variable: result type id, result id, storage class.
pub const OP_VARIABLE: u32 = 59;

/// Attaches a decoration to a target id.
pub const OP_DECORATE: u32 = 71;

/// Attaches a decoration to one member of a structure type.
pub const OP_MEMBER_DECORATE: u32 = 72;

/// Decoration: the location of an input or output variable.
pub const DECORATION_LOCATION: u32 = 30;

/// Decoration: the binding slot of a resource variable.
pub const DECORATION_BINDING: u32 = 33;

/// Decoration: the descriptor set of a resource variable.
pub const DECORATION_DESCRIPTOR_SET: u32 = 34;

/// Decoration: the byte offset of a structure member.
pub const DECORATION_OFFSET: u32 = 35;

/// Storage class of constant resource variables such as samplers and images.
pub const STORAGE_CLASS_UNIFORM_CONSTANT: u32 = 0;

/// Storage class of shader input variables.
pub const STORAGE_CLASS_INPUT: u32 = 1;

/// Storage class of uniform buffer variables.
pub const STORAGE_CLASS_UNIFORM: u32 = 2;

/// Storage class of storage image variables.
pub const STORAGE_CLASS_IMAGE: u32 = 11;

/// Storage class of storage buffer variables.
pub const STORAGE_CLASS_STORAGE_BUFFER: u32 = 12;

} // verus!
