use shader_reflect::module::{Module, RawInstruction, StructMemberInfo, TypeCache, TypeInfo};
use shader_reflect::module::module_name_from_file_name;
use shader_reflect::result::Error;
use shader_reflect::{
    DECORATION_BINDING, DECORATION_DESCRIPTOR_SET, DECORATION_LOCATION, DECORATION_OFFSET,
    MAGIC_NUMBER, OP_DECORATE, OP_ENTRY_POINT, OP_MEMBER_DECORATE, OP_MEMBER_NAME, OP_NAME,
    OP_TYPE_ARRAY, OP_TYPE_FLOAT, OP_TYPE_INT, OP_TYPE_POINTER, OP_TYPE_STRUCT, OP_TYPE_VECTOR,
    OP_VARIABLE, SPIRV_VERSION, STORAGE_CLASS_INPUT, STORAGE_CLASS_UNIFORM,
};

fn bytes_of_words(words: &[u32]) -> Vec<u8> {
    let mut bytes = Vec::new();
    for w in words {
        bytes.extend_from_slice(&w.to_le_bytes());
    }
    bytes
}

fn header() -> Vec<u32> {
    vec![MAGIC_NUMBER, SPIRV_VERSION, 0, 100, 0]
}

fn instruction(opcode: u32, operands: &[u32]) -> Vec<u32> {
    let mut words = vec![((operands.len() as u32 + 1) << 16) | opcode];
    words.extend_from_slice(operands);
    words
}

/// Words packing the ASCII string plus its terminating nul.
fn packed(name: &str) -> Vec<u32> {
    let mut bytes: Vec<u8> = name.as_bytes().to_vec();
    bytes.push(0);
    while bytes.len() % 4 != 0 {
        bytes.push(0);
    }
    bytes
        .chunks_exact(4)
        .map(|c| u32::from_le_bytes([c[0], c[1], c[2], c[3]]))
        .collect()
}

/// The minimal synthetic module: a 32-bit float, a three-component vector
/// of it, and a one-member structure named Vertex with member position at
/// offset 0.
fn vertex_module() -> Module {
    let mut words = header();
    let mut name_ops = vec![3u32];
    name_ops.extend(packed("Vertex"));
    words.extend(instruction(OP_NAME, &name_ops));
    let mut member_ops = vec![3u32, 0];
    member_ops.extend(packed("position"));
    words.extend(instruction(OP_MEMBER_NAME, &member_ops));
    words.extend(instruction(OP_MEMBER_DECORATE, &[3, 0, DECORATION_OFFSET, 0]));
    words.extend(instruction(OP_TYPE_FLOAT, &[1, 32]));
    words.extend(instruction(OP_TYPE_VECTOR, &[2, 1, 3]));
    words.extend(instruction(OP_TYPE_STRUCT, &[3, 2]));
    Module::from_code("Vertex".to_owned(), &bytes_of_words(&words)).expect("decodes")
}

#[test]
fn decode_rejects_short_buffer() {
    let r = Module::from_code("m".to_owned(), &[0u8; 12]);
    assert!(matches!(r, Err(Error::InvalidFileLength(12))));
}

#[test]
fn decode_rejects_ragged_buffer() {
    let r = Module::from_code("m".to_owned(), &[0u8; 21]);
    assert!(matches!(r, Err(Error::InvalidFileLength(21))));
}

#[test]
fn decode_rejects_wrong_magic() {
    let words = vec![0xDEAD_BEEFu32, SPIRV_VERSION, 0, 0, 0];
    let r = Module::from_code("m".to_owned(), &bytes_of_words(&words));
    assert!(matches!(r, Err(Error::IncorrectMagicWord(0xDEAD_BEEF))));
}

#[test]
fn decode_rejects_newer_version() {
    let words = vec![MAGIC_NUMBER, SPIRV_VERSION + 1, 0, 0, 0];
    let r = Module::from_code("m".to_owned(), &bytes_of_words(&words));
    assert!(matches!(r, Err(Error::InvalidVersion(v, s)) if v == SPIRV_VERSION + 1 && s == SPIRV_VERSION));
}

#[test]
fn decode_rejects_zero_word_count() {
    let mut words = header();
    words.push(OP_NAME); // word count of zero
    let r = Module::from_code("m".to_owned(), &bytes_of_words(&words));
    assert!(matches!(r, Err(Error::InvalidOperandEnd(6, 0))));
}

#[test]
fn decode_rejects_truncated_instruction() {
    let mut words = header();
    words.push((5u32 << 16) | OP_NAME); // claims five words, only one left
    words.push(7);
    let r = Module::from_code("m".to_owned(), &bytes_of_words(&words));
    assert!(matches!(r, Err(Error::InvalidOperandEnd(7, 5))));
}

#[test]
fn decode_round_trips_instruction_boundaries() {
    let m = vertex_module();
    let mut words = header();
    for ins in &m.instructions {
        words.push(((ins.operands.len() as u32 + 1) << 16) | ins.opcode);
        words.extend_from_slice(&ins.operands);
    }
    let mut original = header();
    let mut name_ops = vec![3u32];
    name_ops.extend(packed("Vertex"));
    original.extend(instruction(OP_NAME, &name_ops));
    let mut member_ops = vec![3u32, 0];
    member_ops.extend(packed("position"));
    original.extend(instruction(OP_MEMBER_NAME, &member_ops));
    original.extend(instruction(OP_MEMBER_DECORATE, &[3, 0, DECORATION_OFFSET, 0]));
    original.extend(instruction(OP_TYPE_FLOAT, &[1, 32]));
    original.extend(instruction(OP_TYPE_VECTOR, &[2, 1, 3]));
    original.extend(instruction(OP_TYPE_STRUCT, &[3, 2]));
    assert_eq!(words, original);
}

#[test]
fn resolve_vertex_structure() {
    let m = vertex_module();
    let t = m.get_type_from_id(3).expect("resolves");
    let expected = TypeInfo::Struct {
        name: "Vertex".to_owned(),
        members: vec![StructMemberInfo {
            field_type: TypeInfo::Vec {
                name: "vec3".to_owned(),
                component_type: Box::new(TypeInfo::Float { name: "float".to_owned(), width: 32 }),
                component_count: 3,
            },
            field_offset: 0,
            field_name: "position".to_owned(),
        }],
    };
    assert_eq!(t, expected);
    assert_eq!(t.calc_size(), Some(12));
}

#[test]
fn resolve_is_idempotent() {
    let m = vertex_module();
    let first = m.get_type_from_id(3).expect("resolves");
    let second = m.get_type_from_id(3).expect("resolves");
    assert_eq!(first, second);
}

#[test]
fn resolve_unknown_id_fails() {
    let m = vertex_module();
    assert!(matches!(m.get_type_from_id(9), Err(Error::InvalidType)));
}

#[test]
fn resolve_unnamed_int_falls_back() {
    let mut words = header();
    words.extend(instruction(OP_TYPE_INT, &[1, 32, 1]));
    words.extend(instruction(OP_TYPE_INT, &[2, 32, 0]));
    let m = Module::from_code("ints".to_owned(), &bytes_of_words(&words)).unwrap();
    let signed = m.get_type_from_id(1).unwrap();
    assert_eq!(signed, TypeInfo::Int { name: "int".to_owned(), width: 32, signed: true });
    let unsigned = m.get_type_from_id(2).unwrap();
    assert_eq!(unsigned, TypeInfo::Int { name: "uint".to_owned(), width: 32, signed: false });
}

#[test]
fn resolve_unnamed_unusual_width_fails() {
    let mut words = header();
    words.extend(instruction(OP_TYPE_INT, &[1, 16, 1]));
    let m = Module::from_code("ints".to_owned(), &bytes_of_words(&words)).unwrap();
    assert!(matches!(m.get_type_from_id(1), Err(Error::NameMissing(1))));
}

#[test]
fn struct_with_unjoined_member_fails() {
    // The structure declares one member but no member name record exists.
    let mut words = header();
    let mut name_ops = vec![3u32];
    name_ops.extend(packed("Vertex"));
    words.extend(instruction(OP_NAME, &name_ops));
    words.extend(instruction(OP_MEMBER_DECORATE, &[3, 0, DECORATION_OFFSET, 0]));
    words.extend(instruction(OP_TYPE_FLOAT, &[1, 32]));
    words.extend(instruction(OP_TYPE_STRUCT, &[3, 1]));
    let m = Module::from_code("m".to_owned(), &bytes_of_words(&words)).unwrap();
    assert!(matches!(m.get_type_from_id(3), Err(Error::InvalidType)));
}

#[test]
fn struct_without_name_fails() {
    let mut words = header();
    words.extend(instruction(OP_TYPE_STRUCT, &[3]));
    let m = Module::from_code("m".to_owned(), &bytes_of_words(&words)).unwrap();
    assert!(matches!(m.get_type_from_id(3), Err(Error::NameMissing(3))));
}

#[test]
fn struct_size_uses_highest_offset_member() {
    let empty = TypeInfo::Struct { name: "Empty".to_owned(), members: vec![] };
    assert_eq!(empty.calc_size(), Some(0));
    let one = TypeInfo::Struct {
        name: "One".to_owned(),
        members: vec![StructMemberInfo {
            field_type: TypeInfo::Float { name: "float".to_owned(), width: 32 },
            field_offset: 4,
            field_name: "pad".to_owned(),
        }],
    };
    assert_eq!(one.calc_size(), Some(8));
}

#[test]
fn uniform_descriptor_count_multiplies_array_layers() {
    let mut words = header();
    let mut name_ops = vec![1u32];
    name_ops.extend(packed("Block"));
    words.extend(instruction(OP_NAME, &name_ops));
    words.extend(instruction(OP_TYPE_STRUCT, &[1]));
    words.extend(instruction(OP_TYPE_ARRAY, &[2, 1, 4]));
    words.extend(instruction(OP_TYPE_POINTER, &[3, STORAGE_CLASS_UNIFORM, 2]));
    words.extend(instruction(OP_VARIABLE, &[3, 10, STORAGE_CLASS_UNIFORM]));
    words.extend(instruction(OP_DECORATE, &[10, DECORATION_BINDING, 5]));
    words.extend(instruction(OP_DECORATE, &[10, DECORATION_DESCRIPTOR_SET, 2]));
    let m = Module::from_code("m".to_owned(), &bytes_of_words(&words)).unwrap();
    let uniforms = m.get_uniform_info().expect("extracts");
    assert_eq!(uniforms.len(), 1);
    assert_eq!(uniforms[0].descriptor_count, 4);
    assert_eq!(uniforms[0].binding, 5);
    assert_eq!(uniforms[0].set, 2);
    assert_eq!(uniforms[0].storage_class, STORAGE_CLASS_UNIFORM);
}

#[test]
fn uniform_set_defaults_to_zero() {
    let mut words = header();
    let mut name_ops = vec![1u32];
    name_ops.extend(packed("Block"));
    words.extend(instruction(OP_NAME, &name_ops));
    words.extend(instruction(OP_TYPE_STRUCT, &[1]));
    words.extend(instruction(OP_VARIABLE, &[1, 10, STORAGE_CLASS_UNIFORM]));
    words.extend(instruction(OP_DECORATE, &[10, DECORATION_BINDING, 3]));
    let m = Module::from_code("m".to_owned(), &bytes_of_words(&words)).unwrap();
    let uniforms = m.get_uniform_info().expect("extracts");
    assert_eq!(uniforms.len(), 1);
    assert_eq!(uniforms[0].set, 0);
    assert_eq!(uniforms[0].descriptor_count, 1);
}

#[test]
fn uniform_without_binding_fails() {
    let mut words = header();
    let mut name_ops = vec![1u32];
    name_ops.extend(packed("Block"));
    words.extend(instruction(OP_NAME, &name_ops));
    words.extend(instruction(OP_TYPE_STRUCT, &[1]));
    words.extend(instruction(OP_VARIABLE, &[1, 10, STORAGE_CLASS_UNIFORM]));
    let m = Module::from_code("m".to_owned(), &bytes_of_words(&words)).unwrap();
    assert!(matches!(m.get_uniform_info(), Err(Error::DecorationMissing(10))));
}

#[test]
fn input_without_location_fails() {
    let mut words = header();
    let mut name_ops = vec![10u32];
    name_ops.extend(packed("color"));
    words.extend(instruction(OP_NAME, &name_ops));
    words.extend(instruction(OP_TYPE_FLOAT, &[1, 32]));
    words.extend(instruction(OP_VARIABLE, &[1, 10, STORAGE_CLASS_INPUT]));
    let m = Module::from_code("m".to_owned(), &bytes_of_words(&words)).unwrap();
    assert!(matches!(m.get_inputs(), Err(Error::LocationMissing(10))));
}

#[test]
fn input_with_location_is_extracted() {
    let mut words = header();
    let mut name_ops = vec![10u32];
    name_ops.extend(packed("color"));
    words.extend(instruction(OP_NAME, &name_ops));
    words.extend(instruction(OP_TYPE_FLOAT, &[1, 32]));
    words.extend(instruction(OP_VARIABLE, &[1, 10, STORAGE_CLASS_INPUT]));
    words.extend(instruction(OP_DECORATE, &[10, DECORATION_LOCATION, 2]));
    let m = Module::from_code("m".to_owned(), &bytes_of_words(&words)).unwrap();
    let inputs = m.get_inputs().expect("extracts");
    assert_eq!(inputs.len(), 1);
    assert_eq!(inputs[0].location, 2);
    assert_eq!(inputs[0].name, "color");
    assert_eq!(inputs[0].type_info, TypeInfo::Float { name: "float".to_owned(), width: 32 });
}

#[test]
fn entry_points_split_name_and_interface() {
    let mut words = header();
    let mut ops = vec![4u32, 7];
    ops.extend(packed("main"));
    ops.extend_from_slice(&[20, 21]);
    words.extend(instruction(OP_ENTRY_POINT, &ops));
    let m = Module::from_code("m".to_owned(), &bytes_of_words(&words)).unwrap();
    let entries = m.get_entry_points();
    assert_eq!(entries.len(), 1);
    assert_eq!(entries[0].execution_model, 4);
    assert_eq!(entries[0].entry_point_id, 7);
    assert_eq!(entries[0].name, "main");
    assert_eq!(entries[0].interface_ids, vec![20, 21]);
}

#[test]
fn entry_points_empty_without_declarations() {
    let m = vertex_module();
    assert!(m.get_entry_points().is_empty());
}

#[test]
fn variable_and_struct_type_queries() {
    let m = vertex_module();
    let all = m.get_variable_types().expect("resolves");
    assert_eq!(all.len(), 3);
    let structs = m.get_struct_types();
    assert_eq!(structs.len(), 1);
    assert!(matches!(&structs[0], TypeInfo::Struct { name, .. } if name == "Vertex"));
}

#[test]
fn decoded_instructions_match_stream() {
    let mut words = header();
    words.extend(instruction(OP_TYPE_FLOAT, &[1, 32]));
    let m = Module::from_code("m".to_owned(), &bytes_of_words(&words)).unwrap();
    assert_eq!(m.name, "m");
    assert_eq!(
        m.instructions,
        vec![RawInstruction { opcode: OP_TYPE_FLOAT, operands: vec![1, 32] }]
    );
}

#[test]
fn module_name_capitalizes_each_segment() {
    assert_eq!(module_name_from_file_name("shader.vert.spv"), "ShaderVertSpv");
    assert_eq!(module_name_from_file_name("SHADER.vert"), "ShaderVert");
    assert_eq!(module_name_from_file_name("plain"), "Plain");
    assert_eq!(module_name_from_file_name(""), "");
}

#[test]
fn cached_resolution_matches_direct() {
    let m = vertex_module();
    let direct = m.get_type_from_id(3).expect("resolves");
    let mut cache = TypeCache::new();
    assert_eq!(m.get_type_cached(&mut cache, 3).expect("resolves"), &direct);
    // The second query is answered from the cache.
    assert_eq!(m.get_type_cached(&mut cache, 3).expect("resolves"), &direct);
    assert!(m.get_type_cached(&mut cache, 9).is_err());
}
