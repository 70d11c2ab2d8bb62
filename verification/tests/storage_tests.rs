use shader_reflect::module::TypeInfo;
use shader_reflect::result::Error;
use shader_reflect::shader::{get_shader_io_type_size, ScalarType, ShaderIoType, UniformType};
use shader_reflect::storage::{Array2d, Storage};
use shader_reflect::{STORAGE_CLASS_STORAGE_BUFFER, STORAGE_CLASS_UNIFORM};

#[test]
fn storage_round_trip() {
    let mut storage: Storage<String> = Storage::new();
    let id = storage.insert("first".to_owned());
    assert_eq!(storage.get(&id), Some(&"first".to_owned()));
    let other = storage.insert("second".to_owned());
    assert_ne!(id, other);
    assert_eq!(storage.get(&other), Some(&"second".to_owned()));
    assert_eq!(storage.remove(&id), Some("first".to_owned()));
    assert_eq!(storage.get(&id), None);
    assert_eq!(storage.remove(&id), None);
    assert_eq!(storage.get(&other), Some(&"second".to_owned()));
}

#[test]
fn storage_default_is_empty() {
    let storage: Storage<u32> = Storage::default();
    assert_eq!(storage.get(&0), None);
}

#[test]
fn array2d_shape_and_cells() {
    let grid: Array2d<u8> = Array2d::new(2, 3, 7);
    assert_eq!(grid.len(), (3, 2));
    assert_eq!(grid.get(0, 0), Some(&7));
    assert_eq!(grid.get(2, 1), Some(&7));
    assert_eq!(grid.get(3, 0), None);
    assert_eq!(grid.get(0, 2), None);
}

#[test]
fn io_type_sizes() {
    let scalar = ShaderIoType::Scalar { component_type: ScalarType::Float, component_width: 32 };
    assert_eq!(get_shader_io_type_size(&scalar), 4);
    let vector = ShaderIoType::Vector {
        component_type: ScalarType::Float,
        component_width: 32,
        component_count: 3,
    };
    assert_eq!(get_shader_io_type_size(&vector), 12);
    let matrix = ShaderIoType::Matrix {
        component_type: ScalarType::Float,
        component_width: 32,
        cols: 4,
        rows: 4,
    };
    assert_eq!(get_shader_io_type_size(&matrix), 64);
}

#[test]
fn io_shape_classification() {
    let vec3f = TypeInfo::Vec {
        name: "vec3".to_owned(),
        component_type: Box::new(TypeInfo::Float { name: "float".to_owned(), width: 32 }),
        component_count: 3,
    };
    assert_eq!(
        ShaderIoType::from_type_info(&vec3f),
        Ok(ShaderIoType::Vector {
            component_type: ScalarType::Float,
            component_width: 32,
            component_count: 3,
        })
    );
    let mat3f = TypeInfo::Mat {
        name: "mat3".to_owned(),
        col_type: Box::new(vec3f),
        col_count: 3,
    };
    assert_eq!(
        ShaderIoType::from_type_info(&mat3f),
        Ok(ShaderIoType::Matrix {
            component_type: ScalarType::Float,
            component_width: 32,
            cols: 3,
            rows: 3,
        })
    );
    let ivec = TypeInfo::Int { name: "uint".to_owned(), width: 32, signed: false };
    assert_eq!(
        ShaderIoType::from_type_info(&ivec),
        Ok(ShaderIoType::Scalar { component_type: ScalarType::Unsigned, component_width: 32 })
    );
    let nested = TypeInfo::Vec {
        name: "odd".to_owned(),
        component_type: Box::new(TypeInfo::Void),
        component_count: 2,
    };
    assert_eq!(
        ShaderIoType::from_type_info(&nested),
        Err(Error::InvalidType)
    );
}

#[test]
fn uniform_kind_classification() {
    let block = TypeInfo::Struct { name: "Block".to_owned(), members: vec![] };
    assert_eq!(
        UniformType::of_variable(STORAGE_CLASS_UNIFORM, &block),
        UniformType::UniformBuffer
    );
    assert_eq!(
        UniformType::of_variable(STORAGE_CLASS_STORAGE_BUFFER, &block),
        UniformType::StorageBuffer
    );
    assert_eq!(
        UniformType::of_variable(STORAGE_CLASS_UNIFORM, &TypeInfo::Sampler),
        UniformType::Sampler
    );
    let image = TypeInfo::Image {
        sampled_type: Box::new(TypeInfo::Float { name: "float".to_owned(), width: 32 }),
        format: 0,
        depth: 0,
        dim: 1,
        arrayed: false,
        multisampled: false,
        sampled: 2,
    };
    assert_eq!(
        UniformType::of_variable(STORAGE_CLASS_UNIFORM, &image),
        UniformType::SampledImage
    );
}

#[test]
fn storage_get_mut_changes_value() {
    let mut storage: Storage<u32> = Storage::new();
    let id = storage.insert(5);
    if let Some(v) = storage.get_mut(&id) {
        *v = 9;
    } else {
        panic!("value should be present");
    }
    assert_eq!(storage.get(&id), Some(&9));
    let missing = id.wrapping_add(1);
    assert!(storage.get_mut(&missing).is_none());
}
