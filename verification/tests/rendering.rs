use vkawaii::rendering::dxbc_parser::{translate_dxbc_to_spirv, DxbcError};
use vkawaii::rendering::shader_transpiler::{
    reflect_shader_bindings, validate_and_reflect, BindingType, GlobalSpace, GlobalTypeKind, ShaderError,
    ShaderGlobal, ShaderModule,
};

#[test]
fn test_translate_empty() {
    let result = translate_dxbc_to_spirv(&[]);
    assert!(result.is_err());
}

#[test]
fn translate_errors_name_their_cause() {
    assert_eq!(translate_dxbc_to_spirv(&[]), Err(DxbcError::EmptyPayload));
    assert_eq!(translate_dxbc_to_spirv(&[0x44, 0x58, 0x42, 0x43]), Err(DxbcError::TranslatorNotLinked));
    assert_eq!(DxbcError::EmptyPayload.message(), "DXBC payload is empty.");
    assert_eq!(
        DxbcError::TranslatorNotLinked.message(),
        "DXBC to SPIR-V translation is not yet linked. Waiting for C++ build integration."
    );
}

#[test]
fn shader_error_messages() {
    let cause = || "why".to_string();
    assert_eq!(ShaderError::Parse { cause: cause() }.message(), "Failed to parse SPIR-V module");
    assert_eq!(
        ShaderError::Validation { cause: cause() }.message(),
        "Failed to validate Naga module built from SPIR-V"
    );
    assert_eq!(ShaderError::WgslWrite { cause: cause() }.message(), "Failed to write WGSL output");
}

/// A minimal SPIR-V 1.0 module: one uniform buffer (a struct of one vec4 of
/// f32) at group 0, binding 1, and a compute entry point that does nothing.
fn uniform_module_words() -> Vec<u32> {
    fn op(code: u32, operands: &[u32]) -> Vec<u32> {
        let mut v = vec![((operands.len() as u32 + 1) << 16) | code];
        v.extend_from_slice(operands);
        v
    }
    let mut w = vec![0x0723_0203, 0x0001_0000, 0, 20, 0];
    w.extend(op(17, &[1])); // OpCapability Shader
    w.extend(op(14, &[0, 1])); // OpMemoryModel Logical GLSL450
    // OpEntryPoint GLCompute %main "main"
    w.extend(op(15, &[5, 1, u32::from_le_bytes(*b"main"), 0]));
    w.extend(op(16, &[1, 17, 1, 1, 1])); // OpExecutionMode LocalSize 1 1 1
    w.extend(op(71, &[4, 2])); // OpDecorate %block Block
    w.extend(op(72, &[4, 0, 35, 0])); // OpMemberDecorate %block 0 Offset 0
    w.extend(op(71, &[6, 34, 0])); // OpDecorate %ubo DescriptorSet 0
    w.extend(op(71, &[6, 33, 1])); // OpDecorate %ubo Binding 1
    w.extend(op(19, &[7])); // %void = OpTypeVoid
    w.extend(op(33, &[8, 7])); // %fn = OpTypeFunction %void
    w.extend(op(22, &[2, 32])); // %float = OpTypeFloat 32
    w.extend(op(23, &[3, 2, 4])); // %vec4 = OpTypeVector %float 4
    w.extend(op(30, &[4, 3])); // %block = OpTypeStruct %vec4
    w.extend(op(32, &[9, 2, 4])); // %ptr = OpTypePointer Uniform %block
    w.extend(op(59, &[9, 6, 2])); // %ubo = OpVariable %ptr Uniform
    w.extend(op(54, &[7, 1, 0, 8])); // %main = OpFunction %void None %fn
    w.extend(op(248, &[10])); // OpLabel
    w.extend(op(253, &[])); // OpReturn
    w.extend(op(56, &[])); // OpFunctionEnd
    w
}

fn parse(words: &[u32]) -> naga::Module {
    let bytes: Vec<u8> = words.iter().flat_map(|w| w.to_le_bytes()).collect();
    let options = naga::front::spv::Options {
        adjust_coordinate_space: false,
        strict_capabilities: false,
        block_ctx_dump_prefix: None,
    };
    naga::front::spv::parse_u8_slice(&bytes, &options).expect("module should parse")
}

#[test]
fn validated_module_reports_uniform_binding() {
    let module = parse(&uniform_module_words());
    let (info, reflection) = validate_and_reflect(&module).expect("module should validate");
    assert_eq!(reflection.bindings.len(), 1);
    assert_eq!(reflection.bindings[0].group, 0);
    assert_eq!(reflection.bindings[0].binding, 1);
    assert_eq!(reflection.bindings[0].binding_type, BindingType::UniformBuffer { size: 16 });
    let mut wgsl = String::new();
    let mut writer = naga::back::wgsl::Writer::new(&mut wgsl, naga::back::wgsl::WriterFlags::empty());
    writer.write(&module, &info).expect("validated module should be written");
    assert!(wgsl.contains("@group(0) @binding(1)"));
}

#[test]
fn invalid_module_is_refused_by_validation() {
    // A uniform buffer of type `bool`, which is not host-shareable.
    let mut module = naga::Module::default();
    let ty = module.types.insert(
        naga::Type { name: None, inner: naga::TypeInner::Scalar(naga::Scalar::BOOL) },
        naga::Span::UNDEFINED,
    );
    module.global_variables.append(
        naga::GlobalVariable {
            name: Some("flag".to_string()),
            space: naga::AddressSpace::Uniform,
            binding: Some(naga::ResourceBinding { group: 0, binding: 0 }),
            ty,
            init: None,
            memory_decorations: naga::MemoryDecorations::empty(),
        },
        naga::Span::UNDEFINED,
    );
    let mut validator = naga::valid::Validator::new(
        naga::valid::ValidationFlags::all(),
        naga::valid::Capabilities::all(),
    );
    let expected = validator.validate(&module).expect_err("bool uniform must be refused").to_string();
    assert!(!expected.is_empty());
    assert_eq!(validate_and_reflect(&module).err(), Some(ShaderError::Validation { cause: expected }));
}

#[test]
fn empty_module_validates_with_no_bindings() {
    let (_, reflection) = validate_and_reflect(&naga::Module::default()).expect("empty module is valid");
    assert!(reflection.bindings.is_empty());
}

fn global(name: &str, binding: Option<(u32, u32)>, space: GlobalSpace, kind: GlobalTypeKind, size: u32) -> ShaderGlobal {
    ShaderGlobal {
        name: Some(name.to_string()),
        binding,
        space,
        type_kind: kind,
        type_size: Some(size),
    }
}

#[test]
fn reflect_lists_bound_globals_in_order() {
    let module = ShaderModule {
        globals: vec![
            global("camera", Some((0, 0)), GlobalSpace::Uniform, GlobalTypeKind::Other, 64),
            global("scratch", None, GlobalSpace::Other, GlobalTypeKind::Other, 4),
            global("albedo", Some((1, 0)), GlobalSpace::Handle, GlobalTypeKind::Image, 0),
            global("albedo_sampler", Some((1, 1)), GlobalSpace::Handle, GlobalTypeKind::Sampler, 0),
            global("odd_handle", Some((2, 0)), GlobalSpace::Handle, GlobalTypeKind::Other, 0),
            global("storage", Some((3, 0)), GlobalSpace::Other, GlobalTypeKind::Other, 128),
        ],
    };
    let r = reflect_shader_bindings(&module);
    let types: Vec<BindingType> = r.bindings.iter().map(|b| b.binding_type).collect();
    assert_eq!(
        types,
        vec![
            BindingType::UniformBuffer { size: 64 },
            BindingType::Texture,
            BindingType::Sampler,
            BindingType::Other,
            BindingType::Other,
        ]
    );
    let points: Vec<(u32, u32)> = r.bindings.iter().map(|b| (b.group, b.binding)).collect();
    assert_eq!(points, vec![(0, 0), (1, 0), (1, 1), (2, 0), (3, 0)]);
    assert_eq!(r.bindings[0].name.as_deref(), Some("camera"));
    assert_eq!(r.bindings[2].name.as_deref(), Some("albedo_sampler"));
}

#[test]
fn reflect_of_no_globals_is_empty() {
    let r = reflect_shader_bindings(&ShaderModule { globals: vec![] });
    assert!(r.bindings.is_empty());
}
