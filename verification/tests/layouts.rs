use gpu_resources::error::ResourceError;
use gpu_resources::render::descriptor::{
    ends_with_dyn, layout_binding, DescriptorInfo, DescriptorType, Dimensionality, LayoutBinding,
    REFLECTED_ACCELERATION_STRUCTURE, REFLECTED_COMBINED_IMAGE_SAMPLER, REFLECTED_INPUT_ATTACHMENT,
    REFLECTED_SAMPLED_IMAGE, REFLECTED_SAMPLER, REFLECTED_STORAGE_BUFFER,
    REFLECTED_STORAGE_BUFFER_DYNAMIC, REFLECTED_STORAGE_IMAGE, REFLECTED_STORAGE_TEXEL_BUFFER,
    REFLECTED_UNIFORM_BUFFER, REFLECTED_UNIFORM_BUFFER_DYNAMIC, REFLECTED_UNIFORM_TEXEL_BUFFER,
    STAGE_ALL,
};
use gpu_resources::render::sampler::{
    parse_filter, parse_mipmap, parse_sampler_name, AddressMode, Filter, MipmapMode, SamplerDesc,
};
use gpu_resources::render::pool::{pool_sizes, DescriptorPoolSize};
use gpu_resources::render::shaders::{binding_types, ReflectedBinding, Shader, ShaderKind};

fn info(ty: u32, name: &str) -> DescriptorInfo {
    DescriptorInfo { ty, name: name.to_string(), dimensionality: Dimensionality::Single }
}

fn bound(set: u32, binding: u32, ty: u32, name: &str) -> ReflectedBinding {
    ReflectedBinding { set, binding, info: info(ty, name) }
}

fn shader(bindings: Vec<ReflectedBinding>) -> Shader {
    Shader::new(&[3, 2, 35, 7], ShaderKind::Fragment, "main", Some(bindings)).unwrap()
}

fn plain(binding: u32, descriptor_type: DescriptorType) -> LayoutBinding {
    LayoutBinding {
        binding,
        descriptor_type,
        descriptor_count: 1,
        stage_flags: 0x7FFF_FFFF,
        partially_bound: true,
        immutable_sampler: None,
    }
}

#[test]
fn sampler_nlc_parses() {
    assert_eq!(
        parse_sampler_name("sampler_nlc"),
        Ok(SamplerDesc {
            texel_filter: Filter::Nearest,
            mipmap_mode: MipmapMode::Linear,
            address_modes: AddressMode::ClampToEdge,
        })
    );
}

#[test]
fn sampler_with_invalid_address_code_is_malformed() {
    assert_eq!(parse_sampler_name("sampler_lrX"), Err(ResourceError::MalformedSamplerSpec));
}

#[test]
fn sampler_every_address_code() {
    let modes = [
        ("sampler_llr", AddressMode::Repeat),
        ("sampler_llmr", AddressMode::MirroredRepeat),
        ("sampler_llc", AddressMode::ClampToEdge),
        ("sampler_llcb", AddressMode::ClampToBorder),
    ];
    for (name, mode) in modes {
        assert_eq!(
            parse_sampler_name(name),
            Ok(SamplerDesc {
                texel_filter: Filter::Linear,
                mipmap_mode: MipmapMode::Linear,
                address_modes: mode,
            })
        );
    }
}

#[test]
fn sampler_filter_and_mipmap_letters() {
    assert_eq!(parse_filter('n'), Some(Filter::Nearest));
    assert_eq!(parse_filter('l'), Some(Filter::Linear));
    assert_eq!(parse_filter('x'), None);
    assert_eq!(parse_mipmap('n'), Some(MipmapMode::Nearest));
    assert_eq!(parse_mipmap('l'), Some(MipmapMode::Linear));
    assert_eq!(parse_mipmap('N'), None);
    assert_eq!(
        parse_sampler_name("sampler_lnr"),
        Ok(SamplerDesc {
            texel_filter: Filter::Linear,
            mipmap_mode: MipmapMode::Nearest,
            address_modes: AddressMode::Repeat,
        })
    );
}

#[test]
fn sampler_malformed_names() {
    let names = [
        "",
        "sampler",
        "sampler_",
        "sampler_n",
        "sampler_nl",
        "sampler_xlc",
        "sampler_nxc",
        "sampler_nlrr",
        "sampler_nlcbx",
        "Sampler_nlc",
        "my_sampler_nlc",
        "sampler_nl\u{e9}",
        "s\u{e4}mpler_nlc",
    ];
    for name in names {
        assert_eq!(parse_sampler_name(name), Err(ResourceError::MalformedSamplerSpec), "{name}");
    }
}

#[test]
fn dyn_suffix_is_recognised() {
    assert!(ends_with_dyn("foo_dyn"));
    assert!(ends_with_dyn("_dyn"));
    assert!(!ends_with_dyn("foo"));
    assert!(!ends_with_dyn("dyn"));
    assert!(!ends_with_dyn("foo_dyn_"));
    assert!(!ends_with_dyn("foo_Dyn"));
    assert!(!ends_with_dyn(""));
}

#[test]
fn storage_buffer_named_dyn_is_dynamic() {
    let dynamic = layout_binding(3, &info(REFLECTED_STORAGE_BUFFER, "foo_dyn")).unwrap();
    assert_eq!(dynamic, plain(3, DescriptorType::StorageBufferDynamic));
    let fixed = layout_binding(3, &info(REFLECTED_STORAGE_BUFFER, "foo")).unwrap();
    assert_eq!(fixed, plain(3, DescriptorType::StorageBuffer));
}

#[test]
fn dyn_suffix_only_changes_storage_buffers() {
    let uniform = layout_binding(0, &info(REFLECTED_UNIFORM_BUFFER, "camera_dyn")).unwrap();
    assert_eq!(uniform.descriptor_type, DescriptorType::UniformBuffer);
    let image = layout_binding(0, &info(REFLECTED_STORAGE_IMAGE, "target_dyn")).unwrap();
    assert_eq!(image.descriptor_type, DescriptorType::StorageImage);
}

#[test]
fn kinds_pass_through() {
    let cases = [
        (REFLECTED_UNIFORM_BUFFER, DescriptorType::UniformBuffer),
        (REFLECTED_UNIFORM_TEXEL_BUFFER, DescriptorType::UniformTexelBuffer),
        (REFLECTED_STORAGE_IMAGE, DescriptorType::StorageImage),
        (REFLECTED_STORAGE_BUFFER, DescriptorType::StorageBuffer),
        (REFLECTED_STORAGE_BUFFER_DYNAMIC, DescriptorType::StorageBufferDynamic),
        (REFLECTED_SAMPLED_IMAGE, DescriptorType::SampledImage),
        (REFLECTED_ACCELERATION_STRUCTURE, DescriptorType::AccelerationStructure),
    ];
    for (kind, expected) in cases {
        assert_eq!(layout_binding(5, &info(kind, "thing")), Ok(plain(5, expected)));
    }
}

#[test]
fn unsupported_kinds_are_refused() {
    let kinds = [
        REFLECTED_COMBINED_IMAGE_SAMPLER,
        REFLECTED_STORAGE_TEXEL_BUFFER,
        REFLECTED_UNIFORM_BUFFER_DYNAMIC,
        REFLECTED_INPUT_ATTACHMENT,
        1_000_138_000,
        1_000_165_000,
        11,
        u32::MAX,
    ];
    for kind in kinds {
        assert_eq!(
            layout_binding(0, &info(kind, "thing")),
            Err(ResourceError::UnsupportedDescriptorType)
        );
    }
}

#[test]
fn sampler_binding_carries_its_sampler() {
    let binding = layout_binding(2, &info(REFLECTED_SAMPLER, "sampler_nlc")).unwrap();
    assert_eq!(binding.binding, 2);
    assert_eq!(binding.descriptor_type, DescriptorType::Sampler);
    assert_eq!(binding.descriptor_count, 1);
    assert_eq!(binding.stage_flags, STAGE_ALL);
    assert!(binding.partially_bound);
    assert_eq!(
        binding.immutable_sampler,
        Some(SamplerDesc {
            texel_filter: Filter::Nearest,
            mipmap_mode: MipmapMode::Linear,
            address_modes: AddressMode::ClampToEdge,
        })
    );
    assert_eq!(
        layout_binding(2, &info(REFLECTED_SAMPLER, "linear_sampler")),
        Err(ResourceError::MalformedSamplerSpec)
    );
}

#[test]
fn descriptor_type_codes() {
    assert_eq!(DescriptorType::Sampler.raw(), 0);
    assert_eq!(DescriptorType::SampledImage.raw(), 2);
    assert_eq!(DescriptorType::StorageImage.raw(), 3);
    assert_eq!(DescriptorType::UniformTexelBuffer.raw(), 4);
    assert_eq!(DescriptorType::UniformBuffer.raw(), 6);
    assert_eq!(DescriptorType::StorageBuffer.raw(), 7);
    assert_eq!(DescriptorType::StorageBufferDynamic.raw(), 9);
    assert_eq!(DescriptorType::AccelerationStructure.raw(), 1_000_150_000);
}

#[test]
fn shader_without_bindings_has_no_layouts() {
    let s = shader(vec![]);
    assert_eq!(s.set_count(), 0);
    let (layouts, types) = s.create_descriptor_set_layouts().unwrap();
    assert!(layouts.is_empty());
    assert!(types.is_empty());
}

#[test]
fn unused_sets_get_empty_layouts() {
    let s = shader(vec![
        bound(0, 0, REFLECTED_UNIFORM_BUFFER, "camera"),
        bound(0, 1, REFLECTED_SAMPLER, "sampler_llr"),
        bound(3, 0, REFLECTED_STORAGE_BUFFER, "particles_dyn"),
        bound(3, 4, REFLECTED_SAMPLED_IMAGE, "albedo"),
    ]);
    assert_eq!(s.set_count(), 4);
    let (layouts, types) = s.create_descriptor_set_layouts().unwrap();
    assert_eq!(layouts.len(), 4);
    assert_eq!(types.len(), 4);
    let sampler = LayoutBinding {
        immutable_sampler: Some(SamplerDesc {
            texel_filter: Filter::Linear,
            mipmap_mode: MipmapMode::Linear,
            address_modes: AddressMode::Repeat,
        }),
        ..plain(1, DescriptorType::Sampler)
    };
    assert_eq!(layouts[0], vec![plain(0, DescriptorType::UniformBuffer), sampler]);
    assert!(layouts[1].is_empty());
    assert!(layouts[2].is_empty());
    assert_eq!(
        layouts[3],
        vec![plain(0, DescriptorType::StorageBufferDynamic), plain(4, DescriptorType::SampledImage)]
    );
    assert_eq!(types[0], vec![(0, DescriptorType::UniformBuffer), (1, DescriptorType::Sampler)]);
    assert!(types[1].is_empty());
    assert!(types[2].is_empty());
    assert_eq!(
        types[3],
        vec![(0, DescriptorType::StorageBufferDynamic), (4, DescriptorType::SampledImage)]
    );
}

#[test]
fn set_count_is_one_more_than_highest_set() {
    assert_eq!(shader(vec![bound(0, 0, REFLECTED_UNIFORM_BUFFER, "a")]).set_count(), 1);
    assert_eq!(shader(vec![bound(7, 0, REFLECTED_UNIFORM_BUFFER, "a")]).set_count(), 8);
    assert_eq!(
        shader(vec![
            bound(5, 0, REFLECTED_UNIFORM_BUFFER, "a"),
            bound(2, 0, REFLECTED_UNIFORM_BUFFER, "b"),
        ])
        .set_count(),
        6
    );
    assert_eq!(
        shader(vec![bound(u32::MAX, 0, REFLECTED_UNIFORM_BUFFER, "a")]).set_count(),
        0x1_0000_0000
    );
}

#[test]
fn single_set_layout() {
    let s = shader(vec![
        bound(1, 2, REFLECTED_STORAGE_IMAGE, "target"),
        bound(0, 0, REFLECTED_UNIFORM_BUFFER, "camera"),
        bound(1, 5, REFLECTED_ACCELERATION_STRUCTURE, "scene"),
    ]);
    assert_eq!(
        s.set_layout(1),
        Ok(vec![
            plain(2, DescriptorType::StorageImage),
            plain(5, DescriptorType::AccelerationStructure)
        ])
    );
    assert_eq!(s.set_layout(0), Ok(vec![plain(0, DescriptorType::UniformBuffer)]));
    assert_eq!(s.set_layout(9), Ok(vec![]));
}

#[test]
fn layouts_fail_on_unsupported_binding() {
    let s = shader(vec![
        bound(0, 0, REFLECTED_UNIFORM_BUFFER, "camera"),
        bound(1, 0, REFLECTED_INPUT_ATTACHMENT, "input"),
    ]);
    assert_eq!(
        s.create_descriptor_set_layouts(),
        Err(ResourceError::UnsupportedDescriptorType)
    );
    assert_eq!(s.set_layout(0), Ok(vec![plain(0, DescriptorType::UniformBuffer)]));
    assert_eq!(s.set_layout(1), Err(ResourceError::UnsupportedDescriptorType));
}

#[test]
fn layouts_fail_with_the_first_failing_set() {
    let s = shader(vec![
        bound(2, 0, REFLECTED_INPUT_ATTACHMENT, "input"),
        bound(1, 0, REFLECTED_SAMPLER, "sampler_lrX"),
        bound(1, 1, REFLECTED_INPUT_ATTACHMENT, "other"),
    ]);
    assert_eq!(s.create_descriptor_set_layouts(), Err(ResourceError::MalformedSamplerSpec));
}

#[test]
fn type_entries_follow_the_layout() {
    let layout =
        vec![plain(4, DescriptorType::SampledImage), plain(1, DescriptorType::UniformBuffer)];
    assert_eq!(
        binding_types(&layout),
        vec![(4, DescriptorType::SampledImage), (1, DescriptorType::UniformBuffer)]
    );
    assert!(binding_types(&vec![]).is_empty());
}

#[test]
fn pool_sizes_for_two_uniform_buffers_and_a_sampler() {
    let types = vec![
        vec![(0, DescriptorType::UniformBuffer), (1, DescriptorType::Sampler)],
        vec![],
        vec![(0, DescriptorType::UniformBuffer)],
    ];
    let mut sizes = pool_sizes(&types);
    sizes.sort_by_key(|size| size.ty.raw());
    assert_eq!(
        sizes,
        vec![
            DescriptorPoolSize { ty: DescriptorType::Sampler, descriptor_count: 1 },
            DescriptorPoolSize { ty: DescriptorType::UniformBuffer, descriptor_count: 2 },
        ]
    );
}

#[test]
fn pool_sizes_of_nothing_are_empty() {
    assert!(pool_sizes(&vec![]).is_empty());
    assert!(pool_sizes(&vec![vec![], vec![]]).is_empty());
}

#[test]
fn descriptor_set_request_asks_for_one_set_per_layout() {
    let s = shader(vec![
        bound(0, 0, REFLECTED_UNIFORM_BUFFER, "camera"),
        bound(0, 1, REFLECTED_UNIFORM_BUFFER, "lights"),
        bound(2, 0, REFLECTED_SAMPLER, "sampler_nnc"),
    ]);
    let (layouts, types) = s.create_descriptor_set_layouts().unwrap();
    assert_eq!(layouts.len(), 3);
    let request = s.create_descriptor_sets(&vec![501, 502, 503], &types);
    assert_eq!(request.max_sets, 1);
    assert_eq!(request.set_count, 3);
    assert_eq!(
        request.pool_sizes,
        vec![
            DescriptorPoolSize { ty: DescriptorType::UniformBuffer, descriptor_count: 2 },
            DescriptorPoolSize { ty: DescriptorType::Sampler, descriptor_count: 1 },
        ]
    );
}

#[test]
fn shader_keeps_what_it_was_built_from() {
    let code = [3u8, 2, 35, 7, 0, 0, 1, 0];
    let s = Shader::new(
        &code,
        ShaderKind::Compute,
        "cs_main",
        Some(vec![bound(0, 0, REFLECTED_STORAGE_BUFFER, "data")]),
    )
    .unwrap();
    assert_eq!(s.kind, ShaderKind::Compute);
    assert_eq!(s.spirv, code.to_vec());
    assert_eq!(s.entry_point, "cs_main");
    assert_eq!(s.spirv_descripor_set_layouts.len(), 1);
    let stage = s.ext_shader_create_info();
    assert_eq!(stage.stage, 0x20);
    assert_eq!(stage.name, "cs_main");
    assert_eq!(stage.code, code.to_vec());
}

#[test]
fn shader_without_reflection_is_malformed() {
    let r = Shader::new(&[1, 2, 3], ShaderKind::Vertex, "main", None);
    assert!(matches!(r, Err(ResourceError::MalformedBytecode)));
}

#[test]
fn stage_flags_of_each_kind() {
    assert_eq!(ShaderKind::Vertex.to_vk_shader_stage_flag(), 0x1);
    assert_eq!(ShaderKind::Fragment.to_vk_shader_stage_flag(), 0x10);
    assert_eq!(ShaderKind::Compute.to_vk_shader_stage_flag(), 0x20);
}

#[test]
fn reflection_order_is_recognised() {
    assert!(shader(vec![]).is_ordered());
    assert!(shader(vec![bound(4, 4, REFLECTED_UNIFORM_BUFFER, "a")]).is_ordered());
    assert!(shader(vec![
        bound(0, 0, REFLECTED_UNIFORM_BUFFER, "a"),
        bound(0, 3, REFLECTED_UNIFORM_BUFFER, "b"),
        bound(2, 1, REFLECTED_UNIFORM_BUFFER, "c"),
    ])
    .is_ordered());
    assert!(!shader(vec![
        bound(0, 3, REFLECTED_UNIFORM_BUFFER, "a"),
        bound(0, 3, REFLECTED_UNIFORM_BUFFER, "b"),
    ])
    .is_ordered());
    assert!(!shader(vec![
        bound(1, 0, REFLECTED_UNIFORM_BUFFER, "a"),
        bound(0, 1, REFLECTED_UNIFORM_BUFFER, "b"),
    ])
    .is_ordered());
    assert!(!shader(vec![
        bound(0, 0, REFLECTED_UNIFORM_BUFFER, "a"),
        bound(0, 2, REFLECTED_UNIFORM_BUFFER, "b"),
        bound(0, 1, REFLECTED_UNIFORM_BUFFER, "c"),
    ])
    .is_ordered());
}
