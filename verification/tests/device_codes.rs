use ash::vk;
use gpu_resources::buffer::{Buffer, USAGE_SHADER_DEVICE_ADDRESS};
use gpu_resources::render::descriptor::{
    DescriptorType, REFLECTED_ACCELERATION_STRUCTURE, REFLECTED_COMBINED_IMAGE_SAMPLER,
    REFLECTED_INPUT_ATTACHMENT, REFLECTED_SAMPLED_IMAGE, REFLECTED_SAMPLER,
    REFLECTED_STORAGE_BUFFER, REFLECTED_STORAGE_BUFFER_DYNAMIC, REFLECTED_STORAGE_IMAGE,
    REFLECTED_STORAGE_TEXEL_BUFFER, REFLECTED_UNIFORM_BUFFER, REFLECTED_UNIFORM_BUFFER_DYNAMIC,
    REFLECTED_UNIFORM_TEXEL_BUFFER, STAGE_ALL,
};
use gpu_resources::render::shaders::{ShaderKind, STAGE_COMPUTE, STAGE_FRAGMENT, STAGE_VERTEX};

#[test]
fn reflected_kind_codes_match_the_reflection_library() {
    assert_eq!(REFLECTED_SAMPLER, rspirv_reflect::DescriptorType::SAMPLER.0);
    assert_eq!(
        REFLECTED_COMBINED_IMAGE_SAMPLER,
        rspirv_reflect::DescriptorType::COMBINED_IMAGE_SAMPLER.0
    );
    assert_eq!(REFLECTED_SAMPLED_IMAGE, rspirv_reflect::DescriptorType::SAMPLED_IMAGE.0);
    assert_eq!(REFLECTED_STORAGE_IMAGE, rspirv_reflect::DescriptorType::STORAGE_IMAGE.0);
    assert_eq!(
        REFLECTED_UNIFORM_TEXEL_BUFFER,
        rspirv_reflect::DescriptorType::UNIFORM_TEXEL_BUFFER.0
    );
    assert_eq!(
        REFLECTED_STORAGE_TEXEL_BUFFER,
        rspirv_reflect::DescriptorType::STORAGE_TEXEL_BUFFER.0
    );
    assert_eq!(REFLECTED_UNIFORM_BUFFER, rspirv_reflect::DescriptorType::UNIFORM_BUFFER.0);
    assert_eq!(REFLECTED_STORAGE_BUFFER, rspirv_reflect::DescriptorType::STORAGE_BUFFER.0);
    assert_eq!(
        REFLECTED_UNIFORM_BUFFER_DYNAMIC,
        rspirv_reflect::DescriptorType::UNIFORM_BUFFER_DYNAMIC.0
    );
    assert_eq!(
        REFLECTED_STORAGE_BUFFER_DYNAMIC,
        rspirv_reflect::DescriptorType::STORAGE_BUFFER_DYNAMIC.0
    );
    assert_eq!(REFLECTED_INPUT_ATTACHMENT, rspirv_reflect::DescriptorType::INPUT_ATTACHMENT.0);
    assert_eq!(
        REFLECTED_ACCELERATION_STRUCTURE,
        rspirv_reflect::DescriptorType::ACCELERATION_STRUCTURE_KHR.0
    );
}

#[test]
fn descriptor_type_codes_match_the_graphics_api() {
    let pairs = [
        (DescriptorType::Sampler, vk::DescriptorType::SAMPLER),
        (DescriptorType::SampledImage, vk::DescriptorType::SAMPLED_IMAGE),
        (DescriptorType::StorageImage, vk::DescriptorType::STORAGE_IMAGE),
        (DescriptorType::UniformTexelBuffer, vk::DescriptorType::UNIFORM_TEXEL_BUFFER),
        (DescriptorType::UniformBuffer, vk::DescriptorType::UNIFORM_BUFFER),
        (DescriptorType::StorageBuffer, vk::DescriptorType::STORAGE_BUFFER),
        (DescriptorType::StorageBufferDynamic, vk::DescriptorType::STORAGE_BUFFER_DYNAMIC),
        (DescriptorType::AccelerationStructure, vk::DescriptorType::ACCELERATION_STRUCTURE_KHR),
    ];
    for (ours, theirs) in pairs {
        assert_eq!(i64::from(ours.raw()), i64::from(theirs.as_raw()));
    }
}

#[test]
fn stage_bits_match_the_graphics_api() {
    assert_eq!(STAGE_VERTEX, vk::ShaderStageFlags::VERTEX.as_raw());
    assert_eq!(STAGE_FRAGMENT, vk::ShaderStageFlags::FRAGMENT.as_raw());
    assert_eq!(STAGE_COMPUTE, vk::ShaderStageFlags::COMPUTE.as_raw());
    assert_eq!(STAGE_ALL, vk::ShaderStageFlags::ALL.as_raw());
    assert_eq!(
        ShaderKind::Fragment.to_vk_shader_stage_flag(),
        vk::ShaderStageFlags::FRAGMENT.as_raw()
    );
}

#[test]
fn device_address_bit_matches_the_graphics_api() {
    assert_eq!(
        USAGE_SHADER_DEVICE_ADDRESS,
        vk::BufferUsageFlags::SHADER_DEVICE_ADDRESS.as_raw()
    );
    let usage = vk::BufferUsageFlags::VERTEX_BUFFER | vk::BufferUsageFlags::TRANSFER_DST;
    let forced = vk::BufferUsageFlags::from_raw(Buffer::usage_with_device_address(usage.as_raw()));
    assert!(forced.contains(vk::BufferUsageFlags::SHADER_DEVICE_ADDRESS));
    assert!(forced.contains(usage));
}
