//! Reflected bindings and the layout bindings they resolve to.

use crate::error::ResourceError;
use crate::render::sampler::{parse_sampler_name, spec_parse_sampler, SamplerDesc};
use vstd::prelude::*;
use vstd::string::StrSliceExecFns;

verus! {

/// Reflected kind code of a sampler.
pub const REFLECTED_SAMPLER: u32 = 0;

/// Reflected kind code of a combined image and sampler.
pub const REFLECTED_COMBINED_IMAGE_SAMPLER: u32 = 1;

/// Reflected kind code of a sampled image.
pub const REFLECTED_SAMPLED_IMAGE: u32 = 2;

/// Reflected kind code of a storage image.
pub const REFLECTED_STORAGE_IMAGE: u32 = 3;

/// Reflected kind code of a uniform texel buffer.
pub const REFLECTED_UNIFORM_TEXEL_BUFFER: u32 = 4;

/// Reflected kind code of a storage texel buffer.
pub const REFLECTED_STORAGE_TEXEL_BUFFER: u32 = 5;

/// Reflected kind code of a uniform buffer.
pub const REFLECTED_UNIFORM_BUFFER: u32 = 6;

/// Reflected kind code of a storage buffer.
pub const REFLECTED_STORAGE_BUFFER: u32 = 7;

/// Reflected kind code of a dynamic uniform buffer.
pub const REFLECTED_UNIFORM_BUFFER_DYNAMIC: u32 = 8;

/// Reflected kind code of a dynamic storage buffer.
pub const REFLECTED_STORAGE_BUFFER_DYNAMIC: u32 = 9;

/// Reflected kind code of an input attachment.
pub const REFLECTED_INPUT_ATTACHMENT: u32 = 10;

/// Reflected kind code of an acceleration structure.
pub const REFLECTED_ACCELERATION_STRUCTURE: u32 = 1_000_150_000;

/// Stage mask that makes a binding visible to every shader stage.
pub const STAGE_ALL: u32 = 0x7FFF_FFFF;

/// The descriptor types that a layout binding can have.
#[derive(Clone, Copy, Debug, PartialEq, Eq, Structural)]
pub enum DescriptorType {
    Sampler,
    SampledImage,
    StorageImage,
    UniformTexelBuffer,
    UniformBuffer,
    StorageBuffer,
    StorageBufferDynamic,
    AccelerationStructure,
}

impl DescriptorType {
    /// The graphics API's numeric code of each descriptor type.
    pub open spec fn spec_raw(self) -> u32 {
        match self {
            DescriptorType::Sampler => REFLECTED_SAMPLER,
            DescriptorType::SampledImage => REFLECTED_SAMPLED_IMAGE,
            DescriptorType::StorageImage => REFLECTED_STORAGE_IMAGE,
            DescriptorType::UniformTexelBuffer => REFLECTED_UNIFORM_TEXEL_BUFFER,
            DescriptorType::UniformBuffer => REFLECTED_UNIFORM_BUFFER,
            DescriptorType::StorageBuffer => REFLECTED_STORAGE_BUFFER,
            DescriptorType::StorageBufferDynamic => REFLECTED_STORAGE_BUFFER_DYNAMIC,
            DescriptorType::AccelerationStructure => REFLECTED_ACCELERATION_STRUCTURE,
        }
    }

    /// The numeric code under which the graphics API knows this type.
    pub fn raw(self) -> (code: u32)
        ensures
            code == self.spec_raw(),
    {
        match self {
            DescriptorType::Sampler => REFLECTED_SAMPLER,
            DescriptorType::SampledImage => REFLECTED_SAMPLED_IMAGE,
            DescriptorType::StorageImage => REFLECTED_STORAGE_IMAGE,
            DescriptorType::UniformTexelBuffer => REFLECTED_UNIFORM_TEXEL_BUFFER,
            DescriptorType::UniformBuffer => REFLECTED_UNIFORM_BUFFER,
            DescriptorType::StorageBuffer => REFLECTED_STORAGE_BUFFER,
            DescriptorType::StorageBufferDynamic => REFLECTED_STORAGE_BUFFER_DYNAMIC,
            DescriptorType::AccelerationStructure => REFLECTED_ACCELERATION_STRUCTURE,
        }
    }
}

/// How many resources a declared binding stands for.
#[derive(Clone, Copy, Debug, PartialEq, Eq, Structural)]
pub enum Dimensionality {
    /// One resource.
    Single,
    /// A fixed number of resources.
    Array(usize),
    /// A number of resources that is only known when sets are allocated.
    RuntimeArray,
}

/// What reflection reports of one binding.
#[derive(Clone, Debug)]
pub struct DescriptorInfo {
    /// The reflected kind code.
    pub ty: u32,
    /// The name the shader declares the binding under.
    pub name: String,
    /// How many resources the declaration stands for.
    pub dimensionality: Dimensionality,
}

/// One binding of a descriptor-set layout.
#[derive(Clone, Copy, Debug, PartialEq, Eq, Structural)]
pub struct LayoutBinding {
    /// The binding's index within its set.
    pub binding: u32,
    /// The resolved descriptor type.
    pub descriptor_type: DescriptorType,
    /// Number of descriptors; always one.
    pub descriptor_count: u32,
    /// The stages that see the binding; always every stage.
    pub stage_flags: u32,
    /// Whether the binding may stay partly unbound; always set.
    pub partially_bound: bool,
    /// The immutable sampler of a sampler binding.
    pub immutable_sampler: Option<SamplerDesc>,
}

/// Whether `name` ends in `_dyn`.
pub open spec fn has_dyn_suffix(name: Seq<char>) -> bool {
    &&& name.len() >= 4
    &&& name[name.len() - 4] == '_'
    &&& name[name.len() - 3] == 'd'
    &&& name[name.len() - 2] == 'y'
    &&& name[name.len() - 1] == 'n'
}

/// The descriptor type that a reflected kind and a declared name resolve to.
///
/// Buffers and images keep their kind, but a storage buffer whose name ends in
/// `_dyn` becomes a dynamic storage buffer. A sampler resolves only if its name
/// follows the sampler grammar. Every other kind is unsupported.
pub open spec fn spec_resolve_type(ty: u32, name: Seq<char>) -> Result<
    DescriptorType,
    ResourceError,
> {
    if ty == REFLECTED_UNIFORM_BUFFER {
        Ok(DescriptorType::UniformBuffer)
    } else if ty == REFLECTED_UNIFORM_TEXEL_BUFFER {
        Ok(DescriptorType::UniformTexelBuffer)
    } else if ty == REFLECTED_STORAGE_IMAGE {
        Ok(DescriptorType::StorageImage)
    } else if ty == REFLECTED_STORAGE_BUFFER {
        if has_dyn_suffix(name) {
            Ok(DescriptorType::StorageBufferDynamic)
        } else {
            Ok(DescriptorType::StorageBuffer)
        }
    } else if ty == REFLECTED_STORAGE_BUFFER_DYNAMIC {
        Ok(DescriptorType::StorageBufferDynamic)
    } else if ty == REFLECTED_SAMPLED_IMAGE {
        Ok(DescriptorType::SampledImage)
    } else if ty == REFLECTED_SAMPLER {
        if spec_parse_sampler(name) is Some {
            Ok(DescriptorType::Sampler)
        } else {
            Err(ResourceError::MalformedSamplerSpec)
        }
    } else if ty == REFLECTED_ACCELERATION_STRUCTURE {
        Ok(DescriptorType::AccelerationStructure)
    } else {
        Err(ResourceError::UnsupportedDescriptorType)
    }
}

/// The layout binding for a reflected binding at index `binding`.
///
/// The binding has the resolved type, one descriptor, visibility in every
/// stage and the partially-bound flag; a sampler binding also carries the
/// sampler that its name describes.
pub open spec fn spec_layout_binding(binding: u32, ty: u32, name: Seq<char>) -> Result<
    LayoutBinding,
    ResourceError,
> {
    match spec_resolve_type(ty, name) {
        Ok(descriptor_type) => Ok(
            LayoutBinding {
                binding,
                descriptor_type,
                descriptor_count: 1,
                stage_flags: STAGE_ALL,
                partially_bound: true,
                immutable_sampler: if ty == REFLECTED_SAMPLER {
                    spec_parse_sampler(name)
                } else {
                    None
                },
            },
        ),
        Err(e) => Err(e),
    }
}

/// Whether a declared name ends in `_dyn`.
pub fn ends_with_dyn(name: &str) -> (r: bool)
    ensures
        r == has_dyn_suffix(name@),
{
    let len: usize = name.unicode_len();
    len >= 4 && name.get_char(len - 4) == '_' && name.get_char(len - 3) == 'd' && name.get_char(
        len - 2,
    ) == 'y' && name.get_char(len - 1) == 'n'
}

/// Resolves one reflected binding to its layout binding.
pub fn layout_binding(binding: u32, info: &DescriptorInfo) -> (r: Result<
    LayoutBinding,
    ResourceError,
>)
    ensures
        r == spec_layout_binding(binding, info.ty, info.name@),
{
    let name = info.name.as_str();
    let mut immutable_sampler: Option<SamplerDesc> = None;
    let descriptor_type = if info.ty == REFLECTED_UNIFORM_BUFFER {
        DescriptorType::UniformBuffer
    } else if info.ty == REFLECTED_UNIFORM_TEXEL_BUFFER {
        DescriptorType::UniformTexelBuffer
    } else if info.ty == REFLECTED_STORAGE_IMAGE {
        DescriptorType::StorageImage
    } else if info.ty == REFLECTED_STORAGE_BUFFER {
        if ends_with_dyn(name) {
            DescriptorType::StorageBufferDynamic
        } else {
            DescriptorType::StorageBuffer
        }
    } else if info.ty == REFLECTED_STORAGE_BUFFER_DYNAMIC {
        DescriptorType::StorageBufferDynamic
    } else if info.ty == REFLECTED_SAMPLED_IMAGE {
        DescriptorType::SampledImage
    } else if info.ty == REFLECTED_SAMPLER {
        match parse_sampler_name(name) {
            Ok(desc) => {
                immutable_sampler = Some(desc);
                DescriptorType::Sampler
            },
            Err(e) => {
                return Err(e);
            },
        }
    } else if info.ty == REFLECTED_ACCELERATION_STRUCTURE {
        DescriptorType::AccelerationStructure
    } else {
        return Err(ResourceError::UnsupportedDescriptorType);
    };
    Ok(
        LayoutBinding {
            binding,
            descriptor_type,
            descriptor_count: 1,
            stage_flags: STAGE_ALL,
            partially_bound: true,
            immutable_sampler,
        },
    )
}

/// A storage buffer resolves to the dynamic storage-buffer type exactly when
/// its declared name ends in `_dyn`.
pub proof fn lemma_storage_buffer_dyn(binding: u32, name: Seq<char>)
    ensures
        spec_layout_binding(binding, REFLECTED_STORAGE_BUFFER, name) is Ok,
        has_dyn_suffix(name) <==> spec_layout_binding(
            binding,
            REFLECTED_STORAGE_BUFFER,
            name,
        ).unwrap().descriptor_type == DescriptorType::StorageBufferDynamic,
        !has_dyn_suffix(name) <==> spec_layout_binding(
            binding,
            REFLECTED_STORAGE_BUFFER,
            name,
        ).unwrap().descriptor_type == DescriptorType::StorageBuffer,
{
}

/// Appending `_dyn` to any name gives a name with the dynamic suffix.
pub proof fn lemma_dyn_suffix_appended(stem: Seq<char>)
    ensures
        has_dyn_suffix(stem + seq!['_', 'd', 'y', 'n']),
{
}

} // verus!
