//! The failures that resource and layout operations report.

use vstd::prelude::*;

verus! {

/// Why an operation on a resource, a shader module or a layout was refused.
#[derive(Clone, Copy, Debug, PartialEq, Eq, Structural)]
pub enum ResourceError {
    /// The allocator could not provide memory, or memory could not be bound.
    AllocationFailed,
    /// The device could not create the requested object.
    DeviceObjectCreationFailed,
    /// Reflection could not read the shader bytecode.
    MalformedBytecode,
    /// A reflected binding has a kind that layouts cannot express.
    UnsupportedDescriptorType,
    /// A sampler binding's name does not follow the sampler grammar.
    MalformedSamplerSpec,
    /// The resource was already destroyed.
    DoubleFree,
    /// The buffer has no host-visible mapping to write into.
    BufferNotMapped,
    /// A write would reach past the end of the buffer.
    OffsetOutOfBounds,
}

impl ResourceError {
    /// A short description for messages and logs.
    pub fn message(&self) -> (text: &'static str)
        ensures
            text@ == Self::spec_message(*self)@,
    {
        match self {
            ResourceError::AllocationFailed => "memory allocation or binding failed",
            ResourceError::DeviceObjectCreationFailed => "device object creation failed",
            ResourceError::MalformedBytecode => "shader bytecode could not be reflected",
            ResourceError::UnsupportedDescriptorType => "unsupported descriptor type",
            ResourceError::MalformedSamplerSpec => "malformed sampler name",
            ResourceError::DoubleFree => "resource destroyed twice",
            ResourceError::BufferNotMapped => "buffer is not mapped for host writes",
            ResourceError::OffsetOutOfBounds => "write reaches past the end of the buffer",
        }
    }

    /// The text that [`ResourceError::message`] returns for each failure.
    pub open spec fn spec_message(e: ResourceError) -> &'static str {
        match e {
            ResourceError::AllocationFailed => "memory allocation or binding failed",
            ResourceError::DeviceObjectCreationFailed => "device object creation failed",
            ResourceError::MalformedBytecode => "shader bytecode could not be reflected",
            ResourceError::UnsupportedDescriptorType => "unsupported descriptor type",
            ResourceError::MalformedSamplerSpec => "malformed sampler name",
            ResourceError::DoubleFree => "resource destroyed twice",
            ResourceError::BufferNotMapped => "buffer is not mapped for host writes",
            ResourceError::OffsetOutOfBounds => "write reaches past the end of the buffer",
        }
    }
}

} // verus!
