//! Buffers and images with their memory, from creation to destruction.
//!
//! A resource owns its allocation from the moment it is created until it is
//! destroyed. Destroying hands the allocation back, together with the device
//! handles to release, and leaves the resource without one: every later
//! operation on it is refused.

use crate::error::ResourceError;
use vstd::prelude::*;

verus! {

/// Usage bit that lets a buffer's device address be queried.
pub const USAGE_SHADER_DEVICE_ADDRESS: u32 = 0x2_0000;

/// A block of device memory that an allocator handed out.
pub struct Allocation {
    /// The memory object the block lies in.
    pub memory: u64,
    /// Where the block starts within the memory object.
    pub offset: u64,
    /// The block's bytes as the host sees them, where it is host-visible.
    pub mapped: Option<Vec<u8>>,
}

/// An allocation as contracts see it.
pub ghost struct AllocationModel {
    pub memory: u64,
    pub offset: u64,
    pub mapped: Option<Seq<u8>>,
}

impl View for Allocation {
    type V = AllocationModel;

    open spec fn view(&self) -> AllocationModel {
        AllocationModel {
            memory: self.memory,
            offset: self.offset,
            mapped: match self.mapped {
                Some(bytes) => Some(bytes@),
                None => None,
            },
        }
    }
}

/// The model of an allocation that may be missing.
pub open spec fn allocation_model(allocation: Option<Allocation>) -> Option<AllocationModel> {
    match allocation {
        Some(a) => Some(a@),
        None => None,
    }
}

/// Where an allocation should live.
#[derive(Clone, Copy, Debug, PartialEq, Eq, Structural)]
pub enum MemoryLocation {
    /// Wherever the allocator sees fit.
    Unknown,
    /// Device-local memory.
    GpuOnly,
    /// Host-visible memory for uploads.
    CpuToGpu,
    /// Host-visible memory for readback.
    GpuToCpu,
}

/// What the device demands of the memory behind a resource.
#[derive(Clone, Copy, Debug, PartialEq, Eq, Structural)]
pub struct MemoryRequirements {
    pub size: u64,
    pub alignment: u64,
    pub memory_type_bits: u32,
}

/// What to ask the allocator for.
#[derive(Clone, Copy, Debug, PartialEq, Eq, Structural)]
pub struct AllocationRequest {
    pub requirements: MemoryRequirements,
    pub location: MemoryLocation,
    /// Whether the resource is laid out linearly: buffers are, images are not.
    pub linear: bool,
}

/// A device buffer and its memory.
pub struct Buffer {
    pub buffer: u64,
    pub allocation: Option<Allocation>,
    pub size: u64,
    pub device_addr: u64,
    pub has_been_written_to: bool,
}

/// What is left to release once a buffer has been destroyed: first the
/// allocation is returned to the allocator, then the buffer handle is destroyed.
pub struct BufferRelease {
    pub allocation: Allocation,
    pub buffer: u64,
}

/// A buffer as contracts see it.
pub ghost struct BufferModel {
    pub buffer: u64,
    pub allocation: Option<AllocationModel>,
    pub size: u64,
    pub device_addr: u64,
    pub has_been_written_to: bool,
}

impl View for Buffer {
    type V = BufferModel;

    open spec fn view(&self) -> BufferModel {
        BufferModel {
            buffer: self.buffer,
            allocation: allocation_model(self.allocation),
            size: self.size,
            device_addr: self.device_addr,
            has_been_written_to: self.has_been_written_to,
        }
    }
}

/// What is left to release of a destroyed buffer, as contracts see it.
pub ghost struct BufferReleaseModel {
    pub allocation: AllocationModel,
    pub buffer: u64,
}

impl View for BufferRelease {
    type V = BufferReleaseModel;

    open spec fn view(&self) -> BufferReleaseModel {
        BufferReleaseModel { allocation: self.allocation@, buffer: self.buffer }
    }
}

/// `mapped` with the bytes from `offset` on replaced by `data`.
pub open spec fn spec_overwrite(mapped: Seq<u8>, offset: int, data: Seq<u8>) -> Seq<u8> {
    Seq::new(
        mapped.len(),
        |i: int|
            if offset <= i < offset + data.len() {
                data[i - offset]
            } else {
                mapped[i]
            },
    )
}

impl BufferModel {
    /// Whether the buffer has memory that the host can write.
    pub open spec fn is_mapped(self) -> bool {
        self.allocation is Some && self.allocation->Some_0.mapped is Some
    }

    /// The buffer's bytes as the host sees them.
    pub open spec fn mapped_bytes(self) -> Seq<u8>
        recommends
            self.is_mapped(),
    {
        self.allocation->Some_0.mapped->Some_0
    }

    /// Why a write of `len` bytes at `offset` is refused, if it is: the buffer
    /// has no mapping, or the write would end past the buffer's size or past
    /// its mapping.
    pub open spec fn write_error(self, len: nat, offset: nat) -> Option<ResourceError> {
        if !self.is_mapped() {
            Some(ResourceError::BufferNotMapped)
        } else if offset + len > self.size || offset + len > self.mapped_bytes().len() {
            Some(ResourceError::OffsetOutOfBounds)
        } else {
            None
        }
    }

    /// The buffer after a write of `data` at `offset`, and what the write
    /// returns: a refused write changes nothing; an accepted one replaces the
    /// bytes it covers and marks the buffer as written.
    pub open spec fn spec_write(self, data: Seq<u8>, offset: nat) -> (
        BufferModel,
        Result<(), ResourceError>,
    ) {
        match self.write_error(data.len(), offset) {
            Some(e) => (self, Err(e)),
            None => (
                BufferModel {
                    allocation: Some(
                        AllocationModel {
                            mapped: Some(spec_overwrite(self.mapped_bytes(), offset as int, data)),
                            ..self.allocation->Some_0
                        },
                    ),
                    has_been_written_to: true,
                    ..self
                },
                Ok(()),
            ),
        }
    }

    /// The buffer after `destroy`, and what `destroy` returns.
    pub open spec fn spec_destroy(self) -> (BufferModel, Result<BufferReleaseModel, ResourceError>) {
        match self.allocation {
            None => (self, Err(ResourceError::DoubleFree)),
            Some(allocation) => (
                BufferModel { allocation: None, ..self },
                Ok(BufferReleaseModel { allocation, buffer: self.buffer }),
            ),
        }
    }
}

impl Buffer {
    /// The usage flags to create a buffer with: those asked for, and the
    /// device-address bit.
    pub fn usage_with_device_address(usage: u32) -> (r: u32)
        ensures
            r == usage | USAGE_SHADER_DEVICE_ADDRESS,
            r & USAGE_SHADER_DEVICE_ADDRESS == USAGE_SHADER_DEVICE_ADDRESS,
    {
        assert((usage | 0x2_0000u32) & 0x2_0000u32 == 0x2_0000u32) by (bit_vector);
        usage | USAGE_SHADER_DEVICE_ADDRESS
    }

    /// The allocation to ask for behind a buffer: what the device requires, in
    /// the wanted location, laid out linearly.
    pub fn allocation_request(requirements: MemoryRequirements, location: MemoryLocation) -> (r:
        AllocationRequest)
        ensures
            r == (AllocationRequest { requirements, location, linear: true }),
    {
        AllocationRequest { requirements, location, linear: true }
    }

    /// Takes ownership of a buffer that the device created and bound.
    ///
    /// `buffer` is the handle the device created, if it did; `allocation` the
    /// memory the allocator gave, if it did; `bound` whether binding the two
    /// succeeded. A missing handle is a failed device object creation; missing
    /// or unbound memory is a failed allocation.
    pub fn new(
        buffer: Option<u64>,
        allocation: Option<Allocation>,
        bound: bool,
        size: u64,
        device_addr: u64,
    ) -> (r: Result<Buffer, ResourceError>)
        ensures
            buffer is None ==> r is Err && r->Err_0 == ResourceError::DeviceObjectCreationFailed,
            buffer is Some && (allocation is None || !bound) ==> r is Err && r->Err_0
                == ResourceError::AllocationFailed,
            buffer is Some && allocation is Some && bound ==> r is Ok && r->Ok_0@ == (BufferModel {
                buffer: buffer->Some_0,
                allocation: allocation_model(allocation),
                size,
                device_addr,
                has_been_written_to: false,
            }),
    {
        match buffer {
            None => Err(ResourceError::DeviceObjectCreationFailed),
            Some(handle) => {
                if allocation.is_none() || !bound {
                    Err(ResourceError::AllocationFailed)
                } else {
                    Ok(
                        Buffer {
                            buffer: handle,
                            allocation,
                            size,
                            device_addr,
                            has_been_written_to: false,
                        },
                    )
                }
            },
        }
    }

    /// Gives up the buffer's memory and handle.
    ///
    /// The first call returns the allocation to free and the handle to
    /// destroy, and leaves the buffer without an allocation. A buffer without
    /// an allocation was destroyed before: the call fails and changes nothing.
    pub fn destroy(&mut self) -> (r: Result<BufferRelease, ResourceError>)
        ensures
            final(self)@ == old(self)@.spec_destroy().0,
            old(self)@.spec_destroy().1 == match r {
                Ok(release) => Ok::<BufferReleaseModel, ResourceError>(release@),
                Err(e) => Err(e),
            },
    {
        match self.allocation.take() {
            None => Err(ResourceError::DoubleFree),
            Some(allocation) => Ok(BufferRelease { allocation, buffer: self.buffer }),
        }
    }

    /// Copies `slice` into the buffer's mapped memory, starting at `offset`.
    ///
    /// A write that is refused leaves the buffer as it was. A write that is
    /// accepted replaces exactly the bytes from `offset` to `offset` plus the
    /// length of `slice`, and marks the buffer as written.
    pub fn copy_from_slice(&mut self, slice: &[u8], offset: usize) -> (r: Result<
        (),
        ResourceError,
    >)
        ensures
            (final(self)@, r) == old(self)@.spec_write(slice@, offset as nat),
    {
        let mapped_len: Option<usize> = match &self.allocation {
            Some(allocation) => match &allocation.mapped {
                Some(bytes) => Some(bytes.len()),
                None => None,
            },
            None => None,
        };
        let len: usize = slice.len();
        match mapped_len {
            None => Err(ResourceError::BufferNotMapped),
            Some(available) => {
                if len > available || offset > available - len {
                    return Err(ResourceError::OffsetOutOfBounds);
                }
                if (offset + len) as u64 > self.size {
                    return Err(ResourceError::OffsetOutOfBounds);
                }
                let Allocation { memory, offset: start, mapped } = self.allocation.take().unwrap();
                let mut bytes = mapped.unwrap();
                let ghost before = bytes@;
                let mut i: usize = 0;
                while i < len
                    invariant
                        len == slice@.len(),
                        offset + len <= before.len(),
                        before.len() <= usize::MAX,
                        i <= len,
                        bytes@ == spec_overwrite(before, offset as int, slice@.take(i as int)),
                    decreases len - i,
                {
                    bytes.set(offset + i, slice[i]);
                    i += 1;
                    assert(bytes@ =~= spec_overwrite(before, offset as int, slice@.take(i as int)));
                }
                assert(slice@.take(len as int) =~= slice@);
                self.allocation = Some(Allocation { memory, offset: start, mapped: Some(bytes) });
                self.has_been_written_to = true;
                assert(self@ == old(self)@.spec_write(slice@, offset as nat).0);
                Ok(())
            },
        }
    }
}

/// A buffer can be destroyed once: destroying it again fails as a double free
/// and leaves it as the first destruction left it, and it takes no more writes.
pub proof fn lemma_buffer_destroyed_once(buffer: BufferModel)
    ensures
        buffer.spec_destroy().0.spec_destroy() == (
            buffer.spec_destroy().0,
            Err::<BufferReleaseModel, ResourceError>(ResourceError::DoubleFree),
        ),
        forall|data: Seq<u8>, offset: nat| #[trigger]
            buffer.spec_destroy().0.spec_write(data, offset) == (
                buffer.spec_destroy().0,
                Err::<(), ResourceError>(ResourceError::BufferNotMapped),
            ),
{
}

/// A write that would end past the size of a mapped buffer is refused as out
/// of bounds and leaves the buffer as it was.
pub proof fn lemma_write_past_end_refused(buffer: BufferModel, data: Seq<u8>, offset: nat)
    requires
        buffer.is_mapped(),
        offset + data.len() > buffer.size,
    ensures
        buffer.spec_write(data, offset) == (
            buffer,
            Err::<(), ResourceError>(ResourceError::OffsetOutOfBounds),
        ),
{
}

/// A write that is accepted changes the bytes it covers and no others.
pub proof fn lemma_write_covers_its_range(buffer: BufferModel, data: Seq<u8>, offset: nat)
    requires
        buffer.write_error(data.len(), offset) is None,
    ensures
        buffer.spec_write(data, offset).0.mapped_bytes().len() == buffer.mapped_bytes().len(),
        forall|i: int|
            offset <= i < offset + data.len() ==> #[trigger] buffer.spec_write(
                data,
                offset,
            ).0.mapped_bytes()[i] == data[i - offset],
        forall|i: int|
            0 <= i < buffer.mapped_bytes().len() && !(offset <= i < offset + data.len())
                ==> #[trigger] buffer.spec_write(data, offset).0.mapped_bytes()[i]
                == buffer.mapped_bytes()[i],
{
}

/// The shape of the image region a view covers.
#[derive(Clone, Copy, Debug, PartialEq, Eq, Structural)]
pub enum ImageViewType {
    Type1D,
    Type2D,
    Type3D,
    Cube,
}

/// Where a view takes one of its channels from.
#[derive(Clone, Copy, Debug, PartialEq, Eq, Structural)]
pub enum ComponentSwizzle {
    Identity,
    Zero,
    One,
    R,
    G,
    B,
    A,
}

/// The part of an image's data a view covers.
#[derive(Clone, Copy, Debug, PartialEq, Eq, Structural)]
pub enum ImageAspect {
    Color,
    Depth,
    Stencil,
}

/// The view to create on an image.
#[derive(Clone, Copy, Debug, PartialEq, Eq, Structural)]
pub struct ImageViewDesc {
    pub image: u64,
    pub view_type: ImageViewType,
    pub format: i32,
    pub r: ComponentSwizzle,
    pub g: ComponentSwizzle,
    pub b: ComponentSwizzle,
    pub a: ComponentSwizzle,
    pub aspect: ImageAspect,
    pub base_mip_level: u32,
    pub level_count: u32,
    pub base_array_layer: u32,
    pub layer_count: u32,
}

/// One step of releasing an image, for the device or the allocator to perform.
pub enum ReleaseStep {
    /// Destroy this view.
    DestroyView(u64),
    /// Return this allocation to the allocator.
    FreeAllocation(Allocation),
    /// Destroy this image handle.
    DestroyImage(u64),
}

/// A release step as contracts see it.
pub ghost enum ReleaseStepModel {
    DestroyView(u64),
    FreeAllocation(AllocationModel),
    DestroyImage(u64),
}

impl View for ReleaseStep {
    type V = ReleaseStepModel;

    open spec fn view(&self) -> ReleaseStepModel {
        match self {
            ReleaseStep::DestroyView(view) => ReleaseStepModel::DestroyView(*view),
            ReleaseStep::FreeAllocation(allocation) => ReleaseStepModel::FreeAllocation(
                allocation@,
            ),
            ReleaseStep::DestroyImage(image) => ReleaseStepModel::DestroyImage(*image),
        }
    }
}

/// The models of a sequence of release steps.
pub open spec fn steps_model(steps: Seq<ReleaseStep>) -> Seq<ReleaseStepModel> {
    steps.map_values(|step: ReleaseStep| step@)
}

/// A device image, its memory and the view on it, if one was created.
pub struct Image {
    pub image: u64,
    pub allocation: Option<Allocation>,
    pub view: Option<u64>,
    pub format: i32,
}

/// An image as contracts see it.
pub ghost struct ImageModel {
    pub image: u64,
    pub allocation: Option<AllocationModel>,
    pub view: Option<u64>,
    pub format: i32,
}

impl View for Image {
    type V = ImageModel;

    open spec fn view(&self) -> ImageModel {
        ImageModel {
            image: self.image,
            allocation: allocation_model(self.allocation),
            view: self.view,
            format: self.format,
        }
    }
}

impl ImageModel {
    /// The view that `create_view` asks the device for: two-dimensional, in
    /// the image's own format, each channel mapped to itself, over the colour
    /// data of the first mip level and the first array layer.
    pub open spec fn spec_view_description(self) -> ImageViewDesc {
        ImageViewDesc {
            image: self.image,
            view_type: ImageViewType::Type2D,
            format: self.format,
            r: ComponentSwizzle::R,
            g: ComponentSwizzle::G,
            b: ComponentSwizzle::B,
            a: ComponentSwizzle::A,
            aspect: ImageAspect::Color,
            base_mip_level: 0,
            level_count: 1,
            base_array_layer: 0,
            layer_count: 1,
        }
    }

    /// The image after `create_view`, and what `create_view` returns.
    pub open spec fn spec_create_view(self, created: Option<u64>) -> (
        ImageModel,
        Result<u64, ResourceError>,
    ) {
        if self.allocation is Some && created is Some {
            (ImageModel { view: created, ..self }, Ok(created->Some_0))
        } else {
            (self, Err(ResourceError::DeviceObjectCreationFailed))
        }
    }

    /// The steps that release the image, in the order to perform them: the
    /// view, if there is one, then the memory, then the image handle.
    pub open spec fn spec_release_steps(self) -> Seq<ReleaseStepModel>
        recommends
            self.allocation is Some,
    {
        match self.view {
            Some(view) => seq![
                ReleaseStepModel::DestroyView(view),
                ReleaseStepModel::FreeAllocation(self.allocation->Some_0),
                ReleaseStepModel::DestroyImage(self.image),
            ],
            None => seq![
                ReleaseStepModel::FreeAllocation(self.allocation->Some_0),
                ReleaseStepModel::DestroyImage(self.image),
            ],
        }
    }

    /// The image after `destroy`, and the steps that `destroy` returns.
    pub open spec fn spec_destroy(self) -> (
        ImageModel,
        Result<Seq<ReleaseStepModel>, ResourceError>,
    ) {
        if self.allocation is Some {
            (ImageModel { allocation: None, view: None, ..self }, Ok(self.spec_release_steps()))
        } else {
            (self, Err(ResourceError::DoubleFree))
        }
    }
}

impl Image {

    /// The allocation to ask for behind an image: what the device requires, in
    /// the wanted location, not laid out linearly.
    pub fn allocation_request(requirements: MemoryRequirements, location: MemoryLocation) -> (r:
        AllocationRequest)
        ensures
            r == (AllocationRequest { requirements, location, linear: false }),
    {
        AllocationRequest { requirements, location, linear: false }
    }

    /// Takes ownership of an image that the device created and bound.
    ///
    /// `image` is the handle the device created, if it did; `allocation` the
    /// memory the allocator gave, if it did; `bound` whether binding the two
    /// succeeded. A missing handle is a failed device object creation; missing
    /// or unbound memory is a failed allocation. The image starts without a
    /// view.
    pub fn new(image: Option<u64>, allocation: Option<Allocation>, bound: bool, format: i32) -> (r:
        Result<Image, ResourceError>)
        ensures
            image is None ==> r is Err && r->Err_0 == ResourceError::DeviceObjectCreationFailed,
            image is Some && (allocation is None || !bound) ==> r is Err && r->Err_0
                == ResourceError::AllocationFailed,
            image is Some && allocation is Some && bound ==> r is Ok && r->Ok_0@ == (ImageModel {
                image: image->Some_0,
                allocation: allocation_model(allocation),
                view: None,
                format,
            }),
    {
        match image {
            None => Err(ResourceError::DeviceObjectCreationFailed),
            Some(handle) => {
                if allocation.is_none() || !bound {
                    Err(ResourceError::AllocationFailed)
                } else {
                    Ok(Image { image: handle, allocation, view: None, format })
                }
            },
        }
    }

    /// Describes the view to create on this image.
    ///
    /// Only two-dimensional colour views of a single mip level and a single
    /// layer are described; cube maps, arrays and depth or stencil views are
    /// not supported.
    pub fn view_description(&self) -> (desc: ImageViewDesc)
        ensures
            desc == self@.spec_view_description(),
    {
        ImageViewDesc {
            image: self.image,
            view_type: ImageViewType::Type2D,
            format: self.format,
            r: ComponentSwizzle::R,
            g: ComponentSwizzle::G,
            b: ComponentSwizzle::B,
            a: ComponentSwizzle::A,
            aspect: ImageAspect::Color,
            base_mip_level: 0,
            level_count: 1,
            base_array_layer: 0,
            layer_count: 1,
        }
    }

    /// Records the view that the device created for this image.
    ///
    /// `created` is the view's handle, if the device created one. The image
    /// keeps the handle and returns it. Without a handle, or on an image that
    /// was destroyed, the call fails and changes nothing.
    pub fn create_view(&mut self, created: Option<u64>) -> (r: Result<u64, ResourceError>)
        ensures
            (final(self)@, r) == old(self)@.spec_create_view(created),
    {
        if self.allocation.is_none() {
            return Err(ResourceError::DeviceObjectCreationFailed);
        }
        match created {
            None => Err(ResourceError::DeviceObjectCreationFailed),
            Some(view) => {
                self.view = Some(view);
                Ok(view)
            },
        }
    }

    /// Gives up the image's view, memory and handle.
    ///
    /// The first call returns the steps that release them, the view first and
    /// the image handle last, and leaves the image without view and
    /// allocation. An image without an allocation was destroyed before: the
    /// call fails and changes nothing.
    pub fn destroy(&mut self) -> (r: Result<Vec<ReleaseStep>, ResourceError>)
        ensures
            final(self)@ == old(self)@.spec_destroy().0,
            old(self)@.spec_destroy().1 == match r {
                Ok(steps) => Ok::<Seq<ReleaseStepModel>, ResourceError>(steps_model(steps@)),
                Err(e) => Err(e),
            },
    {
        match self.allocation.take() {
            None => Err(ResourceError::DoubleFree),
            Some(allocation) => {
                let mut steps: Vec<ReleaseStep> = Vec::new();
                match self.view.take() {
                    Some(view) => {
                        steps.push(ReleaseStep::DestroyView(view));
                    },
                    None => {},
                }
                steps.push(ReleaseStep::FreeAllocation(allocation));
                steps.push(ReleaseStep::DestroyImage(self.image));
                assert(steps_model(steps@) =~= old(self)@.spec_release_steps());
                Ok(steps)
            },
        }
    }
}

/// An image can be destroyed once: destroying it again fails as a double free
/// and leaves it as the first destruction left it.
pub proof fn lemma_image_destroyed_once(image: ImageModel)
    ensures
        image.spec_destroy().0.spec_destroy() == (
            image.spec_destroy().0,
            Err::<Seq<ReleaseStepModel>, ResourceError>(ResourceError::DoubleFree),
        ),
{
}

/// Destroying an image that has a view releases the view first, then the
/// memory, then the image handle, and leaves no view behind.
pub proof fn lemma_view_released_before_image(image: ImageModel)
    requires
        image.allocation is Some,
        image.view is Some,
    ensures
        image.spec_destroy().1 == Ok::<Seq<ReleaseStepModel>, ResourceError>(
            seq![
                ReleaseStepModel::DestroyView(image.view->Some_0),
                ReleaseStepModel::FreeAllocation(image.allocation->Some_0),
                ReleaseStepModel::DestroyImage(image.image),
            ],
        ),
        image.spec_destroy().0.view is None,
{
}

/// A view created on a live image is the first thing its destruction
/// releases, and the image handle the last.
pub proof fn lemma_created_view_released_first(image: ImageModel, view: u64)
    requires
        image.allocation is Some,
    ensures
        image.spec_create_view(Some(view)).1 == Ok::<u64, ResourceError>(view),
        image.spec_create_view(Some(view)).0.spec_destroy().1 is Ok,
        image.spec_create_view(Some(view)).0.spec_destroy().1->Ok_0.first()
            == ReleaseStepModel::DestroyView(view),
        image.spec_create_view(Some(view)).0.spec_destroy().1->Ok_0.last()
            == ReleaseStepModel::DestroyImage(image.image),
{
    lemma_view_released_before_image(image.spec_create_view(Some(view)).0);
}

} // verus!
