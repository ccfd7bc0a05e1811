//! Buffers and bind groups.
use vstd::arithmetic::div_mod::*;
use vstd::prelude::*;

use crate::graphics::pipeline::textures::GPUTexture;
use crate::graphics::pipeline::views::{
    BindGroupLayout, GPUCubemap, GPUTextureArray, Sampler, TextureView,
};
use crate::graphics::types::{BufferUsages, Limits};

verus! {

/// A GPU buffer, built via [`BufferBuilder`]. `H` is the backend's handle to
/// it; size and usage are as the backend reports them.
pub struct Buffer<H> {
    pub handle: H,
    pub size: u64,
    pub usage: BufferUsages,
}

impl<H: Clone> Clone for Buffer<H> {
    /// Another handle to the same buffer.
    fn clone(&self) -> (buffer: Self)
        ensures
            cloned(self.handle, buffer.handle),
            buffer.size == self.size,
            buffer.usage == self.usage,
    {
        Buffer { handle: self.handle.clone(), size: self.size, usage: self.usage }
    }
}

/// Bytes to be written into a buffer.
pub struct BufferWrite<'a, H> {
    pub buffer: &'a H,
    pub offset: u64,
    pub data: &'a [u8],
}

/// A buffer lacks a usage that an operation needs.
#[derive(Clone, Copy, PartialEq, Eq, Structural, Debug)]
pub struct MissingUsage {
    pub needed: BufferUsages,
}

/// How to get the contents of a buffer back: create a staging buffer, copy
/// `size` bytes into it from the start, map it, and hand out what it holds.
#[derive(Clone, Copy, PartialEq, Eq, Structural, Debug)]
pub struct ReadPlan {
    pub staging_usage: BufferUsages,
    pub source_offset: u64,
    pub staging_offset: u64,
    pub size: u64,
}

impl<H> Buffer<H> {
    /// Overwrites the buffer's contents from the start.
    pub fn write<'a>(&'a self, data: &'a [u8]) -> (write: BufferWrite<'a, H>)
        ensures
            write.buffer == self.handle,
            write.offset == 0,
            write.data == data,
    {
        self.write_at(0, data)
    }

    /// Overwrites the buffer's contents from `offset`.
    pub fn write_at<'a>(&'a self, offset: u64, data: &'a [u8]) -> (write: BufferWrite<'a, H>)
        ensures
            write.buffer == self.handle,
            write.offset == offset,
            write.data == data,
    {
        BufferWrite { buffer: &self.handle, offset, data }
    }

    /// How to copy this buffer's contents back, all of them, by way of a
    /// staging buffer. The buffer must allow copying out of it.
    pub fn read(&self) -> (plan: Result<ReadPlan, MissingUsage>)
        ensures
            plan == (if self.usage.copy_src {
                Ok::<ReadPlan, MissingUsage>(
                    ReadPlan {
                        staging_usage: BufferUsages {
                            map_read: true,
                            copy_dst: true,
                            ..BufferUsages::none()
                        },
                        source_offset: 0,
                        staging_offset: 0,
                        size: self.size,
                    },
                )
            } else {
                Err::<ReadPlan, MissingUsage>(
                    MissingUsage { needed: BufferUsages { copy_src: true, ..BufferUsages::none() } },
                )
            }),
    {
        if !self.usage.contains(BufferUsages::copy_src()) {
            return Err(MissingUsage { needed: BufferUsages::copy_src() });
        }
        Ok(
            ReadPlan {
                staging_usage: BufferUsages::map_read() | BufferUsages::copy_dst(),
                source_offset: 0,
                staging_offset: 0,
                size: self.size,
            },
        )
    }

    /// Whether this buffer can be mapped for reading in place, with none of
    /// the staging that [`read`](Self::read) needs.
    pub fn map_read(&self) -> (mapped: Result<(), MissingUsage>)
        ensures
            mapped == (if self.usage.map_read {
                Ok::<(), MissingUsage>(())
            } else {
                Err::<(), MissingUsage>(
                    MissingUsage { needed: BufferUsages { map_read: true, ..BufferUsages::none() } },
                )
            }),
    {
        if !self.usage.contains(BufferUsages::map_read()) {
            return Err(MissingUsage { needed: BufferUsages::map_read() });
        }
        Ok(())
    }

    /// The size in bytes.
    pub fn size(&self) -> (size: u64)
        ensures
            size == self.size,
    {
        self.size
    }
}

/// A buffer that holds many elements of one size, each writable and bindable
/// on its own at an aligned offset. Built via [`DynamicBufferBuilder`].
pub struct DynamicBuffer<H> {
    pub buffer: Buffer<H>,
    pub stride: u64,
    pub element_size: u64,
}

impl<H: Clone> Clone for DynamicBuffer<H> {
    /// Another handle to the same buffer.
    fn clone(&self) -> (buffer: Self)
        ensures
            cloned(self.buffer.handle, buffer.buffer.handle),
            buffer.buffer.size == self.buffer.size,
            buffer.buffer.usage == self.buffer.usage,
            buffer.stride == self.stride,
            buffer.element_size == self.element_size,
    {
        DynamicBuffer {
            buffer: self.buffer.clone(),
            stride: self.stride,
            element_size: self.element_size,
        }
    }
}

impl<H> DynamicBuffer<H> {
    /// Overwrites the data of element `index`.
    pub fn write_element<'a>(&'a self, index: u64, data: &'a [u8]) -> (write: BufferWrite<'a, H>)
        requires
            index * self.stride <= u64::MAX,
        ensures
            write.buffer == self.buffer.handle,
            write.offset == index * self.stride,
            write.data == data,
    {
        self.buffer.write_at(index * self.stride, data)
    }

    /// The size of one element in bytes.
    pub fn element_size(&self) -> (size: u64)
        ensures
            size == self.element_size,
    {
        self.element_size
    }

    /// How far the elements are apart in bytes.
    pub fn stride(&self) -> (stride: u64)
        ensures
            stride == self.stride,
    {
        self.stride
    }
}

/// What a buffer holds at first.
pub enum BufferContents<'a> {
    /// This many bytes.
    Empty(u64),
    /// These bytes.
    Data(&'a [u8]),
}

impl<'a> BufferContents<'a> {
    pub open spec fn bytes(&self) -> int {
        match self {
            BufferContents::Empty(size) => *size as int,
            BufferContents::Data(data) => data@.len() as int,
        }
    }

    /// The size in bytes.
    pub fn size(&self) -> (size: u64)
        ensures
            size == self.bytes(),
    {
        match self {
            BufferContents::Empty(size) => *size,
            BufferContents::Data(data) => data.len() as u64,
        }
    }
}

/// Builds a [`Buffer`]: `empty(size)` or `with_data(bytes)`, then
/// `with_usage(...)` and `build(limits)`.
pub struct BufferBuilder<'a> {
    pub label: Option<&'a str>,
    pub usage: BufferUsages,
    pub contents: BufferContents<'a>,
}

/// Why a device cannot hold a buffer.
#[derive(Clone, Copy, PartialEq, Eq, Structural, Debug)]
pub enum BufferSizeError {
    /// No buffer may be that large.
    Buffer { size: u64, max: u64 },
    /// No uniform binding may be that large.
    Uniform { size: u64, max: u64 },
    /// No storage binding may be that large.
    Storage { size: u64, max: u64 },
}

/// What a device says to a buffer of this usage and size: the limit on any
/// buffer is tested first, then that on uniform, then that on storage
/// bindings.
pub open spec fn size_verdict(limits: Limits, usage: BufferUsages, size: u64) -> Result<
    (),
    BufferSizeError,
> {
    if size > limits.max_buffer_size {
        Err(BufferSizeError::Buffer { size, max: limits.max_buffer_size })
    } else if usage.uniform && size > limits.max_uniform_buffer_binding_size {
        Err(BufferSizeError::Uniform { size, max: limits.max_uniform_buffer_binding_size })
    } else if usage.storage && size > limits.max_storage_buffer_binding_size {
        Err(BufferSizeError::Storage { size, max: limits.max_storage_buffer_binding_size })
    } else {
        Ok(())
    }
}

/// Tests a buffer's size against the device's limits.
pub fn check_buffer_size(limits: &Limits, usage: BufferUsages, size: u64) -> (checked: Result<
    (),
    BufferSizeError,
>)
    ensures
        checked == size_verdict(*limits, usage, size),
{
    if size > limits.max_buffer_size {
        return Err(BufferSizeError::Buffer { size, max: limits.max_buffer_size });
    }
    if usage.contains(BufferUsages::uniform()) && size > limits.max_uniform_buffer_binding_size {
        return Err(BufferSizeError::Uniform { size, max: limits.max_uniform_buffer_binding_size });
    }
    if usage.contains(BufferUsages::storage()) && size > limits.max_storage_buffer_binding_size {
        return Err(BufferSizeError::Storage { size, max: limits.max_storage_buffer_binding_size });
    }
    Ok(())
}

impl<'a> BufferBuilder<'a> {
    /// A buffer of `size` bytes.
    pub fn empty(size: u64) -> (builder: Self)
        ensures
            builder.label is None,
            builder.usage == BufferUsages::none(),
            builder.contents == BufferContents::Empty(size),
    {
        BufferBuilder {
            label: None,
            usage: BufferUsages::empty(),
            contents: BufferContents::Empty(size),
        }
    }

    /// A buffer that holds `data`.
    pub fn with_data(data: &'a [u8]) -> (builder: Self)
        ensures
            builder.label is None,
            builder.usage == BufferUsages::none(),
            builder.contents == BufferContents::Data(data),
    {
        BufferBuilder {
            label: None,
            usage: BufferUsages::empty(),
            contents: BufferContents::Data(data),
        }
    }

    pub fn with_label(self, label: Option<&'a str>) -> (builder: Self)
        ensures
            builder == (BufferBuilder { label, ..self }),
    {
        BufferBuilder { label, ..self }
    }

    pub fn with_usage(self, usage: BufferUsages) -> (builder: Self)
        ensures
            builder == (BufferBuilder { usage, ..self }),
    {
        BufferBuilder { usage, ..self }
    }

    /// For uniform data that is written from the CPU.
    pub fn with_uniform(self) -> (builder: Self)
        ensures
            builder == (BufferBuilder {
                usage: BufferUsages { uniform: true, copy_dst: true, ..BufferUsages::none() },
                ..self
            }),
    {
        self.with_usage(BufferUsages::uniform() | BufferUsages::copy_dst())
    }

    /// For storage data that is written from the CPU.
    pub fn with_storage(self) -> (builder: Self)
        ensures
            builder == (BufferBuilder {
                usage: BufferUsages { storage: true, copy_dst: true, ..BufferUsages::none() },
                ..self
            }),
    {
        self.with_usage(BufferUsages::storage() | BufferUsages::copy_dst())
    }

    /// What to create, if the device can hold it.
    pub fn build(self, limits: &Limits) -> (request: Result<Self, BufferSizeError>)
        ensures
            match size_verdict(*limits, self.usage, self.contents.bytes() as u64) {
                Ok(()) => request == Ok::<Self, BufferSizeError>(self),
                Err(error) => request == Err::<Self, BufferSizeError>(error),
            },
    {
        match check_buffer_size(limits, self.usage, self.contents.size()) {
            Ok(()) => Ok(self),
            Err(error) => Err(error),
        }
    }
}

/// What the elements of a dynamic buffer are.
#[derive(Clone, Copy, PartialEq, Eq, Structural, Debug)]
pub enum DynamicKind {
    Uniform,
    Storage,
}

/// Builds a [`DynamicBuffer`]: `uniform(element_size, count)` or
/// `storage(...)`, then `build(limits)`. The stride is the element size
/// rounded up to the offset alignment that the device requires.
pub struct DynamicBufferBuilder<'a> {
    pub label: Option<&'a str>,
    pub kind: DynamicKind,
    pub element_size: u64,
    pub count: u64,
}

/// A dynamic buffer to be created.
pub struct DynamicBufferRequest<'a> {
    pub buffer: BufferBuilder<'a>,
    pub stride: u64,
    pub element_size: u64,
}

impl DynamicKind {
    /// The usage of a dynamic buffer of this kind.
    pub open spec fn usage(self) -> BufferUsages {
        match self {
            DynamicKind::Uniform => BufferUsages {
                uniform: true,
                copy_dst: true,
                ..BufferUsages::none()
            },
            DynamicKind::Storage => BufferUsages {
                storage: true,
                copy_dst: true,
                ..BufferUsages::none()
            },
        }
    }

    /// The offset alignment that elements of this kind need.
    pub open spec fn alignment(self, limits: Limits) -> u32 {
        match self {
            DynamicKind::Uniform => limits.min_uniform_buffer_offset_alignment,
            DynamicKind::Storage => limits.min_storage_buffer_offset_alignment,
        }
    }
}

impl<'a> DynamicBufferBuilder<'a> {
    /// `count` uniform elements.
    pub fn uniform(element_size: u64, count: u64) -> (builder: Self)
        ensures
            builder == (DynamicBufferBuilder {
                label: None,
                kind: DynamicKind::Uniform,
                element_size,
                count,
            }),
    {
        DynamicBufferBuilder { label: None, kind: DynamicKind::Uniform, element_size, count }
    }

    /// `count` storage elements.
    pub fn storage(element_size: u64, count: u64) -> (builder: Self)
        ensures
            builder == (DynamicBufferBuilder {
                label: None,
                kind: DynamicKind::Storage,
                element_size,
                count,
            }),
    {
        DynamicBufferBuilder { label: None, kind: DynamicKind::Storage, element_size, count }
    }

    pub fn with_label(self, label: Option<&'a str>) -> (builder: Self)
        ensures
            builder == (DynamicBufferBuilder { label, ..self }),
    {
        DynamicBufferBuilder { label, ..self }
    }

    /// How far the elements will be apart.
    pub open spec fn stride(self, limits: Limits) -> int {
        align_up(self.element_size as int, self.kind.alignment(limits) as int)
    }

    /// The device has an alignment, and the size of the buffer is a number of
    /// 64 bits.
    pub open spec fn has_size(self, limits: Limits) -> bool {
        &&& self.kind.alignment(limits) > 0
        &&& self.stride(limits) <= u64::MAX
        &&& self.stride(limits) * self.count <= u64::MAX
    }

    /// Whether the size of the buffer is a number of 64 bits: only then can
    /// it be built.
    pub fn fits(&self, limits: &Limits) -> (fits: bool)
        ensures
            fits == self.has_size(*limits),
    {
        let alignment: u32 = match self.kind {
            DynamicKind::Uniform => limits.min_uniform_buffer_offset_alignment,
            DynamicKind::Storage => limits.min_storage_buffer_offset_alignment,
        };
        if alignment == 0 {
            return false;
        }
        proof {
            law_alignment_rounds_up_to_the_least_multiple(
                self.element_size as int,
                alignment as int,
            );
        }
        let size: u128 = self.element_size as u128;
        let unit: u128 = alignment as u128;
        assert((size + unit - 1) / unit as int * unit <= u128::MAX) by {
            assert(align_up(size as int, unit as int) < size + unit);
        }
        let stride: u128 = (size + unit - 1) / unit * unit;
        if stride > u64::MAX as u128 {
            return false;
        }
        let count: u128 = self.count as u128;
        assert(0 <= stride * count <= 0xffff_ffff_ffff_ffff * 0xffff_ffff_ffff_ffff)
            by (nonlinear_arith)
            requires
                0 <= stride <= 0xffff_ffff_ffff_ffff,
                0 <= count <= 0xffff_ffff_ffff_ffff,
        ;
        stride * count <= u64::MAX as u128
    }

    /// What to create, if the device can hold it.
    pub fn build(self, limits: &Limits) -> (request: Result<
        DynamicBufferRequest<'a>,
        BufferSizeError,
    >)
        requires
            self.has_size(*limits),
        ensures
            match size_verdict(
                *limits,
                self.kind.usage(),
                (self.stride(*limits) * self.count) as u64,
            ) {
                Ok(()) => {
                    &&& request is Ok
                    &&& request->Ok_0.buffer == (BufferBuilder {
                        label: self.label,
                        usage: self.kind.usage(),
                        contents: BufferContents::Empty(
                            (self.stride(*limits) * self.count) as u64,
                        ),
                    })
                    &&& request->Ok_0.stride == self.stride(*limits)
                    &&& request->Ok_0.element_size == self.element_size
                },
                Err(error) => request == Err::<DynamicBufferRequest<'a>, BufferSizeError>(error),
            },
    {
        let (usage, stride) = match self.kind {
            DynamicKind::Uniform => (
                BufferUsages::uniform() | BufferUsages::copy_dst(),
                dynamic_uniform_offset_stride(limits, self.element_size),
            ),
            DynamicKind::Storage => (
                BufferUsages::storage() | BufferUsages::copy_dst(),
                dynamic_storage_offset_stride(limits, self.element_size),
            ),
        };
        match BufferBuilder::empty(stride * self.count).with_label(self.label).with_usage(
            usage,
        ).build(limits) {
            Ok(buffer) => Ok(
                DynamicBufferRequest { buffer, stride, element_size: self.element_size },
            ),
            Err(error) => Err(error),
        }
    }
}

/// `size` rounded up to a multiple of `alignment`.
pub open spec fn align_up(size: int, alignment: int) -> int {
    (size + alignment - 1) / alignment * alignment
}

/// How far uniform elements of this size are apart on a device.
pub fn dynamic_uniform_offset_stride(limits: &Limits, element_size: u64) -> (stride: u64)
    requires
        limits.min_uniform_buffer_offset_alignment > 0,
        align_up(element_size as int, limits.min_uniform_buffer_offset_alignment as int)
            <= u64::MAX,
    ensures
        stride == align_up(
            element_size as int,
            limits.min_uniform_buffer_offset_alignment as int,
        ),
{
    align_to(element_size, limits.min_uniform_buffer_offset_alignment as u64)
}

/// How far storage elements of this size are apart on a device.
pub fn dynamic_storage_offset_stride(limits: &Limits, element_size: u64) -> (stride: u64)
    requires
        limits.min_storage_buffer_offset_alignment > 0,
        align_up(element_size as int, limits.min_storage_buffer_offset_alignment as int)
            <= u64::MAX,
    ensures
        stride == align_up(
            element_size as int,
            limits.min_storage_buffer_offset_alignment as int,
        ),
{
    align_to(element_size, limits.min_storage_buffer_offset_alignment as u64)
}

/// `size` rounded up to a multiple of `alignment`.
pub fn align_to(size: u64, alignment: u64) -> (aligned: u64)
    requires
        alignment > 0,
        align_up(size as int, alignment as int) <= u64::MAX,
    ensures
        aligned == align_up(size as int, alignment as int),
{
    proof {
        lemma_quotient_up(size as int, alignment as int);
    }
    let whole: u64 = size / alignment;
    let blocks: u64 = if size % alignment == 0 {
        whole
    } else {
        whole + 1
    };
    blocks * alignment
}

/// Rounding the quotient up means adding one if there is a remainder.
proof fn lemma_quotient_up(size: int, alignment: int)
    requires
        0 <= size,
        0 < alignment,
    ensures
        (size + alignment - 1) / alignment == size / alignment + if size % alignment == 0 {
            0int
        } else {
            1int
        },
        size / alignment <= size,
        size % alignment != 0 ==> size / alignment < size,
{
    let q = size / alignment;
    let r = size % alignment;
    lemma_fundamental_div_mod(size, alignment);
    assert(size == alignment * q + r);
    if r == 0 {
        assert(size + alignment - 1 == q * alignment + (alignment - 1)) by (nonlinear_arith)
            requires
                size == alignment * q,
        ;
        lemma_fundamental_div_mod_converse(size + alignment - 1, alignment, q, alignment - 1);
    } else {
        assert(size + alignment - 1 == (q + 1) * alignment + (r - 1)) by (nonlinear_arith)
            requires
                size == alignment * q + r,
        ;
        lemma_fundamental_div_mod_converse(size + alignment - 1, alignment, q + 1, r - 1);
    }
    assert(q >= 0) by (nonlinear_arith)
        requires
            q == size / alignment,
            size >= 0,
            alignment > 0,
    ;
    assert(q <= alignment * q) by (nonlinear_arith)
        requires
            q >= 0,
            alignment >= 1,
    ;
}

/// Rounding up gives a multiple of the alignment, no smaller than what is
/// rounded, and less than one alignment larger: the least such multiple.
pub proof fn law_alignment_rounds_up_to_the_least_multiple(size: int, alignment: int)
    requires
        0 <= size,
        0 < alignment,
    ensures
        align_up(size, alignment) % alignment == 0,
        size <= align_up(size, alignment) < size + alignment,
        size % alignment == 0 ==> align_up(size, alignment) == size,
{
    let n = size + alignment - 1;
    lemma_fundamental_div_mod(n, alignment);
    let blocks = n / alignment;
    assert(blocks * alignment == alignment * blocks) by (nonlinear_arith);
    lemma_fundamental_div_mod_converse(blocks * alignment, alignment, blocks, 0);
    lemma_quotient_up(size, alignment);
    lemma_fundamental_div_mod(size, alignment);
    if size % alignment == 0 {
        assert(size / alignment * alignment == alignment * (size / alignment))
            by (nonlinear_arith);
    }
}

/// The elements of a dynamic buffer start at aligned offsets, lie within the
/// buffer, and do not overlap.
pub proof fn law_dynamic_elements_are_disjoint_and_aligned(
    element_size: int,
    alignment: int,
    count: int,
    i: int,
    j: int,
)
    requires
        0 <= element_size,
        0 < alignment,
        0 <= i < count,
        0 <= j < count,
    ensures
        ({
            let stride = align_up(element_size, alignment);
            &&& (i * stride) % alignment == 0
            &&& 0 <= i * stride
            &&& i * stride + element_size <= stride * count
            &&& i < j ==> i * stride + element_size <= j * stride
        }),
{
    law_alignment_rounds_up_to_the_least_multiple(element_size, alignment);
    let blocks = (element_size + alignment - 1) / alignment;
    let stride = align_up(element_size, alignment);
    assert(i * stride == (i * blocks) * alignment) by (nonlinear_arith)
        requires
            stride == blocks * alignment,
    ;
    lemma_fundamental_div_mod_converse(i * stride, alignment, i * blocks, 0);
    assert(0 <= i * stride && i * stride + stride <= stride * count) by (nonlinear_arith)
        requires
            0 <= i,
            i + 1 <= count,
            stride >= 0,
    ;
    if i < j {
        assert(i * stride + stride <= j * stride) by (nonlinear_arith)
            requires
                i + 1 <= j,
                stride >= 0,
        ;
    }
}

// ---------------------------------------------------------------------------
// Bind groups
// ---------------------------------------------------------------------------

/// What is bound: `H`, `V` and `S` are the backend's handles to buffers,
/// texture views and samplers.
pub enum BindingResource<'a, H, V, S> {
    /// A part of a buffer: to its end, without a size.
    Buffer { buffer: &'a H, offset: u64, size: Option<u64> },
    TextureView(&'a V),
    Sampler(&'a S),
}

/// What is bound, and where.
pub struct BindGroupEntry<'a, H, V, S> {
    pub binding: u32,
    pub resource: BindingResource<'a, H, V, S>,
}

/// A whole buffer.
pub open spec fn entire_buffer<'a, H, V, S>(buffer: &'a Buffer<H>) -> BindingResource<
    'a,
    H,
    V,
    S,
> {
    BindingResource::Buffer { buffer: &buffer.handle, offset: 0, size: None }
}

/// The first element of a dynamic buffer: the offset of the element to use is
/// given when the group is set. A size of zero is no size.
pub open spec fn first_element<'a, H, V, S>(buffer: &'a DynamicBuffer<H>) -> BindingResource<
    'a,
    H,
    V,
    S,
> {
    BindingResource::Buffer {
        buffer: &buffer.buffer.handle,
        offset: 0,
        size: if buffer.element_size == 0 {
            None
        } else {
            Some(buffer.element_size)
        },
    }
}

/// The first element of a dynamic buffer.
fn dynamic_buffer_binding<'a, H, V, S>(buffer: &'a DynamicBuffer<H>) -> (resource: BindingResource<
    'a,
    H,
    V,
    S,
>)
    ensures
        resource == first_element::<H, V, S>(buffer),
{
    BindingResource::Buffer {
        buffer: &buffer.buffer.handle,
        offset: 0,
        size: if buffer.element_size == 0 {
            None
        } else {
            Some(buffer.element_size)
        },
    }
}

/// A bind group; `G` is the backend's handle to it.
pub struct BindGroup<G>(pub G);

/// Builds a bind group against a layout: `with_buffer(...)` and the like in
/// binding order, or the `_at(binding, ...)` form to place one explicitly,
/// then `build()`. `L`, `H`, `V` and `S` are the backend's handles to
/// layouts, buffers, texture views and samplers.
pub struct BindGroupBuilder<'a, L, H, V, S> {
    label: Option<&'a str>,
    layout: &'a L,
    entries: Vec<BindGroupEntry<'a, H, V, S>>,
    next_binding: u32,
}

/// What a bind group is made of, and which binding the next resource gets.
#[verifier::ext_equal]
pub struct BindGroupView<'a, L, H, V, S> {
    pub label: Option<&'a str>,
    pub layout: L,
    pub entries: Seq<BindGroupEntry<'a, H, V, S>>,
    pub next_binding: u32,
}

/// A bind group to be created.
pub struct BindGroupRequest<'a, L, H, V, S> {
    pub label: Option<&'a str>,
    pub layout: &'a L,
    pub entries: Vec<BindGroupEntry<'a, H, V, S>>,
}

impl<'a, L, H, V, S> BindGroupView<'a, L, H, V, S> {
    /// `resource` bound at `binding`: the next binding is after every one so
    /// far.
    pub open spec fn bind(self, binding: u32, resource: BindingResource<'a, H, V, S>) -> Self {
        BindGroupView {
            entries: self.entries.push(BindGroupEntry { binding, resource }),
            next_binding: if self.next_binding > binding {
                self.next_binding
            } else {
                (binding + 1) as u32
            },
            ..self
        }
    }

    /// The next binding is after every one so far.
    pub open spec fn next_is_free(self) -> bool {
        forall|i: int|
            0 <= i < self.entries.len() ==> (#[trigger] self.entries[i]).binding
                < self.next_binding
    }
}

impl<'a, L, H, V, S> View for BindGroupBuilder<'a, L, H, V, S> {
    type V = BindGroupView<'a, L, H, V, S>;

    closed spec fn view(&self) -> BindGroupView<'a, L, H, V, S> {
        BindGroupView {
            label: self.label,
            layout: *self.layout,
            entries: self.entries@,
            next_binding: self.next_binding,
        }
    }
}

impl<'a, L, H, V, S> BindGroupBuilder<'a, L, H, V, S> {
    /// A bind group without bindings.
    pub fn new(layout: &'a BindGroupLayout<L>) -> (builder: Self)
        ensures
            builder@ == (BindGroupView::<'a, L, H, V, S> {
                label: None,
                layout: layout.0,
                entries: Seq::empty(),
                next_binding: 0,
            }),
            builder@.next_is_free(),
    {
        let builder = BindGroupBuilder {
            label: None,
            layout: &layout.0,
            entries: Vec::new(),
            next_binding: 0,
        };
        assert(builder@.entries =~= Seq::empty());
        builder
    }

    pub fn with_label(self, label: Option<&'a str>) -> (builder: Self)
        ensures
            builder@ == (BindGroupView { label, ..self@ }),
    {
        BindGroupBuilder { label, ..self }
    }

    /// The binding that the next resource gets.
    pub fn next_binding(&self) -> (binding: u32)
        ensures
            binding == self@.next_binding,
    {
        self.next_binding
    }

    fn bind(self, binding: u32, resource: BindingResource<'a, H, V, S>) -> (builder: Self)
        requires
            binding < u32::MAX,
        ensures
            builder@ == self@.bind(binding, resource),
            self@.next_is_free() ==> builder@.next_is_free(),
    {
        let mut builder = self;
        builder.entries.push(BindGroupEntry { binding, resource });
        if builder.next_binding < binding + 1 {
            builder.next_binding = binding + 1;
        }
        builder
    }

    /// Binds a whole buffer next.
    pub fn with_buffer(self, buffer: &'a Buffer<H>) -> (builder: Self)
        requires
            self@.next_binding < u32::MAX,
        ensures
            builder@ == self@.bind(self@.next_binding, entire_buffer(buffer)),
            self@.next_is_free() ==> builder@.next_is_free(),
    {
        let binding: u32 = self.next_binding;
        self.with_buffer_at(binding, buffer)
    }

    /// Binds a whole buffer at `binding`.
    pub fn with_buffer_at(self, binding: u32, buffer: &'a Buffer<H>) -> (builder: Self)
        requires
            binding < u32::MAX,
        ensures
            builder@ == self@.bind(binding, entire_buffer(buffer)),
            self@.next_is_free() ==> builder@.next_is_free(),
    {
        self.bind(
            binding,
            BindingResource::Buffer { buffer: &buffer.handle, offset: 0, size: None },
        )
    }

    /// Binds one element of a dynamic buffer next.
    pub fn with_dynamic_buffer(self, buffer: &'a DynamicBuffer<H>) -> (builder: Self)
        requires
            self@.next_binding < u32::MAX,
        ensures
            builder@ == self@.bind(self@.next_binding, first_element(buffer)),
            self@.next_is_free() ==> builder@.next_is_free(),
    {
        let binding: u32 = self.next_binding;
        self.with_dynamic_buffer_at(binding, buffer)
    }

    /// Binds one element of a dynamic buffer at `binding`.
    pub fn with_dynamic_buffer_at(self, binding: u32, buffer: &'a DynamicBuffer<H>) -> (builder:
        Self)
        requires
            binding < u32::MAX,
        ensures
            builder@ == self@.bind(binding, first_element(buffer)),
            self@.next_is_free() ==> builder@.next_is_free(),
    {
        let resource = dynamic_buffer_binding(buffer);
        self.bind(binding, resource)
    }

    /// Binds a texture next.
    pub fn with_texture_2d<T>(self, texture: &'a GPUTexture<T, V>) -> (builder: Self)
        requires
            self@.next_binding < u32::MAX,
        ensures
            builder@ == self@.bind(
                self@.next_binding,
                BindingResource::TextureView(&texture.view),
            ),
            self@.next_is_free() ==> builder@.next_is_free(),
    {
        let binding: u32 = self.next_binding;
        self.with_texture_2d_at(binding, texture)
    }

    /// Binds a texture at `binding`.
    pub fn with_texture_2d_at<T>(self, binding: u32, texture: &'a GPUTexture<T, V>) -> (builder: Self)
        requires
            binding < u32::MAX,
        ensures
            builder@ == self@.bind(binding, BindingResource::TextureView(&texture.view)),
            self@.next_is_free() ==> builder@.next_is_free(),
    {
        self.texture_view_raw_at(binding, &texture.view)
    }

    /// Binds a texture array next.
    pub fn with_texture_array(self, texture: &'a GPUTextureArray<V>) -> (builder: Self)
        requires
            self@.next_binding < u32::MAX,
        ensures
            builder@ == self@.bind(
                self@.next_binding,
                BindingResource::TextureView(&texture.view),
            ),
            self@.next_is_free() ==> builder@.next_is_free(),
    {
        let binding: u32 = self.next_binding;
        self.with_texture_array_at(binding, texture)
    }

    /// Binds a texture array at `binding`.
    pub fn with_texture_array_at(self, binding: u32, texture: &'a GPUTextureArray<V>) -> (builder: Self)
        requires
            binding < u32::MAX,
        ensures
            builder@ == self@.bind(binding, BindingResource::TextureView(&texture.view)),
            self@.next_is_free() ==> builder@.next_is_free(),
    {
        self.texture_view_raw_at(binding, &texture.view)
    }

    /// Binds a cubemap next.
    pub fn with_texture_cubemap(self, texture: &'a GPUCubemap<V>) -> (builder: Self)
        requires
            self@.next_binding < u32::MAX,
        ensures
            builder@ == self@.bind(
                self@.next_binding,
                BindingResource::TextureView(&texture.view),
            ),
            self@.next_is_free() ==> builder@.next_is_free(),
    {
        let binding: u32 = self.next_binding;
        self.with_texture_cubemap_at(binding, texture)
    }

    /// Binds a cubemap at `binding`.
    pub fn with_texture_cubemap_at(self, binding: u32, texture: &'a GPUCubemap<V>) -> (builder: Self)
        requires
            binding < u32::MAX,
        ensures
            builder@ == self@.bind(binding, BindingResource::TextureView(&texture.view)),
            self@.next_is_free() ==> builder@.next_is_free(),
    {
        self.texture_view_raw_at(binding, &texture.view)
    }

    /// Binds a texture view next.
    pub fn with_texture_view(self, view: &'a TextureView<V>) -> (builder: Self)
        requires
            self@.next_binding < u32::MAX,
        ensures
            builder@ == self@.bind(
                self@.next_binding,
                BindingResource::TextureView(&view.0),
            ),
            self@.next_is_free() ==> builder@.next_is_free(),
    {
        let binding: u32 = self.next_binding;
        self.with_texture_view_at(binding, view)
    }

    /// Binds a texture view at `binding`.
    pub fn with_texture_view_at(self, binding: u32, view: &'a TextureView<V>) -> (builder: Self)
        requires
            binding < u32::MAX,
        ensures
            builder@ == self@.bind(binding, BindingResource::TextureView(&view.0)),
            self@.next_is_free() ==> builder@.next_is_free(),
    {
        self.texture_view_raw_at(binding, &view.0)
    }

    /// Binds a texture view at `binding`, by the backend's handle.
    pub fn texture_view_raw_at(self, binding: u32, view: &'a V) -> (builder: Self)
        requires
            binding < u32::MAX,
        ensures
            builder@ == self@.bind(binding, BindingResource::TextureView(view)),
            self@.next_is_free() ==> builder@.next_is_free(),
    {
        self.bind(binding, BindingResource::TextureView(view))
    }

    /// Binds a sampler next.
    pub fn with_sampler(self, sampler: &'a Sampler<S>) -> (builder: Self)
        requires
            self@.next_binding < u32::MAX,
        ensures
            builder@ == self@.bind(self@.next_binding, BindingResource::Sampler(&sampler.0)),
            self@.next_is_free() ==> builder@.next_is_free(),
    {
        let binding: u32 = self.next_binding;
        self.with_sampler_at(binding, sampler)
    }

    /// Binds a sampler at `binding`.
    pub fn with_sampler_at(self, binding: u32, sampler: &'a Sampler<S>) -> (builder: Self)
        requires
            binding < u32::MAX,
        ensures
            builder@ == self@.bind(binding, BindingResource::Sampler(&sampler.0)),
            self@.next_is_free() ==> builder@.next_is_free(),
    {
        self.bind(binding, BindingResource::Sampler(&sampler.0))
    }

    /// What to create.
    pub fn build(self) -> (request: BindGroupRequest<'a, L, H, V, S>)
        ensures
            request.label == self@.label,
            *request.layout == self@.layout,
            request.entries@ == self@.entries,
    {
        BindGroupRequest { label: self.label, layout: self.layout, entries: self.entries }
    }
}

/// Resources that are bound without naming a binding never share one with a
/// resource bound before, and count up from it.
pub proof fn law_bindings_count_up<'a, L, H, V, S>(
    group: BindGroupView<'a, L, H, V, S>,
    first: BindingResource<'a, H, V, S>,
    second: BindingResource<'a, H, V, S>,
)
    requires
        group.next_is_free(),
        group.next_binding < u32::MAX - 1,
    ensures
        ({
            let one = group.bind(group.next_binding, first);
            let two = one.bind(one.next_binding, second);
            &&& one.next_binding == group.next_binding + 1
            &&& two.next_binding == group.next_binding + 2
            &&& two.entries == group.entries.push(
                BindGroupEntry { binding: group.next_binding, resource: first },
            ).push(
                BindGroupEntry { binding: (group.next_binding + 1) as u32, resource: second },
            )
            &&& forall|i: int|
                0 <= i < group.entries.len() ==> (#[trigger] group.entries[i]).binding
                    != group.next_binding
        }),
{
}

/// A device can hold a buffer exactly if it is within the limit on buffers,
/// and within those on uniform and on storage bindings where it is used as
/// such. A refusal says by how much, and which limit was the first to be
/// exceeded.
pub proof fn law_a_buffer_must_be_within_each_limit(
    limits: Limits,
    usage: BufferUsages,
    size: u64,
)
    ensures
        size_verdict(limits, usage, size) is Ok <==> {
            &&& size <= limits.max_buffer_size
            &&& usage.uniform ==> size <= limits.max_uniform_buffer_binding_size
            &&& usage.storage ==> size <= limits.max_storage_buffer_binding_size
        },
        size > limits.max_buffer_size ==> size_verdict(limits, usage, size) == Err::<
            (),
            BufferSizeError,
        >(BufferSizeError::Buffer { size, max: limits.max_buffer_size }),
        size <= limits.max_buffer_size && usage.uniform && size
            > limits.max_uniform_buffer_binding_size ==> size_verdict(limits, usage, size) == Err::<
            (),
            BufferSizeError,
        >(BufferSizeError::Uniform { size, max: limits.max_uniform_buffer_binding_size }),
        size <= limits.max_buffer_size && !(usage.uniform && size
            > limits.max_uniform_buffer_binding_size) && usage.storage && size
            > limits.max_storage_buffer_binding_size ==> size_verdict(limits, usage, size) == Err::<
            (),
            BufferSizeError,
        >(BufferSizeError::Storage { size, max: limits.max_storage_buffer_binding_size }),
{
}

/// A smaller buffer fits wherever a larger one of the same usage does, and so
/// does one with fewer uses.
pub proof fn law_what_is_smaller_fits_too(
    limits: Limits,
    usage: BufferUsages,
    size: u64,
    fewer: BufferUsages,
    smaller: u64,
)
    requires
        size_verdict(limits, usage, size) is Ok,
        smaller <= size,
        usage.allows(fewer),
    ensures
        size_verdict(limits, fewer, smaller) is Ok,
{
}

/// A buffer that is empty at first is as large as said, one with data as large
/// as the data.
pub proof fn law_contents_have_their_size(size: u64, data: &[u8])
    ensures
        BufferContents::Empty(size).bytes() == size,
        BufferContents::Data(data).bytes() == data@.len(),
{
}

/// A dynamic buffer can be written from the CPU, is used as what it is for
/// and as nothing else, and is aligned as the device asks for that use.
pub proof fn law_a_dynamic_buffer_is_used_as_its_kind(limits: Limits)
    ensures
        DynamicKind::Uniform.usage() == (BufferUsages {
            map_read: false,
            map_write: false,
            copy_src: false,
            copy_dst: true,
            index: false,
            vertex: false,
            uniform: true,
            storage: false,
            indirect: false,
            query_resolve: false,
        }),
        DynamicKind::Storage.usage() == (BufferUsages {
            map_read: false,
            map_write: false,
            copy_src: false,
            copy_dst: true,
            index: false,
            vertex: false,
            uniform: false,
            storage: true,
            indirect: false,
            query_resolve: false,
        }),
        DynamicKind::Uniform.alignment(limits) == limits.min_uniform_buffer_offset_alignment,
        DynamicKind::Storage.alignment(limits) == limits.min_storage_buffer_offset_alignment,
{
}

/// The elements of a dynamic buffer are the element size apart, rounded up to
/// the least multiple of the alignment of their kind, and the buffer can be
/// built exactly if there is an alignment and all elements together have a
/// size of 64 bits.
pub proof fn law_elements_are_a_least_aligned_stride_apart<'a>(
    builder: DynamicBufferBuilder<'a>,
    limits: Limits,
)
    requires
        builder.kind.alignment(limits) > 0,
    ensures
        ({
            let alignment = match builder.kind {
                DynamicKind::Uniform => limits.min_uniform_buffer_offset_alignment as int,
                DynamicKind::Storage => limits.min_storage_buffer_offset_alignment as int,
            };
            let stride = builder.stride(limits);
            &&& stride % alignment == 0
            &&& builder.element_size <= stride < builder.element_size + alignment
            &&& builder.has_size(limits) <==> stride < 0x1_0000_0000_0000_0000 && stride
                * builder.count < 0x1_0000_0000_0000_0000
        }),
{
    law_alignment_rounds_up_to_the_least_multiple(
        builder.element_size as int,
        builder.kind.alignment(limits) as int,
    );
}

/// A binding is added at the end, where it was asked for, and nothing bound
/// before changes. The next binding moves behind it, and never back.
pub proof fn law_binding_adds_one_entry<'a, L, H, V, S>(
    group: BindGroupView<'a, L, H, V, S>,
    binding: u32,
    resource: BindingResource<'a, H, V, S>,
)
    requires
        binding < u32::MAX,
    ensures
        ({
            let after = group.bind(binding, resource);
            &&& after.entries.len() == group.entries.len() + 1
            &&& after.entries.drop_last() == group.entries
            &&& after.entries.last().binding == binding
            &&& after.entries.last().resource == resource
            &&& after.next_binding >= group.next_binding
            &&& after.next_binding > binding
            &&& after.next_binding == group.next_binding || after.next_binding == binding + 1
            &&& after.label == group.label
            &&& after.layout == group.layout
            &&& group.next_is_free() ==> after.next_is_free()
        }),
{
    let after = group.bind(binding, resource);
    assert(after.entries.drop_last() =~= group.entries);
    if group.next_is_free() {
        assert forall|i: int| 0 <= i < after.entries.len() implies (
        #[trigger] after.entries[i]).binding < after.next_binding by {
            if i < group.entries.len() {
                assert(group.entries[i].binding < group.next_binding);
            }
        }
    }
}

/// The next binding is free exactly if no resource is bound at it or after.
pub proof fn law_the_next_binding_is_free<'a, L, H, V, S>(
    group: BindGroupView<'a, L, H, V, S>,
    i: int,
)
    requires
        group.next_is_free(),
        0 <= i < group.entries.len(),
    ensures
        group.entries[i].binding < group.next_binding,
{
}

/// A buffer is bound whole; of a dynamic buffer one element is, from its
/// start, unless an element has no size.
pub proof fn law_what_is_bound_of_a_buffer<'a, H, V, S>(
    buffer: &'a Buffer<H>,
    dynamic: &'a DynamicBuffer<H>,
)
    ensures
        match entire_buffer::<H, V, S>(buffer) {
            BindingResource::Buffer { buffer: bound, offset, size } => {
                &&& *bound == buffer.handle
                &&& offset == 0
                &&& size is None
            },
            _ => false,
        },
        match first_element::<H, V, S>(dynamic) {
            BindingResource::Buffer { buffer: bound, offset, size } => {
                &&& *bound == dynamic.buffer.handle
                &&& offset == 0
                &&& dynamic.element_size > 0 ==> size == Some(dynamic.element_size)
                &&& dynamic.element_size == 0 ==> size is None
            },
            _ => false,
        },
{
}

// ---------------------------------------------------------------------------
// Laws of the operations
// ---------------------------------------------------------------------------

/// A write goes to the buffer itself, at the offset that is given or from the
/// start, with the data that is given. An element is written where it lies.
pub proof fn law_writes_go_where_they_are_sent<'a, H>(
    buffer: &'a Buffer<H>,
    dynamic: &'a DynamicBuffer<H>,
    offset: u64,
    index: u64,
    data: &'a [u8],
    whole: BufferWrite<'a, H>,
    part: BufferWrite<'a, H>,
    element: BufferWrite<'a, H>,
)
    requires
        call_ensures(Buffer::<H>::write, (buffer, data), whole),
        call_ensures(Buffer::<H>::write_at, (buffer, offset, data), part),
        call_ensures(DynamicBuffer::<H>::write_element, (dynamic, index, data), element),
    ensures
        *whole.buffer == buffer.handle,
        whole.offset == 0,
        whole.data == data,
        *part.buffer == buffer.handle,
        part.offset == offset,
        part.data == data,
        *element.buffer == dynamic.buffer.handle,
        element.offset == index * dynamic.stride,
        element.data == data,
{
}

/// A buffer can be read back exactly if it can be copied from, and all of it
/// is, through a buffer that can be copied to and mapped. It can be mapped
/// itself exactly if it is made for that.
pub proof fn law_what_can_be_read_back<H>(
    buffer: &Buffer<H>,
    plan: Result<ReadPlan, MissingUsage>,
    mapped: Result<(), MissingUsage>,
    size: u64,
)
    requires
        call_ensures(Buffer::<H>::read, (buffer,), plan),
        call_ensures(Buffer::<H>::map_read, (buffer,), mapped),
        call_ensures(Buffer::<H>::size, (buffer,), size),
    ensures
        size == buffer.size,
        plan is Ok <==> buffer.usage.copy_src,
        plan matches Ok(read) ==> {
            &&& read.size == buffer.size
            &&& read.source_offset == 0
            &&& read.staging_offset == 0
            &&& read.staging_usage.map_read
            &&& read.staging_usage.copy_dst
            &&& !read.staging_usage.copy_src
            &&& !read.staging_usage.map_write
            &&& !read.staging_usage.uniform
            &&& !read.staging_usage.storage
        },
        plan matches Err(missing) ==> missing.needed.copy_src,
        mapped is Ok <==> buffer.usage.map_read,
        mapped matches Err(missing) ==> missing.needed.map_read,
{
}

/// A buffer is built exactly if the device can hold it, and then as it was
/// described.
pub proof fn law_a_buffer_is_built_within_the_limits<'a>(
    builder: BufferBuilder<'a>,
    limits: &Limits,
    request: Result<BufferBuilder<'a>, BufferSizeError>,
    checked: Result<(), BufferSizeError>,
    size: u64,
)
    requires
        call_ensures(BufferContents::<'a>::size, (&builder.contents,), size),
        call_ensures(BufferBuilder::<'a>::build, (builder, limits), request),
        call_ensures(check_buffer_size, (limits, builder.usage, size), checked),
    ensures
        request is Ok <==> {
            &&& size <= limits.max_buffer_size
            &&& builder.usage.uniform ==> size <= limits.max_uniform_buffer_binding_size
            &&& builder.usage.storage ==> size <= limits.max_storage_buffer_binding_size
        },
        request matches Ok(built) ==> built == builder,
        checked is Ok <==> request is Ok,
        request is Err ==> request->Err_0 == checked->Err_0,
        size > limits.max_buffer_size ==> request is Err && request->Err_0 == (
        BufferSizeError::Buffer { size, max: limits.max_buffer_size }),
        size <= limits.max_buffer_size && builder.usage.uniform && size
            > limits.max_uniform_buffer_binding_size ==> request is Err && request->Err_0 == (
        BufferSizeError::Uniform { size, max: limits.max_uniform_buffer_binding_size }),
{
}

/// A buffer is described by its size or its data, has no label and no use at
/// first, and the settings that are given to it change one thing each.
pub proof fn law_how_a_buffer_is_described<'a>(
    size: u64,
    data: &'a [u8],
    label: Option<&'a str>,
    usage: BufferUsages,
    empty: BufferBuilder<'a>,
    filled: BufferBuilder<'a>,
    labelled: BufferBuilder<'a>,
    used: BufferBuilder<'a>,
    uniform: BufferBuilder<'a>,
    storage: BufferBuilder<'a>,
)
    requires
        call_ensures(BufferBuilder::<'a>::empty, (size,), empty),
        call_ensures(BufferBuilder::<'a>::with_data, (data,), filled),
        call_ensures(BufferBuilder::<'a>::with_label, (filled, label), labelled),
        call_ensures(BufferBuilder::<'a>::with_usage, (filled, usage), used),
        call_ensures(BufferBuilder::<'a>::with_uniform, (filled,), uniform),
        call_ensures(BufferBuilder::<'a>::with_storage, (filled,), storage),
    ensures
        empty.contents.bytes() == size,
        filled.contents.bytes() == data@.len(),
        filled.contents == BufferContents::Data(data),
        empty.label is None,
        filled.label is None,
        !empty.usage.uniform && !empty.usage.storage && !empty.usage.copy_dst,
        empty.usage == filled.usage,
        labelled.label == label,
        labelled.usage == filled.usage,
        labelled.contents == filled.contents,
        used.usage == usage,
        used.label == filled.label,
        used.contents == filled.contents,
        uniform.usage.uniform && uniform.usage.copy_dst && !uniform.usage.storage,
        uniform.contents == filled.contents,
        storage.usage.storage && storage.usage.copy_dst && !storage.usage.uniform,
        storage.contents == filled.contents,
{
}

/// A dynamic buffer has room for every element, each at a multiple of the
/// stride, which is the least multiple of the alignment of its kind that holds
/// an element. It is built exactly if the device can hold all of it.
pub proof fn law_a_dynamic_buffer_has_room_for_every_element<'a>(
    builder: DynamicBufferBuilder<'a>,
    limits: &Limits,
    request: Result<DynamicBufferRequest<'a>, BufferSizeError>,
    i: int,
    j: int,
)
    requires
        builder.has_size(*limits),
        call_ensures(DynamicBufferBuilder::<'a>::build, (builder, limits), request),
    ensures
        ({
            let alignment = match builder.kind {
                DynamicKind::Uniform => limits.min_uniform_buffer_offset_alignment as int,
                DynamicKind::Storage => limits.min_storage_buffer_offset_alignment as int,
            };
            request matches Ok(built) ==> {
                &&& built.stride as int % alignment == 0
                &&& builder.element_size <= built.stride < builder.element_size + alignment
                &&& built.element_size == builder.element_size
                &&& built.buffer.label == builder.label
                &&& built.buffer.contents.bytes() == built.stride * builder.count
                &&& built.buffer.usage.copy_dst
                &&& built.buffer.usage.uniform <==> builder.kind is Uniform
                &&& built.buffer.usage.storage <==> builder.kind is Storage
                &&& 0 <= i < j < builder.count ==> i * built.stride + builder.element_size <= j
                    * built.stride && j * built.stride + builder.element_size
                    <= built.buffer.contents.bytes()
            }
        }),
        request is Ok <==> {
            let size = builder.stride(*limits) * builder.count;
            &&& size <= limits.max_buffer_size
            &&& builder.kind is Uniform ==> size <= limits.max_uniform_buffer_binding_size
            &&& builder.kind is Storage ==> size <= limits.max_storage_buffer_binding_size
        },
{
    law_elements_are_a_least_aligned_stride_apart(builder, *limits);
    if 0 <= i < j < builder.count {
        law_dynamic_elements_are_disjoint_and_aligned(
            builder.element_size as int,
            builder.kind.alignment(*limits) as int,
            builder.count as int,
            i,
            j,
        );
        law_dynamic_elements_are_disjoint_and_aligned(
            builder.element_size as int,
            builder.kind.alignment(*limits) as int,
            builder.count as int,
            j,
            i,
        );
    }
}

/// A dynamic buffer is described by the size and the number of its elements.
pub proof fn law_how_a_dynamic_buffer_is_described<'a>(
    element_size: u64,
    count: u64,
    label: Option<&'a str>,
    uniform: DynamicBufferBuilder<'a>,
    storage: DynamicBufferBuilder<'a>,
    labelled: DynamicBufferBuilder<'a>,
    fits: bool,
    limits: &Limits,
)
    requires
        call_ensures(DynamicBufferBuilder::<'a>::uniform, (element_size, count), uniform),
        call_ensures(DynamicBufferBuilder::<'a>::storage, (element_size, count), storage),
        call_ensures(DynamicBufferBuilder::<'a>::with_label, (uniform, label), labelled),
        call_ensures(DynamicBufferBuilder::<'a>::fits, (&uniform, limits), fits),
    ensures
        uniform.kind is Uniform,
        storage.kind is Storage,
        uniform.element_size == element_size,
        storage.element_size == element_size,
        uniform.count == count,
        storage.count == count,
        uniform.label is None,
        storage.label is None,
        labelled.label == label,
        labelled.kind is Uniform,
        labelled.element_size == element_size,
        labelled.count == count,
        limits.min_uniform_buffer_offset_alignment == 0 ==> !fits,
        limits.min_uniform_buffer_offset_alignment > 0 ==> (fits <==> uniform.stride(*limits)
            <= u64::MAX && uniform.stride(*limits) * count <= u64::MAX),
{
}

/// Rounding up gives the least multiple of the alignment that is not smaller;
/// the strides of a device are such multiples of its alignments.
pub proof fn law_rounding_up(
    size: u64,
    alignment: u64,
    aligned: u64,
    limits: &Limits,
    uniform: u64,
    storage: u64,
)
    requires
        alignment > 0,
        limits.min_uniform_buffer_offset_alignment > 0,
        limits.min_storage_buffer_offset_alignment > 0,
        call_ensures(align_to, (size, alignment), aligned),
        call_ensures(dynamic_uniform_offset_stride, (limits, size), uniform),
        call_ensures(dynamic_storage_offset_stride, (limits, size), storage),
    ensures
        aligned as int % alignment as int == 0,
        size <= aligned < size + alignment,
        uniform as int % limits.min_uniform_buffer_offset_alignment as int == 0,
        size <= uniform < size + limits.min_uniform_buffer_offset_alignment,
        storage as int % limits.min_storage_buffer_offset_alignment as int == 0,
        size <= storage < size + limits.min_storage_buffer_offset_alignment,
{
    law_alignment_rounds_up_to_the_least_multiple(size as int, alignment as int);
    law_alignment_rounds_up_to_the_least_multiple(
        size as int,
        limits.min_uniform_buffer_offset_alignment as int,
    );
    law_alignment_rounds_up_to_the_least_multiple(
        size as int,
        limits.min_storage_buffer_offset_alignment as int,
    );
}

/// See [`BindGroupBuilder::with_buffer`]: what is bound comes last, at the next
/// binding or at the one that is given, and what was bound before stays.
pub proof fn law_with_buffer_adds_one_binding<'a, L, H, V, S>(
    builder: BindGroupBuilder<'a, L, H, V, S>,
    resource: &'a Buffer<H>,
    binding: u32,
    next: BindGroupBuilder<'a, L, H, V, S>,
    placed: BindGroupBuilder<'a, L, H, V, S>,
)
    requires
        call_ensures(BindGroupBuilder::<'a, L, H, V, S>::with_buffer, (builder, resource), next),
        call_ensures(
            BindGroupBuilder::<'a, L, H, V, S>::with_buffer_at,
            (builder, binding, resource),
            placed,
        ),
        builder@.next_binding < u32::MAX,
        binding < u32::MAX,
    ensures
        next@.entries.len() == builder@.entries.len() + 1,
        next@.entries.drop_last() == builder@.entries,
        next@.entries.last().binding == builder@.next_binding,
        next@.next_binding == builder@.next_binding + 1,
        placed@.entries.len() == builder@.entries.len() + 1,
        placed@.entries.drop_last() == builder@.entries,
        placed@.entries.last().binding == binding,
        placed@.next_binding > binding,
        placed@.next_binding >= builder@.next_binding,
        placed@.next_binding == builder@.next_binding || placed@.next_binding == binding + 1,
        next@.layout == builder@.layout,
        placed@.layout == builder@.layout,
        next@.label == builder@.label,
        placed@.label == builder@.label,
        next@.entries.last().resource == placed@.entries.last().resource,
        match next@.entries.last().resource {
            BindingResource::Buffer { buffer, offset, size } => *buffer == resource.handle
                && offset == 0 && size is None,
            _ => false,
        },
{
    assert(next@.entries.drop_last() =~= builder@.entries);
    assert(placed@.entries.drop_last() =~= builder@.entries);
}

/// See [`BindGroupBuilder::with_dynamic_buffer`]: what is bound comes last, at the next
/// binding or at the one that is given, and what was bound before stays.
pub proof fn law_with_dynamic_buffer_adds_one_binding<'a, L, H, V, S>(
    builder: BindGroupBuilder<'a, L, H, V, S>,
    resource: &'a DynamicBuffer<H>,
    binding: u32,
    next: BindGroupBuilder<'a, L, H, V, S>,
    placed: BindGroupBuilder<'a, L, H, V, S>,
)
    requires
        call_ensures(BindGroupBuilder::<'a, L, H, V, S>::with_dynamic_buffer, (builder, resource), next),
        call_ensures(
            BindGroupBuilder::<'a, L, H, V, S>::with_dynamic_buffer_at,
            (builder, binding, resource),
            placed,
        ),
        builder@.next_binding < u32::MAX,
        binding < u32::MAX,
    ensures
        next@.entries.len() == builder@.entries.len() + 1,
        next@.entries.drop_last() == builder@.entries,
        next@.entries.last().binding == builder@.next_binding,
        next@.next_binding == builder@.next_binding + 1,
        placed@.entries.len() == builder@.entries.len() + 1,
        placed@.entries.drop_last() == builder@.entries,
        placed@.entries.last().binding == binding,
        placed@.next_binding > binding,
        placed@.next_binding >= builder@.next_binding,
        placed@.next_binding == builder@.next_binding || placed@.next_binding == binding + 1,
        next@.layout == builder@.layout,
        placed@.layout == builder@.layout,
        next@.label == builder@.label,
        placed@.label == builder@.label,
        next@.entries.last().resource == placed@.entries.last().resource,
        match next@.entries.last().resource {
            BindingResource::Buffer { buffer, offset, size } => {
                &&& *buffer == resource.buffer.handle
                &&& offset == 0
                &&& resource.element_size > 0 ==> size == Some(resource.element_size)
                &&& resource.element_size == 0 ==> size is None
            },
            _ => false,
        },
{
    assert(next@.entries.drop_last() =~= builder@.entries);
    assert(placed@.entries.drop_last() =~= builder@.entries);
}

/// See [`BindGroupBuilder::with_texture_2d`]: what is bound comes last, at the next
/// binding or at the one that is given, and what was bound before stays.
pub proof fn law_with_texture_2d_adds_one_binding<'a, L, H, V, S, T>(
    builder: BindGroupBuilder<'a, L, H, V, S>,
    resource: &'a GPUTexture<T, V>,
    binding: u32,
    next: BindGroupBuilder<'a, L, H, V, S>,
    placed: BindGroupBuilder<'a, L, H, V, S>,
)
    requires
        call_ensures(BindGroupBuilder::<'a, L, H, V, S>::with_texture_2d::<T>, (builder, resource), next),
        call_ensures(
            BindGroupBuilder::<'a, L, H, V, S>::with_texture_2d_at::<T>,
            (builder, binding, resource),
            placed,
        ),
        builder@.next_binding < u32::MAX,
        binding < u32::MAX,
    ensures
        next@.entries.len() == builder@.entries.len() + 1,
        next@.entries.drop_last() == builder@.entries,
        next@.entries.last().binding == builder@.next_binding,
        next@.next_binding == builder@.next_binding + 1,
        placed@.entries.len() == builder@.entries.len() + 1,
        placed@.entries.drop_last() == builder@.entries,
        placed@.entries.last().binding == binding,
        placed@.next_binding > binding,
        placed@.next_binding >= builder@.next_binding,
        placed@.next_binding == builder@.next_binding || placed@.next_binding == binding + 1,
        next@.layout == builder@.layout,
        placed@.layout == builder@.layout,
        next@.label == builder@.label,
        placed@.label == builder@.label,
        next@.entries.last().resource == placed@.entries.last().resource,
        match next@.entries.last().resource {
            BindingResource::TextureView(view) => *view == resource.view,
            _ => false,
        },
{
    assert(next@.entries.drop_last() =~= builder@.entries);
    assert(placed@.entries.drop_last() =~= builder@.entries);
}

/// See [`BindGroupBuilder::with_texture_array`]: what is bound comes last, at the next
/// binding or at the one that is given, and what was bound before stays.
pub proof fn law_with_texture_array_adds_one_binding<'a, L, H, V, S>(
    builder: BindGroupBuilder<'a, L, H, V, S>,
    resource: &'a GPUTextureArray<V>,
    binding: u32,
    next: BindGroupBuilder<'a, L, H, V, S>,
    placed: BindGroupBuilder<'a, L, H, V, S>,
)
    requires
        call_ensures(BindGroupBuilder::<'a, L, H, V, S>::with_texture_array, (builder, resource), next),
        call_ensures(
            BindGroupBuilder::<'a, L, H, V, S>::with_texture_array_at,
            (builder, binding, resource),
            placed,
        ),
        builder@.next_binding < u32::MAX,
        binding < u32::MAX,
    ensures
        next@.entries.len() == builder@.entries.len() + 1,
        next@.entries.drop_last() == builder@.entries,
        next@.entries.last().binding == builder@.next_binding,
        next@.next_binding == builder@.next_binding + 1,
        placed@.entries.len() == builder@.entries.len() + 1,
        placed@.entries.drop_last() == builder@.entries,
        placed@.entries.last().binding == binding,
        placed@.next_binding > binding,
        placed@.next_binding >= builder@.next_binding,
        placed@.next_binding == builder@.next_binding || placed@.next_binding == binding + 1,
        next@.layout == builder@.layout,
        placed@.layout == builder@.layout,
        next@.label == builder@.label,
        placed@.label == builder@.label,
        next@.entries.last().resource == placed@.entries.last().resource,
        match next@.entries.last().resource {
            BindingResource::TextureView(view) => *view == resource.view,
            _ => false,
        },
{
    assert(next@.entries.drop_last() =~= builder@.entries);
    assert(placed@.entries.drop_last() =~= builder@.entries);
}

/// See [`BindGroupBuilder::with_texture_cubemap`]: what is bound comes last, at the next
/// binding or at the one that is given, and what was bound before stays.
pub proof fn law_with_texture_cubemap_adds_one_binding<'a, L, H, V, S>(
    builder: BindGroupBuilder<'a, L, H, V, S>,
    resource: &'a GPUCubemap<V>,
    binding: u32,
    next: BindGroupBuilder<'a, L, H, V, S>,
    placed: BindGroupBuilder<'a, L, H, V, S>,
)
    requires
        call_ensures(BindGroupBuilder::<'a, L, H, V, S>::with_texture_cubemap, (builder, resource), next),
        call_ensures(
            BindGroupBuilder::<'a, L, H, V, S>::with_texture_cubemap_at,
            (builder, binding, resource),
            placed,
        ),
        builder@.next_binding < u32::MAX,
        binding < u32::MAX,
    ensures
        next@.entries.len() == builder@.entries.len() + 1,
        next@.entries.drop_last() == builder@.entries,
        next@.entries.last().binding == builder@.next_binding,
        next@.next_binding == builder@.next_binding + 1,
        placed@.entries.len() == builder@.entries.len() + 1,
        placed@.entries.drop_last() == builder@.entries,
        placed@.entries.last().binding == binding,
        placed@.next_binding > binding,
        placed@.next_binding >= builder@.next_binding,
        placed@.next_binding == builder@.next_binding || placed@.next_binding == binding + 1,
        next@.layout == builder@.layout,
        placed@.layout == builder@.layout,
        next@.label == builder@.label,
        placed@.label == builder@.label,
        next@.entries.last().resource == placed@.entries.last().resource,
        match next@.entries.last().resource {
            BindingResource::TextureView(view) => *view == resource.view,
            _ => false,
        },
{
    assert(next@.entries.drop_last() =~= builder@.entries);
    assert(placed@.entries.drop_last() =~= builder@.entries);
}

/// See [`BindGroupBuilder::with_texture_view`]: what is bound comes last, at the next
/// binding or at the one that is given, and what was bound before stays.
pub proof fn law_with_texture_view_adds_one_binding<'a, L, H, V, S>(
    builder: BindGroupBuilder<'a, L, H, V, S>,
    resource: &'a TextureView<V>,
    binding: u32,
    next: BindGroupBuilder<'a, L, H, V, S>,
    placed: BindGroupBuilder<'a, L, H, V, S>,
)
    requires
        call_ensures(BindGroupBuilder::<'a, L, H, V, S>::with_texture_view, (builder, resource), next),
        call_ensures(
            BindGroupBuilder::<'a, L, H, V, S>::with_texture_view_at,
            (builder, binding, resource),
            placed,
        ),
        builder@.next_binding < u32::MAX,
        binding < u32::MAX,
    ensures
        next@.entries.len() == builder@.entries.len() + 1,
        next@.entries.drop_last() == builder@.entries,
        next@.entries.last().binding == builder@.next_binding,
        next@.next_binding == builder@.next_binding + 1,
        placed@.entries.len() == builder@.entries.len() + 1,
        placed@.entries.drop_last() == builder@.entries,
        placed@.entries.last().binding == binding,
        placed@.next_binding > binding,
        placed@.next_binding >= builder@.next_binding,
        placed@.next_binding == builder@.next_binding || placed@.next_binding == binding + 1,
        next@.layout == builder@.layout,
        placed@.layout == builder@.layout,
        next@.label == builder@.label,
        placed@.label == builder@.label,
        next@.entries.last().resource == placed@.entries.last().resource,
        match next@.entries.last().resource {
            BindingResource::TextureView(view) => *view == resource.0,
            _ => false,
        },
{
    assert(next@.entries.drop_last() =~= builder@.entries);
    assert(placed@.entries.drop_last() =~= builder@.entries);
}

/// See [`BindGroupBuilder::with_sampler`]: what is bound comes last, at the next
/// binding or at the one that is given, and what was bound before stays.
pub proof fn law_with_sampler_adds_one_binding<'a, L, H, V, S>(
    builder: BindGroupBuilder<'a, L, H, V, S>,
    resource: &'a Sampler<S>,
    binding: u32,
    next: BindGroupBuilder<'a, L, H, V, S>,
    placed: BindGroupBuilder<'a, L, H, V, S>,
)
    requires
        call_ensures(BindGroupBuilder::<'a, L, H, V, S>::with_sampler, (builder, resource), next),
        call_ensures(
            BindGroupBuilder::<'a, L, H, V, S>::with_sampler_at,
            (builder, binding, resource),
            placed,
        ),
        builder@.next_binding < u32::MAX,
        binding < u32::MAX,
    ensures
        next@.entries.len() == builder@.entries.len() + 1,
        next@.entries.drop_last() == builder@.entries,
        next@.entries.last().binding == builder@.next_binding,
        next@.next_binding == builder@.next_binding + 1,
        placed@.entries.len() == builder@.entries.len() + 1,
        placed@.entries.drop_last() == builder@.entries,
        placed@.entries.last().binding == binding,
        placed@.next_binding > binding,
        placed@.next_binding >= builder@.next_binding,
        placed@.next_binding == builder@.next_binding || placed@.next_binding == binding + 1,
        next@.layout == builder@.layout,
        placed@.layout == builder@.layout,
        next@.label == builder@.label,
        placed@.label == builder@.label,
        next@.entries.last().resource == placed@.entries.last().resource,
        match next@.entries.last().resource {
            BindingResource::Sampler(sampler) => *sampler == resource.0,
            _ => false,
        },
{
    assert(next@.entries.drop_last() =~= builder@.entries);
    assert(placed@.entries.drop_last() =~= builder@.entries);
}

/// A bind group is built from everything that was bound, in the order of
/// binding, against its layout and under its label; it starts with nothing.
pub proof fn law_a_bind_group_is_built_from_what_was_bound<'a, L, H, V, S>(
    layout: &'a BindGroupLayout<L>,
    empty: BindGroupBuilder<'a, L, H, V, S>,
    builder: BindGroupBuilder<'a, L, H, V, S>,
    label: Option<&'a str>,
    labelled: BindGroupBuilder<'a, L, H, V, S>,
    request: BindGroupRequest<'a, L, H, V, S>,
    next: u32,
)
    requires
        call_ensures(BindGroupBuilder::<'a, L, H, V, S>::new, (layout,), empty),
        call_ensures(BindGroupBuilder::<'a, L, H, V, S>::with_label, (builder, label), labelled),
        call_ensures(BindGroupBuilder::<'a, L, H, V, S>::build, (builder,), request),
        call_ensures(BindGroupBuilder::<'a, L, H, V, S>::next_binding, (&builder,), next),
    ensures
        empty@.entries.len() == 0,
        empty@.next_binding == 0,
        empty@.label is None,
        empty@.layout == layout.0,
        labelled@.label == label,
        labelled@.entries == builder@.entries,
        labelled@.next_binding == builder@.next_binding,
        labelled@.layout == builder@.layout,
        request.entries@ == builder@.entries,
        request.label == builder@.label,
        *request.layout == builder@.layout,
        next == builder@.next_binding,
{
}

/// A dynamic buffer knows how large an element is and how far elements are
/// apart. Another handle to a buffer is to a buffer of the same size and use.
pub proof fn law_a_buffer_knows_its_sizes<H: Clone>(
    buffer: &Buffer<H>,
    dynamic: &DynamicBuffer<H>,
    size: u64,
    stride: u64,
    other: Buffer<H>,
    another: DynamicBuffer<H>,
)
    requires
        call_ensures(DynamicBuffer::<H>::element_size, (dynamic,), size),
        call_ensures(DynamicBuffer::<H>::stride, (dynamic,), stride),
        call_ensures(<Buffer<H> as Clone>::clone, (buffer,), other),
        call_ensures(<DynamicBuffer<H> as Clone>::clone, (dynamic,), another),
    ensures
        size == dynamic.element_size,
        stride == dynamic.stride,
        other.size == buffer.size,
        other.usage == buffer.usage,
        another.buffer.size == dynamic.buffer.size,
        another.buffer.usage == dynamic.buffer.usage,
        another.stride == dynamic.stride,
        another.element_size == dynamic.element_size,
{
}

/// A texture view that is bound by its handle is bound where it is placed.
pub proof fn law_a_raw_view_is_bound<'a, L, H, V, S>(
    builder: BindGroupBuilder<'a, L, H, V, S>,
    binding: u32,
    view: &'a V,
    placed: BindGroupBuilder<'a, L, H, V, S>,
)
    requires
        call_ensures(
            BindGroupBuilder::<'a, L, H, V, S>::texture_view_raw_at,
            (builder, binding, view),
            placed,
        ),
        binding < u32::MAX,
    ensures
        placed@.entries.len() == builder@.entries.len() + 1,
        placed@.entries.drop_last() == builder@.entries,
        placed@.entries.last().binding == binding,
        match placed@.entries.last().resource {
            BindingResource::TextureView(bound) => *bound == *view,
            _ => false,
        },
        placed@.next_binding > binding,
{
    assert(placed@.entries.drop_last() =~= builder@.entries);
}

} // verus!
