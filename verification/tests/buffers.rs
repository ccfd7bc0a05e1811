use pebble::graphics::pipeline::buffers::{
    align_to, check_buffer_size, dynamic_storage_offset_stride, dynamic_uniform_offset_stride,
    BindGroupBuilder, BindingResource, Buffer, BufferBuilder, BufferContents, BufferSizeError,
    DynamicBuffer, DynamicBufferBuilder, DynamicKind,
};
use pebble::graphics::pipeline::textures::GPUTexture;
use pebble::graphics::pipeline::views::{
    BindGroupLayout, GPUCubemap, GPUTextureArray, Sampler, TextureView,
};
use pebble::graphics::types::{BufferUsages, Limits, TextureFormat};

fn limits() -> Limits {
    Limits {
        max_buffer_size: 1000,
        max_uniform_buffer_binding_size: 64,
        max_storage_buffer_binding_size: 128,
        min_uniform_buffer_offset_alignment: 256,
        min_storage_buffer_offset_alignment: 32,
        max_texture_dimension_2d: 8192,
        max_texture_array_layers: 256,
    }
}

fn buffer(usage: BufferUsages) -> Buffer<&'static str> {
    Buffer { handle: "buffer", size: 48, usage }
}

#[test]
fn a_write_starts_at_the_beginning_or_at_the_offset() {
    let target = buffer(BufferUsages::copy_dst());
    let write = target.write(&[1, 2, 3]);
    assert_eq!((*write.buffer, write.offset, write.data), ("buffer", 0, &[1u8, 2, 3][..]));
    let write = target.write_at(12, &[4]);
    assert_eq!((*write.buffer, write.offset, write.data), ("buffer", 12, &[4u8][..]));
    assert_eq!(target.size(), 48);
}

#[test]
fn reading_needs_to_copy_out_of_the_buffer() {
    let missing = buffer(BufferUsages::copy_dst()).read().unwrap_err();
    assert_eq!(missing.needed, BufferUsages::copy_src());
    let plan = buffer(BufferUsages::copy_src()).read().unwrap();
    assert_eq!(plan.size, 48);
    assert_eq!((plan.source_offset, plan.staging_offset), (0, 0));
    assert_eq!(plan.staging_usage, BufferUsages::map_read() | BufferUsages::copy_dst());
}

#[test]
fn mapping_needs_to_map_the_buffer() {
    let missing = buffer(BufferUsages::copy_src()).map_read().unwrap_err();
    assert_eq!(missing.needed, BufferUsages::map_read());
    assert_eq!(buffer(BufferUsages::map_read()).map_read(), Ok(()));
}

#[test]
fn a_cloned_buffer_is_the_same_buffer() {
    let one = buffer(BufferUsages::copy_src());
    let other = one.clone();
    assert_eq!((other.handle, other.size, other.usage), (one.handle, one.size, one.usage));
    let dynamic = DynamicBuffer { buffer: one, stride: 256, element_size: 40 };
    let clone = dynamic.clone();
    assert_eq!((clone.stride, clone.element_size), (256, 40));
    assert_eq!(clone.buffer.handle, "buffer");
}

#[test]
fn builders_collect_what_to_create() {
    let built = BufferBuilder::empty(16).with_label(Some("a")).with_uniform().build(&limits());
    let built = built.ok().unwrap();
    assert_eq!(built.label, Some("a"));
    assert_eq!(built.usage, BufferUsages::uniform() | BufferUsages::copy_dst());
    assert!(matches!(built.contents, BufferContents::Empty(16)));

    let data = [7u8; 5];
    let built = BufferBuilder::with_data(&data).with_storage().build(&limits()).ok().unwrap();
    assert_eq!(built.label, None);
    assert_eq!(built.usage, BufferUsages::storage() | BufferUsages::copy_dst());
    assert_eq!(built.contents.size(), 5);

    let built = BufferBuilder::empty(1).with_usage(BufferUsages::index()).build(&limits());
    assert_eq!(built.ok().unwrap().usage, BufferUsages::index());
    assert_eq!(BufferBuilder::empty(1).usage, BufferUsages::empty());
}

#[test]
fn sizes_are_tested_against_every_limit_in_turn() {
    let uniform = BufferUsages::uniform();
    let storage = BufferUsages::storage();
    assert_eq!(check_buffer_size(&limits(), BufferUsages::index(), 1000), Ok(()));
    assert_eq!(
        check_buffer_size(&limits(), uniform | storage, 1001),
        Err(BufferSizeError::Buffer { size: 1001, max: 1000 })
    );
    assert_eq!(check_buffer_size(&limits(), uniform, 64), Ok(()));
    assert_eq!(
        check_buffer_size(&limits(), uniform | storage, 200),
        Err(BufferSizeError::Uniform { size: 200, max: 64 })
    );
    assert_eq!(check_buffer_size(&limits(), storage, 128), Ok(()));
    assert_eq!(
        check_buffer_size(&limits(), storage, 129),
        Err(BufferSizeError::Storage { size: 129, max: 128 })
    );
    let refused = BufferBuilder::empty(65).with_uniform().build(&limits());
    assert_eq!(refused.err(), Some(BufferSizeError::Uniform { size: 65, max: 64 }));
}

#[test]
fn sizes_round_up_to_the_alignment() {
    assert_eq!(align_to(0, 16), 0);
    assert_eq!(align_to(1, 16), 16);
    assert_eq!(align_to(16, 16), 16);
    assert_eq!(align_to(17, 16), 32);
    assert_eq!(align_to(10, 3), 12);
    assert_eq!(dynamic_uniform_offset_stride(&limits(), 40), 256);
    assert_eq!(dynamic_storage_offset_stride(&limits(), 40), 64);
}

#[test]
fn dynamic_buffers_hold_aligned_elements() {
    let mut roomy = limits();
    roomy.max_uniform_buffer_binding_size = 768;
    let request = DynamicBufferBuilder::uniform(40, 3)
        .with_label(Some("objects"))
        .build(&roomy)
        .ok()
        .unwrap();
    assert_eq!((request.stride, request.element_size), (256, 40));
    assert_eq!(request.buffer.label, Some("objects"));
    assert_eq!(request.buffer.usage, BufferUsages::uniform() | BufferUsages::copy_dst());
    assert!(matches!(request.buffer.contents, BufferContents::Empty(768)));

    let request = DynamicBufferBuilder::storage(40, 2).build(&limits()).ok().unwrap();
    assert_eq!(request.stride, 64);
    assert_eq!(request.buffer.contents.size(), 128);
    assert_eq!(request.buffer.usage, BufferUsages::storage() | BufferUsages::copy_dst());
    assert_eq!(DynamicBufferBuilder::storage(1, 1).kind, DynamicKind::Storage);

    let refused = DynamicBufferBuilder::storage(40, 3).build(&limits());
    assert_eq!(refused.err(), Some(BufferSizeError::Storage { size: 192, max: 128 }));
}

#[test]
fn dynamic_buffers_need_a_size_of_64_bits() {
    assert!(DynamicBufferBuilder::uniform(40, 3).fits(&limits()));
    assert!(DynamicBufferBuilder::uniform(0, u64::MAX).fits(&limits()));
    assert!(!DynamicBufferBuilder::uniform(1, u64::MAX).fits(&limits()));
    assert!(!DynamicBufferBuilder::storage(u64::MAX, 1).fits(&limits()));
    assert!(DynamicBufferBuilder::storage(u64::MAX - 31, 1).fits(&limits()));
    let mut broken = limits();
    broken.min_storage_buffer_offset_alignment = 0;
    assert!(!DynamicBufferBuilder::storage(1, 1).fits(&broken));
}

#[test]
fn elements_are_written_a_stride_apart() {
    let dynamic = DynamicBuffer {
        buffer: buffer(BufferUsages::copy_dst()),
        stride: 256,
        element_size: 40,
    };
    let write = dynamic.write_element(3, &[9]);
    assert_eq!((write.offset, write.data), (768, &[9u8][..]));
    assert_eq!((dynamic.stride(), dynamic.element_size()), (256, 40));
}

type Builder<'a> = BindGroupBuilder<'a, &'static str, &'static str, &'static str, &'static str>;

#[test]
fn bindings_count_up_past_explicit_ones() {
    let layout = BindGroupLayout("layout");
    let plain = buffer(BufferUsages::uniform());
    let dynamic = DynamicBuffer {
        buffer: buffer(BufferUsages::uniform()),
        stride: 256,
        element_size: 40,
    };
    let hollow = DynamicBuffer {
        buffer: buffer(BufferUsages::uniform()),
        stride: 256,
        element_size: 0,
    };
    let texture = GPUTexture {
        texture: "texture",
        view: "texture view",
        width: 1,
        height: 1,
        format: TextureFormat::R8Unorm,
    };
    let array = GPUTextureArray { view: "array view" };
    let cubemap = GPUCubemap { view: "cubemap view" };
    let view = TextureView("view");
    let sampler = Sampler("sampler");
    let builder: Builder = BindGroupBuilder::new(&layout);
    let request = builder
        .with_label(Some("group"))
        .with_buffer(&plain)
        .with_dynamic_buffer_at(5, &dynamic)
        .with_dynamic_buffer(&hollow)
        .with_texture_2d_at(2, &texture)
        .with_texture_array(&array)
        .with_texture_cubemap(&cubemap)
        .with_texture_view(&view)
        .with_sampler(&sampler)
        .build();
    assert_eq!((request.label, *request.layout), (Some("group"), "layout"));
    let bindings: Vec<u32> = request.entries.iter().map(|entry| entry.binding).collect();
    assert_eq!(bindings, vec![0, 5, 6, 2, 7, 8, 9, 10]);
    let entries = &request.entries;
    assert!(matches!(
        entries[0].resource,
        BindingResource::Buffer { buffer: &"buffer", offset: 0, size: None }
    ));
    assert!(matches!(
        entries[1].resource,
        BindingResource::Buffer { buffer: &"buffer", offset: 0, size: Some(40) }
    ));
    assert!(matches!(entries[2].resource, BindingResource::Buffer { offset: 0, size: None, .. }));
    assert!(matches!(entries[3].resource, BindingResource::TextureView(&"texture view")));
    assert!(matches!(entries[4].resource, BindingResource::TextureView(&"array view")));
    assert!(matches!(entries[5].resource, BindingResource::TextureView(&"cubemap view")));
    assert!(matches!(entries[6].resource, BindingResource::TextureView(&"view")));
    assert!(matches!(entries[7].resource, BindingResource::Sampler(&"sampler")));
}

#[test]
fn every_resource_can_be_placed_explicitly_or_next() {
    let layout = BindGroupLayout("layout");
    let plain = buffer(BufferUsages::uniform());
    let dynamic = DynamicBuffer {
        buffer: buffer(BufferUsages::uniform()),
        stride: 256,
        element_size: 40,
    };
    let texture = GPUTexture {
        texture: "texture",
        view: "texture view",
        width: 1,
        height: 1,
        format: TextureFormat::R8Unorm,
    };
    let array = GPUTextureArray { view: "array view" };
    let cubemap = GPUCubemap { view: "cubemap view" };
    let view = TextureView("view");
    let sampler = Sampler("sampler");
    let builder: Builder = BindGroupBuilder::new(&layout);
    assert_eq!(builder.next_binding(), 0);
    let request = builder
        .with_buffer_at(9, &plain)
        .with_dynamic_buffer(&dynamic)
        .with_texture_2d(&texture)
        .with_texture_array_at(1, &array)
        .with_texture_cubemap_at(3, &cubemap)
        .with_texture_view_at(20, &view)
        .with_sampler_at(4, &sampler)
        .with_sampler(&sampler)
        .build();
    let bindings: Vec<u32> = request.entries.iter().map(|entry| entry.binding).collect();
    assert_eq!(bindings, vec![9, 10, 11, 1, 3, 20, 4, 21]);
}

#[test]
fn flags_combine() {
    let both = BufferUsages::vertex() | BufferUsages::indirect();
    assert!(both.contains(BufferUsages::vertex()));
    assert!(both.contains(BufferUsages::indirect()));
    assert!(!both.contains(BufferUsages::query_resolve()));
    assert!(!both.contains(BufferUsages::map_write() | BufferUsages::vertex()));
    assert!(both.contains(BufferUsages::empty()));
}
