use rendy::hal::format::Format;
use rendy::hal::pso::{DescriptorType, Element, ShaderStageFlags, VertexInputRate};
use rendy::mesh::{AsVertex, PosColor, PosTex, Position};
use sprite_prefab::util::{
    align_size, ensure_buffer, next_range, opt_range, push_vertex_desc, set_layout_bindings,
    usize_range, vertex_desc, write_into_slice, AttributeDesc, DescriptorSetLayoutBinding,
    VertexBufferDesc,
};

fn element(format: Format, offset: u32) -> Element<Format> {
    Element { format, offset }
}

#[test]
fn ranges() {
    assert_eq!(10..15, next_range(&(3..10), 5));
    assert_eq!(0..0, next_range(&(0..0), 0));
    assert_eq!(u64::MAX - 1..u64::MAX, next_range(&(0..u64::MAX - 1), 1));
    assert_eq!(Some(2)..Some(9), opt_range(2..9));
    assert_eq!(Some("a")..Some("b"), opt_range("a".."b"));
    assert_eq!(4usize..8usize, usize_range(4u64..8u64));
    assert_eq!(0usize..(u64::MAX as usize), usize_range(0..u64::MAX));
}

#[test]
fn buffer_that_is_large_enough_stays() {
    assert_eq!(None, ensure_buffer(Some(16), 16));
    assert_eq!(None, ensure_buffer(Some(16), 3));
    assert_eq!(None, ensure_buffer(Some(0), 0));
    assert_eq!(None, ensure_buffer(None, 0));
    assert_eq!(None, ensure_buffer(Some(u64::MAX), u64::MAX));
}

#[test]
fn buffer_grows_to_the_next_power_of_two() {
    assert_eq!(Some(8), ensure_buffer(None, 5));
    assert_eq!(Some(1), ensure_buffer(None, 1));
    assert_eq!(Some(2), ensure_buffer(Some(1), 2));
    assert_eq!(Some(32), ensure_buffer(Some(16), 17));
    assert_eq!(Some(1024), ensure_buffer(Some(1000), 1024));
    assert_eq!(Some(2048), ensure_buffer(Some(1024), 1025));
    assert_eq!(Some(1 << 63), ensure_buffer(Some(1 << 62), (1 << 62) + 1));
    assert_eq!(Some(1 << 63), ensure_buffer(None, 1 << 63));
}

#[test]
fn sizes_round_up_to_the_alignment() {
    assert_eq!(0, align_size(16, 256, 0));
    assert_eq!(256, align_size(16, 256, 1));
    assert_eq!(256, align_size(16, 256, 16));
    assert_eq!(512, align_size(16, 256, 17));
    assert_eq!(48, align_size(12, 1, 4));
    assert_eq!(51, align_size(7, 3, 7));
    assert_eq!(0, align_size(0, 64, 1000));
    assert_eq!(1 << 40, align_size(1, 1 << 40, 1));
}

#[test]
fn vertex_buffers_are_numbered_and_attributes_located_in_turn() {
    let mut vertex_buffers: Vec<VertexBufferDesc> = Vec::new();
    let mut attributes: Vec<AttributeDesc> = Vec::new();
    let position = element(Format::Rgb32Sfloat, 0);
    let color = element(Format::Rgba32Sfloat, 12);
    let model = element(Format::Rgba32Sfloat, 0);

    push_vertex_desc(
        (vec![position, color], 28, VertexInputRate::Vertex),
        &mut vertex_buffers,
        &mut attributes,
    );
    assert_eq!(
        vec![VertexBufferDesc { binding: 0, stride: 28, rate: VertexInputRate::Vertex }],
        vertex_buffers
    );
    assert_eq!(
        vec![
            AttributeDesc { location: 0, binding: 0, element: position },
            AttributeDesc { location: 1, binding: 0, element: color },
        ],
        attributes
    );

    push_vertex_desc((vec![], 4, VertexInputRate::Vertex), &mut vertex_buffers, &mut attributes);
    assert_eq!(2, vertex_buffers.len());
    assert_eq!(
        VertexBufferDesc { binding: 1, stride: 4, rate: VertexInputRate::Vertex },
        vertex_buffers[1]
    );
    assert_eq!(2, attributes.len());

    push_vertex_desc(
        (vec![model], 16, VertexInputRate::Instance(1)),
        &mut vertex_buffers,
        &mut attributes,
    );
    assert_eq!(
        VertexBufferDesc { binding: 2, stride: 16, rate: VertexInputRate::Instance(1) },
        vertex_buffers[2]
    );
    assert_eq!(AttributeDesc { location: 2, binding: 2, element: model }, attributes[2]);
    assert_eq!(3, attributes.len());
}

#[test]
fn locations_go_on_from_the_last_attribute() {
    let position = element(Format::Rgb32Sfloat, 0);
    let mut vertex_buffers: Vec<VertexBufferDesc> = Vec::new();
    let mut attributes = vec![AttributeDesc { location: 40, binding: 9, element: position }];
    push_vertex_desc(
        (vec![position, position], 12, VertexInputRate::Vertex),
        &mut vertex_buffers,
        &mut attributes,
    );
    assert_eq!(AttributeDesc { location: 41, binding: 0, element: position }, attributes[1]);
    assert_eq!(AttributeDesc { location: 42, binding: 0, element: position }, attributes[2]);

    let mut last = vec![AttributeDesc { location: u32::MAX - 1, binding: 0, element: position }];
    push_vertex_desc((vec![position], 12, VertexInputRate::Vertex), &mut vertex_buffers, &mut last);
    assert_eq!(u32::MAX, last[1].location);
    assert_eq!(1, last[1].binding);
}

#[test]
fn formats_are_described_as_the_mesh_crate_describes_them() {
    let formats = [
        (PosColor::vertex(), VertexInputRate::Vertex),
        (PosTex::vertex(), VertexInputRate::Instance(1)),
        (Position::vertex(), VertexInputRate::Instance(3)),
    ];
    let (vertex_buffers, attributes) = vertex_desc(&formats).unwrap();
    assert_eq!(
        vec![
            VertexBufferDesc { binding: 0, stride: 28, rate: VertexInputRate::Vertex },
            VertexBufferDesc { binding: 1, stride: 20, rate: VertexInputRate::Instance(1) },
            VertexBufferDesc { binding: 2, stride: 12, rate: VertexInputRate::Instance(3) },
        ],
        vertex_buffers
    );
    assert_eq!(
        vec![
            AttributeDesc { location: 0, binding: 0, element: element(Format::Rgb32Sfloat, 0) },
            AttributeDesc { location: 1, binding: 0, element: element(Format::Rgba32Sfloat, 12) },
            AttributeDesc { location: 2, binding: 1, element: element(Format::Rgb32Sfloat, 0) },
            AttributeDesc { location: 3, binding: 1, element: element(Format::Rg32Sfloat, 12) },
            AttributeDesc { location: 4, binding: 2, element: element(Format::Rgb32Sfloat, 0) },
        ],
        attributes
    );
    let described = formats[1].0.gfx_vertex_input_desc(formats[1].1);
    assert_eq!(described.1, vertex_buffers[1].stride);
    assert_eq!(described.2, vertex_buffers[1].rate);
    assert_eq!(described.0, vec![attributes[2].element, attributes[3].element]);
}

#[test]
fn no_format_gives_no_description() {
    assert_eq!(Some((vec![], vec![])), vertex_desc(&[]));
}

#[test]
fn layout_bindings_are_numbered_through_the_runs() {
    let layout = set_layout_bindings(&[
        (2, DescriptorType::UniformBuffer, ShaderStageFlags::VERTEX),
        (0, DescriptorType::Sampler, ShaderStageFlags::ALL),
        (1, DescriptorType::CombinedImageSampler, ShaderStageFlags::FRAGMENT),
    ]);
    let binding = |binding, ty, stage_flags| DescriptorSetLayoutBinding {
        binding,
        ty,
        count: 1,
        stage_flags,
        immutable_samplers: false,
    };
    assert_eq!(
        vec![
            binding(0, DescriptorType::UniformBuffer, ShaderStageFlags::VERTEX),
            binding(1, DescriptorType::UniformBuffer, ShaderStageFlags::VERTEX),
            binding(2, DescriptorType::CombinedImageSampler, ShaderStageFlags::FRAGMENT),
        ],
        layout
    );
    assert_eq!(Vec::<DescriptorSetLayoutBinding>::new(), set_layout_bindings(&[]));
}

#[test]
fn items_are_written_chunk_by_chunk() {
    let mut dst = [0u8; 10];
    write_into_slice(&mut dst, 4, &[vec![1, 2, 3, 4], vec![5, 6, 7, 8]]);
    assert_eq!([1, 2, 3, 4, 5, 6, 7, 8, 0, 0], dst);

    let mut dst = [9u8; 10];
    write_into_slice(&mut dst, 4, &[vec![1, 2, 3, 4], vec![5, 6, 7, 8], vec![1, 1, 1, 1]]);
    assert_eq!([1, 2, 3, 4, 5, 6, 7, 8, 9, 9], dst);

    let mut dst = [9u8; 10];
    write_into_slice(&mut dst, 3, &[vec![1, 2, 3]]);
    assert_eq!([1, 2, 3, 9, 9, 9, 9, 9, 9, 9], dst);

    let mut dst = [9u8; 3];
    write_into_slice(&mut dst, 4, &[vec![1, 2, 3, 4]]);
    assert_eq!([9, 9, 9], dst);

    let mut dst = [9u8; 4];
    write_into_slice(&mut dst, 1, &[]);
    assert_eq!([9, 9, 9, 9], dst);

    let mut dst: [u8; 0] = [];
    write_into_slice(&mut dst, 2, &[vec![1, 2]]);
    assert_eq!([0u8; 0], dst);
}
