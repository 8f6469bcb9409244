//! Helpers for sizing buffers and describing their layout.

use core::ops::Range;
use rendy::hal::format::Format;
use rendy::hal::pso::{DescriptorType, Element, ShaderStageFlags, VertexInputRate};
use rendy::mesh::VertexFormat;
use vstd::arithmetic::power2::pow2;
use vstd::prelude::*;

verus! {

/// The range of `length` that starts where `prev` ends.
pub fn next_range(prev: &Range<u64>, length: u64) -> (next: Range<u64>)
    requires
        prev.end + length <= u64::MAX,
    ensures
        next.start == prev.end,
        next.end == prev.end + length,
{
    prev.end..prev.end + length
}

/// The same range with each end wrapped in `Some`.
pub fn opt_range<T>(range: Range<T>) -> (wrapped: Range<Option<T>>)
    ensures
        wrapped.start == Some(range.start),
        wrapped.end == Some(range.end),
{
    Some(range.start)..Some(range.end)
}

/// The same range with each end cast to `usize`.
pub fn usize_range(range: Range<u64>) -> (cast: Range<usize>)
    ensures
        cast.start == range.start as usize,
        cast.end == range.end as usize,
{
    range.start as usize..range.end as usize
}

/// `n` is a power of two.
pub open spec fn is_power_of_two(n: int) -> bool {
    exists|exponent: nat| n == pow2(exponent)
}

/// `power` is the smallest power of two that is at least `n`.
pub open spec fn is_next_power_of_two(power: int, n: int) -> bool {
    &&& is_power_of_two(power)
    &&& power >= n
    &&& forall|other: int| is_power_of_two(other) && other >= n ==> power <= other
}

/// `u64::next_power_of_two`: the smallest power of two greater than or equal
/// to `n`. Above 2^63 there is none in 64 bits, and the standard function
/// panics or wraps to zero.
#[verifier::external_body]
fn next_power_of_two(n: u64) -> (power: u64)
    requires
        n <= 0x8000_0000_0000_0000,
    ensures
        is_next_power_of_two(power as int, n as int),
{
    n.next_power_of_two()
}

/// A buffer of `current_size` bytes, or none, is too small to hold `min_size`.
pub open spec fn buffer_too_small(current_size: Option<u64>, min_size: u64) -> bool {
    match current_size {
        Some(size) => size < min_size,
        None => 0 < min_size,
    }
}

/// Decides whether a buffer must be replaced to hold `min_size` bytes, and by
/// one of what size: the smallest power of two that holds them. `current_size`
/// is the size of the buffer there is, if there is one.
pub fn ensure_buffer(current_size: Option<u64>, min_size: u64) -> (new_size: Option<u64>)
    requires
        buffer_too_small(current_size, min_size) ==> min_size <= 0x8000_0000_0000_0000,
    ensures
        match new_size {
            Some(size) => buffer_too_small(current_size, min_size) && is_next_power_of_two(
                size as int,
                min_size as int,
            ),
            None => !buffer_too_small(current_size, min_size),
        },
{
    let size = match current_size {
        Some(size) => size,
        None => 0,
    };
    if size < min_size {
        Some(next_power_of_two(min_size))
    } else {
        None
    }
}

/// The size of `array_len` elements of `size` bytes each, rounded up to a
/// multiple of `align`.
pub open spec fn spec_align_size(size: int, align: int, array_len: int) -> int {
    ((size * array_len + align - 1) / align) * align
}

/// What [`spec_align_size`] gives is a multiple of the alignment, holds the
/// elements, and is the least such number.
pub proof fn lemma_align_size(size: int, align: int, array_len: int)
    requires
        0 <= size,
        0 <= array_len,
        0 < align,
    ensures
        spec_align_size(size, align, array_len) % align == 0,
        size * array_len <= spec_align_size(size, align, array_len) < size * array_len + align,
{
    let total = size * array_len;
    assert(0 <= total) by (nonlinear_arith)
        requires
            0 <= size,
            0 <= array_len,
            total == size * array_len,
    ;
    let padded = total + align - 1;
    assert(((padded / align) * align) % align == 0 && padded - align < (padded / align) * align
        <= padded) by (nonlinear_arith)
        requires
            0 < align,
            0 <= padded,
    ;
}

/// The number of bytes to set aside for `array_len` elements of `size` bytes
/// each in a buffer whose ranges start at multiples of `align`.
pub fn align_size(size: usize, align: u64, array_len: usize) -> (aligned: u64)
    requires
        0 < align,
        size * array_len <= usize::MAX,
        size * array_len + align <= u64::MAX,
    ensures
        aligned == spec_align_size(size as int, align as int, array_len as int),
{
    proof {
        lemma_align_size(size as int, align as int, array_len as int);
    }
    let total = (size * array_len) as u64;
    ((total + align - 1) / align) * align
}

/// `rendy::mesh::VertexFormat`: the attributes of one kind of vertex and the
/// size of a vertex. Opaque here.
#[verifier::external_type_specification]
#[verifier::external_body]
pub struct ExVertexFormat(VertexFormat);

/// `gfx_hal::format::Format`: how the channels of an element are laid out.
/// Opaque here.
#[verifier::external_type_specification]
#[verifier::external_body]
pub struct ExFormat(Format);

/// `gfx_hal::pso::Element`: format and offset of one attribute of a vertex.
/// Opaque here.
#[verifier::external_type_specification]
#[verifier::external_body]
#[verifier::reject_recursive_types(F)]
pub struct ExElement<F>(Element<F>);

/// `gfx_hal::pso::VertexInputRate`: whether a buffer advances by vertex or by
/// instance. Opaque here.
#[verifier::external_type_specification]
#[verifier::external_body]
pub struct ExVertexInputRate(VertexInputRate);

/// `gfx_hal::pso::DescriptorType`: the kind of a descriptor. Opaque here.
#[verifier::external_type_specification]
#[verifier::external_body]
pub struct ExDescriptorType(DescriptorType);

/// `gfx_hal::pso::ShaderStageFlags`: a set of shader stages. Opaque here.
#[verifier::external_type_specification]
#[verifier::external_body]
pub struct ExShaderStageFlags(ShaderStageFlags);

/// The elements of the attributes that a vertex format was made with, in the
/// order in which the format keeps them.
pub uninterp spec fn format_elements(format: VertexFormat) -> Seq<Element<Format>>;

/// The stride that a vertex format was made with.
pub uninterp spec fn format_stride(format: VertexFormat) -> u32;

/// `VertexFormat::gfx_vertex_input_desc`: a copy of the element of each
/// attribute of the format, in the format's order; the format's stride; and
/// the rate it was asked for, unchanged.
#[verifier::external_body]
fn gfx_vertex_input_desc(format: &VertexFormat, rate: VertexInputRate) -> (desc: (
    Vec<Element<Format>>,
    u32,
    VertexInputRate,
))
    ensures
        desc.0@ == format_elements(*format),
        desc.1 == format_stride(*format),
        desc.2 == rate,
{
    format.gfx_vertex_input_desc(rate)
}

/// Describes one vertex buffer of a pipeline.
#[derive(Clone, Copy, Debug, PartialEq, Eq)]
pub struct VertexBufferDesc {
    /// Number of the buffer among the vertex buffers.
    pub binding: u32,
    /// Distance in bytes between two consecutive elements.
    pub stride: u32,
    /// The rate at which the buffer advances.
    pub rate: VertexInputRate,
}

/// Describes one attribute of the vertices of a pipeline.
#[derive(Clone, Copy, Debug, PartialEq, Eq)]
pub struct AttributeDesc {
    /// Location of the attribute in the shader; no two attributes share one.
    pub location: u32,
    /// Number of the vertex buffer that holds the attribute.
    pub binding: u32,
    /// Format and offset of the attribute.
    pub element: Element<Format>,
}

/// The location after that of the last attribute; zero where there is none.
pub open spec fn next_location(attributes: Seq<AttributeDesc>) -> int {
    if attributes.len() == 0 {
        0
    } else {
        attributes.last().location + 1
    }
}

/// The attributes that a buffer with number `binding` adds for `elements`,
/// with locations counted up from `location`.
pub open spec fn attributes_of(elements: Seq<Element<Format>>, binding: u32, location: int) -> Seq<
    AttributeDesc,
> {
    Seq::new(
        elements.len(),
        |i: int| AttributeDesc { location: (location + i) as u32, binding, element: elements[i] },
    )
}

/// Adds the description of one vertex buffer: the buffer gets the next free
/// number, and each of its elements becomes an attribute at the next free
/// location.
pub fn push_vertex_desc(
    desc: (Vec<Element<Format>>, u32, VertexInputRate),
    vertex_buffers: &mut Vec<VertexBufferDesc>,
    attributes: &mut Vec<AttributeDesc>,
)
    requires
        next_location(old(attributes)@) + desc.0@.len() <= u32::MAX,
    ensures
        final(vertex_buffers)@ == old(vertex_buffers)@.push(
            (VertexBufferDesc {
                binding: old(vertex_buffers)@.len() as u32,
                stride: desc.1,
                rate: desc.2,
            }),
        ),
        final(attributes)@ == old(attributes)@ + attributes_of(
            desc.0@,
            old(vertex_buffers)@.len() as u32,
            next_location(old(attributes)@),
        ),
{
    let index = vertex_buffers.len() as u32;
    vertex_buffers.push(VertexBufferDesc { binding: index, stride: desc.1, rate: desc.2 });
    let start: u32 = if attributes.len() == 0 {
        0
    } else {
        attributes[attributes.len() - 1].location + 1
    };
    let elements = desc.0;
    let mut i: usize = 0;
    while i < elements.len()
        invariant
            i <= elements@.len(),
            start + elements@.len() <= u32::MAX,
            attributes@ == old(attributes)@ + attributes_of(
                elements@.take(i as int),
                index,
                start as int,
            ),
        decreases elements@.len() - i,
    {
        let location = start + i as u32;
        attributes.push(AttributeDesc { location, binding: index, element: elements[i] });
        i += 1;
    }
    assert(elements@.take(i as int) == elements@);
}

/// The vertex buffers of a pipeline and their attributes, described format by
/// format: each format adds a buffer with the next free number, at the rate
/// the format is paired with, and an attribute for each of its elements at the
/// next free location.
pub open spec fn spec_vertex_desc(formats: Seq<(VertexFormat, VertexInputRate)>) -> (
    Seq<VertexBufferDesc>,
    Seq<AttributeDesc>,
)
    decreases formats.len(),
{
    if formats.len() == 0 {
        (Seq::empty(), Seq::empty())
    } else {
        let front = spec_vertex_desc(formats.drop_last());
        let last = formats.last();
        (
            front.0.push(
                VertexBufferDesc {
                    binding: front.0.len() as u32,
                    stride: format_stride(last.0),
                    rate: last.1,
                },
            ),
            front.1 + attributes_of(
                format_elements(last.0),
                front.0.len() as u32,
                next_location(front.1),
            ),
        )
    }
}

/// The number of elements of all the formats together.
pub open spec fn total_elements(formats: Seq<(VertexFormat, VertexInputRate)>) -> nat
    decreases formats.len(),
{
    if formats.len() == 0 {
        0
    } else {
        total_elements(formats.drop_last()) + format_elements(formats.last().0).len()
    }
}

/// As long as the elements of the formats do not outnumber the locations,
/// [`spec_vertex_desc`] describes one buffer for each format, numbered in
/// order, and one attribute for each element, at consecutive locations from
/// zero.
pub proof fn lemma_vertex_desc(formats: Seq<(VertexFormat, VertexInputRate)>)
    requires
        total_elements(formats) <= u32::MAX,
    ensures
        spec_vertex_desc(formats).0.len() == formats.len(),
        spec_vertex_desc(formats).1.len() == total_elements(formats),
        next_location(spec_vertex_desc(formats).1) == total_elements(formats),
        forall|i: int|
            0 <= i < formats.len() ==> (#[trigger] spec_vertex_desc(formats).0[i]).binding
                == i as u32,
        forall|k: int|
            0 <= k < total_elements(formats) ==> (#[trigger] spec_vertex_desc(
                formats,
            ).1[k]).location == k,
    decreases formats.len(),
{
    if formats.len() > 0 {
        lemma_vertex_desc(formats.drop_last());
    }
}

/// The elements of the first formats are no more than those of all of them.
pub proof fn lemma_total_elements_grows(
    formats: Seq<(VertexFormat, VertexInputRate)>,
    count: int,
)
    requires
        0 <= count <= formats.len(),
    ensures
        total_elements(formats.take(count)) <= total_elements(formats),
    decreases formats.len() - count,
{
    if count < formats.len() {
        lemma_total_elements_grows(formats, count + 1);
        assert(formats.take(count + 1).drop_last() == formats.take(count));
    } else {
        assert(formats.take(count) == formats);
    }
}

/// Describes the vertex buffers of a pipeline, one for each format in the
/// order given, each at the rate it is paired with, and their attributes at
/// consecutive locations from zero. Gives nothing if the elements of the
/// formats outnumber the locations there are.
pub fn vertex_desc(formats: &[(VertexFormat, VertexInputRate)]) -> (described: Option<
    (Vec<VertexBufferDesc>, Vec<AttributeDesc>),
>)
    ensures
        match described {
            Some(desc) => {
                &&& total_elements(formats@) <= u32::MAX
                &&& desc.0@ == spec_vertex_desc(formats@).0
                &&& desc.1@ == spec_vertex_desc(formats@).1
            },
            None => total_elements(formats@) > u32::MAX,
        },
{
    let mut vertex_buffers: Vec<VertexBufferDesc> = Vec::new();
    let mut attributes: Vec<AttributeDesc> = Vec::new();
    let mut i: usize = 0;
    while i < formats.len()
        invariant
            i <= formats@.len(),
            total_elements(formats@.take(i as int)) <= u32::MAX,
            vertex_buffers@ == spec_vertex_desc(formats@.take(i as int)).0,
            attributes@ == spec_vertex_desc(formats@.take(i as int)).1,
        decreases formats@.len() - i,
    {
        let desc = gfx_vertex_input_desc(&formats[i].0, formats[i].1);
        proof {
            lemma_vertex_desc(formats@.take(i as int));
            let next = formats@.take(i + 1);
            assert(next.drop_last() == formats@.take(i as int));
            assert(next.last() == formats@[i as int]);
        }
        if desc.0.len() > (u32::MAX as usize) - attributes.len() {
            proof {
                lemma_total_elements_grows(formats@, i + 1);
            }
            return None;
        }
        push_vertex_desc(desc, &mut vertex_buffers, &mut attributes);
        i += 1;
    }
    assert(formats@.take(i as int) == formats@);
    Some((vertex_buffers, attributes))
}

/// Describes one binding of a descriptor set layout.
#[derive(Clone, Copy, Debug, PartialEq, Eq)]
pub struct DescriptorSetLayoutBinding {
    /// Number of the binding in the set.
    pub binding: u32,
    /// Kind of the descriptors bound.
    pub ty: DescriptorType,
    /// Number of descriptors in the binding.
    pub count: usize,
    /// The shader stages that may use the binding.
    pub stage_flags: ShaderStageFlags,
    /// Whether the binding uses immutable samplers.
    pub immutable_samplers: bool,
}

/// `times` bindings of one descriptor each, of kind `ty` for the stages
/// `stage_flags`, numbered from `first`.
pub open spec fn repeated_bindings(
    times: u32,
    ty: DescriptorType,
    stage_flags: ShaderStageFlags,
    first: int,
) -> Seq<DescriptorSetLayoutBinding> {
    Seq::new(
        times as nat,
        |i: int|
            DescriptorSetLayoutBinding {
                binding: (first + i) as u32,
                ty,
                count: 1,
                stage_flags,
                immutable_samplers: false,
            },
    )
}

/// The bindings of a layout that is given as runs: each entry stands for as
/// many bindings as its first part says, and the bindings are numbered through
/// from zero.
pub open spec fn spec_layout_bindings(
    bindings: Seq<(u32, DescriptorType, ShaderStageFlags)>,
) -> Seq<DescriptorSetLayoutBinding>
    decreases bindings.len(),
{
    if bindings.len() == 0 {
        Seq::empty()
    } else {
        let front = spec_layout_bindings(bindings.drop_last());
        let run = bindings.last();
        front + repeated_bindings(run.0, run.1, run.2, front.len() as int)
    }
}

/// Lays out the bindings of a descriptor set from runs of equal bindings.
pub fn set_layout_bindings(bindings: &[(u32, DescriptorType, ShaderStageFlags)]) -> (layout: Vec<
    DescriptorSetLayoutBinding,
>)
    ensures
        layout@ == spec_layout_bindings(bindings@),
{
    let mut layout: Vec<DescriptorSetLayoutBinding> = Vec::new();
    let mut i: usize = 0;
    while i < bindings.len()
        invariant
            i <= bindings@.len(),
            layout@ == spec_layout_bindings(bindings@.take(i as int)),
        decreases bindings@.len() - i,
    {
        let times = bindings[i].0;
        let ty = bindings[i].1;
        let stage_flags = bindings[i].2;
        let ghost front = layout@;
        let mut j: u32 = 0;
        while j < times
            invariant
                j <= times,
                layout@ == front + repeated_bindings(j, ty, stage_flags, front.len() as int),
            decreases times - j,
        {
            let binding = layout.len() as u32;
            layout.push(
                DescriptorSetLayoutBinding {
                    binding,
                    ty,
                    count: 1,
                    stage_flags,
                    immutable_samplers: false,
                },
            );
            j += 1;
        }
        proof {
            let next = bindings@.take(i + 1);
            assert(next.drop_last() == bindings@.take(i as int));
            assert(next.last() == bindings@[i as int]);
        }
        i += 1;
    }
    assert(bindings@.take(i as int) == bindings@);
    layout
}

/// The number of whole chunks of `size` bytes in `len` bytes, or the number of
/// items if that is less: the number of items that get written.
pub open spec fn written_items(len: int, size: int, items: int) -> int {
    if items < len / size {
        items
    } else {
        len / size
    }
}

/// The byte at place `at` once the first `written` items lie over the first
/// chunks of `size` bytes of `dst`, one item to a chunk.
pub open spec fn byte_written(
    dst: Seq<u8>,
    size: int,
    items: Seq<Vec<u8>>,
    written: int,
    at: int,
) -> u8 {
    if at / size < written {
        items[at / size]@[at % size]
    } else {
        dst[at]
    }
}

/// The bytes of `dst` after items of `size` bytes each were written over its
/// chunks of that size, for as many chunks as `dst` has in full and as there
/// are items. What lies behind stays.
pub open spec fn spec_write_into_slice(dst: Seq<u8>, size: int, items: Seq<Vec<u8>>) -> Seq<u8> {
    Seq::new(
        dst.len(),
        |at: int|
            byte_written(
                dst,
                size,
                items,
                written_items(dst.len() as int, size, items.len() as int),
                at,
            ),
    )
}

/// Writes items of `size` bytes each into `dst`, the first over its first
/// `size` bytes, the next behind it, until the items or the room for a whole
/// one run out.
pub fn write_into_slice(dst: &mut [u8], size: usize, items: &[Vec<u8>])
    requires
        size > 0,
        forall|i: int| 0 <= i < items@.len() ==> (#[trigger] items@[i])@.len() == size,
    ensures
        final(dst)@ == spec_write_into_slice(old(dst)@, size as int, items@),
{
    let ghost before = dst@;
    let ghost width = size as int;
    let chunks = dst.len() / size;
    let mut chunk: usize = 0;
    while chunk < chunks && chunk < items.len()
        invariant
            width == size,
            width > 0,
            chunks == before.len() as int / width,
            before.len() <= usize::MAX,
            dst@.len() == before.len(),
            chunk <= chunks,
            chunk <= items@.len(),
            forall|i: int| 0 <= i < items@.len() ==> (#[trigger] items@[i])@.len() == size,
            forall|at: int|
                0 <= at < dst@.len() ==> #[trigger] dst@[at] == byte_written(
                    before,
                    width,
                    items@,
                    chunk as int,
                    at,
                ),
        decreases items@.len() - chunk,
    {
        let item = &items[chunk];
        proof {
            assert(chunk * size + size <= dst@.len()) by (nonlinear_arith)
                requires
                    0 <= chunk < chunks,
                    chunks == dst@.len() as int / (size as int),
                    size > 0,
            ;
        }
        let start = chunk * size;
        let mut offset: usize = 0;
        while offset < size
            invariant
                width == size,
                width > 0,
                offset <= size,
                item@ == items@[chunk as int]@,
                item@.len() == size,
                start == chunk * size,
                start + size <= dst@.len(),
                before.len() <= usize::MAX,
                dst@.len() == before.len(),
                forall|at: int|
                    0 <= at < dst@.len() ==> #[trigger] dst@[at] == (if start <= at < start
                        + offset {
                        item@[at - start]
                    } else {
                        byte_written(before, width, items@, chunk as int, at)
                    }),
            decreases size - offset,
        {
            dst[start + offset] = item[offset];
            offset += 1;
        }
        proof {
            assert forall|at: int| 0 <= at < dst@.len() implies #[trigger] dst@[at]
                == byte_written(before, width, items@, chunk + 1, at) by {
                assert((at / width == chunk) <==> (start <= at < start + width))
                    by (nonlinear_arith)
                    requires
                        start == chunk * size,
                        width == size,
                        width > 0,
                        0 <= at,
                        0 <= chunk,
                ;
                if at / width == chunk {
                    assert(at % width == at - start) by (nonlinear_arith)
                        requires
                            start == chunk * size,
                            width == size,
                            width > 0,
                            at / width == chunk,
                    ;
                } else {
                    assert((at / width < chunk + 1) == (at / width < chunk));
                }
            }
        }
        chunk += 1;
    }
    assert(dst@ =~= spec_write_into_slice(before, width, items@));
}

} // verus!
