//! What the pictures that the renderer renders into are made of.

use crate::geometry::Extent;
use vstd::prelude::*;

verus! {

/// How many bytes a pixel takes: one each for blue, green, red and opacity.
pub const BYTES_PER_PIXEL: u32 = 4;

/// Along how many axes a picture extends.
#[derive(Debug, Clone, Copy, PartialEq, Eq)]
pub enum TextureDimension {
    D1,
    D2,
    D3,
}

/// How a pixel is laid out.
#[derive(Debug, Clone, Copy, PartialEq, Eq)]
pub enum TextureFormat {
    /// One byte each for blue, green, red and opacity, the colors in the sRGB scale.
    Bgra8UnormSrgb,
}

/// What a picture can be used for.
#[derive(Debug, Clone, Copy, PartialEq, Eq)]
pub struct TextureUsages {
    pub copy_src: bool,
    pub copy_dst: bool,
    pub texture_binding: bool,
    pub storage_binding: bool,
    pub render_attachment: bool,
}

/// A picture that is to be made.
#[derive(Debug, Clone, Copy, PartialEq, Eq)]
pub struct TextureSpec {
    pub size: Extent,
    pub depth_or_array_layers: u32,
    pub dimension: TextureDimension,
    pub format: TextureFormat,
    pub mip_level_count: u32,
    pub sample_count: u32,
    pub usage: TextureUsages,
}

impl TextureSpec {
    /// The bytes that the picture is made with: all zero, so many for each pixel.
    pub open spec fn initial_bytes(self) -> Seq<u8> {
        Seq::new((self.size.width * self.size.height * BYTES_PER_PIXEL) as nat, |i: int| 0u8)
    }
}

/// A flat picture of one level and one sample, which can be rendered into, shown and copied
/// to, and nothing else.
pub open spec fn render_target(size: Extent) -> TextureSpec {
    TextureSpec {
        size,
        depth_or_array_layers: 1,
        dimension: TextureDimension::D2,
        format: TextureFormat::Bgra8UnormSrgb,
        mip_level_count: 1,
        sample_count: 1,
        usage: TextureUsages {
            copy_src: false,
            copy_dst: true,
            texture_binding: true,
            storage_binding: false,
            render_attachment: true,
        },
    }
}

/// The picture of this size that is rendered into.
pub fn render_target_texture(size: Extent) -> (r: TextureSpec)
    ensures
        r == render_target(size),
        r.size == size,
{
    TextureSpec {
        size,
        depth_or_array_layers: 1,
        dimension: TextureDimension::D2,
        format: TextureFormat::Bgra8UnormSrgb,
        mip_level_count: 1,
        sample_count: 1,
        usage: TextureUsages {
            copy_src: false,
            copy_dst: true,
            texture_binding: true,
            storage_binding: false,
            render_attachment: true,
        },
    }
}

/// The bytes of a picture of this size in which nothing has been rendered yet: all zero.
/// There are none if the picture takes more bytes than a vector can hold.
pub fn blank_pixels(size: Extent) -> (r: Option<Vec<u8>>)
    ensures
        r is None <==> size.width * size.height * 4 > isize::MAX,
        r matches Some(bytes) ==> {
            &&& bytes@.len() == size.width * size.height * 4
            &&& forall|i: int| 0 <= i < bytes@.len() ==> #[trigger] bytes@[i] == 0
            &&& bytes@ == render_target(size).initial_bytes()
        },
{
    proof {
        assert(0 <= size.width * size.height <= 0xffff_ffff * 0xffff_ffff) by (nonlinear_arith)
            requires
                0 <= size.width <= 0xffff_ffff,
                0 <= size.height <= 0xffff_ffff,
        ;
    }
    let count: u128 = size.width as u128 * size.height as u128 * BYTES_PER_PIXEL as u128;
    if count > isize::MAX as u128 {
        return None;
    }
    let bytes = vec![0u8; count as usize];
    assert(bytes@ =~= render_target(size).initial_bytes());
    Some(bytes)
}

/// Of whatever size, a picture to render into is flat, has one level and one sample, takes
/// four bytes for each pixel and starts all zero, and can be rendered into, shown and copied
/// to, but neither be copied from nor be written to by shaders.
pub proof fn law_every_render_target_is_alike(size: Extent)
    ensures
        ({
            let target = render_target(size);
            &&& target.size == size
            &&& target.depth_or_array_layers == 1
            &&& target.dimension is D2
            &&& target.format is Bgra8UnormSrgb
            &&& target.mip_level_count == 1
            &&& target.sample_count == 1
            &&& target.usage.render_attachment
            &&& target.usage.texture_binding
            &&& target.usage.copy_dst
            &&& !target.usage.copy_src
            &&& !target.usage.storage_binding
            &&& target.initial_bytes().len() == size.width * size.height * 4
            &&& forall|i: int|
                0 <= i < target.initial_bytes().len() ==> #[trigger] target.initial_bytes()[i] == 0
        }),
{
    assert(size.width * size.height >= 0) by (nonlinear_arith)
        requires
            size.width >= 0,
            size.height >= 0,
    ;
}

}
