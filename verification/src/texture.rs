use vstd::prelude::*;
use image::GenericImageView;
use crate::bindgroup::{material_kind, BindingKind};

verus! {

/// Texture-handling rules of the renderer: texel conversion, upload layouts,
/// material slots and their fallbacks.
pub struct TextureIS {}

/// One texel of an uncompressed embedded texture.
#[derive(Clone, Copy, PartialEq, Eq, Structural, Debug)]
pub struct Texel {
    pub r: u8,
    pub g: u8,
    pub b: u8,
    pub a: u8,
}

/// The data of a texture as a model file embeds it: raw texels, or the bytes of an
/// encoded image (PNG, JPEG).
pub enum TextureData {
    Texels(Vec<Texel>),
    Encoded(Vec<u8>),
}

/// A texture as a model file embeds it.
pub struct TextureSource {
    pub width: u32,
    pub height: u32,
    pub data: TextureData,
}

/// An image of `width` by `height` pixels, 4 bytes (red, green, blue, alpha) each.
pub struct RgbaImage {
    pub width: u32,
    pub height: u32,
    pub pixels: Vec<u8>,
}

/// GPU texture formats the renderer uses.
#[derive(Clone, Copy, PartialEq, Eq, Structural, Debug)]
pub enum TextureFormat {
    Rgba8UnormSrgb,
    Rgba8Unorm,
    Depth32Float,
}

/// The size of a texture.
#[derive(Clone, Copy, PartialEq, Eq, Structural, Debug)]
pub struct Extent3d {
    pub width: u32,
    pub height: u32,
    pub depth_or_array_layers: u32,
}

/// How pixel data handed to the GPU is laid out.
#[derive(Clone, Copy, PartialEq, Eq, Structural, Debug)]
pub struct ImageDataLayout {
    pub offset: u64,
    pub bytes_per_row: Option<u32>,
    pub rows_per_image: Option<u32>,
}

/// Everything the renderer decides about a two-dimensional texture it uploads:
/// its size, format and the layout of the data written into it. Textures have one
/// mip level and one sample.
#[derive(Clone, Copy, PartialEq, Eq, Structural, Debug)]
pub struct TextureUpload {
    pub size: Extent3d,
    pub format: TextureFormat,
    pub mip_level_count: u32,
    pub sample_count: u32,
    pub layout: ImageDataLayout,
}

/// Channel `k` (0 red, 1 green, 2 blue, 3 alpha) of a texel.
pub open spec fn texel_channel(t: Texel, k: int) -> u8 {
    if k == 0 {
        t.r
    } else if k == 1 {
        t.g
    } else if k == 2 {
        t.b
    } else {
        t.a
    }
}

/// Texels written out as bytes: red, green, blue, alpha of each texel in turn.
pub open spec fn texel_bytes(texels: Seq<Texel>) -> Seq<u8> {
    Seq::new((4 * texels.len()) as nat, |i: int| texel_channel(texels[i / 4], i % 4))
}

/// What the image decoder makes of encoded bytes: width, height and RGBA8 pixels,
/// or nothing where the bytes are no image it can read.
pub uninterp spec fn decoded_image(bytes: Seq<u8>) -> Option<(u32, u32, Seq<u8>)>;

/// Decodes an image with `image::guess_format` (format read from the leading magic
/// bytes) and `image::load_from_memory_with_format`, then converts it with
/// `DynamicImage::to_rgba8`. That path consults no run-time registered hooks, so the
/// result is `decoded_image` of the bytes, a function of the bytes alone; `None`
/// where the format is not recognised or the decoder reports an error. Also claimed,
/// as the decoder allocates `width * height * bytes-per-pixel` and the conversion
/// keeps the pixel count: the RGBA buffer holds exactly `4 * width * height` bytes.
#[verifier::external_body]
fn decode_rgba8(bytes: &[u8]) -> (r: Option<(u32, u32, Vec<u8>)>)
    ensures
        match r {
            Some((w, h, p)) => decoded_image(bytes@) == Some((w, h, p@)) && p@.len() == 4 * w * h,
            None => decoded_image(bytes@) is None,
        },
{
    let format = match image::guess_format(bytes) {
        Ok(f) => f,
        Err(_) => return None,
    };
    match image::load_from_memory_with_format(bytes, format) {
        Ok(img) => {
            let (w, h) = img.dimensions();
            Some((w, h, img.to_rgba8().into_raw()))
        },
        Err(_) => None,
    }
}

/// The image a texture source stands for: texels are written out as RGBA bytes with
/// the source's size; encoded bytes are decoded, and then give `None` when they are
/// no readable image.
pub open spec fn source_image(src: TextureSource) -> Option<(u32, u32, Seq<u8>)> {
    match src.data {
        TextureData::Texels(t) => Some((src.width, src.height, texel_bytes(t@))),
        TextureData::Encoded(b) => decoded_image(b@),
    }
}

/// The format a material texture is uploaded with.
pub open spec fn spec_upload_format(is_srgb: bool) -> TextureFormat {
    if is_srgb {
        TextureFormat::Rgba8UnormSrgb
    } else {
        TextureFormat::Rgba8Unorm
    }
}

/// The upload plan of a `width` by `height` texture of 4-byte pixels in `format`.
pub open spec fn spec_upload_plan(width: u32, height: u32, format: TextureFormat) -> TextureUpload {
    TextureUpload {
        size: Extent3d { width, height, depth_or_array_layers: 1 },
        format,
        mip_level_count: 1,
        sample_count: 1,
        layout: ImageDataLayout {
            offset: 0,
            bytes_per_row: Some((4 * width) as u32),
            rows_per_image: Some(height),
        },
    }
}

/// The textures a material draws when it has none of its own.
#[derive(Clone, Copy, PartialEq, Eq, Structural, Debug)]
pub enum DefaultTexture {
    White,
    Black,
    FlatNormal,
}

/// The single pixel of a fallback texture and its format.
pub open spec fn spec_default_pixel(d: DefaultTexture) -> ([u8; 4], TextureFormat) {
    match d {
        DefaultTexture::White => ([255u8, 255u8, 255u8, 255u8], TextureFormat::Rgba8UnormSrgb),
        DefaultTexture::Black => ([0u8, 0u8, 0u8, 255u8], TextureFormat::Rgba8UnormSrgb),
        DefaultTexture::FlatNormal => ([128u8, 128u8, 255u8, 255u8], TextureFormat::Rgba8Unorm),
    }
}

/// The textures a material binds.
#[derive(Clone, Copy, PartialEq, Eq, Structural, Debug)]
pub enum MaterialSlot {
    BaseColor,
    Normal,
    Roughness,
    Metalness,
    AmbientOcclusion,
    Emissive,
}

/// How one material texture is bound: its binding, the texture used when the
/// material has none, and whether it holds sRGB colour.
#[derive(Clone, Copy, PartialEq, Eq, Structural, Debug)]
pub struct SlotPlan {
    pub slot: MaterialSlot,
    pub binding: u32,
    pub fallback: DefaultTexture,
    pub is_srgb: bool,
}

/// The material's texture slots, in binding order.
pub open spec fn material_slots() -> Seq<SlotPlan> {
    seq![
        SlotPlan { slot: MaterialSlot::BaseColor, binding: 0, fallback: DefaultTexture::White, is_srgb: true },
        SlotPlan { slot: MaterialSlot::Normal, binding: 2, fallback: DefaultTexture::FlatNormal, is_srgb: false },
        SlotPlan { slot: MaterialSlot::Roughness, binding: 3, fallback: DefaultTexture::White, is_srgb: false },
        SlotPlan { slot: MaterialSlot::Metalness, binding: 4, fallback: DefaultTexture::Black, is_srgb: false },
        SlotPlan { slot: MaterialSlot::AmbientOcclusion, binding: 5, fallback: DefaultTexture::White, is_srgb: false },
        SlotPlan { slot: MaterialSlot::Emissive, binding: 6, fallback: DefaultTexture::Black, is_srgb: true },
    ]
}

/// What the material bind group binds at each binding.
#[derive(Clone, Copy, PartialEq, Eq, Structural, Debug)]
pub enum MaterialResource {
    TextureView(MaterialSlot),
    Sampler,
    Uniforms,
}

/// The resources of the material bind group, binding `i` at position `i`.
pub open spec fn material_resources() -> Seq<MaterialResource> {
    seq![
        MaterialResource::TextureView(MaterialSlot::BaseColor),
        MaterialResource::Sampler,
        MaterialResource::TextureView(MaterialSlot::Normal),
        MaterialResource::TextureView(MaterialSlot::Roughness),
        MaterialResource::TextureView(MaterialSlot::Metalness),
        MaterialResource::TextureView(MaterialSlot::AmbientOcclusion),
        MaterialResource::TextureView(MaterialSlot::Emissive),
        MaterialResource::Uniforms,
    ]
}

/// The binding kind a resource needs.
pub open spec fn resource_kind(r: MaterialResource) -> BindingKind {
    match r {
        MaterialResource::TextureView(_) => BindingKind::FilterableTexture2d,
        MaterialResource::Sampler => BindingKind::FilteringSampler,
        MaterialResource::Uniforms => BindingKind::UniformBuffer,
    }
}

impl TextureIS {
    /// Writes texels out as RGBA bytes.
    pub fn texels_to_rgba(texels: &Vec<Texel>) -> (r: Vec<u8>)
        requires
            4 * texels.len() <= usize::MAX,
        ensures
            r@ == texel_bytes(texels@),
    {
        let mut rgba: Vec<u8> = Vec::with_capacity(texels.len() * 4);
        let mut i: usize = 0;
        while i < texels.len()
            invariant
                i <= texels.len(),
                rgba.len() == 4 * i,
                forall|j: int| 0 <= j < 4 * i ==> #[trigger] rgba@[j] == texel_channel(texels@[j / 4], j % 4),
            decreases texels.len() - i,
        {
            let t = texels[i];
            let ghost before = rgba@;
            rgba.push(t.r);
            rgba.push(t.g);
            rgba.push(t.b);
            rgba.push(t.a);
            proof {
                assert forall|j: int| 0 <= j < 4 * (i + 1) implies #[trigger] rgba@[j] == texel_channel(texels@[j / 4], j % 4) by {
                    if j < 4 * i {
                        assert(rgba@[j] == before[j]);
                    } else {
                        assert(j / 4 == i as int);
                        assert(j % 4 == j - 4 * i);
                    }
                }
            }
            i = i + 1;
        }
        assert(rgba@ =~= texel_bytes(texels@));
        rgba
    }

    /// Decodes an encoded image into RGBA8 pixels; `None` where the bytes are no
    /// image the decoder can read.
    pub fn decode_image(bytes: &Vec<u8>) -> (r: Option<RgbaImage>)
        ensures
            match r {
                Some(img) => decoded_image(bytes@) == Some((img.width, img.height, img.pixels@))
                    && img.pixels@.len() == 4 * img.width * img.height,
                None => decoded_image(bytes@) is None,
            },
    {
        match decode_rgba8(bytes.as_slice()) {
            Some((width, height, pixels)) => Some(RgbaImage { width, height, pixels }),
            None => None,
        }
    }

    /// The RGBA image of an embedded texture: texels are written out with the
    /// texture's own size, encoded bytes are decoded with the size they declare.
    /// `None` exactly where the encoded bytes cannot be decoded.
    pub fn russimp_tex_to_rgba(tex: &TextureSource) -> (r: Option<RgbaImage>)
        requires
            tex.data matches TextureData::Texels(t) ==> 4 * t.len() <= usize::MAX,
        ensures
            match r {
                Some(img) => source_image(*tex) == Some((img.width, img.height, img.pixels@))
                    && (tex.data matches TextureData::Encoded(_) ==> img.pixels@.len() == 4 * img.width * img.height),
                None => source_image(*tex) is None,
            },
    {
        match &tex.data {
            TextureData::Texels(texels) => {
                let pixels = Self::texels_to_rgba(texels);
                Some(RgbaImage { width: tex.width, height: tex.height, pixels })
            },
            TextureData::Encoded(bytes) => Self::decode_image(bytes),
        }
    }

    /// The format a material texture is uploaded with: sRGB for colour data,
    /// linear otherwise.
    pub fn upload_format(is_srgb: bool) -> (f: TextureFormat)
        ensures
            f == spec_upload_format(is_srgb),
    {
        if is_srgb {
            TextureFormat::Rgba8UnormSrgb
        } else {
            TextureFormat::Rgba8Unorm
        }
    }

    /// How a `width` by `height` RGBA texture is created and written: one layer, one
    /// mip level, one sample, rows of `4 * width` bytes, `height` rows.
    pub fn upload_plan(width: u32, height: u32, format: TextureFormat) -> (p: TextureUpload)
        requires
            4 * width <= u32::MAX,
        ensures
            p == spec_upload_plan(width, height, format),
    {
        TextureUpload {
            size: Extent3d { width, height, depth_or_array_layers: 1 },
            format,
            mip_level_count: 1,
            sample_count: 1,
            layout: ImageDataLayout { offset: 0, bytes_per_row: Some(4 * width), rows_per_image: Some(height) },
        }
    }

    /// The single pixel and the format of a fallback texture.
    pub fn default_pixel(d: DefaultTexture) -> (r: ([u8; 4], TextureFormat))
        ensures
            r == spec_default_pixel(d),
    {
        match d {
            DefaultTexture::White => ([255u8, 255u8, 255u8, 255u8], TextureFormat::Rgba8UnormSrgb),
            DefaultTexture::Black => ([0u8, 0u8, 0u8, 255u8], TextureFormat::Rgba8UnormSrgb),
            DefaultTexture::FlatNormal => ([128u8, 128u8, 255u8, 255u8], TextureFormat::Rgba8Unorm),
        }
    }

    /// The depth texture of a surface: the surface's size, one layer, 32-bit float depth.
    pub fn depth_texture_size(width: u32, height: u32) -> (r: (Extent3d, TextureFormat))
        ensures
            r == (Extent3d { width, height, depth_or_array_layers: 1 }, TextureFormat::Depth32Float),
    {
        (Extent3d { width, height, depth_or_array_layers: 1 }, TextureFormat::Depth32Float)
    }

    /// The material's texture slots in binding order.
    pub fn material_slot_plan() -> (r: Vec<SlotPlan>)
        ensures
            r@ == material_slots(),
    {
        let mut r: Vec<SlotPlan> = Vec::new();
        r.push(SlotPlan { slot: MaterialSlot::BaseColor, binding: 0, fallback: DefaultTexture::White, is_srgb: true });
        r.push(SlotPlan { slot: MaterialSlot::Normal, binding: 2, fallback: DefaultTexture::FlatNormal, is_srgb: false });
        r.push(SlotPlan { slot: MaterialSlot::Roughness, binding: 3, fallback: DefaultTexture::White, is_srgb: false });
        r.push(SlotPlan { slot: MaterialSlot::Metalness, binding: 4, fallback: DefaultTexture::Black, is_srgb: false });
        r.push(SlotPlan { slot: MaterialSlot::AmbientOcclusion, binding: 5, fallback: DefaultTexture::White, is_srgb: false });
        r.push(SlotPlan { slot: MaterialSlot::Emissive, binding: 6, fallback: DefaultTexture::Black, is_srgb: true });
        assert(r@ =~= material_slots());
        r
    }

    /// What the material bind group binds, binding `i` at position `i`.
    pub fn material_bind_resources() -> (r: Vec<MaterialResource>)
        ensures
            r@ == material_resources(),
    {
        let mut r: Vec<MaterialResource> = Vec::new();
        r.push(MaterialResource::TextureView(MaterialSlot::BaseColor));
        r.push(MaterialResource::Sampler);
        r.push(MaterialResource::TextureView(MaterialSlot::Normal));
        r.push(MaterialResource::TextureView(MaterialSlot::Roughness));
        r.push(MaterialResource::TextureView(MaterialSlot::Metalness));
        r.push(MaterialResource::TextureView(MaterialSlot::AmbientOcclusion));
        r.push(MaterialResource::TextureView(MaterialSlot::Emissive));
        r.push(MaterialResource::Uniforms);
        assert(r@ =~= material_resources());
        r
    }
}

/// The bytes of an upload fill exactly its rows: `bytes_per_row * rows_per_image`
/// is four bytes per pixel.
pub proof fn lemma_upload_covers_pixels(width: u32, height: u32, format: TextureFormat)
    requires
        4 * width <= u32::MAX,
    ensures
        ({
            let p = spec_upload_plan(width, height, format);
            p.layout.bytes_per_row.unwrap() * p.layout.rows_per_image.unwrap() == 4 * width * height
                && p.size.width * p.size.height * p.size.depth_or_array_layers == width * height
        }),
{
    assert(((4 * width) as u32) as int == 4 * width);
}

/// Written-out texels are four bytes per texel, each texel's channels in the order
/// red, green, blue, alpha.
pub proof fn lemma_texel_bytes_layout(texels: Seq<Texel>, i: int)
    requires
        0 <= i < texels.len(),
    ensures
        texel_bytes(texels).len() == 4 * texels.len(),
        texel_bytes(texels)[4 * i] == texels[i].r,
        texel_bytes(texels)[4 * i + 1] == texels[i].g,
        texel_bytes(texels)[4 * i + 2] == texels[i].b,
        texel_bytes(texels)[4 * i + 3] == texels[i].a,
{
    assert((4 * i) / 4 == i && (4 * i) % 4 == 0);
    assert((4 * i + 1) / 4 == i && (4 * i + 1) % 4 == 1);
    assert((4 * i + 2) / 4 == i && (4 * i + 2) % 4 == 2);
    assert((4 * i + 3) / 4 == i && (4 * i + 3) % 4 == 3);
}

/// The material bind group agrees with its layout: binding `i` holds a resource of the
/// kind the layout declares there, and every texture slot's binding holds that slot's view.
pub proof fn lemma_material_group_matches_layout()
    ensures
        material_resources().len() == 8,
        forall|i: int| 0 <= i < 8 ==> resource_kind(#[trigger] material_resources()[i]) == material_kind(i),
        forall|k: int| 0 <= k < material_slots().len() ==>
            material_resources()[#[trigger] material_slots()[k].binding as int]
                == MaterialResource::TextureView(material_slots()[k].slot),
{
    assert forall|i: int| 0 <= i < 8 implies resource_kind(#[trigger] material_resources()[i]) == material_kind(i) by {
        if i == 0 {} else if i == 1 {} else if i == 2 {} else if i == 3 {} else if i == 4 {} else if i == 5 {} else if i == 6 {} else {}
    }
    assert forall|k: int| 0 <= k < material_slots().len() implies
        material_resources()[#[trigger] material_slots()[k].binding as int]
            == MaterialResource::TextureView(material_slots()[k].slot) by {
        if k == 0 {} else if k == 1 {} else if k == 2 {} else if k == 3 {} else if k == 4 {} else {}
    }
}

/// Each slot falls back to the neutral texture of its role where the material has no
/// texture for it: base colour, roughness and ambient occlusion to white, normal to
/// the flat normal, metalness and emissive to black. The plan has six slots, none of
/// them twice.
pub proof fn lemma_slot_fallbacks_are_neutral()
    ensures
        material_slots().len() == 6,
        forall|k: int| 0 <= k < material_slots().len() ==>
            (#[trigger] material_slots()[k]).fallback == (match material_slots()[k].slot {
                MaterialSlot::BaseColor => DefaultTexture::White,
                MaterialSlot::Normal => DefaultTexture::FlatNormal,
                MaterialSlot::Roughness => DefaultTexture::White,
                MaterialSlot::Metalness => DefaultTexture::Black,
                MaterialSlot::AmbientOcclusion => DefaultTexture::White,
                MaterialSlot::Emissive => DefaultTexture::Black,
            }),
        forall|k: int, l: int| 0 <= k < l < material_slots().len() ==>
            (#[trigger] material_slots()[k]).slot != (#[trigger] material_slots()[l]).slot,
{
    assert forall|k: int| 0 <= k < material_slots().len() implies
        (#[trigger] material_slots()[k]).fallback == (match material_slots()[k].slot {
            MaterialSlot::BaseColor => DefaultTexture::White,
            MaterialSlot::Normal => DefaultTexture::FlatNormal,
            MaterialSlot::Roughness => DefaultTexture::White,
            MaterialSlot::Metalness => DefaultTexture::Black,
            MaterialSlot::AmbientOcclusion => DefaultTexture::White,
            MaterialSlot::Emissive => DefaultTexture::Black,
        }) by {
        if k == 0 {} else if k == 1 {} else if k == 2 {} else if k == 3 {} else if k == 4 {} else {}
    }
}

/// Colour slots (base colour, emissive) are uploaded as sRGB; data slots (normal,
/// roughness, metalness, ambient occlusion) are uploaded linear.
pub proof fn lemma_colour_slots_are_srgb()
    ensures
        forall|k: int| 0 <= k < material_slots().len() ==>
            (#[trigger] material_slots()[k]).is_srgb == (material_slots()[k].slot == MaterialSlot::BaseColor
                || material_slots()[k].slot == MaterialSlot::Emissive),
{
    assert forall|k: int| 0 <= k < material_slots().len() implies
        (#[trigger] material_slots()[k]).is_srgb == (material_slots()[k].slot == MaterialSlot::BaseColor
            || material_slots()[k].slot == MaterialSlot::Emissive) by {
        if k == 0 {} else if k == 1 {} else if k == 2 {} else if k == 3 {} else if k == 4 {} else {}
    }
}

} // verus!
