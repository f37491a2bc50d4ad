use ice_spar::bindgroup::material_layout_entries;
use ice_spar::texture::{
    DefaultTexture, Extent3d, ImageDataLayout, MaterialResource, MaterialSlot, Texel, TextureData,
    TextureFormat, TextureIS, TextureSource,
};

fn png_bytes(w: u32, h: u32, pixels: Vec<u8>) -> Vec<u8> {
    let img = image::RgbaImage::from_raw(w, h, pixels).unwrap();
    let mut out = std::io::Cursor::new(Vec::new());
    img.write_to(&mut out, image::ImageFormat::Png).unwrap();
    out.into_inner()
}

#[test]
fn texels_to_rgba_order() {
    let texels = vec![Texel { r: 1, g: 2, b: 3, a: 4 }, Texel { r: 5, g: 6, b: 7, a: 8 }];
    assert_eq!(TextureIS::texels_to_rgba(&texels), vec![1, 2, 3, 4, 5, 6, 7, 8]);
    assert_eq!(TextureIS::texels_to_rgba(&Vec::new()), Vec::<u8>::new());
}

#[test]
fn texel_source_keeps_its_size() {
    let src = TextureSource { width: 2, height: 1, data: TextureData::Texels(vec![Texel { r: 9, g: 8, b: 7, a: 6 }]) };
    let img = TextureIS::russimp_tex_to_rgba(&src).unwrap();
    assert_eq!((img.width, img.height), (2, 1));
    assert_eq!(img.pixels, vec![9, 8, 7, 6]);
}

#[test]
fn encoded_source_is_decoded() {
    let pixels = vec![10, 20, 30, 255, 40, 50, 60, 128];
    let bytes = png_bytes(2, 1, pixels.clone());
    let img = TextureIS::decode_image(&bytes).unwrap();
    assert_eq!((img.width, img.height), (2, 1));
    assert_eq!(img.pixels, pixels);
    let src = TextureSource { width: 0, height: 0, data: TextureData::Encoded(bytes) };
    let img = TextureIS::russimp_tex_to_rgba(&src).unwrap();
    assert_eq!((img.width, img.height), (2, 1));
    assert_eq!(img.pixels, pixels);
}

#[test]
fn undecodable_bytes_give_none() {
    assert!(TextureIS::decode_image(&vec![1, 2, 3, 4]).is_none());
    let src = TextureSource { width: 1, height: 1, data: TextureData::Encoded(vec![0; 16]) };
    assert!(TextureIS::russimp_tex_to_rgba(&src).is_none());
}

#[test]
fn upload_plan_rows() {
    let p = TextureIS::upload_plan(3, 5, TextureFormat::Rgba8Unorm);
    assert_eq!(p.size, Extent3d { width: 3, height: 5, depth_or_array_layers: 1 });
    assert_eq!(p.layout, ImageDataLayout { offset: 0, bytes_per_row: Some(12), rows_per_image: Some(5) });
    assert_eq!(p.format, TextureFormat::Rgba8Unorm);
    assert_eq!((p.mip_level_count, p.sample_count), (1, 1));
    let one = TextureIS::upload_plan(1, 1, TextureFormat::Rgba8UnormSrgb);
    assert_eq!(one.layout.bytes_per_row, Some(4));
    assert_eq!(one.layout.rows_per_image, Some(1));
}

#[test]
fn formats_and_defaults() {
    assert_eq!(TextureIS::upload_format(true), TextureFormat::Rgba8UnormSrgb);
    assert_eq!(TextureIS::upload_format(false), TextureFormat::Rgba8Unorm);
    assert_eq!(TextureIS::default_pixel(DefaultTexture::White), ([255, 255, 255, 255], TextureFormat::Rgba8UnormSrgb));
    assert_eq!(TextureIS::default_pixel(DefaultTexture::Black), ([0, 0, 0, 255], TextureFormat::Rgba8UnormSrgb));
    assert_eq!(TextureIS::default_pixel(DefaultTexture::FlatNormal), ([128, 128, 255, 255], TextureFormat::Rgba8Unorm));
    assert_eq!(
        TextureIS::depth_texture_size(800, 600),
        (Extent3d { width: 800, height: 600, depth_or_array_layers: 1 }, TextureFormat::Depth32Float)
    );
}

#[test]
fn material_slots_and_resources_agree() {
    let slots = TextureIS::material_slot_plan();
    let res = TextureIS::material_bind_resources();
    let layout = material_layout_entries();
    assert_eq!(slots.len(), 6);
    assert_eq!(slots[0].slot, MaterialSlot::BaseColor);
    assert_eq!(slots[0].fallback, DefaultTexture::White);
    assert!(slots[0].is_srgb);
    assert_eq!(slots[1].fallback, DefaultTexture::FlatNormal);
    assert_eq!(slots[3].fallback, DefaultTexture::Black);
    assert!(slots[5].is_srgb);
    for s in &slots {
        assert_eq!(res[s.binding as usize], MaterialResource::TextureView(s.slot));
    }
    assert_eq!(res[1], MaterialResource::Sampler);
    assert_eq!(res[7], MaterialResource::Uniforms);
    assert_eq!(res.len(), layout.len());
}
