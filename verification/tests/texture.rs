use twisty::texture::{color_row_image, texture_data};

#[test]
fn pixels_laid_out_in_order() {
    assert_eq!(
        texture_data(&[[1, 2, 3, 4], [5, 6, 7, 8], [255, 0, 128, 255]]),
        vec![1, 2, 3, 4, 5, 6, 7, 8, 255, 0, 128, 255]
    );
}

#[test]
fn no_pixels_no_bytes() {
    assert_eq!(texture_data(&[]), Vec::<u8>::new());
}

#[test]
fn row_image_holds_the_pixels() {
    let image = color_row_image(&[[10, 20, 30, 40], [50, 60, 70, 80]]);
    assert_eq!(image.data, vec![10, 20, 30, 40, 50, 60, 70, 80]);
    assert_eq!(image.texture_descriptor.size.width, 2);
    assert_eq!(image.texture_descriptor.size.height, 1);
    assert_eq!(image.texture_descriptor.size.depth_or_array_layers, 1);
    assert_eq!(
        image.texture_descriptor.dimension,
        bevy::render::render_resource::TextureDimension::D2
    );
    assert_eq!(
        image.texture_descriptor.format,
        bevy::render::render_resource::TextureFormat::Rgba8UnormSrgb
    );
}
