use pdf_export::compress::deflate;
use pdf_export::image_encode::{
    encode_alpha, encode_image, write_images, ColorSpace, EncodeError, Filter,
};
use pdf_export::raster::{ColorLayout, Image, ImageFormat, ImageStore};
use pdf_export::refs::{Ref, Refs};
use pdf_export::remap::Remapper;

fn image(format: ImageFormat, layout: ColorLayout, width: u32, height: u32, samples: Vec<u8>) -> Image {
    Image { format, layout, width, height, samples, source: b"bytes of the source".to_vec() }
}

fn inflate(data: &[u8]) -> Vec<u8> {
    miniz_oxide::inflate::decompress_to_vec_zlib(data).unwrap()
}

fn image_map(ids: &[u32]) -> Remapper {
    let mut map = Remapper::new();
    for id in ids {
        map.insert(*id);
    }
    map
}

#[test]
fn deflate_gives_a_zlib_stream() {
    let data: Vec<u8> = (0..2000u32).map(|k| (k % 7) as u8).collect();
    let packed = deflate(&data);
    assert_ne!(packed, data);
    assert!(packed.len() < data.len());
    assert_eq!(packed[0], 0x78);
    assert_eq!(inflate(&packed), data);
    assert_eq!(inflate(&deflate(&[])), Vec::<u8>::new());
}

#[test]
fn deflate_is_repeatable() {
    let data = b"the same bytes give the same stream".to_vec();
    assert_eq!(deflate(&data), deflate(&data));
    assert_eq!(deflate(&data), miniz_oxide::deflate::compress_to_vec_zlib(&data, 6));
}

#[test]
fn buffer_must_fit_dimensions_and_layout() {
    assert!(image(ImageFormat::Png, ColorLayout::Luma8, 2, 3, vec![0; 6]).is_well_formed());
    assert!(image(ImageFormat::Png, ColorLayout::LumaA8, 2, 3, vec![0; 12]).is_well_formed());
    assert!(image(ImageFormat::Png, ColorLayout::Rgb8, 2, 3, vec![0; 18]).is_well_formed());
    assert!(image(ImageFormat::Png, ColorLayout::Rgba8, 2, 3, vec![0; 24]).is_well_formed());
    assert!(image(ImageFormat::Png, ColorLayout::Rgba8, 0, 3, vec![]).is_well_formed());
    assert!(!image(ImageFormat::Png, ColorLayout::Rgba8, 2, 3, vec![0; 23]).is_well_formed());
    assert!(!image(ImageFormat::Png, ColorLayout::Luma8, 2, 3, vec![0; 7]).is_well_formed());
    assert!(!image(ImageFormat::Png, ColorLayout::Rgb8, u32::MAX, u32::MAX, vec![0; 3])
        .is_well_formed());
}

#[test]
fn layouts_know_their_samples() {
    assert_eq!(ColorLayout::Luma8.channels(), 1);
    assert_eq!(ColorLayout::LumaA8.channels(), 2);
    assert_eq!(ColorLayout::Rgb8.channels(), 3);
    assert_eq!(ColorLayout::Rgba8.channels(), 4);
    assert!(!ColorLayout::Luma8.has_alpha());
    assert!(ColorLayout::LumaA8.has_alpha());
    assert!(!ColorLayout::Rgb8.has_alpha());
    assert!(ColorLayout::Rgba8.has_alpha());
}

#[test]
fn colour_samples_drop_alpha_and_spread_luminance() {
    let luma = image(ImageFormat::Png, ColorLayout::Luma8, 2, 1, vec![10, 20]);
    assert_eq!(luma.rgb_samples(), vec![10, 10, 10, 20, 20, 20]);
    let luma_a = image(ImageFormat::Png, ColorLayout::LumaA8, 2, 1, vec![10, 1, 20, 2]);
    assert_eq!(luma_a.rgb_samples(), vec![10, 10, 10, 20, 20, 20]);
    let rgb = image(ImageFormat::Png, ColorLayout::Rgb8, 2, 1, vec![1, 2, 3, 4, 5, 6]);
    assert_eq!(rgb.rgb_samples(), vec![1, 2, 3, 4, 5, 6]);
    let rgba = image(ImageFormat::Png, ColorLayout::Rgba8, 2, 1, vec![1, 2, 3, 9, 4, 5, 6, 8]);
    assert_eq!(rgba.rgb_samples(), vec![1, 2, 3, 4, 5, 6]);
    assert_eq!(rgba.pixel_count(), 2);
}

#[test]
fn alpha_samples_are_one_for_each_pixel() {
    let luma_a = image(ImageFormat::Png, ColorLayout::LumaA8, 2, 1, vec![10, 1, 20, 2]);
    assert_eq!(luma_a.alpha_samples(), vec![1, 2]);
    let rgba = image(ImageFormat::Png, ColorLayout::Rgba8, 2, 1, vec![1, 2, 3, 9, 4, 5, 6, 8]);
    assert_eq!(rgba.alpha_samples(), vec![9, 8]);
    let rgb = image(ImageFormat::Png, ColorLayout::Rgb8, 2, 1, vec![1, 2, 3, 4, 5, 6]);
    assert_eq!(rgb.alpha_samples(), vec![255, 255]);
}

#[test]
fn grey_image_is_deflated_as_it_is() {
    let samples: Vec<u8> = (0..12).collect();
    for format in [ImageFormat::Png, ImageFormat::Other] {
        let img = image(format, ColorLayout::Luma8, 4, 3, samples.clone());
        let (data, filter, color_space) = encode_image(&img).unwrap();
        assert_eq!(filter, Filter::FlateDecode);
        assert_eq!(color_space, ColorSpace::DeviceGray);
        assert_eq!(inflate(&data), samples);
    }
}

#[test]
fn other_images_are_deflated_as_rgb() {
    let rgba = image(ImageFormat::Png, ColorLayout::Rgba8, 1, 2, vec![1, 2, 3, 100, 4, 5, 6, 200]);
    let (data, filter, color_space) = encode_image(&rgba).unwrap();
    assert_eq!(filter, Filter::FlateDecode);
    assert_eq!(color_space, ColorSpace::DeviceRgb);
    assert_eq!(inflate(&data), vec![1, 2, 3, 4, 5, 6]);

    let rgb = image(ImageFormat::Other, ColorLayout::Rgb8, 1, 1, vec![7, 8, 9]);
    let (data, filter, color_space) = encode_image(&rgb).unwrap();
    assert_eq!((filter, color_space), (Filter::FlateDecode, ColorSpace::DeviceRgb));
    assert_eq!(inflate(&data), vec![7, 8, 9]);

    let luma_a = image(ImageFormat::Jpeg, ColorLayout::LumaA8, 1, 1, vec![50, 60]);
    let (data, filter, color_space) = encode_image(&luma_a).unwrap();
    assert_eq!((filter, color_space), (Filter::FlateDecode, ColorSpace::DeviceRgb));
    assert_eq!(inflate(&data), vec![50, 50, 50]);
}

#[test]
fn jpeg_sources_are_passed_through() {
    let source = vec![0xff, 0xd8, 1, 2, 3, 4, 0xff, 0xd9];
    let mut grey = image(ImageFormat::Jpeg, ColorLayout::Luma8, 16, 8, (0..128).collect());
    grey.source = source.clone();
    assert_eq!(
        encode_image(&grey),
        Ok((source.clone(), Filter::DctDecode, ColorSpace::DeviceGray))
    );

    let mut colour = image(ImageFormat::Jpeg, ColorLayout::Rgb8, 8, 8, (0..192).collect());
    colour.source = source.clone();
    assert_eq!(
        encode_image(&colour),
        Ok((source.clone(), Filter::DctDecode, ColorSpace::DeviceRgb))
    );

    // What is passed through is not read: neither the samples nor the size.
    let mut odd = image(ImageFormat::Jpeg, ColorLayout::Rgb8, 70000, 3, vec![1, 2]);
    odd.source = vec![];
    assert_eq!(encode_image(&odd), Ok((vec![], Filter::DctDecode, ColorSpace::DeviceRgb)));
}

#[test]
fn only_jpeg_sources_of_one_or_three_channels_are_passed_through() {
    let mut png = image(ImageFormat::Png, ColorLayout::Rgb8, 1, 1, vec![1, 2, 3]);
    png.source = vec![9, 9, 9];
    let (data, filter, _) = encode_image(&png).unwrap();
    assert_eq!(filter, Filter::FlateDecode);
    assert_eq!(inflate(&data), vec![1, 2, 3]);

    let mut clear = image(ImageFormat::Jpeg, ColorLayout::Rgba8, 1, 1, vec![1, 2, 3, 4]);
    clear.source = vec![9, 9, 9];
    let (data, filter, color_space) = encode_image(&clear).unwrap();
    assert_eq!((filter, color_space), (Filter::FlateDecode, ColorSpace::DeviceRgb));
    assert_eq!(inflate(&data), vec![1, 2, 3]);
}

#[test]
fn buffer_that_does_not_fit_cannot_be_encoded() {
    let short = image(ImageFormat::Png, ColorLayout::Rgb8, 2, 2, vec![0; 11]);
    assert_eq!(encode_image(&short), Err(EncodeError::Corrupt));
    let long = image(ImageFormat::Other, ColorLayout::Luma8, 2, 2, vec![0; 5]);
    assert_eq!(encode_image(&long), Err(EncodeError::Corrupt));
    let clear = image(ImageFormat::Jpeg, ColorLayout::LumaA8, 1, 1, vec![0; 3]);
    assert_eq!(encode_image(&clear), Err(EncodeError::Corrupt));
    let wide = image(ImageFormat::Png, ColorLayout::Luma8, 65536, 1, vec![0; 65536]);
    assert!(encode_image(&wide).is_ok());
}

#[test]
fn alpha_channel_is_deflated() {
    let rgba = image(ImageFormat::Png, ColorLayout::Rgba8, 1, 2, vec![1, 2, 3, 100, 4, 5, 6, 200]);
    let (data, filter) = encode_alpha(&rgba);
    assert_eq!(filter, Filter::FlateDecode);
    assert_eq!(inflate(&data), vec![100, 200]);
}

#[test]
fn every_image_with_alpha_gets_the_next_mask() {
    let opaque = image(ImageFormat::Png, ColorLayout::Rgb8, 1, 1, vec![1, 2, 3]);
    let clear = image(ImageFormat::Png, ColorLayout::Rgba8, 1, 1, vec![1, 2, 3, 4]);
    let grey_clear = image(ImageFormat::Png, ColorLayout::LumaA8, 2, 1, vec![9, 8, 7, 6]);
    let grey = image(ImageFormat::Png, ColorLayout::Luma8, 1, 1, vec![5]);
    let store = ImageStore { images: vec![opaque, clear, grey_clear, grey] };
    // In the order of first use: 2, 0, 3, 1.
    let map = image_map(&[2, 0, 3, 1]);
    let refs = Refs::new(1, 0, 4, 2).unwrap();
    let objects = write_images(&refs, &map, &store);
    assert_eq!(objects.len(), 4);
    let ids: Vec<Ref> = objects.iter().map(|o| o.image.id).collect();
    assert_eq!(ids, refs.images());
    assert_eq!(ids, vec![Ref(5), Ref(6), Ref(7), Ref(8)]);

    let masks: Vec<Ref> = objects.iter().filter_map(|o| o.mask.as_ref().map(|m| m.id)).collect();
    assert_eq!(masks, vec![refs.alpha_mask(0), refs.alpha_mask(1)]);
    assert_eq!(masks, vec![Ref(9), Ref(10)]);
    assert_eq!(refs.end(), 11);
    assert!(objects[0].mask.is_some());
    assert!(objects[1].mask.is_none());
    assert!(objects[2].mask.is_none());
    assert!(objects[3].mask.is_some());

    let first = &objects[0];
    assert_eq!((first.image.width, first.image.height), (2, 1));
    assert_eq!(first.image.filter, Some(Filter::FlateDecode));
    assert_eq!(first.image.color_space, ColorSpace::DeviceRgb);
    assert_eq!(first.image.bits_per_component, 8);
    assert_eq!(inflate(&first.image.data), vec![9, 9, 9, 7, 7, 7]);
    let mask = first.mask.as_ref().unwrap();
    assert_eq!((mask.width, mask.height), (2, 1));
    assert_eq!(mask.filter, Some(Filter::FlateDecode));
    assert_eq!(mask.color_space, ColorSpace::DeviceGray);
    assert_eq!(mask.bits_per_component, 8);
    assert_eq!(inflate(&mask.data), vec![8, 6]);

    let last = &objects[3];
    assert_eq!(inflate(&last.image.data), vec![1, 2, 3]);
    assert_eq!(inflate(&last.mask.as_ref().unwrap().data), vec![4]);
    assert_eq!(objects[2].image.color_space, ColorSpace::DeviceGray);
}

#[test]
fn image_that_cannot_be_encoded_becomes_a_placeholder() {
    let corrupt = image(ImageFormat::Png, ColorLayout::Rgba8, 2, 2, vec![0; 15]);
    let fine = image(ImageFormat::Png, ColorLayout::LumaA8, 1, 1, vec![3, 4]);
    let store = ImageStore { images: vec![corrupt, fine] };
    let map = image_map(&[0, 1]);
    // One mask: the image that cannot be encoded gets none.
    let refs = Refs::new(0, 0, 2, 1).unwrap();
    let objects = write_images(&refs, &map, &store);
    assert_eq!(objects.len(), 2);
    let placeholder = &objects[0];
    assert_eq!(placeholder.image.id, Ref(3));
    assert_eq!(placeholder.image.data, Vec::<u8>::new());
    assert_eq!(placeholder.image.filter, None);
    assert_eq!((placeholder.image.width, placeholder.image.height), (0, 0));
    assert_eq!(placeholder.image.color_space, ColorSpace::DeviceGray);
    assert_eq!(placeholder.image.bits_per_component, 1);
    assert!(placeholder.mask.is_none());
    assert_eq!(objects[1].image.id, Ref(4));
    assert_eq!(inflate(&objects[1].image.data), vec![3, 3, 3]);
    assert_eq!(objects[1].mask.as_ref().unwrap().id, Ref(5));
    assert_eq!(inflate(&objects[1].mask.as_ref().unwrap().data), vec![4]);
    assert_eq!(refs.end(), 6);
}

#[test]
fn image_store_finds_images_by_number() {
    let store = ImageStore {
        images: vec![image(ImageFormat::Png, ColorLayout::Luma8, 1, 1, vec![3])],
    };
    assert!(store.contains(pdf_export::layout::ImageId(0)));
    assert!(!store.contains(pdf_export::layout::ImageId(1)));
    assert_eq!(store.get(pdf_export::layout::ImageId(0)).samples, vec![3]);
}
