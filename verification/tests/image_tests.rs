use stego_share::raster::{Raster, fragment_image, reassemble_images, blank_raster, display_buffer, FRAGMENT_COUNT};
use stego_share::stego::{embed_image, image_decrypt, encrypt_image};
use stego_share::codec::{decode_raster, encode_raster, scale_image_file, views_payload, encode_fragments, reassemble_fragments, low_quality_fragments, receive_views, ResizeFilter, CANVAS_SIZE};

fn raster(width: u32, height: u32, f: impl Fn(u32, u32, u32) -> u8) -> Raster {
    let mut data = Vec::new();
    for y in 0..height {
        for x in 0..width {
            for c in 0..4 {
                data.push(f(x, y, c));
            }
        }
    }
    Raster::from_flat(width, height, &data)
}

#[test]
fn flat_round_trip() {
    let data: Vec<u8> = (0..24).collect();
    let r = Raster::from_flat(3, 2, &data);
    assert_eq!(r.rows.len(), 2);
    assert_eq!(r.rows[0], (0..12).collect::<Vec<u8>>());
    assert_eq!(r.rows[1], (12..24).collect::<Vec<u8>>());
    assert_eq!(r.to_flat(), data);
}

#[test]
fn crop_rows_takes_full_width_band() {
    let img = raster(2, 5, |x, y, c| (y * 10 + x * 4 + c) as u8);
    let band = img.crop_rows(1, 3);
    assert_eq!(band.width, 2);
    assert_eq!(band.height, 3);
    assert_eq!(band.rows, img.rows[1..4].to_vec());
}

#[test]
fn fragment_image_cuts_forty_equal_bands() {
    let img = raster(3, 85, |x, y, c| (y as u8).wrapping_mul(3).wrapping_add(x as u8 + c as u8));
    let (frags, w, h) = fragment_image(&img);
    assert_eq!((w, h), (3, 85));
    assert_eq!(frags.len(), FRAGMENT_COUNT as usize);
    for (i, f) in frags.iter().enumerate() {
        assert_eq!(f.height, 2);
        assert_eq!(f.width, 3);
        assert_eq!(f.rows, img.rows[2 * i..2 * i + 2].to_vec());
    }
}

#[test]
fn fragment_image_of_short_image_gives_empty_bands() {
    let img = raster(4, 39, |_, _, _| 7);
    let (frags, _, _) = fragment_image(&img);
    assert!(frags.iter().all(|f| f.height == 0 && f.rows.is_empty()));
}

#[test]
fn blank_raster_is_zero() {
    let b = blank_raster(2, 3);
    assert_eq!(b.rows, vec![vec![0u8; 8]; 3]);
}

#[test]
fn reassemble_places_each_image_at_its_index_times_height() {
    let a = raster(1, 2, |_, _, c| 10 + c as u8);
    let b = raster(2, 2, |x, _, c| 20 + (x * 4 + c) as u8);
    let canvas = reassemble_images(&vec![a, b], 3, 5);
    assert_eq!(canvas.width, 3);
    assert_eq!(canvas.height, 5);
    assert_eq!(canvas.rows[0], vec![10, 11, 12, 13, 0, 0, 0, 0, 0, 0, 0, 0]);
    assert_eq!(canvas.rows[1], vec![10, 11, 12, 13, 0, 0, 0, 0, 0, 0, 0, 0]);
    assert_eq!(canvas.rows[2], vec![20, 21, 22, 23, 24, 25, 26, 27, 0, 0, 0, 0]);
    assert_eq!(canvas.rows[3], vec![20, 21, 22, 23, 24, 25, 26, 27, 0, 0, 0, 0]);
    assert_eq!(canvas.rows[4], vec![0u8; 12]);
}

#[test]
fn later_images_cover_earlier_ones() {
    let a = raster(2, 0, |_, _, _| 1);
    let b = raster(1, 1, |_, _, _| 9);
    let c = raster(2, 1, |_, _, _| 5);
    // b lands on row 1, c on row 2; an image without rows draws nothing
    let canvas = reassemble_images(&vec![a, b, c], 2, 3);
    assert_eq!(canvas.rows[0], vec![0u8; 8]);
    assert_eq!(canvas.rows[1], vec![9, 9, 9, 9, 0, 0, 0, 0]);
    assert_eq!(canvas.rows[2], vec![5u8; 8]);
}

#[test]
fn display_buffer_packs_rgb() {
    let img = raster(2, 1, |x, _, c| [0x12, 0x34, 0x56, 0x78][c as usize] + x as u8);
    assert_eq!(display_buffer(&img), vec![0x0012_3456, 0x0013_3557]);
}

#[test]
fn embed_keeps_cover_high_nibble_and_alpha() {
    let cover = raster(1, 1, |_, _, c| [0xAB, 0xCD, 0xEF, 0x42][c as usize]);
    let hidden = raster(1, 1, |_, _, c| [0x9F, 0x10, 0xFF, 0x00][c as usize]);
    let out = embed_image(&cover, &hidden);
    assert_eq!(out.rows[0], vec![0xA9, 0xC1, 0xEF, 0x42]);
}

#[test]
fn decrypt_moves_low_nibble_up_and_makes_alpha_opaque() {
    let carrier = raster(1, 1, |_, _, c| [0xA9, 0xC1, 0xEF, 0x42][c as usize]);
    let cover = raster(2, 2, |_, _, _| 0);
    let out = image_decrypt(&carrier, &cover);
    assert_eq!(out.rows[0], vec![0x90, 0x10, 0xF0, 0xFF]);
}

#[test]
fn decrypt_after_embed_recovers_hidden_high_nibbles() {
    let cover = raster(3, 2, |x, y, c| (x * 50 + y * 7 + c * 3) as u8);
    let hidden = raster(3, 2, |x, y, c| (255 - x * 40 - y * 11 - c) as u8);
    let carrier = embed_image(&cover, &hidden);
    let out = image_decrypt(&carrier, &cover);
    for y in 0..2 {
        for k in 0..12 {
            let expected = if k % 4 == 3 { 255 } else { hidden.rows[y][k] & 0xF0 };
            assert_eq!(out.rows[y][k], expected);
        }
    }
}

fn png(img: &Raster) -> Vec<u8> {
    encode_raster(img).expect("encodes")
}

/// A PNG file with 16 bits per channel, RGBA, of the given samples.
fn png16(width: u32, height: u32, samples: Vec<u16>) -> Vec<u8> {
    let buf = image::ImageBuffer::<image::Rgba<u16>, Vec<u16>>::from_raw(width, height, samples).unwrap();
    let mut out = std::io::Cursor::new(Vec::new());
    image::DynamicImage::ImageRgba16(buf).write_to(&mut out, image::ImageOutputFormat::Png).unwrap();
    out.into_inner()
}

#[test]
fn encrypt_image_of_same_size_hides_without_scaling() {
    let cover = raster(2, 2, |x, y, c| (x * 60 + y * 30 + c) as u8);
    let hidden = raster(2, 2, |x, y, c| (200 - x * 10 - y * 20 - c * 5) as u8);
    let out = encrypt_image(&cover, &png(&hidden)).expect("hidden file decodes");
    assert_eq!(out.rows, embed_image(&cover, &hidden).rows);
}

#[test]
fn encrypt_image_scales_hidden_to_cover_size() {
    let cover = raster(4, 4, |_, _, _| 0xF0);
    let hidden = raster(2, 2, |_, _, _| 0xA0);
    let out = encrypt_image(&cover, &png(&hidden)).expect("hidden file decodes");
    assert_eq!((out.width, out.height), (4, 4));
    // a flat picture stays flat when scaled: every colour channel carries 0xA
    for row in &out.rows {
        for (k, b) in row.iter().enumerate() {
            if k % 4 == 3 { assert_eq!(*b, 0xF0); } else { assert_eq!(*b, 0xFA); }
        }
    }
}

#[test]
fn encrypt_image_refuses_undecodable_hidden_file() {
    let cover = raster(2, 2, |_, _, _| 0);
    assert!(encrypt_image(&cover, &[0, 1, 2, 3]).is_none());
}

#[test]
fn encrypt_then_decrypt_recovers_scaled_hidden_high_nibbles() {
    let cover = raster(3, 2, |x, y, c| (x * 50 + y * 7 + c * 3) as u8);
    let hidden = raster(6, 4, |x, y, c| (255 - x * 20 - y * 11 - c) as u8);
    let file = png(&hidden);
    let carrier = encrypt_image(&cover, &file).unwrap();
    let scaled = scale_image_file(&file, 3, 2, ResizeFilter::Lanczos3).unwrap();
    let out = image_decrypt(&carrier, &cover);
    for y in 0..2 {
        for k in 0..12 {
            let expected = if k % 4 == 3 { 255 } else { scaled.rows[y][k] & 0xF0 };
            assert_eq!(out.rows[y][k], expected);
        }
    }
}

#[test]
fn png_round_trip() {
    let img = raster(5, 3, |x, y, c| (x * 31 + y * 17 + c * 5) as u8);
    let bytes = encode_raster(&img).expect("encodes");
    assert_eq!(&bytes[..8], b"\x89PNG\r\n\x1a\n");
    let back = decode_raster(&bytes).expect("decodes");
    assert_eq!((back.width, back.height), (5, 3));
    assert_eq!(back.rows, img.rows);
}

#[test]
fn png_refuses_image_without_rows() {
    let img = raster(5, 0, |_, _, _| 0);
    assert!(encode_raster(&img).is_none());
}

#[test]
fn decode_refuses_garbage() {
    assert!(decode_raster(&[1, 2, 3, 4, 5, 6, 7, 8, 9]).is_none());
}

#[test]
fn scaling_to_same_size_keeps_pixels() {
    let img = raster(3, 3, |x, y, c| (x + y * 3 + c * 9) as u8);
    let out = scale_image_file(&png(&img), 3, 3, ResizeFilter::Lanczos3).unwrap();
    assert_eq!(out.rows, img.rows);
}

#[test]
fn scaling_changes_size() {
    let img = raster(4, 6, |_, _, _| 100);
    let out = scale_image_file(&png(&img), 2, 3, ResizeFilter::Triangle).unwrap();
    assert_eq!((out.width, out.height), (2, 3));
    assert_eq!(out.rows, vec![vec![100u8; 8]; 3]);
}

#[test]
fn scaling_refuses_garbage() {
    assert!(scale_image_file(&[9, 9, 9], 2, 2, ResizeFilter::Triangle).is_none());
}

#[test]
fn empty_picture_scales_to_a_dark_picture() {
    // where a codec hands back a picture without pixels, scaling it draws
    // from nothing: colour channels are zero, alpha zero or full
    let empty = image::ImageBuffer::<image::Rgba<u8>, Vec<u8>>::new(0, 0);
    let mut out = std::io::Cursor::new(Vec::new());
    let written = image::DynamicImage::ImageRgba8(empty).write_to(&mut out, image::ImageOutputFormat::Bmp);
    if written.is_ok() && decode_raster(out.get_ref()).is_some() {
        let img = scale_image_file(out.get_ref(), 2, 2, ResizeFilter::Triangle).expect("scales");
        assert_eq!((img.width, img.height), (2, 2));
        for row in &img.rows {
            for (k, b) in row.iter().enumerate() {
                assert!(if k % 4 == 3 { *b == 0 || *b == 255 } else { *b == 0 });
            }
        }
    }
    let expected = image::DynamicImage::ImageRgba8(image::ImageBuffer::new(0, 3))
        .resize_exact(2, 2, image::imageops::FilterType::Triangle)
        .to_rgba8()
        .into_raw();
    assert_eq!(expected, vec![0u8; 16]);
}

#[test]
fn sixteen_bit_pictures_are_scaled_before_conversion() {
    // red samples 0 and 192 of 65535: their average is below half a step of
    // 8 bits, so it converts to 0; converting first would give 0 and 1
    let file = png16(2, 1, vec![0, 0, 0, 65535, 192, 0, 0, 65535]);
    let out = scale_image_file(&file, 1, 1, ResizeFilter::Triangle).unwrap();
    let expected = image::load_from_memory(&file)
        .unwrap()
        .resize_exact(1, 1, image::imageops::FilterType::Triangle)
        .to_rgba8()
        .into_raw();
    assert_eq!(out.rows[0], expected);
    assert_eq!(out.rows[0][0], 0);
}

#[test]
fn fragments_travel_and_reassemble() {
    let img = raster(7, 85, |x, y, c| (x * 13 + y * 3 + c * 50) as u8);
    let frags = encode_fragments(&img).expect("every band encodes");
    assert_eq!(frags.len(), 40);
    let canvas = reassemble_fragments(&frags).expect("fits the canvas");
    assert_eq!((canvas.width, canvas.height), (CANVAS_SIZE, CANVAS_SIZE));
    for y in 0..500 {
        if y < 80 {
            let mut expected = img.rows[y].clone();
            expected.extend(vec![0u8; 4 * 500 - 4 * 7]);
            assert_eq!(canvas.rows[y], expected);
        } else {
            assert_eq!(canvas.rows[y], vec![0u8; 2000]);
        }
    }
}

#[test]
fn short_image_has_no_fragments() {
    let img = raster(3, 20, |_, _, _| 1);
    assert!(encode_fragments(&img).is_none());
}

#[test]
fn reassemble_fragments_refuses_bad_fragment() {
    let img = raster(2, 40, |_, _, _| 3);
    let mut frags = encode_fragments(&img).unwrap();
    frags[7] = vec![0, 1, 2];
    assert!(reassemble_fragments(&frags).is_none());
}

#[test]
fn reassemble_fragments_refuses_fragment_outside_canvas() {
    let wide = raster(501, 1, |_, _, _| 3);
    let frags = vec![encode_raster(&wide).unwrap()];
    assert!(reassemble_fragments(&frags).is_none());
    let tall = raster(1, 300, |_, _, _| 3);
    let frags = vec![encode_raster(&tall).unwrap(), encode_raster(&tall).unwrap()];
    assert!(reassemble_fragments(&frags).is_none());
}

#[test]
fn preview_is_fifty_by_fifty_in_forty_bands() {
    let img = raster(100, 80, |x, _, c| if c == 3 { 255 } else { x as u8 });
    let frags = low_quality_fragments(&png(&img)).expect("preview encodes");
    assert_eq!(frags.len(), 40);
    let band = decode_raster(&frags[0]).unwrap();
    assert_eq!((band.width, band.height), (50, 1));
    let canvas = reassemble_fragments(&frags).unwrap();
    assert_eq!(canvas.rows[40], vec![0u8; 2000]);
    assert_eq!(canvas.rows[0][3], 255);
}

#[test]
fn views_are_read_as_little_endian_u64() {
    assert_eq!(receive_views(&[3, 0, 0, 0, 0, 0, 0, 0]), Some(3));
    assert_eq!(receive_views(&[1, 2, 0, 0, 0, 0, 0, 0, 99]), Some(0x201));
    assert_eq!(receive_views(&bincode::serialize(&7usize).unwrap()), Some(7));
    assert_eq!(receive_views(&[3, 0, 0]), None);
}

#[test]
fn preview_of_sixteen_bit_file_matches_the_codec() {
    let file = png16(2, 2, vec![0, 0, 0, 65535, 192, 0, 0, 65535, 0, 0, 0, 65535, 192, 0, 0, 65535]);
    let frags = low_quality_fragments(&file).expect("preview encodes");
    let expected = image::load_from_memory(&file)
        .unwrap()
        .resize_exact(50, 50, image::imageops::FilterType::Triangle)
        .to_rgba8()
        .into_raw();
    for (i, f) in frags.iter().enumerate() {
        let band = decode_raster(f).unwrap();
        assert_eq!(band.rows[0], expected[i * 200..(i + 1) * 200].to_vec());
    }
}

#[test]
fn preview_refuses_undecodable_file() {
    assert!(low_quality_fragments(&[1, 2, 3]).is_none());
}

#[test]
fn png_encodes_every_image_with_pixels() {
    let img = raster(1, 1, |_, _, _| 0);
    assert!(encode_raster(&img).is_some());
    let narrow = raster(0, 3, |_, _, _| 0);
    assert!(encode_raster(&narrow).is_none());
}

#[test]
fn cut_bands_laid_out_again_give_back_the_picture() {
    let img = raster(500, 500, |x, y, c| (x * 7 + y * 3 + c * 11) as u8);
    let (bands, _, _) = fragment_image(&img);
    let canvas = reassemble_images(&bands, 500, 500);
    for y in 0..500 {
        if y < 480 {
            assert_eq!(canvas.rows[y], img.rows[y]);
        } else {
            assert_eq!(canvas.rows[y], vec![0u8; 2000]);
        }
    }
}

#[test]
fn views_payload_is_read_back() {
    for n in [0usize, 3, 0x1234_5678, usize::MAX] {
        let p = views_payload(n);
        assert_eq!(p, bincode::serialize(&n).unwrap());
        assert_eq!(receive_views(&p), Some(n));
    }
    assert_eq!(views_payload(3), vec![3, 0, 0, 0, 0, 0, 0, 0]);
}
