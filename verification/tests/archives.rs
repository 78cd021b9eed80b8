use std::io::Write;

use comic_library::decode::{decode_page, fit_within};
use comic_library::error::{ErrorKind, PageError};
use comic_library::images::{
    get_book_image_context, load_cover_image, load_image, load_images, COVER_HEIGHT, COVER_WIDTH,
};
use comic_library::raster::PageImage;

fn png(width: u32, height: u32, colour: [u8; 4]) -> Vec<u8> {
    let picture = image::RgbaImage::from_pixel(width, height, image::Rgba(colour));
    let mut bytes = Vec::new();
    picture
        .write_to(&mut std::io::Cursor::new(&mut bytes), image::ImageOutputFormat::Png)
        .unwrap();
    bytes
}

fn jpeg(width: u32, height: u32) -> Vec<u8> {
    let picture = image::RgbImage::from_pixel(width, height, image::Rgb([200, 100, 50]));
    let mut bytes = Vec::new();
    picture
        .write_to(&mut std::io::Cursor::new(&mut bytes), image::ImageOutputFormat::Jpeg(90))
        .unwrap();
    bytes
}

fn archive_with(method: zip::CompressionMethod, entries: &[(&str, Vec<u8>)]) -> Vec<u8> {
    let mut writer = zip::ZipWriter::new(std::io::Cursor::new(Vec::new()));
    let options = zip::write::FileOptions::default().compression_method(method);
    for (name, data) in entries {
        writer.start_file(*name, options).unwrap();
        writer.write_all(data).unwrap();
    }
    writer.finish().unwrap().into_inner()
}

fn archive(entries: &[(&str, Vec<u8>)]) -> Vec<u8> {
    archive_with(zip::CompressionMethod::Stored, entries)
}

fn size(image: &PageImage) -> (u32, u32) {
    (image.width(), image.height())
}

fn sizes(images: &[PageImage]) -> Vec<(u32, u32)> {
    images.iter().map(size).collect()
}

fn corrupt() -> Vec<u8> {
    b"this is not a picture".to_vec()
}

#[test]
fn decoding_gives_the_pixels_of_the_picture() {
    let mut picture = image::RgbaImage::new(2, 1);
    picture.put_pixel(0, 0, image::Rgba([1, 2, 3, 4]));
    picture.put_pixel(1, 0, image::Rgba([5, 6, 7, 8]));
    let mut bytes = Vec::new();
    picture
        .write_to(&mut std::io::Cursor::new(&mut bytes), image::ImageOutputFormat::Png)
        .unwrap();
    let page = decode_page(&bytes).unwrap();
    assert_eq!(page.width(), 2);
    assert_eq!(page.height(), 1);
    assert_eq!(page.pixels(), &vec![1, 2, 3, 4, 5, 6, 7, 8]);
    assert_eq!(page.into_pixels(), vec![1, 2, 3, 4, 5, 6, 7, 8]);
}

#[test]
fn decoding_a_picture_without_alpha_makes_it_opaque() {
    let page = decode_page(&jpeg(8, 8)).unwrap();
    assert_eq!(size(&page), (8, 8));
    assert_eq!(page.pixels().len(), 4 * 8 * 8);
    assert!(page.pixels().chunks(4).all(|pixel| pixel[3] == 255));
}

#[test]
fn decoding_what_is_no_picture_gives_none() {
    assert!(decode_page(&corrupt()).is_none());
    assert!(decode_page(&Vec::new()).is_none());
}

#[test]
fn a_picture_is_made_of_exactly_its_bytes() {
    assert!(PageImage::new(2, 3, vec![0; 24]).is_some());
    assert!(PageImage::new(2, 3, vec![0; 23]).is_none());
    assert!(PageImage::new(2, 3, vec![0; 25]).is_none());
    assert!(PageImage::new(0, 3, Vec::new()).is_none());
    assert!(PageImage::new(3, 0, Vec::new()).is_none());
    assert!(PageImage::new(0, 0, Vec::new()).is_none());
    let image = PageImage::new(1, 1, vec![9, 8, 7, 6]).unwrap();
    assert_eq!(size(&image), (1, 1));
    assert_eq!(image.pixels(), &vec![9, 8, 7, 6]);
}

#[test]
fn fitting_keeps_the_proportions() {
    let tall = decode_page(&png(500, 700, [0, 0, 0, 255])).unwrap();
    assert_eq!(size(&fit_within(tall, 250, 350).unwrap()), (250, 350));
    let wide = decode_page(&png(1000, 700, [0, 0, 0, 255])).unwrap();
    let small = fit_within(wide, 250, 350).unwrap();
    assert_eq!(size(&small), (250, 175));
    assert_eq!(small.pixels().len(), 4 * 250 * 175);
    let narrow = decode_page(&png(100, 700, [0, 0, 0, 255])).unwrap();
    assert_eq!(size(&fit_within(narrow, 250, 350).unwrap()), (50, 350));
}

#[test]
fn fitting_enlarges_a_small_picture() {
    let tiny = decode_page(&png(10, 10, [7, 7, 7, 255])).unwrap();
    let grown = fit_within(tiny, 250, 350).unwrap();
    assert_eq!(size(&grown), (250, 250));
    assert!(grown.pixels().chunks(4).all(|pixel| pixel == [7, 7, 7, 255]));
}

#[test]
fn fitting_within_nothing_gives_none() {
    let one = decode_page(&png(10, 10, [0, 0, 0, 255])).unwrap();
    assert!(fit_within(one, 0, 350).is_none());
    let other = decode_page(&png(10, 10, [0, 0, 0, 255])).unwrap();
    assert!(fit_within(other, 250, 0).is_none());
}

#[test]
fn fitting_never_exceeds_the_bounds() {
    let shapes = [
        (1, 1),
        (1, 1000),
        (1000, 1),
        (250, 350),
        (251, 351),
        (249, 349),
        (350, 250),
        (3, 2),
        (700, 1),
        (2, 999),
        (640, 480),
        (333, 467),
    ];
    let bounds = [(250, 350), (1, 1), (7, 3), (1, 500), (500, 1)];
    for (width, height) in shapes {
        for (max_width, max_height) in bounds {
            let size = (width * height * 4) as usize;
            let picture = PageImage::new(width, height, vec![128; size]).unwrap();
            let small = fit_within(picture, max_width, max_height).unwrap();
            assert!(1 <= small.width() && small.width() <= max_width);
            assert!(1 <= small.height() && small.height() <= max_height);
            assert!(small.width() == max_width || small.height() == max_height);
            assert_eq!(small.pixels().len() as u32, 4 * small.width() * small.height());
        }
    }
}

#[test]
fn cover_bounds_are_250_by_350() {
    assert_eq!(COVER_WIDTH, 250);
    assert_eq!(COVER_HEIGHT, 350);
}

#[test]
fn cover_of_an_unread_file_fails_with_read_error() {
    assert_eq!(load_cover_image(None).err(), Some(PageError::Unreadable));
}

#[test]
fn cover_of_what_is_no_archive_fails_with_archive_error() {
    assert_eq!(load_cover_image(Some(corrupt())).err(), Some(PageError::NotArchive));
    assert_eq!(load_cover_image(Some(Vec::new())).err(), Some(PageError::NotArchive));
    assert_eq!(load_cover_image(Some(png(4, 4, [0; 4]))).err(), Some(PageError::NotArchive));
}

#[test]
fn cover_of_an_archive_without_pages_fails_with_not_found() {
    let bytes = archive(&[("notes.txt", b"hello".to_vec()), (".hidden.png", png(4, 4, [0; 4]))]);
    assert_eq!(load_cover_image(Some(bytes)).err(), Some(PageError::NoImage));
    assert_eq!(load_cover_image(Some(archive(&[]))).err(), Some(PageError::NoImage));
}

#[test]
fn cover_that_is_no_picture_fails_with_decode_error() {
    let bytes = archive(&[("001.png", corrupt()), ("002.png", png(4, 4, [0; 4]))]);
    assert_eq!(load_cover_image(Some(bytes)).err(), Some(PageError::NotImage));
}

#[test]
fn cover_is_the_page_whose_name_comes_first() {
    let bytes = archive(&[
        ("b.png", png(500, 700, [0, 0, 0, 255])),
        ("A.JPG", png(1000, 700, [0, 0, 0, 255])),
        (".hidden.png", png(700, 700, [0, 0, 0, 255])),
        ("c.txt", b"text".to_vec()),
    ]);
    let cover = load_cover_image(Some(bytes)).unwrap();
    assert_eq!(size(&cover), (250, 175));
}

#[test]
fn cover_fits_the_box_and_holds_its_pixels() {
    let bytes = archive(&[("page.jpeg", jpeg(640, 480))]);
    let cover = load_cover_image(Some(bytes)).unwrap();
    assert_eq!(size(&cover), (250, 188));
    assert!(cover.width() <= COVER_WIDTH && cover.height() <= COVER_HEIGHT);
    assert_eq!(cover.pixels().len(), 4 * 250 * 188);
}

#[test]
fn cover_is_read_from_compressed_entries_too() {
    let bytes = archive_with(
        zip::CompressionMethod::Deflated,
        &[("only.png", png(300, 300, [10, 20, 30, 255]))],
    );
    let cover = load_cover_image(Some(bytes)).unwrap();
    assert_eq!(size(&cover), (250, 250));
    assert!(cover.pixels().chunks(4).all(|pixel| pixel == [10, 20, 30, 255]));
}

#[test]
fn sequence_ordering() {
    let bytes = archive(&[
        ("003.jpg", png(3, 1, [0, 0, 0, 255])),
        ("001.jpg", png(1, 1, [0, 0, 0, 255])),
        ("002.jpg", png(2, 1, [0, 0, 0, 255])),
    ]);
    let images = load_images(Some(bytes)).unwrap();
    assert_eq!(sizes(&images), vec![(1, 1), (2, 1), (3, 1)]);
}

#[test]
fn pages_keep_their_full_size() {
    let bytes = archive(&[("big.png", png(600, 900, [0, 0, 0, 255]))]);
    let images = load_images(Some(bytes)).unwrap();
    assert_eq!(sizes(&images), vec![(600, 900)]);
}

#[test]
fn partial_decode_tolerance() {
    let bytes = archive(&[
        ("1.png", png(1, 1, [0, 0, 0, 255])),
        ("2.png", corrupt()),
        ("3.png", png(3, 1, [0, 0, 0, 255])),
    ]);
    let images = load_images(Some(bytes)).unwrap();
    assert_eq!(sizes(&images), vec![(1, 1), (3, 1)]);
}

#[test]
fn all_pages_corrupt_fails_with_empty_result() {
    let bytes = archive(&[("1.png", corrupt()), ("2.png", corrupt()), ("3.png", corrupt())]);
    assert_eq!(load_images(Some(bytes)).err(), Some(PageError::NothingLoaded));
}

#[test]
fn images_of_an_archive_without_pages_fail_with_empty_result() {
    let bytes = archive(&[("notes.txt", b"hello".to_vec())]);
    assert_eq!(load_images(Some(bytes)).err(), Some(PageError::NothingLoaded));
}

#[test]
fn images_of_an_unread_file_fail_with_read_error() {
    assert_eq!(load_images(None).err(), Some(PageError::Unreadable));
}

#[test]
fn images_of_what_is_no_archive_fail_with_archive_error() {
    assert_eq!(load_images(Some(corrupt())).err(), Some(PageError::NotArchive));
}

#[test]
fn hidden_and_other_files_are_no_pages() {
    let bytes = archive(&[
        ("b.png", png(2, 2, [0, 0, 0, 255])),
        ("A.JPG", png(1, 1, [0, 0, 0, 255])),
        (".hidden.png", png(9, 9, [0, 0, 0, 255])),
        ("c.txt", png(8, 8, [0, 0, 0, 255])),
    ]);
    let images = load_images(Some(bytes)).unwrap();
    assert_eq!(sizes(&images), vec![(1, 1), (2, 2)]);
}

#[test]
fn context_counts_pages_without_decoding() {
    let bytes = archive(&[
        ("2.png", corrupt()),
        ("1.png", png(1, 1, [0, 0, 0, 255])),
        ("notes.txt", b"hello".to_vec()),
    ]);
    let context = get_book_image_context(Some(bytes)).ok().unwrap();
    assert_eq!(context.len(), 2);
    assert!(!context.is_empty());
}

#[test]
fn context_of_an_archive_without_pages_is_empty() {
    let context = get_book_image_context(Some(archive(&[]))).ok().unwrap();
    assert_eq!(context.len(), 0);
    assert!(context.is_empty());
}

#[test]
fn context_is_refused_as_the_other_requests_are() {
    assert_eq!(get_book_image_context(None).err(), Some(PageError::Unreadable));
    assert_eq!(get_book_image_context(Some(corrupt())).err(), Some(PageError::NotArchive));
}

#[test]
fn pages_are_decoded_by_number() {
    let bytes = archive(&[
        ("c.png", png(3, 3, [0, 0, 0, 255])),
        ("a.png", png(1, 1, [0, 0, 0, 255])),
        ("b.png", corrupt()),
    ]);
    let mut context = get_book_image_context(Some(bytes)).ok().unwrap();
    assert_eq!(size(&load_image(&mut context, 2).unwrap()), (3, 3));
    assert_eq!(size(&load_image(&mut context, 0).unwrap()), (1, 1));
    assert_eq!(load_image(&mut context, 1).err(), Some(PageError::NotImage));
    assert_eq!(size(&load_image(&mut context, 0).unwrap()), (1, 1));
    assert_eq!(context.len(), 3);
}

#[test]
fn a_number_past_the_last_page_fails_with_not_found() {
    let bytes = archive(&[("a.png", png(1, 1, [0, 0, 0, 255]))]);
    let mut context = get_book_image_context(Some(bytes)).ok().unwrap();
    assert_eq!(load_image(&mut context, 1).err(), Some(PageError::NoSuchPage));
    assert_eq!(load_image(&mut context, usize::MAX).err(), Some(PageError::NoSuchPage));
    let mut empty = get_book_image_context(Some(archive(&[]))).ok().unwrap();
    assert_eq!(load_image(&mut empty, 0).err(), Some(PageError::NoSuchPage));
}

#[test]
fn an_entry_whose_bytes_are_damaged_fails_to_be_read() {
    let mut bytes = archive(&[("a.png", png(4, 4, [1, 2, 3, 255]))]);
    // The bytes of the entry follow its local header: 30 bytes and the name.
    let at = 30 + "a.png".len() + 20;
    bytes[at] ^= 0xFF;
    let mut context = get_book_image_context(Some(bytes.clone())).ok().unwrap();
    assert_eq!(load_image(&mut context, 0).err(), Some(PageError::BrokenEntry));
    assert_eq!(load_cover_image(Some(bytes.clone())).err(), Some(PageError::BrokenEntry));
    assert_eq!(load_images(Some(bytes)).err(), Some(PageError::NothingLoaded));
}

#[test]
fn an_entry_marked_for_a_cipher_it_does_not_use_fails_to_be_read() {
    let mut writer = zip::ZipWriter::new(std::io::Cursor::new(Vec::new()));
    let options =
        zip::write::FileOptions::default().compression_method(zip::CompressionMethod::Stored);
    writer.start_file_with_extra_data("a.png", options).unwrap();
    // An extra field of a kind of its own: kind, length, and seven bytes.
    let field = [0xFE, 0xCA, 0x07, 0x00, 0x02, 0x00, 0x41, 0x45, 0x01, 0x00, 0x00];
    writer.write_all(&field).unwrap();
    writer.end_extra_data().unwrap();
    writer.write_all(&png(2, 2, [0, 0, 0, 255])).unwrap();
    let mut bytes = writer.finish().unwrap().into_inner();
    // The same field under the kind that marks an encrypted entry.
    let mut marked = 0;
    for at in 0..bytes.len() - field.len() {
        if bytes[at..at + field.len()] == field {
            bytes[at] = 0x01;
            bytes[at + 1] = 0x99;
            marked += 1;
        }
    }
    assert_eq!(marked, 2);
    let mut context = get_book_image_context(Some(bytes.clone())).ok().unwrap();
    assert_eq!(context.len(), 1);
    assert_eq!(load_image(&mut context, 0).err(), Some(PageError::BrokenEntry));
    assert_eq!(load_cover_image(Some(bytes)).err(), Some(PageError::BrokenEntry));
}

#[test]
fn every_failure_has_its_words() {
    assert_eq!(PageError::Unreadable.message(), "Failed to read cbz file");
    assert_eq!(PageError::NotArchive.message(), "Unable to process cbz file");
    assert_eq!(PageError::NoImage.message(), "Unable to find an image in the cbz file");
    assert_eq!(PageError::NoSuchPage.message(), "Selected image not found");
    assert_eq!(PageError::BrokenEntry.message(), "Unable to read bytes");
    assert_eq!(PageError::NotImage.message(), "Unable to processes image");
    assert_eq!(PageError::NothingLoaded.message(), "No images loaded");
}

#[test]
fn every_failure_has_its_kind() {
    assert_eq!(PageError::Unreadable.kind(), ErrorKind::Read);
    assert_eq!(PageError::NotArchive.kind(), ErrorKind::Archive);
    assert_eq!(PageError::NoImage.kind(), ErrorKind::NotFound);
    assert_eq!(PageError::NoSuchPage.kind(), ErrorKind::NotFound);
    assert_eq!(PageError::BrokenEntry.kind(), ErrorKind::Decode);
    assert_eq!(PageError::NotImage.kind(), ErrorKind::Decode);
    assert_eq!(PageError::NothingLoaded.kind(), ErrorKind::EmptyResult);
}
