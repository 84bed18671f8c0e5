use identicon::digest::DigestAlgorithm;
use identicon::encode::{encode, encoding_result};
use identicon::params::{Format, RenderParameters};
use identicon::rejection::Rejection;
use identicon::render::render;
use identicon::service::{
    answer_status, gen_identicon, identicon, resolve, try_gen_identicon, STATUS_OK,
};
use image::GenericImageView;

const PNG_SIGNATURE: [u8; 8] = [0x89, b'P', b'N', b'G', 0x0d, 0x0a, 0x1a, 0x0a];

fn default_parameters() -> RenderParameters {
    RenderParameters {
        grid_size: 5,
        padding: 0,
        resolution: 200,
        symmetrical: true,
        format: Format::Png,
    }
}

#[test]
fn a_request_without_parameters_gets_the_defaults() {
    assert_eq!(resolve(Some("alice"), Some("png"), None), Ok(default_parameters()));
    assert_eq!(resolve(Some("alice"), None, None), Ok(default_parameters()));
    assert_eq!(resolve(Some("alice"), None, Some("")), Ok(default_parameters()));
    assert_eq!(resolve(Some("alice"), None, Some("colour=red")), Ok(default_parameters()));
}

#[test]
fn a_request_names_its_parameters() {
    assert_eq!(
        resolve(Some("alice"), Some("bmp"), Some("size=7&pad=10&res=70&sym=false")),
        Ok(RenderParameters {
            grid_size: 7,
            padding: 10,
            resolution: 70,
            symmetrical: false,
            format: Format::Bmp
        })
    );
    assert_eq!(
        resolve(Some("alice"), Some("jpeg"), Some("size=13")),
        Ok(RenderParameters {
            grid_size: 13,
            padding: 0,
            resolution: 195,
            symmetrical: true,
            format: Format::Jpeg
        })
    );
}

#[test]
fn a_request_without_a_name_is_turned_down_first() {
    assert_eq!(resolve(None, Some("png"), None), Err(Rejection::MissingIdentifier));
    assert_eq!(resolve(Some(""), Some("png"), None), Err(Rejection::MissingIdentifier));
    assert_eq!(resolve(None, None, Some("res=199")), Err(Rejection::MissingIdentifier));
    assert_eq!(resolve(None, Some("ico"), Some("size=0&pad=900")), Err(Rejection::MissingIdentifier));
    assert_eq!(gen_identicon("GET", None, None, None), Err(Rejection::MissingIdentifier));
}

#[test]
fn only_get_is_served() {
    for method in ["POST", "PUT", "HEAD", "DELETE", "get", "Get", "", "GET "] {
        assert_eq!(
            gen_identicon(method, Some("alice"), Some("png"), None),
            Err(Rejection::MethodNotAllowed),
            "{:?}",
            method
        );
    }
    assert_eq!(gen_identicon("POST", None, None, Some("res=199")), Err(Rejection::MethodNotAllowed));
    assert!(gen_identicon("GET", Some("alice"), Some("png"), None).is_ok());
}

#[test]
fn the_identicon_of_alice() {
    let icon = gen_identicon("GET", Some("alice"), Some("png"), None).unwrap();
    assert_eq!(icon.content_type, "image/png");
    assert_eq!(icon.body[..8], PNG_SIGNATURE);
    let decoded = image::load_from_memory(&icon.body).unwrap();
    assert_eq!(decoded.dimensions(), (200, 200));
    let painted = render(&default_parameters(), DigestAlgorithm::Sha224.digest(b"alice"));
    for y in 0..200 {
        for x in 0..200 {
            assert_eq!(decoded.get_pixel(x, y), painted.get_pixel(x, y));
        }
    }
    assert_eq!(decoded.get_pixel(0, 0).0, [56, 183, 229, 255]);
    assert_eq!(decoded.get_pixel(40, 0).0, [0, 0, 0, 0]);
    assert_eq!(decoded.get_pixel(199, 0).0, [56, 183, 229, 255]);
}

#[test]
fn a_resolution_of_199_is_turned_down_and_200_recommended() {
    let answer = gen_identicon("GET", Some("alice"), Some("png"), Some("res=199"));
    assert_eq!(answer, Err(Rejection::ResolutionNotDivisible { recommended: 200 }));
    let rejection = answer.unwrap_err();
    assert_eq!(rejection.status(), 400);
    assert_eq!(rejection.recommended_size(), Some(200));
    assert_eq!(rejection.message(), "The resolution must be evenly divisible by the size");
}

#[test]
fn two_answers_to_one_request_are_the_same() {
    for (name, extension, query) in [
        ("alice", "png", None),
        ("alice", "bmp", Some("size=8&res=64&pad=3")),
        ("bob", "jpeg", Some("size=14")),
        ("carol", "ico", Some("size=21&res=42&sym=false")),
        ("dave", "png", Some("res=7")),
    ] {
        let first = gen_identicon("GET", Some(name), Some(extension), query);
        let second = gen_identicon("GET", Some(name), Some(extension), query);
        assert_eq!(first, second);
    }
}

#[test]
fn other_names_and_other_parameters_give_other_images() {
    let alice = gen_identicon("GET", Some("alice"), Some("png"), None).unwrap();
    let upper = gen_identicon("GET", Some("Alice"), Some("png"), None).unwrap();
    let flat = gen_identicon("GET", Some("alice"), Some("png"), Some("sym=false")).unwrap();
    assert_ne!(alice.body, upper.body);
    assert_ne!(alice.body, flat.body);
}

#[test]
fn an_ico_file_of_260_pixels_is_turned_down() {
    assert_eq!(
        gen_identicon("GET", Some("alice"), Some("ico"), Some("size=5&pad=30&res=200")),
        Err(Rejection::ContainerSizeExceeded)
    );
}

#[test]
fn an_ico_file_of_200_pixels_is_written() {
    let icon = gen_identicon("GET", Some("alice"), Some("ico"), Some("size=5&pad=0&res=200")).unwrap();
    assert_eq!(icon.content_type, "image/ico");
    assert_eq!(icon.body[..4], [0, 0, 1, 0]);
    // One image, 200 pixels wide and high.
    assert_eq!(icon.body[4..8], [1, 0, 200, 200]);
    let decoded = image::load_from_memory_with_format(&icon.body, image::ImageFormat::Ico).unwrap();
    assert_eq!(decoded.dimensions(), (200, 200));
    assert_eq!(decoded.get_pixel(0, 0).0, [56, 183, 229, 255]);
}

#[test]
fn an_ico_file_may_be_256_pixels_with_its_padding() {
    let icon = gen_identicon("GET", Some("alice"), Some("ico"), Some("pad=28")).unwrap();
    let decoded = image::load_from_memory_with_format(&icon.body, image::ImageFormat::Ico).unwrap();
    assert_eq!(decoded.dimensions(), (256, 256));
    assert_eq!(
        gen_identicon("GET", Some("alice"), Some("ico"), Some("pad=29")),
        Err(Rejection::ContainerSizeExceeded)
    );
    assert!(gen_identicon("GET", Some("alice"), Some("png"), Some("pad=29")).is_ok());
}

#[test]
fn a_grid_size_of_22_is_turned_down() {
    let answer = gen_identicon("GET", Some("alice"), Some("png"), Some("size=22"));
    assert_eq!(answer, Err(Rejection::GridSizeOutOfRange));
    let rejection = answer.unwrap_err();
    assert_eq!(rejection.status(), 400);
    assert_ne!(
        rejection.message(),
        Rejection::ResolutionNotDivisible { recommended: 198 }.message()
    );
    for query in [
        "size=22&res=22",
        "size=22&res=220&pad=4",
        "size=22&res=198&sym=false",
        "size=22&res=200",
        "size=22&res=2200",
        "size=22&res=0",
    ] {
        for extension in ["png", "bmp", "jpeg", "ico"] {
            assert!(gen_identicon("GET", Some("alice"), Some(extension), Some(query)).is_err());
        }
    }
}

#[test]
fn a_grid_size_of_zero_is_turned_down() {
    assert_eq!(
        gen_identicon("GET", Some("alice"), Some("png"), Some("size=0")),
        Err(Rejection::GridSizeOutOfRange)
    );
    assert_eq!(
        gen_identicon("GET", Some("alice"), Some("png"), Some("size=0&res=200")),
        Err(Rejection::GridSizeOutOfRange)
    );
}

#[test]
fn the_rules_are_checked_in_their_order() {
    let ask = |query: &str| gen_identicon("GET", Some("alice"), Some("ico"), Some(query));
    assert_eq!(ask("size=22&res=2001&pad=500"), Err(Rejection::ResolutionNotDivisible { recommended: 2002 }));
    assert_eq!(ask("size=22&res=2200&pad=500"), Err(Rejection::ResolutionTooLarge));
    assert_eq!(ask("size=22&res=220&pad=500"), Err(Rejection::ContainerSizeExceeded));
    assert_eq!(ask("size=22&res=0&pad=500"), Err(Rejection::ContainerSizeExceeded));
    assert_eq!(ask("size=22&res=0"), Err(Rejection::CellSizeZero));
    assert_eq!(ask("size=22&res=220"), Err(Rejection::GridSizeOutOfRange));
    assert_eq!(ask("res=1005"), Err(Rejection::ResolutionTooLarge));
    assert_eq!(ask("res=0"), Err(Rejection::CellSizeZero));
}

#[test]
fn the_media_type_spells_the_extension_as_the_request_did() {
    let jpg = gen_identicon("GET", Some("alice"), Some("jpg"), None).unwrap();
    assert_eq!(jpg.content_type, "image/jpg");
    assert_eq!(jpg.body[..8], PNG_SIGNATURE);
    let none = gen_identicon("GET", Some("alice"), None, None).unwrap();
    assert_eq!(none.content_type, "image/png");
    assert_eq!(none.body[..8], PNG_SIGNATURE);
    let upper = gen_identicon("GET", Some("alice"), Some("BMP"), None).unwrap();
    assert_eq!(upper.content_type, "image/BMP");
    assert_eq!(upper.body[..8], PNG_SIGNATURE);
    let empty = gen_identicon("GET", Some("alice"), Some(""), None).unwrap();
    assert_eq!(empty.content_type, "image/");
    assert_eq!(empty.body, none.body);
}

#[test]
fn each_container_is_written_by_its_encoder() {
    let bmp = gen_identicon("GET", Some("alice"), Some("bmp"), Some("res=50")).unwrap();
    assert_eq!(bmp.content_type, "image/bmp");
    assert_eq!(bmp.body[..2], [b'B', b'M']);
    let decoded = image::load_from_memory_with_format(&bmp.body, image::ImageFormat::Bmp).unwrap();
    assert_eq!(decoded.dimensions(), (50, 50));
    assert_eq!(decoded.get_pixel(0, 0).0, [56, 183, 229, 255]);

    let jpeg = gen_identicon("GET", Some("alice"), Some("jpeg"), Some("res=50")).unwrap();
    assert_eq!(jpeg.content_type, "image/jpeg");
    assert_eq!(jpeg.body[..2], [0xff, 0xd8]);
    let decoded = image::load_from_memory_with_format(&jpeg.body, image::ImageFormat::Jpeg).unwrap();
    assert_eq!(decoded.dimensions(), (50, 50));

    let png = gen_identicon("GET", Some("alice"), Some("png"), Some("res=50")).unwrap();
    assert_eq!(png.body[..8], PNG_SIGNATURE);
    let decoded = image::load_from_memory_with_format(&png.body, image::ImageFormat::Png).unwrap();
    assert_eq!(decoded.dimensions(), (50, 50));
}

#[test]
fn encoding_keeps_every_pixel() {
    let params = RenderParameters {
        grid_size: 6,
        padding: 5,
        resolution: 36,
        symmetrical: true,
        format: Format::Png,
    };
    let painted = render(&params, DigestAlgorithm::Sha224.digest(b"trent"));
    for format in [Format::Png, Format::Bmp, Format::Ico] {
        let bytes = encode(&painted, format).unwrap();
        let decoded = image::load_from_memory(&bytes).unwrap();
        assert_eq!(decoded.dimensions(), (46, 46));
        for y in 0..46 {
            for x in 0..46 {
                assert_eq!(decoded.get_pixel(x, y), painted.get_pixel(x, y));
            }
        }
    }
}

#[test]
fn an_encoder_that_fails_is_reported() {
    let too_large_for_ico = image::DynamicImage::new_rgba8(300, 300);
    assert_eq!(encode(&too_large_for_ico, Format::Ico), Err(Rejection::EncodingFailure));
    assert!(encode(&too_large_for_ico, Format::Png).is_ok());
    let failure = image::ImageError::IoError(std::io::Error::new(std::io::ErrorKind::Other, "full"));
    assert_eq!(encoding_result(Err(failure)), Err(Rejection::EncodingFailure));
    assert_eq!(encoding_result(Ok(vec![1, 2, 3])), Ok(vec![1, 2, 3]));
    assert_eq!(encoding_result(Ok(Vec::new())), Ok(Vec::new()));
}

#[test]
fn the_identicon_of_a_name_under_given_parameters() {
    let params = RenderParameters {
        grid_size: 4,
        padding: 7,
        resolution: 40,
        symmetrical: true,
        format: Format::Png,
    };
    let icon = identicon("alice", "png", &params).unwrap();
    assert_eq!(icon.content_type, "image/png");
    let decoded = image::load_from_memory(&icon.body).unwrap();
    assert_eq!(decoded.dimensions(), (54, 54));
    assert_eq!(decoded.get_pixel(7, 7).0, [56, 183, 229, 255]);
    assert_eq!(decoded.get_pixel(46, 7).0, [56, 183, 229, 255]);
    assert_eq!(decoded.get_pixel(17, 7).0, [0, 0, 0, 0]);
    assert_eq!(decoded.get_pixel(6, 7).0, [0, 0, 0, 0]);
    let same = gen_identicon("GET", Some("alice"), Some("png"), Some("size=4&pad=7&res=40")).unwrap();
    assert_eq!(icon, same);
}

#[test]
fn names_are_hashed_byte_for_byte() {
    let plain = gen_identicon("GET", Some("zoe"), Some("png"), None).unwrap();
    let accented = gen_identicon("GET", Some("zo\u{eb}"), Some("png"), None).unwrap();
    assert_ne!(plain.body, accented.body);
    let digest = DigestAlgorithm::Sha224.digest("zo\u{eb}".as_bytes());
    let decoded = image::load_from_memory(&accented.body).unwrap();
    let painted = render(&default_parameters(), digest);
    assert_eq!(decoded.to_rgba8(), painted.to_rgba8());
}

#[test]
fn parameters_in_reach_are_told_from_those_out_of_reach() {
    let mut params = default_parameters();
    assert!(params.fits());
    params.padding = 5000;
    assert!(params.fits());
    params.format = Format::Bmp;
    assert!(params.fits());
    params.padding = 16_283;
    params.resolution = 1000;
    // 33566 pixels a side: 4506705424 bytes, more than a BMP file counts.
    assert!(!params.fits());
    params.padding = 15_883;
    // 32766 pixels a side: 4294443024 bytes.
    assert!(params.fits());
    params.padding = u32::MAX;
    assert!(!params.fits());
    params.format = Format::Png;
    assert!(!params.fits());
}

#[test]
fn a_request_out_of_reach_is_not_painted() {
    assert_eq!(try_gen_identicon("GET", Some("alice"), Some("png"), Some("pad=4000000000")), None);
    assert_eq!(try_gen_identicon("GET", Some("alice"), Some("bmp"), Some("pad=16500")), None);
}

#[test]
fn a_request_in_reach_is_answered_as_ever() {
    for (method, name, extension, query) in [
        ("GET", Some("alice"), Some("png"), None),
        ("GET", Some("alice"), Some("ico"), Some("pad=30")),
        ("GET", Some("alice"), Some("bmp"), Some("res=199")),
        ("GET", None, None, Some("pad=4000000000")),
        ("POST", Some("alice"), Some("png"), Some("pad=4000000000")),
        ("GET", Some("alice"), Some("png"), Some("pad=4000000000&size=22")),
        ("GET", Some("bob"), Some("jpeg"), Some("size=9&res=90&pad=1&sym=false")),
    ] {
        assert_eq!(
            try_gen_identicon(method, name, extension, query),
            Some(gen_identicon(method, name, extension, query))
        );
    }
}

#[test]
fn an_image_is_sent_with_200_and_a_rejection_with_its_status() {
    assert_eq!(STATUS_OK, 200);
    assert_eq!(answer_status(&gen_identicon("GET", Some("alice"), Some("png"), None)), 200);
    assert_eq!(answer_status(&gen_identicon("PUT", Some("alice"), Some("png"), None)), 405);
    assert_eq!(answer_status(&gen_identicon("GET", None, Some("png"), None)), 404);
    assert_eq!(answer_status(&gen_identicon("GET", Some("alice"), None, Some("res=199"))), 400);
    assert_eq!(answer_status(&gen_identicon("GET", Some("alice"), None, Some("size=22"))), 400);
    assert_eq!(answer_status(&Err(Rejection::EncodingFailure)), 500);
}
