use pixelmatch::antialias::antialiased;

fn gray_image(levels: &[u8]) -> Vec<u8> {
    let mut img: Vec<u8> = Vec::new();
    for v in levels {
        img.extend_from_slice(&[*v, *v, *v, 255]);
    }
    img
}

#[test]
fn a_pixel_between_a_dark_and_a_bright_flat_area_is_antialiased() {
    let img1: Vec<u8> = gray_image(&[
        255, 128, 0, //
        255, 255, 0, //
        255, 128, 255,
    ]);
    let img2: Vec<u8> = gray_image(&[
        255, 255, 0, //
        255, 255, 0, //
        255, 128, 255,
    ]);
    // (1, 0) is grey in the first image, between white on its left and black
    // on its right; the white pixel (0, 0) has many siblings in both images
    assert!(antialiased(&img1, 1, 0, 3, 3, &img2));
    // in the second image it is white, like five of its neighbours
    assert!(!antialiased(&img2, 1, 0, 3, 3, &img1));
    assert!(antialiased(&img1, 1, 2, 3, 3, &img2));
    assert!(antialiased(&img2, 1, 2, 3, 3, &img1));
}

#[test]
fn a_pixel_in_a_flat_area_is_not_antialiased() {
    let img: Vec<u8> = gray_image(&[
        9, 9, 9, 9, 9, //
        9, 7, 7, 0, 9, //
        9, 7, 7, 7, 9, //
        9, 255, 0, 0, 9, //
        9, 9, 9, 9, 9,
    ]);
    // four neighbours of (2, 2) are as bright as it is
    assert!(!antialiased(&img, 2, 2, 5, 5, &img));
}

#[test]
fn a_pixel_without_a_brighter_neighbor_is_not_antialiased() {
    let img: Vec<u8> = gray_image(&[
        0, 0, 0, //
        0, 200, 0, //
        0, 0, 0,
    ]);
    assert!(!antialiased(&img, 1, 1, 3, 3, &img));
}

#[test]
fn a_pixel_without_a_darker_neighbor_is_not_antialiased() {
    let img: Vec<u8> = gray_image(&[
        255, 255, 255, //
        255, 200, 255, //
        255, 255, 255,
    ]);
    assert!(!antialiased(&img, 1, 1, 3, 3, &img));
}

#[test]
fn an_edge_counts_only_with_many_siblings_in_both_images() {
    let img1: Vec<u8> = gray_image(&[
        255, 255, 255, 255, 255, //
        255, 255, 255, 255, 255, //
        255, 255, 128, 0, 0, //
        255, 255, 10, 0, 0, //
        255, 255, 20, 0, 0,
    ]);
    assert!(antialiased(&img1, 2, 2, 5, 5, &img1));
    // break up the two flat areas in the other image
    let img2: Vec<u8> = gray_image(&[
        1, 2, 3, 4, 5, //
        6, 7, 8, 9, 10, //
        11, 12, 128, 13, 14, //
        15, 16, 17, 18, 19, //
        20, 21, 22, 23, 24,
    ]);
    assert!(!antialiased(&img1, 2, 2, 5, 5, &img2));
}

#[test]
fn a_single_pixel_is_not_antialiased() {
    let img: Vec<u8> = gray_image(&[7]);
    assert!(!antialiased(&img, 0, 0, 1, 1, &img));
}
