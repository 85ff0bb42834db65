use cfml_browser::ink::{coverage, InkStats};

fn png(w: u32, h: u32, f: impl Fn(u32, u32) -> [u8; 3]) -> Vec<u8> {
    let mut img = image::RgbImage::new(w, h);
    for y in 0..h {
        for x in 0..w {
            img.put_pixel(x, y, image::Rgb(f(x, y)));
        }
    }
    let mut out = std::io::Cursor::new(Vec::new());
    img.write_to(&mut out, image::ImageFormat::Png).unwrap();
    out.into_inner()
}

#[test]
fn blank_capture_has_no_ink() {
    let st = coverage(&png(4, 3, |_, _| [255, 255, 255]));
    assert_eq!(st, InkStats { pixels: 12, dominant: 12, distinct: 1 });
    let dark = coverage(&png(2, 2, |_, _| [10, 10, 10]));
    assert_eq!(dark, InkStats { pixels: 4, dominant: 4, distinct: 1 });
}

#[test]
fn painted_pixels_count_as_ink() {
    let st = coverage(&png(4, 2, |x, y| if x == 0 && y == 0 { [0, 0, 0] } else if x == 1 { [255, 0, 0] } else { [255, 255, 255] }));
    assert_eq!(st, InkStats { pixels: 8, dominant: 5, distinct: 3 });
}

#[test]
fn not_a_png() {
    assert_eq!(coverage(b"not a png"), InkStats { pixels: 0, dominant: 0, distinct: 0 });
}
