use harmony::display::{Display, FrameBufferInfo, Pixel, PixelFormat};

fn display(format: PixelFormat) -> Display {
    Display::new(FrameBufferInfo { width: 640, height: 480, stride: 648, pixel_format: format })
}

#[test]
fn rgb_pixels_put_red_in_the_low_byte() {
    let d = display(PixelFormat::Rgb);
    let (offset, word) = d.set_pixel_unchecked(2, 3, Pixel { red: 0x11, green: 0x22, blue: 0x33 });
    assert_eq!(offset, 2 * 648 * 4 + 3 * 4);
    assert_eq!(word, 0x0033_2211);
}

#[test]
fn bgr_pixels_put_blue_in_the_low_byte() {
    let d = display(PixelFormat::Bgr);
    let (offset, word) = d.set_pixel_unchecked(0, 0, Pixel { red: 0x11, green: 0x22, blue: 0x33 });
    assert_eq!(offset, 0);
    assert_eq!(word, 0x0011_2233);
}

#[test]
fn the_display_has_the_buffer_size() {
    let d = display(PixelFormat::Rgb);
    assert_eq!((d.width(), d.height()), (640, 480));
}
