use rustos::gui::boot_info_valid;
use rustos::gui::build_framebuffer;
use rustos::gui::can_use_double_buffer;
use rustos::gui::framebuffer_geometry_ok;
use rustos::gui::mark_framebuffer_write_combine;
use rustos::gui::BootInfo;
use rustos::gui::BootPixelFormat;
use rustos::gui::Framebuffer;
use rustos::gui::FramebufferInfo;
use rustos::gui::Rgb;
use rustos::gui::BOOT_INFO_MAGIC;
use rustos::gui::BOOT_INFO_VERSION;
use rustos::paging::PML4;

fn info() -> FramebufferInfo {
    FramebufferInfo {
        addr: 0xE000_0000,
        size: 4 * 16 * 3,
        back_buffer_addr: 0,
        back_buffer_size: 0,
        width: 4,
        height: 3,
        stride: 4,
        pixel_format: BootPixelFormat::Bgr,
        bytes_per_pixel: 4,
    }
}

fn small_fb() -> Framebuffer {
    build_framebuffer(&info())
}

#[test]
fn boot_info_carries_magic_and_version() {
    let bi = BootInfo::new(info());
    assert_eq!(bi.magic, BOOT_INFO_MAGIC);
    assert_eq!(bi.version, BOOT_INFO_VERSION);
    assert!(boot_info_valid(&bi));

    let stale = BootInfo { version: 2, ..bi };
    assert!(!boot_info_valid(&stale));
    let wrong = BootInfo { magic: 0, ..bi };
    assert!(!boot_info_valid(&wrong));
}

#[test]
fn geometry_validation() {
    assert!(framebuffer_geometry_ok(&info()));
    assert!(!framebuffer_geometry_ok(&FramebufferInfo { addr: 0, ..info() }));
    assert!(!framebuffer_geometry_ok(&FramebufferInfo { width: 0, ..info() }));
    assert!(!framebuffer_geometry_ok(&FramebufferInfo { stride: 3, ..info() }));
    assert!(!framebuffer_geometry_ok(&FramebufferInfo { bytes_per_pixel: 2, ..info() }));
    assert!(!framebuffer_geometry_ok(&FramebufferInfo { size: 10, ..info() }));
}

#[test]
fn build_framebuffer_fields() {
    let fb = small_fb();
    assert_eq!(fb.width, 4);
    assert_eq!(fb.height, 3);
    assert_eq!(fb.stride_bytes, 16);
    assert_eq!(fb.bpp, 4);
    assert_eq!(fb.size, 192);
    assert!(!fb.use_double_buffer);
}

#[test]
fn double_buffer_rules() {
    assert!(can_use_double_buffer(0x1000, 0x9000, 0x1000, 0x1000));
    // Overlapping regions are refused.
    assert!(!can_use_double_buffer(0x1000, 0x1800, 0x1000, 0x1000));
    // A missing or undersized back buffer is refused.
    assert!(!can_use_double_buffer(0x1000, 0, 0x1000, 0x1000));
    assert!(!can_use_double_buffer(0x1000, 0x9000, 0x1000, 0xFFF));
    assert!(!can_use_double_buffer(0x1000, 0x1000, 0x1000, 0x1000));
}

#[test]
fn clipping_against_the_screen() {
    let fb = small_fb();
    assert_eq!(fb.clipped_rect(-2, -1, 4, 3), Some((0, 0, 2, 2)));
    assert_eq!(fb.clipped_rect(1, 1, 100, 100), Some((1, 1, 4, 3)));
    assert_eq!(fb.clipped_rect(0, 0, 0, 5), None);
    assert_eq!(fb.clipped_rect(4, 0, 2, 2), None);
    assert_eq!(fb.clipped_rect(-10, 0, 5, 2), None);
}

#[test]
fn opaque_fill_writes_channel_order_and_clears_fourth_byte() {
    let fb = small_fb();
    let mut buf = vec![0xFFu8; fb.size];
    let color = Rgb { red: 10, green: 20, blue: 30 };
    fb.fill_rect(&mut buf, 1, 1, 2, 1, color, 255);

    // Pixels (1,1) and (2,1) in BGR order, fourth byte cleared.
    for px in [1usize, 2] {
        let idx = 1 * 16 + px * 4;
        assert_eq!(&buf[idx..idx + 4], &[30, 20, 10, 0]);
    }
    // A neighbour stayed untouched.
    let idx = 1 * 16 + 3 * 4;
    assert_eq!(&buf[idx..idx + 4], &[0xFF, 0xFF, 0xFF, 0xFF]);
    let idx = 0;
    assert_eq!(&buf[idx..idx + 4], &[0xFF, 0xFF, 0xFF, 0xFF]);
}

#[test]
fn blended_fill_uses_the_blend_formula_and_keeps_fourth_byte() {
    let fb = small_fb();
    let mut buf = vec![0xFFu8; fb.size];
    let color = Rgb { red: 0, green: 100, blue: 200 };
    fb.fill_rect(&mut buf, 0, 0, 1, 1, color, 128);

    // blend(c, 255, 128) == (c * 128 + 255 * 128) / 256.
    let expect = |c: u16| ((c * 128 + 255 * 128) / 256) as u8;
    assert_eq!(buf[0], expect(200));
    assert_eq!(buf[1], expect(100));
    assert_eq!(buf[2], expect(0));
    // The blended path leaves the fourth byte alone.
    assert_eq!(buf[3], 0xFF);
}

#[test]
fn transparent_fill_changes_nothing() {
    let fb = small_fb();
    let mut buf = vec![0x55u8; fb.size];
    fb.fill_rect(&mut buf, 0, 0, 4, 3, Rgb { red: 1, green: 2, blue: 3 }, 0);
    assert!(buf.iter().all(|&b| b == 0x55));
}

#[test]
fn draw_pixel_in_and_out_of_bounds() {
    let fb = small_fb();
    let mut buf = vec![0u8; fb.size];
    fb.draw_pixel(&mut buf, 2, 1, Rgb { red: 1, green: 2, blue: 3 }, 255);
    let idx = 16 + 2 * 4;
    assert_eq!(&buf[idx..idx + 4], &[3, 2, 1, 0]);

    let before = buf.clone();
    fb.draw_pixel(&mut buf, 4, 1, Rgb { red: 9, green: 9, blue: 9 }, 255);
    fb.draw_pixel(&mut buf, 1, 3, Rgb { red: 9, green: 9, blue: 9 }, 255);
    assert_eq!(buf, before);
}

#[test]
fn rgb_format_keeps_channel_order() {
    let src = FramebufferInfo { pixel_format: BootPixelFormat::Rgb, ..info() };
    let fb = build_framebuffer(&src);
    let mut buf = vec![0u8; fb.size];
    fb.draw_pixel(&mut buf, 0, 0, Rgb { red: 1, green: 2, blue: 3 }, 255);
    assert_eq!(&buf[0..4], &[1, 2, 3, 0]);
}

#[test]
fn write_combine_marks_exactly_the_buffer_blocks() {
    let mut pml4 = PML4::new_empty();
    pml4.init();

    let two_mib: u64 = 2 * 1024 * 1024;
    let fb_info = FramebufferInfo {
        addr: 3 * two_mib,
        size: 2 * two_mib,
        ..info()
    };
    mark_framebuffer_write_combine(&mut pml4, fb_info);

    // Blocks 3 and 4 carry the selector; their neighbours do not.
    let identity = |b: u64| b * two_mib | 0x83;
    assert_eq!(pml4.pd_entry(2), identity(2));
    assert_eq!(pml4.pd_entry(3), 3 * two_mib | 0x1083);
    assert_eq!(pml4.pd_entry(4), 4 * two_mib | 0x1083);
    assert_eq!(pml4.pd_entry(5), identity(5));
}

#[test]
fn boot_banner_layout_shapes() {
    let rects = rustos::gui::boot_banner_layout(1024, 768);
    assert_eq!(rects.len(), 4);
    assert_eq!((rects[0].x, rects[0].y, rects[0].w, rects[0].h), (0, 0, 1024, 768));
    // Top bar: an eighth of the screen, at least 36 pixels.
    assert_eq!((rects[1].w, rects[1].h), (1024, 96));
    // Centered card.
    assert_eq!(
        (rects[2].x, rects[2].y, rects[2].w, rects[2].h),
        ((1024 - 341) / 2, (768 - 192) / 2, 341, 192)
    );
    // Inset strip.
    assert_eq!(
        (rects[3].x, rects[3].y, rects[3].w, rects[3].h),
        (rects[2].x + 8, rects[2].y + 8, 341 - 16, 32)
    );

    // A tiny screen falls back to the minimum sizes.
    let small = rustos::gui::boot_banner_layout(100, 60);
    assert_eq!(small[1].h, 36);
    assert_eq!((small[2].w, small[2].h), (120, 80));
    assert_eq!((small[2].x, small[2].y), (0, 0));
    assert_eq!(small[3].h, 13);
}

#[test]
fn whole_screen_fill() {
    let fb = small_fb();
    let mut buf = vec![0x11u8; fb.size];
    fb.fill(&mut buf, Rgb { red: 1, green: 2, blue: 3 });
    for y in 0..3usize {
        for x in 0..4usize {
            let idx = y * 16 + x * 4;
            assert_eq!(&buf[idx..idx + 4], &[3, 2, 1, 0]);
        }
    }
}
