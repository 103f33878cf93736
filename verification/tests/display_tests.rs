use kernel::drivers::display::console::{self, get_glyph, Color, Console};
use kernel::drivers::display::{display_info_for, Display};
use kernel::drivers::virtio::framebuffer::FramebufferInfo;
use kernel::drivers::virtio::gpu::{self, VirtioGpu};
use kernel::drivers::virtio::mmio::VIRTIO_MAGIC;

fn fb(width: u32, height: u32) -> FramebufferInfo {
    FramebufferInfo { width, height, pitch: width * 4, bpp: 32, buffer: vec![0u8; (width * height * 4) as usize] }
}

fn text_row(c: &Console, row: u32) -> String {
    (0..c.cols).map(|col| c.buffer[(row * c.cols + col) as usize].character).collect()
}

#[test]
fn framebuffer_pixels_are_bgra() {
    let mut f = fb(4, 2);
    f.set_pixel(1, 1, 0x11, 0x22, 0x33);
    let o = (1 * 16 + 1 * 4) as usize;
    assert_eq!(&f.buffer[o..o + 4], &[0x33, 0x22, 0x11, 0xff]);
    // outside the screen nothing changes
    f.set_pixel(4, 0, 1, 2, 3);
    assert_eq!(f.buffer.iter().filter(|b| **b != 0).count(), 4);
    f.fill_rect(0, 0, 2, 1, 9, 9, 9);
    assert_eq!(f.buffer[0], 9);
    assert_eq!(f.buffer[4], 9);
    assert_eq!(f.buffer[8], 0);
    f.clear(1, 2, 3);
    assert!(f.buffer.chunks(4).all(|p| p == [3, 2, 1, 0xff]));
}

#[test]
fn console_writes_wraps_and_scrolls() {
    let mut none: Option<FramebufferInfo> = None;
    let mut c = Console::new(32, 32);
    assert_eq!(c.dimensions(), (4, 2));
    c.write_str(&mut none, "ab\ncd");
    assert_eq!(text_row(&c, 0), "ab  ");
    assert_eq!(text_row(&c, 1), "cd  ");
    assert_eq!(c.cursor(), (2, 1));
    // past the last column wraps, past the last row scrolls
    c.write_str(&mut none, "efg");
    assert_eq!(text_row(&c, 0), "cdef");
    assert_eq!(text_row(&c, 1), "g   ");
    assert_eq!(c.cursor(), (1, 1));
    // backspace erases, carriage return goes to the start of the line
    c.put_char(&mut none, '\x08');
    assert_eq!(text_row(&c, 1), "    ");
    c.write_str(&mut none, "x\ry");
    assert_eq!(text_row(&c, 1), "y   ");
    // a tab goes to the next multiple of eight, here the end of the line
    c.set_cursor(0, 0);
    c.put_char(&mut none, '\t');
    assert_eq!(c.cursor(), (0, 1));
    c.set_colors(Color::White, Color::Blue);
    c.put_char(&mut none, 'z');
    assert_eq!(c.buffer[4].foreground, Color::White);
    c.clear(&mut none);
    assert_eq!(c.cursor(), (0, 0));
    assert_eq!(text_row(&c, 0), "    ");
}

#[test]
fn console_draws_glyphs() {
    let mut f = Some(fb(16, 16));
    let mut c = console::init(&mut f, 16, 16);
    c.put_char(&mut f, 'A');
    let g = get_glyph('A');
    let buf = &f.as_ref().unwrap().buffer;
    let (r, gg, b) = Color::LightGray.to_rgb();
    // every set bit of the glyph is a foreground pixel, every other a background one
    for y in 0..16usize {
        for x in 0..8usize {
            let o = y * 64 + x * 4;
            let on = g[y] & (0x80 >> x) != 0;
            let want = if on { [b, gg, r, 0xff] } else { [0, 0, 0, 0xff] };
            assert_eq!(&buf[o..o + 4], &want);
        }
    }
    assert!(g.iter().any(|row| *row != 0));
    assert_eq!(Color::Brown.to_rgb(), (170, 85, 0));
}

#[test]
fn console_module_functions() {
    let mut f: Option<FramebufferInfo> = None;
    let mut con: Option<Console> = None;
    assert!(!console::is_available(&con));
    assert_eq!(console::dimensions(&con), None);
    console::write_str(&mut con, &mut f, "ignored");
    con = Some(Console::new(64, 16));
    console::write_str(&mut con, &mut f, "hi");
    assert_eq!(console::cursor(&con), Some((2, 0)));
    console::set_cursor(&mut con, 5, 0);
    assert_eq!(console::cursor(&con), Some((5, 0)));
    assert_eq!(console::dimensions(&con), Some((8, 1)));
}

#[test]
fn display_subsystem() {
    let mut d = Display::new();
    assert!(!d.is_available());
    d.init(Some((1024, 768)));
    let i = d.get_info().unwrap();
    assert_eq!((i.width, i.height, i.bpp, i.pitch), (1024, 768, 32, 4096));
    assert_eq!(display_info_for(800, 600).pitch, 3200);
    d.init(None);
    assert!(!d.is_available());
}

#[test]
fn gpu_bring_up() {
    assert_eq!(VirtioGpu::new(0x1000, VIRTIO_MAGIC, 2, 2).err(), Some("Not a VirtIO GPU device"));
    assert_eq!(VirtioGpu::new(0x1000, 0, 2, 16).err(), Some("No VirtIO device at this address"));
    let mut g = VirtioGpu::new(0x1000, VIRTIO_MAGIC, 2, 16).unwrap();
    assert_eq!(g.create_framebuffer(), Err("Device not ready"));
    let w = g.init((0x1000, 0x2000, 0x3000), (0x4000, 0x5000, 0x6000)).unwrap();
    // reset, acknowledge, driver, four feature writes, features-ok,
    // nine per queue, driver-ok
    assert_eq!(w.len(), 3 + 4 + 1 + 9 + 9 + 1);
    assert_eq!(w[0].value, 0);
    assert_eq!(w[w.len() - 1].value, 0x0F);
    assert_eq!(g.dimensions(), (1024, 768));
    assert_eq!(g.create_framebuffer(), Ok(()));
    g.set_pixel(0, 0, 1, 2, 3);
    assert_eq!(&g.framebuffer().unwrap().buffer[0..4], &[3, 2, 1, 0xff]);
    assert_eq!(g.flush(), Ok(()));
    let mut opt = Some(g);
    assert!(gpu::is_available(&opt));
    assert_eq!(gpu::dimensions(&opt), Some((1024, 768)));
    gpu::clear(&mut opt, 0, 0, 0);
    gpu::flush(&mut opt);
}

#[test]
fn console_redraws_after_scrolling() {
    let mut f = Some(fb(8, 32));
    let mut c = console::init(&mut f, 8, 32);
    c.write_str(&mut f, "AB");
    let (r, gg, b) = Color::LightGray.to_rgb();
    let buf = &f.as_ref().unwrap().buffer;
    for (row, ch) in [(0usize, 'B'), (1usize, ' ')] {
        let g = get_glyph(ch);
        for y in 0..16usize {
            for x in 0..8usize {
                let o = (row * 16 + y) * 32 + x * 4;
                let on = g[y] & (0x80 >> x) != 0;
                let want = if on { [b, gg, r, 0xff] } else { [0, 0, 0, 0xff] };
                assert_eq!(&buf[o..o + 4], &want);
            }
        }
    }
}
