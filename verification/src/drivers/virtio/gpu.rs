//! VirtIO GPU: a 2D framebuffer kept in memory.
use vstd::prelude::*;
use super::mmio::{MmioDevice, RegWrite, device_at, low_half, high_half, STATUS, DRIVER_FEATURES_SEL,
    DRIVER_FEATURES, QUEUE_SEL, QUEUE_NUM, QUEUE_DESC_LOW, QUEUE_DESC_HIGH, QUEUE_DRIVER_LOW, QUEUE_DRIVER_HIGH,
    QUEUE_DEVICE_LOW, QUEUE_DEVICE_HIGH, QUEUE_READY};
use super::queue::VirtQueue;
use super::framebuffer::{FramebufferInfo, set_pixel_spec, fill_rect_spec};
use super::DeviceType;

verus! {

/// Device id of GPUs.
pub const VIRTIO_GPU_DEVICE_ID: u32 = 16;

/// Width and height the display is driven at.
pub const DEFAULT_WIDTH: u32 = 1024;
pub const DEFAULT_HEIGHT: u32 = 768;

/// Header of a control-queue command or response.
#[derive(Debug, Clone, Copy, PartialEq, Eq, Structural)]
pub struct CtrlHeader {
    pub hdr_type: u32,
    pub flags: u32,
    pub fence_id: u64,
    pub ctx_id: u32,
    pub padding: u32,
}

/// A rectangle of the display.
#[derive(Debug, Clone, Copy, PartialEq, Eq, Structural)]
pub struct Rect {
    pub x: u32,
    pub y: u32,
    pub width: u32,
    pub height: u32,
}

/// One scanout's mode as the device reports it.
#[derive(Debug, Clone, Copy, PartialEq, Eq, Structural)]
pub struct DisplayInfo {
    pub rect: Rect,
    pub enabled: u32,
    pub flags: u32,
}

/// A VirtIO GPU.
pub struct VirtioGpu {
    pub mmio: MmioDevice,
    pub ctrl_queue: VirtQueue,
    pub cursor_queue: VirtQueue,
    pub framebuffer: Option<FramebufferInfo>,
    pub width: u32,
    pub height: u32,
    pub ready: bool,
    pub next_resource_id: u32,
}

/// The writes that configure queue `idx` with `size` descriptors and its tables
/// at `areas` (descriptors, available ring, used ring), then mark it ready.
pub open spec fn queue_setup_writes(idx: u32, size: u32, areas: (u64, u64, u64)) -> Seq<RegWrite> {
    seq![
        RegWrite { offset: QUEUE_SEL, value: idx },
        RegWrite { offset: QUEUE_NUM, value: size },
        RegWrite { offset: QUEUE_DESC_LOW, value: low_half(areas.0) },
        RegWrite { offset: QUEUE_DESC_HIGH, value: high_half(areas.0) },
        RegWrite { offset: QUEUE_DRIVER_LOW, value: low_half(areas.1) },
        RegWrite { offset: QUEUE_DRIVER_HIGH, value: high_half(areas.1) },
        RegWrite { offset: QUEUE_DEVICE_LOW, value: low_half(areas.2) },
        RegWrite { offset: QUEUE_DEVICE_HIGH, value: high_half(areas.2) },
        RegWrite { offset: QUEUE_READY, value: 1 },
    ]
}

/// The start of the bring-up: reset, acknowledge, driver, no features, features OK.
pub open spec fn handshake_writes() -> Seq<RegWrite> {
    seq![
        RegWrite { offset: STATUS, value: 0 },
        RegWrite { offset: STATUS, value: 0x01 },
        RegWrite { offset: STATUS, value: 0x03 },
        RegWrite { offset: DRIVER_FEATURES_SEL, value: 0 },
        RegWrite { offset: DRIVER_FEATURES, value: 0 },
        RegWrite { offset: DRIVER_FEATURES_SEL, value: 1 },
        RegWrite { offset: DRIVER_FEATURES, value: 0 },
        RegWrite { offset: STATUS, value: 0x0B },
    ]
}

/// The whole bring-up of a GPU: the handshake, control queue 0 (64 descriptors),
/// cursor queue 1 (16), then `DRIVER_OK`.
pub open spec fn gpu_init_writes(ctrl: (u64, u64, u64), cursor: (u64, u64, u64)) -> Seq<RegWrite> {
    handshake_writes() + queue_setup_writes(0, 64, ctrl) + queue_setup_writes(1, 16, cursor) + seq![
        RegWrite { offset: STATUS, value: 0x0F },
    ]
}

/// Appends the writes that configure one queue.
pub fn push_queue_setup(w: &mut Vec<RegWrite>, mmio: &MmioDevice, idx: u16, size: u16, areas: (u64, u64, u64))
    ensures
        final(w)@ == old(w)@ + queue_setup_writes(idx as u32, size as u32, areas),
{
    let ghost w0 = w@;
    w.push(mmio.select_queue(idx));
    w.push(mmio.set_queue_size(size));
    let (a, b) = mmio.set_queue_desc(areas.0);
    w.push(a);
    w.push(b);
    let (a, b) = mmio.set_queue_avail(areas.1);
    w.push(a);
    w.push(b);
    let (a, b) = mmio.set_queue_used(areas.2);
    w.push(a);
    w.push(b);
    w.push(mmio.enable_queue());
    assert(w@ =~= w0 + queue_setup_writes(idx as u32, size as u32, areas));
}

impl VirtioGpu {
    /// Queues well formed; the display fits 32-bit addressing; the framebuffer, once
    /// made, matches the display.
    pub open spec fn wf(&self) -> bool {
        &&& self.ctrl_queue.wf()
        &&& self.cursor_queue.wf()
        &&& self.width * 4 <= u32::MAX
        &&& self.height * (self.width * 4) <= u32::MAX
        &&& match self.framebuffer {
            Some(fb) => fb.geometry_ok(),
            None => true,
        }
    }

    /// A GPU in the window at `base`, given its magic, version and device-id
    /// registers: fails when there is no device there or it is not a GPU; a new one
    /// has control queue 0 (64 descriptors) and cursor queue 1 (16), no framebuffer
    /// and is not ready.
    pub fn new(base: usize, magic: u32, version: u32, device_id: u32) -> (r: Result<VirtioGpu, &'static str>)
        ensures
            device_at(base, 0, magic, version, device_id) is None ==> r == Err::<VirtioGpu, &'static str>(
                "No VirtIO device at this address",
            ),
            device_at(base, 0, magic, version, device_id) is Some && device_id != VIRTIO_GPU_DEVICE_ID ==> r
                == Err::<VirtioGpu, &'static str>("Not a VirtIO GPU device"),
            device_at(base, 0, magic, version, device_id) is Some && device_id == VIRTIO_GPU_DEVICE_ID ==> r is Ok
                && {
                let g = r->Ok_0;
                &&& g.wf()
                &&& g.mmio == device_at(base, 0, magic, version, device_id).unwrap()
                &&& g.ctrl_queue.index == 0 && g.ctrl_queue.size == 64
                &&& g.cursor_queue.index == 1 && g.cursor_queue.size == 16
                &&& g.framebuffer.is_none()
                &&& g.width == 0 && g.height == 0
                &&& !g.ready
                &&& g.next_resource_id == 1
            },
    {
        let mmio = match MmioDevice::probe(base, magic, version, device_id) {
            Ok(m) => m,
            Err(e) => {
                return Err(e);
            },
        };
        if mmio.device_id() != VIRTIO_GPU_DEVICE_ID {
            return Err("Not a VirtIO GPU device");
        }
        let ctrl_queue = VirtQueue::new(0, 64);
        let cursor_queue = VirtQueue::new(1, 16);
        Ok(VirtioGpu {
            mmio,
            ctrl_queue,
            cursor_queue,
            framebuffer: None,
            width: 0,
            height: 0,
            ready: false,
            next_resource_id: 1,
        })
    }

    /// Brings the device up: gives the register writes to make, in order (see
    /// `gpu_init_writes`), with the queues' tables at `ctrl_areas` and
    /// `cursor_areas`; records the negotiated features (none) and the display size
    /// (1024 x 768) and marks the device ready.
    pub fn init(&mut self, ctrl_areas: (u64, u64, u64), cursor_areas: (u64, u64, u64)) -> (r: Result<
        Vec<RegWrite>,
        &'static str,
    >)
        requires
            old(self).wf(),
            old(self).framebuffer.is_none(),
        ensures
            final(self).wf(),
            r is Ok && r->Ok_0@ == gpu_init_writes(ctrl_areas, cursor_areas),
            final(self).ready,
            final(self).width == DEFAULT_WIDTH && final(self).height == DEFAULT_HEIGHT,
            final(self).mmio == (MmioDevice { features: 0, ..old(self).mmio }),
            final(self).framebuffer == old(self).framebuffer,
            final(self).ctrl_queue == old(self).ctrl_queue,
            final(self).cursor_queue == old(self).cursor_queue,
            final(self).next_resource_id == old(self).next_resource_id,
    {
        let mut w: Vec<RegWrite> = Vec::new();
        w.push(self.mmio.reset());
        w.push(self.mmio.set_status(0x01));
        w.push(self.mmio.set_status(0x03));
        let fw = self.mmio.write_features(0);
        proof {
            assert(low_half(0) == 0 && high_half(0) == 0);
        }
        w.push(fw[0]);
        w.push(fw[1]);
        w.push(fw[2]);
        w.push(fw[3]);
        w.push(self.mmio.set_status(0x0B));
        proof {
            assert(w@ =~= handshake_writes());
        }
        push_queue_setup(&mut w, &self.mmio, 0, 64, ctrl_areas);
        push_queue_setup(&mut w, &self.mmio, 1, 16, cursor_areas);
        w.push(self.mmio.set_status(0x0F));
        self.get_display_info();
        self.ready = true;
        proof {
            assert(w@ =~= gpu_init_writes(ctrl_areas, cursor_areas));
        }
        Ok(w)
    }

    /// The display size in use: 1024 x 768.
    fn get_display_info(&mut self)
        requires
            old(self).framebuffer.is_none(),
        ensures
            *final(self) == (VirtioGpu { width: DEFAULT_WIDTH, height: DEFAULT_HEIGHT, ..*old(self) }),
    {
        self.width = DEFAULT_WIDTH;
        self.height = DEFAULT_HEIGHT;
    }

    /// Makes a zeroed framebuffer for the display: 32 bits per pixel, rows of
    /// `4 * width` bytes. Fails unless the device is ready.
    pub fn create_framebuffer(&mut self) -> (r: Result<(), &'static str>)
        requires
            old(self).wf(),
        ensures
            final(self).wf(),
            !old(self).ready ==> r == Err::<(), &'static str>("Device not ready") && *final(self) == *old(self),
            old(self).ready ==> r == Ok::<(), &'static str>(()) && final(self).framebuffer is Some && {
                let fb = final(self).framebuffer.unwrap();
                &&& fb.width == old(self).width && fb.height == old(self).height
                &&& fb.pitch == old(self).width * 4 && fb.bpp == 32
                &&& fb.buffer@.len() == old(self).width * 4 * old(self).height
                &&& forall|i: int| 0 <= i < fb.buffer@.len() ==> fb.buffer@[i] == 0
            } && *final(self) == (VirtioGpu { framebuffer: final(self).framebuffer, ..*old(self) }),
    {
        if !self.ready {
            return Err("Device not ready");
        }
        let width = self.width;
        let height = self.height;
        let bpp: u32 = 4;
        let pitch = width * bpp;
        proof {
            assert(pitch * height == height * pitch) by (nonlinear_arith);
        }
        let size = (pitch * height) as usize;
        let mut buffer: Vec<u8> = Vec::new();
        let mut i: usize = 0;
        while i < size
            invariant
                i <= size,
                buffer@.len() == i,
                forall|k: int| 0 <= k < i ==> buffer@[k] == 0,
            decreases size - i,
        {
            buffer.push(0);
            i = i + 1;
        }
        self.framebuffer = Some(FramebufferInfo { width, height, pitch, bpp: 32, buffer });
        Ok(())
    }

    /// The framebuffer, to draw into in place.
    pub fn framebuffer_mut(&mut self) -> (r: Option<&mut FramebufferInfo>)
        ensures
            old(self).framebuffer is None ==> r is None && *final(self) == *old(self),
            old(self).framebuffer is Some ==> r is Some && *r->0 == old(self).framebuffer.unwrap()
                && *final(self) == (VirtioGpu { framebuffer: Some(*final(r->0)), ..*old(self) }),
    {
        match &mut self.framebuffer {
            Some(fb) => Some(fb),
            None => None,
        }
    }

    /// The framebuffer, once made.
    pub fn framebuffer(&self) -> (r: Option<&FramebufferInfo>)
        ensures
            r.is_some() == self.framebuffer.is_some(),
            r.is_some() ==> *r.unwrap() == self.framebuffer.unwrap(),
    {
        match &self.framebuffer {
            Some(fb) => Some(fb),
            None => None,
        }
    }

    /// Sets pixel (`x`, `y`) of the framebuffer, if there is one (see `set_pixel_spec`).
    pub fn set_pixel(&mut self, x: u32, y: u32, r: u8, g: u8, b: u8)
        requires
            old(self).wf(),
        ensures
            final(self).wf(),
            *final(self) == (VirtioGpu { framebuffer: final(self).framebuffer, ..*old(self) }),
            final(self).framebuffer.is_some() == old(self).framebuffer.is_some(),
            old(self).framebuffer is Some ==> {
                let f0 = old(self).framebuffer.unwrap();
                let f1 = final(self).framebuffer.unwrap();
                f0.same_shape(f1) && f1.buffer@ == set_pixel_spec(f0.buffer@, f0.width, f0.height, f0.pitch, x, y, r, g, b)
            },
    {
        match &mut self.framebuffer {
            Some(fb) => fb.set_pixel(x, y, r, g, b),
            None => {},
        }
    }

    /// Fills a rectangle of the framebuffer, if there is one (see `fill_rect_spec`).
    pub fn fill_rect(&mut self, x: u32, y: u32, width: u32, height: u32, r: u8, g: u8, b: u8)
        requires
            old(self).wf(),
            x + width <= u32::MAX,
            y + height <= u32::MAX,
        ensures
            final(self).wf(),
            *final(self) == (VirtioGpu { framebuffer: final(self).framebuffer, ..*old(self) }),
            final(self).framebuffer.is_some() == old(self).framebuffer.is_some(),
            old(self).framebuffer is Some ==> {
                let f0 = old(self).framebuffer.unwrap();
                let f1 = final(self).framebuffer.unwrap();
                f0.same_shape(f1) && f1.buffer@ == fill_rect_spec(
                    f0.buffer@,
                    f0.width,
                    f0.height,
                    f0.pitch,
                    x,
                    y,
                    width,
                    height as nat,
                    r,
                    g,
                    b,
                )
            },
    {
        match &mut self.framebuffer {
            Some(fb) => fb.fill_rect(x, y, width, height, r, g, b),
            None => {},
        }
    }

    /// Fills the whole framebuffer, if there is one.
    pub fn clear(&mut self, r: u8, g: u8, b: u8)
        requires
            old(self).wf(),
        ensures
            final(self).wf(),
            *final(self) == (VirtioGpu { framebuffer: final(self).framebuffer, ..*old(self) }),
            final(self).framebuffer.is_some() == old(self).framebuffer.is_some(),
            old(self).framebuffer is Some ==> {
                let f0 = old(self).framebuffer.unwrap();
                let f1 = final(self).framebuffer.unwrap();
                f0.same_shape(f1) && f1.buffer@ == fill_rect_spec(
                    f0.buffer@,
                    f0.width,
                    f0.height,
                    f0.pitch,
                    0,
                    0,
                    f0.width,
                    f0.height as nat,
                    r,
                    g,
                    b,
                )
            },
    {
        match &mut self.framebuffer {
            Some(fb) => fb.clear(r, g, b),
            None => {},
        }
    }

    /// Succeeds once the device is ready (the framebuffer lives in memory).
    pub fn flush(&mut self) -> (r: Result<(), &'static str>)
        ensures
            *final(self) == *old(self),
            r == (if old(self).ready {
                Ok::<(), &'static str>(())
            } else {
                Err::<(), &'static str>("Device not ready")
            }),
    {
        if !self.ready {
            return Err("Device not ready");
        }
        Ok(())
    }

    /// Display width and height.
    pub fn dimensions(&self) -> (d: (u32, u32))
        ensures
            d == (self.width, self.height),
    {
        (self.width, self.height)
    }
}

/// Whether a GPU was brought up.
pub fn is_available(gpu: &Option<VirtioGpu>) -> (b: bool)
    ensures
        b == gpu.is_some(),
{
    gpu.is_some()
}

/// The display size, when there is a GPU.
pub fn dimensions(gpu: &Option<VirtioGpu>) -> (d: Option<(u32, u32)>)
    ensures
        d == (match gpu {
            Some(g) => Some((g.width, g.height)),
            None => None::<(u32, u32)>,
        }),
{
    match gpu {
        Some(g) => Some(g.dimensions()),
        None => None,
    }
}

/// Whether the GPU, if any, is well formed.
pub open spec fn gpu_ok(gpu: Option<VirtioGpu>) -> bool {
    match gpu {
        Some(g) => g.wf(),
        None => true,
    }
}

/// Sets a pixel on the GPU's framebuffer, if there is a GPU.
pub fn set_pixel(gpu: &mut Option<VirtioGpu>, x: u32, y: u32, r: u8, g: u8, b: u8)
    requires
        gpu_ok(*old(gpu)),
    ensures
        gpu_ok(*final(gpu)),
        final(gpu).is_some() == old(gpu).is_some(),
        old(gpu).is_some() ==> {
            let g0 = old(gpu).unwrap();
            let g1 = final(gpu).unwrap();
            g1 == (VirtioGpu { framebuffer: g1.framebuffer, ..g0 }) && (g0.framebuffer is Some ==> g1.framebuffer is Some
                && g1.framebuffer.unwrap().buffer@ == set_pixel_spec(
                g0.framebuffer.unwrap().buffer@,
                g0.framebuffer.unwrap().width,
                g0.framebuffer.unwrap().height,
                g0.framebuffer.unwrap().pitch,
                x,
                y,
                r,
                g,
                b,
            )) && (g0.framebuffer is None ==> g1.framebuffer is None)
        },
{
    match gpu {
        Some(dev) => dev.set_pixel(x, y, r, g, b),
        None => {},
    }
}

/// Fills a rectangle on the GPU's framebuffer, if there is a GPU.
pub fn fill_rect(gpu: &mut Option<VirtioGpu>, x: u32, y: u32, width: u32, height: u32, r: u8, g: u8, b: u8)
    requires
        gpu_ok(*old(gpu)),
        x + width <= u32::MAX,
        y + height <= u32::MAX,
    ensures
        gpu_ok(*final(gpu)),
        final(gpu).is_some() == old(gpu).is_some(),
        old(gpu).is_some() ==> {
            let g0 = old(gpu).unwrap();
            let g1 = final(gpu).unwrap();
            g1 == (VirtioGpu { framebuffer: g1.framebuffer, ..g0 }) && (g0.framebuffer is Some ==> g1.framebuffer is Some
                && g1.framebuffer.unwrap().buffer@ == fill_rect_spec(
                g0.framebuffer.unwrap().buffer@,
                g0.framebuffer.unwrap().width,
                g0.framebuffer.unwrap().height,
                g0.framebuffer.unwrap().pitch,
                x,
                y,
                width,
                height as nat,
                r,
                g,
                b,
            )) && (g0.framebuffer is None ==> g1.framebuffer is None)
        },
{
    match gpu {
        Some(dev) => dev.fill_rect(x, y, width, height, r, g, b),
        None => {},
    }
}

/// Fills the GPU's whole framebuffer, if there is a GPU.
pub fn clear(gpu: &mut Option<VirtioGpu>, r: u8, g: u8, b: u8)
    requires
        gpu_ok(*old(gpu)),
    ensures
        gpu_ok(*final(gpu)),
        final(gpu).is_some() == old(gpu).is_some(),
        old(gpu).is_some() ==> {
            let g0 = old(gpu).unwrap();
            let g1 = final(gpu).unwrap();
            g1 == (VirtioGpu { framebuffer: g1.framebuffer, ..g0 }) && (g0.framebuffer is Some ==> g1.framebuffer is Some
                && g1.framebuffer.unwrap().buffer@ == fill_rect_spec(
                g0.framebuffer.unwrap().buffer@,
                g0.framebuffer.unwrap().width,
                g0.framebuffer.unwrap().height,
                g0.framebuffer.unwrap().pitch,
                0,
                0,
                g0.framebuffer.unwrap().width,
                g0.framebuffer.unwrap().height as nat,
                r,
                g,
                b,
            )) && (g0.framebuffer is None ==> g1.framebuffer is None)
        },
{
    match gpu {
        Some(dev) => dev.clear(r, g, b),
        None => {},
    }
}

/// Flushes the GPU's display, if there is a GPU (an unready one is ignored).
pub fn flush(gpu: &mut Option<VirtioGpu>)
    ensures
        *final(gpu) == *old(gpu),
{
    match gpu {
        Some(dev) => {
            let _ = dev.flush();
        },
        None => {},
    }
}

} // verus!
