//! VirtIO network devices: frames go out on queue 1 and come back in receive
//! buffers offered on queue 0, each behind a 12-byte header.
use vstd::prelude::*;
use super::mmio::{MmioDevice, RegWrite, device_at, negotiated_features, QUEUE_NOTIFY, STATUS, DRIVER_FEATURES_SEL,
    DRIVER_FEATURES, low_half, high_half};
use super::queue::{VirtQueue, offered};
use super::gpu::{queue_setup_writes, push_queue_setup};
use crate::drivers::net::MacAddress;

verus! {

/// Device id of network devices.
pub const VIRTIO_NET_DEVICE_ID: u32 = 1;

/// Feature bits of network devices.
pub const NET_F_CSUM: u64 = 0x1;
pub const NET_F_GUEST_CSUM: u64 = 0x2;
pub const NET_F_MAC: u64 = 0x20;
pub const NET_F_MRG_RXBUF: u64 = 0x8000;
pub const NET_F_STATUS: u64 = 0x10000;

/// Bytes of the header in front of every frame.
pub const HEADER_SIZE: usize = 12;
/// Bytes of one receive buffer.
pub const RX_BUFFER_SIZE: usize = 2048;
/// Receive buffers kept offered.
pub const RX_BUFFER_COUNT: usize = 16;

/// The header in front of every frame.
#[derive(Debug, Clone, Copy, PartialEq, Eq, Structural)]
pub struct VirtioNetHeader {
    pub flags: u8,
    pub gso_type: u8,
    pub hdr_len: u16,
    pub gso_size: u16,
    pub csum_start: u16,
    pub csum_offset: u16,
    pub num_buffers: u16,
}

impl VirtioNetHeader {
    /// An all-zero header: no offloads.
    pub fn new() -> (h: VirtioNetHeader)
        ensures
            h == (VirtioNetHeader {
                flags: 0,
                gso_type: 0,
                hdr_len: 0,
                gso_size: 0,
                csum_start: 0,
                csum_offset: 0,
                num_buffers: 0,
            }),
    {
        VirtioNetHeader { flags: 0, gso_type: 0, hdr_len: 0, gso_size: 0, csum_start: 0, csum_offset: 0, num_buffers: 0 }
    }
}

/// A VirtIO network device.
pub struct VirtioNet {
    pub mmio: MmioDevice,
    pub rx_queue: VirtQueue,
    pub tx_queue: VirtQueue,
    pub mac: MacAddress,
    pub ready: bool,
    /// The receive buffers, as the device last wrote them.
    pub rx_buffers: Vec<Vec<u8>>,
    /// Physical address of each receive buffer.
    pub rx_addrs: Vec<u64>,
    pub rx_packets: u64,
    pub tx_packets: u64,
    pub rx_bytes: u64,
    pub tx_bytes: u64,
}

/// The bring-up of a network device offered `device_features`: the handshake
/// taking MAC and STATUS among them, receive queue 0 and transmit queue 1 (64
/// descriptors each), a notification of queue 0 once the receive buffers are
/// offered, then `DRIVER_OK`.
pub open spec fn net_init_writes(device_features: u64, rx_areas: (u64, u64, u64), tx_areas: (u64, u64, u64)) -> Seq<
    RegWrite,
> {
    let f = device_features & (NET_F_MAC | NET_F_STATUS);
    seq![
        RegWrite { offset: STATUS, value: 0 },
        RegWrite { offset: STATUS, value: 0x01 },
        RegWrite { offset: STATUS, value: 0x03 },
        RegWrite { offset: DRIVER_FEATURES_SEL, value: 0 },
        RegWrite { offset: DRIVER_FEATURES, value: low_half(f) },
        RegWrite { offset: DRIVER_FEATURES_SEL, value: 1 },
        RegWrite { offset: DRIVER_FEATURES, value: high_half(f) },
        RegWrite { offset: STATUS, value: 0x0B },
    ] + queue_setup_writes(0, 64, rx_areas) + queue_setup_writes(1, 64, tx_areas) + seq![
        RegWrite { offset: QUEUE_NOTIFY, value: 0 },
        RegWrite { offset: STATUS, value: 0x0F },
    ]
}

/// A frame as sent: a zero header, then the data.
pub open spec fn framed(data: Seq<u8>) -> Seq<u8> {
    Seq::new(HEADER_SIZE as nat, |i: int| 0u8) + data
}

impl VirtioNet {
    /// Queues well formed; one address per receive buffer; every receive buffer
    /// is `RX_BUFFER_SIZE` bytes.
    pub open spec fn wf(&self) -> bool {
        &&& self.rx_queue.wf()
        &&& self.tx_queue.wf()
        &&& self.rx_addrs@.len() == self.rx_buffers@.len()
        &&& forall|i: int| 0 <= i < self.rx_buffers@.len() ==> (#[trigger] self.rx_buffers@[i])@.len() == RX_BUFFER_SIZE
    }

    /// A network device in the window at `base`, given its magic, version and
    /// device-id registers and the MAC address in its configuration: fails when
    /// there is none or it is not a network device.
    pub fn new(base: usize, magic: u32, version: u32, device_id: u32, mac: [u8; 6]) -> (r: Result<
        VirtioNet,
        &'static str,
    >)
        ensures
            device_at(base, 0, magic, version, device_id) is None ==> r == Err::<VirtioNet, &'static str>(
                "No VirtIO device at this address",
            ),
            device_at(base, 0, magic, version, device_id) is Some && device_id != VIRTIO_NET_DEVICE_ID ==> r
                == Err::<VirtioNet, &'static str>("Not a VirtIO network device"),
            device_at(base, 0, magic, version, device_id) is Some && device_id == VIRTIO_NET_DEVICE_ID ==> r is Ok && {
                let d = r->Ok_0;
                &&& d.wf()
                &&& d.mmio == device_at(base, 0, magic, version, device_id).unwrap()
                &&& d.mac == MacAddress(mac)
                &&& d.rx_queue.index == 0 && d.rx_queue.size == 64 && d.rx_queue.num_free == 64
                &&& d.tx_queue.index == 1 && d.tx_queue.size == 64 && d.tx_queue.num_free == 64
                &&& d.rx_queue.pending@.len() == 0 && d.tx_queue.pending@.len() == 0
                &&& d.rx_buffers@.len() == 0
                &&& !d.ready
                &&& d.rx_packets == 0 && d.tx_packets == 0 && d.rx_bytes == 0 && d.tx_bytes == 0
            },
    {
        let mmio = match MmioDevice::probe(base, magic, version, device_id) {
            Ok(m) => m,
            Err(e) => {
                return Err(e);
            },
        };
        if mmio.device_id() != VIRTIO_NET_DEVICE_ID {
            return Err("Not a VirtIO network device");
        }
        let rx_queue = VirtQueue::new(0, 64);
        let tx_queue = VirtQueue::new(1, 64);
        Ok(VirtioNet {
            mmio,
            rx_queue,
            tx_queue,
            mac: MacAddress(mac),
            ready: false,
            rx_buffers: Vec::new(),
            rx_addrs: Vec::new(),
            rx_packets: 0,
            tx_packets: 0,
            rx_bytes: 0,
            tx_bytes: 0,
        })
    }

    /// Brings the device up and gives the register writes to make, in order (see
    /// `net_init_writes`): takes MAC and STATUS among `device_features`, offers
    /// sixteen zeroed receive buffers, device-written, at `rx_buffer_addrs`, and
    /// marks the device ready.
    pub fn init(
        &mut self,
        device_features: u64,
        rx_areas: (u64, u64, u64),
        tx_areas: (u64, u64, u64),
        rx_buffer_addrs: &[u64],
    ) -> (r: Result<Vec<RegWrite>, &'static str>)
        requires
            old(self).wf(),
            old(self).rx_buffers@.len() == 0,
            old(self).rx_queue.num_free >= RX_BUFFER_COUNT,
            rx_buffer_addrs@.len() == RX_BUFFER_COUNT,
        ensures
            final(self).wf(),
            r is Ok && r->Ok_0@ == net_init_writes(device_features, rx_areas, tx_areas),
            final(self).ready,
            final(self).mmio == (MmioDevice {
                features: device_features & (NET_F_MAC | NET_F_STATUS),
                ..old(self).mmio
            }),
            final(self).rx_buffers@.len() == RX_BUFFER_COUNT,
            forall|i: int| 0 <= i < RX_BUFFER_COUNT ==> final(self).rx_addrs@[i] == rx_buffer_addrs@[i],
            final(self).rx_queue.num_free == old(self).rx_queue.num_free - RX_BUFFER_COUNT,
            final(self).tx_queue == old(self).tx_queue,
            final(self).mac == old(self).mac,
            final(self).rx_packets == old(self).rx_packets && final(self).tx_packets == old(self).tx_packets,
            final(self).rx_bytes == old(self).rx_bytes && final(self).tx_bytes == old(self).tx_bytes,
    {
        let mut w: Vec<RegWrite> = Vec::new();
        w.push(self.mmio.reset());
        w.push(self.mmio.set_status(0x01));
        w.push(self.mmio.set_status(0x03));
        let supported = NET_F_MAC | NET_F_STATUS;
        let fw = self.mmio.write_features(device_features & supported);
        w.push(fw[0]);
        w.push(fw[1]);
        w.push(fw[2]);
        w.push(fw[3]);
        w.push(self.mmio.set_status(0x0B));
        push_queue_setup(&mut w, &self.mmio, 0, 64, rx_areas);
        push_queue_setup(&mut w, &self.mmio, 1, 64, tx_areas);
        self.setup_rx_buffers(rx_buffer_addrs);
        w.push(self.mmio.notify(0));
        w.push(self.mmio.set_status(0x0F));
        self.ready = true;
        proof {
            assert(w@ =~= net_init_writes(device_features, rx_areas, tx_areas));
        }
        Ok(w)
    }

    /// Adds one zeroed receive buffer per address and offers each on queue 0.
    fn setup_rx_buffers(&mut self, addrs: &[u64])
        requires
            old(self).wf(),
            old(self).rx_buffers@.len() == 0,
            old(self).rx_queue.num_free >= addrs@.len(),
        ensures
            final(self).wf(),
            final(self).rx_buffers@.len() == addrs@.len(),
            forall|i: int| 0 <= i < addrs@.len() ==> final(self).rx_addrs@[i] == addrs@[i],
            final(self).rx_queue.num_free == old(self).rx_queue.num_free - addrs@.len(),
            final(self).tx_queue == old(self).tx_queue,
            final(self).mmio == old(self).mmio && final(self).mac == old(self).mac,
            final(self).ready == old(self).ready,
            final(self).rx_packets == old(self).rx_packets && final(self).tx_packets == old(self).tx_packets,
            final(self).rx_bytes == old(self).rx_bytes && final(self).tx_bytes == old(self).tx_bytes,
    {
        self.rx_addrs = Vec::new();
        let mut i: usize = 0;
        while i < addrs.len()
            invariant
                i <= addrs@.len(),
                self.wf(),
                self.rx_buffers@.len() == i,
                forall|k: int| 0 <= k < i ==> self.rx_addrs@[k] == addrs@[k],
                self.rx_queue.num_free == old(self).rx_queue.num_free - i,
                old(self).rx_queue.num_free >= addrs@.len(),
                self.tx_queue == old(self).tx_queue,
                self.mmio == old(self).mmio && self.mac == old(self).mac,
                self.ready == old(self).ready,
                self.rx_packets == old(self).rx_packets && self.tx_packets == old(self).tx_packets,
                self.rx_bytes == old(self).rx_bytes && self.tx_bytes == old(self).tx_bytes,
            decreases addrs@.len() - i,
        {
            let mut buffer: Vec<u8> = Vec::new();
            let mut k: usize = 0;
            while k < RX_BUFFER_SIZE
                invariant
                    k <= RX_BUFFER_SIZE,
                    buffer@.len() == k,
                decreases RX_BUFFER_SIZE - k,
            {
                buffer.push(0);
                k = k + 1;
            }
            let chain = [(addrs[i], RX_BUFFER_SIZE as u32, true)];
            let _ = self.rx_queue.add_buffer(&chain);
            self.rx_buffers.push(buffer);
            self.rx_addrs.push(addrs[i]);
            i = i + 1;
        }
    }

    /// The MAC address.
    pub fn mac(&self) -> (m: MacAddress)
        ensures
            m == self.mac,
    {
        self.mac
    }

    /// Whether the device was brought up.
    pub fn is_ready(&self) -> (b: bool)
        ensures
            b == self.ready,
    {
        self.ready
    }

    /// Sends `data`: gives the frame (a zero header, then the data) to be placed
    /// at `frame_addr`, whose chain it offers on queue 1, and counts the packet and
    /// its data bytes. Fails unless the device is ready, or with the queue's error
    /// when it has no free descriptor, changing nothing. The caller notifies queue 1.
    pub fn send(&mut self, data: &[u8], frame_addr: u64) -> (r: Result<Vec<u8>, &'static str>)
        requires
            old(self).wf(),
            old(self).tx_packets < u64::MAX,
            old(self).tx_bytes + data@.len() <= u64::MAX,
            data@.len() + HEADER_SIZE <= usize::MAX,
        ensures
            send_outcome(*old(self), *final(self), data@, frame_addr, r),
    {
        if !self.ready {
            return Err("Device not ready");
        }
        let total = HEADER_SIZE + data.len();
        let mut packet: Vec<u8> = Vec::new();
        let mut i: usize = 0;
        while i < total
            invariant
                i <= total,
                total == HEADER_SIZE + data@.len(),
                packet@.len() == i,
                forall|k: int| 0 <= k < i ==> packet@[k] == framed(data@)[k],
            decreases total - i,
        {
            if i < HEADER_SIZE {
                packet.push(0);
            } else {
                packet.push(data[i - HEADER_SIZE]);
            }
            i = i + 1;
        }
        proof {
            assert(packet@ =~= framed(data@));
        }
        let len = total as u32;
        let chain = [(frame_addr, len, false)];
        match self.tx_queue.add_buffer(&chain) {
            Ok(_) => {},
            Err(e) => {
                return Err(e);
            },
        }
        self.tx_packets = self.tx_packets + 1;
        self.tx_bytes = self.tx_bytes + data.len() as u64;
        Ok(packet)
    }

    /// The next frame received: when the device is ready and has returned a
    /// receive buffer whose index (the chain head) names one of ours with more than
    /// a header written, the bytes after the header, the buffer being offered again
    /// and the packet and its bytes counted; otherwise none. The caller notifies
    /// queue 0 when a frame comes back.
    pub fn recv(&mut self) -> (r: Option<Vec<u8>>)
        requires
            old(self).wf(),
            old(self).ready && old(self).rx_queue.last_used_idx != old(self).rx_queue.used.idx ==> {
                let q = old(self).rx_queue;
                let e = q.used.ring@[(q.last_used_idx % q.size) as int];
                (e.id as u16) < old(self).rx_buffers@.len() && e.len > HEADER_SIZE ==> {
                    &&& e.len <= RX_BUFFER_SIZE
                    &&& old(self).rx_packets < u64::MAX
                    &&& old(self).rx_bytes + e.len <= u64::MAX
                }
            },
        ensures
            recv_outcome(*old(self), *final(self), r),
    {
        if !self.ready {
            return None;
        }
        match self.rx_queue.poll_used() {
            Some((idx, len)) => {
                if (idx as usize) < self.rx_buffers.len() {
                    let len = len as usize;
                    if len > HEADER_SIZE {
                        let buffer = &self.rx_buffers[idx as usize];
                        let mut data: Vec<u8> = Vec::new();
                        let mut k: usize = HEADER_SIZE;
                        while k < len
                            invariant
                                HEADER_SIZE <= k <= len,
                                len <= buffer@.len(),
                                data@ == buffer@.subrange(HEADER_SIZE as int, k as int),
                            decreases len - k,
                        {
                            data.push(buffer[k]);
                            k = k + 1;
                            proof {
                                assert(data@ =~= buffer@.subrange(HEADER_SIZE as int, k as int));
                            }
                        }
                        self.rx_packets = self.rx_packets + 1;
                        self.rx_bytes = self.rx_bytes + (len - HEADER_SIZE) as u64;
                        let chain = [(self.rx_addrs[idx as usize], RX_BUFFER_SIZE as u32, true)];
                        let _ = self.rx_queue.add_buffer(&chain);
                        return Some(data);
                    }
                }
                None
            },
            None => None,
        }
    }

    /// Received packets, sent packets, received bytes, sent bytes.
    pub fn stats(&self) -> (s: (u64, u64, u64, u64))
        ensures
            s == (self.rx_packets, self.tx_packets, self.rx_bytes, self.tx_bytes),
    {
        (self.rx_packets, self.tx_packets, self.rx_bytes, self.tx_bytes)
    }
}

/// What sending `data` from `frame_addr` does to the device `a`, leaving `b`
/// and handing back `r` (see `VirtioNet::send`).
pub open spec fn send_outcome(
    a: VirtioNet,
    b: VirtioNet,
    data: Seq<u8>,
    frame_addr: u64,
    r: Result<Vec<u8>, &'static str>,
) -> bool {
    &&& b.wf()
    &&& b.rx_queue == a.rx_queue && b.rx_buffers@ == a.rx_buffers@
    &&& b.rx_addrs@ == a.rx_addrs@
    &&& b.mmio == a.mmio && b.mac == a.mac && b.ready == a.ready
    &&& b.rx_packets == a.rx_packets && b.rx_bytes == a.rx_bytes
    &&& !a.ready ==> r == Err::<Vec<u8>, &'static str>("Device not ready") && b.tx_queue == a.tx_queue
        && b.tx_packets == a.tx_packets && b.tx_bytes == a.tx_bytes
    &&& a.ready && a.tx_queue.num_free == 0 ==> r == Err::<Vec<u8>, &'static str>("Not enough descriptors")
        && b.tx_queue == a.tx_queue && b.tx_packets == a.tx_packets && b.tx_bytes == a.tx_bytes
    &&& a.ready && a.tx_queue.num_free > 0 ==> r is Ok && r->Ok_0@ == framed(data) && offered(
        a.tx_queue,
        b.tx_queue,
        seq![(frame_addr, ((data.len() + HEADER_SIZE) as u32), false)],
    ) && b.tx_packets == a.tx_packets + 1 && b.tx_bytes == a.tx_bytes + data.len()
}

/// What taking the next received frame does to the device `a`, leaving `b`
/// and handing back `r` (see `VirtioNet::recv`).
pub open spec fn recv_outcome(a: VirtioNet, b: VirtioNet, r: Option<Vec<u8>>) -> bool {
    &&& b.wf()
    &&& b.tx_queue == a.tx_queue
    &&& b.rx_buffers@ == a.rx_buffers@ && b.rx_addrs@ == a.rx_addrs@
    &&& b.mmio == a.mmio && b.mac == a.mac && b.ready == a.ready
    &&& b.tx_packets == a.tx_packets && b.tx_bytes == a.tx_bytes
    &&& !a.ready ==> r.is_none() && b.rx_queue == a.rx_queue
    &&& a.ready && a.rx_queue.last_used_idx == a.rx_queue.used.idx ==> r.is_none()
        && b.rx_queue == a.rx_queue
    &&& a.ready && a.rx_queue.last_used_idx != a.rx_queue.used.idx ==> {
        let q = a.rx_queue;
        let e = q.used.ring@[(q.last_used_idx % q.size) as int];
        let id = e.id as u16;
        if id < a.rx_buffers@.len() && e.len > HEADER_SIZE {
            &&& r is Some
            &&& r->Some_0@ == a.rx_buffers@[id as int]@.subrange(HEADER_SIZE as int, e.len as int)
            &&& b.rx_packets == a.rx_packets + 1
            &&& b.rx_bytes == a.rx_bytes + (e.len - HEADER_SIZE)
        } else {
            &&& r is None
            &&& b.rx_packets == a.rx_packets
            &&& b.rx_bytes == a.rx_bytes
        }
    }
}

/// Sends through the network device, or fails when there is none.
pub fn send_packet(net: &mut Option<VirtioNet>, data: &[u8], frame_addr: u64) -> (r: Result<Vec<u8>, &'static str>)
    requires
        old(net).is_some() ==> {
            let n = old(net).unwrap();
            n.wf() && n.tx_packets < u64::MAX && n.tx_bytes + data@.len() <= u64::MAX
        },
        data@.len() + HEADER_SIZE <= usize::MAX,
    ensures
        old(net).is_none() ==> r == Err::<Vec<u8>, &'static str>("No VirtIO network device") && final(net).is_none(),
        old(net).is_some() ==> final(net).is_some() && send_outcome(
            old(net).unwrap(),
            final(net).unwrap(),
            data@,
            frame_addr,
            r,
        ),
{
    match net {
        Some(n) => n.send(data, frame_addr),
        None => Err("No VirtIO network device"),
    }
}

/// Takes the next frame from the network device, if there is one and it has one.
pub fn recv_packet(net: &mut Option<VirtioNet>) -> (r: Option<Vec<u8>>)
    requires
        old(net).is_some() ==> {
            let n = old(net).unwrap();
            &&& n.wf()
            &&& n.ready && n.rx_queue.last_used_idx != n.rx_queue.used.idx ==> {
                let q = n.rx_queue;
                let e = q.used.ring@[(q.last_used_idx % q.size) as int];
                (e.id as u16) < n.rx_buffers@.len() && e.len > HEADER_SIZE ==> {
                    &&& e.len <= RX_BUFFER_SIZE
                    &&& n.rx_packets < u64::MAX
                    &&& n.rx_bytes + e.len <= u64::MAX
                }
            }
        },
    ensures
        old(net).is_none() ==> r.is_none() && final(net).is_none(),
        old(net).is_some() ==> final(net).is_some() && recv_outcome(old(net).unwrap(), final(net).unwrap(), r),
{
    match net {
        Some(n) => n.recv(),
        None => None,
    }
}

/// Whether a network device was brought up.
pub fn is_available(net: &Option<VirtioNet>) -> (b: bool)
    ensures
        b == net.is_some(),
{
    net.is_some()
}

/// The device's counters, when there is one.
pub fn get_stats(net: &Option<VirtioNet>) -> (s: Option<(u64, u64, u64, u64)>)
    ensures
        s == (match net {
            Some(n) => Some((n.rx_packets, n.tx_packets, n.rx_bytes, n.tx_bytes)),
            None => None::<(u64, u64, u64, u64)>,
        }),
{
    match net {
        Some(n) => Some(n.stats()),
        None => None,
    }
}

} // verus!
