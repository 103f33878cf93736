//! BSD-style sockets: the socket table and the socket calls.
use vstd::prelude::*;
use super::Ipv4Address;
use super::tcp::{TcpTable, alloc_port, EPHEMERAL_FIRST};
use super::push_bytes;
use crate::ipc::endpoint::{copy_prefix, copied_into};

verus! {

/// Socket domain (address family)
#[derive(Debug, Clone, Copy, PartialEq, Eq, Structural)]
pub enum SocketDomain {
    /// IPv4 Internet protocols
    Inet,
    /// IPv6 Internet protocols
    Inet6,
    /// Unix domain sockets
    Unix,
}

impl SocketDomain {
    pub open spec fn spec_code(self) -> u32 {
        match self {
            SocketDomain::Inet => 2,
            SocketDomain::Inet6 => 10,
            SocketDomain::Unix => 1,
        }
    }

    /// The address family number
    pub fn code(self) -> (c: u32)
        ensures
            c == self.spec_code(),
    {
        match self {
            SocketDomain::Inet => 2,
            SocketDomain::Inet6 => 10,
            SocketDomain::Unix => 1,
        }
    }
}

/// Socket type
#[derive(Debug, Clone, Copy, PartialEq, Eq, Structural)]
pub enum SocketType {
    /// Stream socket (TCP)
    Stream,
    /// Datagram socket (UDP)
    Dgram,
    /// Raw socket
    Raw,
}

impl SocketType {
    pub open spec fn spec_code(self) -> u32 {
        match self {
            SocketType::Stream => 1,
            SocketType::Dgram => 2,
            SocketType::Raw => 3,
        }
    }

    /// The socket type number
    pub fn code(self) -> (c: u32)
        ensures
            c == self.spec_code(),
    {
        match self {
            SocketType::Stream => 1,
            SocketType::Dgram => 2,
            SocketType::Raw => 3,
        }
    }
}

/// Socket address (IPv4)
#[derive(Clone, Copy)]
pub struct SocketAddrV4 {
    pub port: u16,
    pub addr: Ipv4Address,
}

impl SocketAddrV4 {
    /// The address `addr`:`port`
    pub fn new(addr: Ipv4Address, port: u16) -> (s: SocketAddrV4)
        ensures
            s.addr == addr,
            s.port == port,
    {
        SocketAddrV4 { addr, port }
    }

    /// The unspecified address with `port`
    pub fn any(port: u16) -> (s: SocketAddrV4)
        ensures
            s.addr.0@ == seq![0u8, 0, 0, 0],
            s.port == port,
    {
        SocketAddrV4 { addr: Ipv4Address::unspecified(), port }
    }
}

/// Socket state
#[derive(Debug, Clone, Copy, PartialEq, Eq, Structural)]
pub enum SocketState {
    Closed,
    Bound,
    Listening,
    Connected,
    Connecting,
}

/// Socket file descriptor
pub type SocketFd = u32;

/// Socket
pub struct Socket {
    pub fd: SocketFd,
    pub domain: SocketDomain,
    pub socket_type: SocketType,
    pub state: SocketState,
    pub local_addr: Option<SocketAddrV4>,
    pub remote_addr: Option<SocketAddrV4>,
    pub recv_buffer: Vec<u8>,
    pub send_buffer: Vec<u8>,
    pub backlog: u32,
    pub pending_connections: Vec<SocketFd>,
}

impl Socket {
    /// A closed, unbound socket with empty buffers
    pub fn new(fd: SocketFd, domain: SocketDomain, socket_type: SocketType) -> (s: Socket)
        ensures
            s.fd == fd,
            s.domain == domain,
            s.socket_type == socket_type,
            s.state == SocketState::Closed,
            s.local_addr is None,
            s.remote_addr is None,
            s.recv_buffer@.len() == 0,
            s.send_buffer@.len() == 0,
            s.backlog == 0,
            s.pending_connections@.len() == 0,
    {
        Socket {
            fd,
            domain,
            socket_type,
            state: SocketState::Closed,
            local_addr: None,
            remote_addr: None,
            recv_buffer: Vec::new(),
            send_buffer: Vec::new(),
            backlog: 0,
            pending_connections: Vec::new(),
        }
    }
}

/// All sockets, in descriptor order (each descriptor once), and the next descriptor.
pub struct SocketTable {
    pub sockets: Vec<Socket>,
    pub next_fd: u32,
}

impl SocketTable {
    /// Descriptors strictly increase along the table.
    pub open spec fn wf(&self) -> bool {
        forall|i: int, j: int| 0 <= i < j < self.sockets@.len() ==> (#[trigger] self.sockets@[i]).fd < (#[trigger] self.sockets@[j]).fd
    }

    /// The position of the socket `fd`, if any.
    pub open spec fn index_of(&self, fd: u32) -> Option<int> {
        if exists|i: int| 0 <= i < self.sockets@.len() && (#[trigger] self.sockets@[i]).fd == fd {
            Some(choose|i: int| 0 <= i < self.sockets@.len() && (#[trigger] self.sockets@[i]).fd == fd)
        } else {
            None
        }
    }

    /// No sockets; descriptors from 3 (0, 1 and 2 are the standard streams).
    pub fn new() -> (t: SocketTable)
        ensures
            t.wf(),
            t.sockets@.len() == 0,
            t.next_fd == 3,
    {
        SocketTable { sockets: Vec::new(), next_fd: 3 }
    }
}

/// Initialize socket subsystem: an empty table
pub fn init() -> (t: SocketTable)
    ensures
        t.wf(),
        t.sockets@.len() == 0,
        t.next_fd == 3,
{
    SocketTable::new()
}

fn find_socket(table: &SocketTable, fd: SocketFd) -> (r: Option<usize>)
    requires
        table.wf(),
    ensures
        match r {
            Some(i) => table.index_of(fd) == Some(i as int),
            None => table.index_of(fd) is None,
        },
{
    let mut i: usize = 0;
    while i < table.sockets.len()
        invariant
            i <= table.sockets@.len(),
            table.wf(),
            forall|k: int| 0 <= k < i ==> (#[trigger] table.sockets@[k]).fd != fd,
        decreases table.sockets@.len() - i,
    {
        if table.sockets[i].fd == fd {
            proof {
                let c = choose|k: int| 0 <= k < table.sockets@.len() && (#[trigger] table.sockets@[k]).fd == fd;
                if c > i {
                    assert(table.sockets@[i as int].fd < table.sockets@[c].fd);
                }
            }
            return Some(i);
        }
        i = i + 1;
    }
    None
}

/// Every socket but the one at `i` is unchanged, as is that socket's descriptor.
pub open spec fn only_changed(old_s: Seq<Socket>, new_s: Seq<Socket>, i: int) -> bool {
    &&& new_s.len() == old_s.len()
    &&& forall|k: int| 0 <= k < old_s.len() && k != i ==> #[trigger] new_s[k] == old_s[k]
    &&& new_s[i].fd == old_s[i].fd
}

/// The error for a descriptor with no socket.
pub open spec fn invalid(fd: u32, table: SocketTable) -> bool {
    table.index_of(fd) is None
}

/// Create a new socket; its descriptor is the next one (the counter wraps)
pub fn socket(table: &mut SocketTable, domain: SocketDomain, socket_type: SocketType) -> (r: Result<SocketFd, &'static str>)
    requires
        old(table).wf(),
    ensures
        final(table).wf(),
        r == Ok::<SocketFd, &'static str>(old(table).next_fd),
        final(table).next_fd == old(table).next_fd.wrapping_add(1),
        match old(table).index_of(old(table).next_fd) {
            Some(i) => final(table).sockets@.len() == old(table).sockets@.len() && only_changed(old(table).sockets@, final(table).sockets@, i),
            None => final(table).sockets@.len() == old(table).sockets@.len() + 1,
        },
        ({
            let i = final(table).index_of(old(table).next_fd);
            &&& i is Some
            &&& final(table).sockets@[i.unwrap()].domain == domain
            &&& final(table).sockets@[i.unwrap()].socket_type == socket_type
            &&& final(table).sockets@[i.unwrap()].state == SocketState::Closed
            &&& final(table).sockets@[i.unwrap()].local_addr is None
        }),
{
    let fd = table.next_fd;
    table.next_fd = table.next_fd.wrapping_add(1);
    let sock = Socket::new(fd, domain, socket_type);
    let ghost old_s = table.sockets@;
    let mut i: usize = 0;
    while i < table.sockets.len() && table.sockets[i].fd < fd
        invariant
            i <= table.sockets@.len(),
            table.sockets@ == old_s,
            table.wf(),
            forall|k: int| 0 <= k < i ==> (#[trigger] table.sockets@[k]).fd < fd,
        decreases table.sockets@.len() - i,
    {
        i = i + 1;
    }
    if i < table.sockets.len() && table.sockets[i].fd == fd {
        table.sockets.set(i, sock);
        proof {
            assert forall|a: int, b: int| 0 <= a < b < table.sockets@.len()
                implies (#[trigger] table.sockets@[a]).fd < (#[trigger] table.sockets@[b]).fd by {
                assert(old_s[a].fd < old_s[b].fd);
            }
            assert(table.sockets@[i as int].fd == fd);
        }
    } else {
        table.sockets.insert(i, sock);
        proof {
            let at = i as int;
            assert forall|a: int, b: int| 0 <= a < b < table.sockets@.len()
                implies (#[trigger] table.sockets@[a]).fd < (#[trigger] table.sockets@[b]).fd by {
                if b < at {
                    assert(old_s[a].fd < old_s[b].fd);
                } else if b > at && a > at {
                    assert(old_s[a - 1].fd < old_s[b - 1].fd);
                } else if b > at && a < at {
                    assert(old_s[a].fd < old_s[b - 1].fd);
                } else if a == at && b - 1 > at {
                    assert(old_s[at].fd < old_s[b - 1].fd);
                }
            }
            assert forall|k: int| 0 <= k < old_s.len() implies (#[trigger] old_s[k]).fd != fd by {
                if k > at {
                    assert(old_s[at].fd < old_s[k].fd);
                }
            }
            assert(table.sockets@[at].fd == fd);
        }
    }
    Ok(fd)
}

/// Whether a socket other than `fd` is bound to `port`.
pub open spec fn port_in_use(sockets: Seq<Socket>, fd: u32, port: u16) -> bool {
    exists|k: int| 0 <= k < sockets.len() && (#[trigger] sockets[k]).local_addr is Some
        && sockets[k].local_addr.unwrap().port == port && sockets[k].fd != fd
}

fn port_conflict(table: &SocketTable, fd: SocketFd, port: u16) -> (b: bool)
    ensures
        b == port_in_use(table.sockets@, fd, port),
{
    let mut k: usize = 0;
    while k < table.sockets.len()
        invariant
            k <= table.sockets@.len(),
            forall|j: int| 0 <= j < k ==> !((#[trigger] table.sockets@[j]).local_addr is Some
                && table.sockets@[j].local_addr.unwrap().port == port && table.sockets@[j].fd != fd),
        decreases table.sockets@.len() - k,
    {
        match table.sockets[k].local_addr {
            Some(local) => {
                if local.port == port && table.sockets[k].fd != fd {
                    return true;
                }
            },
            None => {},
        }
        k = k + 1;
    }
    false
}

/// What `bind` of socket `fd` to `addr` does to the table `pre`, giving `post` and `r`.
pub open spec fn bind_outcome(pre: SocketTable, post: SocketTable, fd: SocketFd, addr: SocketAddrV4,
    r: Result<(), &'static str>) -> bool {
    match pre.index_of(fd) {
        None => r == Err::<(), &'static str>("Invalid socket") && post.sockets@ == pre.sockets@,
        Some(i) => if pre.sockets@[i].state != SocketState::Closed {
            r == Err::<(), &'static str>("Socket already bound") && post.sockets@ == pre.sockets@
        } else if port_in_use(pre.sockets@, fd, addr.port) {
            r == Err::<(), &'static str>("Address already in use") && post.sockets@ == pre.sockets@
        } else {
            &&& r is Ok
            &&& only_changed(pre.sockets@, post.sockets@, i)
            &&& post.sockets@[i].local_addr == Some(addr)
            &&& post.sockets@[i].state == SocketState::Bound
            &&& post.sockets@[i].socket_type == pre.sockets@[i].socket_type
            &&& post.sockets@[i].remote_addr == pre.sockets@[i].remote_addr
        },
    }
}

/// A port is bound once: after a successful bind of `fd` to a port, no other
/// socket in the table, whatever its descriptor, holds that port; and a bind is
/// refused with "Address already in use" whenever another socket holds the port.
pub proof fn law_bind_exclusive(pre: SocketTable, post: SocketTable, fd: SocketFd, addr: SocketAddrV4,
    r: Result<(), &'static str>)
    requires
        pre.wf(),
        bind_outcome(pre, post, fd, addr, r),
    ensures
        r is Ok ==> forall|k: int| 0 <= k < post.sockets@.len() && (#[trigger] post.sockets@[k]).fd != fd
            && post.sockets@[k].local_addr is Some ==> post.sockets@[k].local_addr.unwrap().port != addr.port,
        (exists|k: int| 0 <= k < pre.sockets@.len() && (#[trigger] pre.sockets@[k]).fd != fd
            && pre.sockets@[k].local_addr is Some && pre.sockets@[k].local_addr.unwrap().port == addr.port)
            && pre.index_of(fd) is Some && pre.sockets@[pre.index_of(fd)->0].state == SocketState::Closed
            ==> r == Err::<(), &'static str>("Address already in use"),
{
    if r is Ok {
        let i = pre.index_of(fd)->0;
        assert forall|k: int| 0 <= k < post.sockets@.len() && (#[trigger] post.sockets@[k]).fd != fd
            && post.sockets@[k].local_addr is Some implies post.sockets@[k].local_addr.unwrap().port != addr.port by {
            if k != i {
                assert(post.sockets@[k] == pre.sockets@[k]);
                if pre.sockets@[k].local_addr.unwrap().port == addr.port {
                    assert(port_in_use(pre.sockets@, fd, addr.port));
                }
            }
        }
    }
}

/// Bind a closed socket to `addr`; the port must not be bound by another socket
pub fn bind(table: &mut SocketTable, fd: SocketFd, addr: SocketAddrV4) -> (r: Result<(), &'static str>)
    requires
        old(table).wf(),
    ensures
        final(table).wf(),
        final(table).next_fd == old(table).next_fd,
        bind_outcome(*old(table), *final(table), fd, addr, r),
{
    let i = match find_socket(table, fd) {
        Some(i) => i,
        None => {
            return Err("Invalid socket");
        },
    };
    if table.sockets[i].state != SocketState::Closed {
        return Err("Socket already bound");
    }
    if port_conflict(table, fd, addr.port) {
        return Err("Address already in use");
    }
    let mut sock = table.sockets.remove(i);
    sock.local_addr = Some(addr);
    sock.state = SocketState::Bound;
    let ghost old_s = old(table).sockets@;
    table.sockets.insert(i, sock);
    proof {
        assert(table.sockets@ =~= old_s.update(i as int, table.sockets@[i as int]));
        assert forall|a: int, b: int| 0 <= a < b < table.sockets@.len()
            implies (#[trigger] table.sockets@[a]).fd < (#[trigger] table.sockets@[b]).fd by {
            assert(old_s[a].fd < old_s[b].fd);
        }
    }
    Ok(())
}

/// Listen for connections on a bound stream socket
pub fn listen(table: &mut SocketTable, fd: SocketFd, backlog: u32) -> (r: Result<(), &'static str>)
    requires
        old(table).wf(),
    ensures
        final(table).wf(),
        final(table).next_fd == old(table).next_fd,
        match old(table).index_of(fd) {
            None => r == Err::<(), &'static str>("Invalid socket") && final(table).sockets@ == old(table).sockets@,
            Some(i) => if old(table).sockets@[i].socket_type != SocketType::Stream {
                r == Err::<(), &'static str>("Not a stream socket") && final(table).sockets@ == old(table).sockets@
            } else if old(table).sockets@[i].state != SocketState::Bound {
                r == Err::<(), &'static str>("Socket not bound") && final(table).sockets@ == old(table).sockets@
            } else {
                &&& r is Ok
                &&& only_changed(old(table).sockets@, final(table).sockets@, i)
                &&& final(table).sockets@[i].backlog == backlog
                &&& final(table).sockets@[i].state == SocketState::Listening
                &&& final(table).sockets@[i].local_addr == old(table).sockets@[i].local_addr
            },
        },
{
    let i = match find_socket(table, fd) {
        Some(i) => i,
        None => {
            return Err("Invalid socket");
        },
    };
    if table.sockets[i].socket_type != SocketType::Stream {
        return Err("Not a stream socket");
    }
    if table.sockets[i].state != SocketState::Bound {
        return Err("Socket not bound");
    }
    let mut sock = table.sockets.remove(i);
    sock.backlog = backlog;
    sock.state = SocketState::Listening;
    let ghost old_s = old(table).sockets@;
    table.sockets.insert(i, sock);
    proof {
        assert(table.sockets@ =~= old_s.update(i as int, table.sockets@[i as int]));
        assert forall|a: int, b: int| 0 <= a < b < table.sockets@.len()
            implies (#[trigger] table.sockets@[a]).fd < (#[trigger] table.sockets@[b]).fd by {
            assert(old_s[a].fd < old_s[b].fd);
        }
    }
    Ok(())
}

/// Accept a connection on a listening socket: none is ever pending yet
pub fn accept(table: &SocketTable, fd: SocketFd) -> (r: Result<(SocketFd, SocketAddrV4), &'static str>)
    requires
        table.wf(),
    ensures
        match table.index_of(fd) {
            None => r == Err::<(SocketFd, SocketAddrV4), &'static str>("Invalid socket"),
            Some(i) => if table.sockets@[i].state != SocketState::Listening {
                r == Err::<(SocketFd, SocketAddrV4), &'static str>("Socket not listening")
            } else {
                r == Err::<(SocketFd, SocketAddrV4), &'static str>("No pending connections")
            },
        },
{
    let i = match find_socket(table, fd) {
        Some(i) => i,
        None => {
            return Err("Invalid socket");
        },
    };
    if table.sockets[i].state != SocketState::Listening {
        return Err("Socket not listening");
    }
    Err("No pending connections")
}

/// Connect to `addr`: an unbound socket first gets an ephemeral local port
pub fn connect(table: &mut SocketTable, tcp: &mut TcpTable, fd: SocketFd, addr: SocketAddrV4) -> (r: Result<(), &'static str>)
    requires
        old(table).wf(),
        old(tcp).wf(),
    ensures
        final(table).wf(),
        final(tcp).wf(),
        final(tcp)@ == old(tcp)@,
        final(table).next_fd == old(table).next_fd,
        match old(table).index_of(fd) {
            None => r == Err::<(), &'static str>("Invalid socket") && final(table).sockets@ == old(table).sockets@
                && final(tcp).next_port == old(tcp).next_port,
            Some(i) => if old(table).sockets@[i].state == SocketState::Connected {
                r == Err::<(), &'static str>("Already connected") && final(table).sockets@ == old(table).sockets@
                    && final(tcp).next_port == old(tcp).next_port
            } else {
                &&& r is Ok
                &&& only_changed(old(table).sockets@, final(table).sockets@, i)
                &&& final(table).sockets@[i].remote_addr == Some(addr)
                &&& final(table).sockets@[i].state == SocketState::Connected
                &&& (old(table).sockets@[i].local_addr is Some ==> final(table).sockets@[i].local_addr == old(table).sockets@[i].local_addr
                    && final(tcp).next_port == old(tcp).next_port)
                &&& (old(table).sockets@[i].local_addr is None ==> final(table).sockets@[i].local_addr is Some
                    && final(table).sockets@[i].local_addr.unwrap().port == old(tcp).next_port
                    && final(table).sockets@[i].local_addr.unwrap().addr.0@ == seq![0u8, 0, 0, 0])
            },
        },
{
    let i = match find_socket(table, fd) {
        Some(i) => i,
        None => {
            return Err("Invalid socket");
        },
    };
    if table.sockets[i].state == SocketState::Connected {
        return Err("Already connected");
    }
    let mut sock = table.sockets.remove(i);
    if sock.local_addr.is_none() {
        let port = alloc_port(tcp);
        sock.local_addr = Some(SocketAddrV4::any(port));
    }
    sock.remote_addr = Some(addr);
    sock.state = SocketState::Connecting;
    sock.state = SocketState::Connected;
    let ghost old_s = old(table).sockets@;
    table.sockets.insert(i, sock);
    proof {
        assert(table.sockets@ =~= old_s.update(i as int, table.sockets@[i as int]));
        assert forall|a: int, b: int| 0 <= a < b < table.sockets@.len()
            implies (#[trigger] table.sockets@[a]).fd < (#[trigger] table.sockets@[b]).fd by {
            assert(old_s[a].fd < old_s[b].fd);
        }
    }
    Ok(())
}

/// Queue data for sending on a connected socket; all of it is taken
pub fn send(table: &mut SocketTable, fd: SocketFd, data: &[u8]) -> (r: Result<usize, &'static str>)
    requires
        old(table).wf(),
    ensures
        final(table).wf(),
        final(table).next_fd == old(table).next_fd,
        match old(table).index_of(fd) {
            None => r == Err::<usize, &'static str>("Invalid socket") && final(table).sockets@ == old(table).sockets@,
            Some(i) => if old(table).sockets@[i].state != SocketState::Connected {
                r == Err::<usize, &'static str>("Socket not connected") && final(table).sockets@ == old(table).sockets@
            } else {
                &&& r == Ok::<usize, &'static str>(data@.len() as usize)
                &&& only_changed(old(table).sockets@, final(table).sockets@, i)
                &&& final(table).sockets@[i].send_buffer@ == old(table).sockets@[i].send_buffer@ + data@
                &&& final(table).sockets@[i].recv_buffer@ == old(table).sockets@[i].recv_buffer@
                &&& final(table).sockets@[i].state == old(table).sockets@[i].state
            },
        },
{
    let i = match find_socket(table, fd) {
        Some(i) => i,
        None => {
            return Err("Invalid socket");
        },
    };
    if table.sockets[i].state != SocketState::Connected {
        return Err("Socket not connected");
    }
    let mut sock = table.sockets.remove(i);
    push_bytes(&mut sock.send_buffer, data);
    let ghost old_s = old(table).sockets@;
    table.sockets.insert(i, sock);
    proof {
        assert(table.sockets@ =~= old_s.update(i as int, table.sockets@[i as int]));
        assert forall|a: int, b: int| 0 <= a < b < table.sockets@.len()
            implies (#[trigger] table.sockets@[a]).fd < (#[trigger] table.sockets@[b]).fd by {
            assert(old_s[a].fd < old_s[b].fd);
        }
    }
    Ok(data.len())
}

/// The bytes of `v` after the first `n`.
fn drop_front(v: &Vec<u8>, n: usize) -> (r: Vec<u8>)
    requires
        n <= v@.len(),
    ensures
        r@ == v@.subrange(n as int, v@.len() as int),
{
    let mut r: Vec<u8> = Vec::new();
    let mut i: usize = n;
    while i < v.len()
        invariant
            n <= i <= v@.len(),
            r@ == v@.subrange(n as int, i as int),
        decreases v@.len() - i,
    {
        r.push(v[i]);
        i = i + 1;
        assert(r@ =~= v@.subrange(n as int, i as int));
    }
    r
}

/// Move as much received data as fits into `buf` off the socket; returns how much.
fn take_received(sock: &mut Socket, buf: &mut [u8]) -> (n: usize)
    ensures
        n == (if old(sock).recv_buffer@.len() < old(buf)@.len() { old(sock).recv_buffer@.len() } else { old(buf)@.len() }),
        final(buf)@ == copied_into(old(sock).recv_buffer@, old(buf)@),
        final(sock).recv_buffer@ == old(sock).recv_buffer@.subrange(n as int, old(sock).recv_buffer@.len() as int),
        final(sock).fd == old(sock).fd,
        final(sock).state == old(sock).state,
        final(sock).socket_type == old(sock).socket_type,
        final(sock).send_buffer@ == old(sock).send_buffer@,
        final(sock).local_addr == old(sock).local_addr,
{
    let n = copy_prefix(&sock.recv_buffer, buf);
    sock.recv_buffer = drop_front(&sock.recv_buffer, n);
    n
}

/// Receive data on a connected socket: as much as fits, taken off the front
pub fn recv(table: &mut SocketTable, fd: SocketFd, buf: &mut [u8]) -> (r: Result<usize, &'static str>)
    requires
        old(table).wf(),
    ensures
        final(table).wf(),
        final(table).next_fd == old(table).next_fd,
        match old(table).index_of(fd) {
            None => r == Err::<usize, &'static str>("Invalid socket") && final(table).sockets@ == old(table).sockets@
                && final(buf)@ == old(buf)@,
            Some(i) => if old(table).sockets@[i].state != SocketState::Connected {
                r == Err::<usize, &'static str>("Socket not connected") && final(table).sockets@ == old(table).sockets@
                    && final(buf)@ == old(buf)@
            } else {
                let rb = old(table).sockets@[i].recv_buffer@;
                let n = if rb.len() < old(buf)@.len() { rb.len() } else { old(buf)@.len() };
                &&& r == Ok::<usize, &'static str>(n as usize)
                &&& final(buf)@ == copied_into(rb, old(buf)@)
                &&& only_changed(old(table).sockets@, final(table).sockets@, i)
                &&& final(table).sockets@[i].recv_buffer@ == rb.subrange(n as int, rb.len() as int)
                &&& final(table).sockets@[i].state == old(table).sockets@[i].state
            },
        },
{
    let i = match find_socket(table, fd) {
        Some(i) => i,
        None => {
            return Err("Invalid socket");
        },
    };
    if table.sockets[i].state != SocketState::Connected {
        return Err("Socket not connected");
    }
    let mut sock = table.sockets.remove(i);
    let n = take_received(&mut sock, buf);
    let ghost old_s = old(table).sockets@;
    table.sockets.insert(i, sock);
    proof {
        assert(table.sockets@ =~= old_s.update(i as int, table.sockets@[i as int]));
        assert forall|a: int, b: int| 0 <= a < b < table.sockets@.len()
            implies (#[trigger] table.sockets@[a]).fd < (#[trigger] table.sockets@[b]).fd by {
            assert(old_s[a].fd < old_s[b].fd);
        }
    }
    Ok(n)
}

/// Send to a specific address on a datagram socket; an unbound socket is first bound
/// to an ephemeral port
pub fn sendto(table: &mut SocketTable, tcp: &mut TcpTable, fd: SocketFd, data: &[u8], addr: SocketAddrV4)
    -> (r: Result<usize, &'static str>)
    requires
        old(table).wf(),
        old(tcp).wf(),
    ensures
        final(table).wf(),
        final(tcp).wf(),
        final(tcp)@ == old(tcp)@,
        final(table).next_fd == old(table).next_fd,
        match old(table).index_of(fd) {
            None => r == Err::<usize, &'static str>("Invalid socket") && final(table).sockets@ == old(table).sockets@,
            Some(i) => if old(table).sockets@[i].socket_type != SocketType::Dgram {
                r == Err::<usize, &'static str>("Not a datagram socket") && final(table).sockets@ == old(table).sockets@
            } else {
                &&& r == Ok::<usize, &'static str>(data@.len() as usize)
                &&& only_changed(old(table).sockets@, final(table).sockets@, i)
                &&& (old(table).sockets@[i].local_addr is Some ==> final(table).sockets@[i] == old(table).sockets@[i])
                &&& (old(table).sockets@[i].local_addr is None ==> final(table).sockets@[i].local_addr is Some
                    && final(table).sockets@[i].local_addr.unwrap().port == old(tcp).next_port
                    && final(table).sockets@[i].state == SocketState::Bound)
            },
        },
{
    let i = match find_socket(table, fd) {
        Some(i) => i,
        None => {
            return Err("Invalid socket");
        },
    };
    if table.sockets[i].socket_type != SocketType::Dgram {
        return Err("Not a datagram socket");
    }
    if table.sockets[i].local_addr.is_none() {
        let mut sock = table.sockets.remove(i);
        let port = alloc_port(tcp);
        sock.local_addr = Some(SocketAddrV4::any(port));
        sock.state = SocketState::Bound;
        let ghost old_s = old(table).sockets@;
        table.sockets.insert(i, sock);
        proof {
            assert(table.sockets@ =~= old_s.update(i as int, table.sockets@[i as int]));
            assert forall|a: int, b: int| 0 <= a < b < table.sockets@.len()
                implies (#[trigger] table.sockets@[a]).fd < (#[trigger] table.sockets@[b]).fd by {
                assert(old_s[a].fd < old_s[b].fd);
            }
        }
    }
    Ok(data.len())
}

/// Receive on a datagram socket: as much as fits, taken off the front; the sender is
/// reported as the unspecified address, port 0
pub fn recvfrom(table: &mut SocketTable, fd: SocketFd, buf: &mut [u8]) -> (r: Result<(usize, SocketAddrV4), &'static str>)
    requires
        old(table).wf(),
    ensures
        final(table).wf(),
        final(table).next_fd == old(table).next_fd,
        match old(table).index_of(fd) {
            None => r is Err && final(table).sockets@ == old(table).sockets@ && final(buf)@ == old(buf)@,
            Some(i) => if old(table).sockets@[i].socket_type != SocketType::Dgram {
                r is Err && final(table).sockets@ == old(table).sockets@ && final(buf)@ == old(buf)@
            } else {
                let rb = old(table).sockets@[i].recv_buffer@;
                let n = if rb.len() < old(buf)@.len() { rb.len() } else { old(buf)@.len() };
                &&& r is Ok && r.unwrap().0 == n && r.unwrap().1.port == 0 && r.unwrap().1.addr.0@ == seq![0u8, 0, 0, 0]
                &&& final(buf)@ == copied_into(rb, old(buf)@)
                &&& only_changed(old(table).sockets@, final(table).sockets@, i)
                &&& final(table).sockets@[i].recv_buffer@ == rb.subrange(n as int, rb.len() as int)
            },
        },
{
    let i = match find_socket(table, fd) {
        Some(i) => i,
        None => {
            return Err("Invalid socket");
        },
    };
    if table.sockets[i].socket_type != SocketType::Dgram {
        return Err("Not a datagram socket");
    }
    let mut sock = table.sockets.remove(i);
    let n = take_received(&mut sock, buf);
    let ghost old_s = old(table).sockets@;
    table.sockets.insert(i, sock);
    proof {
        assert(table.sockets@ =~= old_s.update(i as int, table.sockets@[i as int]));
        assert forall|a: int, b: int| 0 <= a < b < table.sockets@.len()
            implies (#[trigger] table.sockets@[a]).fd < (#[trigger] table.sockets@[b]).fd by {
            assert(old_s[a].fd < old_s[b].fd);
        }
    }
    Ok((n, SocketAddrV4::any(0)))
}

/// Close (remove) a socket
pub fn close(table: &mut SocketTable, fd: SocketFd) -> (r: Result<(), &'static str>)
    requires
        old(table).wf(),
    ensures
        final(table).wf(),
        final(table).next_fd == old(table).next_fd,
        match old(table).index_of(fd) {
            None => r == Err::<(), &'static str>("Invalid socket") && final(table).sockets@ == old(table).sockets@,
            Some(i) => r is Ok && final(table).sockets@ == old(table).sockets@.remove(i),
        },
{
    match find_socket(table, fd) {
        Some(i) => {
            let ghost old_s = table.sockets@;
            table.sockets.remove(i);
            proof {
                assert forall|a: int, b: int| 0 <= a < b < table.sockets@.len()
                    implies (#[trigger] table.sockets@[a]).fd < (#[trigger] table.sockets@[b]).fd by {
                    let a0 = if a < i { a } else { a + 1 };
                    let b0 = if b < i { b } else { b + 1 };
                    assert(old_s[a0].fd < old_s[b0].fd);
                }
            }
            Ok(())
        },
        None => Err("Invalid socket"),
    }
}

/// Get socket info: domain, type and state
pub fn get_socket(table: &SocketTable, fd: SocketFd) -> (r: Option<(SocketDomain, SocketType, SocketState)>)
    requires
        table.wf(),
    ensures
        match table.index_of(fd) {
            None => r is None,
            Some(i) => r == Some((table.sockets@[i].domain, table.sockets@[i].socket_type, table.sockets@[i].state)),
        },
{
    match find_socket(table, fd) {
        Some(i) => Some((table.sockets[i].domain, table.sockets[i].socket_type, table.sockets[i].state)),
        None => None,
    }
}

/// List all socket descriptors, in increasing order
pub fn list_sockets(table: &SocketTable) -> (v: Vec<SocketFd>)
    ensures
        v@ == table.sockets@.map_values(|s: Socket| s.fd),
{
    let mut v: Vec<SocketFd> = Vec::new();
    let mut i: usize = 0;
    while i < table.sockets.len()
        invariant
            i <= table.sockets@.len(),
            v@ == table.sockets@.subrange(0, i as int).map_values(|s: Socket| s.fd),
        decreases table.sockets@.len() - i,
    {
        v.push(table.sockets[i].fd);
        i = i + 1;
        assert(v@ =~= table.sockets@.subrange(0, i as int).map_values(|s: Socket| s.fd));
    }
    assert(table.sockets@.subrange(0, table.sockets@.len() as int) =~= table.sockets@);
    v
}

} // verus!
