//! Socket addresses: the raw form that the transport's paths are built from,
//! and the form that the script sees.

use vstd::prelude::*;
use vstd::slice::slice_subrange;

verus! {

/// Address family of IPv4 socket addresses.
pub const AF_INET: u16 = 2;

/// Address family of IPv6 socket addresses.
pub const AF_INET6: u16 = 10;

/// Size of a raw IPv4 socket address.
pub const SOCKADDR_IN_LEN: usize = 16;

/// Size of a raw IPv6 socket address.
pub const SOCKADDR_IN6_LEN: usize = 28;

/// An address and a port. The flow information and the scope are kept as the
/// bytes of the raw form.
#[derive(Copy, Clone, Debug, PartialEq, Eq)]
pub enum SocketAddress {
    V4 { ip: [u8; 4], port: u16 },
    V6 { ip: [u8; 16], port: u16, flowinfo: [u8; 4], scope_id: [u8; 4] },
}

/// A self-contained copy of a raw socket address, in host byte order for the
/// family (little-endian) and network byte order for the port.
#[derive(Copy, Clone, Debug, PartialEq, Eq)]
pub struct StoredAddr {
    pub bytes: [u8; 28],
    pub len: u32,
}

pub open spec fn zeroes(count: nat) -> Seq<u8> {
    Seq::new(count, |i: int| 0u8)
}

/// Two bytes, the low one first.
pub open spec fn little_endian(low: u8, high: u8) -> u16 {
    (low + 256 * high) as u16
}

/// Two bytes, the high one first.
pub open spec fn big_endian(high: u8, low: u8) -> u16 {
    (256 * high + low) as u16
}

impl SocketAddress {
    pub open spec fn spec_family(self) -> u16 {
        match self {
            SocketAddress::V4 { .. } => AF_INET,
            SocketAddress::V6 { .. } => AF_INET6,
        }
    }

    pub open spec fn spec_port(self) -> u16 {
        match self {
            SocketAddress::V4 { port, .. } => port,
            SocketAddress::V6 { port, .. } => port,
        }
    }

    pub open spec fn spec_ip(self) -> Seq<u8> {
        match self {
            SocketAddress::V4 { ip, .. } => ip@,
            SocketAddress::V6 { ip, .. } => ip@,
        }
    }

    /// The family and the port, as they head the raw form.
    pub open spec fn raw_head(self) -> Seq<u8> {
        seq![
            self.spec_family() as u8,
            0u8,
            (self.spec_port() / 256) as u8,
            (self.spec_port() % 256) as u8,
        ]
    }

    /// The raw form.
    pub open spec fn raw(self) -> Seq<u8> {
        match self {
            SocketAddress::V4 { ip, .. } => self.raw_head() + ip@ + zeroes(8),
            SocketAddress::V6 { ip, flowinfo, scope_id, .. } => self.raw_head() + flowinfo@ + ip@
                + scope_id@,
        }
    }
}

impl StoredAddr {
    pub open spec fn well_formed(self) -> bool {
        self.len <= 28
    }

    /// `self` is a copy of `raw`, cut to what fits.
    pub open spec fn copies(self, raw: Seq<u8>) -> bool {
        let kept = if raw.len() <= 28 {
            raw.len()
        } else {
            28
        };
        self.len == kept && self.bytes@ == raw.take(kept as int) + zeroes((28 - kept) as nat)
    }

    /// The family that the first two bytes hold.
    pub open spec fn family(self) -> u16 {
        little_endian(self.bytes@[0], self.bytes@[1])
    }

    /// The port that the next two bytes hold.
    pub open spec fn port(self) -> u16 {
        big_endian(self.bytes@[2], self.bytes@[3])
    }

    /// Family, port and address, where the bytes hold a whole address of a
    /// known family.
    pub open spec fn decoded(self) -> Option<(u16, u16, Seq<u8>)> {
        if self.len < 8 {
            None
        } else if self.family() == AF_INET {
            Some((self.family(), self.port(), self.bytes@.subrange(4, 8)))
        } else if self.family() == AF_INET6 && self.len >= 24 {
            Some((self.family(), self.port(), self.bytes@.subrange(8, 24)))
        } else {
            None
        }
    }

    /// `address` is what the script sees of `self`.
    pub open spec fn shows(self, address: Option<SocketAddress>) -> bool {
        match self.decoded() {
            Some((family, port, ip)) => match address {
                Some(SocketAddress::V4 { ip: shown, port: at }) => family == AF_INET && at == port
                    && shown@ == ip,
                Some(SocketAddress::V6 { ip: shown, port: at, flowinfo, scope_id }) => family
                    == AF_INET6 && at == port && shown@ == ip && flowinfo@ == zeroes(4) && scope_id@
                    == zeroes(4),
                None => false,
            },
            None => address is None,
        }
    }

    /// No address.
    pub fn unset() -> (addr: StoredAddr)
        ensures
            addr.len == 0,
            addr.bytes@ == zeroes(28),
            addr.well_formed(),
    {
        let addr = StoredAddr { bytes: [0; 28], len: 0 };
        assert(addr.bytes@ =~= zeroes(28));
        addr
    }

    /// Copy from any raw socket address.
    pub fn from_raw(raw: &[u8]) -> (addr: StoredAddr)
        ensures
            addr.copies(raw@),
            addr.well_formed(),
    {
        let mut addr = StoredAddr::unset();
        let len: usize = if raw.len() <= 28 {
            raw.len()
        } else {
            28
        };
        let mut at: usize = 0;
        assert(raw@.take(0) + zeroes(28) =~= zeroes(28));
        while at < len
            invariant
                at <= len <= 28,
                len <= raw@.len(),
                addr.bytes@ == raw@.take(at as int) + zeroes((28 - at) as nat),
            decreases len - at,
        {
            addr.bytes[at] = raw[at];
            at = at + 1;
            assert(addr.bytes@ =~= raw@.take(at as int) + zeroes((28 - at) as nat));
        }
        addr.len = len as u32;
        addr
    }

    pub fn from_socket_address(address: &SocketAddress) -> (addr: StoredAddr)
        ensures
            addr.copies(address.raw()),
            addr.well_formed(),
    {
        let mut addr = StoredAddr::unset();
        match address {
            SocketAddress::V4 { ip, port } => {
                addr.bytes[0] = AF_INET as u8;
                addr.bytes[2] = (*port / 256) as u8;
                addr.bytes[3] = (*port % 256) as u8;
                addr.bytes[4] = ip[0];
                addr.bytes[5] = ip[1];
                addr.bytes[6] = ip[2];
                addr.bytes[7] = ip[3];
                addr.len = 16;
                assert(addr.bytes@ =~= address.raw() + zeroes(12));
            },
            SocketAddress::V6 { ip, port, flowinfo, scope_id } => {
                addr.bytes[0] = AF_INET6 as u8;
                addr.bytes[2] = (*port / 256) as u8;
                addr.bytes[3] = (*port % 256) as u8;
                let mut at: usize = 0;
                while at < 16
                    invariant
                        at <= 16,
                        addr.bytes@ =~= (address.raw_head() + zeroes(4)) + ip@.take(at as int)
                            + zeroes((20 - at) as nat),
                    decreases 16 - at,
                {
                    addr.bytes[8 + at] = ip[at];
                    at = at + 1;
                }
                addr.bytes[4] = flowinfo[0];
                addr.bytes[5] = flowinfo[1];
                addr.bytes[6] = flowinfo[2];
                addr.bytes[7] = flowinfo[3];
                addr.bytes[24] = scope_id[0];
                addr.bytes[25] = scope_id[1];
                addr.bytes[26] = scope_id[2];
                addr.bytes[27] = scope_id[3];
                addr.len = 28;
                assert(addr.bytes@ =~= address.raw());
            },
        }
        assert(address.raw().take(addr.len as int) =~= address.raw());
        assert(addr.bytes@ =~= address.raw().take(addr.len as int) + zeroes((28 - addr.len) as nat));
        addr
    }

    /// The address of the peer a datagram came from, out of the socket's
    /// address storage: the family decides how much of it counts.
    pub fn from_peer(storage: &[u8]) -> (addr: StoredAddr)
        requires
            storage@.len() >= 28,
        ensures
            addr.well_formed(),
            addr.copies(
                storage@.take(
                    if little_endian(storage@[0], storage@[1]) == AF_INET6 {
                        28
                    } else {
                        16
                    },
                ),
            ),
    {
        let family: u16 = storage[0] as u16 + 256 * storage[1] as u16;
        let len: usize = if family == AF_INET6 {
            SOCKADDR_IN6_LEN
        } else {
            SOCKADDR_IN_LEN
        };
        assert(storage@.subrange(0, len as int) =~= storage@.take(len as int));
        StoredAddr::from_raw(slice_subrange(storage, 0, len))
    }

    pub fn is_set(&self) -> (set: bool)
        ensures
            set == (self.len != 0),
    {
        self.len != 0
    }

    /// The bytes, all twenty-eight of them.
    pub fn as_ptr(&self) -> (bytes: &[u8])
        ensures
            bytes@ == self.bytes@,
    {
        self.bytes.as_slice()
    }

    pub fn len(&self) -> (len: u32)
        ensures
            len == self.len,
    {
        self.len
    }

    /// Family, port and address bytes.
    pub fn decode(&self) -> (decoded: Option<(u16, u16, &[u8])>)
        ensures
            match decoded {
                Some((family, port, ip)) => self.decoded() == Some((family, port, ip@)),
                None => self.decoded() is None,
            },
    {
        if self.len < 8 {
            return None;
        }
        let family: u16 = self.bytes[0] as u16 + 256 * self.bytes[1] as u16;
        let port: u16 = 256 * self.bytes[2] as u16 + self.bytes[3] as u16;
        if family == AF_INET {
            Some((family, port, slice_subrange(self.bytes.as_slice(), 4, 8)))
        } else if family == AF_INET6 && self.len >= 24 {
            Some((family, port, slice_subrange(self.bytes.as_slice(), 8, 24)))
        } else {
            None
        }
    }

    /// The address as the script sees it.
    pub fn to_socket_address(&self) -> (address: Option<SocketAddress>)
        ensures
            self.shows(address),
    {
        let (family, port, ip) = match self.decode() {
            Some(decoded) => decoded,
            None => {
                return None;
            },
        };
        if family == AF_INET {
            let shown = [ip[0], ip[1], ip[2], ip[3]];
            assert(shown@ =~= ip@);
            Some(SocketAddress::V4 { ip: shown, port })
        } else {
            let mut shown = [0u8; 16];
            let mut at: usize = 0;
            while at < 16
                invariant
                    at <= 16,
                    ip@.len() == 16,
                    forall|i: int| 0 <= i < at ==> shown@[i] == ip@[i],
                decreases 16 - at,
            {
                shown[at] = ip[at];
                at = at + 1;
            }
            assert(shown@ =~= ip@);
            let flowinfo = [0u8; 4];
            let scope_id = [0u8; 4];
            assert(flowinfo@ =~= zeroes(4));
            assert(scope_id@ =~= zeroes(4));
            Some(SocketAddress::V6 { ip: shown, port, flowinfo, scope_id })
        }
    }
}

impl Default for StoredAddr {
    fn default() -> (addr: StoredAddr)
        ensures
            addr.len == 0,
            addr.bytes@ == zeroes(28),
            addr.well_formed(),
    {
        StoredAddr::unset()
    }
}

impl SocketAddress {
    /// The address that a socket reports of itself by a port, the bytes of an
    /// address, and their number, which tells the two kinds of address apart.
    pub open spec fn is_bound(self, port: i32, ip: Seq<u8>, len: i32) -> bool {
        match self {
            SocketAddress::V4 { ip: bound, port: at } => {
                &&& port > 0 && len == 4
                &&& at == port % 0x1_0000
                &&& bound@ == ip.take(4)
            },
            SocketAddress::V6 { ip: bound, port: at, flowinfo, scope_id } => {
                &&& port > 0 && len == 16
                &&& at == port % 0x1_0000
                &&& bound@ == ip
                &&& flowinfo@ == zeroes(4) && scope_id@ == zeroes(4)
            },
        }
    }
}

/// The address that a socket is bound to, from the port and the address bytes
/// that it reports.
pub fn bound_address(port: i32, ip: &[u8; 16], len: i32) -> (address: Option<SocketAddress>)
    ensures
        match address {
            Some(address) => address.is_bound(port, ip@, len),
            None => port <= 0 || (len != 4 && len != 16),
        },
{
    if port <= 0 {
        return None;
    }
    let at: u16 = (port % 0x1_0000) as u16;
    if len == 4 {
        let bound = [ip[0], ip[1], ip[2], ip[3]];
        assert(bound@ =~= ip@.take(4));
        Some(SocketAddress::V4 { ip: bound, port: at })
    } else if len == 16 {
        let flowinfo = [0u8; 4];
        let scope_id = [0u8; 4];
        assert(flowinfo@ =~= zeroes(4));
        assert(scope_id@ =~= zeroes(4));
        Some(SocketAddress::V6 { ip: *ip, port: at, flowinfo, scope_id })
    } else {
        None
    }
}

/// Storing an address and reading it back gives its family, its port and its
/// address bytes.
pub proof fn law_stored_address_reads_back(address: SocketAddress, stored: StoredAddr)
    requires
        stored.copies(address.raw()),
    ensures
        stored.decoded() == Some((address.spec_family(), address.spec_port(), address.spec_ip())),
{
    let port = address.spec_port();
    assert(stored.bytes@.subrange(0, 4) =~= address.raw_head());
    assert(stored.bytes@[0] == stored.bytes@.subrange(0, 4)[0]);
    assert(stored.bytes@[1] == stored.bytes@.subrange(0, 4)[1]);
    assert(stored.bytes@[2] == stored.bytes@.subrange(0, 4)[2]);
    assert(stored.bytes@[3] == stored.bytes@.subrange(0, 4)[3]);
    match address {
        SocketAddress::V4 { ip, .. } => {
            assert(stored.bytes@.subrange(4, 8) =~= ip@);
        },
        SocketAddress::V6 { ip, .. } => {
            assert(stored.bytes@.subrange(8, 24) =~= ip@);
        },
    }
}

/// The raw form of an address: the family, the port with its high byte first,
/// then the address bytes, four of them at once or sixteen behind the flow
/// information; sixteen bytes in all, or twenty-eight.
pub proof fn law_raw_form_is_laid_out(address: SocketAddress)
    ensures
        match address {
            SocketAddress::V4 { ip, port } => {
                let raw = address.raw();
                &&& raw.len() == 16
                &&& raw[0] == 2 && raw[1] == 0
                &&& raw[2] * 256 + raw[3] == port
                &&& raw.subrange(4, 8) == ip@
                &&& forall|i: int| 8 <= i < 16 ==> #[trigger] raw[i] == 0
            },
            SocketAddress::V6 { ip, port, flowinfo, scope_id } => {
                let raw = address.raw();
                &&& raw.len() == 28
                &&& raw[0] == 10 && raw[1] == 0
                &&& raw[2] * 256 + raw[3] == port
                &&& raw.subrange(4, 8) == flowinfo@
                &&& raw.subrange(8, 24) == ip@
                &&& raw.subrange(24, 28) == scope_id@
            },
        },
{
    let raw = address.raw();
    match address {
        SocketAddress::V4 { ip, .. } => {
            assert(raw.subrange(4, 8) =~= ip@);
        },
        SocketAddress::V6 { ip, flowinfo, scope_id, .. } => {
            assert(raw.subrange(4, 8) =~= flowinfo@);
            assert(raw.subrange(8, 24) =~= ip@);
            assert(raw.subrange(24, 28) =~= scope_id@);
        },
    }
}

/// A stored address holds what was copied into it, byte for byte, as much as
/// twenty-eight bytes take, with zeroes behind.
pub proof fn law_copy_keeps_the_bytes(stored: StoredAddr, raw: Seq<u8>, at: int)
    requires
        stored.copies(raw),
        0 <= at < 28,
    ensures
        stored.len == if raw.len() <= 28 {
            raw.len()
        } else {
            28
        },
        stored.bytes@[at] == if at < raw.len() {
            raw[at]
        } else {
            0
        },
        stored.well_formed(),
{
}

/// What is read from a stored address: nothing from one that is too short or of
/// an unknown family; else the family, with its low byte first, the port, with
/// its high byte first, and the address bytes.
pub proof fn law_stored_address_is_decoded(stored: StoredAddr)
    ensures
        ({
            let family = stored.bytes@[0] + 256 * stored.bytes@[1];
            let port = 256 * stored.bytes@[2] + stored.bytes@[3];
            &&& stored.decoded() is Some <==> (stored.len >= 8 && family == 2) || (stored.len >= 24
                && family == 10)
            &&& stored.decoded() matches Some((known, at, ip)) ==> {
                &&& known == family && at == port
                &&& family == 2 ==> ip == stored.bytes@.subrange(4, 8)
                &&& family == 10 ==> ip == stored.bytes@.subrange(8, 24)
            }
        }),
{
}

/// The script sees the port and the address bytes that are stored, and sees an
/// address exactly where one can be read.
pub proof fn law_script_sees_the_stored_address(stored: StoredAddr, address: Option<SocketAddress>)
    requires
        stored.shows(address),
    ensures
        address is Some <==> stored.decoded() is Some,
        stored.decoded() matches Some((family, port, ip)) ==> {
            &&& address->0.spec_port() == port
            &&& address->0.spec_ip() == ip
            &&& address->0 is V4 <==> family == 2
        },
        address matches Some(SocketAddress::V4 { ip, port }) ==> address->0.spec_ip() == ip@
            && address->0.spec_port() == port && address->0.spec_family() == 2,
        address matches Some(SocketAddress::V6 { ip, port, .. }) ==> address->0.spec_ip() == ip@
            && address->0.spec_port() == port && address->0.spec_family() == 10,
{
}

/// A bound address is the port and the bytes that the socket reports.
pub proof fn law_bound_address_is_the_reported_one(
    address: SocketAddress,
    port: i32,
    ip: Seq<u8>,
    len: i32,
)
    requires
        address.is_bound(port, ip, len),
        ip.len() == 16,
    ensures
        port > 0,
        port < 65536 ==> address.spec_port() == port,
        len == 4 || len == 16,
        address is V4 <==> len == 4,
        len == 4 ==> address.spec_ip() == ip.subrange(0, 4),
        len == 16 ==> address.spec_ip() == ip,
{
    assert(ip.take(4) =~= ip.subrange(0, 4));
}

} // verus!
