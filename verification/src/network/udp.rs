//! Which datagrams arriving on the discovery socket are answers worth
//! reading: the host's own traffic is recognised by its source address and
//! dropped, as are oversized datagrams. The addresses of this host are kept
//! in a short-lived cache that the caller refreshes from the system's
//! interface list when it is stale.
use crate::pb::{spec_decode_encrypted_packet, EncryptedPacket};
use vstd::prelude::*;

verus! {

/// An IP address: IPv4 as its 32-bit number, IPv6 as its 128-bit number
/// (most significant octet first).
#[derive(Debug, Clone, Copy, PartialEq, Eq, Structural)]
pub enum IpAddress {
    V4(u32),
    V6(u128),
}

/// The IPv4 address an IPv6 address carries: one whose first 80 bits are
/// zero and whose next 16 bits are all zero (IPv4-compatible, which takes
/// in `::1` too) or all one (IPv4-mapped) carries its last 32 bits.
pub open spec fn spec_ipv6_to_ipv4(v6: u128) -> Option<u32> {
    if v6 < 0x1_0000_0000_0000 && (v6 / 0x1_0000_0000 == 0 || v6 / 0x1_0000_0000 == 0xffff) {
        Some((v6 % 0x1_0000_0000) as u32)
    } else {
        None
    }
}

/// A source address as it is compared with this host's: an IPv6 address
/// that carries an IPv4 address is taken as that IPv4 address.
pub open spec fn spec_normalize(addr: IpAddress) -> IpAddress {
    match addr {
        IpAddress::V6(v6) => match spec_ipv6_to_ipv4(v6) {
            Some(v4) => IpAddress::V4(v4),
            None => addr,
        },
        IpAddress::V4(_) => addr,
    }
}

/// Normalises a source address (see [`spec_normalize`]).
pub fn normalize_source(addr: IpAddress) -> (r: IpAddress)
    ensures
        r == spec_normalize(addr),
{
    match addr {
        IpAddress::V6(v6) => {
            if v6 < 0x1_0000_0000_0000 && (v6 / 0x1_0000_0000 == 0 || v6 / 0x1_0000_0000 == 0xffff) {
                IpAddress::V4((v6 % 0x1_0000_0000) as u32)
            } else {
                addr
            }
        },
        IpAddress::V4(_) => addr,
    }
}

/// Whether an address is a loopback address: `127.0.0.0/8` or `::1`.
pub open spec fn spec_is_loopback(addr: IpAddress) -> bool {
    match addr {
        IpAddress::V4(v4) => v4 / 0x100_0000 == 127,
        IpAddress::V6(v6) => v6 == 1,
    }
}

/// Whether an address is a loopback address (see [`spec_is_loopback`]).
pub fn is_loopback(addr: IpAddress) -> (r: bool)
    ensures
        r == spec_is_loopback(addr),
{
    match addr {
        IpAddress::V4(v4) => v4 / 0x100_0000 == 127,
        IpAddress::V6(v6) => v6 == 1,
    }
}

/// How long the list of this host's addresses is trusted, in milliseconds.
pub const INTERFACE_CACHE_TTL_MS: u64 = 1000;

/// The largest datagram read as an answer, in bytes.
pub const MAX_UDP_MESSAGE_SIZE: usize = 16384;

/// The addresses of this host's interfaces, as last listed, and when.
pub struct LocalAddressCache {
    addresses: Vec<IpAddress>,
    last_refresh_ms: Option<u64>,
}

/// The value of a [`LocalAddressCache`].
pub struct LocalAddressCacheView {
    pub addresses: Seq<IpAddress>,
    pub last_refresh_ms: Option<u64>,
}

impl View for LocalAddressCache {
    type V = LocalAddressCacheView;

    closed spec fn view(&self) -> LocalAddressCacheView {
        LocalAddressCacheView { addresses: self.addresses@, last_refresh_ms: self.last_refresh_ms }
    }
}

/// Whether a cache listed at `last` (never, when `None`) with `addresses`
/// must be listed again at `now_ms`: it never was, it is at least a TTL old,
/// or it holds no address.
pub open spec fn spec_needs_refresh(c: LocalAddressCacheView, now_ms: u64) -> bool {
    ||| c.last_refresh_ms is None
    ||| (c.last_refresh_ms matches Some(t) && now_ms >= t && now_ms - t >= INTERFACE_CACHE_TTL_MS)
    ||| c.addresses.len() == 0
}

/// Whether `addr` is this host's, by the cache: a loopback address or one
/// of the listed addresses.
pub open spec fn spec_is_local(c: LocalAddressCacheView, addr: IpAddress) -> bool {
    spec_is_loopback(addr) || c.addresses.contains(addr)
}

impl LocalAddressCache {
    /// An empty cache that was never listed.
    pub fn new() -> (r: Self)
        ensures
            r@.addresses.len() == 0,
            r@.last_refresh_ms is None,
    {
        LocalAddressCache { addresses: Vec::new(), last_refresh_ms: None }
    }

    /// Whether the addresses must be listed again before they are used.
    pub fn needs_refresh(&self, now_ms: u64) -> (r: bool)
        ensures
            r == spec_needs_refresh(self@, now_ms),
    {
        match self.last_refresh_ms {
            None => true,
            Some(t) => (now_ms >= t && now_ms - t >= INTERFACE_CACHE_TTL_MS) || self.addresses.len() == 0,
        }
    }

    /// Records a new listing made at `now_ms`: the listed addresses, each
    /// once, in the order first listed; when the listing failed (`None`),
    /// the old addresses stay and are not listed again before a TTL passes.
    pub fn refresh(&mut self, listed: Option<&[IpAddress]>, now_ms: u64)
        ensures
            final(self)@.last_refresh_ms == Some(now_ms),
            listed is None ==> final(self)@.addresses == old(self)@.addresses,
            listed matches Some(l) ==> final(self)@.addresses.no_duplicates() && final(self)@.addresses.to_set()
                == l@.to_set(),
    {
        match listed {
            Some(l) => {
                let mut out: Vec<IpAddress> = Vec::new();
                let mut i: usize = 0;
                while i < l.len()
                    invariant
                        i <= l@.len(),
                        out@.no_duplicates(),
                        out@.to_set() == l@.take(i as int).to_set(),
                    decreases l@.len() - i,
                {
                    let a = l[i];
                    let ghost before = out@;
                    proof {
                        assert(l@.take(i + 1) =~= l@.take(i as int).push(a));
                        l@.take(i as int).lemma_push_to_set_commute(a);
                    }
                    if !contains_address(&out, a) {
                        out.push(a);
                        proof {
                            assert(out@ =~= before.push(a));
                            before.lemma_push_to_set_commute(a);
                            assert forall|x: int, y: int| 0 <= x < y < out@.len() implies out@[x] != out@[y] by {
                                if y == out@.len() - 1 {
                                    assert(out@[y] == a);
                                    assert(before.contains(out@[x]));
                                }
                            }
                        }
                    } else {
                        proof {
                            assert(before.to_set().contains(a));
                            assert(before.to_set() =~= before.to_set().insert(a));
                        }
                    }
                    i = i + 1;
                }
                assert(l@.take(l@.len() as int) =~= l@);
                self.addresses = out;
            },
            None => {},
        }
        self.last_refresh_ms = Some(now_ms);
    }

    /// Whether `addr` is one of this host's addresses (by the cache as it
    /// stands; refresh it first when [`Self::needs_refresh`] says so).
    pub fn is_local_ip(&self, addr: IpAddress) -> (r: bool)
        ensures
            r == spec_is_local(self@, addr),
    {
        is_loopback(addr) || contains_address(&self.addresses, addr)
    }
}

/// Whether `addrs` holds `a`.
fn contains_address(addrs: &Vec<IpAddress>, a: IpAddress) -> (r: bool)
    ensures
        r == addrs@.contains(a),
{
    let mut i: usize = 0;
    while i < addrs.len()
        invariant
            i <= addrs@.len(),
            forall|j: int| 0 <= j < i ==> addrs@[j] != a,
        decreases addrs@.len() - i,
    {
        if addrs[i] == a {
            return true;
        }
        i = i + 1;
    }
    false
}

/// What becomes of a datagram received on the discovery socket.
#[derive(Debug, Clone, PartialEq, Eq)]
pub enum DatagramVerdict {
    /// It came from this host and from the socket's own port: an echo.
    SelfEcho,
    /// It came from this host.
    SelfSent,
    /// It is longer than [`MAX_UDP_MESSAGE_SIZE`].
    TooLarge,
    /// It is not an encrypted packet.
    Malformed,
    /// An encrypted packet from another host.
    Packet(EncryptedPacket),
}

/// Judges a datagram from `source`:`source_port` received on a socket bound
/// to `local_port`, with the host's addresses in `cache`. The host's own
/// echoes are always dropped; anything else from the host is dropped unless
/// `accept_local` (a loopback test setup); then oversized datagrams are
/// dropped, and the rest must decode as an encrypted packet.
pub fn receive_verdict(
    cache: &LocalAddressCache,
    source: IpAddress,
    source_port: u16,
    local_port: Option<u16>,
    accept_local: bool,
    datagram: &[u8],
) -> (r: DatagramVerdict)
    ensures
        ({
            let local = spec_is_local(cache@, spec_normalize(source));
            let echo = local_port == Some(source_port) && local;
            &&& echo ==> r == DatagramVerdict::SelfEcho
            &&& !echo && !accept_local && local ==> r == DatagramVerdict::SelfSent
            &&& !echo && (accept_local || !local) && datagram@.len() > MAX_UDP_MESSAGE_SIZE ==> r
                == DatagramVerdict::TooLarge
            &&& !echo && (accept_local || !local) && datagram@.len() <= MAX_UDP_MESSAGE_SIZE ==> match spec_decode_encrypted_packet(datagram@) {
                Some(p) => r matches DatagramVerdict::Packet(q) && q@ == p,
                None => r == DatagramVerdict::Malformed,
            }
        }),
{
    let src = normalize_source(source);
    let local = cache.is_local_ip(src);
    let echo = match local_port {
        Some(p) => p == source_port && local,
        None => false,
    };
    if echo {
        return DatagramVerdict::SelfEcho;
    }
    if !accept_local && local {
        return DatagramVerdict::SelfSent;
    }
    if datagram.len() > MAX_UDP_MESSAGE_SIZE {
        return DatagramVerdict::TooLarge;
    }
    match EncryptedPacket::decode(datagram) {
        Ok(p) => DatagramVerdict::Packet(p),
        Err(_) => DatagramVerdict::Malformed,
    }
}

} // verus!
