//! The packet rewriter: it redirects TCP packets from the overlay to the
//! relay's listener, and makes the relay's answers look as if they came
//! from where the client meant to go.

use crate::nat_table::{Endpoint, NatTable};
use crate::packet::{
    checksums_ok, destination_ip, has_tcp, header_len, header_sum_ok, is_ipv4,
    lemma_address_field, lemma_header_checksum_validates, lemma_payload_field,
    lemma_tcp_checksum_validates, payload, source_ip, tcp_destination_port, tcp_source_port,
    tcp_sum_ok, with_be32, with_header_checksum, with_tcp_checksum, IpV4Packet, PacketError,
};
use crate::checksum::with_be16;
use vstd::prelude::*;

verus! {

/// The rewriter: the port on which the relay listens, and the NAT table.
pub struct TcpProxy {
    port: u16,
    nat_map: NatTable,
}

/// What the rewriter holds, as plain values.
pub struct TcpProxyView {
    pub port: u16,
    pub table: Map<Endpoint, Endpoint>,
}

impl View for TcpProxy {
    type V = TcpProxyView;

    closed spec fn view(&self) -> TcpProxyView {
        TcpProxyView { port: self.port, table: self.nat_map@ }
    }
}

/// The client that a packet from the overlay comes from: the sender's
/// address as the overlay knows it, with the packet's TCP source port.
pub open spec fn client_of(bytes: Seq<u8>, source: u32) -> Endpoint {
    Endpoint { ip: source, port: tcp_source_port(bytes) }
}

/// Where a packet is headed: its destination address and TCP destination
/// port.
pub open spec fn target_of(bytes: Seq<u8>) -> Endpoint {
    Endpoint { ip: destination_ip(bytes), port: tcp_destination_port(bytes) }
}

/// Where a packet says it comes from: its source address and TCP source
/// port.
pub open spec fn origin_of(bytes: Seq<u8>) -> Endpoint {
    Endpoint { ip: source_ip(bytes), port: tcp_source_port(bytes) }
}

/// A packet from the overlay, redirected to the relay's listener at
/// `destination` and `port`: the TCP destination port is replaced, the TCP
/// checksum computed anew for the addresses `source` and `destination`,
/// the destination address replaced, and the header checksum computed
/// anew.
pub open spec fn redirected(bytes: Seq<u8>, source: u32, destination: u32, port: u16) -> Seq<u8> {
    with_header_checksum(
        with_be32(
            with_tcp_checksum(
                with_be16(bytes, header_len(bytes) + 2, port),
                source,
                destination,
            ),
            16,
            destination,
        ),
    )
}

/// A packet of the relay's, made to look as if it came from `origin`: the
/// TCP source port is replaced, the TCP checksum computed anew for
/// `origin`'s address and the packet's destination, the source address
/// replaced, and the header checksum computed anew.
pub open spec fn disguised(bytes: Seq<u8>, origin: Endpoint) -> Seq<u8> {
    with_header_checksum(
        with_be32(
            with_tcp_checksum(
                with_be16(bytes, header_len(bytes), origin.port),
                origin.ip,
                destination_ip(bytes),
            ),
            12,
            origin.ip,
        ),
    )
}

/// A packet on its way out, as `table` has it leave: disguised as
/// coming from what the table holds for the packet's destination, and
/// unchanged where the table holds nothing for it.
pub open spec fn sent(table: Map<Endpoint, Endpoint>, bytes: Seq<u8>) -> Seq<u8> {
    if table.contains_key(target_of(bytes)) {
        disguised(bytes, table[target_of(bytes)])
    } else {
        bytes
    }
}

/// A redirected packet is a datagram with both checksums right, the TCP
/// checksum for the addresses `source` and `destination`; it is headed
/// for `destination` and `port`, and says as before where it comes from.
pub proof fn lemma_redirected(bytes: Seq<u8>, source: u32, destination: u32, port: u16)
    requires
        is_ipv4(bytes),
        has_tcp(bytes),
    ensures
        is_ipv4(redirected(bytes, source, destination, port)),
        has_tcp(redirected(bytes, source, destination, port)),
        redirected(bytes, source, destination, port).len() == bytes.len(),
        header_sum_ok(redirected(bytes, source, destination, port)),
        tcp_sum_ok(redirected(bytes, source, destination, port), source, destination),
        target_of(redirected(bytes, source, destination, port)) == (Endpoint {
            ip: destination,
            port,
        }),
        origin_of(redirected(bytes, source, destination, port)) == origin_of(bytes),
        source == source_ip(bytes) ==> checksums_ok(redirected(bytes, source, destination, port)),
{
    let at = header_len(bytes);
    let b1 = with_be16(bytes, at + 2, port);
    lemma_payload_field(bytes, 2, port);
    let b2 = with_tcp_checksum(b1, source, destination);
    lemma_tcp_checksum_validates(b1, source, destination);
    let b3 = with_be32(b2, 16, destination);
    lemma_address_field(b2, 16, destination);
    lemma_header_checksum_validates(b3);
}

/// A disguised packet is a datagram with both checksums right; it says
/// that it comes from `origin`, and is headed where it was before.
pub proof fn lemma_disguised(bytes: Seq<u8>, origin: Endpoint)
    requires
        is_ipv4(bytes),
        has_tcp(bytes),
    ensures
        is_ipv4(disguised(bytes, origin)),
        has_tcp(disguised(bytes, origin)),
        disguised(bytes, origin).len() == bytes.len(),
        checksums_ok(disguised(bytes, origin)),
        origin_of(disguised(bytes, origin)) == origin,
        target_of(disguised(bytes, origin)) == target_of(bytes),
{
    let at = header_len(bytes);
    let b1 = with_be16(bytes, at, origin.port);
    lemma_payload_field(bytes, 0, origin.port);
    let b2 = with_tcp_checksum(b1, origin.ip, destination_ip(bytes));
    lemma_tcp_checksum_validates(b1, origin.ip, destination_ip(bytes));
    let b3 = with_be32(b2, 12, origin.ip);
    lemma_address_field(b2, 12, origin.ip);
    lemma_header_checksum_validates(b3);
}

/// Once a packet of a client has been redirected, an answer addressed to
/// that client leaves as if it came from where the client's packet was
/// headed, with both checksums right.
pub proof fn lemma_round_trip(
    table: Map<Endpoint, Endpoint>,
    bytes: Seq<u8>,
    source: u32,
    answer: Seq<u8>,
)
    requires
        is_ipv4(bytes),
        has_tcp(bytes),
        is_ipv4(answer),
        has_tcp(answer),
        target_of(answer) == client_of(bytes, source),
    ensures
        origin_of(sent(table.insert(client_of(bytes, source), target_of(bytes)), answer))
            == target_of(bytes),
        target_of(sent(table.insert(client_of(bytes, source), target_of(bytes)), answer))
            == client_of(bytes, source),
        checksums_ok(sent(table.insert(client_of(bytes, source), target_of(bytes)), answer)),
{
    lemma_disguised(answer, target_of(bytes));
}

impl TcpProxy {
    /// A rewriter for a relay that listens on `port`, with an empty table.
    pub fn new(port: u16) -> (proxy: TcpProxy)
        ensures
            proxy@ == (TcpProxyView { port, table: Map::empty() }),
    {
        TcpProxy { port, nat_map: NatTable::new() }
    }

    /// The port on which the relay listens.
    pub fn port(&self) -> (port: u16)
        ensures
            port == self@.port,
    {
        self.port
    }

    /// Where the client `peer` meant to go, if the table knows.
    pub fn lookup(&self, peer: Endpoint) -> (r: Option<Endpoint>)
        ensures
            r == if self@.table.contains_key(peer) {
                Some(self@.table[peer])
            } else {
                None
            },
    {
        self.nat_map.get(peer)
    }

    /// Handles a packet that came from `source` in the overlay and is to
    /// go to the relay's listener at `destination`. A packet whose payload
    /// cannot hold a TCP header is refused and left as it is. Any other is
    /// redirected, and the table remembers where its client meant to go.
    /// The answer `false` says that the packet is to be delivered. Both
    /// checksums are right afterwards, the TCP checksum for the addresses
    /// `source` and `destination`: those of the packet itself, if `source`
    /// is the address that the packet carries.
    pub fn recv_handle(&mut self, ipv4: &mut IpV4Packet, source: u32, destination: u32) -> (r:
        Result<bool, PacketError>)
        requires
            old(ipv4).wf(),
        ensures
            final(ipv4).wf(),
            final(self)@.port == old(self)@.port,
            has_tcp(old(ipv4)@) ==> {
                &&& r == Ok::<bool, PacketError>(false)
                &&& final(ipv4)@ == redirected(old(ipv4)@, source, destination, old(self)@.port)
                &&& final(self)@.table == old(self)@.table.insert(
                    client_of(old(ipv4)@, source),
                    target_of(old(ipv4)@),
                )
                &&& header_sum_ok(final(ipv4)@)
                &&& tcp_sum_ok(final(ipv4)@, source, destination)
                &&& source == source_ip(old(ipv4)@) ==> checksums_ok(final(ipv4)@)
            },
            !has_tcp(old(ipv4)@) ==> {
                &&& r == Err::<bool, PacketError>(PacketError::Tcp)
                &&& final(ipv4)@ == old(ipv4)@
                &&& final(self)@ == old(self)@
            },
    {
        let dest_ip = ipv4.destination_ip();
        if !ipv4.has_tcp() {
            return Err(PacketError::Tcp);
        }
        proof {
            lemma_redirected(ipv4@, source, destination, self.port);
        }
        let source_port = ipv4.tcp_source_port();
        let dest_port = ipv4.tcp_destination_port();
        ipv4.set_tcp_destination_port(self.port);
        ipv4.update_tcp_checksum(source, destination);
        ipv4.set_destination_ip(destination);
        ipv4.update_checksum();
        self.nat_map.insert(
            Endpoint { ip: source, port: source_port },
            Endpoint { ip: dest_ip, port: dest_port },
        );
        Ok(false)
    }

    /// Handles a packet on its way out. A packet whose payload cannot hold
    /// a TCP header is refused and left as it is. Any other leaves as the
    /// table has it: disguised if the table holds its destination, and
    /// unchanged otherwise. The table stays as it is.
    pub fn send_handle(&self, ipv4: &mut IpV4Packet) -> (r: Result<(), PacketError>)
        requires
            old(ipv4).wf(),
        ensures
            final(ipv4).wf(),
            has_tcp(old(ipv4)@) ==> {
                &&& r == Ok::<(), PacketError>(())
                &&& final(ipv4)@ == sent(self@.table, old(ipv4)@)
                &&& self@.table.contains_key(target_of(old(ipv4)@)) ==> checksums_ok(final(ipv4)@)
            },
            !has_tcp(old(ipv4)@) ==> {
                &&& r == Err::<(), PacketError>(PacketError::Tcp)
                &&& final(ipv4)@ == old(ipv4)@
            },
    {
        let dest_ip = ipv4.destination_ip();
        if !ipv4.has_tcp() {
            return Err(PacketError::Tcp);
        }
        let dest_addr = Endpoint { ip: dest_ip, port: ipv4.tcp_destination_port() };
        match self.nat_map.get(dest_addr) {
            Some(source_addr) => {
                proof {
                    lemma_disguised(ipv4@, source_addr);
                }
                ipv4.set_tcp_source_port(source_addr.port);
                ipv4.update_tcp_checksum(source_addr.ip, dest_ip);
                ipv4.set_source_ip(source_addr.ip);
                ipv4.update_checksum();
            },
            None => {},
        }
        Ok(())
    }
}

} // verus!
