//! IPv4 packets.
use vstd::prelude::*;

use crate::error::FlannelError;

verus! {

/// Number of bytes of an IPv4 header without options.
pub const SERIALIZED_SIZE: usize = 20;

/// The bytes of an IPv4 packet, to be read and changed in place.
pub struct IpSlice<'a> {
    pub slice: &'a mut [u8],
}

/// The bytes of a packet after a hop: the time to live is one less, where there is any left.
pub open spec fn after_hop(packet: Seq<u8>) -> Seq<u8> {
    if packet[8] > 0 {
        packet.update(8, (packet[8] - 1) as u8)
    } else {
        packet
    }
}

impl<'a> IpSlice<'a> {
    /// Whether the bytes hold a header.
    pub open spec fn wf(self) -> bool {
        self.slice@.len() >= SERIALIZED_SIZE
    }

    /// The bytes of the packet.
    pub open spec fn bytes(self) -> Seq<u8> {
        self.slice@
    }

    /// The packet in a buffer, where the buffer is long enough for a header.
    pub fn new(slice: &'a mut [u8]) -> (r: Result<Self, FlannelError>)
        ensures
            old(slice)@.len() < SERIALIZED_SIZE ==> r == Err::<Self, FlannelError>(
                FlannelError::PacketTooShort,
            ) && final(slice)@ == old(slice)@,
            old(slice)@.len() >= SERIALIZED_SIZE ==> (r matches Ok(p) && p.wf() && p.bytes()
                == old(slice)@ && final(slice)@ == final(p.slice)@),
    {
        if slice.len() < SERIALIZED_SIZE {
            return Err(FlannelError::PacketTooShort);
        }
        Ok(IpSlice { slice })
    }

    /// The version of the protocol.
    pub fn version(&self) -> (r: u8)
        requires
            self.wf(),
        ensures
            r == self.bytes()[0] / 16,
    {
        let first = self.slice[0];
        assert(first >> 4 == first / 16) by (bit_vector);
        first >> 4
    }

    /// The time to live.
    pub fn ttl(&self) -> (r: u8)
        requires
            self.wf(),
        ensures
            r == self.bytes()[8],
    {
        self.slice[8]
    }

    /// The time to live, to be changed.
    pub fn ttl_mut(&mut self) -> (r: &mut u8)
        requires
            old(self).wf(),
        ensures
            *r == old(self).bytes()[8],
            final(self).wf(),
            final(self).bytes() == old(self).bytes().update(8, *final(r)),
            final(final(self).slice)@ == final(old(self).slice)@,
    {
        &mut self.slice[8]
    }

    /// The octets of the destination address.
    pub fn destination(&self) -> (r: [u8; 4])
        requires
            self.wf(),
        ensures
            r@ == self.bytes().subrange(16, 20),
    {
        let r = [self.slice[16], self.slice[17], self.slice[18], self.slice[19]];
        assert(r@ =~= self.bytes().subrange(16, 20));
        r
    }
}

/// Takes one hop off a packet's time to live.
pub fn decrement_ttl(ip_pkt: &mut IpSlice)
    requires
        old(ip_pkt).wf(),
    ensures
        final(ip_pkt).wf(),
        final(ip_pkt).bytes() == after_hop(old(ip_pkt).bytes()),
        final(final(ip_pkt).slice)@ == final(old(ip_pkt).slice)@,
{
    let ttl = ip_pkt.ttl_mut();
    if *ttl > 0 {
        *ttl = *ttl - 1;
    }
}

/// A hop changes no byte of a packet but its time to live, which does not grow.
pub proof fn hop_changes_ttl_only(packet: Seq<u8>, i: int)
    requires
        packet.len() >= SERIALIZED_SIZE,
        0 <= i < packet.len(),
    ensures
        after_hop(packet).len() == packet.len(),
        i != 8 ==> after_hop(packet)[i] == packet[i],
        packet[8] == 0 ==> after_hop(packet)[8] == 0,
        packet[8] > 0 ==> after_hop(packet)[8] == packet[8] - 1,
{
}

/// The bytes of a packet hold a header where there are at least 20.
pub proof fn header_takes_20_bytes<'a>(packet: IpSlice<'a>)
    ensures
        packet.wf() <==> packet.bytes().len() >= 20,
{
}

}
