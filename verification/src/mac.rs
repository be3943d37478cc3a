//! Hardware addresses.
use rand::Rng;
use vstd::prelude::*;

use crate::error::FlannelError;
use crate::text::hex_byte;

verus! {

/// A 48-bit hardware address.
#[derive(Debug, Clone, Copy, PartialEq, Eq)]
pub struct MacAddr6 {
    pub octets: [u8; 6],
}

/// An address as pairs of upper-case hexadecimal digits between colons.
pub open spec fn mac_text(octets: Seq<u8>) -> Seq<char> {
    hex_byte(octets[0]) + seq![':'] + hex_byte(octets[1]) + seq![':'] + hex_byte(octets[2])
        + seq![':'] + hex_byte(octets[3]) + seq![':'] + hex_byte(octets[4]) + seq![':']
        + hex_byte(octets[5])
}

/// The error that `macaddr` gives for a text it refuses.
#[verifier::external_type_specification]
#[verifier::external_body]
pub struct ExParseError(macaddr::ParseError);

/// The octets that `macaddr::MacAddr6::from_str` reads from a text.
pub uninterp spec fn mac_of(text: Seq<char>) -> Option<Seq<u8>>;

/// Whether a reader gives back the octets where the text is theirs.
pub open spec fn reads_back_mac<E>(text: Seq<char>, r: Result<[u8; 6], E>) -> bool {
    forall|octets: Seq<u8>|
        octets.len() == 6 && text == #[trigger] mac_text(octets) ==> (r matches Ok(o)
            && o@ == octets)
}

/// Calls `macaddr::MacAddr6::from_str`. Its result is a function of the text, and six pairs of
/// upper-case hexadecimal digits between colons are read as the octets they spell.
#[verifier::external_body]
fn parse_octets(text: &str) -> (r: Result<[u8; 6], macaddr::ParseError>)
    ensures
        r is Ok <==> mac_of(text@) is Some,
        r matches Ok(octets) ==> mac_of(text@) == Some(octets@),
        reads_back_mac(text@, r),
{
    text.parse::<macaddr::MacAddr6>().map(|mac| mac.into_array())
}

/// Calls the `Display` of `macaddr::MacAddr6`: pairs of upper-case hexadecimal digits between
/// colons.
#[verifier::external_body]
fn display_octets(octets: [u8; 6]) -> (r: String)
    ensures
        r@ == mac_text(octets@),
{
    macaddr::MacAddr6::from(octets).to_string()
}

/// Calls `rand::Rng::fill` of the thread's generator: six octets, of which nothing is known.
#[verifier::external_body]
fn random_octets() -> (r: [u8; 6]) {
    let mut octets = [0u8; 6];
    rand::thread_rng().fill(&mut octets);
    octets
}

impl MacAddr6 {
    /// The address as text.
    pub fn to_text(self) -> (r: String)
        ensures
            r@ == mac_text(self.octets@),
    {
        display_octets(self.octets)
    }

    /// Reads an address. What `to_text` wrote is read back.
    pub fn parse(text: &str) -> (r: Result<Self, FlannelError>)
        ensures
            mac_of(text@) is None ==> r == Err::<Self, FlannelError>(FlannelError::InvalidMac),
            mac_of(text@) matches Some(octets) ==> (r matches Ok(mac) && mac.octets@ == octets),
            forall|octets: Seq<u8>|
                octets.len() == 6 && text@ == #[trigger] mac_text(octets) ==> (r matches Ok(mac)
                    && mac.octets@ == octets),
    {
        match parse_octets(text) {
            Ok(octets) => Ok(MacAddr6 { octets }),
            Err(_) => Err(FlannelError::InvalidMac),
        }
    }

    /// Whether the address is one that its owner chose, and not that of a group.
    pub open spec fn is_local_unicast(self) -> bool {
        self.octets@[0] % 4 == 2
    }

    /// The address of six octets, marked as chosen by its owner and as that of a single host.
    pub fn local_unicast(octets: [u8; 6]) -> (r: Self)
        ensures
            r.octets@ == octets@.update(0, (octets@[0] - octets@[0] % 4 + 2) as u8),
            r.is_local_unicast(),
    {
        let first = octets[0];
        assert((first & 0xfe) | 0x02 == first - first % 4 + 2) by (bit_vector);
        let mut octets = octets;
        octets[0] = (first & 0xfe) | 0x02;
        MacAddr6 { octets }
    }
}

/// A random hardware address.
pub fn new_hardware_addr() -> (r: Result<MacAddr6, FlannelError>)
    ensures
        r matches Ok(mac) && mac.is_local_unicast(),
{
    Ok(MacAddr6::local_unicast(random_octets()))
}

/// A hardware address in text is six pairs of hexadecimal digits between colons, of which each
/// spells an octet.
pub proof fn hardware_address_text_spells_the_octets(octets: Seq<u8>)
    requires
        octets.len() == 6,
    ensures
        mac_text(octets).len() == 17,
        forall|i: int| 0 <= i < 5 ==> #[trigger] mac_text(octets)[3 * i + 2] == ':',
        forall|i: int|
            0 <= i < 6 ==> #[trigger] mac_text(octets).subrange(3 * i, 3 * i + 2) == hex_byte(
                octets[i],
            ),
{
    let text = mac_text(octets);
    assert forall|i: int| 0 <= i < 6 implies #[trigger] text.subrange(3 * i, 3 * i + 2) == hex_byte(
        octets[i],
    ) by {
        if i == 0 {
            assert(text.subrange(0, 2) =~= hex_byte(octets[0]));
        } else if i == 1 {
            assert(text.subrange(3, 5) =~= hex_byte(octets[1]));
        } else if i == 2 {
            assert(text.subrange(6, 8) =~= hex_byte(octets[2]));
        } else if i == 3 {
            assert(text.subrange(9, 11) =~= hex_byte(octets[3]));
        } else if i == 4 {
            assert(text.subrange(12, 14) =~= hex_byte(octets[4]));
        } else {
            assert(text.subrange(15, 17) =~= hex_byte(octets[5]));
        }
    }
    assert forall|i: int| 0 <= i < 5 implies #[trigger] text[3 * i + 2] == ':' by {
        if i == 0 {
        } else if i == 1 {
        } else if i == 2 {
        } else if i == 3 {
        } else {
        }
    }
}

/// An address that a host chose for itself has the lowest bit of its first octet clear and the next
/// one set.
pub proof fn chosen_addresses_are_marked(mac: MacAddr6)
    ensures
        mac.is_local_unicast() <==> mac.octets@[0] & 3 == 2,
{
    let first = mac.octets@[0];
    assert(first % 4 == 2 <==> first & 3 == 2) by (bit_vector);
}

}
