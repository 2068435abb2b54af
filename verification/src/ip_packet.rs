use vstd::prelude::*;

use crate::ip::Ipv4Addr;

verus! {

/// The IP version nibble of a packet.
pub open spec fn ip_version(data: Seq<u8>) -> u8 {
    data[0] / 16
}

/// The IPv4 header length, in 32-bit words.
pub open spec fn ipv4_header_words(data: Seq<u8>) -> u8 {
    data[0] % 16
}

/// The total length field of an IPv4 header.
pub open spec fn ipv4_total_length(data: Seq<u8>) -> nat {
    (data[2] as nat) * 0x100 + (data[3] as nat)
}

/// The buffer holds a whole IPv4 packet: the minimal header, the header that
/// the header length announces, and the total length.
pub open spec fn ipv4_well_formed(data: Seq<u8>) -> bool {
    &&& data.len() >= 20
    &&& data.len() >= (ipv4_header_words(data) as nat) * 4
    &&& data.len() >= ipv4_total_length(data)
}

/// The bytes of an IPv4 packet: its header, and its payload as far as the
/// total length reaches beyond the header.
pub open spec fn ipv4_size(data: Seq<u8>) -> nat {
    let header = (ipv4_header_words(data) as nat) * 4;
    if ipv4_total_length(data) > header {
        ipv4_total_length(data)
    } else {
        header
    }
}

/// The destination address of an IPv4 packet (bytes 16 to 19).
pub open spec fn ipv4_destination(data: Seq<u8>) -> u32 {
    (data[16] as int * 0x100_0000 + data[17] as int * 0x1_0000 + data[18] as int * 0x100
        + data[19] as int) as u32
}

/// Why the packet parser refused a buffer, one variant for each of its
/// error kinds.
#[derive(Debug, Clone, Copy, PartialEq, Eq, Structural)]
pub enum PacketError {
    /// The buffer is shorter than the packet it announces.
    SmallBuffer,
    /// The version nibble names no packet family that the parser knows.
    InvalidPacket,
    /// A field holds a value it may not hold.
    InvalidValue,
    /// A field was given twice.
    AlreadyDefined,
    /// Reading or writing failed.
    Io,
}

/// An IP packet as the parser sees it.
#[derive(Debug)]
pub enum ParsedPacket {
    /// An IPv4 packet, with its bytes (cut to its size).
    V4(Vec<u8>),
    /// An IPv6 packet.
    V6,
    /// Not a packet that the parser accepts, with the parser's error.
    Invalid(PacketError),
}

/// A parsed packet as a mathematical value.
pub enum ParsedView {
    V4(Seq<u8>),
    V6,
    Invalid(PacketError),
}

impl View for ParsedPacket {
    type V = ParsedView;

    open spec fn view(&self) -> ParsedView {
        match self {
            ParsedPacket::V4(b) => ParsedView::V4(b@),
            ParsedPacket::V6 => ParsedView::V6,
            ParsedPacket::Invalid(e) => ParsedView::Invalid(*e),
        }
    }
}

/// What parsing `data` gives: the version nibble chooses the family; an IPv4
/// packet must be well formed, and is cut to its size, else the buffer is too
/// small; an IPv6 packet is accepted as it is; any other version is an
/// invalid packet.
pub open spec fn parsed_view(data: Seq<u8>) -> ParsedView {
    if ip_version(data) == 4 {
        if ipv4_well_formed(data) {
            ParsedView::V4(data.subrange(0, ipv4_size(data) as int))
        } else {
            ParsedView::Invalid(PacketError::SmallBuffer)
        }
    } else if ip_version(data) == 6 {
        ParsedView::V6
    } else {
        ParsedView::Invalid(PacketError::InvalidPacket)
    }
}

/// `packet::ip::Packet::new`: the first byte's high nibble picks IPv4 (4) or
/// IPv6 (6), anything else is `Error::InvalidPacket`. An IPv4 buffer is
/// refused with `Error::SmallBuffer` when it is shorter than 20 bytes, than
/// the header length (low nibble of the first byte, in words) or than the
/// total length (bytes 2 and 3, big endian); an IPv6 buffer is accepted. For an IPv4 packet the bytes
/// handed back are those of `AsRef<[u8]>`: the buffer cut to the larger of the
/// header length and the total length. The parser indexes byte 0, so an
/// empty buffer is left out. Each error kind is handed back as the library's
/// variant of the same name.
#[verifier::external_body]
pub(crate) fn parse_ip_packet(data: Vec<u8>) -> (r: ParsedPacket)
    requires
        data@.len() > 0,
    ensures
        r@ == parsed_view(data@),
{
    match packet::ip::Packet::new(data) {
        Ok(packet::ip::Packet::V4(p)) => ParsedPacket::V4(p.as_ref().to_vec()),
        Ok(packet::ip::Packet::V6(_)) => ParsedPacket::V6,
        Err(packet::Error::SmallBuffer) => ParsedPacket::Invalid(PacketError::SmallBuffer),
        Err(packet::Error::InvalidPacket) => ParsedPacket::Invalid(PacketError::InvalidPacket),
        Err(packet::Error::InvalidValue) => ParsedPacket::Invalid(PacketError::InvalidValue),
        Err(packet::Error::AlreadyDefined) => ParsedPacket::Invalid(PacketError::AlreadyDefined),
        Err(packet::Error::Io(_)) => ParsedPacket::Invalid(PacketError::Io),
    }
}

/// The destination address of a well-formed IPv4 packet.
pub fn destination(data: &Vec<u8>) -> (r: Ipv4Addr)
    requires
        data@.len() >= 20,
    ensures
        r@ == ipv4_destination(data@),
{
    Ipv4Addr::new(data[16], data[17], data[18], data[19])
}

} // verus!
