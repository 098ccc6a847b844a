//! Byte-exact wire codec for EtherCAT frames.
//!
//! A wire frame is: a 14-byte Ethernet header (destination MAC, source MAC,
//! EtherType), a 2-byte EtherCAT frame header (11-bit length of the
//! concatenated PDUs plus a 4-bit protocol type), then the PDUs. Each PDU is
//! a 10-byte header (command, identifying index, 4-byte address, 11-bit data
//! length with a more-PDUs-follow flag, interrupt field), the data bytes, and
//! a 2-byte working-counter trailer. All multi-byte fields are little-endian;
//! the EtherType alone is transmitted big-endian as Ethernet requires.

use vstd::prelude::*;

verus! {

/// Bytes of the Ethernet header: two MAC addresses and the EtherType.
pub const ETHERNET_HEADER_LEN: usize = 14;
/// Bytes of the EtherCAT frame header.
pub const ETHERCAT_HEADER_LEN: usize = 2;
/// Bytes of one PDU header.
pub const PDU_HEADER_LEN: usize = 10;
/// Bytes of the working-counter trailer after each PDU's data.
pub const WKC_LEN: usize = 2;
/// Offset of the first PDU within a frame buffer.
pub const FRAME_DATA_OFFSET: usize = 16;
/// Minimum length of an Ethernet frame on the wire (without the checksum).
pub const MIN_WIRE_LEN: usize = 60;
/// Largest value of an 11-bit length field.
pub const MAX_PDU_AREA: usize = 2047;
/// EtherCAT protocol type for data-link PDUs, held in the frame header.
pub const DLPDU_TYPE: u16 = 1;

/// The two little-endian bytes of a 16-bit value.
pub open spec fn u16_le_bytes(v: u16) -> Seq<u8> {
    seq![(v % 256) as u8, (v / 256) as u8]
}

/// The 16-bit value read back from two little-endian bytes.
pub open spec fn u16_from_le(b0: u8, b1: u8) -> u16 {
    (b0 + 256 * b1) as u16
}

/// The four little-endian bytes of a 32-bit value.
pub open spec fn u32_le_bytes(v: u32) -> Seq<u8> {
    seq![
        (v % 256) as u8,
        ((v / 256) % 256) as u8,
        ((v / 65536) % 256) as u8,
        ((v / 16777216) % 256) as u8,
    ]
}

/// The 32-bit value read back from four little-endian bytes.
pub open spec fn u32_from_le(b0: u8, b1: u8, b2: u8, b3: u8) -> u32 {
    (b0 + 256 * b1 + 65536 * b2 + 16777216 * b3) as u32
}

/// The Ethernet header this library stamps on every frame: broadcast
/// destination, zero source, EtherCAT EtherType 0x88a4 (big-endian).
pub open spec fn ethernet_header_bytes() -> Seq<u8> {
    seq![
        0xffu8, 0xffu8, 0xffu8, 0xffu8, 0xffu8, 0xffu8,
        0u8, 0u8, 0u8, 0u8, 0u8, 0u8,
        0x88u8, 0xa4u8,
    ]
}

/// The EtherCAT frame header for `pdu_len` bytes of concatenated PDUs:
/// an 11-bit length, one reserved bit, and the protocol type in the top
/// four bits.
pub open spec fn ethercat_header_bytes(pdu_len: u16) -> Seq<u8>
    recommends
        pdu_len <= MAX_PDU_AREA,
{
    u16_le_bytes((pdu_len + 0x1000 * DLPDU_TYPE) as u16)
}

/// The 16-bit flags word of a PDU header: an 11-bit data length, three
/// reserved bits, the circulating bit (always written clear), and the
/// more-PDUs-follow bit on top.
pub open spec fn pdu_flags_word(data_len: u16, more: bool) -> u16
    recommends
        data_len <= MAX_PDU_AREA,
{
    (data_len + if more { 0x8000int } else { 0int }) as u16
}

/// The 11-bit data length read back from a PDU flags word.
pub open spec fn flags_data_len(w: u16) -> u16 {
    (w % 2048) as u16
}

/// The more-PDUs-follow bit read back from a PDU flags word.
pub open spec fn flags_more(w: u16) -> bool {
    w >= 0x8000
}

/// The ten header bytes of a PDU: command, identifying index, address,
/// flags word, and a zero interrupt field.
pub open spec fn pdu_header_bytes(cmd: u8, index: u8, address: u32, data_len: u16, more: bool) -> Seq<u8>
    recommends
        data_len <= MAX_PDU_AREA,
{
    seq![cmd, index] + u32_le_bytes(address) + u16_le_bytes(pdu_flags_word(data_len, more))
        + seq![0u8, 0u8]
}

/// A whole PDU on the wire: header, data, working-counter trailer.
pub open spec fn pdu_wire_bytes(
    cmd: u8,
    index: u8,
    address: u32,
    payload: Seq<u8>,
    more: bool,
    wkc: u16,
) -> Seq<u8>
    recommends
        payload.len() <= MAX_PDU_AREA,
{
    pdu_header_bytes(cmd, index, address, payload.len() as u16, more) + payload
        + u16_le_bytes(wkc)
}

/// `s` with the bytes of `r` written over positions `off .. off + r.len()`.
pub open spec fn splice(s: Seq<u8>, off: int, r: Seq<u8>) -> Seq<u8>
    recommends
        0 <= off,
        off + r.len() <= s.len(),
{
    s.subrange(0, off) + r + s.subrange(off + r.len(), s.len() as int)
}

/// Reading the two little-endian bytes of a value gives the value back.
pub proof fn lemma_u16_le_round_trip(v: u16)
    ensures
        u16_from_le(u16_le_bytes(v)[0], u16_le_bytes(v)[1]) == v,
{
}

/// Reading the four little-endian bytes of a value gives the value back.
pub proof fn lemma_u32_le_round_trip(v: u32)
    ensures
        u32_from_le(
            u32_le_bytes(v)[0],
            u32_le_bytes(v)[1],
            u32_le_bytes(v)[2],
            u32_le_bytes(v)[3],
        ) == v,
{
}

/// The flags word decodes back to the data length and the more-follows bit
/// it was built from.
pub proof fn lemma_flags_round_trip(data_len: u16, more: bool)
    requires
        data_len <= MAX_PDU_AREA,
    ensures
        flags_data_len(pdu_flags_word(data_len, more)) == data_len,
        flags_more(pdu_flags_word(data_len, more)) == more,
{
}

/// The EtherCAT frame header decodes back to the PDU-area length and the
/// DLPDU protocol type it was built from.
pub proof fn lemma_ethercat_header_round_trip(pdu_len: u16)
    requires
        pdu_len <= MAX_PDU_AREA,
    ensures
        ({
            let b = ethercat_header_bytes(pdu_len);
            &&& b.len() == ETHERCAT_HEADER_LEN
            &&& flags_data_len(u16_from_le(b[0], b[1])) == pdu_len
            &&& u16_from_le(b[0], b[1]) as int / 4096 == DLPDU_TYPE
        }),
{
    lemma_u16_le_round_trip((pdu_len + 0x1000 * DLPDU_TYPE) as u16);
}

/// Every field of a PDU header decodes back to what it was encoded from:
/// the codec loses nothing between the submitter and a loopback receiver.
pub proof fn lemma_pdu_header_round_trip(cmd: u8, index: u8, address: u32, data_len: u16, more: bool)
    requires
        data_len <= MAX_PDU_AREA,
    ensures
        ({
            let b = pdu_header_bytes(cmd, index, address, data_len, more);
            &&& b.len() == PDU_HEADER_LEN
            &&& b[0] == cmd
            &&& b[1] == index
            &&& u32_from_le(b[2], b[3], b[4], b[5]) == address
            &&& flags_data_len(u16_from_le(b[6], b[7])) == data_len
            &&& flags_more(u16_from_le(b[6], b[7])) == more
        }),
{
    let b = pdu_header_bytes(cmd, index, address, data_len, more);
    lemma_u32_le_round_trip(address);
    lemma_u16_le_round_trip(pdu_flags_word(data_len, more));
    lemma_flags_round_trip(data_len, more);
    assert(b[2] == u32_le_bytes(address)[0]);
    assert(b[3] == u32_le_bytes(address)[1]);
    assert(b[4] == u32_le_bytes(address)[2]);
    assert(b[5] == u32_le_bytes(address)[3]);
    assert(b[6] == u16_le_bytes(pdu_flags_word(data_len, more))[0]);
    assert(b[7] == u16_le_bytes(pdu_flags_word(data_len, more))[1]);
}

/// A whole PDU decodes back to the tuple it was encoded from: command,
/// index, address, data, and working counter all survive the trip onto the
/// wire and back. Together with the frame-header round trip this is what
/// makes a loopback deliver to each submitter exactly what it staged.
pub proof fn lemma_pdu_wire_round_trip(
    cmd: u8,
    index: u8,
    address: u32,
    payload: Seq<u8>,
    more: bool,
    wkc: u16,
)
    requires
        payload.len() <= MAX_PDU_AREA,
    ensures
        ({
            let b = pdu_wire_bytes(cmd, index, address, payload, more, wkc);
            let dlen = payload.len() as int;
            &&& b.len() == PDU_HEADER_LEN + dlen + WKC_LEN
            &&& b[0] == cmd
            &&& b[1] == index
            &&& u32_from_le(b[2], b[3], b[4], b[5]) == address
            &&& flags_data_len(u16_from_le(b[6], b[7])) as int == dlen
            &&& flags_more(u16_from_le(b[6], b[7])) == more
            &&& b.subrange(PDU_HEADER_LEN as int, PDU_HEADER_LEN + dlen) == payload
            &&& u16_from_le(b[PDU_HEADER_LEN + dlen], b[PDU_HEADER_LEN + dlen + 1]) == wkc
        }),
{
    let b = pdu_wire_bytes(cmd, index, address, payload, more, wkc);
    let dlen = payload.len() as int;
    lemma_pdu_header_round_trip(cmd, index, address, payload.len() as u16, more);
    lemma_u16_le_round_trip(wkc);
    assert(b.subrange(PDU_HEADER_LEN as int, PDU_HEADER_LEN + dlen) =~= payload);
    assert(b[PDU_HEADER_LEN + dlen] == u16_le_bytes(wkc)[0]);
    assert(b[PDU_HEADER_LEN + dlen + 1] == u16_le_bytes(wkc)[1]);
}

/// Reads a 16-bit little-endian value out of a byte slice.
pub fn read_u16_le(buf: &[u8], off: usize) -> (v: u16)
    requires
        off + 2 <= buf@.len(),
    ensures
        v == u16_from_le(buf@[off as int], buf@[off + 1]),
{
    let b0 = buf[off];
    let b1 = buf[off + 1];
    b0 as u16 + 256 * (b1 as u16)
}

/// Reads a 32-bit little-endian value out of a byte slice.
pub fn read_u32_le(buf: &[u8], off: usize) -> (v: u32)
    requires
        off + 4 <= buf@.len(),
    ensures
        v == u32_from_le(buf@[off as int], buf@[off + 1], buf@[off + 2], buf@[off + 3]),
{
    let b0 = buf[off];
    let b1 = buf[off + 1];
    let b2 = buf[off + 2];
    let b3 = buf[off + 3];
    b0 as u32 + 256 * (b1 as u32) + 65536 * (b2 as u32) + 16777216 * (b3 as u32)
}

/// Writes a 16-bit value into a buffer as two little-endian bytes.
pub fn write_u16_le(buf: &mut Vec<u8>, off: usize, v: u16)
    requires
        off + 2 <= old(buf)@.len(),
    ensures
        final(buf)@ == splice(old(buf)@, off as int, u16_le_bytes(v)),
{
    let cap: usize = buf.len();
    buf.set(off, (v % 256) as u8);
    buf.set(off + 1, (v / 256) as u8);
    assert(buf@ =~= splice(old(buf)@, off as int, u16_le_bytes(v)));
}

/// Writes a 32-bit value into a buffer as four little-endian bytes.
pub fn write_u32_le(buf: &mut Vec<u8>, off: usize, v: u32)
    requires
        off + 4 <= old(buf)@.len(),
    ensures
        final(buf)@ == splice(old(buf)@, off as int, u32_le_bytes(v)),
{
    let cap: usize = buf.len();
    buf.set(off, (v % 256) as u8);
    buf.set(off + 1, ((v / 256) % 256) as u8);
    buf.set(off + 2, ((v / 65536) % 256) as u8);
    buf.set(off + 3, ((v / 16777216) % 256) as u8);
    assert(buf@ =~= splice(old(buf)@, off as int, u32_le_bytes(v)));
}

/// Writes `count` zero bytes into a buffer at an offset.
pub fn write_zeros(buf: &mut Vec<u8>, off: usize, count: usize)
    requires
        off + count <= old(buf)@.len(),
    ensures
        final(buf)@ == splice(old(buf)@, off as int, Seq::new(count as nat, |i: int| 0u8)),
{
    let cap: usize = buf.len();
    let mut i: usize = 0;
    while i < count
        invariant
            i <= count,
            off + count <= cap,
            buf@.len() == cap,
            buf@.len() == old(buf)@.len(),
            forall|j: int| off <= j < off + i ==> buf@[j] == 0u8,
            forall|j: int|
                0 <= j < buf@.len() && !(off <= j < off + i) ==> buf@[j] == old(buf)@[j],
        decreases count - i,
    {
        buf.set(off + i, 0u8);
        i = i + 1;
    }
    assert(buf@ =~= splice(old(buf)@, off as int, Seq::new(count as nat, |i: int| 0u8)));
}

/// Stamps the Ethernet header at the start of a frame buffer.
pub fn write_ethernet_header(buf: &mut Vec<u8>)
    requires
        old(buf)@.len() >= ETHERNET_HEADER_LEN,
    ensures
        final(buf)@ == splice(old(buf)@, 0, ethernet_header_bytes()),
{
    let mut i: usize = 0;
    let cap: usize = buf.len();
    while i < 6
        invariant
            i <= 6,
            buf@.len() == cap,
            cap >= ETHERNET_HEADER_LEN,
            buf@.len() == old(buf)@.len(),
            forall|j: int| 0 <= j < i ==> buf@[j] == 0xffu8,
            forall|j: int| i <= j < buf@.len() ==> buf@[j] == old(buf)@[j],
        decreases 6 - i,
    {
        buf.set(i, 0xffu8);
        i = i + 1;
    }
    while i < 12
        invariant
            6 <= i <= 12,
            buf@.len() == cap,
            cap >= ETHERNET_HEADER_LEN,
            buf@.len() == old(buf)@.len(),
            forall|j: int| 0 <= j < 6 ==> buf@[j] == 0xffu8,
            forall|j: int| 6 <= j < i ==> buf@[j] == 0u8,
            forall|j: int| i <= j < buf@.len() ==> buf@[j] == old(buf)@[j],
        decreases 12 - i,
    {
        buf.set(i, 0u8);
        i = i + 1;
    }
    buf.set(12, 0x88u8);
    buf.set(13, 0xa4u8);
    assert(buf@ =~= splice(old(buf)@, 0, ethernet_header_bytes()));
}

/// Writes one PDU header at an offset: command, index, address, flags
/// word built from the data length and the more-follows bit, zero
/// interrupt field.
pub fn write_pdu_header(
    buf: &mut Vec<u8>,
    off: usize,
    cmd: u8,
    index: u8,
    address: u32,
    data_len: u16,
    more: bool,
)
    requires
        off + PDU_HEADER_LEN <= old(buf)@.len(),
        data_len <= MAX_PDU_AREA,
    ensures
        final(buf)@ == splice(
            old(buf)@,
            off as int,
            pdu_header_bytes(cmd, index, address, data_len, more),
        ),
{
    let cap: usize = buf.len();
    let flags: u16 = data_len + if more { 0x8000u16 } else { 0u16 };
    buf.set(off, cmd);
    buf.set(off + 1, index);
    buf.set(off + 2, (address % 256) as u8);
    buf.set(off + 3, ((address / 256) % 256) as u8);
    buf.set(off + 4, ((address / 65536) % 256) as u8);
    buf.set(off + 5, ((address / 16777216) % 256) as u8);
    buf.set(off + 6, (flags % 256) as u8);
    buf.set(off + 7, (flags / 256) as u8);
    buf.set(off + 8, 0u8);
    buf.set(off + 9, 0u8);
    assert(buf@ =~= splice(
        old(buf)@,
        off as int,
        pdu_header_bytes(cmd, index, address, data_len, more),
    ));
}

/// Copies `count` bytes out of `src`, starting at `src_off`, into a buffer
/// at `off`.
pub fn write_bytes_range(buf: &mut Vec<u8>, off: usize, src: &[u8], src_off: usize, count: usize)
    requires
        off + count <= old(buf)@.len(),
        src_off + count <= src@.len(),
    ensures
        final(buf)@ == splice(
            old(buf)@,
            off as int,
            src@.subrange(src_off as int, src_off + count),
        ),
{
    let cap: usize = buf.len();
    let slen: usize = src.len();
    let mut i: usize = 0;
    while i < count
        invariant
            i <= count,
            off + count <= cap,
            src_off + count <= slen,
            slen == src@.len(),
            buf@.len() == cap,
            buf@.len() == old(buf)@.len(),
            forall|j: int| off <= j < off + i ==> buf@[j] == src@[j - off + src_off],
            forall|j: int|
                0 <= j < buf@.len() && !(off <= j < off + i) ==> buf@[j] == old(buf)@[j],
        decreases count - i,
    {
        let b = src[src_off + i];
        buf.set(off + i, b);
        i = i + 1;
    }
    assert(buf@ =~= splice(
        old(buf)@,
        off as int,
        src@.subrange(src_off as int, src_off + count),
    ));
}

/// Copies a byte slice into a buffer at an offset.
pub fn write_bytes(buf: &mut Vec<u8>, off: usize, src: &[u8]) -> (r: ())
    requires
        off + src@.len() <= old(buf)@.len(),
    ensures
        final(buf)@ == splice(old(buf)@, off as int, src@),
{
    let cap: usize = buf.len();
    let mut i: usize = 0;
    while i < src.len()
        invariant
            i <= src@.len(),
            off + src@.len() <= cap,
            buf@.len() == cap,
            buf@.len() == old(buf)@.len(),
            forall|j: int| 0 <= j < i ==> buf@[off + j] == src@[j],
            forall|j: int|
                0 <= j < buf@.len() && !(off <= j < off + i) ==> buf@[j] == old(buf)@[j],
        decreases src@.len() - i,
    {
        let b = src[i];
        buf.set(off + i, b);
        i = i + 1;
    }
    assert(buf@ =~= splice(old(buf)@, off as int, src@));
}

} // verus!
