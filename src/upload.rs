//! The upload protocol: the packets that carry a firmware image to the
//! device, and the check of the checksum that the device reports back.

use vstd::prelude::*;
use crate::image::byte_sum;

verus! {

/// Every packet, in either direction of the upload, is this long.
pub const PACKET_SIZE: usize = 64;

/// Opcode that announces an upload; the image length follows in bytes 5 and 6.
pub const OP_BEGIN_UPLOAD: u8 = 0x33;

/// Opcode that asks the device for the checksum of what it received.
pub const OP_REQUEST_CHECKSUM: u8 = 0x22;

/// Flag placed in byte 6 of the checksum request.
pub const CHECKSUM_FLAG: u8 = 0x02;

/// Why an upload was not confirmed.
#[derive(Clone, Copy, Debug, PartialEq, Eq, Structural)]
pub enum UploadError {
    IncompleteChecksumResponse,
    ChecksumMismatch { expected: u16, reported: u16 },
}

/// The packet that announces an image of `len` bytes (length kept to 16 bits, big-endian).
pub open spec fn begin_upload_spec(len: nat) -> Seq<u8> {
    Seq::new(
        PACKET_SIZE as nat,
        |i: int|
            if i == 0 {
                OP_BEGIN_UPLOAD
            } else if i == 5 {
                ((len / 256) % 256) as u8
            } else if i == 6 {
                (len % 256) as u8
            } else {
                0u8
            },
    )
}

/// The packet that asks for the checksum.
pub open spec fn checksum_request_spec() -> Seq<u8> {
    Seq::new(
        PACKET_SIZE as nat,
        |i: int|
            if i == 0 {
                OP_REQUEST_CHECKSUM
            } else if i == 6 {
                CHECKSUM_FLAG
            } else {
                0u8
            },
    )
}

/// The 64-byte window of `fw` that starts at `offset`, zero-padded past its end.
pub open spec fn window(fw: Seq<u8>, offset: int) -> Seq<u8> {
    Seq::new(PACKET_SIZE as nat, |j: int| if offset + j < fw.len() { fw[offset + j] } else { 0u8 })
}

/// How many data packets an image of `len` bytes takes.
pub open spec fn chunk_count(len: nat) -> nat {
    (len + 63) / 64
}

/// The checksum the device should report: the sum of all bytes, kept to 16 bits.
pub open spec fn checksum16(fw: Seq<u8>) -> nat {
    byte_sum(fw) % 65536
}

fn zero_packet() -> (p: Vec<u8>)
    ensures
        p@ == Seq::new(PACKET_SIZE as nat, |i: int| 0u8),
{
    let mut p: Vec<u8> = Vec::new();
    let mut k: usize = 0;
    while k < PACKET_SIZE
        invariant
            k <= PACKET_SIZE,
            p@ == Seq::new(k as nat, |i: int| 0u8),
        decreases PACKET_SIZE - k,
    {
        p.push(0);
        k += 1;
        assert(p@ =~= Seq::new(k as nat, |i: int| 0u8));
    }
    p
}

/// The packet that announces an upload of `len` bytes.
pub fn begin_upload_packet(len: usize) -> (p: Vec<u8>)
    ensures
        p@ == begin_upload_spec(len as nat),
{
    let mut p = zero_packet();
    p.set(0, OP_BEGIN_UPLOAD);
    p.set(5, ((len / 256) % 256) as u8);
    p.set(6, (len % 256) as u8);
    assert(p@ =~= begin_upload_spec(len as nat));
    p
}

/// The packet that asks the device for its checksum.
pub fn checksum_request_packet() -> (p: Vec<u8>)
    ensures
        p@ == checksum_request_spec(),
{
    let mut p = zero_packet();
    p.set(0, OP_REQUEST_CHECKSUM);
    p.set(6, CHECKSUM_FLAG);
    assert(p@ =~= checksum_request_spec());
    p
}

/// The data packet for the window of `firmware` that starts at `offset`.
pub fn data_packet(firmware: &Vec<u8>, offset: usize) -> (p: Vec<u8>)
    ensures
        p@ == window(firmware@, offset as int),
{
    let mut p: Vec<u8> = Vec::new();
    let mut j: usize = 0;
    while j < PACKET_SIZE
        invariant
            j <= PACKET_SIZE,
            p@.len() == j,
            forall|k: int| 0 <= k < j ==> #[trigger] p@[k] == window(firmware@, offset as int)[k],
        decreases PACKET_SIZE - j,
    {
        if offset < firmware.len() && j < firmware.len() - offset {
            p.push(firmware[offset + j]);
        } else {
            p.push(0);
        }
        j += 1;
    }
    assert(p@ =~= window(firmware@, offset as int));
    p
}

/// Every packet of an upload, in the order they are sent: the announcement,
/// one packet per 64-byte window of the image at offsets 0, 64, 128, ...
/// (the last zero-padded), and the checksum request.
pub fn upload_packets(firmware: &Vec<u8>) -> (r: Vec<Vec<u8>>)
    ensures
        r@.len() == chunk_count(firmware@.len()) + 2,
        r@[0]@ == begin_upload_spec(firmware@.len()),
        forall|i: int| 0 <= i < chunk_count(firmware@.len()) ==> #[trigger] r@[i + 1]@ == window(firmware@, 64 * i),
        r@[r@.len() - 1]@ == checksum_request_spec(),
        forall|i: int| 0 <= i < r@.len() ==> (#[trigger] r@[i])@.len() == PACKET_SIZE,
{
    let mut r: Vec<Vec<u8>> = Vec::new();
    r.push(begin_upload_packet(firmware.len()));
    let n: usize = firmware.len() / 64 + if firmware.len() % 64 == 0 { 0 } else { 1 };
    assert(n == chunk_count(firmware@.len())) by (nonlinear_arith)
        requires
            n == firmware@.len() / 64 + if firmware@.len() % 64 == 0 { 0int } else { 1int },
    ;
    let mut count: usize = 0;
    while count < n
        invariant
            count <= n == chunk_count(firmware@.len()),
            r@.len() == count + 1,
            r@[0]@ == begin_upload_spec(firmware@.len()),
            forall|i: int| 0 <= i < count ==> #[trigger] r@[i + 1]@ == window(firmware@, 64 * i),
            forall|i: int| 0 <= i < r@.len() ==> (#[trigger] r@[i])@.len() == PACKET_SIZE,
        decreases n - count,
    {
        assert(64 * count < firmware@.len()) by (nonlinear_arith)
            requires
                count < n,
                n == (firmware@.len() + 63) / 64,
        ;
        assert(firmware@.len() == firmware.len());
        let offset: usize = 64 * count;
        r.push(data_packet(firmware, offset));
        count = count + 1;
    }
    r.push(checksum_request_packet());
    r
}

/// The sum of all bytes of `firmware`, with each addition kept to 16 bits.
pub fn firmware_checksum(firmware: &Vec<u8>) -> (c: u16)
    ensures
        c == checksum16(firmware@),
{
    let mut c: u16 = 0;
    let mut i: usize = 0;
    while i < firmware.len()
        invariant
            i <= firmware@.len(),
            c == byte_sum(firmware@.subrange(0, i as int)) % 65536,
        decreases firmware@.len() - i,
    {
        assert(firmware@.subrange(0, i + 1).drop_last() == firmware@.subrange(0, i as int));
        c = c.wrapping_add(firmware[i] as u16);
        i += 1;
    }
    assert(firmware@.subrange(0, i as int) == firmware@);
    c
}

/// Checks the device's response to the checksum request: its first two
/// bytes, big-endian, must equal the checksum of `firmware`.
pub fn verify_checksum(firmware: &Vec<u8>, response: &Vec<u8>) -> (r: Result<(), UploadError>)
    ensures
        response@.len() < 2 ==> r == Err::<(), UploadError>(UploadError::IncompleteChecksumResponse),
        response@.len() >= 2 ==> {
            let reported = response@[0] * 256 + response@[1];
            if reported == checksum16(firmware@) {
                r is Ok
            } else {
                r == Err::<(), UploadError>(UploadError::ChecksumMismatch {
                    expected: checksum16(firmware@) as u16,
                    reported: reported as u16,
                })
            }
        },
{
    if response.len() < 2 {
        return Err(UploadError::IncompleteChecksumResponse);
    }
    let expected = firmware_checksum(firmware);
    let reported: u16 = response[0] as u16 * 256 + response[1] as u16;
    if expected == reported {
        Ok(())
    } else {
        Err(UploadError::ChecksumMismatch { expected, reported })
    }
}

} // verus!
