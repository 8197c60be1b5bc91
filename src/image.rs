//! The firmware image parser: hex records, one per line, into a flat image.

use vstd::prelude::*;
use crate::hex::{from_hex, hex_decodable, hex_decode};
use vstd::string::StrSliceExecFns;

verus! {

/// Size of the image before any record has been stored.
pub const INITIAL_IMAGE_SIZE: usize = 64;

/// What is wrong with one line of the firmware file.
#[derive(Clone, Copy, Debug, PartialEq, Eq, Structural)]
pub enum LineFault {
    Empty,
    AfterEnd,
    Decode,
    LengthMismatch,
    ChecksumMismatch,
    UnknownType,
}

/// Why a firmware file was rejected. Lines are numbered from 1.
#[derive(Clone, Copy, Debug, PartialEq, Eq, Structural)]
pub enum ParseError {
    Line { line: usize, fault: LineFault },
    MissingEnd,
}

/// One decoded record.
#[derive(Debug)]
pub enum Record {
    Data { address: u16, payload: Vec<u8> },
    EndOfFile,
}

/// The sum of all bytes, without truncation.
pub open spec fn byte_sum(b: Seq<u8>) -> nat
    decreases b.len(),
{
    if b.len() == 0 {
        0
    } else {
        (byte_sum(b.drop_last()) + b.last()) as nat
    }
}

/// The fault of a decoded line, checked in order: length, checksum, type.
pub open spec fn record_fault(b: Seq<u8>) -> Option<LineFault> {
    if b.len() == 0 || b[0] + 5 != b.len() {
        Some(LineFault::LengthMismatch)
    } else if byte_sum(b) % 256 != 0 {
        Some(LineFault::ChecksumMismatch)
    } else if b[3] > 1 {
        Some(LineFault::UnknownType)
    } else {
        None
    }
}

pub open spec fn record_address(b: Seq<u8>) -> nat {
    (b[1] * 256 + b[2]) as nat
}

pub open spec fn record_payload(b: Seq<u8>) -> Seq<u8> {
    b.subrange(4, 4 + b[0])
}

/// The image size after growing `size` by doubling until it holds `need` bytes.
pub open spec fn grown_size(size: nat, need: nat) -> nat
    decreases (if size < need { need - size } else { 0 }),
{
    if size == 0 || need <= size {
        size
    } else {
        grown_size(2 * size, need)
    }
}

/// Growth never shrinks the image and always makes room for `need` bytes.
pub proof fn lemma_grown_size_bounds(size: nat, need: nat)
    requires
        size > 0,
    ensures
        grown_size(size, need) >= size,
        grown_size(size, need) >= need,
    decreases (if size < need { need - size } else { 0 }),
{
    if size < need {
        lemma_grown_size_bounds(2 * size, need);
    }
}

/// `img` after storing `payload` at `address`, grown and zero-filled as needed.
pub open spec fn store_spec(img: Seq<u8>, address: nat, payload: Seq<u8>) -> Seq<u8> {
    Seq::new(
        grown_size(img.len(), address + payload.len()),
        |i: int|
            if address <= i < address + payload.len() {
                payload[i - address]
            } else if i < img.len() {
                img[i]
            } else {
                0
            },
    )
}

pub open spec fn line_error(line: nat, fault: LineFault) -> ParseError {
    ParseError::Line { line: line as usize, fault }
}

/// The image and the end flag after a decoded record on line `no`.
pub open spec fn record_step(img: Seq<u8>, b: Seq<u8>, no: nat) -> Result<(Seq<u8>, bool), ParseError> {
    match record_fault(b) {
        Some(f) => Err(line_error(no, f)),
        None => if b[3] == 0 {
            Ok((store_spec(img, record_address(b), record_payload(b)), false))
        } else {
            Ok((img, true))
        },
    }
}

/// The image and the end flag after line `no`, whose text is `line`.
pub open spec fn line_step(img: Seq<u8>, ended: bool, line: Seq<char>, no: nat) -> Result<(Seq<u8>, bool), ParseError> {
    if line.len() == 0 {
        Err(line_error(no, LineFault::Empty))
    } else if ended {
        Err(line_error(no, LineFault::AfterEnd))
    } else if !hex_decodable(line.drop_first()) {
        Err(line_error(no, LineFault::Decode))
    } else {
        record_step(img, hex_decode(line.drop_first()), no)
    }
}

/// The state after the first `n` lines.
pub open spec fn run_lines(lines: Seq<Seq<char>>, n: nat) -> Result<(Seq<u8>, bool), ParseError>
    decreases n,
{
    if n == 0 {
        Ok((Seq::new(INITIAL_IMAGE_SIZE as nat, |i: int| 0u8), false))
    } else {
        match run_lines(lines, (n - 1) as nat) {
            Err(e) => Err(e),
            Ok((img, ended)) => line_step(img, ended, lines[n - 1], n),
        }
    }
}

/// The image that a whole file gives, or why it is rejected.
pub open spec fn parse_lines(lines: Seq<Seq<char>>) -> Result<Seq<u8>, ParseError> {
    match run_lines(lines, lines.len()) {
        Err(e) => Err(e),
        Ok((img, true)) => Ok(img),
        Ok((_, false)) => Err(ParseError::MissingEnd),
    }
}

pub open spec fn line_views(lines: Seq<String>) -> Seq<Seq<char>> {
    lines.map_values(|l: String| l@)
}

/// Checks one decoded line and reads the record out of it.
pub fn parse_record(bytes: &Vec<u8>) -> (r: Result<Record, LineFault>)
    ensures
        match record_fault(bytes@) {
            Some(f) => r == Err::<Record, LineFault>(f),
            None => if bytes@[3] == 0 {
                r matches Ok(Record::Data { address, payload })
                    && address == record_address(bytes@)
                    && payload@ == record_payload(bytes@)
            } else {
                r matches Ok(Record::EndOfFile)
            },
        },
{
    let n = bytes.len();
    if n == 0 || bytes[0] as usize + 5 != n {
        return Err(LineFault::LengthMismatch);
    }
    let mut sum: u8 = 0;
    let mut i: usize = 0;
    while i < n
        invariant
            i <= n == bytes@.len(),
            sum == byte_sum(bytes@.subrange(0, i as int)) % 256,
        decreases n - i,
    {
        assert(bytes@.subrange(0, i + 1).drop_last() == bytes@.subrange(0, i as int));
        sum = sum.wrapping_add(bytes[i]);
        i += 1;
    }
    assert(bytes@.subrange(0, n as int) == bytes@);
    if sum != 0 {
        return Err(LineFault::ChecksumMismatch);
    }
    match bytes[3] {
        0 => {
            let address: u16 = (bytes[1] as u16) * 256 + bytes[2] as u16;
            let len = bytes[0] as usize;
            let mut payload: Vec<u8> = Vec::new();
            let mut j: usize = 0;
            while j < len
                invariant
                    j <= len,
                    len + 5 == n == bytes@.len(),
                    payload@ == bytes@.subrange(4, 4 + j),
                decreases len - j,
            {
                payload.push(bytes[4 + j]);
                j += 1;
            }
            Ok(Record::Data { address, payload })
        },
        1 => Ok(Record::EndOfFile),
        _ => Err(LineFault::UnknownType),
    }
}

/// Stores `payload` at `address`, doubling the image until it is large enough.
pub fn store_data(image: &mut Vec<u8>, address: u16, payload: &Vec<u8>)
    requires
        old(image)@.len() > 0,
        payload@.len() <= 255,
    ensures
        final(image)@ == store_spec(old(image)@, address as nat, payload@),
{
    let need: usize = address as usize + payload.len();
    let ghost original = image@;
    while image.len() < need
        invariant
            0 < image@.len(),
            need == address + payload@.len(),
            need <= 65535 + 255,
            grown_size(image@.len(), need as nat) == grown_size(original.len(), need as nat),
            forall|k: int| 0 <= k < image@.len() ==> #[trigger] image@[k] == if k < original.len() { original[k] } else { 0u8 },
            original.len() <= image@.len(),
        decreases (if image@.len() < need { need - image@.len() } else { 0 }),
    {
        let len = image.len();
        let mut k: usize = 0;
        while k < len
            invariant
                0 < len,
                len < need <= 65535 + 255,
                len <= image@.len() == len + k,
                k <= len,
                original.len() <= len,
                forall|m: int| 0 <= m < image@.len() ==> #[trigger] image@[m] == if m < original.len() { original[m] } else { 0u8 },
            decreases len - k,
        {
            image.push(0);
            k += 1;
        }
        assert(grown_size(len as nat, need as nat) == grown_size(image@.len(), need as nat));
    }
    assert(grown_size(image@.len(), need as nat) == image@.len());
    let mut j: usize = 0;
    while j < payload.len()
        invariant
            need == address + payload@.len(),
            need <= image@.len(),
            j <= payload@.len(),
            image@.len() == grown_size(original.len(), need as nat),
            forall|k: int| 0 <= k < image@.len() ==> #[trigger] image@[k] == if address <= k < address + j {
                payload@[k - address]
            } else if k < original.len() {
                original[k]
            } else {
                0u8
            },
        decreases payload@.len() - j,
    {
        image.set(address as usize + j, payload[j]);
        j += 1;
    }
    assert(image@ =~= store_spec(original, address as nat, payload@));
}

/// Once a prefix of the lines is rejected, so is every longer prefix, for the same reason.
pub proof fn lemma_error_sticks(lines: Seq<Seq<char>>, n: nat, m: nat)
    requires
        n <= m,
        run_lines(lines, n) is Err,
    ensures
        run_lines(lines, m) == run_lines(lines, n),
    decreases m - n,
{
    if n < m {
        lemma_error_sticks(lines, n, (m - 1) as nat);
    }
}

/// Parses the lines of a firmware file, each without its line break, into
/// the firmware image.
pub fn parse_hex_lines(lines: &Vec<String>) -> (r: Result<Vec<u8>, ParseError>)
    ensures
        r is Ok <==> parse_lines(line_views(lines@)) is Ok,
        r matches Ok(img) ==> parse_lines(line_views(lines@)) == Ok::<Seq<u8>, ParseError>(img@),
        r matches Err(e) ==> parse_lines(line_views(lines@)) == Err::<Seq<u8>, ParseError>(e),
{
    let ghost views = line_views(lines@);
    let mut image: Vec<u8> = Vec::new();
    let mut k: usize = 0;
    while k < INITIAL_IMAGE_SIZE
        invariant
            k <= INITIAL_IMAGE_SIZE,
            image@ == Seq::new(k as nat, |i: int| 0u8),
        decreases INITIAL_IMAGE_SIZE - k,
    {
        image.push(0);
        k += 1;
        assert(image@ =~= Seq::new(k as nat, |i: int| 0u8));
    }
    let mut ended = false;
    let mut i: usize = 0;
    while i < lines.len()
        invariant
            i <= lines@.len(),
            views == line_views(lines@),
            run_lines(views, i as nat) == Ok::<(Seq<u8>, bool), ParseError>((image@, ended)),
            image@.len() > 0,
        decreases lines@.len() - i,
    {
        let no: usize = i + 1;
        let line: &str = lines[i].as_str();
        assert(line@ == views[i as int]);
        let len = line.unicode_len();
        let fault: LineFault;
        if len == 0 {
            fault = LineFault::Empty;
        } else if ended {
            fault = LineFault::AfterEnd;
        } else {
            let text = line.substring_char(1, len);
            assert(text@ =~= views[i as int].drop_first());
            match from_hex(text) {
                Err(_) => {
                    fault = LineFault::Decode;
                },
                Ok(bytes) => {
                    match parse_record(&bytes) {
                        Err(f) => {
                            fault = f;
                        },
                        Ok(Record::Data { address, payload }) => {
                            proof {
                                lemma_grown_size_bounds(image@.len(), (address + payload@.len()) as nat);
                            }
                            store_data(&mut image, address, &payload);
                            i += 1;
                            continue;
                        },
                        Ok(Record::EndOfFile) => {
                            ended = true;
                            i += 1;
                            continue;
                        },
                    }
                },
            }
        }
        let e = ParseError::Line { line: no, fault };
        proof {
            lemma_error_sticks(views, no as nat, views.len());
        }
        return Err(e);
    }
    if ended {
        Ok(image)
    } else {
        Err(ParseError::MissingEnd)
    }
}

/// The record that a line's text after its marker decodes to.
pub open spec fn line_record(line: Seq<char>) -> Seq<u8> {
    hex_decode(line.drop_first())
}

/// A line that decodes to a sound record of the given type.
pub open spec fn is_valid_line(line: Seq<char>, kind: u8) -> bool {
    &&& line.len() > 0
    &&& hex_decodable(line.drop_first())
    &&& record_fault(line_record(line)) is None
    &&& line_record(line)[3] == kind
}

/// The address just past a record's payload.
pub open spec fn record_end(b: Seq<u8>) -> nat {
    (record_address(b) + b[0]) as nat
}

/// The largest record end among the first `n` lines.
pub open spec fn max_end(lines: Seq<Seq<char>>, n: nat) -> nat
    decreases n,
{
    if n == 0 {
        0
    } else {
        let prev = max_end(lines, (n - 1) as nat);
        let e = record_end(line_record(lines[n - 1]));
        if prev >= e { prev } else { e }
    }
}

/// A record as a generator would write it: the checksum byte makes the
/// bytes of the whole record sum to a multiple of 256.
pub open spec fn encode_record(address: u16, kind: u8, payload: Seq<u8>) -> Seq<u8> {
    let body = seq![payload.len() as u8, (address / 256) as u8, (address % 256) as u8, kind] + payload;
    body.push(((256 - byte_sum(body) % 256) % 256) as u8)
}

/// Growing twice, for `a` and then for `b` bytes, is growing once for the larger.
pub proof fn lemma_grown_twice(size: nat, a: nat, b: nat)
    requires
        size > 0,
    ensures
        grown_size(grown_size(size, a), b) == grown_size(size, if a >= b { a } else { b }),
    decreases (if size < a { a - size } else { 0 }),
{
    if size < a {
        lemma_grown_twice(2 * size, a, b);
    }
}

/// Lines that all hold sound data records are accepted one by one, and the
/// image has grown from its initial size to hold the furthest record end.
pub proof fn lemma_data_prefix(lines: Seq<Seq<char>>, n: nat)
    requires
        n <= lines.len(),
        forall|i: int| 0 <= i < n ==> is_valid_line(#[trigger] lines[i], 0),
    ensures
        run_lines(lines, n) matches Ok((img, ended)) && !ended
            && img.len() == grown_size(INITIAL_IMAGE_SIZE as nat, max_end(lines, n)),
    decreases n,
{
    if n > 0 {
        lemma_data_prefix(lines, (n - 1) as nat);
        let b = line_record(lines[n - 1]);
        assert(is_valid_line(lines[n - 1], 0));
        assert(record_payload(b).len() == b[0]);
        lemma_grown_twice(INITIAL_IMAGE_SIZE as nat, max_end(lines, (n - 1) as nat), record_end(b));
    }
}

/// A file of sound data records closed by one end-of-file record parses,
/// and the image is exactly as large as doubling from the initial size must
/// make it to hold the furthest `address + length` among the records.
pub proof fn lemma_well_formed_image_size(lines: Seq<Seq<char>>)
    requires
        lines.len() >= 1,
        forall|i: int| 0 <= i < lines.len() - 1 ==> is_valid_line(#[trigger] lines[i], 0),
        is_valid_line(lines.last(), 1),
    ensures
        parse_lines(lines) matches Ok(img)
            && img.len() == grown_size(INITIAL_IMAGE_SIZE as nat, max_end(lines, (lines.len() - 1) as nat)),
{
    lemma_data_prefix(lines, (lines.len() - 1) as nat);
}

/// Replacing one byte changes the sum by the difference.
pub proof fn lemma_byte_sum_update(b: Seq<u8>, i: int, v: u8)
    requires
        0 <= i < b.len(),
    ensures
        byte_sum(b.update(i, v)) == byte_sum(b) - b[i] + v,
    decreases b.len(),
{
    let u = b.update(i, v);
    if i == b.len() - 1 {
        assert(u.drop_last() =~= b.drop_last());
    } else {
        assert(u.drop_last() =~= b.drop_last().update(i, v));
        lemma_byte_sum_update(b.drop_last(), i, v);
    }
}

/// A generated record sums to a multiple of 256 and reads back as written.
pub proof fn lemma_encoded_record(address: u16, kind: u8, payload: Seq<u8>)
    requires
        payload.len() <= 255,
        kind <= 1,
    ensures
        byte_sum(encode_record(address, kind, payload)) % 256 == 0,
        record_fault(encode_record(address, kind, payload)) is None,
        encode_record(address, kind, payload)[3] == kind,
        record_address(encode_record(address, kind, payload)) == address,
        record_payload(encode_record(address, kind, payload)) == payload,
{
    let body = seq![payload.len() as u8, (address / 256) as u8, (address % 256) as u8, kind] + payload;
    let e = encode_record(address, kind, payload);
    assert(e.drop_last() =~= body);
    assert(record_payload(e) =~= payload);
}

/// Changing any one byte of a sound record makes it fail: at the length
/// check if it is the length byte, at the checksum otherwise.
pub proof fn lemma_flipped_record_rejected(b: Seq<u8>, i: int, v: u8)
    requires
        record_fault(b) is None,
        0 <= i < b.len(),
        v != b[i],
    ensures
        record_fault(b.update(i, v)) == Some(if i == 0 { LineFault::LengthMismatch } else { LineFault::ChecksumMismatch }),
{
    lemma_byte_sum_update(b, i, v);
}

/// After sound data lines, a line whose record is a sound record with one
/// byte changed rejects the file, naming that line.
pub proof fn lemma_flipped_line_rejected(lines: Seq<Seq<char>>, k: nat, b: Seq<u8>, i: int, v: u8)
    requires
        k < lines.len(),
        forall|j: int| 0 <= j < k ==> is_valid_line(#[trigger] lines[j], 0),
        lines[k as int].len() > 0,
        hex_decodable(lines[k as int].drop_first()),
        record_fault(b) is None,
        0 <= i < b.len(),
        v != b[i],
        line_record(lines[k as int]) == b.update(i, v),
    ensures
        parse_lines(lines) == Err::<Seq<u8>, ParseError>(
            line_error(k + 1, if i == 0 { LineFault::LengthMismatch } else { LineFault::ChecksumMismatch }),
        ),
{
    lemma_data_prefix(lines, k);
    lemma_flipped_record_rejected(b, i, v);
    lemma_error_sticks(lines, k + 1, lines.len());
}

/// An empty line anywhere rejects the file.
pub proof fn lemma_empty_line_rejected(lines: Seq<Seq<char>>, k: nat)
    requires
        k < lines.len(),
        lines[k as int].len() == 0,
    ensures
        parse_lines(lines) is Err,
{
    if run_lines(lines, k) is Err {
        lemma_error_sticks(lines, k, lines.len());
    } else {
        lemma_error_sticks(lines, k + 1, lines.len());
    }
}

/// Any line after an end-of-file record rejects the file.
pub proof fn lemma_line_after_end_rejected(lines: Seq<Seq<char>>, k: nat)
    requires
        k + 1 < lines.len(),
        is_valid_line(lines[k as int], 1),
    ensures
        parse_lines(lines) is Err,
{
    if run_lines(lines, k) is Err {
        lemma_error_sticks(lines, k, lines.len());
    } else if run_lines(lines, k + 1) is Err {
        lemma_error_sticks(lines, k + 1, lines.len());
    } else {
        lemma_error_sticks(lines, k + 2, lines.len());
    }
}

/// Without a line that ends the file, no prefix has reached an end.
pub proof fn lemma_no_end_seen(lines: Seq<Seq<char>>, n: nat)
    requires
        n <= lines.len(),
        forall|i: int| 0 <= i < lines.len() ==> !is_valid_line(#[trigger] lines[i], 1),
    ensures
        run_lines(lines, n) is Err || (run_lines(lines, n) matches Ok((_, ended)) && !ended),
    decreases n,
{
    if n > 0 {
        lemma_no_end_seen(lines, (n - 1) as nat);
        assert(!is_valid_line(lines[n - 1], 1));
    }
}

/// A file with no end-of-file record is rejected.
pub proof fn lemma_missing_end_rejected(lines: Seq<Seq<char>>)
    requires
        forall|i: int| 0 <= i < lines.len() ==> !is_valid_line(#[trigger] lines[i], 1),
    ensures
        parse_lines(lines) is Err,
{
    lemma_no_end_seen(lines, lines.len());
}

} // verus!
