//! The byte layout of a DTED Level-2 tile, as mathematics.
//!
//! Every function here is a specification over `Seq<u8>`: it says what a
//! buffer holds, which buffers are tiles, and what is reported of one that is
//! not. The parsers are proved against these definitions.

use vstd::prelude::*;

verus! {

/// Length of the User Header Label.
pub const UHL_LEN: usize = 80;

/// Length of the Data Set Identification and Accuracy records that follow the
/// User Header Label. Their content is not read.
pub const DSI_ACC_LEN: usize = 3348;

/// Offset of the first data record: the two lengths above.
pub const DATA_OFFSET: usize = 3428;

/// Length of an angle field, `DDDMMSSH`.
pub const ANGLE_LEN: usize = 8;

/// Length of the part of a data record that precedes its heights.
pub const RECORD_HEADER_LEN: usize = 8;

/// Length of the checksum that ends a data record.
pub const RECORD_CHECKSUM_LEN: usize = 4;

/// The largest point count that a four-digit field can hold.
pub const MAX_POINTS: usize = 9999;

/// The kind of a parse failure.
#[derive(Debug, PartialEq, Eq, Clone, Copy, Structural)]
pub enum ErrorKind {
    /// The buffer does not start with the tag `UHL1`.
    Tag,
    /// A numeric field holds a byte that is not an ASCII digit.
    Digit,
    /// The hemisphere byte of an angle is none of `N`, `E`, `S`, `W`.
    OneOf,
    /// The buffer ends before the field or block that is read.
    Eof,
    /// A value was read but is not acceptable: an origin outside the open
    /// ranges, a point count of zero, or a record whose checksum differs.
    Verify,
}

/// The words that describe a failure of kind `code`.
pub open spec fn description(code: ErrorKind) -> Seq<char> {
    match code {
        ErrorKind::Tag => "missing UHL1 tag"@,
        ErrorKind::Digit => "malformed decimal field"@,
        ErrorKind::OneOf => "invalid hemisphere code"@,
        ErrorKind::Eof => "unexpected end of input"@,
        ErrorKind::Verify => "value out of range or checksum mismatch"@,
    }
}

/// What a failed parse reports: its kind, and the bytes at which it arose.
pub struct Failure {
    pub code: ErrorKind,
    pub input: Seq<u8>,
}

/// Whether `b` is an ASCII decimal digit.
pub open spec fn is_digit(b: u8) -> bool {
    0x30 <= b <= 0x39
}

/// Whether every byte of `s` is an ASCII decimal digit.
pub open spec fn all_digits(s: Seq<u8>) -> bool {
    forall|i: int| 0 <= i < s.len() ==> is_digit(#[trigger] s[i])
}

/// The number that the digits of `s` write in base ten, most significant
/// digit first.
pub open spec fn decimal_value(s: Seq<u8>) -> nat
    decreases s.len(),
{
    if s.len() == 0 {
        0
    } else {
        10 * decimal_value(s.drop_last()) + (s.last() - 0x30) as nat
    }
}

/// The sign that a hemisphere code stands for: `N` and `E` are positive, `S`
/// and `W` negative; any other byte is no hemisphere code.
pub open spec fn hemisphere_sign(b: u8) -> Option<int> {
    if b == 0x4E || b == 0x45 {
        Some(1int)
    } else if b == 0x53 || b == 0x57 {
        Some(-1int)
    } else {
        None
    }
}

/// Whether `s` starts with an angle field: three degree digits, four more
/// bytes and a hemisphere code.
pub open spec fn is_angle(s: Seq<u8>) -> bool {
    &&& s.len() >= ANGLE_LEN
    &&& all_digits(s.subrange(0, 3))
    &&& hemisphere_sign(s[7]) is Some
}

/// Why `s` does not start with an angle field, if it does not. The three
/// degree digits are looked at first, then the presence of the four minute
/// and second bytes, then the hemisphere code.
pub open spec fn angle_failure(s: Seq<u8>) -> Option<Failure> {
    if s.len() < 3 {
        Some(Failure { code: ErrorKind::Eof, input: s })
    } else if !all_digits(s.subrange(0, 3)) {
        Some(Failure { code: ErrorKind::Digit, input: s.subrange(0, 3) })
    } else if s.len() < 7 {
        Some(Failure { code: ErrorKind::Eof, input: s.skip(3) })
    } else if s.len() < 8 || hemisphere_sign(s[7]) is None {
        Some(Failure { code: ErrorKind::OneOf, input: s.skip(7) })
    } else {
        None
    }
}

/// The signed degrees of the angle field that `s` starts with. The minute and
/// second bytes take no part in it.
pub open spec fn angle_degrees(s: Seq<u8>) -> int {
    hemisphere_sign(s[7]).unwrap() * decimal_value(s.subrange(0, 3))
}

/// The tag that opens a User Header Label: the ASCII bytes of `UHL1`.
pub open spec fn uhl_tag() -> Seq<u8> {
    seq![0x55u8, 0x48u8, 0x4Cu8, 0x31u8]
}

/// Longitude of the south-west corner, in degrees, as the header states it.
pub open spec fn header_origin_lon(s: Seq<u8>) -> int {
    angle_degrees(s.skip(4))
}

/// Latitude of the south-west corner, in degrees, as the header states it.
pub open spec fn header_origin_lat(s: Seq<u8>) -> int {
    angle_degrees(s.skip(12))
}

/// Number of longitude points (columns) that the header states.
pub open spec fn header_num_lon(s: Seq<u8>) -> nat {
    decimal_value(s.subrange(47, 51))
}

/// Number of latitude points (rows) that the header states.
pub open spec fn header_num_lat(s: Seq<u8>) -> nat {
    decimal_value(s.subrange(51, 55))
}

/// Whether `s` starts with a User Header Label.
///
/// The label is 80 bytes: the tag, the origin's longitude and latitude as
/// angle fields, 27 bytes that are not read, the longitude and latitude point
/// counts as four digits each, and 25 bytes that are not read. The origin
/// must lie strictly inside (-180, 180) and (-90, 90), and both counts must
/// be positive.
pub open spec fn is_header(s: Seq<u8>) -> bool {
    &&& s.len() >= UHL_LEN
    &&& s.subrange(0, 4) == uhl_tag()
    &&& is_angle(s.skip(4))
    &&& -180 < header_origin_lon(s) < 180
    &&& is_angle(s.skip(12))
    &&& -90 < header_origin_lat(s) < 90
    &&& all_digits(s.subrange(47, 51))
    &&& header_num_lon(s) > 0
    &&& all_digits(s.subrange(51, 55))
    &&& header_num_lat(s) > 0
}

/// Why `s` does not start with a User Header Label, if it does not: too few
/// bytes for a label, else the first field, in the label's order, that is
/// not as [`is_header`] asks.
pub open spec fn header_failure(s: Seq<u8>) -> Option<Failure> {
    if s.len() < UHL_LEN {
        Some(Failure { code: ErrorKind::Eof, input: s })
    } else if s.subrange(0, 4) != uhl_tag() {
        Some(Failure { code: ErrorKind::Tag, input: s })
    } else if angle_failure(s.skip(4)) is Some {
        angle_failure(s.skip(4))
    } else if !(-180 < header_origin_lon(s) < 180) {
        Some(Failure { code: ErrorKind::Verify, input: s.skip(4) })
    } else if angle_failure(s.skip(12)) is Some {
        angle_failure(s.skip(12))
    } else if !(-90 < header_origin_lat(s) < 90) {
        Some(Failure { code: ErrorKind::Verify, input: s.skip(12) })
    } else if !all_digits(s.subrange(47, 51)) {
        Some(Failure { code: ErrorKind::Digit, input: s.subrange(47, 51) })
    } else if header_num_lon(s) == 0 {
        Some(Failure { code: ErrorKind::Verify, input: s.skip(47) })
    } else if !all_digits(s.subrange(51, 55)) {
        Some(Failure { code: ErrorKind::Digit, input: s.subrange(51, 55) })
    } else if header_num_lat(s) == 0 {
        Some(Failure { code: ErrorKind::Verify, input: s.skip(51) })
    } else {
        None
    }
}

/// The sum of the bytes of `s`.
pub open spec fn byte_sum(s: Seq<u8>) -> nat
    decreases s.len(),
{
    if s.len() == 0 {
        0
    } else {
        byte_sum(s.drop_last()) + s.last() as nat
    }
}

/// The checksum of `s`: the sum of its bytes in a 32-bit accumulator, which
/// keeps the sum modulo 2^32.
pub open spec fn checksum(s: Seq<u8>) -> nat {
    byte_sum(s) % 0x1_0000_0000
}

/// The number that the first four bytes of `s` write, most significant byte
/// first.
pub open spec fn be_u32_value(s: Seq<u8>) -> nat {
    (s[0] as nat) * 0x100_0000 + (s[1] as nat) * 0x1_0000 + (s[2] as nat) * 0x100 + (s[3] as nat)
}

/// The height that two bytes write in sign-magnitude, most significant byte
/// first: the top bit is the sign, the other fifteen bits the magnitude.
/// A set sign bit over a zero magnitude is zero.
pub open spec fn height(hi: u8, lo: u8) -> int {
    let magnitude = (hi % 128) * 256 + lo;
    if hi >= 128 {
        -magnitude
    } else {
        magnitude
    }
}

/// Length of a data record of `n_lat` heights: header, heights, checksum.
pub open spec fn record_len(n_lat: nat) -> nat {
    8 + 2 * n_lat + 4
}

/// Length of the part of a data record that its checksum covers: the header
/// and the heights.
pub open spec fn record_body_len(n_lat: nat) -> nat {
    8 + 2 * n_lat
}

/// Whether the checksum stored at the end of `record` is the checksum of the
/// bytes before it.
pub open spec fn record_intact(record: Seq<u8>, n_lat: nat) -> bool {
    checksum(record.subrange(0, record_body_len(n_lat) as int)) == be_u32_value(
        record.subrange(record_body_len(n_lat) as int, record_len(n_lat) as int),
    )
}

/// The heights that `record` holds, south to north.
pub open spec fn record_heights(record: Seq<u8>, n_lat: nat) -> Seq<i16> {
    Seq::new(n_lat, |r: int| height(record[8 + 2 * r], record[9 + 2 * r]) as i16)
}

/// The `c`-th record of a data block.
pub open spec fn record_at(block: Seq<u8>, n_lat: nat, c: int) -> Seq<u8> {
    block.subrange(c * record_len(n_lat), (c + 1) * record_len(n_lat))
}

/// The index of the first record among the first `n` of `block` whose
/// checksum differs, if there is one.
pub open spec fn first_damaged_record(block: Seq<u8>, n_lat: nat, n: nat) -> Option<int>
    decreases n,
{
    if n == 0 {
        None
    } else {
        match first_damaged_record(block, n_lat, (n - 1) as nat) {
            Some(c) => Some(c),
            None => if record_intact(record_at(block, n_lat, n - 1), n_lat) {
                None
            } else {
                Some(n - 1)
            },
        }
    }
}

/// Why `block` does not start with `n_lon` intact records of `n_lat` heights
/// each, if it does not. The length is looked at before any record.
pub open spec fn block_failure(block: Seq<u8>, n_lat: nat, n_lon: nat) -> Option<Failure> {
    if block.len() < n_lon * record_len(n_lat) {
        Some(Failure { code: ErrorKind::Eof, input: block })
    } else {
        match first_damaged_record(block, n_lat, n_lon) {
            Some(c) => Some(Failure { code: ErrorKind::Verify, input: record_at(block, n_lat, c) }),
            None => None,
        }
    }
}

/// The height at row `r` (latitude) and column `c` (longitude) of a data
/// block: the `r`-th height of the `c`-th record.
pub open spec fn block_cell(block: Seq<u8>, n_lat: nat, r: int, c: int) -> i16 {
    let at = c * record_len(n_lat) + 8 + 2 * r;
    height(block[at], block[at + 1]) as i16
}

/// The grid that a data block holds, row by row.
pub open spec fn block_rows(block: Seq<u8>, n_lat: nat, n_lon: nat) -> Seq<Seq<i16>> {
    Seq::new(n_lat, |r: int| Seq::new(n_lon, |c: int| block_cell(block, n_lat, r, c)))
}

/// Whether `s` starts with a tile: a User Header Label, then 3348 bytes that
/// are not read, then as many records as the label counts longitude points,
/// each with a checksum that matches.
pub open spec fn is_tile(s: Seq<u8>) -> bool {
    &&& is_header(s)
    &&& s.len() >= tile_len(s)
    &&& forall|c: int|
        0 <= c < header_num_lon(s) ==> record_intact(
            #[trigger] record_at(s.skip(DATA_OFFSET as int), header_num_lat(s), c),
            header_num_lat(s),
        )
}

/// Why `s` does not start with a tile, if it does not: the header's failure,
/// else a buffer that ends inside the records that are skipped, else the data
/// block's failure.
pub open spec fn tile_failure(s: Seq<u8>) -> Option<Failure> {
    if header_failure(s) is Some {
        header_failure(s)
    } else if s.len() < DATA_OFFSET {
        Some(Failure { code: ErrorKind::Eof, input: s.skip(UHL_LEN as int) })
    } else {
        block_failure(s.skip(DATA_OFFSET as int), header_num_lat(s), header_num_lon(s))
    }
}

/// Length of the tile that `s` starts with, by the counts in its header.
pub open spec fn tile_len(s: Seq<u8>) -> nat {
    DATA_OFFSET as nat + header_num_lon(s) * record_len(header_num_lat(s))
}

/// The elevation grid of the tile that `s` starts with, row by row.
pub open spec fn tile_rows(s: Seq<u8>) -> Seq<Seq<i16>> {
    block_rows(s.skip(DATA_OFFSET as int), header_num_lat(s), header_num_lon(s))
}

} // verus!
