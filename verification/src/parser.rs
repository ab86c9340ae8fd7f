//! The decoder: one function per part of the layout, each consuming a known
//! prefix of its input and returning the rest.

use crate::coordinate_2d::DegreeCoordinate;
use crate::format::{
    all_digits, angle_degrees, angle_failure, be_u32_value, block_cell, block_failure, block_rows,
    checksum, decimal_value, description, first_damaged_record, header_failure, height, hemisphere_sign,
    is_digit, record_at, record_heights, record_intact, record_len, tile_failure, tile_len,
    tile_rows, uhl_tag, ErrorKind, Failure, DATA_OFFSET, DSI_ACC_LEN, RECORD_CHECKSUM_LEN,
    RECORD_HEADER_LEN, UHL_LEN,
};
use crate::grid::{grid_from_columns, grid_rows, ElevationGrid};
use crate::theorems::{lemma_first_damaged_record_stays, lemma_slot_bounds};
use crate::tile::{DtedHeader, DtedTile};
use vstd::pervasive::unreached;
use vstd::prelude::*;

verus! {

/// A failed parse: the kind of the failure and the input at which it arose.
#[derive(Debug, PartialEq, Eq, Clone, Copy)]
pub struct ParseFailure<'a> {
    pub input: &'a [u8],
    pub code: ErrorKind,
}

impl<'a> View for ParseFailure<'a> {
    type V = Failure;

    open spec fn view(&self) -> Failure {
        Failure { code: self.code, input: self.input@ }
    }
}

impl<'a> ParseFailure<'a> {
    /// A failure of kind `code` at `input`.
    pub fn new(input: &'a [u8], code: ErrorKind) -> (r: Self)
        ensures
            r.input == input,
            r.code == code,
    {
        ParseFailure { input, code }
    }

    /// The words that describe the kind of this failure.
    pub fn describe(&self) -> (text: String)
        ensures
            text@ == description(self.code),
    {
        match self.code {
            ErrorKind::Tag => "missing UHL1 tag".to_owned(),
            ErrorKind::Digit => "malformed decimal field".to_owned(),
            ErrorKind::OneOf => "invalid hemisphere code".to_owned(),
            ErrorKind::Eof => "unexpected end of input".to_owned(),
            ErrorKind::Verify => "value out of range or checksum mismatch".to_owned(),
        }
    }
}

/// `std::io::Error`, carried through unread: nothing is claimed of it.
#[verifier::external_type_specification]
#[verifier::external_body]
pub struct ExIoError(std::io::Error);

/// Why no tile was obtained.
#[derive(Debug)]
pub enum ParseError {
    /// The buffer could not be read. The decoder never returns this: it is
    /// for the code that fetches the buffer.
    Io(std::io::Error),
    /// The buffer is not a tile; the text describes the failure.
    Invalid(String),
}

/// Splits off the first `n` bytes of `input`.
fn take<'a>(input: &'a [u8], n: usize) -> (r: Result<(&'a [u8], &'a [u8]), ParseFailure<'a>>)
    ensures
        match r {
            Ok((rest, taken)) => n <= input@.len() && taken@ == input@.subrange(0, n as int)
                && rest@ == input@.skip(n as int),
            Err(e) => input@.len() < n && e@ == (Failure { code: ErrorKind::Eof, input: input@ }),
        },
{
    if input.len() < n {
        return Err(ParseFailure::new(input, ErrorKind::Eof));
    }
    Ok((&input[n..input.len()], &input[0..n]))
}

/// Reads a field of `width` ASCII digits as a decimal number.
fn decimal_field<'a>(input: &'a [u8], width: usize) -> (r: Result<
    (&'a [u8], u16),
    ParseFailure<'a>,
>)
    requires
        width <= 4,
    ensures
        match r {
            Ok((rest, value)) => width <= input@.len() && all_digits(
                input@.subrange(0, width as int),
            ) && value == decimal_value(input@.subrange(0, width as int)) && value <= 9999
                && rest@ == input@.skip(width as int),
            Err(e) => if input@.len() < width {
                e@ == (Failure { code: ErrorKind::Eof, input: input@ })
            } else {
                !all_digits(input@.subrange(0, width as int)) && e@ == (Failure {
                    code: ErrorKind::Digit,
                    input: input@.subrange(0, width as int),
                })
            },
        },
{
    let (rest, field) = take(input, width)?;
    let mut value: u16 = 0;
    let mut i: usize = 0;
    while i < width
        invariant
            i <= width <= 4,
            width <= input@.len(),
            field@ == input@.subrange(0, width as int),
            all_digits(field@.subrange(0, i as int)),
            value == decimal_value(field@.subrange(0, i as int)),
            i == 0 ==> value == 0,
            i == 1 ==> value <= 9,
            i == 2 ==> value <= 99,
            i == 3 ==> value <= 999,
            i == 4 ==> value <= 9999,
        decreases width - i,
    {
        let b: u8 = field[i];
        if b < 0x30 || b > 0x39 {
            assert(!is_digit(field@[i as int]));
            return Err(ParseFailure::new(field, ErrorKind::Digit));
        }
        proof {
            let next = field@.subrange(0, i + 1);
            assert(next.drop_last() =~= field@.subrange(0, i as int));
        }
        value = value * 10 + (b - 0x30) as u16;
        i += 1;
    }
    assert(field@.subrange(0, width as int) =~= field@);
    Ok((rest, value))
}

/// Reads a hemisphere code and returns its sign.
fn hemisphere<'a>(input: &'a [u8]) -> (r: Result<(&'a [u8], i32), ParseFailure<'a>>)
    ensures
        match r {
            Ok((rest, sign)) => 0 < input@.len() && hemisphere_sign(input@[0]) == Some(
                sign as int,
            ) && rest@ == input@.skip(1),
            Err(e) => (input@.len() == 0 || hemisphere_sign(input@[0]) is None) && e@ == (Failure {
                code: ErrorKind::OneOf,
                input: input@,
            }),
        },
{
    if input.len() == 0 {
        return Err(ParseFailure::new(input, ErrorKind::OneOf));
    }
    let code: u8 = input[0];
    let sign: i32 = if code == 0x4E || code == 0x45 {
        1
    } else if code == 0x53 || code == 0x57 {
        -1
    } else {
        return Err(ParseFailure::new(input, ErrorKind::OneOf));
    };
    Ok((&input[1..input.len()], sign))
}

/// Parses an angle field, `DDDMMSSH`: three degree digits, four minute and
/// second bytes that are not read, and a hemisphere code. Returns the signed
/// degrees and the input after the field.
pub fn parse_angle<'a>(input: &'a [u8]) -> (r: Result<(&'a [u8], i32), ParseFailure<'a>>)
    ensures
        match r {
            Ok((rest, degrees)) => angle_failure(input@) is None && degrees == angle_degrees(
                input@,
            ) && rest@ == input@.skip(8),
            Err(e) => angle_failure(input@) == Some(e@),
        },
{
    let (after_degrees, degrees) = decimal_field(input, 3)?;
    let (after_minutes, _) = take(after_degrees, 4)?;
    assert(after_minutes@ =~= input@.skip(7));
    let (rest, sign) = hemisphere(after_minutes)?;
    assert(rest@ =~= input@.skip(8));
    proof {
        // The sign is 1 or -1, so the product is the magnitude or its negation.
        let magnitude = decimal_value(input@.subrange(0, 3)) as int;
        assert(1 * magnitude == magnitude && (-1) * magnitude == -magnitude);
    }
    if sign == 1 {
        Ok((rest, degrees as i32))
    } else {
        Ok((rest, -(degrees as i32)))
    }
}

/// Checks that `input` starts with the tag `UHL1` and returns what follows it.
fn tag<'a>(input: &'a [u8]) -> (r: Result<&'a [u8], ParseFailure<'a>>)
    ensures
        match r {
            Ok(rest) => 4 <= input@.len() && input@.subrange(0, 4) == uhl_tag() && rest@
                == input@.skip(4),
            Err(e) => (input@.len() < 4 || input@.subrange(0, 4) != uhl_tag()) && e@ == (Failure {
                code: ErrorKind::Tag,
                input: input@,
            }),
        },
{
    if input.len() < 4 || input[0] != 0x55 || input[1] != 0x48 || input[2] != 0x4C || input[3]
        != 0x31 {
        proof {
            if input@.len() >= 4 {
                let head = input@.subrange(0, 4);
                assert(head[0] == input@[0] && head[1] == input@[1] && head[2] == input@[2]
                    && head[3] == input@[3]);
            }
        }
        return Err(ParseFailure::new(input, ErrorKind::Tag));
    }
    assert(input@.subrange(0, 4) =~= uhl_tag());
    Ok(&input[4..input.len()])
}

/// Parses the User Header Label: the tag, the origin's longitude and
/// latitude, and the two point counts. Returns the header and the input after
/// the label's 80 bytes.
///
/// An input of fewer than 80 bytes fails with `Eof` whatever it holds. The
/// origin must lie strictly inside (-180, 180) and (-90, 90) and each count
/// must be positive; a value outside fails with `Verify` at its field.
pub fn parse_user_header_label<'a>(input: &'a [u8]) -> (r: Result<
    (&'a [u8], DtedHeader),
    ParseFailure<'a>,
>)
    ensures
        match r {
            Ok((rest, header)) => header_failure(input@) is None && header.describes(input@)
                && rest@ == input@.skip(UHL_LEN as int),
            Err(e) => header_failure(input@) == Some(e@),
        },
{
    if input.len() < UHL_LEN {
        return Err(ParseFailure::new(input, ErrorKind::Eof));
    }
    let at_lon = tag(input)?;
    let (at_lat, origin_lon) = parse_angle(at_lon)?;
    if origin_lon <= -180 || origin_lon >= 180 {
        return Err(ParseFailure::new(at_lon, ErrorKind::Verify));
    }
    assert(at_lat@ =~= input@.skip(12));
    let (after_lat, origin_lat) = parse_angle(at_lat)?;
    if origin_lat <= -90 || origin_lat >= 90 {
        return Err(ParseFailure::new(at_lat, ErrorKind::Verify));
    }
    // Longitude and latitude interval, accuracy, security code, unique reference.
    let (at_num_lon, _) = take(after_lat, 27)?;
    assert(at_num_lon@ =~= input@.skip(47));
    assert(at_num_lon@.subrange(0, 4) =~= input@.subrange(47, 51));
    let (at_num_lat, num_lon) = decimal_field(at_num_lon, 4)?;
    if num_lon == 0 {
        return Err(ParseFailure::new(at_num_lon, ErrorKind::Verify));
    }
    assert(at_num_lat@ =~= input@.skip(51));
    assert(at_num_lat@.subrange(0, 4) =~= input@.subrange(51, 55));
    let (after_counts, num_lat) = decimal_field(at_num_lat, 4)?;
    if num_lat == 0 {
        return Err(ParseFailure::new(at_num_lat, ErrorKind::Verify));
    }
    // Multiple accuracy flag and reserved bytes.
    let (rest, _) = take(after_counts, 25)?;
    assert(rest@ =~= input@.skip(UHL_LEN as int));
    let origin = match DegreeCoordinate::from_degrees(origin_lat, origin_lon) {
        Ok(origin) => origin,
        Err(_) => unreached(),
    };
    Ok((rest, DtedHeader::new(origin, num_lat as usize, num_lon as usize)))
}

/// Converts the two bytes of a height, sign-magnitude and most significant
/// byte first, to a signed integer.
pub fn parse_height(input: &[u8]) -> (h: i16)
    requires
        input@.len() >= 2,
    ensures
        h == height(input@[0], input@[1]),
        -32767 <= h <= 32767,
{
    let hi: u8 = input[0];
    let lo: u8 = input[1];
    let magnitude: i16 = ((hi % 128) as i16) * 256 + (lo as i16);
    if hi >= 128 {
        -magnitude
    } else {
        magnitude
    }
}

/// Reads the first four bytes of `input` as one number, most significant
/// byte first.
fn be_u32(input: &[u8]) -> (v: u32)
    requires
        input@.len() >= 4,
    ensures
        v == be_u32_value(input@),
{
    (input[0] as u32) * 0x100_0000 + (input[1] as u32) * 0x1_0000 + (input[2] as u32) * 0x100 + (
    input[3] as u32)
}

/// Adds up the bytes of `input` in a 32-bit accumulator that wraps.
fn sum_bytes(input: &[u8]) -> (sum: u32)
    ensures
        sum == checksum(input@),
{
    let mut sum: u32 = 0;
    let mut i: usize = 0;
    while i < input.len()
        invariant
            i <= input@.len(),
            sum == checksum(input@.subrange(0, i as int)),
        decreases input@.len() - i,
    {
        proof {
            let next = input@.subrange(0, i + 1);
            assert(next.drop_last() =~= input@.subrange(0, i as int));
        }
        sum = sum.wrapping_add(input[i] as u32);
        i += 1;
    }
    assert(input@.subrange(0, input@.len() as int) =~= input@);
    sum
}

/// Parses one data record of `n_lats` heights: checks the stored checksum
/// against the sum of the bytes before it, then appends the heights to `buf`,
/// south to north. Nothing is appended when the checksum differs.
pub fn parse_dted_record_into<'a>(input: &'a [u8], n_lats: usize, buf: &mut Vec<i16>) -> (r: Result<
    (),
    ParseFailure<'a>,
>)
    requires
        input@.len() >= record_len(n_lats as nat),
    ensures
        match r {
            Ok(()) => record_intact(input@, n_lats as nat) && final(buf)@ == old(buf)@
                + record_heights(input@, n_lats as nat),
            Err(e) => !record_intact(input@, n_lats as nat) && final(buf)@ == old(buf)@ && e@ == (
            Failure { code: ErrorKind::Verify, input: input@ }),
        },
{
    assert(record_len(n_lats as nat) <= input.len());
    let body_len: usize = RECORD_HEADER_LEN + 2 * n_lats;
    let expected: u32 = sum_bytes(&input[0..body_len]);
    let stored: u32 = be_u32(&input[body_len..body_len + RECORD_CHECKSUM_LEN]);
    if expected != stored {
        return Err(ParseFailure::new(input, ErrorKind::Verify));
    }
    let ghost before = buf@;
    let ghost heights = record_heights(input@, n_lats as nat);
    let mut r: usize = 0;
    while r < n_lats
        invariant
            r <= n_lats,
            record_len(n_lats as nat) <= input.len(),
            heights == record_heights(input@, n_lats as nat),
            buf@ == before + heights.subrange(0, r as int),
        decreases n_lats - r,
    {
        let at: usize = RECORD_HEADER_LEN + 2 * r;
        let h: i16 = parse_height(&input[at..at + 2]);
        buf.push(h);
        assert(buf@ =~= before + heights.subrange(0, r + 1));
        r += 1;
    }
    assert(heights.subrange(0, n_lats as int) =~= heights);
    Ok(())
}

/// Parses the data block: one record per longitude point, each holding one
/// height per latitude point. A block shorter than all its records fails
/// with `Eof` before any record is read; otherwise the first record whose
/// checksum differs fails the block with `Verify`. Returns the grid and the
/// input after the block.
pub(crate) fn parse_dted_data<'a>(header: &DtedHeader, input: &'a [u8]) -> (r: Result<
    (&'a [u8], ElevationGrid),
    ParseFailure<'a>,
>)
    ensures
        match r {
            Ok((rest, grid)) => block_failure(
                input@,
                header.num_lat() as nat,
                header.num_lon() as nat,
            ) is None && grid_rows(grid) == block_rows(
                input@,
                header.num_lat() as nat,
                header.num_lon() as nat,
            ) && rest@ == input@.skip(header.num_lon() * record_len(header.num_lat() as nat)),
            Err(e) => block_failure(input@, header.num_lat() as nat, header.num_lon() as nat)
                == Some(e@),
        },
{
    let n_lats: usize = header.num_lat();
    let n_lons: usize = header.num_lon();
    let record_size: usize = RECORD_HEADER_LEN + 2 * n_lats + RECORD_CHECKSUM_LEN;
    assert(n_lons * record_size <= 9999 * 20010 && n_lats * n_lons <= 9999 * 9999)
        by (nonlinear_arith)
        requires
            0 < n_lons <= 9999,
            0 < n_lats <= 9999,
            record_size == 12 + 2 * n_lats,
    ;
    let required: usize = n_lons * record_size;
    if input.len() < required {
        return Err(ParseFailure::new(input, ErrorKind::Eof));
    }
    let mut data: Vec<i16> = Vec::with_capacity(n_lats * n_lons);
    let mut c: usize = 0;
    while c < n_lons
        invariant
            n_lats == header.num_lat(),
            n_lons == header.num_lon(),
            c <= n_lons <= 9999,
            0 < n_lats <= 9999,
            record_size == record_len(n_lats as nat),
            required == n_lons * record_size,
            required <= input.len(),
            n_lats * n_lons <= 9999 * 9999,
            first_damaged_record(input@, n_lats as nat, c as nat) is None,
            data@.len() == c * n_lats,
            forall|k: int, r: int|
                0 <= k < c && 0 <= r < n_lats ==> data@[k * n_lats + r] == #[trigger] block_cell(
                    input@,
                    n_lats as nat,
                    r,
                    k,
                ),
        decreases n_lons - c,
    {
        proof {
            lemma_slot_bounds(c as int, n_lons as int, record_size as int, 0);
        }
        let start: usize = c * record_size;
        let record = &input[start..start + record_size];
        assert(record@ == record_at(input@, n_lats as nat, c as int));
        let ghost before = data@;
        match parse_dted_record_into(record, n_lats, &mut data) {
            Ok(()) => {},
            Err(e) => {
                proof {
                    lemma_first_damaged_record_stays(
                        input@,
                        n_lats as nat,
                        c as nat,
                        n_lons as nat,
                    );
                }
                return Err(e);
            },
        }
        proof {
            assert((c + 1) * n_lats == c * n_lats + n_lats) by (nonlinear_arith);
            assert forall|k: int, r: int| 0 <= k < c + 1 && 0 <= r < n_lats implies data@[k
                * n_lats + r] == #[trigger] block_cell(input@, n_lats as nat, r, k) by {
                if k < c {
                    lemma_slot_bounds(k, c as int, n_lats as int, r);
                    assert(data@[k * n_lats + r] == before[k * n_lats + r]);
                } else {
                    assert(data@[c * n_lats + r] == record_heights(record@, n_lats as nat)[r]);
                    assert(record@[8 + 2 * r] == input@[start + 8 + 2 * r]);
                    assert(record@[9 + 2 * r] == input@[start + 9 + 2 * r]);
                }
            }
        }
        c += 1;
    }
    let ghost cells = data@;
    assert(n_lats * n_lons == n_lons * n_lats) by (nonlinear_arith);
    let grid = match grid_from_columns(n_lats, n_lons, data) {
        Some(grid) => grid,
        None => unreached(),
    };
    proof {
        let rows = grid_rows(grid);
        let expected = block_rows(input@, n_lats as nat, n_lons as nat);
        assert forall|r: int| 0 <= r < n_lats implies #[trigger] rows[r] =~= expected[r] by {
            assert forall|k: int| 0 <= k < n_lons implies rows[r][k] == expected[r][k] by {
                assert(rows[r][k] == cells[k * n_lats + r]);
                assert(cells[k * n_lats + r] == block_cell(input@, n_lats as nat, r, k));
            }
        }
        assert(rows =~= expected);
    }
    Ok((&input[required..input.len()], grid))
}

/// Parses a whole tile: the User Header Label, 3348 bytes of identification
/// and accuracy records that are not read, and the data block sized by the
/// header's point counts. Returns the tile and the input after it.
pub fn parse_dted_tile<'a>(input: &'a [u8]) -> (r: Result<(&'a [u8], DtedTile), ParseFailure<'a>>)
    ensures
        match r {
            Ok((rest, tile)) => tile_failure(input@) is None && tile.header().describes(input@)
                && tile.elevations() == tile_rows(input@) && rest@ == input@.skip(
                tile_len(input@) as int,
            ),
            Err(e) => tile_failure(input@) == Some(e@),
        },
{
    let (after_label, header) = parse_user_header_label(input)?;
    let (at_data, _) = take(after_label, DSI_ACC_LEN)?;
    assert(at_data@ =~= input@.skip(DATA_OFFSET as int));
    let (rest, data) = parse_dted_data(&header, at_data)?;
    assert(rest@ =~= input@.skip(tile_len(input@) as int));
    Ok((rest, DtedTile::new(header, data)))
}

} // verus!
