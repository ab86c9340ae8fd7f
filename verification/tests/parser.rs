use spdted::format::ErrorKind;
use spdted::parser::{
    parse_angle, parse_dted_record_into, parse_dted_tile, parse_height, parse_user_header_label,
    ParseFailure,
};

fn angle_as_float(input: &[u8]) -> Result<(&[u8], f64), ParseFailure<'_>> {
    parse_angle(input).map(|(rest, degrees)| (rest, degrees as f64))
}

fn label(lon: &[u8; 8], lat: &[u8; 8], num_lon: &[u8; 4], num_lat: &[u8; 4]) -> Vec<u8> {
    let mut bytes: Vec<u8> = Vec::new();
    bytes.extend_from_slice(b"UHL1");
    bytes.extend_from_slice(lon);
    bytes.extend_from_slice(lat);
    bytes.extend_from_slice(&[b' '; 27]);
    bytes.extend_from_slice(num_lon);
    bytes.extend_from_slice(num_lat);
    bytes.extend_from_slice(&[b' '; 25]);
    bytes
}

fn sign_magnitude(height: i16) -> [u8; 2] {
    let bits: u16 = if height < 0 { 0x8000 | (-(height as i32)) as u16 } else { height as u16 };
    bits.to_be_bytes()
}

fn record_of(heights: &[i16]) -> Vec<u8> {
    let mut bytes: Vec<u8> = vec![0xAA, 0, 0, 1, 0, 2, 0, 3];
    for h in heights {
        bytes.extend_from_slice(&sign_magnitude(*h));
    }
    let sum: u32 = bytes.iter().fold(0u32, |acc, b| acc.wrapping_add(*b as u32));
    bytes.extend_from_slice(&sum.to_be_bytes());
    bytes
}

fn small_tile() -> Vec<u8> {
    let mut bytes: Vec<u8> = label(b"0080000E", b"0470000N", b"0002", b"0003");
    bytes.extend_from_slice(&[0x5A; 3348]);
    bytes.extend_from_slice(&record_of(&[10, -20, 30]));
    bytes.extend_from_slice(&record_of(&[-40, 50, -60]));
    bytes
}

#[test]
fn test_parse_angle() {
    let input = b"0000000N";
    let expected = Ok((&[][..], 0.0));
    let actual = angle_as_float(input);
    assert_eq!(actual, expected);

    let input = b"0000000S";
    let expected = Ok((&[][..], 0.0));
    let actual = angle_as_float(input);
    assert_eq!(actual, expected);

    let input = b"0010000N";
    let expected = Ok((&[][..], 1.0));
    let actual = angle_as_float(input);
    assert_eq!(actual, expected);

    let input = b"0010000S";
    let expected = Ok((&[][..], -1.0));
    let actual = angle_as_float(input);
    assert_eq!(actual, expected);

    let input = b"0900000N";
    let expected = Ok((&[][..], 90.0));
    let actual = angle_as_float(input);
    assert_eq!(actual, expected);

    let input = b"0900000S";
    let expected = Ok((&[][..], -90.0));
    let actual = angle_as_float(input);
    assert_eq!(actual, expected);

    let input = b"1800000N";
    let expected = Ok((&[][..], 180.0));
    let actual = angle_as_float(input);
    assert_eq!(actual, expected);

    let input = b"1800000S";
    let expected = Ok((&[][..], -180.0));
    let actual = angle_as_float(input);
    assert_eq!(actual, expected);

    let input = b"2700000N";
    let expected = Ok((&[][..], 270.0));
    let actual = angle_as_float(input);
    assert_eq!(actual, expected);

    let input = b"2700000W";
    let expected = Ok((&[][..], -270.0));
    let actual = angle_as_float(input);
    assert_eq!(actual, expected);

    let input = b"3600000N";
    let expected = Ok((&[][..], 360.0));
    let actual = angle_as_float(input);
    assert_eq!(actual, expected);

    let input = b"3600000W";
    let expected = Ok((&[][..], -360.0));
    let actual = angle_as_float(input);
    assert_eq!(actual, expected);

    let input = b"0010000E";
    let expected = Ok((&[][..], 1.0));
    let actual = angle_as_float(input);
    assert_eq!(actual, expected);

    let input = b"abcdefgh";
    let expected = Err(ParseFailure::new(&input[..3], ErrorKind::Digit));
    let actual = angle_as_float(input);
    assert_eq!(actual, expected);

    let input = b"0000000X";
    let expected = Err(ParseFailure::new(&input[7..], ErrorKind::OneOf));
    let actual = angle_as_float(input);
    assert_eq!(actual, expected);

    let input = b"0000000";
    let expected = Err(ParseFailure::new(&[] as &[u8], ErrorKind::OneOf));
    let actual = angle_as_float(input);
    assert_eq!(actual, expected);

    let input = b"0";
    let expected = Err(ParseFailure::new(&input[..], ErrorKind::Eof));
    let actual = angle_as_float(input);
    assert_eq!(actual, expected);

    let input = b"0123";
    let expected = Err(ParseFailure::new(&input[3..], ErrorKind::Eof));
    let actual = angle_as_float(input);
    assert_eq!(actual, expected);
}

#[test]
fn test_height_parser() {
    let x = [0b00000000, 0b00000000];
    assert_eq!(parse_height(&x), 0);

    let x = [0b00000000, 0b00000001];
    assert_eq!(parse_height(&x), 1);

    let x = [0b00000000, 0b00000010];
    assert_eq!(parse_height(&x), 2);

    let x = [0b00100000, 0b00000000];
    assert_eq!(parse_height(&x), 8192);

    let x = [0b01000000, 0b00000000];
    assert_eq!(parse_height(&x), 16384);

    let x = [0b10000000, 0b00000000];
    assert_eq!(parse_height(&x), 0);

    let x = [0b10000000, 0b00000001];
    assert_eq!(parse_height(&x), -1);

    let x = [0b10000000, 0b00000010];
    assert_eq!(parse_height(&x), -2);

    let x = [0b10100000, 0b00000000];
    assert_eq!(parse_height(&x), -8192);

    let x = [0b11000000, 0b00000000];
    assert_eq!(parse_height(&x), -16384);
}

#[test]
fn height_extremes() {
    assert_eq!(parse_height(&[0x7F, 0xFF]), 32767);
    assert_eq!(parse_height(&[0xFF, 0xFF]), -32767);
    assert_eq!(parse_height(&[0x01, 0x00]), 256);
    assert_eq!(parse_height(&[0x81, 0x00]), -256);
    // Bytes after the second are not read.
    assert_eq!(parse_height(&[0x00, 0x07, 0xFF]), 7);
}

#[test]
fn angle_returns_what_follows_the_field() {
    let input = b"0080000Erest";
    assert_eq!(parse_angle(input), Ok((&b"rest"[..], 8)));
    let input = b"1230000W";
    assert_eq!(parse_angle(input), Ok((&[][..], -123)));
}

#[test]
fn angle_ignores_minutes_and_seconds() {
    assert_eq!(parse_angle(b"0475959N"), Ok((&[][..], 47)));
    assert_eq!(parse_angle(b"047....S"), Ok((&[][..], -47)));
}

#[test]
fn angle_wants_three_digits() {
    let input = b"1a20000N";
    assert_eq!(parse_angle(input), Err(ParseFailure::new(&input[..3], ErrorKind::Digit)));
    let input = b"12 0000N";
    assert_eq!(parse_angle(input), Err(ParseFailure::new(&input[..3], ErrorKind::Digit)));
    let input = b"+120000N";
    assert_eq!(parse_angle(input), Err(ParseFailure::new(&input[..3], ErrorKind::Digit)));
    let input = b"12:0000N";
    assert_eq!(parse_angle(input), Err(ParseFailure::new(&input[..3], ErrorKind::Digit)));
    let input = b"12/0000N";
    assert_eq!(parse_angle(input), Err(ParseFailure::new(&input[..3], ErrorKind::Digit)));
}

#[test]
fn angle_hemisphere_is_upper_case() {
    let input = b"0010000n";
    assert_eq!(parse_angle(input), Err(ParseFailure::new(&input[7..], ErrorKind::OneOf)));
}

#[test]
fn header_of_a_level_two_tile() {
    let bytes = label(b"0080000E", b"0470000N", b"3601", b"3601");
    assert_eq!(bytes.len(), 80);
    let (rest, header) = parse_user_header_label(&bytes).unwrap();
    assert!(rest.is_empty());
    assert_eq!(header.origin().lat_deg(), 47);
    assert_eq!(header.origin().lon_deg(), 8);
    assert_eq!(header.num_lat(), 3601);
    assert_eq!(header.num_lon(), 3601);
}

#[test]
fn header_tells_longitude_count_from_latitude_count() {
    let mut bytes = label(b"1790000W", b"0890000S", b"0012", b"9999");
    bytes.extend_from_slice(b"tail");
    let (rest, header) = parse_user_header_label(&bytes).unwrap();
    assert_eq!(rest, b"tail");
    assert_eq!(header.origin().lat_deg(), -89);
    assert_eq!(header.origin().lon_deg(), -179);
    assert_eq!(header.num_lon(), 12);
    assert_eq!(header.num_lat(), 9999);
}

#[test]
fn header_shorter_than_a_label_is_eof() {
    let bytes = label(b"0080000E", b"0470000N", b"3601", b"3601");
    for n in 0..80usize {
        let cut = &bytes[..n];
        assert_eq!(
            parse_user_header_label(cut).err(),
            Some(ParseFailure::new(cut, ErrorKind::Eof))
        );
    }
    let garbage = [0u8; 79];
    assert_eq!(
        parse_user_header_label(&garbage).err(),
        Some(ParseFailure::new(&garbage, ErrorKind::Eof))
    );
}

#[test]
fn header_without_tag() {
    let mut bytes = label(b"0080000E", b"0470000N", b"3601", b"3601");
    bytes[3] = b'2';
    assert_eq!(
        parse_user_header_label(&bytes).err(),
        Some(ParseFailure::new(&bytes, ErrorKind::Tag))
    );
    let zeros = [0u8; 100];
    assert_eq!(
        parse_user_header_label(&zeros).err(),
        Some(ParseFailure::new(&zeros, ErrorKind::Tag))
    );
}

#[test]
fn header_with_malformed_angles() {
    let bytes = label(b"0x80000E", b"0470000N", b"3601", b"3601");
    assert_eq!(
        parse_user_header_label(&bytes).err(),
        Some(ParseFailure::new(&bytes[4..7], ErrorKind::Digit))
    );
    let bytes = label(b"0080000Q", b"0470000N", b"3601", b"3601");
    assert_eq!(
        parse_user_header_label(&bytes).err(),
        Some(ParseFailure::new(&bytes[11..], ErrorKind::OneOf))
    );
    let bytes = label(b"0080000E", b"47 0000N", b"3601", b"3601");
    assert_eq!(
        parse_user_header_label(&bytes).err(),
        Some(ParseFailure::new(&bytes[12..15], ErrorKind::Digit))
    );
    let bytes = label(b"0080000E", b"0470000 ", b"3601", b"3601");
    assert_eq!(
        parse_user_header_label(&bytes).err(),
        Some(ParseFailure::new(&bytes[19..], ErrorKind::OneOf))
    );
}

#[test]
fn header_origin_must_lie_strictly_inside() {
    for lon in [b"1800000E", b"1800000W", b"1810000E", b"9990000W"] {
        let bytes = label(lon, b"0470000N", b"3601", b"3601");
        assert_eq!(
            parse_user_header_label(&bytes).err(),
            Some(ParseFailure::new(&bytes[4..], ErrorKind::Verify))
        );
    }
    for lat in [b"0900000N", b"0900000S", b"0910000N", b"1790000S"] {
        let bytes = label(b"0080000E", lat, b"3601", b"3601");
        assert_eq!(
            parse_user_header_label(&bytes).err(),
            Some(ParseFailure::new(&bytes[12..], ErrorKind::Verify))
        );
    }
    for (lon, lat, lon_deg, lat_deg) in [
        (b"1790000E", b"0890000N", 179, 89),
        (b"1790000W", b"0890000S", -179, -89),
        (b"0000000W", b"0000000S", 0, 0),
    ] {
        let bytes = label(lon, lat, b"0001", b"0001");
        let (_, header) = parse_user_header_label(&bytes).unwrap();
        assert_eq!(header.origin().lon_deg(), lon_deg);
        assert_eq!(header.origin().lat_deg(), lat_deg);
    }
}

#[test]
fn header_longitude_is_checked_before_latitude() {
    let bytes = label(b"1800000E", b"0900000N", b"3601", b"3601");
    assert_eq!(
        parse_user_header_label(&bytes).err(),
        Some(ParseFailure::new(&bytes[4..], ErrorKind::Verify))
    );
}

#[test]
fn header_with_malformed_counts() {
    let bytes = label(b"0080000E", b"0470000N", b"36 1", b"3601");
    assert_eq!(
        parse_user_header_label(&bytes).err(),
        Some(ParseFailure::new(&bytes[47..51], ErrorKind::Digit))
    );
    let bytes = label(b"0080000E", b"0470000N", b"3601", b"-601");
    assert_eq!(
        parse_user_header_label(&bytes).err(),
        Some(ParseFailure::new(&bytes[51..55], ErrorKind::Digit))
    );
    let bytes = label(b"0080000E", b"0470000N", b"12ab", b"3601");
    assert_eq!(
        parse_user_header_label(&bytes).err(),
        Some(ParseFailure::new(&bytes[47..51], ErrorKind::Digit))
    );
}

#[test]
fn header_counts_must_be_positive() {
    let bytes = label(b"0080000E", b"0470000N", b"0000", b"3601");
    assert_eq!(
        parse_user_header_label(&bytes).err(),
        Some(ParseFailure::new(&bytes[47..], ErrorKind::Verify))
    );
    let bytes = label(b"0080000E", b"0470000N", b"3601", b"0000");
    assert_eq!(
        parse_user_header_label(&bytes).err(),
        Some(ParseFailure::new(&bytes[51..], ErrorKind::Verify))
    );
}

#[test]
fn record_appends_its_heights() {
    let record = record_of(&[1, -1, 0, 8192, -8192, 32767, -32767]);
    let mut heights: Vec<i16> = vec![99];
    assert_eq!(parse_dted_record_into(&record, 7, &mut heights), Ok(()));
    assert_eq!(heights, vec![99, 1, -1, 0, 8192, -8192, 32767, -32767]);
}

#[test]
fn record_checksum_is_the_sum_of_header_and_heights() {
    // 8 header bytes that add up to 36, two heights that add up to 3 + 0x80 + 4.
    let record: [u8; 16] = [1, 2, 3, 4, 5, 6, 7, 8, 0, 3, 0x80, 4, 0, 0, 0, 171];
    let mut heights: Vec<i16> = Vec::new();
    assert_eq!(parse_dted_record_into(&record, 2, &mut heights), Ok(()));
    assert_eq!(heights, vec![3, -4]);

    // The checksum bytes themselves are not part of the sum.
    let record: [u8; 16] = [1, 2, 3, 4, 5, 6, 7, 8, 0, 3, 0x80, 4, 0, 0, 1, 171];
    let mut heights: Vec<i16> = Vec::new();
    assert_eq!(
        parse_dted_record_into(&record, 2, &mut heights),
        Err(ParseFailure::new(&record, ErrorKind::Verify))
    );
    assert!(heights.is_empty());
}

#[test]
fn record_checksum_is_read_big_endian() {
    // 8 + 2 * 300 bytes of 0xFF add up to 155040 = 0x00025DA0.
    let mut record: Vec<u8> = vec![0xFF; 608];
    record.extend_from_slice(&[0x00, 0x02, 0x5D, 0xA0]);
    let mut heights: Vec<i16> = Vec::new();
    assert_eq!(parse_dted_record_into(&record, 300, &mut heights), Ok(()));
    assert_eq!(heights, vec![-32767; 300]);

    let mut reversed: Vec<u8> = vec![0xFF; 608];
    reversed.extend_from_slice(&[0xA0, 0x5D, 0x02, 0x00]);
    let mut heights: Vec<i16> = Vec::new();
    assert_eq!(
        parse_dted_record_into(&reversed, 300, &mut heights),
        Err(ParseFailure::new(&reversed, ErrorKind::Verify))
    );
    assert!(heights.is_empty());
}

#[test]
fn record_checksum_uses_all_four_bytes() {
    // 16843008 bytes of 0xFF add up to 0xFFFFFF00.
    let n_lats: usize = 8421500;
    let mut record: Vec<u8> = vec![0xFF; 8 + 2 * n_lats];
    record.extend_from_slice(&[0xFF, 0xFF, 0xFF, 0x00]);
    let mut heights: Vec<i16> = Vec::new();
    assert_eq!(parse_dted_record_into(&record, n_lats, &mut heights), Ok(()));
    assert_eq!(heights.len(), n_lats);
    assert!(heights.iter().all(|h| *h == -32767));
}

#[test]
fn record_checksum_wraps_at_32_bits() {
    // 16843010 bytes of 0xFF add up to 2^32 + 254.
    let n_lats: usize = 8421501;
    let mut record: Vec<u8> = vec![0xFF; 8 + 2 * n_lats];
    record.extend_from_slice(&[0x00, 0x00, 0x00, 0xFE]);
    let mut heights: Vec<i16> = Vec::new();
    assert_eq!(parse_dted_record_into(&record, n_lats, &mut heights), Ok(()));
    assert_eq!(heights.len(), n_lats);
}

#[test]
fn record_reads_only_its_own_length() {
    let mut record = record_of(&[5, 6]);
    record.extend_from_slice(&[9, 9, 9]);
    let mut heights: Vec<i16> = Vec::new();
    assert_eq!(parse_dted_record_into(&record, 2, &mut heights), Ok(()));
    assert_eq!(heights, vec![5, 6]);
}

#[test]
fn data_block_shorter_than_its_records_is_eof() {
    let bytes = small_tile();
    assert_eq!(bytes.len(), 3428 + 2 * (8 + 6 + 4));
    for n in 3428..bytes.len() {
        assert_eq!(
            parse_dted_tile(&bytes[..n]).err(),
            Some(ParseFailure::new(&bytes[3428..n], ErrorKind::Eof))
        );
    }
    // A short block is reported before any checksum is looked at.
    let mut damaged: Vec<u8> = bytes.clone();
    damaged[3428 + 10] ^= 1;
    assert_eq!(
        parse_dted_tile(&damaged[..3463]).err(),
        Some(ParseFailure::new(&damaged[3428..3463], ErrorKind::Eof))
    );
}

#[test]
fn data_block_reports_the_first_damaged_record() {
    let mut bytes = small_tile();
    bytes[3428 + 18 + 9] ^= 0x40;
    assert_eq!(
        parse_dted_tile(&bytes).err(),
        Some(ParseFailure::new(&bytes[3446..3464], ErrorKind::Verify))
    );
    bytes[3428 + 9] ^= 0x40;
    assert_eq!(
        parse_dted_tile(&bytes).err(),
        Some(ParseFailure::new(&bytes[3428..3446], ErrorKind::Verify))
    );
}

#[test]
fn tile_returns_what_follows_the_last_record() {
    let mut bytes = small_tile();
    bytes.extend_from_slice(b"trailer");
    let (rest, tile) = parse_dted_tile(&bytes).unwrap();
    assert_eq!(rest, b"trailer");
    assert_eq!(tile.header().num_lat(), 3);
    assert_eq!(tile.header().num_lon(), 2);
    assert_eq!(tile.elevation_at(0, 0), Some(10));
    assert_eq!(tile.elevation_at(2, 1), Some(-60));
}

#[test]
fn tile_failures_carry_their_input() {
    let bytes = small_tile();
    assert_eq!(
        parse_dted_tile(&bytes[..79]).err(),
        Some(ParseFailure::new(&bytes[..79], ErrorKind::Eof))
    );
    assert_eq!(
        parse_dted_tile(&bytes[..3427]).err(),
        Some(ParseFailure::new(&bytes[80..3427], ErrorKind::Eof))
    );
    assert_eq!(
        parse_dted_tile(&bytes[..3463]).err(),
        Some(ParseFailure::new(&bytes[3428..3463], ErrorKind::Eof))
    );
    let mut damaged = bytes.clone();
    damaged[3428 + 18 + 17] ^= 0xFF;
    assert_eq!(
        parse_dted_tile(&damaged).err(),
        Some(ParseFailure::new(&damaged[3446..], ErrorKind::Verify))
    );
}

#[test]
fn failure_descriptions() {
    let input: [u8; 0] = [];
    assert_eq!(ParseFailure::new(&input, ErrorKind::Tag).describe(), "missing UHL1 tag");
    assert_eq!(ParseFailure::new(&input, ErrorKind::Digit).describe(), "malformed decimal field");
    assert_eq!(ParseFailure::new(&input, ErrorKind::OneOf).describe(), "invalid hemisphere code");
    assert_eq!(ParseFailure::new(&input, ErrorKind::Eof).describe(), "unexpected end of input");
    assert_eq!(
        ParseFailure::new(&input, ErrorKind::Verify).describe(),
        "value out of range or checksum mismatch"
    );
}
