//! What the layout guarantees: a header is read from its 80 bytes alone, a
//! tile that was cut short is never taken for a tile, and no single changed
//! byte of the data block goes unnoticed.

use crate::format::{
    angle_failure, be_u32_value, byte_sum, checksum, first_damaged_record, header_failure,
    header_num_lat, header_num_lon, header_origin_lat, header_origin_lon, is_header, is_tile,
    record_at, record_body_len, record_intact, record_len, tile_failure, tile_len, ErrorKind,
    DATA_OFFSET, UHL_LEN,
};
use vstd::prelude::*;

verus! {

/// Slot `k` of `c` slots of `n` cells each lies inside the `c * n` cells, and
/// so does each of its cells.
pub proof fn lemma_slot_bounds(k: int, c: int, n: int, r: int)
    requires
        0 <= k < c,
        0 <= r < n,
    ensures
        0 <= k * n,
        0 <= k * n + r < c * n,
        k * n + n <= c * n,
        (k + 1) * n == k * n + n,
{
    assert(k * n + n <= c * n) by (nonlinear_arith)
        requires
            0 <= k < c,
            0 <= n,
    ;
    assert(0 <= k * n) by (nonlinear_arith)
        requires
            0 <= k,
            0 <= n,
    ;
    assert((k + 1) * n == k * n + n) by (nonlinear_arith);
}

/// The first damaged record of a block stays the first however many records
/// are looked at after it.
pub proof fn lemma_first_damaged_record_stays(block: Seq<u8>, n_lat: nat, c: nat, n: nat)
    requires
        first_damaged_record(block, n_lat, c) is None,
        !record_intact(record_at(block, n_lat, c as int), n_lat),
        c < n,
    ensures
        first_damaged_record(block, n_lat, n) == Some(c as int),
    decreases n,
{
    if n > c + 1 {
        lemma_first_damaged_record_stays(block, n_lat, c, (n - 1) as nat);
    }
}

/// The first damaged record among the first `n`, where there is one, is one
/// of them and is damaged.
pub proof fn lemma_first_damaged_record_is_damaged(block: Seq<u8>, n_lat: nat, n: nat)
    requires
        first_damaged_record(block, n_lat, n) is Some,
    ensures
        0 <= first_damaged_record(block, n_lat, n).unwrap() < n,
        !record_intact(
            record_at(block, n_lat, first_damaged_record(block, n_lat, n).unwrap()),
            n_lat,
        ),
    decreases n,
{
    if n > 0 && first_damaged_record(block, n_lat, (n - 1) as nat) is Some {
        lemma_first_damaged_record_is_damaged(block, n_lat, (n - 1) as nat);
    }
}

/// Where none of the first `n` records is damaged, each of them is intact,
/// and none of the records before it is damaged.
pub proof fn lemma_undamaged_records_are_intact(block: Seq<u8>, n_lat: nat, n: nat, c: int)
    requires
        first_damaged_record(block, n_lat, n) is None,
        0 <= c < n,
    ensures
        record_intact(record_at(block, n_lat, c), n_lat),
        first_damaged_record(block, n_lat, c as nat) is None,
    decreases n,
{
    if c < n - 1 {
        lemma_undamaged_records_are_intact(block, n_lat, (n - 1) as nat, c);
    }
}

/// Two blocks whose first `n` records are the same have the same first
/// damaged record among them.
pub proof fn lemma_first_damaged_record_of_equal_records(
    block: Seq<u8>,
    other: Seq<u8>,
    n_lat: nat,
    n: nat,
)
    requires
        forall|k: int| 0 <= k < n ==> record_at(block, n_lat, k) == record_at(other, n_lat, k),
    ensures
        first_damaged_record(block, n_lat, n) == first_damaged_record(other, n_lat, n),
    decreases n,
{
    if n > 0 {
        lemma_first_damaged_record_of_equal_records(block, other, n_lat, (n - 1) as nat);
    }
}

/// Changing one byte changes the sum of the bytes by the difference.
pub proof fn lemma_byte_sum_of_update(s: Seq<u8>, j: int, b: u8)
    requires
        0 <= j < s.len(),
    ensures
        byte_sum(s.update(j, b)) == byte_sum(s) - s[j] + b,
    decreases s.len(),
{
    let t = s.update(j, b);
    if j == s.len() - 1 {
        assert(t.drop_last() =~= s.drop_last());
    } else {
        assert(t.drop_last() =~= s.drop_last().update(j, b));
        lemma_byte_sum_of_update(s.drop_last(), j, b);
    }
}

/// The header is read from the first 80 bytes alone: two buffers that agree
/// on them are both headed by a label or neither is, and state the same
/// origin and counts.
pub proof fn lemma_header_reads_label_only(s: Seq<u8>, other: Seq<u8>)
    requires
        s.len() >= UHL_LEN,
        other.len() >= UHL_LEN,
        s.subrange(0, UHL_LEN as int) == other.subrange(0, UHL_LEN as int),
    ensures
        header_failure(s) is None <==> header_failure(other) is None,
        header_origin_lat(s) == header_origin_lat(other),
        header_origin_lon(s) == header_origin_lon(other),
        header_num_lat(s) == header_num_lat(other),
        header_num_lon(s) == header_num_lon(other),
{
    assert forall|i: int| 0 <= i < UHL_LEN implies s[i] == other[i] by {
        assert(s.subrange(0, UHL_LEN as int)[i] == s[i]);
        assert(other.subrange(0, UHL_LEN as int)[i] == other[i]);
    }
    assert(s.subrange(0, 4) =~= other.subrange(0, 4));
    assert(s.skip(4).subrange(0, 3) =~= other.skip(4).subrange(0, 3));
    assert(s.skip(4)[7] == other.skip(4)[7]);
    assert(s.skip(12).subrange(0, 3) =~= other.skip(12).subrange(0, 3));
    assert(s.skip(12)[7] == other.skip(12)[7]);
    assert(s.subrange(47, 51) =~= other.subrange(47, 51));
    assert(s.subrange(51, 55) =~= other.subrange(51, 55));
    assert(angle_failure(s.skip(4)) is None <==> angle_failure(other.skip(4)) is None);
    assert(angle_failure(s.skip(12)) is None <==> angle_failure(other.skip(12)) is None);
}

/// A buffer starts with a User Header Label exactly when reading one finds
/// nothing wrong.
pub proof fn lemma_header_exactly_when_nothing_fails(s: Seq<u8>)
    ensures
        is_header(s) <==> header_failure(s) is None,
{
}

/// A buffer starts with a tile exactly when decoding finds nothing wrong.
pub proof fn lemma_tile_exactly_when_nothing_fails(s: Seq<u8>)
    ensures
        is_tile(s) <==> tile_failure(s) is None,
{
    lemma_header_exactly_when_nothing_fails(s);
    if is_header(s) && s.len() >= tile_len(s) {
        let block = s.skip(DATA_OFFSET as int);
        let n_lat = header_num_lat(s);
        let n_lon = header_num_lon(s);
        match first_damaged_record(block, n_lat, n_lon) {
            Some(c) => {
                lemma_first_damaged_record_is_damaged(block, n_lat, n_lon);
            },
            None => {
                assert forall|c: int| 0 <= c < n_lon implies record_intact(
                    #[trigger] record_at(block, n_lat, c),
                    n_lat,
                ) by {
                    lemma_undamaged_records_are_intact(block, n_lat, n_lon, c);
                }
            },
        }
    }
}

/// A buffer shorter than a User Header Label, or headed by a label and
/// shorter than the tile which that label announces, fails with `Eof`.
pub proof fn lemma_short_buffer_fails_with_eof(s: Seq<u8>)
    requires
        s.len() < UHL_LEN || (header_failure(s) is None && s.len() < tile_len(s)),
    ensures
        tile_failure(s) matches Some(f) && f.code == ErrorKind::Eof,
{
}

/// A tile never extends past the buffer it was decoded from.
pub proof fn lemma_tile_fits_buffer(s: Seq<u8>)
    requires
        tile_failure(s) is None,
    ensures
        tile_len(s) <= s.len(),
{
}

/// Cutting a tile short is always noticed: every proper prefix of a tile
/// fails with `Eof`.
pub proof fn lemma_truncated_tile_fails_with_eof(s: Seq<u8>, n: int)
    requires
        tile_failure(s) is None,
        0 <= n < tile_len(s),
    ensures
        tile_failure(s.take(n)) matches Some(f) && f.code == ErrorKind::Eof,
{
    lemma_tile_fits_buffer(s);
    let cut = s.take(n);
    if n >= UHL_LEN {
        assert(cut.subrange(0, UHL_LEN as int) =~= s.subrange(0, UHL_LEN as int));
        lemma_header_reads_label_only(s, cut);
    }
    lemma_short_buffer_fails_with_eof(cut);
}

/// No single changed byte of the data block goes unnoticed: where `s` holds a
/// tile and the byte at offset `at` of its record `c` is replaced by another,
/// be it in the record's header, its heights or its checksum, the buffer
/// fails with `Verify`, reported at that record.
pub proof fn lemma_changed_record_byte_fails_with_verify(s: Seq<u8>, c: int, at: int, b: u8)
    requires
        tile_failure(s) is None,
        0 <= c < header_num_lon(s),
        0 <= at < record_len(header_num_lat(s)),
        b != s[DATA_OFFSET + c * record_len(header_num_lat(s)) + at],
    ensures
        ({
            let changed = s.update(DATA_OFFSET + c * record_len(header_num_lat(s)) + at, b);
            tile_failure(changed) matches Some(f) && f.code == ErrorKind::Verify && f.input
                == record_at(changed.skip(DATA_OFFSET as int), header_num_lat(s), c)
        }),
{
    let n_lat = header_num_lat(s);
    let n_lon = header_num_lon(s);
    let len = record_len(n_lat) as int;
    let body_len = record_body_len(n_lat) as int;
    let i = DATA_OFFSET + c * len + at;
    let changed = s.update(i, b);
    let block = s.skip(DATA_OFFSET as int);
    let damaged = changed.skip(DATA_OFFSET as int);
    lemma_slot_bounds(c, n_lon as int, len, at);
    assert(block.len() >= n_lon * len);
    assert(changed.subrange(0, UHL_LEN as int) =~= s.subrange(0, UHL_LEN as int));
    lemma_header_reads_label_only(s, changed);
    assert(damaged =~= block.update(c * len + at, b));

    // The records before `c` are untouched.
    assert forall|k: int| 0 <= k < c implies record_at(block, n_lat, k) == record_at(
        damaged,
        n_lat,
        k,
    ) by {
        lemma_slot_bounds(k, c, len, 0);
        assert(record_at(block, n_lat, k) =~= record_at(damaged, n_lat, k));
    }
    lemma_first_damaged_record_of_equal_records(block, damaged, n_lat, c as nat);
    lemma_undamaged_records_are_intact(block, n_lat, n_lon, c);

    // Record `c` no longer adds up.
    let record = record_at(block, n_lat, c);
    let hit = record_at(damaged, n_lat, c);
    assert(hit =~= record.update(at, b));
    assert(record[at] == s[i]);
    let body = record.subrange(0, body_len);
    let stored = record.subrange(body_len, len);
    if at < body_len {
        assert(hit.subrange(0, body_len) =~= body.update(at, b));
        assert(hit.subrange(body_len, len) =~= stored);
        lemma_byte_sum_of_update(body, at, b);
        assert(checksum(body.update(at, b)) != checksum(body));
    } else {
        assert(hit.subrange(0, body_len) =~= body);
        assert(hit.subrange(body_len, len) =~= stored.update(at - body_len, b));
        assert(be_u32_value(stored.update(at - body_len, b)) != be_u32_value(stored));
    }
    assert(!record_intact(hit, n_lat));
    lemma_first_damaged_record_stays(damaged, n_lat, c as nat, n_lon);
}

} // verus!
