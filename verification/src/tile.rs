//! A decoded tile: its header and its elevation grid.

use crate::coordinate_2d::DegreeCoordinate;
use crate::format::{
    description, header_num_lat, header_num_lon, header_origin_lat, header_origin_lon, is_tile,
    tile_failure, tile_rows, MAX_POINTS,
};
use crate::grid::{grid_cell, grid_rows, ElevationGrid};
use crate::parser::{parse_dted_tile, ParseError};
use crate::theorems::lemma_tile_exactly_when_nothing_fails;
use vstd::prelude::*;

verus! {

/// What the User Header Label says of a tile: its south-west corner, which
/// lies strictly inside (-90, 90) and (-180, 180), and the numbers of
/// latitude and longitude points, each from 1 to 9999.
pub struct DtedHeader {
    origin_sw: DegreeCoordinate,
    num_lat_points: usize,
    num_lon_points: usize,
}

impl DtedHeader {
    /// What holds of every header: the origin lies strictly inside both
    /// ranges and each count is one that four digits can state, zero excluded.
    #[verifier::type_invariant]
    spec fn well_formed(self) -> bool {
        &&& -90 < self.origin_sw.lat_deg() < 90
        &&& -180 < self.origin_sw.lon_deg() < 180
        &&& 0 < self.num_lat_points <= MAX_POINTS
        &&& 0 < self.num_lon_points <= MAX_POINTS
    }

    /// The south-west corner, for use in contracts.
    pub closed spec fn spec_origin(&self) -> DegreeCoordinate {
        self.origin_sw
    }

    /// The number of latitude points, for use in contracts.
    pub closed spec fn spec_num_lat(&self) -> usize {
        self.num_lat_points
    }

    /// The number of longitude points, for use in contracts.
    pub closed spec fn spec_num_lon(&self) -> usize {
        self.num_lon_points
    }

    /// Whether this header holds the origin and the counts that the User
    /// Header Label at the start of `s` states.
    pub open spec fn describes(&self, s: Seq<u8>) -> bool {
        &&& self.origin().lat_deg() == header_origin_lat(s)
        &&& self.origin().lon_deg() == header_origin_lon(s)
        &&& self.num_lat() == header_num_lat(s)
        &&& self.num_lon() == header_num_lon(s)
    }

    /// A header of the given origin and counts.
    pub(crate) fn new(
        origin_sw: DegreeCoordinate,
        num_lat_points: usize,
        num_lon_points: usize,
    ) -> (h: Self)
        requires
            -90 < origin_sw.lat_deg() < 90,
            -180 < origin_sw.lon_deg() < 180,
            0 < num_lat_points <= MAX_POINTS,
            0 < num_lon_points <= MAX_POINTS,
        ensures
            h.origin() == origin_sw,
            h.num_lat() == num_lat_points,
            h.num_lon() == num_lon_points,
    {
        DtedHeader { origin_sw, num_lat_points, num_lon_points }
    }

    /// The south-west corner of the tile.
    #[verifier::when_used_as_spec(spec_origin)]
    pub fn origin(&self) -> (r: DegreeCoordinate)
        ensures
            r == self.spec_origin(),
            -90 < r.lat_deg() < 90,
            -180 < r.lon_deg() < 180,
    {
        proof {
            use_type_invariant(self);
        }
        self.origin_sw
    }

    /// The number of latitude points: the rows of the grid.
    #[verifier::when_used_as_spec(spec_num_lat)]
    pub fn num_lat(&self) -> (r: usize)
        ensures
            r == self.spec_num_lat(),
            0 < r <= MAX_POINTS,
    {
        proof {
            use_type_invariant(self);
        }
        self.num_lat_points
    }

    /// The number of longitude points: the columns of the grid.
    #[verifier::when_used_as_spec(spec_num_lon)]
    pub fn num_lon(&self) -> (r: usize)
        ensures
            r == self.spec_num_lon(),
            0 < r <= MAX_POINTS,
    {
        proof {
            use_type_invariant(self);
        }
        self.num_lon_points
    }
}

/// A decoded tile: the header and a grid of heights in metres with one row
/// per latitude point and one column per longitude point. Row 0 is the
/// southern edge and column 0 the western edge.
pub struct DtedTile {
    header: DtedHeader,
    data: ElevationGrid,
}

/// Whether `rows` is a rectangle of `n_rows` rows and `n_cols` columns.
pub open spec fn is_rectangle(rows: Seq<Seq<i16>>, n_rows: int, n_cols: int) -> bool {
    &&& rows.len() == n_rows
    &&& forall|r: int| 0 <= r < n_rows ==> (#[trigger] rows[r]).len() == n_cols
}

impl DtedTile {
    /// What holds of every tile: the grid has the header's shape.
    #[verifier::type_invariant]
    spec fn well_formed(self) -> bool {
        is_rectangle(
            grid_rows(self.data),
            self.header.num_lat() as int,
            self.header.num_lon() as int,
        )
    }

    /// The header, for use in contracts.
    pub closed spec fn spec_header(&self) -> &DtedHeader {
        &self.header
    }

    /// The heights of the grid, row by row: `elevations()[r][c]` is the height
    /// at latitude index `r` and longitude index `c`.
    pub closed spec fn elevations(&self) -> Seq<Seq<i16>> {
        grid_rows(self.data)
    }

    /// A tile of the given header and grid.
    pub(crate) fn new(header: DtedHeader, data: ElevationGrid) -> (tile: Self)
        requires
            is_rectangle(grid_rows(data), header.num_lat() as int, header.num_lon() as int),
        ensures
            *tile.header() == header,
            tile.elevations() == grid_rows(data),
    {
        DtedTile { header, data }
    }

    /// Decodes a tile from the bytes of a whole file. Bytes after the last
    /// record are not read.
    ///
    /// Succeeds exactly when the buffer starts with a tile, and then returns
    /// the header and the grid which the buffer holds. Any failure is
    /// `Invalid`, with the description of the first thing found wrong.
    pub fn from_bytes(bytes: &[u8]) -> (r: Result<DtedTile, ParseError>)
        ensures
            match r {
                Ok(tile) => is_tile(bytes@) && tile.header().describes(bytes@)
                    && tile.elevations() == tile_rows(bytes@),
                Err(ParseError::Invalid(text)) => !is_tile(bytes@) && tile_failure(bytes@) is Some
                    && text@ == description(tile_failure(bytes@).unwrap().code),
                Err(ParseError::Io(_)) => false,
            },
    {
        proof {
            lemma_tile_exactly_when_nothing_fails(bytes@);
        }
        match parse_dted_tile(bytes) {
            Ok((_, tile)) => Ok(tile),
            Err(e) => Err(ParseError::Invalid(e.describe())),
        }
    }

    /// The header of the tile. The grid has as many rows and columns as the
    /// header counts latitude and longitude points.
    #[verifier::when_used_as_spec(spec_header)]
    pub fn header(&self) -> (r: &DtedHeader)
        ensures
            r == self.spec_header(),
            is_rectangle(self.elevations(), r.num_lat() as int, r.num_lon() as int),
    {
        proof {
            use_type_invariant(self);
        }
        &self.header
    }

    /// Longitude of the western edge, in degrees.
    pub fn min_lon_deg(&self) -> (r: i32)
        ensures
            r == self.header().origin().lon_deg(),
    {
        self.header.origin().lon_deg()
    }

    /// Longitude of the eastern edge, in degrees: one more than the western.
    pub fn max_lon_deg(&self) -> (r: i32)
        ensures
            r == self.header().origin().lon_deg() + 1,
    {
        self.header.origin().lon_deg() + 1
    }

    /// Latitude of the southern edge, in degrees.
    pub fn min_lat_deg(&self) -> (r: i32)
        ensures
            r == self.header().origin().lat_deg(),
    {
        self.header.origin().lat_deg()
    }

    /// Latitude of the northern edge, in degrees: one more than the southern.
    pub fn max_lat_deg(&self) -> (r: i32)
        ensures
            r == self.header().origin().lat_deg() + 1,
    {
        self.header.origin().lat_deg() + 1
    }

    /// Whether `coord` lies on the tile: within the edges on both axes, the
    /// edges themselves included. For use in contracts.
    pub open spec fn spec_contains(&self, coord: DegreeCoordinate) -> bool {
        let origin = self.header().origin();
        &&& origin.lat_deg() <= coord.lat_deg() <= origin.lat_deg() + 1
        &&& origin.lon_deg() <= coord.lon_deg() <= origin.lon_deg() + 1
    }

    /// Whether `coord` lies on the tile: within the edges on both axes, the
    /// edges themselves included.
    #[verifier::when_used_as_spec(spec_contains)]
    pub fn contains(&self, coord: DegreeCoordinate) -> (r: bool)
        ensures
            r == self.spec_contains(coord),
    {
        let lat: i32 = coord.lat_deg();
        let lon: i32 = coord.lon_deg();
        self.min_lat_deg() <= lat && lat <= self.max_lat_deg() && self.min_lon_deg() <= lon && lon
            <= self.max_lon_deg()
    }

    /// The height that [`DtedTile::elevation_m`] returns, for use in
    /// contracts: the position's distance from the south-west corner on each
    /// axis, scaled by the point count, is the index that is read.
    pub open spec fn spec_elevation_m(&self, coord: DegreeCoordinate) -> Option<i16> {
        let origin = self.header().origin();
        if self.contains(coord) {
            self.elevation_at(
                ((coord.lat_deg() - origin.lat_deg()) * self.header().num_lat()) as usize,
                ((coord.lon_deg() - origin.lon_deg()) * self.header().num_lon()) as usize,
            )
        } else {
            None
        }
    }

    /// The height in metres at `coord`, or `None` where `coord` does not lie
    /// on the tile.
    ///
    /// The distance from the south-west corner on each axis is scaled by the
    /// point count of that axis to the index of the cell, as
    /// [`DtedTile::elevation_at`] reads it. A whole-degree position on the
    /// tile is one of its corners, so the cell is a corner cell.
    #[verifier::when_used_as_spec(spec_elevation_m)]
    pub fn elevation_m(&self, coord: DegreeCoordinate) -> (r: Option<i16>)
        ensures
            r == self.spec_elevation_m(coord),
            r is Some <==> self.contains(coord),
    {
        if !self.contains(coord) {
            return None;
        }
        let n_lat: usize = self.header.num_lat();
        let n_lon: usize = self.header.num_lon();
        let lat_steps: usize = (coord.lat_deg() - self.min_lat_deg()) as usize;
        let lon_steps: usize = (coord.lon_deg() - self.min_lon_deg()) as usize;
        assert(lat_steps * n_lat <= n_lat && lon_steps * n_lon <= n_lon) by {
            assert(0 * n_lat == 0 && 1 * n_lat == n_lat);
            assert(0 * n_lon == 0 && 1 * n_lon == n_lon);
        }
        self.elevation_at(lat_steps * n_lat, lon_steps * n_lon)
    }

    /// The height that [`DtedTile::elevation_at`] returns, for use in
    /// contracts.
    pub open spec fn spec_elevation_at(&self, lat_index: usize, lon_index: usize) -> Option<i16> {
        let n_lat = self.header().num_lat();
        let n_lon = self.header().num_lon();
        if lat_index <= n_lat && lon_index <= n_lon {
            Some(self.elevations()[edge_clamped(lat_index, n_lat)][edge_clamped(lon_index, n_lon)])
        } else {
            None
        }
    }

    /// The height in metres of the cell at latitude index `lat_index` and
    /// longitude index `lon_index`, counted from the south-west corner.
    ///
    /// A position on the northern or eastern edge of the tile scales to an
    /// index equal to the point count; such an index reads the last row or
    /// column. A larger index is not on the tile and gives `None`.
    #[verifier::when_used_as_spec(spec_elevation_at)]
    pub fn elevation_at(&self, lat_index: usize, lon_index: usize) -> (r: Option<i16>)
        ensures
            r == self.spec_elevation_at(lat_index, lon_index),
    {
        proof {
            use_type_invariant(self);
        }
        let n_lat: usize = self.header.num_lat();
        let n_lon: usize = self.header.num_lon();
        if lat_index > n_lat || lon_index > n_lon {
            return None;
        }
        let row: usize = if lat_index < n_lat {
            lat_index
        } else {
            n_lat - 1
        };
        let col: usize = if lon_index < n_lon {
            lon_index
        } else {
            n_lon - 1
        };
        Some(grid_cell(&self.data, row, col))
    }
}

/// Whether `coord` is one of the four corners of `tile`.
pub open spec fn is_corner(tile: &DtedTile, coord: DegreeCoordinate) -> bool {
    let origin = tile.header().origin();
    &&& coord.lat_deg() == origin.lat_deg() || coord.lat_deg() == origin.lat_deg() + 1
    &&& coord.lon_deg() == origin.lon_deg() || coord.lon_deg() == origin.lon_deg() + 1
}

/// Each of the four corners of a tile lies on it, and a position more than
/// one degree away from a corner, in latitude or in longitude, does not.
pub proof fn lemma_contains_corners_and_nothing_far(
    tile: &DtedTile,
    corner: DegreeCoordinate,
    coord: DegreeCoordinate,
)
    requires
        is_corner(tile, corner),
    ensures
        tile.contains(corner),
        coord.lat_deg() - corner.lat_deg() > 1 || corner.lat_deg() - coord.lat_deg() > 1
            || coord.lon_deg() - corner.lon_deg() > 1 || corner.lon_deg() - coord.lon_deg() > 1
            ==> !tile.contains(coord),
{
}

/// The index that a scaled position reads along an axis of `count` points:
/// itself below `count`, the last index at `count`.
pub open spec fn edge_clamped(index: usize, count: usize) -> int {
    if index < count {
        index as int
    } else {
        count - 1
    }
}

} // verus!
