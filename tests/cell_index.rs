use geotransforms::cellid::{cellid_at_level, CellError, MAX_LEVEL};
use s2::cellid::CellID;
use s2::latlng::LatLng;

fn leaf_of(lon: f64, lat: f64) -> u64 {
    CellID::from(LatLng::from_degrees(lat, lon)).0
}

fn center_of(cellid: u64) -> (f64, f64) {
    let ll = LatLng::from(CellID(cellid));
    (ll.lng.deg(), ll.lat.deg())
}

#[test]
fn test_lonlat_to_cellid() {
    let lon: f64 = 36.077147686805766;
    let lat: f64 = 56.783927007002866;
    let level: u64 = 30;
    let expected_cellid: u64 = 5095400969591719543;

    assert_eq!(cellid_at_level(leaf_of(lon, lat), level), Ok(expected_cellid));
}

#[test]
fn s2_circular_transformation() {
    let cellid: u64 = 5095400969591719543;
    let (lon, lat) = center_of(cellid);

    assert_eq!(cellid_at_level(leaf_of(lon, lat), 30), Ok(cellid));
}

#[test]
fn level_above_deepest_is_refused() {
    assert_eq!(cellid_at_level(5095400969591719543, 31), Err(CellError::InvalidLevel));
    assert_eq!(cellid_at_level(5095400969591719543, u64::MAX), Err(CellError::InvalidLevel));
    assert_eq!(MAX_LEVEL, 30);
}

#[test]
fn ancestor_sets_marker_bit() {
    // An even identifier is no leaf: at level 30 its lowest bit is set.
    assert_eq!(cellid_at_level(4, 30), Ok(5));
    // Level 29 clears the two lowest bits and sets bit 2.
    assert_eq!(cellid_at_level(0b1011, 29), Ok(0b1100));
}

#[test]
fn level_zero_is_the_face_cell() {
    let leaf: u64 = 5095400969591719543;
    let face_cell: u64 = (2u64 << 61) | (1u64 << 60);
    assert_eq!(leaf >> 61, 2);
    assert_eq!(cellid_at_level(leaf, 0), Ok(face_cell));
}

#[test]
fn ancestor_matches_s2_parent_at_every_level() {
    let leaf: u64 = 5095400969591719543;
    for level in 0..=30u64 {
        assert_eq!(cellid_at_level(leaf, level), Ok(CellID(leaf).parent(level).0));
    }
}

#[test]
fn ancestor_is_idempotent_and_chains() {
    let leaf = leaf_of(-73.98, 40.75);
    for fine in 0..=30u64 {
        let cell = cellid_at_level(leaf, fine).unwrap();
        assert_eq!(cellid_at_level(cell, fine), Ok(cell));
        for coarse in 0..=fine {
            assert_eq!(cellid_at_level(cell, coarse), cellid_at_level(leaf, coarse));
        }
    }
}

#[test]
fn reencoding_center_keeps_cell() {
    let leaf = leaf_of(36.077147686805766, 56.783927007002866);
    for level in [0u64, 5, 12, 20, 27, 30] {
        let cell = cellid_at_level(leaf, level).unwrap();
        let (lon, lat) = center_of(cell);
        assert_eq!(cellid_at_level(leaf_of(lon, lat), level), Ok(cell));
    }
}

#[test]
fn descendants_share_ancestor() {
    let cell = cellid_at_level(5095400969591719543, 25).unwrap();
    let half = (cell & cell.wrapping_neg()) - 1;
    for leaf in [cell - half, cell - 1, cell, cell + 1, cell + half] {
        assert_eq!(cellid_at_level(leaf, 25), Ok(cell));
    }
}
