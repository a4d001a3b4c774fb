//! Hierarchical cell identifiers.
//!
//! A cell identifier is a `u64`: three bits of cube face, then two bits per
//! subdivision level along a Hilbert curve, then a single marker bit. The
//! marker bit of a cell at level `l` is `1 << 2 * (30 - l)`; every bit below it
//! is zero. Leaf cells (level 30) are the odd identifiers.
use vstd::prelude::*;

verus! {

/// The deepest subdivision level.
pub const MAX_LEVEL: u64 = 30;

/// The marker bit of a cell at `level`.
pub open spec fn lsb_for_level(level: u64) -> u64
    recommends
        level <= MAX_LEVEL,
{
    1u64 << ((2 * (MAX_LEVEL - level)) as u64)
}

/// The lowest set bit of `id` (zero for zero).
pub open spec fn lowest_bit(id: u64) -> u64 {
    id & ((!id) + 1) as u64
}

/// The cube face encoded in the top three bits.
pub open spec fn face_of(id: u64) -> u64 {
    id >> 61u64
}

/// `id` names a cell: a face in `0..6` and a marker bit at an even position.
pub open spec fn is_valid_cell(id: u64) -> bool {
    face_of(id) < 6 && lowest_bit(id) & 0x1555555555555555u64 != 0
}

/// `id` is a cell at `level`: its marker bit is that level's.
pub open spec fn at_level(id: u64, level: u64) -> bool {
    level <= MAX_LEVEL && lowest_bit(id) == lsb_for_level(level)
}

/// The ancestor of `id` at `level`: the bits below that level's marker bit are
/// cleared and the marker bit is set.
pub open spec fn ancestor(id: u64, level: u64) -> u64
    recommends
        level <= MAX_LEVEL,
{
    (id & !((lsb_for_level(level) - 1) as u64)) | lsb_for_level(level)
}

/// Errors of the cell index.
#[derive(Debug, Clone, Copy, PartialEq, Eq, Structural)]
pub enum CellError {
    /// A subdivision level above the deepest one.
    InvalidLevel,
}

/// Relies on s2's `CellID::parent`, which keeps the bits of `id` above the
/// marker bit of `level`, clears those below it and sets it. It panics on a
/// level above 30.
#[verifier::external_body]
fn parent_at(id: u64, level: u64) -> (r: u64)
    requires
        level <= MAX_LEVEL,
    ensures
        r == ancestor(id, level),
{
    s2::cellid::CellID(id).parent(level).0
}

/// The ancestor at `level` of the cell `id` (a leaf cell when it comes from a
/// point). A level above 30 is refused rather than truncated.
pub fn cellid_at_level(id: u64, level: u64) -> (r: Result<u64, CellError>)
    ensures
        level > MAX_LEVEL ==> r == Err::<u64, CellError>(CellError::InvalidLevel),
        level <= MAX_LEVEL ==> r == Ok::<u64, CellError>(ancestor(id, level)),
{
    if level > MAX_LEVEL {
        Err(CellError::InvalidLevel)
    } else {
        Ok(parent_at(id, level))
    }
}

proof fn lemma_marker_bits(level: u64)
    requires
        level <= MAX_LEVEL,
    ensures
        lsb_for_level(level) == 1u64 << ((2 * (MAX_LEVEL - level)) as u64),
        (2 * (MAX_LEVEL - level)) as u64 <= 60,
        (2 * (MAX_LEVEL - level)) as u64 % 2 == 0,
{
}

proof fn lemma_bits_idempotent(id: u64, s: u64, m: u64)
    by (bit_vector)
    requires
        s <= 60,
        m == 1u64 << s,
    ensures
        (((id & !((m - 1) as u64)) | m) & !((m - 1) as u64)) | m == (id & !((m - 1) as u64)) | m,
{
}

/// Taking the ancestor at a level twice gives the same cell as taking it once.
pub proof fn lemma_ancestor_idempotent(id: u64, level: u64)
    requires
        level <= MAX_LEVEL,
    ensures
        ancestor(ancestor(id, level), level) == ancestor(id, level),
{
    lemma_marker_bits(level);
    lemma_bits_idempotent(id, (2 * (MAX_LEVEL - level)) as u64, lsb_for_level(level));
}

proof fn lemma_bits_chain(id: u64, s: u64, m: u64, t: u64, n: u64)
    by (bit_vector)
    requires
        s <= t,
        t <= 60,
        m == 1u64 << s,
        n == 1u64 << t,
    ensures
        (((id & !((m - 1) as u64)) | m) & !((n - 1) as u64)) | n == (id & !((n - 1) as u64)) | n,
{
}

/// The ancestor at a coarser level of the ancestor at a finer level is the
/// ancestor at the coarser level.
pub proof fn lemma_ancestor_of_ancestor(id: u64, fine: u64, coarse: u64)
    requires
        coarse <= fine,
        fine <= MAX_LEVEL,
    ensures
        ancestor(ancestor(id, fine), coarse) == ancestor(id, coarse),
{
    lemma_marker_bits(fine);
    lemma_marker_bits(coarse);
    lemma_bits_chain(
        id,
        (2 * (MAX_LEVEL - fine)) as u64,
        lsb_for_level(fine),
        (2 * (MAX_LEVEL - coarse)) as u64,
        lsb_for_level(coarse),
    );
}

proof fn lemma_bits_marker(id: u64, s: u64, m: u64)
    by (bit_vector)
    requires
        s <= 60,
        s % 2 == 0,
        m == 1u64 << s,
    ensures
        ((id & !((m - 1) as u64)) | m) & ((!((id & !((m - 1) as u64)) | m)) + 1) as u64 == m,
        ((id & !((m - 1) as u64)) | m) >> 61u64 == id >> 61u64,
        m & 0x1555555555555555u64 != 0,
{
}

/// The ancestor at `level` is a cell at `level` on the same face; it names a
/// cell whenever the face of `id` is one of the six.
pub proof fn lemma_ancestor_at_level(id: u64, level: u64)
    requires
        level <= MAX_LEVEL,
    ensures
        at_level(ancestor(id, level), level),
        face_of(ancestor(id, level)) == face_of(id),
        face_of(id) < 6 ==> is_valid_cell(ancestor(id, level)),
{
    lemma_marker_bits(level);
    lemma_bits_marker(id, (2 * (MAX_LEVEL - level)) as u64, lsb_for_level(level));
}

proof fn lemma_bits_in_range(cell: u64, leaf: u64, s: u64, m: u64)
    by (bit_vector)
    requires
        s <= 60,
        m == 1u64 << s,
        cell & ((!cell) + 1) as u64 == m,
        cell - (m - 1) <= leaf,
        leaf <= cell + (m - 1),
    ensures
        (leaf & !((m - 1) as u64)) | m == cell,
{
}

/// Every identifier between the first and the last leaf of a cell at `level`
/// has that cell as its ancestor at `level`: re-encoding any point of a cell,
/// its center included, at the cell's level gives back the cell.
pub proof fn lemma_ancestor_of_descendant(cell: u64, level: u64, leaf: u64)
    requires
        at_level(cell, level),
        cell - (lsb_for_level(level) - 1) <= leaf <= cell + (lsb_for_level(level) - 1),
    ensures
        ancestor(leaf, level) == cell,
{
    lemma_marker_bits(level);
    lemma_bits_in_range(cell, leaf, (2 * (MAX_LEVEL - level)) as u64, lsb_for_level(level));
}

/// Encoding at a level is stable: the cell of `id` at `level` is also the cell
/// at `level` of every leaf inside it, so decoding that cell to a point of it
/// and encoding the point again at the same level gives the same identifier.
pub proof fn lemma_reencode_same_level(id: u64, level: u64, leaf: u64)
    requires
        level <= MAX_LEVEL,
        ancestor(id, level) - (lsb_for_level(level) - 1) <= leaf <= ancestor(id, level) + (
        lsb_for_level(level) - 1),
    ensures
        ancestor(leaf, level) == ancestor(id, level),
{
    lemma_ancestor_at_level(id, level);
    lemma_ancestor_of_descendant(ancestor(id, level), level, leaf);
}

} // verus!
