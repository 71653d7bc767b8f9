//! The mesh hierarchy: secondary meshes (one block of cells each), the
//! primary meshes that own them, and the collection of primary meshes.
use vstd::prelude::*;

use std::collections::BTreeMap;

use crate::cell::{CellComposite, XrainCell, CELLS_PER_BLOCK};
use crate::error::XrainError;

verus! {

broadcast use vstd::laws_cmp::group_laws_cmp;

/// Rows, and cells per row, in one block.
pub const GRID_SIDE: usize = 40;

/// Key of the primary mesh at `lat`, `lon`: `lat` in the high 16 bits,
/// `lon` in the low 16.
pub open spec fn primary_key(lat: u8, lon: u16) -> u32 {
    (lat as int * 0x10000 + lon as int) as u32
}

/// Key of the secondary mesh at column `x`, row `y` of its primary mesh:
/// `y` in the high byte, `x` in the low byte.
pub open spec fn secondary_key(x: u8, y: u8) -> u32 {
    (y as int * 0x100 + x as int) as u32
}

/// Row `r` of a block's strengths.
pub open spec fn strength_row(cells: Seq<XrainCell<u16>>, r: int) -> Seq<u16> {
    Seq::new(GRID_SIDE as nat, |j: int| cells[r * GRID_SIDE + j].strength)
}

/// One block: the cells of the secondary mesh at column `x`, row `y` of
/// the primary mesh `primary_y`, `primary_x`.
#[derive(Debug)]
pub struct SecondaryMesh {
    /// Low digits of the primary mesh code (longitude), after any carry.
    pub primary_x: u16,
    /// High digits of the primary mesh code (latitude).
    pub primary_y: u8,
    pub x: u8,
    pub y: u8,
    pub xrain_cells: CellComposite,
}

impl SecondaryMesh {
    pub fn new(primary_x: u16, primary_y: u8, x: u8, y: u8, cells: CellComposite) -> (r: Self)
        ensures
            r.primary_x == primary_x,
            r.primary_y == primary_y,
            r.x == x,
            r.y == y,
            r.xrain_cells == cells,
    {
        SecondaryMesh { primary_x, primary_y, x, y, xrain_cells: cells }
    }

    /// Replaces the cells, keeping the position.
    pub fn assign_cells(&mut self, cell_composite: CellComposite) -> (r: Result<(), XrainError>)
        ensures
            r is Ok,
            final(self).xrain_cells == cell_composite,
            final(self).primary_x == old(self).primary_x,
            final(self).primary_y == old(self).primary_y,
            final(self).x == old(self).x,
            final(self).y == old(self).y,
    {
        self.xrain_cells = cell_composite;
        Ok(())
    }

    /// Key of the primary mesh this block belongs to.
    pub fn primary_code(&self) -> (r: u32)
        ensures
            r == primary_key(self.primary_y, self.primary_x),
    {
        self.primary_y as u32 * 0x10000 + self.primary_x as u32
    }

    /// Key of this block within its primary mesh.
    pub fn secondary_code(&self) -> (r: u32)
        ensures
            r == secondary_key(self.x, self.y),
    {
        self.y as u32 * 0x100 + self.x as u32
    }

    /// The block's strengths as 40 rows of 40, in decode order; the quality
    /// flags are left out. Fails with `IncompleteMesh` unless the block
    /// holds exactly 1600 cells.
    pub fn strength_rows(&self) -> (r: Result<Vec<Vec<u16>>, XrainError>)
        ensures
            self.xrain_cells@.len() == CELLS_PER_BLOCK <==> r is Ok,
            match r {
                Ok(rows) => rows@.len() == GRID_SIDE && forall|i: int|
                    0 <= i < GRID_SIDE ==> #[trigger] rows@[i]@ == strength_row(
                        self.xrain_cells@,
                        i,
                    ),
                Err(e) => e == XrainError::IncompleteMesh,
            },
    {
        if self.xrain_cells.len() != CELLS_PER_BLOCK {
            return Err(XrainError::IncompleteMesh);
        }
        let mut rows: Vec<Vec<u16>> = Vec::new();
        let mut i: usize = 0;
        while i < GRID_SIDE
            invariant
                i <= GRID_SIDE,
                self.xrain_cells@.len() == CELLS_PER_BLOCK,
                rows@.len() == i,
                forall|k: int| 0 <= k < i ==> #[trigger] rows@[k]@ == strength_row(
                    self.xrain_cells@,
                    k,
                ),
            decreases GRID_SIDE - i,
        {
            let mut line: Vec<u16> = Vec::new();
            let mut j: usize = 0;
            while j < GRID_SIDE
                invariant
                    i < GRID_SIDE,
                    j <= GRID_SIDE,
                    self.xrain_cells@.len() == CELLS_PER_BLOCK,
                    line@ =~= strength_row(self.xrain_cells@, i as int).subrange(0, j as int),
                decreases GRID_SIDE - j,
            {
                assert(i * GRID_SIDE + j < CELLS_PER_BLOCK) by (nonlinear_arith)
                    requires
                        i < GRID_SIDE,
                        j < GRID_SIDE,
                ;
                line.push(self.xrain_cells.get(i * GRID_SIDE + j).strength);
                j = j + 1;
            }
            assert(line@ =~= strength_row(self.xrain_cells@, i as int));
            rows.push(line);
            i = i + 1;
        }
        Ok(rows)
    }
}

/// A primary mesh and the secondary meshes decoded for it, keyed by
/// `secondary_key`.
#[derive(Debug)]
pub struct PrimaryMesh {
    pub lat: u8,
    pub lon: u16,
    pub secondary_mesh: BTreeMap<u32, SecondaryMesh>,
}

impl PrimaryMesh {
    pub fn new(lat: u8, lon: u16) -> (r: Self)
        ensures
            r.lat == lat,
            r.lon == lon,
            r.secondary_mesh@ == Map::<u32, SecondaryMesh>::empty(),
    {
        PrimaryMesh { lat, lon, secondary_mesh: BTreeMap::new() }
    }
}

/// All decoded meshes: primary meshes keyed by `primary_key`.
#[derive(Debug)]
pub struct MeshCollection {
    pub primary_meshed: BTreeMap<u32, PrimaryMesh>,
}

/// The collection `m` after storing `sm`: its primary mesh is made if
/// absent, and `sm` takes its place there, replacing any block at the same
/// position.
pub open spec fn inserted(m: Map<u32, Map<u32, SecondaryMesh>>, sm: SecondaryMesh) -> Map<
    u32,
    Map<u32, SecondaryMesh>,
> {
    let pk = primary_key(sm.primary_y, sm.primary_x);
    let inner = if m.contains_key(pk) {
        m[pk]
    } else {
        Map::empty()
    };
    m.insert(pk, inner.insert(secondary_key(sm.x, sm.y), sm))
}

/// Two blocks stored at the same position leave one entry there, the one
/// stored last; storing one block twice is the same as storing it once.
pub proof fn lemma_insert_last_wins(
    m: Map<u32, Map<u32, SecondaryMesh>>,
    a: SecondaryMesh,
    b: SecondaryMesh,
)
    requires
        a.primary_x == b.primary_x,
        a.primary_y == b.primary_y,
        a.x == b.x,
        a.y == b.y,
    ensures
        inserted(inserted(m, a), b) == inserted(m, b),
        inserted(inserted(m, b), b) == inserted(m, b),
        inserted(m, b)[primary_key(b.primary_y, b.primary_x)][secondary_key(b.x, b.y)] == b,
{
    let pk = primary_key(b.primary_y, b.primary_x);
    let sk = secondary_key(b.x, b.y);
    assert(inserted(m, a)[pk].insert(sk, b) =~= inserted(m, b)[pk]);
    assert(inserted(inserted(m, a), b) =~= inserted(m, b));
    assert(inserted(m, b)[pk].insert(sk, b) =~= inserted(m, b)[pk]);
    assert(inserted(inserted(m, b), b) =~= inserted(m, b));
}

/// The collection `m` after storing the blocks of `s` in order.
pub open spec fn inserted_all(m: Map<u32, Map<u32, SecondaryMesh>>, s: Seq<SecondaryMesh>) -> Map<
    u32,
    Map<u32, SecondaryMesh>,
>
    decreases s.len(),
{
    if s.len() == 0 {
        m
    } else {
        inserted(inserted_all(m, s.drop_last()), s.last())
    }
}

impl View for MeshCollection {
    type V = Map<u32, Map<u32, SecondaryMesh>>;

    /// For each primary key, the blocks stored under it.
    open spec fn view(&self) -> Map<u32, Map<u32, SecondaryMesh>> {
        Map::new(
            |k: u32| self.primary_meshed@.contains_key(k),
            |k: u32| self.primary_meshed@[k].secondary_mesh@,
        )
    }
}

impl Default for MeshCollection {
    fn default() -> (r: Self)
        ensures
            r@ == Map::<u32, Map<u32, SecondaryMesh>>::empty(),
            r.primary_meshed@ == Map::<u32, PrimaryMesh>::empty(),
    {
        let r = MeshCollection { primary_meshed: BTreeMap::new() };
        assert(r@ =~= Map::<u32, Map<u32, SecondaryMesh>>::empty());
        r
    }
}

impl MeshCollection {
    /// Stores `sm` under its primary mesh, making that primary mesh from
    /// `sm`'s coordinates if it is absent; a block already at the same
    /// position is replaced.
    pub fn insert(&mut self, sm: SecondaryMesh)
        ensures
            final(self)@ == inserted(old(self)@, sm),
            ({
                let pk = primary_key(sm.primary_y, sm.primary_x);
                &&& old(self).primary_meshed@.contains_key(pk) ==> final(self).primary_meshed@[pk].lat
                    == old(self).primary_meshed@[pk].lat && final(self).primary_meshed@[pk].lon
                    == old(self).primary_meshed@[pk].lon
                &&& !old(self).primary_meshed@.contains_key(pk) ==> final(self).primary_meshed@[pk].lat
                    == sm.primary_y && final(self).primary_meshed@[pk].lon == sm.primary_x
                &&& forall|k: u32|
                    k != pk ==> #[trigger] final(self).primary_meshed@.contains_key(k)
                        == old(self).primary_meshed@.contains_key(k) && (
                    old(self).primary_meshed@.contains_key(k) ==> final(self).primary_meshed@[k]
                        == old(self).primary_meshed@[k])
            }),
    {
        let pk = sm.primary_code();
        let sk = sm.secondary_code();
        let mut pm = match self.primary_meshed.remove(&pk) {
            Some(pm) => pm,
            None => PrimaryMesh::new(sm.primary_y, sm.primary_x),
        };
        pm.secondary_mesh.insert(sk, sm);
        self.primary_meshed.insert(pk, pm);
        assert(self@ =~= inserted(old(self)@, sm));
    }

    /// The block stored at secondary key `sk` of primary key `pk`, if any.
    pub fn get(&self, pk: u32, sk: u32) -> (r: Option<&SecondaryMesh>)
        ensures
            match r {
                Some(s) => self@.contains_key(pk) && self@[pk].contains_key(sk) && *s
                    == self@[pk][sk],
                None => !(self@.contains_key(pk) && self@[pk].contains_key(sk)),
            },
    {
        match self.primary_meshed.get(&pk) {
            Some(pm) => pm.secondary_mesh.get(&sk),
            None => None,
        }
    }

    /// Stores the blocks of `meshes` in order, as `insert` does each.
    pub fn insert_all(&mut self, meshes: Vec<SecondaryMesh>)
        ensures
            final(self)@ == inserted_all(old(self)@, meshes@),
    {
        let ghost all = meshes@;
        let n: usize = meshes.len();
        let mut meshes = meshes;
        let mut j: usize = 0;
        while meshes.len() > 0
            invariant
                j + meshes@.len() == all.len(),
                all.len() == n,
                meshes@ == all.subrange(j as int, all.len() as int),
                self@ == inserted_all(old(self)@, all.subrange(0, j as int)),
            decreases meshes@.len(),
        {
            let sm = meshes.remove(0);
            proof {
                assert(all.subrange(0, j + 1).drop_last() =~= all.subrange(0, j as int));
                assert(meshes@ =~= all.subrange(j + 1, all.len() as int));
            }
            self.insert(sm);
            j = j + 1;
        }
        assert(all.subrange(0, j as int) =~= all);
    }
}

} // verus!
