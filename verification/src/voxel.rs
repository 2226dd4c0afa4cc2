//! Thinning by a grid of cubes: of each cube the first point is let through, and no
//! other.
//!
//! A compressed bitmap over half of a hash of the cube's indices answers first. Where
//! its bit is set, the cubes behind it decide: many cubes share a hash, as the order of
//! the three indices does not matter to it.

use roaring::RoaringBitmap;
use std::collections::HashMap;
use std::hash::Hash;
use std::hash::Hasher;
use vstd::prelude::*;

verus! {

/// The indices of a cube along the three axes.
pub type VoxelKey = (i64, i64, i64);

/// `roaring::RoaringBitmap`, a compressed set of 32-bit integers.
#[verifier::external_type_specification]
#[verifier::external_body]
pub struct ExRoaringBitmap(roaring::RoaringBitmap);

/// The integers that a bitmap holds.
pub uninterp spec fn bitmap_contents(bitmap: RoaringBitmap) -> Set<u32>;

/// `RoaringBitmap::new` gives the empty set.
pub assume_specification[ RoaringBitmap::new ]() -> (bitmap: RoaringBitmap)
    ensures
        bitmap_contents(bitmap) == Set::<u32>::empty(),
;

/// `RoaringBitmap::contains` tells whether the integer is in the set.
pub assume_specification[ RoaringBitmap::contains ](bitmap: &RoaringBitmap, value: u32) -> (found:
    bool)
    ensures
        found == bitmap_contents(*bitmap).contains(value),
;

/// `RoaringBitmap::insert` adds the integer to the set and tells whether it was
/// absent before.
pub assume_specification[ RoaringBitmap::insert ](bitmap: &mut RoaringBitmap, value: u32) -> (fresh:
    bool)
    ensures
        bitmap_contents(*final(bitmap)) == bitmap_contents(*old(bitmap)).insert(value),
        fresh == !bitmap_contents(*old(bitmap)).contains(value),
;

/// One multiplication of the hash, modulo 2 to the 64.
pub open spec fn spread(word: u64) -> u64 {
    ((word * 0x6eed_0e9d_a4d9_4a4f) % 0x1_0000_0000_0000_0000) as u64
}

/// How the hash mixes the bits of a word.
pub open spec fn diffuse(word: u64) -> u64 {
    let wide = spread(word);
    spread(wide ^ ((wide >> 32) >> (wide >> 60)))
}

/// The SeaHash, with four seeds, of three 64-bit integers written one after another.
pub open spec fn sea_hash(seeds: (u64, u64, u64, u64), x: i64, y: i64, z: i64) -> u64 {
    let a = diffuse(seeds.0 ^ (x as u64));
    let b = diffuse(seeds.1 ^ (y as u64));
    let c = diffuse(seeds.2 ^ (z as u64));
    diffuse(seeds.3 ^ a ^ b ^ c ^ 24)
}

/// Hashes three integers as one tuple with `seahash::SeaHasher::with_seeds`. The hasher
/// takes the integers in little-endian order, one word each, and mixes the count of the
/// bytes in at the end.
#[verifier::external_body]
fn sea_hash_of(seeds: (u64, u64, u64, u64), x: i64, y: i64, z: i64) -> (hash: u64)
    ensures
        hash == sea_hash(seeds, x, y, z),
{
    let mut hasher = seahash::SeaHasher::with_seeds(seeds.0, seeds.1, seeds.2, seeds.3);
    (x, y, z).hash(&mut hasher);
    hasher.finish()
}

/// The hash of a cube's indices, with all seeds zero.
pub open spec fn voxel_hash(key: VoxelKey) -> u64 {
    sea_hash((0, 0, 0, 0), key.0, key.1, key.2)
}

/// The hash of a cube's indices.
pub fn hash_voxel(key: &VoxelKey) -> (hash: u64)
    ensures
        hash == voxel_hash(*key),
{
    sea_hash_of((0, 0, 0, 0), key.0, key.1, key.2)
}

/// The bit under which a cube is remembered: the low 32 bits of its hash.
pub open spec fn voxel_slot(key: VoxelKey) -> u32 {
    (voxel_hash(key) % 0x1_0000_0000) as u32
}

/// Cubes whose indices differ in their order alone share a hash: the bitmap cannot tell
/// them apart.
pub proof fn law_order_of_indices_does_not_matter(x: i64, y: i64, z: i64)
    ensures
        voxel_hash((x, y, z)) == voxel_hash((y, x, z)),
        voxel_hash((x, y, z)) == voxel_hash((x, z, y)),
{
    let a = diffuse(0u64 ^ (x as u64));
    let b = diffuse(0u64 ^ (y as u64));
    let c = diffuse(0u64 ^ (z as u64));
    assert(0u64 ^ a ^ b ^ c ^ 24 == 0u64 ^ b ^ a ^ c ^ 24) by (bit_vector);
    assert(0u64 ^ a ^ b ^ c ^ 24 == 0u64 ^ a ^ c ^ b ^ 24) by (bit_vector);
}

/// The memory of the cubes met so far.
pub struct VoxelFilter {
    seen: RoaringBitmap,
    cubes: HashMap<u32, Vec<VoxelKey>>,
}

impl View for VoxelFilter {
    type V = Set<VoxelKey>;

    /// The cubes met so far.
    closed spec fn view(&self) -> Set<VoxelKey> {
        Set::new(
            |key: VoxelKey|
                self.cubes@.contains_key(voxel_slot(key)) && self.cubes@[voxel_slot(
                    key,
                )]@.contains(key),
        )
    }
}

fn lists_cube(cubes: &Vec<VoxelKey>, key: &VoxelKey) -> (found: bool)
    ensures
        found == cubes@.contains(*key),
{
    let mut n: usize = 0;
    while n < cubes.len()
        invariant
            n <= cubes.len(),
            forall|i: int| 0 <= i < n ==> cubes@[i] != *key,
        decreases cubes.len() - n,
    {
        let cube = cubes[n];
        if cube.0 == key.0 && cube.1 == key.1 && cube.2 == key.2 {
            assert(cubes@[n as int] == *key);
            return true;
        }
        n = n + 1;
    }
    false
}

impl VoxelFilter {
    /// The bits that are set are those with cubes behind them.
    pub closed spec fn well_formed(&self) -> bool {
        bitmap_contents(self.seen) == self.cubes@.dom()
    }

    /// A memory without any cube.
    pub fn new() -> (filter: VoxelFilter)
        ensures
            filter.well_formed(),
            filter@ == Set::<VoxelKey>::empty(),
    {
        broadcast use vstd::std_specs::hash::group_hash_axioms;

        let filter = VoxelFilter { seen: RoaringBitmap::new(), cubes: HashMap::new() };
        assert(filter.cubes@.dom() =~= Set::empty());
        assert(filter@ =~= Set::empty());
        filter
    }

    /// Lets a point through if its cube was not met before, and remembers the cube.
    pub fn pass(&mut self, key: &VoxelKey) -> (passed: bool)
        requires
            old(self).well_formed(),
        ensures
            final(self).well_formed(),
            passed == !old(self)@.contains(*key),
            final(self)@ == old(self)@.insert(*key),
    {
        broadcast use vstd::std_specs::hash::group_hash_axioms;

        let hash: u64 = hash_voxel(key);
        assert(hash as u32 == hash % 0x1_0000_0000) by (bit_vector);
        let slot: u32 = #[verifier::truncate] (hash as u32);
        let ghost before = self.cubes@;
        let mut behind: Vec<VoxelKey> = Vec::new();
        if self.seen.contains(slot) {
            match self.cubes.remove(&slot) {
                Some(known) => {
                    behind = known;
                },
                None => {},
            }
        }
        let ghost listed = behind@;
        let passed = !lists_cube(&behind, key);
        if passed {
            behind.push(*key);
        }
        let ghost list = behind@;
        let _fresh = self.seen.insert(slot);
        let _none = self.cubes.insert(slot, behind);
        proof {
            assert(self.cubes@.dom() =~= before.dom().insert(slot));
            assert forall|other: VoxelKey| #[trigger] self@.contains(other) <==> old(self)@.insert(
                *key,
            ).contains(other) by {
                if voxel_slot(other) == slot {
                    assert(passed ==> list == listed.push(*key));
                    assert(list.contains(other) <==> listed.contains(other) || other == *key) by {
                        if passed {
                            assert(list[list.len() - 1] == *key);
                            if listed.contains(other) {
                                let i = choose|i: int| 0 <= i < listed.len() && listed[i] == other;
                                assert(list[i] == other);
                            }
                        }
                    }
                }
            }
            assert(self@ =~= old(self)@.insert(*key));
        }
        passed
    }
}

} // verus!
