//! Deterministic world generation: every addressable entity (galaxy,
//! star system, planet, surface tile) derives its 64-bit seed from its
//! parent's seed, a per-level tag, and its local coordinates through a
//! fixed mixing hash; attributes are derived from the seed with an
//! attribute-specific tag, reduced modulo a domain size. Nothing is
//! stored: the same configuration and address always yield the same
//! values, in any process.

use vstd::prelude::*;
use crate::error::ApiError;

verus! {

/// Per-level tags partition the hash space: deriving two different
/// facts from the same seed uses two different tags, so the facts stay
/// uncorrelated while remaining reproducible.
pub const GALAXY_TAG: u64 = 1;

pub const SYSTEM_TAG: u64 = 10;

pub const SYSTEM_EXISTS_TAG: u64 = 11;

pub const STAR_TYPE_TAG: u64 = 12;

pub const PLANET_COUNT_TAG: u64 = 13;

pub const PLANET_TAG: u64 = 20;

pub const PLANET_TYPE_TAG: u64 = 21;

pub const TILE_TAG: u64 = 100;

pub const TILE_HEIGHT_TAG: u64 = 101;

pub const TILE_BIOME_TAG: u64 = 102;

/// Domain sizes of the derived categorical attributes. Reduction is a
/// plain `hash % N`; for these small `N` the modulo bias is below one
/// part in 2^57 and accepted.
pub const EXISTS_DOMAIN: u64 = 100;

/// A system exists when its existence draw over `EXISTS_DOMAIN` falls
/// below this threshold.
pub const EXISTS_THRESHOLD: u64 = 30;

pub const STAR_TYPE_DOMAIN: u64 = 5;

pub const PLANET_COUNT_DOMAIN: u64 = 12;

pub const PLANET_TYPE_DOMAIN: u64 = 8;

pub const TILE_HEIGHT_DOMAIN: u64 = 256;

pub const TILE_BIOME_DOMAIN: u64 = 8;

/// Faces of a planet's tile grid, as the generator counts them.
pub const GEN_FACE_COUNT: u32 = 6;

/// Tiles per axis of one face, as the generator counts them.
pub const GEN_TILE_GRID: u32 = 64;

/// Process-wide generation configuration. Changing either field is a
/// breaking world reset: every previously communicated address loses
/// its meaning.
#[derive(Clone, Copy, Debug, PartialEq, Eq, Structural)]
pub struct WorldConfig {
    pub world_seed: u64,
    pub version: u64,
}

/// Coordinates of a star system inside the galaxy.
#[derive(Clone, Copy, Debug, PartialEq, Eq, Structural)]
pub struct SystemCoord {
    pub gx: i64,
    pub gy: i64,
    pub gz: i64,
}

/// A planet, addressed by its system and its orbit slot.
#[derive(Clone, Copy, Debug, PartialEq, Eq, Structural)]
pub struct PlanetAddress {
    pub system: SystemCoord,
    pub orbit_index: u32,
}

/// A surface tile, addressed by its planet, face, and grid position.
#[derive(Clone, Copy, Debug, PartialEq, Eq, Structural)]
pub struct TileAddress {
    pub planet: PlanetAddress,
    pub face: u32,
    pub u: u32,
    pub v: u32,
}

/// A hierarchical address of any generateable world entity. Addresses
/// are pure values: nothing is ever allocated or deleted for them.
#[derive(Clone, Copy, Debug, PartialEq, Eq, Structural)]
pub enum WorldAddress {
    Galaxy,
    System(SystemCoord),
    Planet(PlanetAddress),
    Tile(TileAddress),
}

/// Finalizing mixer: xor-shift / multiply rounds spread every input bit
/// over the whole word, so that adjacent inputs give uncorrelated outputs.
pub open spec fn spec_mix64(x: u64) -> u64 {
    let a = x ^ (x >> 30);
    let b = vstd::wrapping::u64_specs::wrapping_mul(a, 0xbf58476d1ce4e5b9);
    let c = b ^ (b >> 27);
    let d = vstd::wrapping::u64_specs::wrapping_mul(c, 0x94d049bb133111eb);
    d ^ (d >> 31)
}

/// Folds one value into an accumulated seed.
pub open spec fn spec_hash_step(acc: u64, v: u64) -> u64 {
    spec_mix64(acc ^ spec_mix64(v))
}

/// Seed derived from a parent seed, a level tag, and local coordinates.
pub open spec fn spec_derive_seed(parent: u64, tag: u64, coords: Seq<u64>) -> u64
    decreases coords.len(),
{
    if coords.len() == 0 {
        spec_hash_step(parent, tag)
    } else {
        spec_hash_step(spec_derive_seed(parent, tag, coords.drop_last()), coords.last())
    }
}

pub fn mix64(x: u64) -> (r: u64)
    ensures
        r == spec_mix64(x),
{
    let a = x ^ (x >> 30);
    let b = a.wrapping_mul(0xbf58476d1ce4e5b9);
    let c = b ^ (b >> 27);
    let d = c.wrapping_mul(0x94d049bb133111eb);
    d ^ (d >> 31)
}

pub fn hash_step(acc: u64, v: u64) -> (r: u64)
    ensures
        r == spec_hash_step(acc, v),
{
    mix64(acc ^ mix64(v))
}

/// Derives a child seed from a parent seed, the child level's tag, and
/// the child's local coordinates.
pub fn derive_seed(parent: u64, tag: u64, coords: &Vec<u64>) -> (r: u64)
    ensures
        r == spec_derive_seed(parent, tag, coords@),
{
    let mut acc = hash_step(parent, tag);
    let mut i: usize = 0;
    while i < coords.len()
        invariant
            i <= coords.len(),
            acc == spec_derive_seed(parent, tag, coords@.take(i as int)),
        decreases coords.len() - i,
    {
        acc = hash_step(acc, coords[i]);
        proof {
            assert(coords@.take(i + 1 as int).drop_last() =~= coords@.take(i as int));
            assert(coords@.take(i + 1 as int).last() == coords@[i as int]);
        }
        i = i + 1;
    }
    proof {
        assert(coords@.take(coords@.len() as int) =~= coords@);
    }
    acc
}

/// Two's-complement bit pattern of a signed coordinate, as the hash
/// input word.
pub open spec fn spec_coord_bits(c: i64) -> u64 {
    if c >= 0 {
        c as u64
    } else {
        (c + 0x1_0000_0000_0000_0000) as u64
    }
}

pub fn coord_bits(c: i64) -> (r: u64)
    ensures
        r == spec_coord_bits(c),
{
    if c >= 0 {
        c as u64
    } else {
        ((c as i128) + 0x1_0000_0000_0000_0000) as u64
    }
}

/// Root of the seed chain: everything descends from the world seed and
/// the generation version.
pub open spec fn spec_galaxy_seed(cfg: WorldConfig) -> u64 {
    spec_derive_seed(cfg.world_seed, GALAXY_TAG, seq![cfg.version])
}

pub open spec fn spec_system_seed(cfg: WorldConfig, s: SystemCoord) -> u64 {
    spec_derive_seed(
        spec_galaxy_seed(cfg),
        SYSTEM_TAG,
        seq![spec_coord_bits(s.gx), spec_coord_bits(s.gy), spec_coord_bits(s.gz)],
    )
}

pub open spec fn spec_planet_seed(cfg: WorldConfig, p: PlanetAddress) -> u64 {
    spec_derive_seed(spec_system_seed(cfg, p.system), PLANET_TAG, seq![p.orbit_index as u64])
}

pub open spec fn spec_tile_seed(cfg: WorldConfig, t: TileAddress) -> u64 {
    spec_derive_seed(
        spec_planet_seed(cfg, t.planet),
        TILE_TAG,
        seq![t.face as u64, t.u as u64, t.v as u64],
    )
}

/// The seed of any address: each level derives from its parent's seed,
/// the level tag, and the local coordinates.
pub open spec fn spec_address_seed(cfg: WorldConfig, a: WorldAddress) -> u64 {
    match a {
        WorldAddress::Galaxy => spec_galaxy_seed(cfg),
        WorldAddress::System(s) => spec_system_seed(cfg, s),
        WorldAddress::Planet(p) => spec_planet_seed(cfg, p),
        WorldAddress::Tile(t) => spec_tile_seed(cfg, t),
    }
}

pub fn galaxy_seed(cfg: &WorldConfig) -> (r: u64)
    ensures
        r == spec_galaxy_seed(*cfg),
{
    let coords = vec![cfg.version];
    proof {
        assert(coords@ =~= seq![cfg.version]);
    }
    derive_seed(cfg.world_seed, GALAXY_TAG, &coords)
}

pub fn system_seed(cfg: &WorldConfig, s: &SystemCoord) -> (r: u64)
    ensures
        r == spec_system_seed(*cfg, *s),
{
    let coords = vec![coord_bits(s.gx), coord_bits(s.gy), coord_bits(s.gz)];
    proof {
        assert(coords@ =~= seq![
            spec_coord_bits(s.gx),
            spec_coord_bits(s.gy),
            spec_coord_bits(s.gz),
        ]);
    }
    derive_seed(galaxy_seed(cfg), SYSTEM_TAG, &coords)
}

pub fn planet_seed(cfg: &WorldConfig, p: &PlanetAddress) -> (r: u64)
    ensures
        r == spec_planet_seed(*cfg, *p),
{
    let coords = vec![p.orbit_index as u64];
    proof {
        assert(coords@ =~= seq![p.orbit_index as u64]);
    }
    derive_seed(system_seed(cfg, &p.system), PLANET_TAG, &coords)
}

pub fn tile_seed(cfg: &WorldConfig, t: &TileAddress) -> (r: u64)
    ensures
        r == spec_tile_seed(*cfg, *t),
{
    let coords = vec![t.face as u64, t.u as u64, t.v as u64];
    proof {
        assert(coords@ =~= seq![t.face as u64, t.u as u64, t.v as u64]);
    }
    derive_seed(planet_seed(cfg, &t.planet), TILE_TAG, &coords)
}

pub fn address_seed(cfg: &WorldConfig, a: &WorldAddress) -> (r: u64)
    ensures
        r == spec_address_seed(*cfg, *a),
{
    match a {
        WorldAddress::Galaxy => galaxy_seed(cfg),
        WorldAddress::System(s) => system_seed(cfg, s),
        WorldAddress::Planet(p) => planet_seed(cfg, p),
        WorldAddress::Tile(t) => tile_seed(cfg, t),
    }
}

/// A categorical attribute: the seed is re-hashed with the attribute's
/// tag and reduced modulo the domain size.
pub open spec fn spec_attribute(seed: u64, attribute_tag: u64, domain: u64) -> u64 {
    spec_hash_step(seed, attribute_tag) % domain
}

/// Derives an attribute value in `0 .. domain` from an address seed and
/// an attribute tag. Never touches storage: the same inputs give the
/// same value in every process.
pub fn derive_attribute(seed: u64, attribute_tag: u64, domain: u64) -> (r: u64)
    requires
        domain > 0,
    ensures
        r == spec_attribute(seed, attribute_tag, domain),
        r < domain,
{
    hash_step(seed, attribute_tag) % domain
}

pub open spec fn spec_system_exists(cfg: WorldConfig, s: SystemCoord) -> bool {
    spec_attribute(spec_system_seed(cfg, s), SYSTEM_EXISTS_TAG, EXISTS_DOMAIN) < EXISTS_THRESHOLD
}

/// Whether the system at `s` exists in this world.
pub fn system_exists(cfg: &WorldConfig, s: &SystemCoord) -> (r: bool)
    ensures
        r == spec_system_exists(*cfg, *s),
{
    derive_attribute(system_seed(cfg, s), SYSTEM_EXISTS_TAG, EXISTS_DOMAIN) < EXISTS_THRESHOLD
}

pub open spec fn spec_star_type(cfg: WorldConfig, s: SystemCoord) -> u64 {
    spec_attribute(spec_system_seed(cfg, s), STAR_TYPE_TAG, STAR_TYPE_DOMAIN)
}

/// The star's category, one of `STAR_TYPE_DOMAIN` kinds.
pub fn star_type(cfg: &WorldConfig, s: &SystemCoord) -> (r: u64)
    ensures
        r == spec_star_type(*cfg, *s),
        r < STAR_TYPE_DOMAIN,
{
    derive_attribute(system_seed(cfg, s), STAR_TYPE_TAG, STAR_TYPE_DOMAIN)
}

pub open spec fn spec_planet_count(cfg: WorldConfig, s: SystemCoord) -> u64 {
    spec_attribute(spec_system_seed(cfg, s), PLANET_COUNT_TAG, PLANET_COUNT_DOMAIN)
}

/// How many orbit slots the system fills.
pub fn planet_count(cfg: &WorldConfig, s: &SystemCoord) -> (r: u64)
    ensures
        r == spec_planet_count(*cfg, *s),
        r < PLANET_COUNT_DOMAIN,
{
    derive_attribute(system_seed(cfg, s), PLANET_COUNT_TAG, PLANET_COUNT_DOMAIN)
}

pub open spec fn spec_planet_type(cfg: WorldConfig, p: PlanetAddress) -> u64 {
    spec_attribute(spec_planet_seed(cfg, p), PLANET_TYPE_TAG, PLANET_TYPE_DOMAIN)
}

pub fn planet_type(cfg: &WorldConfig, p: &PlanetAddress) -> (r: u64)
    ensures
        r == spec_planet_type(*cfg, *p),
        r < PLANET_TYPE_DOMAIN,
{
    derive_attribute(planet_seed(cfg, p), PLANET_TYPE_TAG, PLANET_TYPE_DOMAIN)
}

pub open spec fn spec_tile_height(cfg: WorldConfig, t: TileAddress) -> u64 {
    spec_attribute(spec_tile_seed(cfg, t), TILE_HEIGHT_TAG, TILE_HEIGHT_DOMAIN)
}

pub fn tile_height(cfg: &WorldConfig, t: &TileAddress) -> (r: u64)
    ensures
        r == spec_tile_height(*cfg, *t),
        r < TILE_HEIGHT_DOMAIN,
{
    derive_attribute(tile_seed(cfg, t), TILE_HEIGHT_TAG, TILE_HEIGHT_DOMAIN)
}

pub open spec fn spec_tile_biome(cfg: WorldConfig, t: TileAddress) -> u64 {
    spec_attribute(spec_tile_seed(cfg, t), TILE_BIOME_TAG, TILE_BIOME_DOMAIN)
}

pub fn tile_biome(cfg: &WorldConfig, t: &TileAddress) -> (r: u64)
    ensures
        r == spec_tile_biome(*cfg, *t),
        r < TILE_BIOME_DOMAIN,
{
    derive_attribute(tile_seed(cfg, t), TILE_BIOME_TAG, TILE_BIOME_DOMAIN)
}

/// Structural validity of an address: tile coordinates inside the face
/// grid, the orbit slot inside the system's derived planet count.
pub open spec fn spec_address_valid(cfg: WorldConfig, a: WorldAddress) -> bool {
    match a {
        WorldAddress::Galaxy => true,
        WorldAddress::System(_) => true,
        WorldAddress::Planet(p) => (p.orbit_index as u64) < spec_planet_count(cfg, p.system),
        WorldAddress::Tile(t) => {
            &&& (t.planet.orbit_index as u64) < spec_planet_count(cfg, t.planet.system)
            &&& t.face < GEN_FACE_COUNT
            &&& t.u < GEN_TILE_GRID
            &&& t.v < GEN_TILE_GRID
        },
    }
}

/// Validates an address, rejecting out-of-range coordinates and orbit
/// references beyond the system's derived planet count.
pub fn validate_address(cfg: &WorldConfig, a: &WorldAddress) -> (r: Result<(), ApiError>)
    ensures
        r is Ok <==> spec_address_valid(*cfg, *a),
        (r matches Err(e) ==> e is BadRequest),
{
    match a {
        WorldAddress::Galaxy => Ok(()),
        WorldAddress::System(_) => Ok(()),
        WorldAddress::Planet(p) => {
            if (p.orbit_index as u64) < planet_count(cfg, &p.system) {
                Ok(())
            } else {
                Err(ApiError::BadRequest("orbit index beyond planet count"))
            }
        },
        WorldAddress::Tile(t) => {
            if (t.planet.orbit_index as u64) >= planet_count(cfg, &t.planet.system) {
                Err(ApiError::BadRequest("orbit index beyond planet count"))
            } else if t.face >= GEN_FACE_COUNT {
                Err(ApiError::BadRequest("face out of range"))
            } else if t.u >= GEN_TILE_GRID || t.v >= GEN_TILE_GRID {
                Err(ApiError::BadRequest("tile coordinate out of range"))
            } else {
                Ok(())
            }
        },
    }
}

/// Generation is deterministic: the derived seed and every derived
/// attribute are functions of the configuration and the address alone,
/// so equal inputs agree exactly — across repeated calls, across
/// processes, and across restarts.
pub proof fn lemma_generation_deterministic(
    cfg1: WorldConfig,
    cfg2: WorldConfig,
    a1: WorldAddress,
    a2: WorldAddress,
    attribute_tag: u64,
    domain: u64,
)
    requires
        cfg1 == cfg2,
        a1 == a2,
    ensures
        spec_address_seed(cfg1, a1) == spec_address_seed(cfg2, a2),
        spec_attribute(spec_address_seed(cfg1, a1), attribute_tag, domain) == spec_attribute(
            spec_address_seed(cfg2, a2),
            attribute_tag,
            domain,
        ),
{
}

} // verus!
