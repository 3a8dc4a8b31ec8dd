use sci4x::worldgen::{
    WorldConfig, SystemCoord, PlanetAddress, TileAddress, WorldAddress, mix64, hash_step,
    derive_seed, derive_attribute, address_seed, system_exists, star_type, planet_count,
    planet_type, tile_height, tile_biome, validate_address, coord_bits,
};

fn cfg() -> WorldConfig {
    WorldConfig { world_seed: 12345, version: 1 }
}

fn tile(gx: i64, gy: i64, gz: i64, orbit: u32, face: u32, u: u32, v: u32) -> TileAddress {
    TileAddress {
        planet: PlanetAddress { system: SystemCoord { gx, gy, gz }, orbit_index: orbit },
        face,
        u,
        v,
    }
}

#[test]
fn determinism_repeated_calls_agree() {
    let c = cfg();
    let a = WorldAddress::Tile(tile(-3, 7, 2, 1, 0, 3, 3));
    let s1 = address_seed(&c, &a);
    let s2 = address_seed(&c, &a);
    assert_eq!(s1, s2);
    assert_eq!(derive_attribute(s1, 101, 256), derive_attribute(s2, 101, 256));
    let t = tile(-3, 7, 2, 1, 0, 3, 3);
    assert_eq!(tile_height(&c, &t), tile_height(&c, &t));
    assert_eq!(tile_biome(&c, &t), tile_biome(&c, &t));
}

#[test]
fn different_world_seeds_disagree_somewhere() {
    let c1 = WorldConfig { world_seed: 1, version: 1 };
    let c2 = WorldConfig { world_seed: 2, version: 1 };
    let mut differing = 0;
    for gx in 0..32i64 {
        let s = SystemCoord { gx, gy: 0, gz: 0 };
        if star_type(&c1, &s) != star_type(&c2, &s) {
            differing += 1;
        }
    }
    assert!(differing > 0);
}

#[test]
fn mixer_zero_fixed_point() {
    // Every round of the mixer maps zero to zero, so the zero seed and
    // tag reduce to zero in any domain.
    assert_eq!(mix64(0), 0);
    assert_eq!(hash_step(0, 0), 0);
    assert_eq!(derive_attribute(0, 0, 100), 0);
}

#[test]
fn derive_seed_folds_coordinates() {
    let coords = vec![4u64, 12, 9];
    let s = derive_seed(777, 100, &coords);
    let mut acc = hash_step(777, 100);
    for c in coords {
        acc = hash_step(acc, c);
    }
    assert_eq!(s, acc);
}

#[test]
fn coord_bits_is_twos_complement() {
    assert_eq!(coord_bits(0), 0);
    assert_eq!(coord_bits(5), 5);
    assert_eq!(coord_bits(-1), u64::MAX);
    assert_eq!(coord_bits(-2), u64::MAX - 1);
}

#[test]
fn attributes_stay_in_domain() {
    let c = cfg();
    for gx in -5..5i64 {
        let s = SystemCoord { gx, gy: gx + 1, gz: -gx };
        assert!(star_type(&c, &s) < 5);
        assert!(planet_count(&c, &s) < 12);
        let p = PlanetAddress { system: s, orbit_index: 0 };
        assert!(planet_type(&c, &p) < 8);
        let t = TileAddress { planet: p, face: 2, u: 10, v: 20 };
        assert!(tile_height(&c, &t) < 256);
        assert!(tile_biome(&c, &t) < 8);
    }
}

#[test]
fn exists_matches_threshold() {
    let c = cfg();
    let s = SystemCoord { gx: 4, gy: -2, gz: 9 };
    let seed = address_seed(&c, &WorldAddress::System(s));
    let draw = derive_attribute(seed, 11, 100);
    assert_eq!(system_exists(&c, &s), draw < 30);
}

#[test]
fn validate_address_rejects_out_of_range() {
    let c = cfg();
    let sys = SystemCoord { gx: 0, gy: 0, gz: 0 };
    assert!(validate_address(&c, &WorldAddress::Galaxy).is_ok());
    assert!(validate_address(&c, &WorldAddress::System(sys)).is_ok());
    // A face beyond the cube and a tile coordinate beyond the grid.
    let bad_face = tile(0, 0, 0, 0, 6, 0, 0);
    let count = planet_count(&c, &sys) as u32;
    if count > 0 {
        assert!(validate_address(&c, &WorldAddress::Tile(bad_face)).is_err());
        let bad_u = tile(0, 0, 0, 0, 0, 64, 0);
        assert!(validate_address(&c, &WorldAddress::Tile(bad_u)).is_err());
        let good = tile(0, 0, 0, 0, 0, 3, 3);
        assert!(validate_address(&c, &WorldAddress::Tile(good)).is_ok());
    }
    // An orbit slot at the derived planet count is out of range.
    let bad_orbit = PlanetAddress { system: sys, orbit_index: count };
    assert!(validate_address(&c, &WorldAddress::Planet(bad_orbit)).is_err());
}

#[test]
fn avalanche_adjacent_tiles_uncorrelated() {
    // Heights of tiles adjacent in `u` show no linear correlation.
    let c = cfg();
    let mut xs: Vec<f64> = Vec::new();
    let mut ys: Vec<f64> = Vec::new();
    for gx in 0..10i64 {
        for u in 0..20u32 {
            let a = tile(gx, 0, 0, 0, 0, u, 5);
            let b = tile(gx, 0, 0, 0, 0, u + 1, 5);
            xs.push(tile_height(&c, &a) as f64);
            ys.push(tile_height(&c, &b) as f64);
        }
    }
    let n = xs.len() as f64;
    let mx = xs.iter().sum::<f64>() / n;
    let my = ys.iter().sum::<f64>() / n;
    let mut cov = 0.0;
    let mut vx = 0.0;
    let mut vy = 0.0;
    for i in 0..xs.len() {
        cov += (xs[i] - mx) * (ys[i] - my);
        vx += (xs[i] - mx) * (xs[i] - mx);
        vy += (ys[i] - my) * (ys[i] - my);
    }
    let r = cov / (vx.sqrt() * vy.sqrt());
    assert!(r.abs() < 0.25, "correlation too strong: {}", r);
}
