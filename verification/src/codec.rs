//! The wire format of encounter events: a fixed JSON shape, produced by
//! a verified encoder character for character. The encoding is the
//! library's own logic; transports relay the string as it is.

use vstd::prelude::*;
use vstd::string::StringExecFns;
use crate::location::{Location, EncounterEvent, loc_valid, event_valid};

verus! {

/// The decimal digit character for `d` in `0 ..= 9`.
pub open spec fn spec_digit_char(d: int) -> char {
    if d == 0 {
        '0'
    } else if d == 1 {
        '1'
    } else if d == 2 {
        '2'
    } else if d == 3 {
        '3'
    } else if d == 4 {
        '4'
    } else if d == 5 {
        '5'
    } else if d == 6 {
        '6'
    } else if d == 7 {
        '7'
    } else if d == 8 {
        '8'
    } else {
        '9'
    }
}

/// The decimal digit string of a non-negative number, most significant
/// digit first, without leading zeroes (a single `0` for zero).
pub open spec fn spec_dec_digits(n: int) -> Seq<char>
    recommends
        n >= 0,
    decreases n,
{
    if n < 10 {
        seq![spec_digit_char(n)]
    } else {
        spec_dec_digits(n / 10).push(spec_digit_char(n % 10))
    }
}

/// One decimal digit as a string slice.
fn digit_str(d: u64) -> (r: &'static str)
    requires
        d < 10,
    ensures
        r@ == seq![spec_digit_char(d as int)],
{
    let s: &'static str = if d == 0 {
        "0"
    } else if d == 1 {
        "1"
    } else if d == 2 {
        "2"
    } else if d == 3 {
        "3"
    } else if d == 4 {
        "4"
    } else if d == 5 {
        "5"
    } else if d == 6 {
        "6"
    } else if d == 7 {
        "7"
    } else if d == 8 {
        "8"
    } else {
        "9"
    };
    proof {
        reveal_strlit("0");
        reveal_strlit("1");
        reveal_strlit("2");
        reveal_strlit("3");
        reveal_strlit("4");
        reveal_strlit("5");
        reveal_strlit("6");
        reveal_strlit("7");
        reveal_strlit("8");
        reveal_strlit("9");
        assert(s@ =~= seq![spec_digit_char(d as int)]);
    }
    s
}

/// Renders a number in decimal.
pub fn u64_to_dec(n: u64) -> (r: String)
    ensures
        r@ == spec_dec_digits(n as int),
    decreases n,
{
    if n < 10 {
        digit_str(n).to_owned()
    } else {
        let mut s = u64_to_dec(n / 10);
        s.append(digit_str(n % 10));
        proof {
            assert((n / 10) as int == (n as int) / 10);
            assert((n % 10) as int == (n as int) % 10);
            assert(s@ =~= spec_dec_digits(n as int));
        }
        s
    }
}

/// Renders a non-negative signed number in decimal.
pub fn i64_to_dec(n: i64) -> (r: String)
    requires
        n >= 0,
    ensures
        r@ == spec_dec_digits(n as int),
{
    u64_to_dec(n as u64)
}

/// The JSON rendering of a location, keyed by its `location_type` tag.
pub open spec fn spec_location_json(l: Location) -> Seq<char>
    recommends
        loc_valid(l),
{
    match l {
        Location::PlanetSurface { planet_id, face, u, v } => "{\"location_type\":\"PLANET_SURFACE\",\"planet_id\":"@
            + spec_dec_digits(planet_id as int) + ",\"face\":"@ + spec_dec_digits(face as int)
            + ",\"u\":"@ + spec_dec_digits(u as int) + ",\"v\":"@ + spec_dec_digits(v as int)
            + "}"@,
        Location::Orbit { planet_id } => "{\"location_type\":\"ORBIT\",\"planet_id\":"@
            + spec_dec_digits(planet_id as int) + "}"@,
        Location::Space { system_id } => "{\"location_type\":\"SPACE\",\"system_id\":"@
            + spec_dec_digits(system_id as int) + "}"@,
    }
}

/// Renders a valid location as JSON.
pub fn location_json(l: &Location) -> (r: String)
    requires
        loc_valid(*l),
    ensures
        r@ == spec_location_json(*l),
{
    match *l {
        Location::PlanetSurface { planet_id, face, u, v } => {
            let mut s = "{\"location_type\":\"PLANET_SURFACE\",\"planet_id\":".to_owned();
            s.append(i64_to_dec(planet_id).as_str());
            s.append(",\"face\":");
            s.append(u64_to_dec(face as u64).as_str());
            s.append(",\"u\":");
            s.append(u64_to_dec(u as u64).as_str());
            s.append(",\"v\":");
            s.append(u64_to_dec(v as u64).as_str());
            s.append("}");
            proof {
                assert(s@ =~= spec_location_json(*l));
            }
            s
        },
        Location::Orbit { planet_id } => {
            let mut s = "{\"location_type\":\"ORBIT\",\"planet_id\":".to_owned();
            s.append(i64_to_dec(planet_id).as_str());
            s.append("}");
            proof {
                assert(s@ =~= spec_location_json(*l));
            }
            s
        },
        Location::Space { system_id } => {
            let mut s = "{\"location_type\":\"SPACE\",\"system_id\":".to_owned();
            s.append(i64_to_dec(system_id).as_str());
            s.append("}");
            proof {
                assert(s@ =~= spec_location_json(*l));
            }
            s
        },
    }
}

/// The JSON rendering of an encounter event: its fixed `"encounter"`
/// type tag, both players, and the location of contact.
pub open spec fn spec_event_json(e: EncounterEvent) -> Seq<char>
    recommends
        event_valid(e),
{
    "{\"type\":\"encounter\",\"player_a\":"@ + spec_dec_digits(e.player_a as int) + ",\"player_b\":"@
        + spec_dec_digits(e.player_b as int) + ",\"location\":"@ + spec_location_json(e.location)
        + "}"@
}

/// Renders a valid encounter event as JSON.
pub fn event_json(e: &EncounterEvent) -> (r: String)
    requires
        event_valid(*e),
    ensures
        r@ == spec_event_json(*e),
{
    let mut s = "{\"type\":\"encounter\",\"player_a\":".to_owned();
    s.append(i64_to_dec(e.player_a).as_str());
    s.append(",\"player_b\":");
    s.append(i64_to_dec(e.player_b).as_str());
    s.append(",\"location\":");
    s.append(location_json(&e.location).as_str());
    s.append("}");
    proof {
        assert(s@ =~= spec_event_json(*e));
    }
    s
}

} // verus!
