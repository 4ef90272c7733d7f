//! The beacon decoder: validation and interpretation of one device's
//! manufacturer-data record as a Tilt hydrometer reading.
//!
//! A well-formed record is keyed by company identifier `0x004C` and its
//! payload is exactly 23 bytes: byte 0 the sub-type `0x02`, byte 1 the
//! sub-length `0x15`, bytes 2..18 the 16-byte device identifier, bytes
//! 18..20 the big-endian `major` field (whole degrees Fahrenheit), bytes
//! 20..22 the big-endian `minor` field (thousandths of specific gravity),
//! and byte 22 the signal-power byte, which decoding ignores.
//!
//! Floating-point values never appear here: a reading keeps the exact
//! integer fields of the wire format. Temperature in Celsius is
//! `(fahrenheit - 32) / 1.8` and specific gravity is `milli_gravity / 1000`;
//! display layers perform those divisions.

use vstd::prelude::*;

use crate::catalog;
use std::collections::HashMap;

verus! {

/// The company identifier under which the beacon payload is keyed.
pub const BEACON_COMPANY_ID: u16 = 76;

/// Required value of payload byte 0 (the sub-type).
pub const BEACON_SUB_TYPE: u8 = 2;

/// Required value of payload byte 1 (the sub-length).
pub const BEACON_SUB_LENGTH: u8 = 21;

/// Exact payload length of a beacon frame.
pub const BEACON_FRAME_LEN: usize = 23;

/// Least `major` value whose derived Celsius temperature is not negative:
/// 32 degrees Fahrenheit is 0 degrees Celsius.
pub const MIN_FAHRENHEIT: u16 = 32;

/// Least `major` value whose derived Celsius temperature is too high:
/// 212 degrees Fahrenheit is 100 degrees Celsius.
pub const MAX_FAHRENHEIT: u16 = 212;

/// Least acceptable `minor` value: 900 thousandths is a specific gravity
/// of 0.9.
pub const MIN_MILLI_GRAVITY: u16 = 900;

/// Least `minor` value that is too high: 1100 thousandths is a specific
/// gravity of 1.1.
pub const MAX_MILLI_GRAVITY: u16 = 1100;

/// Why a manufacturer-data record failed to decode as a Tilt reading.
#[derive(Debug, Clone, Copy, PartialEq, Eq, Structural)]
pub enum Error {
    /// The record is absent or structurally malformed.
    NotIbeacon,
    /// A well-formed iBeacon frame whose identifier no catalog entry has.
    NotATilt,
    /// The `major` field lies outside the plausible temperature range.
    UnexpectedTempValue,
    /// The `minor` field lies outside the plausible gravity range.
    UnexpectedGravityValue,
}

impl Error {
    /// A short description of the error, as its display form.
    pub fn message(&self) -> (r: &'static str)
        ensures
            r@ == self.spec_message(),
    {
        match self {
            Error::NotIbeacon => "Not an ibeacon device",
            Error::NotATilt => "Not a tilt",
            Error::UnexpectedTempValue => "Unexpected temp value",
            Error::UnexpectedGravityValue => "Unexpected gravity value",
        }
    }

    /// The description returned by `message`.
    pub open spec fn spec_message(self) -> Seq<char> {
        match self {
            Error::NotIbeacon => "Not an ibeacon device"@,
            Error::NotATilt => "Not a tilt"@,
            Error::UnexpectedTempValue => "Unexpected temp value"@,
            Error::UnexpectedGravityValue => "Unexpected gravity value"@,
        }
    }
}

/// One validated reading. A value of this type exists only if its source
/// bytes passed every structural and numeric-range check of the decoder.
#[derive(Debug)]
pub struct Tilt {
    /// The colour name resolved from the device identifier.
    pub name: String,
    /// The catalog index of the device identifier.
    pub color: usize,
    /// The `major` field: whole degrees Fahrenheit.
    pub fahrenheit: u16,
    /// The `minor` field: thousandths of specific gravity.
    pub milli_gravity: u16,
}

impl Tilt {
    /// What every decoded reading satisfies.
    pub open spec fn wf(self) -> bool {
        &&& 0 <= self.color < catalog::CATALOG_LEN
        &&& self.name@ == catalog::spec_color_name(self.color as int)
        &&& MIN_FAHRENHEIT <= self.fahrenheit < MAX_FAHRENHEIT
        &&& MIN_MILLI_GRAVITY <= self.milli_gravity < MAX_MILLI_GRAVITY
    }

    /// The reading's gravity after adding a calibration offset, still in
    /// thousandths. The offset is applied after decoding and is not
    /// itself range-checked.
    pub fn calibrated_milli_gravity(&self, offset_milli: i32) -> (r: i64)
        ensures
            r == self.milli_gravity + offset_milli,
    {
        self.milli_gravity as i64 + offset_milli as i64
    }
}

/// Whether the payload has the exact shape of a beacon frame: 23 bytes,
/// sub-type 2, sub-length 21.
pub open spec fn spec_frame_ok(payload: Seq<u8>) -> bool {
    &&& payload.len() == BEACON_FRAME_LEN
    &&& payload[0] == BEACON_SUB_TYPE
    &&& payload[1] == BEACON_SUB_LENGTH
}

/// The 16-byte device identifier of a frame.
pub open spec fn spec_ident(payload: Seq<u8>) -> Seq<u8> {
    payload.subrange(2, 18)
}

/// The big-endian `major` field of a frame.
pub open spec fn spec_major(payload: Seq<u8>) -> int {
    payload[18] * 256 + payload[19]
}

/// The big-endian `minor` field of a frame.
pub open spec fn spec_minor(payload: Seq<u8>) -> int {
    payload[20] * 256 + payload[21]
}

/// The decoder as a mathematical function, over the raw company identifier
/// and payload bytes. On success it yields the catalog index, the `major`
/// field and the `minor` field; the checks run in the order: manufacturer,
/// frame shape, identity, temperature, gravity.
pub open spec fn spec_decode(company_id: u16, payload: Seq<u8>) -> Result<(int, int, int), Error> {
    if company_id != BEACON_COMPANY_ID {
        Err(Error::NotIbeacon)
    } else if !spec_frame_ok(payload) {
        Err(Error::NotIbeacon)
    } else {
        match catalog::spec_lookup(spec_ident(payload)) {
            None => Err(Error::NotATilt),
            Some(color) => {
                let major = spec_major(payload);
                let minor = spec_minor(payload);
                if !(MIN_FAHRENHEIT <= major < MAX_FAHRENHEIT) {
                    Err(Error::UnexpectedTempValue)
                } else if !(MIN_MILLI_GRAVITY <= minor < MAX_MILLI_GRAVITY) {
                    Err(Error::UnexpectedGravityValue)
                } else {
                    Ok((color, major, minor))
                }
            },
        }
    }
}

/// Whether an executable decode result carries exactly what the
/// mathematical decoder says: the same error, or a well-formed reading
/// with the resolved name and the exact wire fields.
pub open spec fn decode_matches(r: Result<Tilt, Error>, s: Result<(int, int, int), Error>) -> bool {
    match (r, s) {
        (Ok(t), Ok((color, major, minor))) => {
            &&& t.wf()
            &&& t.color == color
            &&& t.fahrenheit == major
            &&& t.milli_gravity == minor
        },
        (Err(e), Err(f)) => e == f,
        _ => false,
    }
}

/// The decoder over the record of one company: the `Ok` payload of
/// `ibeacon`. Extraction of the 0x004C record itself is `Tilt::try_from`.
pub fn decode(company_id: u16, payload: &Vec<u8>) -> (r: Result<Tilt, Error>)
    ensures
        decode_matches(r, spec_decode(company_id, payload@)),
{
    if company_id != BEACON_COMPANY_ID {
        return Err(Error::NotIbeacon);
    }
    if payload.len() != BEACON_FRAME_LEN {
        return Err(Error::NotIbeacon);
    }
    if payload[0] != BEACON_SUB_TYPE || payload[1] != BEACON_SUB_LENGTH {
        return Err(Error::NotIbeacon);
    }
    let ident: &[u8] = &payload.as_slice()[2..18];
    let color = match catalog::lookup(ident) {
        None => {
            return Err(Error::NotATilt);
        },
        Some(c) => c,
    };
    let fahrenheit = be_u16(payload, 18);
    if fahrenheit < MIN_FAHRENHEIT || fahrenheit >= MAX_FAHRENHEIT {
        return Err(Error::UnexpectedTempValue);
    }
    let milli_gravity = be_u16(payload, 20);
    if milli_gravity < MIN_MILLI_GRAVITY || milli_gravity >= MAX_MILLI_GRAVITY {
        return Err(Error::UnexpectedGravityValue);
    }
    let name = catalog::color_name(color);
    Ok(Tilt { name, color, fahrenheit, milli_gravity })
}

/// The big-endian 16-bit field at bytes `i` and `i + 1`.
fn be_u16(payload: &Vec<u8>, i: usize) -> (r: u16)
    requires
        i + 1 < payload@.len(),
    ensures
        r == payload@[i as int] * 256 + payload@[i as int + 1],
{
    let n = payload.len();
    assert(i + 1 < n);
    (payload[i] as u16) * 256 + (payload[i + 1] as u16)
}

/// The 0x004C record of one device's manufacturer data, when it has the
/// exact shape of a beacon frame; `Error::NotIbeacon` when the record is
/// absent or malformed.
pub fn ibeacon(d: &HashMap<u16, Vec<u8>>) -> (r: Result<Vec<u8>, Error>)
    ensures
        match r {
            Ok(v) => d@.contains_key(BEACON_COMPANY_ID) && v@ == d@[BEACON_COMPANY_ID]@
                && spec_frame_ok(v@),
            Err(e) => {
                &&& e == Error::NotIbeacon
                &&& !(d@.contains_key(BEACON_COMPANY_ID) && spec_frame_ok(
                    d@[BEACON_COMPANY_ID]@,
                ))
            },
        },
{
    broadcast use vstd::std_specs::hash::group_hash_axioms;

    match d.get(&BEACON_COMPANY_ID) {
        None => Err(Error::NotIbeacon),
        Some(v) => {
            if v.len() != BEACON_FRAME_LEN {
                return Err(Error::NotIbeacon);
            }
            if v[0] != BEACON_SUB_TYPE || v[1] != BEACON_SUB_LENGTH {
                return Err(Error::NotIbeacon);
            }
            let copy = clone_bytes(v);
            Ok(copy)
        },
    }
}

fn clone_bytes(v: &Vec<u8>) -> (r: Vec<u8>)
    ensures
        r@ == v@,
{
    let mut r: Vec<u8> = Vec::new();
    let n = v.len();
    let mut i: usize = 0;
    while i < n
        invariant
            n == v@.len(),
            0 <= i <= n,
            r@ == v@.subrange(0, i as int),
        decreases n - i,
    {
        r.push(v[i]);
        proof {
            assert(r@ =~= v@.subrange(0, i + 1));
        }
        i += 1;
    }
    proof {
        assert(r@ =~= v@);
    }
    r
}

/// The decoder over one device's whole manufacturer data, keyed by company
/// identifier, as the scan loop receives it.
pub open spec fn spec_try_from(m: Map<u16, Vec<u8>>) -> Result<(int, int, int), Error> {
    if m.contains_key(BEACON_COMPANY_ID) {
        spec_decode(BEACON_COMPANY_ID, m[BEACON_COMPANY_ID]@)
    } else {
        Err(Error::NotIbeacon)
    }
}

impl Tilt {
    /// Decode one device's manufacturer data: find the 0x004C record,
    /// validate its shape, resolve the identifier against the catalog and
    /// range-check both numeric fields, in that order.
    pub fn try_from(manufacturer_data: &HashMap<u16, Vec<u8>>) -> (r: Result<Tilt, Error>)
        ensures
            decode_matches(r, spec_try_from(manufacturer_data@)),
    {
        broadcast use vstd::std_specs::hash::group_hash_axioms;

        match ibeacon(manufacturer_data) {
            Err(e) => Err(e),
            Ok(payload) => decode(BEACON_COMPANY_ID, &payload),
        }
    }
}

/// Any payload that is not exactly 23 bytes long is rejected as not an
/// iBeacon, whatever its bytes.
pub proof fn lemma_wrong_length_rejected(payload: Seq<u8>)
    requires
        payload.len() != BEACON_FRAME_LEN,
    ensures
        spec_decode(BEACON_COMPANY_ID, payload) == Err::<(int, int, int), Error>(
            Error::NotIbeacon,
        ),
{
}

/// Any company identifier other than 0x004C is rejected as not an
/// iBeacon, whatever the payload.
pub proof fn lemma_wrong_company_rejected(company_id: u16, payload: Seq<u8>)
    requires
        company_id != BEACON_COMPANY_ID,
    ensures
        spec_decode(company_id, payload) == Err::<(int, int, int), Error>(Error::NotIbeacon),
{
}

/// A 23-byte payload whose sub-type byte is not 2 or whose sub-length
/// byte is not 21 is rejected as not an iBeacon.
pub proof fn lemma_bad_header_rejected(payload: Seq<u8>)
    requires
        payload.len() == BEACON_FRAME_LEN,
        payload[0] != BEACON_SUB_TYPE || payload[1] != BEACON_SUB_LENGTH,
    ensures
        spec_decode(BEACON_COMPANY_ID, payload) == Err::<(int, int, int), Error>(
            Error::NotIbeacon,
        ),
{
}

/// A well-formed frame whose identifier no catalog entry has is rejected
/// as not a Tilt, whatever its numeric fields hold.
pub proof fn lemma_unknown_identifier_rejected(payload: Seq<u8>)
    requires
        spec_frame_ok(payload),
        forall|c: int|
            0 <= c < catalog::CATALOG_LEN ==> spec_ident(payload) != catalog::spec_catalog_id(c),
    ensures
        spec_decode(BEACON_COMPANY_ID, payload) == Err::<(int, int, int), Error>(Error::NotATilt),
{
}

/// Temperature bounds: a frame with a recognized identifier is rejected
/// with `UnexpectedTempValue` exactly when the Celsius temperature derived
/// from its `major` field is negative or at least 100. Celsius is
/// `(major - 32) / 1.8`, so nine times the Celsius value is
/// `5 * (major - 32)`, and the bound `0 <= Celsius < 100` is
/// `0 <= 5 * (major - 32) < 900`.
pub proof fn lemma_temperature_bounds(payload: Seq<u8>)
    requires
        spec_frame_ok(payload),
        catalog::spec_lookup(spec_ident(payload)) is Some,
    ensures
        spec_decode(BEACON_COMPANY_ID, payload) == Err::<(int, int, int), Error>(
            Error::UnexpectedTempValue,
        ) <==> (5 * (spec_major(payload) - 32) < 0 || 5 * (spec_major(payload) - 32) >= 900),
{
}

/// Gravity bounds: a frame with a recognized identifier and an acceptable
/// temperature is rejected with `UnexpectedGravityValue` exactly when the
/// gravity derived from its `minor` field lies outside [0.9, 1.1), that
/// is, when a thousand times the gravity lies outside [900, 1100).
pub proof fn lemma_gravity_bounds(payload: Seq<u8>)
    requires
        spec_frame_ok(payload),
        catalog::spec_lookup(spec_ident(payload)) is Some,
        MIN_FAHRENHEIT <= spec_major(payload) < MAX_FAHRENHEIT,
    ensures
        spec_decode(BEACON_COMPANY_ID, payload) == Err::<(int, int, int), Error>(
            Error::UnexpectedGravityValue,
        ) <==> !(900 <= spec_minor(payload) < 1100),
{
}

/// Decoding succeeds exactly when every check passes: right company,
/// well-shaped frame, recognized identifier, and both numeric fields in
/// range; the decoded fields are then the wire fields themselves.
pub proof fn lemma_decode_success(company_id: u16, payload: Seq<u8>)
    ensures
        spec_decode(company_id, payload) is Ok <==> {
            &&& company_id == BEACON_COMPANY_ID
            &&& spec_frame_ok(payload)
            &&& catalog::spec_lookup(spec_ident(payload)) is Some
            &&& MIN_FAHRENHEIT <= spec_major(payload) < MAX_FAHRENHEIT
            &&& MIN_MILLI_GRAVITY <= spec_minor(payload) < MAX_MILLI_GRAVITY
        },
        spec_decode(company_id, payload) matches Ok((color, major, minor)) ==> {
            &&& catalog::spec_lookup(spec_ident(payload)) == Some(color)
            &&& major == spec_major(payload)
            &&& minor == spec_minor(payload)
        },
{
}

/// The decoder is pure: it is a function of the company identifier and
/// the payload bytes alone, so identical inputs always yield identical
/// results.
pub proof fn lemma_decode_deterministic(company_id: u16, p1: Seq<u8>, p2: Seq<u8>)
    requires
        p1 == p2,
    ensures
        spec_decode(company_id, p1) == spec_decode(company_id, p2),
{
}

} // verus!
