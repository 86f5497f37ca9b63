use vstd::prelude::*;
use vstd::string::*;

verus! {

/// The error type of the `geohash` crate, carried through as it comes.
#[verifier::external_type_specification]
#[verifier::external_body]
pub struct ExGeohashError(::geohash::GeohashError);

/// The eight directions in which a cell has a neighbour.
#[derive(Debug, Clone, Copy, PartialEq, Eq, Structural)]
pub enum Direction {
    N,
    NE,
    E,
    SE,
    S,
    SW,
    W,
    NW,
}

/// Why a request was turned down.
#[derive(Debug)]
pub enum GeoError {
    /// The precision is not one of 1 to 12.
    InvalidPrecision,
    /// The direction code is not one of 0 to 7.
    InvalidDirection,
    /// The text is not a geohash.
    InvalidHash,
    /// The `geohash` crate refused the request.
    Library(::geohash::GeohashError),
}

/// The precisions that a geohash can have: its length in characters.
pub open spec fn is_precision(precision: int) -> bool {
    1 <= precision <= 12
}

/// The direction that a code stands for: the compass clockwise from
/// north, 0 to 7.
pub open spec fn direction_of(code: int) -> Option<Direction> {
    if code == 0 {
        Some(Direction::N)
    } else if code == 1 {
        Some(Direction::NE)
    } else if code == 2 {
        Some(Direction::E)
    } else if code == 3 {
        Some(Direction::SE)
    } else if code == 4 {
        Some(Direction::S)
    } else if code == 5 {
        Some(Direction::SW)
    } else if code == 6 {
        Some(Direction::W)
    } else if code == 7 {
        Some(Direction::NW)
    } else {
        None
    }
}

/// The geohash alphabet: the digits and the lower-case letters without
/// `a`, `i`, `l` and `o`.
pub open spec fn is_hash_char(c: char) -> bool {
    ('0' <= c <= '9') || ('b' <= c <= 'z' && c != 'i' && c != 'l' && c != 'o')
}

/// The texts that are geohashes: 1 to 12 characters of the alphabet.
pub open spec fn is_hash_text(text: Seq<char>) -> bool {
    &&& 1 <= text.len() <= 12
    &&& forall|i: int| 0 <= i < text.len() ==> is_hash_char(#[trigger] text[i])
}

/// The neighbour of a cell in a direction, as the `geohash` crate
/// computes it; `None` where the crate refuses.
pub uninterp spec fn neighbor_cell(hash: Seq<char>, direction: Direction) -> Option<Seq<char>>;

/// The eight neighbours of a cell.
pub struct Neighborhood {
    pub n: String,
    pub ne: String,
    pub e: String,
    pub se: String,
    pub s: String,
    pub sw: String,
    pub w: String,
    pub nw: String,
}

impl Neighborhood {
    /// The neighbour in a direction.
    pub open spec fn toward(&self, direction: Direction) -> Seq<char> {
        match direction {
            Direction::N => self.n@,
            Direction::NE => self.ne@,
            Direction::E => self.e@,
            Direction::SE => self.se@,
            Direction::S => self.s@,
            Direction::SW => self.sw@,
            Direction::W => self.w@,
            Direction::NW => self.nw@,
        }
    }
}

/// `geohash::neighbor`. It decodes the cell, steps one cell's width in
/// the direction and encodes the place it reaches at the length of the
/// hash it was given, so what it returns is a geohash of that length.
/// An empty hash makes it shift a 64-bit integer by 64 places, which
/// panics where overflow is trapped: only a geohash may be handed in.
#[verifier::external_body]
fn library_neighbor(hash: &str, direction: Direction) -> (r: Result<String, ::geohash::GeohashError>)
    requires
        is_hash_text(hash@),
    ensures
        match r {
            Ok(cell) => neighbor_cell(hash@, direction) == Some(cell@) && is_hash_text(cell@)
                && cell@.len() == hash@.len(),
            Err(_) => neighbor_cell(hash@, direction) is None,
        },
{
    let toward = match direction {
        Direction::N => ::geohash::Direction::N,
        Direction::NE => ::geohash::Direction::NE,
        Direction::E => ::geohash::Direction::E,
        Direction::SE => ::geohash::Direction::SE,
        Direction::S => ::geohash::Direction::S,
        Direction::SW => ::geohash::Direction::SW,
        Direction::W => ::geohash::Direction::W,
        Direction::NW => ::geohash::Direction::NW,
    };
    ::geohash::neighbor(hash, toward)
}

/// `geohash::neighbors`. It asks `geohash::neighbor` for each of the
/// eight directions, returns the eight answers under their directions,
/// and fails where one of them fails. Each answer is, as there, a
/// geohash of the length of the hash that was handed in.
#[verifier::external_body]
fn library_neighbors(hash: &str) -> (r: Result<Neighborhood, ::geohash::GeohashError>)
    requires
        is_hash_text(hash@),
    ensures
        match r {
            Ok(cells) => forall|d: Direction|
                neighbor_cell(hash@, d) == Some(#[trigger] cells.toward(d)) && is_hash_text(
                    cells.toward(d),
                ) && cells.toward(d).len() == hash@.len(),
            Err(_) => exists|d: Direction| neighbor_cell(hash@, d) is None,
        },
{
    match ::geohash::neighbors(hash) {
        Ok(found) => Ok(Neighborhood {
            n: found.n, ne: found.ne, e: found.e, se: found.se,
            s: found.s, sw: found.sw, w: found.w, nw: found.nw,
        }),
        Err(e) => Err(e),
    }
}

/// Checks a precision before anything is encoded with it.
pub fn checked_precision(precision: i32) -> (r: Result<usize, GeoError>)
    ensures
        match r {
            Ok(length) => is_precision(precision as int) && length == precision,
            Err(e) => !is_precision(precision as int) && e is InvalidPrecision,
        },
{
    if precision < 1 || precision > 12 {
        return Err(GeoError::InvalidPrecision);
    }
    Ok(precision as usize)
}

/// Reads a direction code.
pub fn direction_from_code(direction: i32) -> (r: Option<Direction>)
    ensures
        r == direction_of(direction as int),
{
    match direction {
        0 => Some(Direction::N),
        1 => Some(Direction::NE),
        2 => Some(Direction::E),
        3 => Some(Direction::SE),
        4 => Some(Direction::S),
        5 => Some(Direction::SW),
        6 => Some(Direction::W),
        7 => Some(Direction::NW),
        _ => None,
    }
}

/// Decides whether a text is a geohash.
pub fn is_valid_hash(hash: &str) -> (ok: bool)
    ensures
        ok == is_hash_text(hash@),
{
    let length = hash.as_bytes().len();
    if !hash.is_ascii() {
        return false;
    }
    proof {
        vstd::utf8::is_ascii_chars_encode_utf8(hash@);
    }
    if length < 1 || length > 12 {
        return false;
    }
    let mut i: usize = 0;
    while i < length
        invariant
            0 <= i <= length,
            length == hash@.len(),
            forall|j: int| 0 <= j < i ==> is_hash_char(#[trigger] hash@[j]),
        decreases length - i,
    {
        let c = hash.get_char(i);
        let in_alphabet = ('0' <= c && c <= '9') || ('b' <= c && c <= 'z' && c != 'i' && c != 'l'
            && c != 'o');
        if !in_alphabet {
            return false;
        }
        i += 1;
    }
    true
}

/// Checks a hash before anything is decoded from it.
pub fn checked_hash(hash: &str) -> (r: Result<(), GeoError>)
    ensures
        match r {
            Ok(_) => is_hash_text(hash@),
            Err(e) => !is_hash_text(hash@) && e is InvalidHash,
        },
{
    if is_valid_hash(hash) {
        Ok(())
    } else {
        Err(GeoError::InvalidHash)
    }
}

/// The neighbour of a cell in the direction that a code stands for. The
/// code is looked at first, then the hash; only a geohash is handed on
/// to the `geohash` crate.
pub fn geohash_neighbor(hash_str: String, direction: i32) -> (r: Result<String, GeoError>)
    ensures
        match direction_of(direction as int) {
            None => r is Err && r->Err_0 is InvalidDirection,
            Some(toward) => if !is_hash_text(hash_str@) {
                r is Err && r->Err_0 is InvalidHash
            } else {
                match r {
                    Ok(cell) => neighbor_cell(hash_str@, toward) == Some(cell@) && is_hash_text(
                        cell@,
                    ) && cell@.len() == hash_str@.len(),
                    Err(e) => neighbor_cell(hash_str@, toward) is None && e is Library,
                }
            },
        },
{
    let dir = match direction_from_code(direction) {
        Some(dir) => dir,
        None => {
            return Err(GeoError::InvalidDirection);
        },
    };
    if !is_valid_hash(hash_str.as_str()) {
        return Err(GeoError::InvalidHash);
    }
    match library_neighbor(hash_str.as_str(), dir) {
        Ok(cell) => Ok(cell),
        Err(e) => Err(GeoError::Library(e)),
    }
}

/// The eight neighbours in the order of their direction codes.
pub fn ring_of(cells: Neighborhood) -> (ring: Vec<String>)
    ensures
        ring@.len() == 8,
        forall|code: int|
            0 <= code < 8 ==> (#[trigger] ring@[code])@ == cells.toward(
                direction_of(code).unwrap(),
            ),
{
    let mut ring: Vec<String> = Vec::with_capacity(8);
    ring.push(cells.n);
    ring.push(cells.ne);
    ring.push(cells.e);
    ring.push(cells.se);
    ring.push(cells.s);
    ring.push(cells.sw);
    ring.push(cells.w);
    ring.push(cells.nw);
    ring
}

/// All eight neighbours of a cell, in the order of their direction
/// codes: what `geohash_neighbor` gives for the codes 0 to 7.
pub fn geohash_neighbors(hash_str: String) -> (r: Result<Vec<String>, GeoError>)
    ensures
        if !is_hash_text(hash_str@) {
            r is Err && r->Err_0 is InvalidHash
        } else {
            match r {
                Ok(ring) => ring@.len() == 8 && forall|code: int|
                    0 <= code < 8 ==> {
                        &&& neighbor_cell(hash_str@, direction_of(code).unwrap()) == Some(
                            (#[trigger] ring@[code])@,
                        )
                        &&& is_hash_text(ring@[code]@)
                        &&& ring@[code]@.len() == hash_str@.len()
                    },
                Err(e) => e is Library && exists|d: Direction|
                    neighbor_cell(hash_str@, d) is None,
            }
        },
{
    if !is_valid_hash(hash_str.as_str()) {
        return Err(GeoError::InvalidHash);
    }
    match library_neighbors(hash_str.as_str()) {
        Ok(cells) => {
            let ghost found = cells;
            let ring = ring_of(cells);
            assert forall|code: int| 0 <= code < 8 implies {
                &&& neighbor_cell(hash_str@, direction_of(code).unwrap()) == Some(
                    (#[trigger] ring@[code])@,
                )
                &&& is_hash_text(ring@[code]@)
                &&& ring@[code]@.len() == hash_str@.len()
            } by {
                assert(ring@[code]@ == found.toward(direction_of(code).unwrap()));
            }
            Ok(ring)
        },
        Err(e) => Err(GeoError::Library(e)),
    }
}

} // verus!
