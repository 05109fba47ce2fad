//! Decoder for fixed-layout dungeon room records: a 20x8 tile grid, a
//! same-shaped object grid, a monster reference, six navigation exits, a
//! room id, and a length-prefixed room name, all at fixed byte offsets
//! within a 0x168-byte record.
use vstd::prelude::*;
use vstd::arithmetic::div_mod::lemma_fundamental_div_mod;
use crate::error::DecodeError;
use crate::pascal::{from_pascal_string, spec_from_pascal};

verus! {

pub const ROOM_WIDTH: u32 = 20;

pub const ROOM_HEIGHT: u32 = 8;

pub const ROOM_AREA: usize = 160;

pub const ROOM_RECORD_SIZE: usize = 0x168;

/// Raw tile values above this encode trap glyphs; they all display as the
/// fallback tile.
pub const TILE_TRAP_THRESHOLD: u8 = 84;

/// The tile every trap glyph collapses to.
pub const TILE_TRAP_FALLBACK: u8 = 21;

/// Classification of one cell of a room's object grid.
#[derive(Clone, Copy, Debug, PartialEq, Eq, Structural)]
pub enum ObjectType {
    Nothing,
    Monster,
    Object,
}

/// The mathematical content of a room record.
pub struct RoomView {
    pub unknown_a: u8,
    pub tiles: Seq<u8>,
    pub objects: Seq<u8>,
    pub monster_id: u8,
    pub monster_count: u8,
    pub nav_north: u8,
    pub nav_east: u8,
    pub nav_south: u8,
    pub nav_west: u8,
    pub nav_up: u8,
    pub nav_down: u8,
    pub id: u8,
    pub unknown_b: u8,
    pub unknown_c: u8,
    pub unknown_d: u8,
    pub name: Seq<char>,
}

/// A decoded dungeon room. The tile and object grids are row-major, 20 wide
/// and 8 high; a navigation field is 0 for "no exit" or a 1-based room index.
pub struct Room {
    unknown_a: u8,
    tiles: Vec<u8>,
    objects: Vec<u8>,
    pub monster_id: u8,
    monster_count: u8,
    pub nav_north: u8,
    pub nav_east: u8,
    pub nav_south: u8,
    pub nav_west: u8,
    pub nav_up: u8,
    pub nav_down: u8,
    id: u8,
    unknown_b: u8,
    unknown_c: u8,
    unknown_d: u8,
    pub name: String,
}

impl View for Room {
    type V = RoomView;

    closed spec fn view(&self) -> RoomView {
        RoomView {
            unknown_a: self.unknown_a,
            tiles: self.tiles@,
            objects: self.objects@,
            monster_id: self.monster_id,
            monster_count: self.monster_count,
            nav_north: self.nav_north,
            nav_east: self.nav_east,
            nav_south: self.nav_south,
            nav_west: self.nav_west,
            nav_up: self.nav_up,
            nav_down: self.nav_down,
            id: self.id,
            unknown_b: self.unknown_b,
            unknown_c: self.unknown_c,
            unknown_d: self.unknown_d,
            name: self.name@,
        }
    }
}

/// A raw tile byte as `get_tile` reports it: trap glyphs (any value above
/// the threshold) collapse to the fallback tile, anything else passes
/// through unchanged.
pub open spec fn spec_normalize_tile(t: u8) -> u8 {
    if t > TILE_TRAP_THRESHOLD {
        TILE_TRAP_FALLBACK
    } else {
        t
    }
}

/// Classification of a raw object-grid byte: 0 is nothing, letters up to
/// `'c'` mark a monster slot, letters above `'c'` an object.
pub open spec fn spec_object_type(v: u8) -> ObjectType {
    if v == 0 {
        ObjectType::Nothing
    } else if v <= 'c' as u8 {
        ObjectType::Monster
    } else {
        ObjectType::Object
    }
}

/// The fixed letter-to-sprite-index table for object-grid letters. Letters
/// with no sprite yet resolve to 0, which doubles as "no object".
pub open spec fn spec_object_tile(object: char) -> u8 {
    match object {
        'd' => 47,  // Magical darkness
        'e' => 21,  // Treasure chest
        'f' => 46,  // Smoke
        'g' => 29,  // Movable block
        'h' => 37,  // Door (vertical)
        'i' => 36,  // Door (horizontal)
        'l' => 42,  // Soft piece of wall
        'm' => 18,  // Soft pile of rubble
        'n' => 22,  // Old body
        'o' => 17,  // Old bones
        'p' => 49,  // Old stone coffin
        'q' => 54,  // Old grave
        'v' => 82,  // "Just some blood"
        _ => 0,
    }
}

/// Map an object-grid letter to its sprite index. Several letters are
/// intentionally unresolved and yield 0, the same value that means "no
/// sprite" elsewhere.
pub fn get_object_tile(object: char) -> (r: u8)
    ensures
        r == spec_object_tile(object),
{
    match object {
        'd' => 47,
        'e' => 21,
        'f' => 46,
        'g' => 29,
        'h' => 37,
        'i' => 36,
        'l' => 42,
        'm' => 18,
        'n' => 22,
        'o' => 17,
        'p' => 49,
        'q' => 54,
        'v' => 82,
        _ => 0,
    }
}

impl Room {
    /// Both grids cover the full 20x8 rectangle.
    pub open spec fn wf(&self) -> bool {
        self@.tiles.len() == 160 && self@.objects.len() == 160
    }

    /// The raw tile byte at (x, y), normalized: the null tile 0 passes
    /// through (it should not be drawn), and any trap glyph reads as the
    /// fallback tile.
    pub fn get_tile(&self, x: u32, y: u32) -> (r: Result<u8, DecodeError>)
        requires
            self.wf(),
        ensures
            r is Ok <==> (x < 20 && y < 8),
            match r {
                Ok(t) => t == spec_normalize_tile(self@.tiles[y as int * 20 + x as int]),
                Err(e) => e == DecodeError::OutOfBounds,
            },
    {
        if x >= ROOM_WIDTH || y >= ROOM_HEIGHT {
            return Err(DecodeError::OutOfBounds);
        }
        let t = self.tiles[(y * ROOM_WIDTH + x) as usize];
        if t > TILE_TRAP_THRESHOLD {
            Ok(TILE_TRAP_FALLBACK)
        } else {
            Ok(t)
        }
    }

    /// Overwrite the raw tile byte at (x, y); every other part of the room
    /// is untouched.
    pub fn set_tile(&mut self, x: u32, y: u32, tile: u8) -> (r: Result<(), DecodeError>)
        requires
            old(self).wf(),
        ensures
            r is Ok <==> (x < 20 && y < 8),
            final(self).wf(),
            match r {
                Ok(_) => final(self)@ == (RoomView {
                    tiles: old(self)@.tiles.update(y as int * 20 + x as int, tile),
                    ..old(self)@
                }),
                Err(e) => e == DecodeError::OutOfBounds && *final(self) == *old(self),
            },
    {
        if x >= ROOM_WIDTH || y >= ROOM_HEIGHT {
            return Err(DecodeError::OutOfBounds);
        }
        self.tiles[(y * ROOM_WIDTH + x) as usize] = tile;
        Ok(())
    }

    /// Classify the object-grid cell at (x, y).
    pub fn get_object_type(&self, x: u32, y: u32) -> (r: Result<ObjectType, DecodeError>)
        requires
            self.wf(),
        ensures
            r is Ok <==> (x < 20 && y < 8),
            match r {
                Ok(t) => t == spec_object_type(self@.objects[y as int * 20 + x as int]),
                Err(e) => e == DecodeError::OutOfBounds,
            },
    {
        if x >= ROOM_WIDTH || y >= ROOM_HEIGHT {
            return Err(DecodeError::OutOfBounds);
        }
        let v = self.objects[(y * ROOM_WIDTH + x) as usize];
        if v == 0 {
            Ok(ObjectType::Nothing)
        } else if v <= 'c' as u8 {
            Ok(ObjectType::Monster)
        } else {
            Ok(ObjectType::Object)
        }
    }

    /// The sprite index of the object letter at (x, y), through the fixed
    /// letter table.
    pub fn get_object(&self, x: u32, y: u32) -> (r: Result<u8, DecodeError>)
        requires
            self.wf(),
        ensures
            r is Ok <==> (x < 20 && y < 8),
            match r {
                Ok(t) => t == spec_object_tile(self@.objects[y as int * 20 + x as int] as char),
                Err(e) => e == DecodeError::OutOfBounds,
            },
    {
        if x >= ROOM_WIDTH || y >= ROOM_HEIGHT {
            return Err(DecodeError::OutOfBounds);
        }
        let v = self.objects[(y * ROOM_WIDTH + x) as usize];
        Ok(get_object_tile(v as char))
    }
}

/// The room record one 0x168-byte chunk describes.
pub open spec fn spec_room(c: Seq<u8>) -> RoomView
    recommends
        c.len() == 0x168,
        c[0x14D] + 0x14E <= 0x168,
{
    RoomView {
        unknown_a: c[0x00],
        tiles: c.subrange(0x01, 0xA1),
        objects: c.subrange(0xA1, 0x141),
        monster_id: c[0x141],
        monster_count: c[0x142],
        nav_north: c[0x143],
        nav_east: c[0x144],
        nav_south: c[0x145],
        nav_west: c[0x146],
        nav_up: c[0x147],
        nav_down: c[0x148],
        id: c[0x149],
        unknown_b: c[0x14A],
        unknown_c: c[0x14B],
        unknown_d: c[0x14C],
        name: spec_from_pascal(c.subrange(0x14D, 0x168)),
    }
}

/// Whether the buffer is a whole number of room records whose name fields
/// are self-consistent: each record's name length byte must not promise more
/// bytes than remain in its record.
pub open spec fn rooms_decodable(data: Seq<u8>) -> bool {
    &&& data.len() % 0x168 == 0
    &&& forall|i: int|
        0 <= i < data.len() / 0x168 ==> #[trigger] data[i * 0x168 + 0x14D] <= 26
}

/// `rs` is exactly the decode of `data`: one well-formed room per record.
pub open spec fn rooms_decoded(data: Seq<u8>, rs: Seq<Room>) -> bool {
    &&& rs.len() == data.len() / 0x168
    &&& forall|i: int|
        0 <= i < rs.len() ==> {
            &&& (#[trigger] rs[i]).wf()
            &&& rs[i]@ == spec_room(data.subrange(i * 0x168, i * 0x168 + 0x168))
        }
}

/// Decode the room record that starts at `base`.
fn decode_room(data: &[u8], base: usize) -> (r: Room)
    requires
        base + 0x168 <= data@.len(),
        data@.len() <= usize::MAX,
        data@[base + 0x14D] <= 26,
    ensures
        r.wf(),
        r@ == spec_room(data@.subrange(base as int, base as int + 0x168)),
{
    let ghost chunk = data@.subrange(base as int, base as int + 0x168);
    let mut tiles: Vec<u8> = Vec::new();
    let mut k: usize = 0;
    while k < ROOM_AREA
        invariant
            base + 0x168 <= data@.len(),
            data@.len() <= usize::MAX,
            k <= 160,
            tiles@.len() == k,
            forall|j: int| 0 <= j < k ==> tiles@[j] == data@[base + 0x01 + j],
        decreases 160 - k,
    {
        tiles.push(data[base + 0x01 + k]);
        k += 1;
    }
    let mut objects: Vec<u8> = Vec::new();
    let mut m: usize = 0;
    while m < ROOM_AREA
        invariant
            base + 0x168 <= data@.len(),
            data@.len() <= usize::MAX,
            m <= 160,
            objects@.len() == m,
            forall|j: int| 0 <= j < m ==> objects@[j] == data@[base + 0xA1 + j],
        decreases 160 - m,
    {
        objects.push(data[base + 0xA1 + m]);
        m += 1;
    }
    let name_field = &data[base + 0x14D..base + 0x168];
    let name = from_pascal_string(name_field);
    let room = Room {
        unknown_a: data[base],
        tiles,
        objects,
        monster_id: data[base + 0x141],
        monster_count: data[base + 0x142],
        nav_north: data[base + 0x143],
        nav_east: data[base + 0x144],
        nav_south: data[base + 0x145],
        nav_west: data[base + 0x146],
        nav_up: data[base + 0x147],
        nav_down: data[base + 0x148],
        id: data[base + 0x149],
        unknown_b: data[base + 0x14A],
        unknown_c: data[base + 0x14B],
        unknown_d: data[base + 0x14C],
        name,
    };
    proof {
        assert(room@.tiles =~= chunk.subrange(0x01, 0xA1));
        assert(room@.objects =~= chunk.subrange(0xA1, 0x141));
        assert(name_field@ =~= chunk.subrange(0x14D, 0x168));
        assert(room@ == spec_room(chunk));
    }
    room
}

/// Split the buffer into consecutive 0x168-byte records and decode one room
/// from each. A buffer that is not a whole number of records, or a record
/// whose name overruns its field, is malformed.
pub fn decode_rooms(data: &[u8]) -> (r: Result<Vec<Room>, DecodeError>)
    ensures
        r is Ok <==> rooms_decodable(data@),
        match r {
            Ok(rs) => rooms_decoded(data@, rs@),
            Err(e) => e == DecodeError::MalformedInput,
        },
{
    if data.len() % ROOM_RECORD_SIZE != 0 {
        return Err(DecodeError::MalformedInput);
    }
    let count = data.len() / ROOM_RECORD_SIZE;
    proof {
        lemma_fundamental_div_mod(data@.len() as int, 0x168);
    }
    let mut rs: Vec<Room> = Vec::new();
    let mut i: usize = 0;
    while i < count
        invariant
            count == data@.len() / 0x168,
            count * 0x168 == data@.len(),
            data@.len() <= usize::MAX,
            i <= count,
            rs@.len() == i,
            forall|k: int| 0 <= k < i ==> #[trigger] data@[k * 0x168 + 0x14D] <= 26,
            forall|k: int|
                0 <= k < i ==> {
                    &&& (#[trigger] rs@[k]).wf()
                    &&& rs@[k]@ == spec_room(data@.subrange(k * 0x168, k * 0x168 + 0x168))
                },
        decreases count - i,
    {
        proof {
            assert(i * 0x168 + 0x168 <= count * 0x168) by (nonlinear_arith)
                requires
                    i < count,
            ;
        }
        let base = i * ROOM_RECORD_SIZE;
        if data[base + 0x14D] > 26 {
            return Err(DecodeError::MalformedInput);
        }
        let room = decode_room(data, base);
        rs.push(room);
        i += 1;
    }
    Ok(rs)
}

} // verus!
