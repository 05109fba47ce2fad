use dungeon_assets::error::DecodeError;
use dungeon_assets::monster::{decode_monsters, Monster};
use dungeon_assets::rms::{decode_rooms, get_object_tile, ObjectType, ROOM_RECORD_SIZE};

/// A single room record with a few distinctive values planted at their
/// fixed offsets.
fn sample_record() -> Vec<u8> {
    let mut r = vec![0u8; ROOM_RECORD_SIZE];
    r[0x01] = 5; // tile (0, 0)
    r[0x01 + 1] = 85; // tile (1, 0): a trap glyph
    r[0x01 + 2] = 84; // tile (2, 0): just below the trap range
    r[0xA1 + 1] = 1; // object (1, 0): a monster slot
    r[0xA1 + 2] = b'c'; // object (2, 0): the highest monster-slot letter
    r[0xA1 + 3] = b'd'; // object (3, 0): magical darkness
    r[0xA1 + 4] = b'j'; // object (4, 0): a letter with no sprite yet
    r[0x141] = 3; // monster id
    r[0x142] = 2; // monster count
    r[0x143] = 1; // north
    r[0x144] = 2; // east
    r[0x145] = 3; // south
    r[0x146] = 4; // west
    r[0x147] = 5; // up
    r[0x148] = 6; // down
    r[0x149] = 9; // room id
    r[0x14D] = 4; // name length
    r[0x14E] = b'T';
    r[0x14F] = b'e';
    r[0x150] = b's';
    r[0x151] = b't';
    r
}

#[test]
fn decode_rooms_fields_test() {
    let rooms = decode_rooms(&sample_record()).unwrap();
    assert_eq!(rooms.len(), 1);
    let room = &rooms[0];
    assert_eq!(room.monster_id, 3);
    assert_eq!(room.nav_north, 1);
    assert_eq!(room.nav_east, 2);
    assert_eq!(room.nav_south, 3);
    assert_eq!(room.nav_west, 4);
    assert_eq!(room.nav_up, 5);
    assert_eq!(room.nav_down, 6);
    assert_eq!(room.name, "Test");
}

#[test]
fn decode_rooms_record_count_test() {
    let mut two = sample_record();
    two.extend(sample_record());
    assert_eq!(decode_rooms(&two).unwrap().len(), 2);
    assert_eq!(decode_rooms(&[]).unwrap().len(), 0);
}

#[test]
fn decode_rooms_rejects_ragged_buffer_test() {
    let mut r = sample_record();
    r.pop();
    assert!(matches!(decode_rooms(&r), Err(DecodeError::MalformedInput)));
}

#[test]
fn decode_rooms_rejects_overlong_name_test() {
    // 27 bytes follow the length byte's offset; a length of 27 would read
    // past the record.
    let mut r = sample_record();
    r[0x14D] = 27;
    assert!(matches!(decode_rooms(&r), Err(DecodeError::MalformedInput)));
    r[0x14D] = 26;
    assert!(decode_rooms(&r).is_ok());
}

#[test]
fn get_tile_normalizes_traps_test() {
    let rooms = decode_rooms(&sample_record()).unwrap();
    assert_eq!(rooms[0].get_tile(0, 0), Ok(5));
    assert_eq!(rooms[0].get_tile(1, 0), Ok(21));
    assert_eq!(rooms[0].get_tile(2, 0), Ok(84));
    assert_eq!(rooms[0].get_tile(3, 0), Ok(0));
}

#[test]
fn set_tile_overwrites_test() {
    let mut rooms = decode_rooms(&sample_record()).unwrap();
    assert_eq!(rooms[0].set_tile(7, 3, 42), Ok(()));
    assert_eq!(rooms[0].get_tile(7, 3), Ok(42));
    // The neighbors are untouched.
    assert_eq!(rooms[0].get_tile(6, 3), Ok(0));
    assert_eq!(rooms[0].get_tile(7, 2), Ok(0));
    // A raw trap value written through set_tile still reads normalized.
    assert_eq!(rooms[0].set_tile(0, 0, 200), Ok(()));
    assert_eq!(rooms[0].get_tile(0, 0), Ok(21));
}

#[test]
fn tile_bounds_are_checked_test() {
    let mut rooms = decode_rooms(&sample_record()).unwrap();
    assert_eq!(rooms[0].get_tile(20, 0), Err(DecodeError::OutOfBounds));
    assert_eq!(rooms[0].get_tile(0, 8), Err(DecodeError::OutOfBounds));
    assert_eq!(rooms[0].set_tile(20, 0, 1), Err(DecodeError::OutOfBounds));
    assert_eq!(rooms[0].get_object_type(99, 99), Err(DecodeError::OutOfBounds));
    assert_eq!(rooms[0].get_object(20, 8), Err(DecodeError::OutOfBounds));
}

#[test]
fn object_classification_test() {
    let rooms = decode_rooms(&sample_record()).unwrap();
    let room = &rooms[0];
    assert_eq!(room.get_object_type(0, 0), Ok(ObjectType::Nothing));
    assert_eq!(room.get_object_type(1, 0), Ok(ObjectType::Monster));
    assert_eq!(room.get_object_type(2, 0), Ok(ObjectType::Monster));
    assert_eq!(room.get_object_type(3, 0), Ok(ObjectType::Object));
}

#[test]
fn get_object_resolves_letters_test() {
    let rooms = decode_rooms(&sample_record()).unwrap();
    assert_eq!(rooms[0].get_object(3, 0), Ok(47));
    assert_eq!(rooms[0].get_object(4, 0), Ok(0));
}

#[test]
fn object_letter_table_test() {
    let mapped = [
        ('d', 47),
        ('e', 21),
        ('f', 46),
        ('g', 29),
        ('h', 37),
        ('i', 36),
        ('l', 42),
        ('m', 18),
        ('n', 22),
        ('o', 17),
        ('p', 49),
        ('q', 54),
        ('v', 82),
    ];
    for (letter, tile) in mapped {
        assert_eq!(get_object_tile(letter), tile);
    }
    for letter in ['j', 'k', 'r', 's', 't', 'u', 'w', 'x', 'a', ' '] {
        assert_eq!(get_object_tile(letter), 0);
    }
}

#[test]
fn decode_monsters_test() {
    let mut data = vec![0u8; 0x1F * 2];
    data[0x16] = 7;
    data[0x1F + 0x16] = 9;
    let monsters = decode_monsters(&data).unwrap();
    assert_eq!(monsters, vec![Monster { gfx_id: 7 }, Monster { gfx_id: 9 }]);
    assert_eq!(decode_monsters(&[]).unwrap().len(), 0);
}

#[test]
fn decode_monsters_rejects_ragged_buffer_test() {
    let data = vec![0u8; 0x1F + 5];
    assert!(matches!(decode_monsters(&data), Err(DecodeError::MalformedInput)));
}
