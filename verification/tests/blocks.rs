use voxel_engine::chunks::Block;

#[test]
fn round_trip_position_then_id() {
    let b = Block::new(0).with_position((1, 2, 3)).with_id(7);
    assert_eq!(b.position(), (1, 2, 3));
    assert_eq!(b.id(), 7);
    assert_eq!(b.x(), 1);
    assert_eq!(b.y(), 2);
    assert_eq!(b.z(), 3);
}

#[test]
fn round_trip_id_then_position() {
    let b = Block::new(0).with_id(7).with_position((1, 2, 3));
    assert_eq!(b.position(), (1, 2, 3));
    assert_eq!(b.id(), 7);
}

#[test]
fn order_of_writes_is_irrelevant() {
    for &(x, y, z, id) in &[
        (0u32, 0u32, 0u32, 0u16),
        (15, 15, 15, u16::MAX),
        (1, 2, 3, 7),
        (15, 0, 15, 1),
        (8, 4, 2, 1000),
    ] {
        let a = Block::new(0).with_position((x, y, z)).with_id(id);
        let b = Block::new(0).with_id(id).with_position((x, y, z));
        assert_eq!(a, b);
        assert_eq!(a.position(), (x, y, z));
        assert_eq!(a.id(), id);
    }
}

#[test]
fn rewriting_position_keeps_id() {
    let b = Block::new(0).with_id(900).with_position((3, 3, 3)).with_position((9, 8, 7));
    assert_eq!(b.id(), 900);
    assert_eq!(b.position(), (9, 8, 7));
}

#[test]
fn rewriting_id_keeps_position() {
    let b = Block::new(0).with_position((14, 13, 12)).with_id(1).with_id(2);
    assert_eq!(b.position(), (14, 13, 12));
    assert_eq!(b.id(), 2);
}

#[test]
fn high_bits_survive_field_writes() {
    // The top four bits are outside both fields and must never move.
    let raw = 0xA000_0000u32;
    let b = Block::new(raw).with_position((5, 6, 7)).with_id(77);
    assert_eq!(b.position(), (5, 6, 7));
    assert_eq!(b.id(), 77);
}

#[test]
fn default_block_is_zero() {
    let b = Block::default();
    assert_eq!(b.position(), (0, 0, 0));
    assert_eq!(b.id(), 0);
}

#[test]
fn exact_packing_layout() {
    // x in bits 8..12, y in 4..8, z in 0..4, id in 12..28.
    let b = Block::new(0).with_position((1, 2, 3)).with_id(7);
    // 7 << 12 | 1 << 8 | 2 << 4 | 3
    assert_eq!(b.x(), 1);
    assert_eq!(b.y(), 2);
    assert_eq!(b.z(), 3);
    assert_eq!(b.id(), 7);
    let c = Block::new(7 << 12 | 1 << 8 | 2 << 4 | 3);
    assert_eq!(c, b);
}
