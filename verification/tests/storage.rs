use vinox::storage::{BlockData, RawChunk, VoxelPos, CHUNK_SIZE};

#[test]
fn fresh_chunk_is_all_air() {
    let chunk = RawChunk::new();
    for x in 0..CHUNK_SIZE {
        for y in 0..CHUNK_SIZE {
            for z in 0..CHUNK_SIZE {
                assert_eq!(chunk.get_identifier(VoxelPos::new(x, y, z)), "vinox:air");
            }
        }
    }
}

#[test]
fn set_block_overwrites_one_voxel() {
    let mut chunk = RawChunk::new();
    let stone = BlockData::new("vinox".to_string(), "cobblestone".to_string());
    chunk.set_block(VoxelPos::new(3, 4, 5), &stone);
    assert_eq!(chunk.get_identifier(VoxelPos::new(3, 4, 5)), "vinox:cobblestone");
    assert_eq!(chunk.get_identifier(VoxelPos::new(3, 4, 6)), "vinox:air");
    assert_eq!(chunk.get_identifier(VoxelPos::new(3, 5, 5)), "vinox:air");
    assert_eq!(chunk.get_identifier(VoxelPos::new(4, 4, 5)), "vinox:air");
}

#[test]
fn identifier_renders_namespace_and_name() {
    let mut chunk = RawChunk::new();
    let custom = BlockData::new("mod_pack".to_string(), "mossy_brick".to_string());
    chunk.set_block(VoxelPos::new(0, 0, 0), &custom);
    assert_eq!(chunk.get_identifier(VoxelPos::new(0, 0, 0)), "mod_pack:mossy_brick");
}

#[test]
fn same_ident_is_exact_pair_equality() {
    let a = BlockData::new("vinox".to_string(), "grass".to_string());
    let b = BlockData::grass();
    let c = BlockData::new("vinox".to_string(), "air".to_string());
    let d = BlockData::new("other".to_string(), "grass".to_string());
    assert!(a.same_ident(&b));
    assert!(!a.same_ident(&c));
    assert!(!a.same_ident(&d));
}

#[test]
fn block_constructors_match_identifiers() {
    let mut chunk = RawChunk::new();
    chunk.set_block(VoxelPos::new(1, 1, 1), &BlockData::cobblestone());
    chunk.set_block(VoxelPos::new(1, 2, 1), &BlockData::grass());
    chunk.set_block(VoxelPos::new(1, 3, 1), &BlockData::air());
    assert_eq!(chunk.get_identifier(VoxelPos::new(1, 1, 1)), "vinox:cobblestone");
    assert_eq!(chunk.get_identifier(VoxelPos::new(1, 2, 1)), "vinox:grass");
    assert_eq!(chunk.get_identifier(VoxelPos::new(1, 3, 1)), "vinox:air");
}
