use noise::{MultiFractal, NoiseFn};
use vinox::codec::encode_chunk;
use vinox::generation::{add_grass, generate_chunk, ChunkCoordinate, HeightMap};
use vinox::storage::{BlockData, RawChunk, VoxelPos, CHUNK_SIZE};

/// Samples one terrain height per column: a ridged-multifractal field over
/// the column's world position, scaled by the world height scale and
/// rounded down.
fn sample_heights(pos: ChunkCoordinate, seed: u32) -> HeightMap {
    let field: noise::RidgedMulti<noise::OpenSimplex> =
        noise::RidgedMulti::new(seed).set_octaves(8).set_frequency(0.25);
    let mut heights: Vec<i64> = Vec::new();
    for x in 0..CHUNK_SIZE {
        for z in 0..CHUNK_SIZE {
            let wx = x as i64 + (CHUNK_SIZE as i64) * (pos.x as i64);
            let wz = z as i64 + (CHUNK_SIZE as i64) * (pos.z as i64);
            let sample = field.get([wx as f64 / 100.0, wz as f64 / 100.0]);
            heights.push((sample * 100.0).floor() as i64);
        }
    }
    HeightMap::from_columns(heights).expect("one height per column")
}

fn flat_heights(h: i64) -> HeightMap {
    let heights = vec![h; (CHUNK_SIZE * CHUNK_SIZE) as usize];
    HeightMap::from_columns(heights).expect("one height per column")
}

#[test]
fn generation_is_deterministic() {
    let pos = ChunkCoordinate { x: 0, y: 0, z: 0 };
    let first = generate_chunk(pos, &sample_heights(pos, 42));
    let second = generate_chunk(pos, &sample_heights(pos, 42));
    for x in 0..CHUNK_SIZE {
        for y in 0..CHUNK_SIZE {
            for z in 0..CHUNK_SIZE {
                let p = VoxelPos::new(x, y, z);
                assert_eq!(first.get_identifier(p), second.get_identifier(p));
            }
        }
    }
}

#[test]
fn generation_serializes_identically() {
    let pos = ChunkCoordinate { x: 0, y: 0, z: 0 };
    let first = generate_chunk(pos, &sample_heights(pos, 42));
    let second = generate_chunk(pos, &sample_heights(pos, 42));
    let bytes = encode_chunk(&first);
    assert_eq!(bytes, encode_chunk(&second));
    assert!(!bytes.is_empty());
}

#[test]
fn chunk_encoding_is_length_prefixed_identifiers() {
    // An all-air chunk encodes every voxel as the same identifier slot.
    let chunk = RawChunk::new();
    let bytes = encode_chunk(&chunk);
    let ident = b"vinox:air";
    let volume = (CHUNK_SIZE * CHUNK_SIZE * CHUNK_SIZE) as usize;
    assert_eq!(bytes.len(), volume * (1 + ident.len()));
    assert_eq!(bytes[0] as usize, ident.len());
    assert_eq!(&bytes[1..1 + ident.len()], ident);
    assert_eq!(bytes[1 + ident.len()] as usize, ident.len());
}

#[test]
fn every_voxel_has_an_identifier() {
    let pos = ChunkCoordinate { x: 1, y: -1, z: 2 };
    let chunk = generate_chunk(pos, &sample_heights(pos, 7));
    for x in 0..CHUNK_SIZE {
        for y in 0..CHUNK_SIZE {
            for z in 0..CHUNK_SIZE {
                let ident = chunk.get_identifier(VoxelPos::new(x, y, z));
                assert!(
                    ident == "vinox:air" || ident == "vinox:cobblestone"
                        || ident == "vinox:grass"
                );
            }
        }
    }
}

#[test]
fn surface_dressing_marks_column_tops() {
    // Boundary at local height 10: solid up to 10, air above, for every
    // column of the chunk.
    let chunk = generate_chunk(ChunkCoordinate { x: 0, y: 0, z: 0 }, &flat_heights(10));
    for x in 0..CHUNK_SIZE {
        for z in 0..CHUNK_SIZE {
            assert_eq!(chunk.get_identifier(VoxelPos::new(x, 10, z)), "vinox:grass");
            for y in 0..10 {
                assert_eq!(
                    chunk.get_identifier(VoxelPos::new(x, y, z)),
                    "vinox:cobblestone"
                );
            }
            for y in 11..CHUNK_SIZE {
                assert_eq!(chunk.get_identifier(VoxelPos::new(x, y, z)), "vinox:air");
            }
        }
    }
}

#[test]
fn top_row_is_never_grass() {
    // Boundary exactly at the topmost layer: the dressing pass cannot
    // inspect a neighbour outside the chunk, so the voxel stays base
    // material.
    let top = (CHUNK_SIZE - 1) as i64;
    let chunk = generate_chunk(ChunkCoordinate { x: 0, y: 0, z: 0 }, &flat_heights(top));
    for x in 0..CHUNK_SIZE {
        for z in 0..CHUNK_SIZE {
            assert_eq!(
                chunk.get_identifier(VoxelPos::new(x, CHUNK_SIZE - 1, z)),
                "vinox:cobblestone"
            );
        }
    }
}

#[test]
fn all_air_chunk_gets_no_grass() {
    // A chunk with no solid voxel has nothing to convert.
    let mut chunk = RawChunk::new();
    add_grass(&mut chunk);
    for x in 0..CHUNK_SIZE {
        for y in 0..CHUNK_SIZE {
            for z in 0..CHUNK_SIZE {
                assert_eq!(chunk.get_identifier(VoxelPos::new(x, y, z)), "vinox:air");
            }
        }
    }
}

#[test]
fn all_air_generation_from_low_heights() {
    // Heights below the chunk floor leave every voxel empty.
    let chunk = generate_chunk(ChunkCoordinate { x: 0, y: 0, z: 0 }, &flat_heights(-1));
    for x in 0..CHUNK_SIZE {
        for y in 0..CHUNK_SIZE {
            for z in 0..CHUNK_SIZE {
                assert_eq!(chunk.get_identifier(VoxelPos::new(x, y, z)), "vinox:air");
            }
        }
    }
}

#[test]
fn height_table_must_cover_every_column() {
    assert!(HeightMap::from_columns(vec![0i64; 5]).is_none());
    assert!(HeightMap::from_columns(Vec::new()).is_none());
    assert!(HeightMap::from_columns(vec![0i64; (CHUNK_SIZE * CHUNK_SIZE) as usize]).is_some());
}

#[test]
fn add_grass_converts_only_covered_base_blocks() {
    let mut chunk = RawChunk::new();
    // A lone solid voxel with air above it becomes grass.
    chunk.set_block(VoxelPos::new(2, 5, 2), &BlockData::cobblestone());
    // A solid voxel directly under another solid voxel stays base.
    chunk.set_block(VoxelPos::new(7, 5, 7), &BlockData::cobblestone());
    chunk.set_block(VoxelPos::new(7, 6, 7), &BlockData::cobblestone());
    add_grass(&mut chunk);
    assert_eq!(chunk.get_identifier(VoxelPos::new(2, 5, 2)), "vinox:grass");
    assert_eq!(chunk.get_identifier(VoxelPos::new(7, 5, 7)), "vinox:cobblestone");
    assert_eq!(chunk.get_identifier(VoxelPos::new(7, 6, 7)), "vinox:grass");
}
