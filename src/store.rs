use vstd::prelude::*;

verus! {

/// Size in bytes of the erase block that holds the counter.
pub const FLASH_BLOCK_SIZE: usize = 4096;

/// The value of an erased byte.
pub const ERASED_BYTE: u8 = 0xFF;

/// Byte `i` (0 = least significant) of `v`.
pub open spec fn le_byte(v: u64, i: int) -> u8 {
    ((v >> (8 * i) as u64) & 0xFF) as u8
}

/// The little-endian `u64` held in the first eight bytes of `b`.
pub open spec fn le_u64(b: Seq<u8>) -> u64 {
    (b[0] as u64) | ((b[1] as u64) << 8u64) | ((b[2] as u64) << 16u64) | ((b[3] as u64) << 24u64)
        | ((b[4] as u64) << 32u64) | ((b[5] as u64) << 40u64) | ((b[6] as u64) << 48u64) | ((
    b[7] as u64) << 56u64)
}

/// The counter that a block starting with `b` holds: its first eight bytes
/// little-endian, where all ones (an erased, never written block) stands for 0.
pub open spec fn loaded_counter(b: Seq<u8>) -> u64 {
    if le_u64(b) == u64::MAX {
        0
    } else {
        le_u64(b)
    }
}

/// The block image that stores `v`: `v` little-endian in the first eight
/// bytes, erased bytes after them.
pub open spec fn block_image(v: u64) -> Seq<u8> {
    Seq::new(
        FLASH_BLOCK_SIZE as nat,
        |i: int|
            if i < 8 {
                le_byte(v, i)
            } else {
                ERASED_BYTE
            },
    )
}

/// Reads the counter from the first eight bytes of its block. An erased block
/// (all ones) reads as 0.
pub fn counter_from_bytes(bytes: &[u8; 8]) -> (r: u64)
    ensures
        r == loaded_counter(bytes@),
{
    let value: u64 = (bytes[0] as u64) | ((bytes[1] as u64) << 8u64) | ((bytes[2] as u64)
        << 16u64) | ((bytes[3] as u64) << 24u64) | ((bytes[4] as u64) << 32u64) | ((
    bytes[5] as u64) << 40u64) | ((bytes[6] as u64) << 48u64) | ((bytes[7] as u64) << 56u64);
    if value == u64::MAX {
        0
    } else {
        value
    }
}

/// Builds the full erase block that stores `value`.
pub fn counter_block(value: u64) -> (r: [u8; FLASH_BLOCK_SIZE])
    ensures
        r@ == block_image(value),
{
    let mut buffer: [u8; FLASH_BLOCK_SIZE] = [ERASED_BYTE; FLASH_BLOCK_SIZE];
    let mut i: usize = 0;
    while i < 8
        invariant
            i <= 8,
            forall|j: int| 0 <= j < i ==> buffer@[j] == le_byte(value, j),
            forall|j: int| i <= j < FLASH_BLOCK_SIZE ==> buffer@[j] == ERASED_BYTE,
        decreases 8 - i,
    {
        buffer[i] = ((value >> (8 * i) as u64) & 0xFF) as u8;
        i = i + 1;
    }
    assert(buffer@ =~= block_image(value));
    buffer
}

/// Storing a value and loading it back gives the value, except for the
/// all-ones value, which cannot be told from an erased block and loads as 0.
pub proof fn lemma_store_then_load(v: u64)
    ensures
        loaded_counter(block_image(v)) == if v == u64::MAX {
            0
        } else {
            v
        },
{
    let b = block_image(v);
    assert(le_u64(b) == v) by {
        assert(b[0] == le_byte(v, 0) && b[1] == le_byte(v, 1) && b[2] == le_byte(v, 2) && b[3]
            == le_byte(v, 3));
        assert(b[4] == le_byte(v, 4) && b[5] == le_byte(v, 5) && b[6] == le_byte(v, 6) && b[7]
            == le_byte(v, 7));
        assert((((v >> 0u64) & 0xFF) as u8 as u64) | ((((v >> 8u64) & 0xFF) as u8 as u64) << 8u64)
            | ((((v >> 16u64) & 0xFF) as u8 as u64) << 16u64) | ((((v >> 24u64) & 0xFF) as u8 as u64)
            << 24u64) | ((((v >> 32u64) & 0xFF) as u8 as u64) << 32u64) | ((((v >> 40u64) & 0xFF) as u8
            as u64) << 40u64) | ((((v >> 48u64) & 0xFF) as u8 as u64) << 48u64) | ((((v >> 56u64)
            & 0xFF) as u8 as u64) << 56u64) == v) by (bit_vector);
    }
}

} // verus!
