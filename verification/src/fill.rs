//! The byte pattern that one fill command leaves in a mapped buffer: the
//! 32-bit fill word repeated once per pixel, least significant byte first,
//! as a little-endian host reads it back.

use vstd::prelude::*;

verus! {

/// The four bytes of `value` in memory order on a little-endian host:
/// least significant byte first.
pub open spec fn le_bytes_of(value: u32) -> Seq<u8> {
    seq![
        (value % 0x100) as u8,
        ((value / 0x100) % 0x100) as u8,
        ((value / 0x10000) % 0x100) as u8,
        ((value / 0x1000000) % 0x100) as u8,
    ]
}

/// The four bytes of pixel `i` of `data`.
pub open spec fn pixel_at(data: Seq<u8>, i: int) -> Seq<u8> {
    data.subrange(4 * i, 4 * i + 4)
}

/// `data` holds exactly `count` pixels, and every pixel holds the four
/// bytes of `value`.
pub open spec fn is_filled_with(data: Seq<u8>, count: int, value: u32) -> bool {
    &&& data.len() == 4 * count
    &&& forall|i: int| 0 <= i < count ==> #[trigger] pixel_at(data, i) == le_bytes_of(value)
}

/// The byte pattern a completed fill must leave: `count` pixels, each the
/// four bytes of `value`.
pub fn fill_pattern(value: u32, count: usize) -> (data: Vec<u8>)
    requires
        count <= usize::MAX / 4,
    ensures
        is_filled_with(data@, count as int, value),
{
    let b0: u8 = (value % 0x100) as u8;
    let b1: u8 = ((value / 0x100) % 0x100) as u8;
    let b2: u8 = ((value / 0x10000) % 0x100) as u8;
    let b3: u8 = ((value / 0x1000000) % 0x100) as u8;
    let mut data: Vec<u8> = Vec::new();
    let mut k: usize = 0;
    while k < count
        invariant
            k <= count,
            count <= usize::MAX / 4,
            data@.len() == 4 * k,
            b0 == le_bytes_of(value)[0],
            b1 == le_bytes_of(value)[1],
            b2 == le_bytes_of(value)[2],
            b3 == le_bytes_of(value)[3],
            forall|i: int| 0 <= i < k ==> #[trigger] pixel_at(data@, i) == le_bytes_of(value),
        decreases count - k,
    {
        let ghost prev = data@;
        data.push(b0);
        data.push(b1);
        data.push(b2);
        data.push(b3);
        proof {
            assert forall|i: int| 0 <= i < k + 1 implies #[trigger] pixel_at(data@, i)
                == le_bytes_of(value) by {
                if i < k {
                    assert(pixel_at(prev, i) == le_bytes_of(value));
                    assert(pixel_at(data@, i) =~= pixel_at(prev, i));
                } else {
                    assert(data@[4 * i] == b0 && data@[4 * i + 1] == b1 && data@[4 * i + 2] == b2
                        && data@[4 * i + 3] == b3);
                    assert(le_bytes_of(value)[0] == b0 && le_bytes_of(value)[1] == b1
                        && le_bytes_of(value)[2] == b2 && le_bytes_of(value)[3] == b3);
                    assert(pixel_at(data@, i) =~= le_bytes_of(value));
                }
            }
        }
        k = k + 1;
    }
    data
}

/// The number of pixels a `width` by `height` image holds.
pub open spec fn pixel_count_of(width: u32, height: u32) -> int {
    (width as int) * (height as int)
}

/// The buffer size in bytes for `width * height` pixels of four bytes each,
/// or `None` where that product does not fit in 64 bits.
pub fn buffer_byte_len(width: u32, height: u32) -> (len: Option<u64>)
    ensures
        4 * pixel_count_of(width, height) <= u64::MAX ==> len == Some(
            (4 * pixel_count_of(width, height)) as u64,
        ),
        4 * pixel_count_of(width, height) > u64::MAX ==> len is None,
{
    proof {
        assert((width as int) * (height as int) <= 0xFFFF_FFFFu64 * 0xFFFF_FFFFu64)
            by (nonlinear_arith)
            requires
                width <= 0xFFFF_FFFFu64,
                height <= 0xFFFF_FFFFu64,
        ;
    }
    let pixels: u64 = (width as u64) * (height as u64);
    if pixels > u64::MAX / 4 {
        None
    } else {
        Some(4 * pixels)
    }
}

/// Whether the bytes read back from the buffer are exactly what the fill
/// command was asked for: `width * height` pixels of `value`.
pub fn readback_matches(data: &[u8], width: u32, height: u32, value: u32) -> (ok: bool)
    ensures
        ok == is_filled_with(data@, pixel_count_of(width, height), value),
{
    let ghost pixel_count = pixel_count_of(width, height);
    let dlen: usize = data.len();
    let needed = buffer_byte_len(width, height);
    let nbytes: u64 = match needed {
        Some(n) => n,
        None => {
            // More pixel bytes than any 64-bit length can hold.
            proof {
                assert(dlen <= usize::MAX);
                assert(usize::MAX <= u64::MAX);
                assert(u64::MAX < 4 * pixel_count);
            }
            return false;
        },
    };
    if dlen as u64 != nbytes {
        proof {
            assert(nbytes == 4 * pixel_count);
            assert(dlen as u64 == dlen as int);
        }
        return false;
    }
    let count: usize = dlen / 4;
    proof {
        assert(data@.len() == 4 * pixel_count);
        assert(count == pixel_count) by (nonlinear_arith)
            requires
                dlen == 4 * pixel_count,
                count == dlen as int / 4,
        ;
    }
    let b0: u8 = (value % 0x100) as u8;
    let b1: u8 = ((value / 0x100) % 0x100) as u8;
    let b2: u8 = ((value / 0x10000) % 0x100) as u8;
    let b3: u8 = ((value / 0x1000000) % 0x100) as u8;
    let mut k: usize = 0;
    while k < count
        invariant
            k <= count,
            count == pixel_count,
            data@.len() == 4 * count,
            4 * count <= usize::MAX,
            b0 == le_bytes_of(value)[0],
            b1 == le_bytes_of(value)[1],
            b2 == le_bytes_of(value)[2],
            b3 == le_bytes_of(value)[3],
            forall|i: int| 0 <= i < k ==> #[trigger] pixel_at(data@, i) == le_bytes_of(value),
        decreases count - k,
    {
        let base: usize = 4 * k;
        if data[base] != b0 || data[base + 1] != b1 || data[base + 2] != b2 || data[base + 3]
            != b3 {
            proof {
                assert(pixel_at(data@, k as int) != le_bytes_of(value)) by {
                    let s = pixel_at(data@, k as int);
                    assert(s[0] == data@[4 * k as int]);
                    assert(s[1] == data@[4 * k + 1]);
                    assert(s[2] == data@[4 * k + 2]);
                    assert(s[3] == data@[4 * k + 3]);
                }
            }
            return false;
        }
        proof {
            assert(pixel_at(data@, k as int) =~= le_bytes_of(value));
        }
        k = k + 1;
    }
    true
}

} // verus!
