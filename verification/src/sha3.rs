//! SHA3-256: the Keccak permutation and the sponge over 136 byte blocks.
//! A self-contained content-addressing primitive beside the configuration
//! front end.

use vstd::prelude::*;

verus! {

/// Left rotation of a 64 bit lane.
fn rol(x: u64, n: u32) -> u64
    requires
        n < 64,
{
    if n == 0 {
        x
    } else {
        (x << n) | (x >> (64 - n))
    }
}

/// One round of the Keccak permutation over the 25 lane state.
pub fn keccak_one(state: &mut Vec<u64>, round_constant: u64)
    requires
        old(state)@.len() == 25,
    ensures
        final(state)@.len() == 25,
{
    // Procedure THETA
    let mut c: Vec<u64> = Vec::new();
    let mut x: usize = 0;
    while x < 5
        invariant
            c@.len() == x,
            x <= 5,
            state@.len() == 25,
        decreases 5 - x,
    {
        let mut lane: u64 = 0;
        let mut y: usize = 0;
        while y < 5
            invariant
                y <= 5,
                x < 5,
                state@.len() == 25,
            decreases 5 - y,
        {
            lane = lane ^ state[x + y * 5];
            y = y + 1;
        }
        c.push(lane);
        x = x + 1;
    }
    let mut x: usize = 0;
    while x < 5
        invariant
            x <= 5,
            c@.len() == 5,
            state@.len() == 25,
        decreases 5 - x,
    {
        let d = c[(x + 4) % 5] ^ rol(c[(x + 1) % 5], 1);
        let mut y: usize = 0;
        while y < 5
            invariant
                y <= 5,
                x < 5,
                c@.len() == 5,
                state@.len() == 25,
            decreases 5 - y,
        {
            let index = x + y * 5;
            let v = state[index] ^ d;
            state.set(index, v);
            y = y + 1;
        }
        x = x + 1;
    }

    // Procedure RHO
    let rho_offsets: Vec<u32> = vec![
        0u32,
        1,
        62,
        28,
        27,
        36,
        44,
        6,
        55,
        20,
        3,
        10,
        43,
        25,
        39,
        41,
        45,
        15,
        21,
        8,
        18,
        2,
        61,
        56,
        14,
    ];
    let mut i: usize = 0;
    while i < 25
        invariant
            i <= 25,
            state@.len() == 25,
            rho_offsets@.len() == 25,
            forall|k: int| 0 <= k < 25 ==> rho_offsets@[k] < 64,
        decreases 25 - i,
    {
        let v = rol(state[i], rho_offsets[i]);
        state.set(i, v);
        i = i + 1;
    }

    // Procedure PI
    let mut temp_a: Vec<u64> = Vec::new();
    let mut i: usize = 0;
    while i < 25
        invariant
            temp_a@.len() == i,
            i <= 25,
            state@.len() == 25,
        decreases 25 - i,
    {
        temp_a.push(state[i]);
        i = i + 1;
    }
    let mut x: usize = 0;
    while x < 5
        invariant
            x <= 5,
            temp_a@.len() == 25,
            state@.len() == 25,
        decreases 5 - x,
    {
        let mut y: usize = 0;
        while y < 5
            invariant
                y <= 5,
                x < 5,
                temp_a@.len() == 25,
                state@.len() == 25,
            decreases 5 - y,
        {
            let index = y + ((2 * x + 3 * y) % 5) * 5;
            let v = temp_a[x + y * 5];
            state.set(index, v);
            y = y + 1;
        }
        x = x + 1;
    }

    // Procedure CHI
    let mut y: usize = 0;
    while y < 5
        invariant
            y <= 5,
            state@.len() == 25,
        decreases 5 - y,
    {
        let mut c: Vec<u64> = Vec::new();
        let mut x: usize = 0;
        while x < 5
            invariant
                c@.len() == x,
                x <= 5,
                y < 5,
                state@.len() == 25,
            decreases 5 - x,
        {
            let lane = state[x + 5 * y] ^ ((!state[(x + 1) % 5 + y * 5]) & state[(x + 2) % 5 + 5
                * y]);
            c.push(lane);
            x = x + 1;
        }
        let mut x: usize = 0;
        while x < 5
            invariant
                x <= 5,
                y < 5,
                c@.len() == 5,
                state@.len() == 25,
            decreases 5 - x,
        {
            let v = c[x];
            state.set(x + 5 * y, v);
            x = x + 1;
        }
        y = y + 1;
    }

    // Procedure IOTA
    let v = state[0] ^ round_constant;
    state.set(0, v);
}

/// The full Keccak permutation: twenty-four rounds.
pub fn keccak(state: &mut Vec<u64>)
    requires
        old(state)@.len() == 25,
    ensures
        final(state)@.len() == 25,
{
    let round_constants: Vec<u64> = vec![
        0x0000000000000001u64,
        0x0000000000008082,
        0x800000000000808a,
        0x8000000080008000,
        0x000000000000808b,
        0x0000000080000001,
        0x8000000080008081,
        0x8000000000008009,
        0x000000000000008a,
        0x0000000000000088,
        0x0000000080008009,
        0x000000008000000a,
        0x000000008000808b,
        0x800000000000008b,
        0x8000000000008089,
        0x8000000000008003,
        0x8000000000008002,
        0x8000000000000080,
        0x000000000000800a,
        0x800000008000000a,
        0x8000000080008081,
        0x8000000000008080,
        0x0000000080000001,
        0x8000000080008008,
    ];
    let mut i: usize = 0;
    while i < round_constants.len()
        invariant
            state@.len() == 25,
            round_constants@.len() == 24,
            i <= 24,
        decreases 24 - i,
    {
        keccak_one(state, round_constants[i]);
        i = i + 1;
    }
}

/// Absorb one 136 byte block: `state ^= block`, lane by lane in little
/// endian order, then one Keccak permutation.
pub fn absorbing(state: &mut Vec<u64>, buf: &Vec<u8>)
    requires
        old(state)@.len() == 25,
        buf@.len() == 136,
    ensures
        final(state)@.len() == 25,
{
    let mut i: usize = 0;
    while i < 17
        invariant
            i <= 17,
            state@.len() == 25,
            buf@.len() == 136,
        decreases 17 - i,
    {
        let base = i * 8;
        let mut lane: u64 = 0;
        let mut k: usize = 0;
        while k < 8
            invariant
                k <= 8,
                i < 17,
                base == i * 8,
                state@.len() == 25,
                buf@.len() == 136,
            decreases 8 - k,
        {
            lane = lane | ((buf[base + k] as u64) << (8 * (k as u32)));
            k = k + 1;
        }
        let v = state[i] ^ lane;
        state.set(i, v);
        i = i + 1;
    }
    keccak(state);
}

/// SHA3-256 of a byte string: absorb full 136 byte blocks, pad the last
/// block with the domain bits, and read the first 32 bytes of the state in
/// little endian lane order.
pub fn sha3_256(data: &[u8]) -> (r: Vec<u8>)
    ensures
        r@.len() == 32,
{
    let mut state: Vec<u64> = Vec::new();
    let mut i: usize = 0;
    while i < 25
        invariant
            state@.len() == i,
            i <= 25,
        decreases 25 - i,
    {
        state.push(0);
        i = i + 1;
    }

    let len = data.len();
    let mut offset: usize = 0;
    while len - offset >= 136
        invariant
            offset <= len,
            len == data@.len(),
            state@.len() == 25,
        decreases len - offset,
    {
        let mut buf: Vec<u8> = Vec::new();
        let mut k: usize = 0;
        while k < 136
            invariant
                buf@.len() == k,
                k <= 136,
                offset + 136 <= len,
                len == data@.len(),
            decreases 136 - k,
        {
            buf.push(data[offset + k]);
            k = k + 1;
        }
        absorbing(&mut state, &buf);
        offset = offset + 136;
    }

    // The last, partial block: pad with the SHA3 domain byte and the final
    // bit.
    let rest = len - offset;
    let mut buf: Vec<u8> = Vec::new();
    let mut k: usize = 0;
    while k < rest
        invariant
            buf@.len() == k,
            k <= rest,
            rest < 136,
            offset + rest == len,
            len == data@.len(),
        decreases rest - k,
    {
        buf.push(data[offset + k]);
        k = k + 1;
    }
    buf.push(0x06);
    let mut k = rest + 1;
    while k < 136
        invariant
            buf@.len() == k,
            k <= 136,
            k >= 1,
        decreases 136 - k,
    {
        buf.push(0);
        k = k + 1;
    }
    let last = buf[135] ^ 0x80;
    buf.set(135, last);
    absorbing(&mut state, &buf);

    let mut hash: Vec<u8> = Vec::new();
    let mut lane_index: usize = 0;
    while lane_index < 4
        invariant
            hash@.len() == lane_index * 8,
            lane_index <= 4,
            state@.len() == 25,
        decreases 4 - lane_index,
    {
        let lane = state[lane_index];
        let mut k: usize = 0;
        while k < 8
            invariant
                hash@.len() == lane_index * 8 + k,
                k <= 8,
                lane_index < 4,
                state@.len() == 25,
            decreases 8 - k,
        {
            hash.push(((lane >> (8 * (k as u32))) & 0xff) as u8);
            k = k + 1;
        }
        lane_index = lane_index + 1;
    }
    hash
}

} // verus!
