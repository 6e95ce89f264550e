//! What holds of the keystream and the transform for every passphrase and
//! every input.
use vstd::arithmetic::div_mod::{lemma_add_mod_noop_right, lemma_small_mod};
use vstd::prelude::*;

use crate::keystream::{
    cursor_after, cycle_of, emitted, pad_of, xor_in_chunks, xor_with, KeyView, Mode, PAD_MASK,
};

verus! {

proof fn lemma_xor_byte_twice(a: u8, b: u8)
    ensures
        (a ^ b) ^ b == a,
{
    assert((a ^ b) ^ b == a) by (bit_vector);
}

proof fn lemma_xor_twice(data: Seq<u8>, ks: Seq<u8>, start: nat)
    requires
        ks.len() > 0,
    ensures
        xor_with(xor_with(data, ks, start), ks, start) == data,
{
    let once = xor_with(data, ks, start);
    assert forall|i: int| 0 <= i < data.len() implies #[trigger] xor_with(once, ks, start)[i]
        == data[i] by {
        lemma_xor_byte_twice(data[i], ks[(start + i) % (ks.len() as int)]);
    }
    assert(xor_with(once, ks, start) =~= data);
}

proof fn lemma_xor_split(data: Seq<u8>, ks: Seq<u8>, start: nat, n: int)
    requires
        ks.len() > 0,
        0 <= n <= data.len(),
    ensures
        xor_with(data, ks, start) == xor_with(data.take(n), ks, start) + xor_with(
            data.skip(n),
            ks,
            ((start + n) % (ks.len() as int)) as nat,
        ),
{
    let next = ((start + n) % (ks.len() as int)) as nat;
    let whole = xor_with(data, ks, start);
    let parts = xor_with(data.take(n), ks, start) + xor_with(data.skip(n), ks, next);
    assert forall|j: int| n <= j < data.len() implies #[trigger] whole[j] == parts[j] by {
        lemma_add_mod_noop_right(j - n, start + n, ks.len() as int);
    }
    assert(whole =~= parts);
}

proof fn lemma_chunks_from(data: Seq<u8>, ks: Seq<u8>, start: nat, size: nat)
    requires
        ks.len() > 0,
        size > 0,
    ensures
        xor_in_chunks(data, ks, start, size) == xor_with(data, ks, start),
    decreases data.len(),
{
    if data.len() > size {
        lemma_xor_split(data, ks, start, size as int);
        lemma_chunks_from(
            data.skip(size as int),
            ks,
            ((start + size) % ks.len()) as nat,
            size,
        );
    }
}

proof fn lemma_draws(v: KeyView, n: nat)
    requires
        v.stream.len() > 0,
        v.cursor < v.stream.len(),
    ensures
        cursor_after(v, n) == (v.cursor + n) % v.stream.len(),
        emitted(v, n) =~= Seq::new(n, |i: int| v.stream[(v.cursor + i) % (v.stream.len() as int)]),
    decreases n,
{
    if n == 0 {
        lemma_small_mod(v.cursor, v.stream.len());
    } else {
        lemma_draws(v, (n - 1) as nat);
        lemma_add_mod_noop_right(1, v.cursor + n - 1, v.stream.len() as int);
    }
}

/// Masking twice with the same passphrase, the generator reset in between,
/// gives back the original bytes: decryption is encryption.
pub proof fn lemma_round_trip(pass: Seq<u8>, mode: Mode, data: Seq<u8>)
    requires
        pass.len() > 0,
    ensures
        xor_with(xor_with(data, cycle_of(pass, mode), 0), cycle_of(pass, mode), 0) == data,
{
    lemma_xor_twice(data, cycle_of(pass, mode), 0);
}

/// Whatever positive chunk size the driver reads with, the output is the
/// same, and it is exactly as long as the input.
pub proof fn lemma_chunk_size_irrelevant(pass: Seq<u8>, mode: Mode, data: Seq<u8>, size: nat)
    requires
        pass.len() > 0,
        size > 0,
    ensures
        xor_in_chunks(data, cycle_of(pass, mode), 0, size) == xor_with(
            data,
            cycle_of(pass, mode),
            0,
        ),
        xor_in_chunks(data, cycle_of(pass, mode), 0, size).len() == data.len(),
{
    lemma_chunks_from(data, cycle_of(pass, mode), 0, size);
}

/// Two runs with the same passphrase and mode over the same input produce
/// the same bytes.
pub proof fn lemma_deterministic(
    pass1: Seq<u8>,
    pass2: Seq<u8>,
    mode: Mode,
    data1: Seq<u8>,
    data2: Seq<u8>,
)
    requires
        pass1 == pass2,
        data1 == data2,
    ensures
        xor_with(data1, cycle_of(pass1, mode), 0) == xor_with(data2, cycle_of(pass2, mode), 0),
{
}

/// In padded mode, `2 * L` draws from a fresh generator bring the cursor back
/// to the start, and the bytes drawn are the passphrase followed by each of
/// its bytes XORed with `PAD_MASK`.
pub proof fn lemma_padded_cycle(pass: Seq<u8>)
    requires
        pass.len() > 0,
    ensures
        ({
            let v = KeyView { stream: cycle_of(pass, Mode::Padded), cursor: 0 };
            &&& v.stream.len() == 2 * pass.len()
            &&& cursor_after(v, 2 * pass.len()) == 0
            &&& emitted(v, 2 * pass.len()) == pass + pad_of(pass)
            &&& forall|i: int|
                0 <= i < pass.len() ==> #[trigger] emitted(v, 2 * pass.len())[pass.len() + i]
                    == pass[i] ^ PAD_MASK
        }),
{
    let v = KeyView { stream: cycle_of(pass, Mode::Padded), cursor: 0 };
    let n = 2 * pass.len();
    lemma_draws(v, n);
    assert forall|i: int| 0 <= i < n implies #[trigger] emitted(v, n)[i] == v.stream[i] by {
        lemma_small_mod(i as nat, n);
    }
    assert(emitted(v, n) =~= pass + pad_of(pass));
}

} // verus!
