//! The keystream generator: a passphrase, optionally followed by a padding
//! block, played back cyclically one byte at a time.
use vstd::prelude::*;
use vstd::arithmetic::div_mod::{lemma_add_mod_noop_right, lemma_mod_self_0, lemma_small_mod};
use vstd::string::StringSliceAdditionalSpecFns;
use vstd::utf8::encode_utf8;

verus! {

/// The constant that each passphrase byte is XORed with to form the padding.
pub const PAD_MASK: u8 = 0x5B;

/// How the keystream buffer is derived from the passphrase.
#[derive(Clone, Copy, Debug, PartialEq, Eq, Structural)]
pub enum Mode {
    /// The passphrase bytes alone: the cycle is as long as the passphrase.
    Simple,
    /// The passphrase bytes followed by the padding block: twice as long.
    Padded,
}

/// Why a key could not be built.
#[derive(Clone, Copy, Debug, PartialEq, Eq, Structural)]
pub enum KeyError {
    /// The passphrase holds no bytes.
    Empty,
}

/// The padding block of a passphrase: each byte XORed with `PAD_MASK`.
pub open spec fn pad_of(p: Seq<u8>) -> Seq<u8> {
    Seq::new(p.len(), |i: int| p[i] ^ PAD_MASK)
}

/// The bytes of one full keystream cycle.
pub open spec fn cycle_of(p: Seq<u8>, mode: Mode) -> Seq<u8> {
    match mode {
        Mode::Simple => p,
        Mode::Padded => p + pad_of(p),
    }
}

/// `data` masked byte by byte with the keystream cycle `ks`, read from
/// position `start` on and wrapping round at its end.
pub open spec fn xor_with(data: Seq<u8>, ks: Seq<u8>, start: nat) -> Seq<u8> {
    Seq::new(data.len(), |i: int| data[i] ^ ks[(start + i) % (ks.len() as int)])
}

/// The position of the cursor after `n` bytes have been drawn from `v`.
pub open spec fn cursor_after(v: KeyView, n: nat) -> nat
    decreases n,
{
    if n == 0 {
        v.cursor
    } else {
        ((cursor_after(v, (n - 1) as nat) + 1) % v.stream.len()) as nat
    }
}

/// The first `n` bytes drawn from `v`, in order.
pub open spec fn emitted(v: KeyView, n: nat) -> Seq<u8>
    decreases n,
{
    if n == 0 {
        seq![]
    } else {
        emitted(v, (n - 1) as nat).push(v.stream[cursor_after(v, (n - 1) as nat) as int])
    }
}

/// What a driver produces that masks `data` chunk by chunk, `size` bytes at a
/// time, carrying the cursor from one chunk to the next.
pub open spec fn xor_in_chunks(data: Seq<u8>, ks: Seq<u8>, start: nat, size: nat) -> Seq<u8>
    decreases data.len(),
{
    if size == 0 || data.len() <= size {
        xor_with(data, ks, start)
    } else {
        xor_with(data.take(size as int), ks, start) + xor_in_chunks(
            data.skip(size as int),
            ks,
            ((start + size) % ks.len()) as nat,
            size,
        )
    }
}

/// The characters of `s` without its leading and trailing whitespace.
pub uninterp spec fn trimmed(s: Seq<char>) -> Seq<char>;

/// Relies on `str::trim`: the result depends on the characters of `s` alone.
#[verifier::external_body]
fn trim_line(s: &str) -> (r: &str)
    ensures
        r@ == trimmed(s@),
{
    s.trim()
}

/// The abstract state of a generator: one cycle of the keystream and the
/// position of the next byte in it.
pub struct KeyView {
    pub stream: Seq<u8>,
    pub cursor: nat,
}

/// A keystream generator.
pub struct Key {
    key: Vec<u8>,
    index: usize,
}

impl View for Key {
    type V = KeyView;

    closed spec fn view(&self) -> KeyView {
        KeyView { stream: self.key@, cursor: self.index as nat }
    }
}

fn padding_of_bytes(data: &[u8]) -> (r: Vec<u8>)
    ensures
        r@ == pad_of(data@),
{
    let mut padding: Vec<u8> = Vec::with_capacity(data.len());
    let mut i: usize = 0;
    while i < data.len()
        invariant
            i <= data@.len(),
            padding@ == pad_of(data@.take(i as int)),
        decreases data@.len() - i,
    {
        padding.push(data[i] ^ PAD_MASK);
        i += 1;
        assert(padding@ =~= pad_of(data@.take(i as int)));
    }
    assert(data@.take(i as int) =~= data@);
    padding
}

/// The padding block of a passphrase: each of its bytes XORed with `PAD_MASK`.
pub fn generate_padding(data: &str) -> (r: Vec<u8>)
    ensures
        r@ == pad_of(data.spec_bytes()),
{
    padding_of_bytes(data.as_bytes())
}

impl Key {
    /// Well-formed: the cycle is not empty and the cursor lies inside it.
    pub open spec fn wf(&self) -> bool {
        0 < self@.stream.len() && self@.cursor < self@.stream.len()
    }

    /// A generator over the padded keystream of `data`, at its first byte.
    pub fn new(data: &str) -> (r: Result<Key, KeyError>)
        ensures
            r is Err <==> data.spec_bytes().len() == 0,
            r is Err ==> r == Err::<Key, KeyError>(KeyError::Empty),
            r is Ok ==> r->Ok_0.wf() && r->Ok_0@ == (KeyView {
                stream: cycle_of(data.spec_bytes(), Mode::Padded),
                cursor: 0,
            }),
    {
        Key::with_mode(data.as_bytes(), Mode::Padded)
    }

    /// A generator over the padded keystream of a line of input, once
    /// leading and trailing whitespace is trimmed from it. A line that holds
    /// only whitespace gives `KeyError::Empty`.
    pub fn from_line(line: &str) -> (r: Result<Key, KeyError>)
        ensures
            r is Err <==> encode_utf8(trimmed(line@)).len() == 0,
            r is Err ==> r == Err::<Key, KeyError>(KeyError::Empty),
            r is Ok ==> r->Ok_0.wf() && r->Ok_0@ == (KeyView {
                stream: cycle_of(encode_utf8(trimmed(line@)), Mode::Padded),
                cursor: 0,
            }),
    {
        Key::new(trim_line(line))
    }

    /// A generator over the keystream of `data` in the given mode, at its
    /// first byte.
    pub fn with_mode(data: &[u8], mode: Mode) -> (r: Result<Key, KeyError>)
        ensures
            r is Err <==> data@.len() == 0,
            r is Err ==> r == Err::<Key, KeyError>(KeyError::Empty),
            r is Ok ==> r->Ok_0.wf() && r->Ok_0@ == (KeyView {
                stream: cycle_of(data@, mode),
                cursor: 0,
            }),
    {
        if data.len() == 0 {
            return Err(KeyError::Empty);
        }
        let mut key: Vec<u8> = vstd::slice::slice_to_vec(data);
        match mode {
            Mode::Simple => {},
            Mode::Padded => {
                let mut padding = padding_of_bytes(data);
                key.append(&mut padding);
            },
        }
        Ok(Key { key, index: 0 })
    }

    /// The byte at the cursor; the cursor then moves on, back to the start
    /// after the last byte of the cycle.
    pub fn next(&mut self) -> (b: u8)
        requires
            old(self).wf(),
        ensures
            final(self).wf(),
            b == old(self)@.stream[old(self)@.cursor as int],
            final(self)@ == (KeyView {
                stream: old(self)@.stream,
                cursor: ((old(self)@.cursor + 1) % old(self)@.stream.len()) as nat,
            }),
    {
        let value = self.key[self.index];
        if self.index == self.key.len() - 1 {
            proof {
                lemma_mod_self_0(self.key@.len() as int);
            }
            self.index = 0;
        } else {
            proof {
                lemma_small_mod((self.index + 1) as nat, self.key@.len() as nat);
            }
            self.index += 1;
        }
        value
    }

    /// Masks `chunk` in place with the next `chunk.len()` keystream bytes.
    pub fn apply(&mut self, chunk: &mut [u8])
        requires
            old(self).wf(),
        ensures
            final(self).wf(),
            final(chunk)@ == xor_with(old(chunk)@, old(self)@.stream, old(self)@.cursor),
            final(self)@ == (KeyView {
                stream: old(self)@.stream,
                cursor: ((old(self)@.cursor + old(chunk)@.len()) % old(self)@.stream.len()) as nat,
            }),
    {
        let ghost ks = self@.stream;
        let ghost c = self@.cursor;
        let ghost input = chunk@;
        proof {
            lemma_small_mod(c, ks.len());
        }
        let mut i: usize = 0;
        while i < chunk.len()
            invariant
                self.wf(),
                self@.stream == ks,
                ks.len() > 0,
                i <= chunk@.len(),
                chunk@.len() == input.len(),
                self@.cursor == (c + i) % (ks.len() as int),
                forall|j: int| 0 <= j < i ==> chunk@[j] == #[trigger] xor_with(input, ks, c)[j],
                forall|j: int| i <= j < chunk@.len() ==> chunk@[j] == input[j],
            decreases chunk@.len() - i,
        {
            let b = self.next();
            proof {
                lemma_add_mod_noop_right(1, c + i, ks.len() as int);
            }
            chunk[i] = chunk[i] ^ b;
            i += 1;
        }
        assert(chunk@ =~= xor_with(input, ks, c));
    }

    /// Moves the cursor back to the start of the cycle.
    pub fn reset(&mut self)
        requires
            old(self).wf(),
        ensures
            final(self).wf(),
            final(self)@ == (KeyView { stream: old(self)@.stream, cursor: 0 }),
    {
        self.index = 0;
    }
}

} // verus!
