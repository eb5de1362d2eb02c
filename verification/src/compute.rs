//! Read-back of the pixel buffer that the compute shader fills.
//!
//! The shader writes one `u32` per pixel of a `WIDTH` by `HEIGHT` image; a
//! read-back copies those words, byte for byte in the machine's byte order,
//! into a byte buffer of `BUFFER_SIZE` bytes.

use vstd::prelude::*;

verus! {

/// Width of the image that the compute shader renders.
pub const WIDTH: u32 = 480;

/// Height of the image that the compute shader renders.
pub const HEIGHT: u32 = 480;

/// Size in bytes of the rendered image: four bytes per pixel.
pub const BUFFER_SIZE: usize = 480 * 480 * 4;

/// Number of work groups dispatched: one per 256 pixels (480 * 480 / 256).
pub const WORK_GROUP_SIZE: i32 = 900;

/// The four bytes of `x`, least significant first.
pub open spec fn le_bytes(x: u32) -> Seq<u8> {
    seq![
        (x % 0x100) as u8,
        ((x / 0x100) % 0x100) as u8,
        ((x / 0x1_0000) % 0x100) as u8,
        (x / 0x100_0000) as u8,
    ]
}

/// The four bytes of `x`, most significant first.
pub open spec fn be_bytes(x: u32) -> Seq<u8> {
    seq![
        (x / 0x100_0000) as u8,
        ((x / 0x1_0000) % 0x100) as u8,
        ((x / 0x100) % 0x100) as u8,
        (x % 0x100) as u8,
    ]
}

/// The four bytes of `x` in the byte order of the machine.
pub open spec fn ne_bytes(x: u32) -> Seq<u8> {
    match vstd::endian::endianness() {
        vstd::endian::Endian::Little => le_bytes(x),
        vstd::endian::Endian::Big => be_bytes(x),
    }
}

/// The bytes of a sequence of words as they lie in memory: each word's four
/// bytes in the machine's byte order, word after word.
pub open spec fn words_as_bytes(words: Seq<u32>) -> Seq<u8> {
    Seq::new(4 * words.len(), |k: int| ne_bytes(words[k / 4])[k % 4])
}

/// Laid out in memory, a sequence of words takes four bytes per word, and
/// word `i` occupies bytes `4 * i .. 4 * i + 4`, in the machine's byte order.
pub proof fn lemma_words_lie_in_order(words: Seq<u32>)
    ensures
        words_as_bytes(words).len() == 4 * words.len(),
        forall|i: int, j: int| 0 <= i < words.len() && 0 <= j < 4
            ==> #[trigger] words_as_bytes(words)[4 * i + j] == ne_bytes(words[i])[j],
{
    assert forall|i: int, j: int| 0 <= i < words.len() && 0 <= j < 4
        implies #[trigger] words_as_bytes(words)[4 * i + j] == ne_bytes(words[i])[j] by {
        assert((4 * i + j) / 4 == i && (4 * i + j) % 4 == j);
    }
}

/// The message of the error that `fill_u8` returns before any read-back.
pub open spec fn no_readback_message() -> Seq<char> {
    "Command has never executed, so buffer is None"@
}

/// `u32::to_ne_bytes` of std: the four bytes of `x` in the machine's byte
/// order. Claimed: that order is the one that `vstd::endian::endianness`
/// names, the same for every call.
#[verifier::external_body]
fn u32_to_ne_bytes(x: u32) -> (bytes: [u8; 4])
    ensures
        bytes@ == ne_bytes(x),
{
    x.to_ne_bytes()
}

/// What a compute device has read back of the pixel buffer.
pub struct ComputeDevice {
    /// The words read back by the last completed dispatch, if any.
    pub buffer_u32: Option<Vec<u32>>,
}

impl ComputeDevice {
    /// A device that has read nothing back yet.
    pub fn new() -> (device: Self)
        ensures
            device.buffer_u32 is None,
    {
        ComputeDevice { buffer_u32: None }
    }

    /// Copies the words read back into `buffer_to_fill`, as the bytes they
    /// occupy in memory; fails, leaving the buffer as it was, when nothing
    /// has been read back yet.
    pub fn fill_u8(&self, buffer_to_fill: &mut [u8]) -> (result: Result<(), &str>)
        requires
            self.buffer_u32 matches Some(words) ==> old(buffer_to_fill)@.len() == 4 * words.len(),
        ensures
            self.buffer_u32 is None ==> {
                &&& result matches Err(message) && message@ == no_readback_message()
                &&& final(buffer_to_fill)@ == old(buffer_to_fill)@
            },
            self.buffer_u32 matches Some(words) ==> {
                &&& result is Ok
                &&& final(buffer_to_fill)@ == words_as_bytes(words@)
                &&& forall|i: int, j: int| 0 <= i < words@.len() && 0 <= j < 4
                    ==> #[trigger] final(buffer_to_fill)@[4 * i + j] == ne_bytes(words@[i])[j]
            },
    {
        let buffer = match &self.buffer_u32 {
            Some(b) => b,
            None => return Err("Command has never executed, so buffer is None"),
        };
        let ghost target = words_as_bytes(buffer@);
        let mut i: usize = 0;
        while i < buffer.len()
            invariant
                i <= buffer.len(),
                buffer_to_fill@.len() == 4 * buffer.len(),
                target == words_as_bytes(buffer@),
                forall|k: int| 0 <= k < 4 * i ==> #[trigger] buffer_to_fill@[k] == target[k],
            decreases buffer.len() - i,
        {
            let bytes = u32_to_ne_bytes(buffer[i]);
            let mut j: usize = 0;
            while j < 4
                invariant
                    i < buffer.len(),
                    j <= 4,
                    bytes@ == ne_bytes(buffer@[i as int]),
                    buffer_to_fill@.len() == 4 * buffer.len(),
                    target == words_as_bytes(buffer@),
                    forall|k: int| 0 <= k < 4 * i + j ==> #[trigger] buffer_to_fill@[k] == target[k],
                decreases 4 - j,
            {
                let k: usize = 4 * i + j;
                buffer_to_fill[k] = bytes[j];
                assert((k as int) / 4 == i && (k as int) % 4 == j);
                j = j + 1;
            }
            i = i + 1;
        }
        assert(buffer_to_fill@ =~= target);
        proof {
            lemma_words_lie_in_order(buffer@);
        }
        Ok(())
    }
}

} // verus!
