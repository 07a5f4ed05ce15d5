//! Elements as the bytes that a buffer holds.
//!
//! A buffer holds an element as the four bytes of its bit pattern, in
//! the byte order of the machine that fills and reads the buffer. The
//! library does not know that order: whoever calls says which it is.
use vstd::prelude::*;
use crate::dtype::Element;

verus! {

/// The four bytes of a word, least significant first or most significant
/// first.
pub open spec fn word_bytes(w: u32, little_endian: bool) -> Seq<u8> {
    let b0 = (w % 256) as u8;
    let b1 = ((w / 256) % 256) as u8;
    let b2 = ((w / 65536) % 256) as u8;
    let b3 = (w / 16777216) as u8;
    if little_endian {
        seq![b0, b1, b2, b3]
    } else {
        seq![b3, b2, b1, b0]
    }
}

/// The bytes of a run of words in one byte order.
pub open spec fn image_of(words: Seq<u32>, little_endian: bool) -> Seq<u8> {
    Seq::new(4 * words.len(), |i: int| word_bytes(words[i / 4], little_endian)[i % 4])
}

/// The byte at a position, or zero behind the last byte.
pub open spec fn byte_or_zero(bytes: Seq<u8>, at: int) -> u8 {
    if 0 <= at < bytes.len() {
        bytes[at]
    } else {
        0
    }
}

/// The word that four bytes make up in one byte order.
pub open spec fn word_of(b0: u8, b1: u8, b2: u8, b3: u8, little_endian: bool) -> u32 {
    if little_endian {
        (b0 + 256 * b1 + 65536 * b2 + 16777216 * b3) as u32
    } else {
        (b3 + 256 * b2 + 65536 * b1 + 16777216 * b0) as u32
    }
}

/// The `i`-th word that a run of bytes holds. Where the bytes end within
/// the word, zero bytes complete it.
pub open spec fn word_at(bytes: Seq<u8>, i: int, little_endian: bool) -> u32 {
    word_of(
        byte_or_zero(bytes, 4 * i),
        byte_or_zero(bytes, 4 * i + 1),
        byte_or_zero(bytes, 4 * i + 2),
        byte_or_zero(bytes, 4 * i + 3),
        little_endian,
    )
}

/// The words that a run of bytes holds in one byte order: one for every
/// four bytes, and one more for a ragged tail.
pub open spec fn words_in(bytes: Seq<u8>, little_endian: bool) -> Seq<u32> {
    Seq::new(((bytes.len() + 3) / 4) as nat, |i: int| word_at(bytes, i, little_endian))
}

/// The bit patterns of a run of elements.
pub open spec fn words_of<T: Element>(data: Seq<T>) -> Seq<u32> {
    Seq::new(data.len(), |i: int| data[i].word())
}

/// `bytes` are `words` as they lie in memory, in one of the two byte
/// orders a machine can have.
pub open spec fn is_memory_image(bytes: Seq<u8>, words: Seq<u32>) -> bool {
    bytes == image_of(words, true) || bytes == image_of(words, false)
}

/// `bytemuck::cast_slice` from `u32` to `u8`, copied into a vector. The
/// cast cannot fail in this direction. It reinterprets the memory of the
/// slice, so the result is four bytes per word in the byte order of the
/// machine; which of the two orders that is the contract leaves open.
#[verifier::external_body]
fn words_to_bytes(words: &[u32]) -> (bytes: Vec<u8>)
    ensures
        is_memory_image(bytes@, words@),
{
    bytemuck::cast_slice::<u32, u8>(words).to_vec()
}

/// Whether this machine keeps the least significant byte of a word
/// first, found out by looking at the word 1 as it lies in memory. The
/// answer is the machine's; every function that takes a byte order is
/// verified for either.
pub fn native_byte_order() -> (little_endian: bool) {
    let one: [u32; 1] = [1];
    let bytes = words_to_bytes(one.as_slice());
    assert(image_of(one@, true).len() == 4);
    assert(image_of(one@, false).len() == 4);
    bytes[0] == 1
}

/// The bytes of a word make up the word again.
pub proof fn lemma_word_round_trip(w: u32, little_endian: bool)
    ensures
        word_bytes(w, little_endian).len() == 4,
        word_of(
            word_bytes(w, little_endian)[0],
            word_bytes(w, little_endian)[1],
            word_bytes(w, little_endian)[2],
            word_bytes(w, little_endian)[3],
            little_endian,
        ) == w,
{
}

/// Reading the image of a run of words gives the words again.
pub proof fn lemma_words_round_trip(words: Seq<u32>, little_endian: bool)
    ensures
        words_in(image_of(words, little_endian), little_endian) == words,
{
    let image = image_of(words, little_endian);
    let back = words_in(image, little_endian);
    assert(back.len() == words.len());
    assert forall|i: int| 0 <= i < words.len() implies back[i] == words[i] by {
        lemma_word_round_trip(words[i], little_endian);
        assert(image[4 * i] == word_bytes(words[i], little_endian)[0]);
        assert(image[4 * i + 1] == word_bytes(words[i], little_endian)[1]);
        assert(image[4 * i + 2] == word_bytes(words[i], little_endian)[2]);
        assert(image[4 * i + 3] == word_bytes(words[i], little_endian)[3]);
    }
    assert(back =~= words);
}

/// Elements with the same bit patterns are the same elements.
pub proof fn lemma_same_words_same_elements<T: Element>(a: Seq<T>, b: Seq<T>)
    requires
        words_of(a) == words_of(b),
    ensures
        a == b,
{
    assert(a.len() == words_of(a).len());
    assert(b.len() == words_of(b).len());
    assert forall|i: int| 0 <= i < a.len() implies a[i] == b[i] by {
        assert(words_of(a)[i] == a[i].word());
        assert(words_of(b)[i] == b[i].word());
        T::lemma_word_names_element(a[i], b[i]);
    }
    assert(a =~= b);
}

/// Round trip on elements: whatever elements are read from the image of
/// a run of elements, in the byte order in which the image was made, are
/// the elements that the image was made of.
pub proof fn lemma_elements_round_trip<T: Element>(data: Seq<T>, back: Seq<T>, little_endian: bool)
    requires
        words_of(back) == words_in(image_of(words_of(data), little_endian), little_endian),
    ensures
        back == data,
{
    lemma_words_round_trip(words_of(data), little_endian);
    lemma_same_words_same_elements(back, data);
}

/// The bytes of a run of words in the given byte order, as a buffer
/// holds them.
pub fn encode_words(words: &[u32], little_endian: bool) -> (bytes: Vec<u8>)
    ensures
        bytes@ == image_of(words@, little_endian),
{
    let mut bytes: Vec<u8> = Vec::new();
    let mut i: usize = 0;
    while i < words.len()
        invariant
            i <= words@.len(),
            bytes@ == image_of(words@.take(i as int), little_endian),
        decreases words@.len() - i,
    {
        let w: u32 = words[i];
        let b0: u8 = (w % 256) as u8;
        let b1: u8 = ((w / 256) % 256) as u8;
        let b2: u8 = ((w / 65536) % 256) as u8;
        let b3: u8 = (w / 16777216) as u8;
        let ghost before = bytes@;
        if little_endian {
            bytes.push(b0);
            bytes.push(b1);
            bytes.push(b2);
            bytes.push(b3);
        } else {
            bytes.push(b3);
            bytes.push(b2);
            bytes.push(b1);
            bytes.push(b0);
        }
        proof {
            let next = image_of(words@.take(i + 1), little_endian);
            assert(bytes@ == before + word_bytes(w, little_endian));
            assert(bytes@.len() == next.len());
            assert forall|k: int| 0 <= k < next.len() implies bytes@[k] == next[k] by {
                if k < 4 * i {
                    assert(before[k] == word_bytes(words@.take(i as int)[k / 4], little_endian)[k
                        % 4]);
                } else {
                    assert(k / 4 == i);
                    assert(k % 4 == k - 4 * i);
                }
            }
            assert(bytes@ =~= next);
        }
        i += 1;
    }
    assert(words@.take(words@.len() as int) == words@);
    bytes
}

/// The bytes of a run of elements in the given byte order, as a buffer
/// holds them: four per element.
pub fn encode<T: Element>(data: &[T], little_endian: bool) -> (bytes: Vec<u8>)
    ensures
        bytes@ == image_of(words_of(data@), little_endian),
        bytes@.len() == 4 * data@.len(),
{
    let mut words: Vec<u32> = Vec::new();
    let mut i: usize = 0;
    while i < data.len()
        invariant
            i <= data@.len(),
            words@ == words_of(data@.take(i as int)),
        decreases data@.len() - i,
    {
        words.push(data[i].to_word());
        i += 1;
    }
    assert(data@.take(data@.len() as int) == data@);
    encode_words(words.as_slice(), little_endian)
}

fn byte_at(bytes: &[u8], at: usize) -> (b: u8)
    ensures
        b == byte_or_zero(bytes@, at as int),
{
    if at < bytes.len() {
        bytes[at]
    } else {
        0
    }
}

/// The elements that a run of bytes holds in the given byte order. Where
/// the number of bytes is no multiple of four, the last element is
/// completed with zero bytes.
pub fn decode<T: Element>(bytes: &[u8], little_endian: bool) -> (data: Vec<T>)
    ensures
        words_of(data@) == words_in(bytes@, little_endian),
{
    let n: usize = bytes.len();
    let whole: usize = n / 4;
    let count: usize = if n % 4 == 0 {
        whole
    } else {
        whole + 1
    };
    assert(count == (bytes@.len() + 3) / 4);
    let mut data: Vec<T> = Vec::new();
    let mut i: usize = 0;
    while i < count
        invariant
            i <= count,
            n == bytes@.len(),
            count == (n + 3) / 4,
            data@.len() == i,
            words_of(data@) == words_in(bytes@, little_endian).take(i as int),
        decreases count - i,
    {
        assert(4 * i < n);
        let base: usize = 4 * i;
        let b0: u32 = byte_at(bytes, base) as u32;
        let b1: u32 = if base < usize::MAX {
            byte_at(bytes, base + 1) as u32
        } else {
            0
        };
        let b2: u32 = if base < usize::MAX - 1 {
            byte_at(bytes, base + 2) as u32
        } else {
            0
        };
        let b3: u32 = if base < usize::MAX - 2 {
            byte_at(bytes, base + 3) as u32
        } else {
            0
        };
        let w: u32 = if little_endian {
            b0 + 256 * b1 + 65536 * b2 + 16777216 * b3
        } else {
            b3 + 256 * b2 + 65536 * b1 + 16777216 * b0
        };
        assert(w == word_at(bytes@, i as int, little_endian));
        let e = T::from_word(w);
        proof {
            let next = data@.push(e);
            let target = words_in(bytes@, little_endian).take(i + 1);
            assert(words_of(next).len() == target.len());
            assert forall|k: int| 0 <= k < i + 1 implies words_of(next)[k] == target[k] by {
                if k < i {
                    assert(words_of(data@)[k] == words_in(bytes@, little_endian).take(i as int)[k]);
                }
            }
            assert(words_of(next) =~= target);
        }
        data.push(e);
        i += 1;
    }
    assert(words_in(bytes@, little_endian).take(count as int) == words_in(bytes@, little_endian));
    data
}

} // verus!
