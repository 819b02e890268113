//! The over-the-air update: the download loop's decisions and the check of a
//! partition's SHA-256 digest against its expected hex string.
use vstd::prelude::*;

verus! {

/// Size of the buffer that each chunk of the download is read into.
pub const WRITE_DATA_BUF_SIZE: usize = 4096;

/// The address of a firmware image: the update server's address followed by the
/// image's name.
pub fn ota_url(update_url: &str, firmware_meta: &str) -> (url: String)
    ensures
        url@ == update_url@ + firmware_meta@,
{
    let mut url: String = update_url.to_owned();
    url.append(firmware_meta);
    url
}

/// What to do with a chunk that has been read.
#[derive(Debug, Clone, Copy, PartialEq, Eq, Structural)]
pub struct ChunkStep {
    /// Write the buffer to the update partition.
    pub write: bool,
    /// The download is over.
    pub done: bool,
}

/// The progress of a download: the bytes read so far.
pub struct OtaProgress {
    total_size: u32,
}

impl OtaProgress {
    /// Bytes read so far.
    pub closed spec fn total(self) -> nat {
        self.total_size as nat
    }

    /// Nothing read yet.
    pub fn new() -> (p: Self)
        ensures
            p.total() == 0,
    {
        OtaProgress { total_size: 0 }
    }

    /// Bytes read so far.
    pub fn total_size(&self) -> (t: u32)
        ensures
            t == self.total(),
    {
        self.total_size
    }

    /// Takes a chunk of `read_bytes` bytes: the buffer is written out when the chunk
    /// is not empty, and the download ends with the first chunk that does not fill
    /// the buffer.
    pub fn on_chunk(&mut self, read_bytes: usize) -> (step: ChunkStep)
        requires
            read_bytes <= WRITE_DATA_BUF_SIZE,
            old(self).total() + read_bytes <= u32::MAX,
        ensures
            final(self).total() == old(self).total() + read_bytes,
            step == (ChunkStep { write: read_bytes > 0, done: read_bytes < WRITE_DATA_BUF_SIZE }),
    {
        let write = read_bytes > 0;
        self.total_size = self.total_size + read_bytes as u32;
        let done = read_bytes < WRITE_DATA_BUF_SIZE;
        ChunkStep { write, done }
    }
}

/// The lower-case hex digit of `n` (below 16).
pub open spec fn hex_digit(n: u8) -> char {
    seq!['0', '1', '2', '3', '4', '5', '6', '7', '8', '9', 'a', 'b', 'c', 'd', 'e', 'f'][n as int]
}

/// `bytes` in lower-case hex, two digits per byte, the high digit first.
pub open spec fn hex_lower(bytes: Seq<u8>) -> Seq<char>
    decreases bytes.len(),
{
    if bytes.len() == 0 {
        Seq::empty()
    } else {
        hex_lower(bytes.drop_last()) + seq![
            hex_digit(bytes.last() >> 4),
            hex_digit(bytes.last() & 0x0f),
        ]
    }
}

/// `bytes` in lower-case hex, two digits per byte.
pub fn to_hex_lower(bytes: &[u8]) -> (s: String)
    ensures
        s@ == hex_lower(bytes@),
{
    let digits = "0123456789abcdef";
    proof {
        reveal_strlit("0123456789abcdef");
    }
    assert(digits@ =~= seq!['0', '1', '2', '3', '4', '5', '6', '7', '8', '9', 'a', 'b', 'c', 'd', 'e', 'f']);
    let mut s = String::new();
    let n = bytes.len();
    let mut i: usize = 0;
    assert(bytes@.take(0) =~= Seq::<u8>::empty());
    while i < n
        invariant
            n == bytes@.len(),
            i <= n,
            digits@ == seq!['0', '1', '2', '3', '4', '5', '6', '7', '8', '9', 'a', 'b', 'c', 'd', 'e', 'f'],
            s@ == hex_lower(bytes@.take(i as int)),
        decreases n - i,
    {
        let byte = bytes[i];
        let high = (byte >> 4) as usize;
        let low = (byte & 0x0f) as usize;
        assert(byte >> 4 < 16 && byte & 0x0f < 16) by (bit_vector);
        s.append(digits.substring_char(high, high + 1));
        s.append(digits.substring_char(low, low + 1));
        assert(bytes@.take(i + 1).drop_last() =~= bytes@.take(i as int));
        assert(s@ =~= hex_lower(bytes@.take(i + 1)));
        i = i + 1;
    }
    assert(bytes@.take(n as int) =~= bytes@);
    s
}

/// Whether `hash` is the SHA-256 digest `sha256` written in lower-case hex.
pub fn check_hash(sha256: &[u8; 32], hash: String) -> (ok: bool)
    ensures
        ok == (hex_lower(sha256@) == hash@),
{
    let sha256_str = to_hex_lower(sha256);
    if sha256_str == hash {
        return true;
    }
    false
}

/// Two hex digits per byte.
pub proof fn law_hex_length(bytes: Seq<u8>)
    ensures
        hex_lower(bytes).len() == 2 * bytes.len(),
    decreases bytes.len(),
{
    if bytes.len() > 0 {
        law_hex_length(bytes.drop_last());
    }
}

/// The code of the lower-case hex digit of `n` (below 16): `'0' + n` below 10,
/// `'a' + (n - 10)` from 10 on.
proof fn lemma_hex_digit_code(n: u8)
    requires
        n < 16,
    ensures
        hex_digit(n) as u32 == (if n < 10 { 48 + n } else { 87 + n }),
{
    if n == 0 {
        assert(hex_digit(n) == '0');
    } else if n == 1 {
        assert(hex_digit(n) == '1');
    } else if n == 2 {
        assert(hex_digit(n) == '2');
    } else if n == 3 {
        assert(hex_digit(n) == '3');
    } else if n == 4 {
        assert(hex_digit(n) == '4');
    } else if n == 5 {
        assert(hex_digit(n) == '5');
    } else if n == 6 {
        assert(hex_digit(n) == '6');
    } else if n == 7 {
        assert(hex_digit(n) == '7');
    } else if n == 8 {
        assert(hex_digit(n) == '8');
    } else if n == 9 {
        assert(hex_digit(n) == '9');
    } else if n == 10 {
        assert(hex_digit(n) == 'a');
    } else if n == 11 {
        assert(hex_digit(n) == 'b');
    } else if n == 12 {
        assert(hex_digit(n) == 'c');
    } else if n == 13 {
        assert(hex_digit(n) == 'd');
    } else if n == 14 {
        assert(hex_digit(n) == 'e');
    } else if n == 15 {
        assert(hex_digit(n) == 'f');
    }
}

/// Byte `i` is written at places `2i` and `2i + 1` as `{:02x}` writes it: the
/// lower-case hex digit of `byte / 16`, then that of `byte % 16`, a digit `n` being
/// the character `'0' + n` below 10 and `'a' + (n - 10)` from 10 on.
pub proof fn law_hex_is_two_lower_digits_per_byte(bytes: Seq<u8>, i: int)
    requires
        0 <= i < bytes.len(),
    ensures
        hex_lower(bytes).len() == 2 * bytes.len(),
        hex_lower(bytes)[2 * i] as u32 == (if bytes[i] / 16 < 10 {
            48 + bytes[i] / 16
        } else {
            87 + bytes[i] / 16
        }),
        hex_lower(bytes)[2 * i + 1] as u32 == (if bytes[i] % 16 < 10 {
            48 + bytes[i] % 16
        } else {
            87 + bytes[i] % 16
        }),
    decreases bytes.len(),
{
    law_hex_length(bytes);
    let prefix = bytes.drop_last();
    law_hex_length(prefix);
    if i < bytes.len() - 1 {
        law_hex_is_two_lower_digits_per_byte(prefix, i);
        assert(hex_lower(bytes)[2 * i] == hex_lower(prefix)[2 * i]);
        assert(hex_lower(bytes)[2 * i + 1] == hex_lower(prefix)[2 * i + 1]);
    } else {
        let b = bytes.last();
        assert(b >> 4 == b / 16 && b & 0x0f == b % 16) by (bit_vector);
        lemma_hex_digit_code(b / 16);
        lemma_hex_digit_code(b % 16);
    }
}

proof fn lemma_hex_digit_injective(a: u8, b: u8)
    requires
        a < 16,
        b < 16,
        hex_digit(a) == hex_digit(b),
    ensures
        a == b,
{
}

/// Different digests have different hex strings: `check_hash` accepts exactly
/// one string for each digest.
pub proof fn law_hex_injective(a: Seq<u8>, b: Seq<u8>)
    requires
        hex_lower(a) == hex_lower(b),
    ensures
        a == b,
    decreases a.len(),
{
    law_hex_length(a);
    law_hex_length(b);
    if a.len() > 0 {
        let ha = hex_lower(a);
        let n = ha.len() as int;
        let x = a.last();
        let y = b.last();
        assert(ha[n - 2] == hex_digit(x >> 4));
        assert(hex_lower(b)[n - 2] == hex_digit(y >> 4));
        assert(ha[n - 1] == hex_digit(x & 0x0f));
        assert(hex_lower(b)[n - 1] == hex_digit(y & 0x0f));
        assert(x >> 4 < 16 && x & 0x0f < 16 && y >> 4 < 16 && y & 0x0f < 16) by (bit_vector);
        lemma_hex_digit_injective(x >> 4, y >> 4);
        lemma_hex_digit_injective(x & 0x0f, y & 0x0f);
        assert(x == y) by (bit_vector)
            requires
                x >> 4 == y >> 4,
                x & 0x0f == y & 0x0f,
        ;
        law_hex_length(a.drop_last());
        law_hex_length(b.drop_last());
        assert(hex_lower(a.drop_last()) =~= ha.subrange(0, n - 2));
        assert(hex_lower(b.drop_last()) =~= hex_lower(b).subrange(0, n - 2));
        law_hex_injective(a.drop_last(), b.drop_last());
        assert(a =~= a.drop_last().push(x));
        assert(b =~= b.drop_last().push(y));
    }
}

} // verus!
