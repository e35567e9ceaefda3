//! The checksum by which the backend knows a file that it has already: the first half of its
//! SHA-256, in hexadecimal.
use vstd::prelude::*;
use sha2::Digest;

verus! {

/// sha2's `Sha256`: a hash that is being computed. It is carried without being looked into.
#[verifier::external_type_specification]
#[verifier::external_body]
pub struct ExSha256(sha2::Sha256);

/// The bytes that a hash has taken in.
pub uninterp spec fn absorbed(hasher: sha2::Sha256) -> Seq<u8>;

/// The SHA-256 of some bytes.
pub uninterp spec fn sha256(data: Seq<u8>) -> Seq<u8>;

/// How many bytes a hash can take in: their number is kept in bits.
pub const MAX_HASHED: u64 = 0x1fff_ffff_ffff_ffff;

/// `Sha256::new`: a hash that has taken nothing in.
#[verifier::external_body]
fn sha256_new() -> (r: sha2::Sha256)
    ensures
        absorbed(r) == Seq::<u8>::empty(),
{
    sha2::Sha256::new()
}

/// `Sha256::update`: takes bytes in, behind those that came before. Their number in all is kept
/// within what a hash can take in.
#[verifier::external_body]
fn sha256_update(hasher: &mut sha2::Sha256, data: &[u8])
    requires
        absorbed(*old(hasher)).len() + data@.len() <= MAX_HASHED,
    ensures
        absorbed(*final(hasher)) == absorbed(*old(hasher)) + data@,
{
    hasher.update(data)
}

/// `Sha256::finalize`: the 32 bytes of the SHA-256 of what was taken in, a function of those bytes.
#[verifier::external_body]
fn sha256_finalize(hasher: sha2::Sha256) -> (r: Vec<u8>)
    requires
        absorbed(hasher).len() <= MAX_HASHED,
    ensures
        r@ == sha256(absorbed(hasher)),
        r@.len() == 32,
{
    hasher.finalize().to_vec()
}

/// A hexadecimal digit.
pub open spec fn hex_digit(n: nat) -> char {
    if n < 10 {
        (48 + n) as char
    } else {
        (87 + n) as char
    }
}

/// Bytes in hexadecimal, two digits for each.
pub open spec fn hex(bytes: Seq<u8>) -> Seq<char>
    decreases bytes.len(),
{
    if bytes.len() == 0 {
        Seq::empty()
    } else {
        hex(bytes.drop_last()).push(hex_digit((bytes.last() / 16) as nat)).push(
            hex_digit((bytes.last() % 16) as nat),
        )
    }
}

/// The checksum of a file: the first 16 bytes of its SHA-256, in hexadecimal.
pub open spec fn checksum_of(data: Seq<u8>) -> Seq<char> {
    hex(sha256(data).take(16))
}

fn hex_char(n: u8) -> (r: char)
    requires
        n < 16,
    ensures
        r == hex_digit(n as nat),
{
    match n {
        0 => '0',
        1 => '1',
        2 => '2',
        3 => '3',
        4 => '4',
        5 => '5',
        6 => '6',
        7 => '7',
        8 => '8',
        9 => '9',
        10 => 'a',
        11 => 'b',
        12 => 'c',
        13 => 'd',
        14 => 'e',
        _ => 'f',
    }
}

/// The first `count` bytes in hexadecimal.
pub fn hex_text(bytes: &Vec<u8>, count: usize) -> (r: String)
    requires
        count <= bytes@.len(),
    ensures
        r@ == hex(bytes@.take(count as int)),
{
    let mut out = String::new();
    let mut i: usize = 0;
    assert(bytes@.take(0) =~= Seq::empty());
    while i < count
        invariant
            i <= count <= bytes@.len(),
            out@ == hex(bytes@.take(i as int)),
        decreases count - i,
    {
        assert(bytes@.take(i + 1).drop_last() =~= bytes@.take(i as int));
        out.push(hex_char(bytes[i] / 16));
        out.push(hex_char(bytes[i] % 16));
        i = i + 1;
    }
    out
}

/// The checksum of a file that is being read piece by piece.
pub struct FileHasher {
    hasher: sha2::Sha256,
    taken: u64,
}

impl View for FileHasher {
    type V = Seq<u8>;

    closed spec fn view(&self) -> Seq<u8> {
        absorbed(self.hasher)
    }
}

impl FileHasher {
    /// The bytes so far are as many as were counted.
    pub closed spec fn wf(&self) -> bool {
        self.taken == self@.len() && self.taken <= MAX_HASHED
    }

    /// Nothing has been read.
    pub fn new() -> (r: Self)
        ensures
            r.wf(),
            r@ == Seq::<u8>::empty(),
    {
        FileHasher { hasher: sha256_new(), taken: 0 }
    }

    /// Whether a piece of this length can still be taken in.
    pub fn has_room(&self, len: usize) -> (r: bool)
        requires
            self.wf(),
        ensures
            r == (self@.len() + len <= MAX_HASHED),
    {
        len as u64 <= MAX_HASHED - self.taken
    }

    /// Takes in the next piece.
    pub fn absorb(&mut self, piece: &[u8])
        requires
            old(self).wf(),
            old(self)@.len() + piece@.len() <= MAX_HASHED,
        ensures
            final(self).wf(),
            final(self)@ == old(self)@ + piece@,
    {
        sha256_update(&mut self.hasher, piece);
        self.taken = self.taken + piece.len() as u64;
    }

    /// The checksum of what was read.
    pub fn checksum(self) -> (r: String)
        requires
            self.wf(),
        ensures
            r@ == checksum_of(self@),
    {
        let digest = sha256_finalize(self.hasher);
        hex_text(&digest, 16)
    }
}

/// However a file is cut into two pieces, what is taken in is the file.
pub proof fn law_pieces_do_not_matter(file: Seq<u8>, cut: int)
    requires
        0 <= cut <= file.len(),
    ensures
        checksum_of((Seq::<u8>::empty() + file.take(cut)) + file.skip(cut)) == checksum_of(file),
{
    assert((Seq::<u8>::empty() + file.take(cut)) + file.skip(cut) =~= file);
}

/// Every byte is written as two of the sixteen digits, the higher half first.
pub proof fn law_hex(bytes: Seq<u8>, i: int)
    ensures
        hex(bytes).len() == 2 * bytes.len(),
        0 <= i < bytes.len() ==> hex(bytes)[2 * i] == "0123456789abcdef"@[bytes[i] as int / 16],
        0 <= i < bytes.len() ==> hex(bytes)[2 * i + 1] == "0123456789abcdef"@[bytes[i] as int % 16],
    decreases bytes.len(),
{
    reveal_strlit("0123456789abcdef");
    if bytes.len() > 0 {
        let fewer = bytes.drop_last();
        law_hex(fewer, i);
        let last = bytes.last();
        assert(hex_digit((last / 16) as nat) == "0123456789abcdef"@[last as int / 16]);
        assert(hex_digit((last % 16) as nat) == "0123456789abcdef"@[last as int % 16]);
        if 0 <= i < fewer.len() {
            assert(fewer[i] == bytes[i]);
            assert(hex(bytes)[2 * i] == hex(fewer)[2 * i]);
            assert(hex(bytes)[2 * i + 1] == hex(fewer)[2 * i + 1]);
        }
    }
}

/// A checksum is the first half of the hash of the bytes, in thirty-two digits.
pub proof fn law_checksum(data: Seq<u8>, i: int)
    requires
        sha256(data).len() == 32,
    ensures
        checksum_of(data).len() == 32,
        0 <= i < 16 ==> checksum_of(data)[2 * i] == "0123456789abcdef"@[sha256(data)[i] as int / 16],
        0 <= i < 16 ==> checksum_of(data)[2 * i + 1] == "0123456789abcdef"@[sha256(data)[i] as int % 16],
{
    law_hex(sha256(data).take(16), i);
}

} // verus!
