//! Hidden volumes: a second vault inside the second half of an outer vault's
//! blocks, keyed by a password whose salt is the outer salt XOR a fixed mask.

use vstd::prelude::*;
use crate::bytes::{push_all, copy_range, pad_zeros, zeros};
use crate::crypto::keys::{password_key, kdf_refusal};
use crate::crypto::primitives::{xchacha_open, xchacha_seal, random_bytes,
    xchacha20poly1305_encrypt, xchacha20poly1305_decrypt};
use crate::error::VaultError;
use crate::vault::block::{BLOCK_SIZE, NONCE_SIZE, PAYLOAD_SIZE, HEADER_SALT_SIZE, open_block_spec, padded_payload};
use crate::vault::directory::Directory;
use crate::vault::filesystem::{Vault, BlockWrite, max_block_index, is_chunk_count, block_offset_spec, chunk,
    framed, unframe_spec, stored_after, block_at, read_stored, blocks_of, lemma_offset_index};
use vstd::string::StringSliceAdditionalSpecFns;

verus! {

/// The mask that turns the outer salt into the inner one.
pub open spec fn hidden_volume_magic() -> Seq<u8> {
    seq![
        0x7au8, 0x3f, 0x8c, 0x2d, 0xe1, 0x9b, 0x5f, 0x0a,
        0xc4, 0x72, 0x1e, 0x88, 0x3d, 0xa6, 0x59, 0xf0,
        0x2b, 0x94, 0x6d, 0xe3, 0x17, 0x8a, 0x4c, 0xf5,
        0x0d, 0x61, 0xb8, 0x23, 0x9e, 0x47, 0xca, 0x76,
    ]
}

/// The salt of the inner volume.
pub open spec fn inner_salt(salt: Seq<u8>) -> Seq<u8> {
    Seq::new(32, |i: int| salt[i] ^ hidden_volume_magic()[i])
}

/// The inner salt is the outer salt masked byte by byte with the constant
/// 7a 3f 8c 2d e1 9b 5f 0a c4 72 1e 88 3d a6 59 f0 2b 94 6d e3 17 8a 4c f5
/// 0d 61 b8 23 9e 47 ca 76; every byte of that constant is non-zero, so the
/// inner salt differs from the outer one in every byte (the inner key is
/// never derived from the outer salt), and masking twice gives the outer
/// salt back.
pub proof fn lemma_inner_salt_masks(salt: Seq<u8>)
    requires
        salt.len() == 32,
    ensures
        inner_salt(salt) == Seq::new(32, |i: int| salt[i] ^ seq![
            0x7au8, 0x3f, 0x8c, 0x2d, 0xe1, 0x9b, 0x5f, 0x0a,
            0xc4, 0x72, 0x1e, 0x88, 0x3d, 0xa6, 0x59, 0xf0,
            0x2b, 0x94, 0x6d, 0xe3, 0x17, 0x8a, 0x4c, 0xf5,
            0x0d, 0x61, 0xb8, 0x23, 0x9e, 0x47, 0xca, 0x76,
        ][i]),
        forall|i: int| 0 <= i < 32 ==> #[trigger] inner_salt(salt)[i] != salt[i],
        inner_salt(inner_salt(salt)) == salt,
{
    assert(hidden_volume_magic()[0] == 0x7au8);
    assert(hidden_volume_magic()[1] == 0x3fu8);
    assert(hidden_volume_magic()[2] == 0x8cu8);
    assert(hidden_volume_magic()[3] == 0x2du8);
    assert(hidden_volume_magic()[4] == 0xe1u8);
    assert(hidden_volume_magic()[5] == 0x9bu8);
    assert(hidden_volume_magic()[6] == 0x5fu8);
    assert(hidden_volume_magic()[7] == 0x0au8);
    assert(hidden_volume_magic()[8] == 0xc4u8);
    assert(hidden_volume_magic()[9] == 0x72u8);
    assert(hidden_volume_magic()[10] == 0x1eu8);
    assert(hidden_volume_magic()[11] == 0x88u8);
    assert(hidden_volume_magic()[12] == 0x3du8);
    assert(hidden_volume_magic()[13] == 0xa6u8);
    assert(hidden_volume_magic()[14] == 0x59u8);
    assert(hidden_volume_magic()[15] == 0xf0u8);
    assert(hidden_volume_magic()[16] == 0x2bu8);
    assert(hidden_volume_magic()[17] == 0x94u8);
    assert(hidden_volume_magic()[18] == 0x6du8);
    assert(hidden_volume_magic()[19] == 0xe3u8);
    assert(hidden_volume_magic()[20] == 0x17u8);
    assert(hidden_volume_magic()[21] == 0x8au8);
    assert(hidden_volume_magic()[22] == 0x4cu8);
    assert(hidden_volume_magic()[23] == 0xf5u8);
    assert(hidden_volume_magic()[24] == 0x0du8);
    assert(hidden_volume_magic()[25] == 0x61u8);
    assert(hidden_volume_magic()[26] == 0xb8u8);
    assert(hidden_volume_magic()[27] == 0x23u8);
    assert(hidden_volume_magic()[28] == 0x9eu8);
    assert(hidden_volume_magic()[29] == 0x47u8);
    assert(hidden_volume_magic()[30] == 0xcau8);
    assert(hidden_volume_magic()[31] == 0x76u8);
    assert forall|i: int| 0 <= i < 32 implies #[trigger] inner_salt(salt)[i] != salt[i] by {
        assert(i == 0 || i == 1 || i == 2 || i == 3 || i == 4 || i == 5 || i == 6 || i == 7 || i == 8 || i == 9 || i == 10 || i == 11 || i == 12 || i == 13 || i == 14 || i == 15 || i == 16 || i == 17 || i == 18 || i == 19 || i == 20 || i == 21 || i == 22 || i == 23 || i == 24 || i == 25 || i == 26 || i == 27 || i == 28 || i == 29 || i == 30 || i == 31);
        assert(hidden_volume_magic()[i] != 0u8);
        let x = salt[i];
        let m = hidden_volume_magic()[i];
        assert(x ^ m != x) by (bit_vector)
            requires
                m != 0u8;
    }
    assert forall|i: int| 0 <= i < 32 implies #[trigger] inner_salt(inner_salt(salt))[i] == salt[i] by {
        let x = salt[i];
        let m = hidden_volume_magic()[i];
        assert((x ^ m) ^ m == x) by (bit_vector);
    }
    assert(inner_salt(inner_salt(salt)) =~= salt);
}

/// Byte offset of the inner volume's metadata block in a file of `total_blocks` blocks.
pub open spec fn inner_start_spec(total_blocks: int) -> int {
    HEADER_SALT_SIZE + (total_blocks / 2) * BLOCK_SIZE
}

/// The inner metadata payload: the directory bytes padded (or cut) to a block payload.
pub open spec fn inner_payload(dir_bytes: Seq<u8>) -> Seq<u8> {
    if dir_bytes.len() <= PAYLOAD_SIZE {
        dir_bytes + zeros((PAYLOAD_SIZE - dir_bytes.len()) as nat)
    } else {
        dir_bytes.take(PAYLOAD_SIZE as int)
    }
}

/// What reading the inner metadata block gives.
pub open spec fn inner_metadata_spec(key: Seq<u8>, block: Seq<u8>) -> Result<Seq<u8>, VaultError> {
    if block.len() != BLOCK_SIZE {
        Err(VaultError::CorruptedVault)
    } else {
        match xchacha_open(key, block.take(NONCE_SIZE as int), block.skip(NONCE_SIZE as int)) {
            Some(p) => Ok(p),
            None => Err(VaultError::DecryptionFailed),
        }
    }
}

/// A vault that is either the outer volume or the hidden inner one.
pub struct HiddenVault {
    inner_vault: Vault,
    is_inner_volume: bool,
    /// For the hidden volume, the number of blocks of the file: the hidden
    /// volume's metadata is block `end_block / 2`, its data blocks lie
    /// strictly between that and `end_block`.
    end_block: u64,
}

/// A directory entry uses block `b`.
pub open spec fn uses_block(dir: Directory, b: u64) -> bool {
    exists|i: int, j: int| 0 <= i < dir.entries().len() && 0 <= j < dir.entries()[i].1.1.len()
        && #[trigger] dir.entries()[i].1.1[j] == b
}

/// The first block after `start` and after every block the directory uses.
fn next_free_block(dir: &Directory, start: u64) -> (r: u64)
    ensures
        r >= start,
        forall|b: u64| uses_block(*dir, b) ==> b < r || b == u64::MAX,
{
    let mut r = start;
    let mut i: usize = 0;
    while i < dir.len()
        invariant
            i <= dir.entries().len(),
            r >= start,
            forall|k: int, j: int| 0 <= k < i && 0 <= j < dir.entries()[k].1.1.len()
                ==> #[trigger] dir.entries()[k].1.1[j] < r || dir.entries()[k].1.1[j] == u64::MAX,
        decreases dir.entries().len() - i,
    {
        let (_, e) = dir.entry_at(i);
        let mut j: usize = 0;
        while j < e.blocks.len()
            invariant
                i < dir.entries().len(),
                j <= e.blocks@.len(),
                e.blocks@ == dir.entries()[i as int].1.1,
                r >= start,
                forall|k: int, m: int| 0 <= k < i && 0 <= m < dir.entries()[k].1.1.len()
                    ==> #[trigger] dir.entries()[k].1.1[m] < r || dir.entries()[k].1.1[m] == u64::MAX,
                forall|m: int| 0 <= m < j ==> #[trigger] e.blocks@[m] < r || e.blocks@[m] == u64::MAX,
            decreases e.blocks@.len() - j,
        {
            let b = e.blocks[j];
            if b >= r && b < u64::MAX {
                r = b + 1;
            }
            j = j + 1;
        }
        i = i + 1;
    }
    r
}

/// The number of blocks that `len` bytes take.
fn chunk_count(len: usize) -> (n: usize)
    ensures
        is_chunk_count(len as int, n as int),
{
    let n = len / PAYLOAD_SIZE + if len % PAYLOAD_SIZE == 0 { 0 } else { 1 };
    assert(is_chunk_count(len as int, n as int)) by (nonlinear_arith)
        requires n == len / 4056 + if len % 4056 == 0 { 0int } else { 1int };
    n
}

/// A block strictly inside the hidden region of a file of `n` blocks is
/// neither the outer volume's metadata block (block 0), nor the hidden
/// volume's metadata block (`n / 2`), nor a block past the file's end, where
/// the outer volume's files go.
pub proof fn lemma_hidden_region(n: u64, i: int)
    requires
        n / 2 < i < n,
    ensures
        block_offset_spec(i) != HEADER_SALT_SIZE,
        block_offset_spec(i) != inner_start_spec(n as int),
        block_offset_spec(i) + BLOCK_SIZE <= block_offset_spec(n as int),
{
}

impl HiddenVault {
    /// The volume in use.
    pub closed spec fn volume(&self) -> Vault {
        self.inner_vault
    }

    /// Whether the hidden volume is in use.
    pub closed spec fn inner(&self) -> bool {
        self.is_inner_volume
    }

    /// For the hidden volume, the number of blocks of the file.
    pub closed spec fn end(&self) -> u64 {
        self.end_block
    }

    /// The volume is well formed; the hidden volume's next block lies past
    /// its metadata block, in a file whose offsets fit.
    pub open spec fn wf(&self) -> bool {
        &&& self.volume().wf()
        &&& self.inner() ==> self.end() <= max_block_index() && self.end() / 2 < self.volume().total_blocks
    }

    /// The inner salt of an outer salt.
    fn xor_salt(salt: &[u8]) -> (r: Vec<u8>)
        requires
            salt@.len() == 32,
        ensures
            r@ == inner_salt(salt@),
    {
        let magic: [u8; 32] = [
            0x7a, 0x3f, 0x8c, 0x2d, 0xe1, 0x9b, 0x5f, 0x0a,
            0xc4, 0x72, 0x1e, 0x88, 0x3d, 0xa6, 0x59, 0xf0,
            0x2b, 0x94, 0x6d, 0xe3, 0x17, 0x8a, 0x4c, 0xf5,
            0x0d, 0x61, 0xb8, 0x23, 0x9e, 0x47, 0xca, 0x76,
        ];
        assert(magic@ =~= hidden_volume_magic());
        let mut r: Vec<u8> = Vec::new();
        let mut i: usize = 0;
        while i < 32
            invariant
                i <= 32,
                salt@.len() == 32,
                magic@ == hidden_volume_magic(),
                r@.len() == i,
                forall|j: int| 0 <= j < i ==> r@[j] == salt@[j] ^ hidden_volume_magic()[j],
            decreases 32 - i,
        {
            r.push(salt[i] ^ magic[i]);
            i = i + 1;
        }
        assert(r@ =~= inner_salt(salt@));
        r
    }

    /// The key of the hidden volume.
    pub fn inner_key(password: &str, salt: &[u8]) -> (r: Result<Vec<u8>, VaultError>)
        requires
            salt@.len() == HEADER_SALT_SIZE,
        ensures
            kdf_refusal(password.spec_bytes().len(), 32) is None ==> (r matches Ok(k)
                && k@ == password_key(password.spec_bytes(), inner_salt(salt@)) && k@.len() == 32),
            kdf_refusal(password.spec_bytes().len(), 32) matches Some(e)
                ==> r == Err::<Vec<u8>, VaultError>(VaultError::KeyDerivationFailed(e)),
            // The salt it is derived from differs from the outer salt in every byte.
            forall|i: int| 0 <= i < 32 ==> #[trigger] inner_salt(salt@)[i] != salt@[i],
    {
        proof {
            lemma_inner_salt_masks(salt@);
        }
        let s = Self::xor_salt(salt);
        Vault::derive_key(password, s.as_slice())
    }

    /// A hidden vault needs at least 4 blocks.
    pub fn check_size(total_size_blocks: u64) -> (r: Result<(), VaultError>)
        ensures
            total_size_blocks < 4 ==> r == Err::<(), VaultError>(VaultError::InsufficientBlocks(4)),
            total_size_blocks >= 4 ==> r is Ok,
    {
        if total_size_blocks < 4 {
            Err(VaultError::InsufficientBlocks(4))
        } else {
            Ok(())
        }
    }

    /// Offset of the inner metadata block.
    pub fn inner_start(total_blocks: u64) -> (off: u64)
        requires
            total_blocks / 2 <= max_block_index(),
        ensures
            off == inner_start_spec(total_blocks as int),
    {
        let half = total_blocks / 2;
        assert(half * 4096 <= u64::MAX - 32) by (nonlinear_arith)
            requires half <= (u64::MAX - 32) / 4096;
        HEADER_SALT_SIZE as u64 + half * BLOCK_SIZE as u64
    }

    /// Blocks in a vault file of `file_len` bytes.
    pub fn total_blocks_of(file_len: u64) -> (n: u64)
        requires
            file_len >= HEADER_SALT_SIZE,
        ensures
            n == (file_len - HEADER_SALT_SIZE) / (BLOCK_SIZE as int),
    {
        (file_len - HEADER_SALT_SIZE as u64) / BLOCK_SIZE as u64
    }

    /// The sealed metadata block of a new hidden volume.
    pub fn inner_metadata_block(inner_key: &[u8], dir_bytes: &[u8]) -> (b: Vec<u8>)
        requires
            inner_key@.len() == 32,
        ensures
            b@.len() == BLOCK_SIZE,
            b@.skip(NONCE_SIZE as int) == xchacha_seal(inner_key@, b@.take(NONCE_SIZE as int), inner_payload(dir_bytes@)),
            inner_metadata_spec(inner_key@, b@) == Ok::<Seq<u8>, VaultError>(inner_payload(dir_bytes@)),
    {
        let mut padded: Vec<u8> = Vec::new();
        if dir_bytes.len() <= PAYLOAD_SIZE {
            push_all(&mut padded, dir_bytes);
            pad_zeros(&mut padded, PAYLOAD_SIZE);
        } else {
            padded = copy_range(dir_bytes, 0, PAYLOAD_SIZE);
        }
        let nonce = random_bytes(NONCE_SIZE);
        let ciphertext = match xchacha20poly1305_encrypt(inner_key, nonce.as_slice(), padded.as_slice()) {
            Some(c) => c,
            None => { assert(false); Vec::new() },
        };
        let mut block: Vec<u8> = Vec::new();
        push_all(&mut block, nonce.as_slice());
        push_all(&mut block, ciphertext.as_slice());
        assert(block@.take(NONCE_SIZE as int) =~= nonce@);
        assert(block@.skip(NONCE_SIZE as int) =~= ciphertext@);
        block
    }

    /// Decrypts the inner metadata block; the plaintext holds the directory bytes.
    pub fn open_inner_metadata(inner_key: &[u8], block: &[u8]) -> (r: Result<Vec<u8>, VaultError>)
        requires
            inner_key@.len() == 32,
        ensures
            match (r, inner_metadata_spec(inner_key@, block@)) {
                (Ok(p), Ok(q)) => p@ == q,
                (Err(e), Err(f)) => e == f,
                _ => false,
            },
    {
        if block.len() != BLOCK_SIZE {
            return Err(VaultError::CorruptedVault);
        }
        let nonce = copy_range(block, 0, NONCE_SIZE);
        let ciphertext = copy_range(block, NONCE_SIZE, BLOCK_SIZE);
        assert(nonce@ =~= block@.take(NONCE_SIZE as int));
        assert(ciphertext@ =~= block@.skip(NONCE_SIZE as int));
        match xchacha20poly1305_decrypt(inner_key, nonce.as_slice(), ciphertext.as_slice()) {
            Some(p) => Ok(p),
            None => Err(VaultError::DecryptionFailed),
        }
    }

    /// The outer volume, opened with its own password.
    pub fn from_outer(vault: Vault) -> (h: HiddenVault)
        ensures
            h.volume() == vault,
            !h.inner(),
    {
        HiddenVault { inner_vault: vault, is_inner_volume: false, end_block: 0 }
    }

    /// The hidden volume of a file of `total_blocks` blocks, with its
    /// directory. New data blocks go after the hidden metadata block and after
    /// every block the directory already uses.
    pub fn from_inner(inner_key: Vec<u8>, directory: Directory, total_blocks: u64) -> (h: HiddenVault)
        requires
            inner_key@.len() == 32,
            directory.wf(),
            total_blocks <= max_block_index(),
        ensures
            h.wf(),
            h.volume().key == inner_key,
            h.volume().directory == directory,
            h.volume().total_blocks > total_blocks / 2,
            forall|b: u64| uses_block(directory, b) ==> b < h.volume().total_blocks || b == u64::MAX,
            h.end() == total_blocks,
            h.inner(),
    {
        let next = next_free_block(&directory, total_blocks / 2 + 1);
        HiddenVault {
            inner_vault: Vault { key: inner_key, directory, total_blocks: next },
            is_inner_volume: true,
            end_block: total_blocks,
        }
    }

    pub fn is_inner(&self) -> (b: bool)
        ensures
            b == self.inner(),
    {
        self.is_inner_volume
    }

    /// Where a file of the volume in use is stored.
    pub fn file_entry(&self, filename: &str) -> (r: Result<crate::vault::directory::FileEntry, VaultError>)
        requires
            self.wf(),
        ensures
            match self.volume().directory.lookup(filename@) {
                Some(e) => r matches Ok(f) && crate::vault::directory::entry_view(f) == e,
                None => r matches Err(VaultError::FileNotFound(n)) && n@ == filename@,
            },
    {
        self.inner_vault.file_entry(filename)
    }

    /// The number of blocks of the volume in use.
    pub fn total_blocks(&self) -> (n: u64)
        ensures
            n == self.volume().total_blocks,
    {
        self.inner_vault.total_blocks
    }

    /// The key of the volume in use, for reading its blocks.
    pub fn key(&self) -> (k: &Vec<u8>)
        ensures
            k == self.volume().key,
    {
        &self.inner_vault.key
    }

    /// Stores a file in the volume in use. The hidden volume keeps to its
    /// region: a file that does not fit before the file's end is refused.
    pub fn write_file(&mut self, filename: &str, data: &[u8]) -> (r: Result<Vec<BlockWrite>, VaultError>)
        requires
            old(self).wf(),
            old(self).volume().total_blocks as int + data@.len() <= max_block_index(),
        ensures
            final(self).wf(),
            final(self).inner() == old(self).inner(),
            final(self).end() == old(self).end(),
            old(self).inner() && (exists|n: int| is_chunk_count(data@.len() as int, n)
                && old(self).volume().total_blocks + n > old(self).end())
                ==> r == Err::<Vec<BlockWrite>, VaultError>(VaultError::HiddenVolumeFull)
                    && final(self).volume() == old(self).volume(),
            !(old(self).inner() && (exists|n: int| is_chunk_count(data@.len() as int, n)
                && old(self).volume().total_blocks + n > old(self).end())) ==> r is Ok,
            r matches Ok(writes) ==> {
                let n = writes@.len() as int;
                &&& is_chunk_count(data@.len() as int, n)
                &&& final(self).volume().total_blocks == old(self).volume().total_blocks + n
                &&& final(self).volume().key == old(self).volume().key
                &&& forall|i: int| 0 <= i < n ==> {
                    &&& (#[trigger] writes@[i]).offset == block_offset_spec(old(self).volume().total_blocks + i)
                    &&& open_block_spec(old(self).volume().key@, writes@[i].block@)
                        == Ok::<Seq<u8>, VaultError>(padded_payload(chunk(data@, i)))
                    &&& old(self).inner() ==> old(self).end() / 2 < old(self).volume().total_blocks + i < old(self).end()
                }
                &&& final(self).volume().directory.lookup(filename@) == Some((data@.len() as u64,
                    Seq::new(n as nat, |i: int| (old(self).volume().total_blocks + i) as u64)))
                &&& forall|other: Seq<char>| other != filename@
                    ==> final(self).volume().directory.lookup(other) == old(self).volume().directory.lookup(other)
            },
    {
        if self.is_inner_volume {
            let needed = chunk_count(data.len());
            if needed as u64 > self.end_block || self.inner_vault.total_blocks > self.end_block - needed as u64 {
                return Err(VaultError::HiddenVolumeFull);
            }
        }
        self.inner_vault.write_file(filename, data)
    }

    /// The files of the volume in use.
    pub fn list_files(&self) -> (names: Vec<String>)
        ensures
            names@.len() == self.volume().directory.entries().len(),
            forall|i: int| 0 <= i < names@.len() ==> (#[trigger] names@[i])@ == self.volume().directory.entries()[i].0,
    {
        self.inner_vault.list_files()
    }

    /// The metadata block of the volume in use for serialised directory
    /// bytes, and where it goes: the outer volume's at the start of the file
    /// in the block format, the hidden volume's at its own metadata block,
    /// sealed with XChaCha20-Poly1305 under its key.
    pub fn metadata_block(&self, dir_bytes: &[u8]) -> (r: Result<BlockWrite, VaultError>)
        requires
            self.wf(),
        ensures
            !self.inner() ==> {
                &&& dir_bytes@.len() > PAYLOAD_SIZE - 4 ==> r == Err::<BlockWrite, VaultError>(VaultError::DirectoryOverflow)
                &&& dir_bytes@.len() <= PAYLOAD_SIZE - 4 ==> (r matches Ok(w) && w.offset == HEADER_SALT_SIZE
                    && w.block@.len() == BLOCK_SIZE
                    && open_block_spec(self.volume().key@, w.block@) == Ok::<Seq<u8>, VaultError>(padded_payload(framed(dir_bytes@)))
                    && unframe_spec(padded_payload(framed(dir_bytes@))) == Ok::<Seq<u8>, VaultError>(dir_bytes@))
            },
            self.inner() ==> {
                &&& dir_bytes@.len() > PAYLOAD_SIZE ==> r == Err::<BlockWrite, VaultError>(VaultError::DirectoryOverflow)
                &&& dir_bytes@.len() <= PAYLOAD_SIZE ==> (r matches Ok(w) && w.offset == inner_start_spec(self.end() as int)
                    && w.block@.len() == BLOCK_SIZE
                    && inner_metadata_spec(self.volume().key@, w.block@) == Ok::<Seq<u8>, VaultError>(inner_payload(dir_bytes@)))
            },
    {
        if self.is_inner_volume {
            if dir_bytes.len() > PAYLOAD_SIZE {
                return Err(VaultError::DirectoryOverflow);
            }
            let block = Self::inner_metadata_block(&self.inner_vault.key, dir_bytes);
            Ok(BlockWrite { offset: Self::inner_start(self.end_block), block })
        } else {
            let block = self.inner_vault.metadata_block(dir_bytes)?;
            Ok(BlockWrite { offset: HEADER_SALT_SIZE as u64, block })
        }
    }
}


/// Stored blocks outside `lo..hi` are untouched by writes that all fall inside it.
proof fn lemma_writes_stay_inside(stored: Map<int, Seq<u8>>, writes: Seq<BlockWrite>, start: int, lo: int, hi: int)
    requires
        0 <= lo,
        forall|i: int| 0 <= i < writes.len() ==> (#[trigger] writes[i]).offset == block_offset_spec(start + i)
            && lo <= start + i < hi,
    ensures
        forall|x: int| !(lo <= x < hi) ==> #[trigger] block_at(stored_after(stored, writes), x) == block_at(stored, x),
    decreases writes.len(),
{
    if writes.len() > 0 {
        let prefix = writes.drop_last();
        assert forall|i: int| 0 <= i < prefix.len() implies (#[trigger] prefix[i]).offset
            == block_offset_spec(start + i) && lo <= start + i < hi by {
            assert(prefix[i] == writes[i]);
        }
        lemma_writes_stay_inside(stored, prefix, start, lo, hi);
        let last = writes.len() - 1;
        assert(writes.last() == writes[last]);
        lemma_offset_index(start + last);
        let before = stored_after(stored, prefix);
        assert(stored_after(stored, writes) == before.insert(start + last, writes[last].block@));
        assert forall|x: int| !(lo <= x < hi) implies #[trigger] block_at(stored_after(stored, writes), x)
            == block_at(stored, x) by {
            assert(block_at(before, x) == block_at(stored, x));
        }
    }
}

/// Writing to the hidden volume leaves the outer volume intact: writes to the
/// blocks of the hidden region of a file of `end` blocks (its metadata block
/// `end / 2` and the data blocks after it, before `end`) change no other
/// stored block, so the outer volume's metadata block (block 0) and every
/// outer file whose blocks lie outside that region read as before.
pub proof fn lemma_hidden_writes_keep_outer(stored: Map<int, Seq<u8>>, writes: Seq<BlockWrite>, start: int,
    end: u64, key: Seq<u8>, outer_dir: Directory)
    requires
        end >= 2,
        forall|i: int| 0 <= i < writes.len() ==> (#[trigger] writes[i]).offset == block_offset_spec(start + i)
            && end / 2 <= start + i < end,
        forall|name: Seq<char>, j: int| 0 <= j < blocks_of(outer_dir, name).len()
            ==> !(end / 2 <= #[trigger] blocks_of(outer_dir, name)[j] < end),
    ensures
        block_at(stored_after(stored, writes), 0) == block_at(stored, 0),
        forall|name: Seq<char>| #[trigger] read_stored(stored_after(stored, writes), key, outer_dir, name)
            == read_stored(stored, key, outer_dir, name),
{
    let after = stored_after(stored, writes);
    let lo = (end / 2) as int;
    assert forall|i: int| 0 <= i < writes.len() implies (#[trigger] writes[i]).offset == block_offset_spec(start + i)
        && lo <= start + i < end as int by {
        assert(writes[i].offset == block_offset_spec(start + i));
        assert(end / 2 <= start + i);
        assert(start + i < end);
    }
    lemma_writes_stay_inside(stored, writes, start, lo, end as int);
    assert forall|name: Seq<char>| #[trigger] read_stored(after, key, outer_dir, name)
        == read_stored(stored, key, outer_dir, name) by {
        match outer_dir.lookup(name) {
            None => {},
            Some(e) => {
                assert(blocks_of(outer_dir, name) == e.1);
                assert forall|j: int| 0 <= j < e.1.len() implies !(end / 2 <= #[trigger] e.1[j] < end) by {
                    assert(blocks_of(outer_dir, name)[j] == e.1[j]);
                }
                assert(e.1.map_values(|b: u64| block_at(after, b as int))
                    =~= e.1.map_values(|b: u64| block_at(stored, b as int)));
            },
        }
    }
}

} // verus!
