//! The block-structured vault: `salt (32) ‖ metadata block ‖ data blocks…`.
//!
//! The vault keeps its key, directory and block count here; the application
//! reads and writes the blocks at the offsets this module computes.

use vstd::prelude::*;
use vstd::string::StringSliceAdditionalSpecFns;
use crate::bytes::{push_all, copy_range, u32_to_be, u32_from_be, be32, be32_value, lemma_be32_roundtrip, zeros};
use crate::crypto::keys::{derive_key_bytes, password_key, kdf_refusal};
use crate::error::{VaultError, PasswordWeakness};
use crate::text::{chars_of, char_is_uppercase, char_is_numeric, unicode_uppercase, unicode_numeric};
use crate::vault::block::{BLOCK_SIZE, PAYLOAD_SIZE, HEADER_SALT_SIZE, prepare_block, open_block,
    open_block_spec, padded_payload};
use crate::vault::directory::{Directory, FileEntry, entry_view};

verus! {

/// The first rule that a new vault password breaks, if any: at least 8
/// bytes of UTF-8, an uppercase letter and a number.
pub open spec fn password_weakness(byte_len: int, chars: Seq<char>) -> Option<PasswordWeakness> {
    if byte_len < 8 {
        Some(PasswordWeakness::TooShort)
    } else if !(exists|i: int| 0 <= i < chars.len() && unicode_uppercase(#[trigger] chars[i])) {
        Some(PasswordWeakness::NoUppercase)
    } else if !(exists|i: int| 0 <= i < chars.len() && unicode_numeric(#[trigger] chars[i])) {
        Some(PasswordWeakness::NoNumber)
    } else {
        None
    }
}

/// The password rules, by what the password contains: fewer than 8 bytes is
/// too short; otherwise a password with an uppercase character and a numeric
/// character anywhere in it (the first character included) is accepted, one
/// without an uppercase character is refused for that, and one with an
/// uppercase but no numeric character for that.
pub proof fn lemma_password_rules(byte_len: int, chars: Seq<char>)
    ensures
        byte_len < 8 ==> password_weakness(byte_len, chars) == Some(PasswordWeakness::TooShort),
        byte_len >= 8 && (exists|c: char| chars.contains(c) && #[trigger] unicode_uppercase(c))
            && (exists|c: char| chars.contains(c) && #[trigger] unicode_numeric(c))
            ==> password_weakness(byte_len, chars) is None,
        byte_len >= 8 && !(exists|c: char| chars.contains(c) && #[trigger] unicode_uppercase(c))
            ==> password_weakness(byte_len, chars) == Some(PasswordWeakness::NoUppercase),
        byte_len >= 8 && (exists|c: char| chars.contains(c) && #[trigger] unicode_uppercase(c))
            && !(exists|c: char| chars.contains(c) && #[trigger] unicode_numeric(c))
            ==> password_weakness(byte_len, chars) == Some(PasswordWeakness::NoNumber),
        byte_len >= 8 && chars.len() > 0 && unicode_uppercase(chars[0])
            && (exists|c: char| chars.contains(c) && #[trigger] unicode_numeric(c))
            ==> password_weakness(byte_len, chars) is None,
{
    if exists|c: char| chars.contains(c) && #[trigger] unicode_uppercase(c) {
        let c = choose|c: char| chars.contains(c) && #[trigger] unicode_uppercase(c);
        let i = choose|i: int| 0 <= i < chars.len() && chars[i] == c;
        assert(unicode_uppercase(chars[i]));
    }
    if exists|c: char| chars.contains(c) && #[trigger] unicode_numeric(c) {
        let c = choose|c: char| chars.contains(c) && #[trigger] unicode_numeric(c);
        let i = choose|i: int| 0 <= i < chars.len() && chars[i] == c;
        assert(unicode_numeric(chars[i]));
    }
    if exists|i: int| 0 <= i < chars.len() && unicode_uppercase(#[trigger] chars[i]) {
        let i = choose|i: int| 0 <= i < chars.len() && unicode_uppercase(#[trigger] chars[i]);
        assert(chars.contains(chars[i]));
    }
    if exists|i: int| 0 <= i < chars.len() && unicode_numeric(#[trigger] chars[i]) {
        let i = choose|i: int| 0 <= i < chars.len() && unicode_numeric(#[trigger] chars[i]);
        assert(chars.contains(chars[i]));
    }
    if chars.len() > 0 && unicode_uppercase(chars[0]) {
        assert(chars.contains(chars[0]));
    }
}

/// The byte offset of data block `index` in the vault file.
pub open spec fn block_offset_spec(index: int) -> int {
    HEADER_SALT_SIZE + index * BLOCK_SIZE
}

/// Largest block index whose offset fits in a `u64`.
pub open spec fn max_block_index() -> int {
    (u64::MAX - HEADER_SALT_SIZE) / (BLOCK_SIZE as int)
}

/// `n` is the number of `PAYLOAD_SIZE` chunks of `len` bytes.
pub open spec fn is_chunk_count(len: int, n: int) -> bool {
    &&& n >= 0
    &&& (len == 0 <==> n == 0)
    &&& PAYLOAD_SIZE * (n - 1) < len <= PAYLOAD_SIZE * n || (len == 0 && n == 0)
}

/// Chunk `i` of `data`.
pub open spec fn chunk(data: Seq<u8>, i: int) -> Seq<u8> {
    let start = PAYLOAD_SIZE * i;
    let end = if PAYLOAD_SIZE * (i + 1) < data.len() { PAYLOAD_SIZE * (i + 1) } else { data.len() as int };
    data.subrange(start, end)
}

/// The metadata plaintext: the directory bytes behind their big-endian length.
pub open spec fn framed(dir_bytes: Seq<u8>) -> Seq<u8> {
    be32(dir_bytes.len() as u32) + dir_bytes
}

/// What reading the metadata plaintext gives back.
pub open spec fn unframe_spec(plaintext: Seq<u8>) -> Result<Seq<u8>, VaultError> {
    if plaintext.len() < 4 {
        Err(VaultError::CorruptedVault)
    } else {
        let len = be32_value(plaintext) as int;
        if len > plaintext.len() - 4 {
            Err(VaultError::CorruptedVault)
        } else {
            Ok(plaintext.subrange(4, 4 + len))
        }
    }
}

/// The decrypted contents of a list of blocks, one after the other; the first failure stops it.
pub open spec fn opened_blocks(key: Seq<u8>, blocks: Seq<Seq<u8>>) -> Result<Seq<u8>, VaultError>
    decreases blocks.len(),
{
    if blocks.len() == 0 {
        Ok(Seq::empty())
    } else {
        match opened_blocks(key, blocks.drop_last()) {
            Err(e) => Err(e),
            Ok(acc) => match open_block_spec(key, blocks.last()) {
                Err(e) => Err(e),
                Ok(p) => Ok(acc + p),
            },
        }
    }
}

/// What reading a file gives: its opened blocks, cut to its recorded size.
pub open spec fn assemble_spec(key: Seq<u8>, blocks: Seq<Seq<u8>>, size: nat) -> Result<Seq<u8>, VaultError> {
    match opened_blocks(key, blocks) {
        Err(e) => Err(e),
        Ok(all) => Ok(if size <= all.len() { all.take(size as int) } else { all }),
    }
}

/// A block to be written at a byte offset of the vault file.
pub struct BlockWrite {
    pub offset: u64,
    pub block: Vec<u8>,
}

/// The unlocked state of a vault: its key, directory and number of blocks.
pub struct Vault {
    pub key: Vec<u8>,
    pub directory: Directory,
    pub total_blocks: u64,
}

/// The block offset of `index`.
pub fn block_offset(index: u64) -> (off: u64)
    requires
        index <= max_block_index(),
    ensures
        off == block_offset_spec(index as int),
{
    assert(index * 4096 <= u64::MAX - 32) by (nonlinear_arith)
        requires index <= (u64::MAX - 32) / 4096;
    HEADER_SALT_SIZE as u64 + index * BLOCK_SIZE as u64
}

/// Frames directory bytes behind their length; refuses what does not fit one block.
pub fn frame_metadata(dir_bytes: &[u8]) -> (r: Result<Vec<u8>, VaultError>)
    ensures
        dir_bytes@.len() > PAYLOAD_SIZE - 4 ==> r == Err::<Vec<u8>, VaultError>(VaultError::DirectoryOverflow),
        dir_bytes@.len() <= PAYLOAD_SIZE - 4 ==> (r matches Ok(p) && p@ == framed(dir_bytes@)),
{
    if dir_bytes.len() > PAYLOAD_SIZE - 4 {
        return Err(VaultError::DirectoryOverflow);
    }
    let mut plaintext = u32_to_be(dir_bytes.len() as u32);
    push_all(&mut plaintext, dir_bytes);
    Ok(plaintext)
}

/// Reads the directory bytes back from a metadata plaintext.
pub fn unframe_metadata(plaintext: &[u8]) -> (r: Result<Vec<u8>, VaultError>)
    ensures
        match (r, unframe_spec(plaintext@)) {
            (Ok(d), Ok(e)) => d@ == e,
            (Err(x), Err(y)) => x == y,
            _ => false,
        },
{
    if plaintext.len() < 4 {
        return Err(VaultError::CorruptedVault);
    }
    let len = u32_from_be(plaintext) as usize;
    if len > plaintext.len() - 4 {
        return Err(VaultError::CorruptedVault);
    }
    Ok(copy_range(plaintext, 4, 4 + len))
}

/// Reading back framed metadata gives the directory bytes, whatever padding follows.
pub proof fn lemma_metadata_roundtrip(dir_bytes: Seq<u8>, padding: Seq<u8>)
    requires
        dir_bytes.len() <= PAYLOAD_SIZE - 4,
    ensures
        unframe_spec(framed(dir_bytes) + padding) == Ok::<Seq<u8>, VaultError>(dir_bytes),
{
    lemma_be32_roundtrip(dir_bytes.len() as u32);
    let p = framed(dir_bytes) + padding;
    assert(p.take(4) =~= be32(dir_bytes.len() as u32));
    assert(be32_value(p) == be32_value(be32(dir_bytes.len() as u32)));
    assert(p.subrange(4, 4 + dir_bytes.len() as int) =~= dir_bytes);
}

/// Opens each block in turn, joins the payloads and cuts the result to `size`.
pub fn assemble_file(key: &[u8], blocks: &Vec<Vec<u8>>, size: u64) -> (r: Result<Vec<u8>, VaultError>)
    requires
        key@.len() == 32,
    ensures
        match (r, assemble_spec(key@, blocks@.map_values(|b: Vec<u8>| b@), size as nat)) {
            (Ok(d), Ok(e)) => d@ == e,
            (Err(x), Err(y)) => x == y,
            _ => false,
        },
{
    let ghost bv = blocks@.map_values(|b: Vec<u8>| b@);
    let mut file_data: Vec<u8> = Vec::new();
    let mut i: usize = 0;
    while i < blocks.len()
        invariant
            i <= blocks@.len(),
            key@.len() == 32,
            bv == blocks@.map_values(|b: Vec<u8>| b@),
            opened_blocks(key@, bv.take(i as int)) == Ok::<Seq<u8>, VaultError>(file_data@),
        decreases blocks@.len() - i,
    {
        assert(bv.take(i + 1).drop_last() =~= bv.take(i as int));
        assert(bv.take(i + 1).last() == blocks@[i as int]@);
        let plaintext = match open_block(key, blocks[i].as_slice()) {
            Ok(p) => p,
            Err(e) => {
                proof { lemma_opened_prefix_error(key@, bv, (i + 1) as int); }
                return Err(e);
            },
        };
        push_all(&mut file_data, plaintext.as_slice());
        i = i + 1;
    }
    assert(bv.take(blocks@.len() as int) =~= bv);
    let size_usize: usize = if size as u128 <= file_data.len() as u128 { size as usize } else { file_data.len() };
    file_data.truncate(size_usize);
    Ok(file_data)
}

/// An error in a prefix of the blocks is the error of the whole list.
proof fn lemma_opened_prefix_error(key: Seq<u8>, blocks: Seq<Seq<u8>>, k: int)
    requires
        0 <= k <= blocks.len(),
        opened_blocks(key, blocks.take(k)) is Err,
    ensures
        opened_blocks(key, blocks) == opened_blocks(key, blocks.take(k)),
    decreases blocks.len() - k,
{
    if k < blocks.len() {
        assert(blocks.take(k + 1).drop_last() =~= blocks.take(k));
        lemma_opened_prefix_error(key, blocks, k + 1);
    } else {
        assert(blocks.take(k) =~= blocks);
    }
}

/// The payloads of the first `k` chunks, padded, laid end to end.
proof fn lemma_chunks_concat(key: Seq<u8>, data: Seq<u8>, blocks: Seq<Seq<u8>>, n: int, k: int)
    requires
        is_chunk_count(data.len() as int, n),
        blocks.len() == n,
        0 <= k <= n,
        forall|i: int| 0 <= i < n ==> open_block_spec(key, #[trigger] blocks[i])
            == Ok::<Seq<u8>, VaultError>(padded_payload(chunk(data, i))),
    ensures
        k < n ==> opened_blocks(key, blocks.take(k)) == Ok::<Seq<u8>, VaultError>(data.take(PAYLOAD_SIZE * k)),
        k == n && n > 0 ==> opened_blocks(key, blocks.take(k))
            == Ok::<Seq<u8>, VaultError>(data.take(PAYLOAD_SIZE * (n - 1)) + padded_payload(chunk(data, n - 1))),
    decreases k,
{
    if k > 0 {
        lemma_chunks_concat(key, data, blocks, n, k - 1);
        assert(blocks.take(k).drop_last() =~= blocks.take(k - 1));
        assert(blocks.take(k).last() == blocks[k - 1]);
        if k < n {
            assert(PAYLOAD_SIZE * k < data.len());
            assert(chunk(data, k - 1).len() == PAYLOAD_SIZE);
            assert(padded_payload(chunk(data, k - 1)) =~= chunk(data, k - 1));
            assert(data.take(PAYLOAD_SIZE * (k - 1)) + chunk(data, k - 1) =~= data.take(PAYLOAD_SIZE * k));
        }
    } else {
        assert(blocks.take(0) =~= Seq::<Seq<u8>>::empty());
        assert(data.take(0) =~= Seq::<u8>::empty());
    }
}

/// Reading a file gives back what was written: blocks that open to the padded
/// chunks of `data`, read with the size of `data`, give `data`.
pub proof fn lemma_read_after_write(key: Seq<u8>, data: Seq<u8>, blocks: Seq<Seq<u8>>)
    requires
        is_chunk_count(data.len() as int, blocks.len() as int),
        forall|i: int| 0 <= i < blocks.len() ==> open_block_spec(key, #[trigger] blocks[i])
            == Ok::<Seq<u8>, VaultError>(padded_payload(chunk(data, i))),
    ensures
        assemble_spec(key, blocks, data.len()) == Ok::<Seq<u8>, VaultError>(data),
{
    let n = blocks.len() as int;
    lemma_chunks_concat(key, data, blocks, n, n);
    assert(blocks.take(n) =~= blocks);
    if n == 0 {
        assert(data =~= Seq::<u8>::empty());
        assert(opened_blocks(key, blocks) == Ok::<Seq<u8>, VaultError>(Seq::empty()));
        assert(Seq::<u8>::empty().take(0) =~= data);
    } else {
        let prefix = data.take(PAYLOAD_SIZE * (n - 1));
        let last = chunk(data, n - 1);
        let all = prefix + padded_payload(last);
        assert(last =~= data.subrange(PAYLOAD_SIZE * (n - 1), data.len() as int));
        assert(last.len() <= PAYLOAD_SIZE);
        assert(padded_payload(last).len() == PAYLOAD_SIZE);
        assert(prefix.len() == PAYLOAD_SIZE * (n - 1));
        assert(all.len() >= data.len());
        assert(opened_blocks(key, blocks) == Ok::<Seq<u8>, VaultError>(all));
        assert(all.take(data.len() as int) =~= data);
        assert(assemble_spec(key, blocks, data.len()) == Ok::<Seq<u8>, VaultError>(all.take(data.len() as int)));
    }
}

fn copy_indices(v: &Vec<u64>) -> (r: Vec<u64>)
    ensures
        r@ == v@,
{
    let mut r: Vec<u64> = Vec::new();
    let mut i: usize = 0;
    while i < v.len()
        invariant
            i <= v@.len(),
            r@ =~= v@.take(i as int),
        decreases v@.len() - i,
    {
        r.push(v[i]);
        i = i + 1;
    }
    assert(v@.take(v@.len() as int) =~= v@);
    r
}

impl Vault {
    /// Checks the rules for the password of a new vault.
    pub fn check_new_password(password: &str) -> (r: Result<(), VaultError>)
        ensures
            match password_weakness(password.spec_bytes().len() as int, password@) {
                Some(w) => r == Err::<(), VaultError>(VaultError::WeakPassword(w)),
                None => r is Ok,
            },
            password.spec_bytes().len() >= 8 && (exists|c: char| password@.contains(c) && #[trigger] unicode_uppercase(c))
                && (exists|c: char| password@.contains(c) && #[trigger] unicode_numeric(c)) ==> r is Ok,
    {
        proof {
            lemma_password_rules(password.spec_bytes().len() as int, password@);
        }
        if password.as_bytes().len() < 8 {
            return Err(VaultError::WeakPassword(PasswordWeakness::TooShort));
        }
        let chars = chars_of(password);
        let mut has_upper = false;
        let mut has_number = false;
        let mut i: usize = 0;
        while i < chars.len()
            invariant
                i <= chars@.len(),
                chars@ == password@,
                has_upper <==> exists|j: int| 0 <= j < i && unicode_uppercase(#[trigger] chars@[j]),
                has_number <==> exists|j: int| 0 <= j < i && unicode_numeric(#[trigger] chars@[j]),
            decreases chars@.len() - i,
        {
            if char_is_uppercase(chars[i]) {
                has_upper = true;
            }
            if char_is_numeric(chars[i]) {
                has_number = true;
            }
            i = i + 1;
        }
        if !has_upper {
            return Err(VaultError::WeakPassword(PasswordWeakness::NoUppercase));
        }
        if !has_number {
            return Err(VaultError::WeakPassword(PasswordWeakness::NoNumber));
        }
        Ok(())
    }

    /// Argon2id key of a vault password and salt.
    pub fn derive_key(password: &str, salt: &[u8]) -> (r: Result<Vec<u8>, VaultError>)
        ensures
            match kdf_refusal(password.spec_bytes().len(), salt@.len()) {
                None => r matches Ok(k) && k@ == password_key(password.spec_bytes(), salt@) && k@.len() == 32,
                Some(e) => r == Err::<Vec<u8>, VaultError>(VaultError::KeyDerivationFailed(e)),
            },
    {
        match derive_key_bytes(password.as_bytes(), salt) {
            Ok(k) => Ok(k),
            Err(e) => Err(VaultError::KeyDerivationFailed(e)),
        }
    }

    /// A fresh random salt for a new vault file.
    pub fn new_salt() -> (s: Vec<u8>)
        ensures
            s@.len() == HEADER_SALT_SIZE,
    {
        crate::crypto::primitives::random_bytes(HEADER_SALT_SIZE)
    }

    /// The state of a new vault: the password must meet the rules; the
    /// directory is empty and the metadata block is the only block.
    pub fn create(password: &str, salt: &[u8]) -> (r: Result<Vault, VaultError>)
        requires
            salt@.len() == HEADER_SALT_SIZE,
        ensures
            match password_weakness(password.spec_bytes().len() as int, password@) {
                Some(w) => r == Err::<Vault, VaultError>(VaultError::WeakPassword(w)),
                None => match kdf_refusal(password.spec_bytes().len(), salt@.len()) {
                    Some(e) => r == Err::<Vault, VaultError>(VaultError::KeyDerivationFailed(e)),
                    None => r matches Ok(v) && v.wf() && v.key@ == password_key(password.spec_bytes(), salt@)
                        && v.total_blocks == 1 && v.directory.entries().len() == 0,
                },
            },
    {
        Self::check_new_password(password)?;
        let key = Self::derive_key(password, salt)?;
        Ok(Vault { key, directory: Directory::new(), total_blocks: 1 })
    }

    /// The state of an existing vault before its metadata is read.
    pub fn unlock(password: &str, salt: &[u8]) -> (r: Result<Vault, VaultError>)
        requires
            salt@.len() == HEADER_SALT_SIZE,
        ensures
            match kdf_refusal(password.spec_bytes().len(), salt@.len()) {
                Some(e) => r == Err::<Vault, VaultError>(VaultError::KeyDerivationFailed(e)),
                None => r matches Ok(v) && v.wf() && v.key@ == password_key(password.spec_bytes(), salt@)
                    && v.total_blocks == 0 && v.directory.entries().len() == 0,
            },
    {
        let key = Self::derive_key(password, salt)?;
        Ok(Vault { key, directory: Directory::new(), total_blocks: 0 })
    }

    /// The invariant: a 32-byte key and a well-formed directory.
    pub open spec fn wf(&self) -> bool {
        &&& self.key@.len() == 32
        &&& self.directory.wf()
    }

    /// The directory bytes held in a metadata block.
    pub fn read_metadata(&self, block: &[u8]) -> (r: Result<Vec<u8>, VaultError>)
        requires
            self.wf(),
        ensures
            match open_block_spec(self.key@, block@) {
                Err(e) => r == Err::<Vec<u8>, VaultError>(e),
                Ok(p) => match (r, unframe_spec(p)) {
                    (Ok(d), Ok(e)) => d@ == e,
                    (Err(x), Err(y)) => x == y,
                    _ => false,
                },
            },
    {
        let plaintext = open_block(self.key.as_slice(), block)?;
        unframe_metadata(plaintext.as_slice())
    }

    /// The metadata block for serialised directory bytes; reading it back gives them.
    pub fn metadata_block(&self, dir_bytes: &[u8]) -> (r: Result<Vec<u8>, VaultError>)
        requires
            self.wf(),
        ensures
            dir_bytes@.len() > PAYLOAD_SIZE - 4 ==> r == Err::<Vec<u8>, VaultError>(VaultError::DirectoryOverflow),
            dir_bytes@.len() <= PAYLOAD_SIZE - 4 ==> (r matches Ok(b) && b@.len() == BLOCK_SIZE
                && open_block_spec(self.key@, b@) == Ok::<Seq<u8>, VaultError>(padded_payload(framed(dir_bytes@)))
                && unframe_spec(padded_payload(framed(dir_bytes@))) == Ok::<Seq<u8>, VaultError>(dir_bytes@)),
    {
        let plaintext = frame_metadata(dir_bytes)?;
        proof {
            lemma_metadata_roundtrip(dir_bytes@, zeros((PAYLOAD_SIZE - framed(dir_bytes@).len()) as nat));
        }
        prepare_block(self.key.as_slice(), plaintext.as_slice())
    }

    /// Replaces the directory with one read from the metadata block.
    pub fn set_directory(&mut self, directory: Directory)
        requires
            old(self).wf(),
            directory.wf(),
        ensures
            final(self).wf(),
            final(self).directory == directory,
            final(self).key == old(self).key,
            final(self).total_blocks == old(self).total_blocks,
    {
        self.directory = directory;
    }

    /// Counts the blocks of a vault file of `file_len` bytes.
    pub fn set_file_len(&mut self, file_len: u64) -> (r: Result<(), VaultError>)
        ensures
            file_len < HEADER_SALT_SIZE ==> r == Err::<(), VaultError>(VaultError::CorruptedVault)
                && final(self).total_blocks == old(self).total_blocks,
            file_len >= HEADER_SALT_SIZE ==> r is Ok
                && final(self).total_blocks == (file_len - HEADER_SALT_SIZE) / (BLOCK_SIZE as int),
            final(self).key == old(self).key,
            final(self).directory == old(self).directory,
    {
        if file_len < HEADER_SALT_SIZE as u64 {
            return Err(VaultError::CorruptedVault);
        }
        self.total_blocks = (file_len - HEADER_SALT_SIZE as u64) / BLOCK_SIZE as u64;
        Ok(())
    }

    /// Takes the next block index.
    pub fn allocate_block(&mut self) -> (index: u64)
        requires
            old(self).total_blocks < u64::MAX,
        ensures
            index == old(self).total_blocks,
            final(self).total_blocks == old(self).total_blocks + 1,
            final(self).key == old(self).key,
            final(self).directory == old(self).directory,
    {
        let index = self.total_blocks;
        self.total_blocks = self.total_blocks + 1;
        index
    }

    /// Stores `data` as `filename`: seals each chunk into a new block and records
    /// the file; the blocks to write, with their offsets, come back in order.
    pub fn write_file(&mut self, filename: &str, data: &[u8]) -> (r: Result<Vec<BlockWrite>, VaultError>)
        requires
            old(self).wf(),
            old(self).total_blocks as int + data@.len() <= max_block_index(),
        ensures
            final(self).wf(),
            r matches Ok(writes) && {
                let n = writes@.len() as int;
                &&& is_chunk_count(data@.len() as int, n)
                &&& final(self).total_blocks == old(self).total_blocks + n
                &&& final(self).key == old(self).key
                &&& forall|i: int| 0 <= i < n ==> {
                    &&& (#[trigger] writes@[i]).offset == block_offset_spec(old(self).total_blocks + i)
                    &&& open_block_spec(old(self).key@, writes@[i].block@)
                        == Ok::<Seq<u8>, VaultError>(padded_payload(chunk(data@, i)))
                }
                &&& final(self).directory.lookup(filename@) == Some((data@.len() as u64,
                    Seq::new(n as nat, |i: int| (old(self).total_blocks + i) as u64)))
                &&& forall|other: Seq<char>| other != filename@
                    ==> final(self).directory.lookup(other) == old(self).directory.lookup(other)
                &&& (old(self).total_blocks >= 1 && layout_ok(old(self).directory, old(self).total_blocks as int)
                    ==> layout_ok(final(self).directory, final(self).total_blocks as int))
            },
    {
        let ghost start_blocks = self.total_blocks;
        let ghost start_dir = self.directory;
        let mut writes: Vec<BlockWrite> = Vec::new();
        let mut blocks: Vec<u64> = Vec::new();
        let mut start: usize = 0;
        let mut k: usize = 0;
        assert(data@.len() <= max_block_index());
        while start < data.len()
            invariant
                self.wf(),
                self.key == old(self).key,
                self.directory == old(self).directory,
                start == (if PAYLOAD_SIZE * k < data@.len() { PAYLOAD_SIZE * k } else { data@.len() as int }),
                data@.len() <= max_block_index(),
                k as int == writes@.len(),
                k as int == blocks@.len(),
                k > 0 ==> PAYLOAD_SIZE * (k - 1) < data@.len(),
                start_blocks == old(self).total_blocks,
                self.total_blocks == start_blocks + k,
                start_blocks as int + data@.len() <= max_block_index(),
                forall|i: int| 0 <= i < k ==> {
                    &&& (#[trigger] writes@[i]).offset == block_offset_spec(start_blocks + i)
                    &&& open_block_spec(self.key@, writes@[i].block@)
                        == Ok::<Seq<u8>, VaultError>(padded_payload(chunk(data@, i)))
                },
                forall|i: int| 0 <= i < k ==> #[trigger] blocks@[i] == (start_blocks + i) as u64,
            decreases data@.len() - start,
        {
            let end = if data.len() - start > PAYLOAD_SIZE { start + PAYLOAD_SIZE } else { data.len() };
            let piece = copy_range(data, start, end);
            assert(piece@ == chunk(data@, k as int));
            let block = match prepare_block(self.key.as_slice(), piece.as_slice()) {
                Ok(b) => b,
                Err(e) => { return Err(e); },
            };
            assert(self.total_blocks <= max_block_index());
            let index = self.allocate_block();
            let offset = block_offset(index);
            writes.push(BlockWrite { offset, block });
            blocks.push(index);
            start = end;
            k = k + 1;
        }
        let ghost final_blocks = blocks@;
        assert(final_blocks =~= Seq::new(k as nat, |i: int| (start_blocks + i) as u64));
        let entry = FileEntry { size: data.len() as u64, blocks };
        self.directory.insert(filename.to_owned(), entry);
        proof {
            if start_blocks >= 1 && layout_ok(start_dir, start_blocks as int) {
                lemma_write_keeps_layout(start_dir, self.directory, filename@, data@.len() as u64,
                    start_blocks as int, k as int);
            }
        }
        Ok(writes)
    }

    /// Where `filename` is stored.
    pub fn file_entry(&self, filename: &str) -> (r: Result<FileEntry, VaultError>)
        requires
            self.wf(),
        ensures
            match self.directory.lookup(filename@) {
                Some(e) => r matches Ok(f) && entry_view(f) == e,
                None => r matches Err(VaultError::FileNotFound(n)) && n@ == filename@,
            },
    {
        let name = filename.to_owned();
        match self.directory.get(&name) {
            Some(e) => Ok(FileEntry { size: e.size, blocks: copy_indices(&e.blocks) }),
            None => Err(VaultError::FileNotFound(name)),
        }
    }

    /// The names of the stored files.
    pub fn list_files(&self) -> (names: Vec<String>)
        ensures
            names@.len() == self.directory.entries().len(),
            forall|i: int| 0 <= i < names@.len() ==> (#[trigger] names@[i])@ == self.directory.entries()[i].0,
    {
        self.directory.names()
    }
}

/// The blocks of a file of a directory (none when it holds no such file).
pub open spec fn blocks_of(dir: Directory, name: Seq<char>) -> Seq<u64> {
    match dir.lookup(name) {
        Some(e) => e.1,
        None => Seq::empty(),
    }
}

/// Every block a directory's files use lies below `t`.
pub open spec fn blocks_below(dir: Directory, t: int) -> bool {
    forall|name: Seq<char>, j: int| 0 <= j < blocks_of(dir, name).len() ==> #[trigger] blocks_of(dir, name)[j] < t
}

/// Writing a file keeps the files apart: when every block in use lies below
/// the vault's block count, the written file takes the blocks from there on,
/// so afterwards every block in use lies below the new count and no other
/// file shares a block with the written one.
pub proof fn lemma_write_keeps_files_apart(old_dir: Directory, new_dir: Directory, filename: Seq<char>,
    size: u64, start: int, n: int)
    requires
        blocks_below(old_dir, start),
        0 <= start,
        0 <= n,
        new_dir.lookup(filename) == Some((size, Seq::new(n as nat, |i: int| (start + i) as u64))),
        forall|other: Seq<char>| other != filename ==> new_dir.lookup(other) == old_dir.lookup(other),
        start + n <= u64::MAX,
    ensures
        blocks_below(new_dir, start + n),
        forall|other: Seq<char>, j: int, k: int| other != filename && 0 <= j < blocks_of(new_dir, other).len()
            && 0 <= k < n ==> #[trigger] blocks_of(new_dir, other)[j] != #[trigger] blocks_of(new_dir, filename)[k],
{
    assert forall|name: Seq<char>, j: int| 0 <= j < blocks_of(new_dir, name).len()
        implies #[trigger] blocks_of(new_dir, name)[j] < start + n by {
        if name != filename {
            assert(blocks_of(new_dir, name) == blocks_of(old_dir, name));
        }
    }
    assert forall|other: Seq<char>, j: int, k: int| other != filename && 0 <= j < blocks_of(new_dir, other).len()
        && 0 <= k < n implies #[trigger] blocks_of(new_dir, other)[j] != #[trigger] blocks_of(new_dir, filename)[k] by {
        assert(blocks_of(new_dir, other) == blocks_of(old_dir, other));
        assert(blocks_of(new_dir, filename)[k] == (start + k) as u64);
    }
}


/// The layout the vault keeps: every block a file uses is a data block (index
/// 1 up to, not including, `total`; block 0 holds the metadata), no block
/// serves two places, and each file has one block per chunk of its size.
pub open spec fn layout_ok(dir: Directory, total: int) -> bool {
    &&& forall|name: Seq<char>, j: int| 0 <= j < blocks_of(dir, name).len()
        ==> 1 <= #[trigger] blocks_of(dir, name)[j] < total
    &&& forall|a: Seq<char>, b: Seq<char>, j: int, k: int|
        0 <= j < blocks_of(dir, a).len() && 0 <= k < blocks_of(dir, b).len() && (a != b || j != k)
        ==> #[trigger] blocks_of(dir, a)[j] != #[trigger] blocks_of(dir, b)[k]
    &&& forall|name: Seq<char>| (#[trigger] dir.lookup(name)) is Some
        ==> is_chunk_count(dir.lookup(name).unwrap().0 as int, dir.lookup(name).unwrap().1.len() as int)
}

/// Writing a file keeps the layout: the written file takes the `n` blocks from
/// the old block count on, one per chunk, and every other file keeps its entry.
pub proof fn lemma_write_keeps_layout(old_dir: Directory, new_dir: Directory, filename: Seq<char>,
    size: u64, start: int, n: int)
    requires
        layout_ok(old_dir, start),
        1 <= start,
        is_chunk_count(size as int, n),
        start + n <= u64::MAX,
        new_dir.lookup(filename) == Some((size, Seq::new(n as nat, |i: int| (start + i) as u64))),
        forall|other: Seq<char>| other != filename ==> new_dir.lookup(other) == old_dir.lookup(other),
    ensures
        layout_ok(new_dir, start + n),
{
    assert forall|name: Seq<char>, j: int| 0 <= j < blocks_of(new_dir, name).len()
        implies 1 <= #[trigger] blocks_of(new_dir, name)[j] < start + n by {
        if name != filename {
            assert(blocks_of(new_dir, name) == blocks_of(old_dir, name));
        }
    }
    assert forall|a: Seq<char>, b: Seq<char>, j: int, k: int|
        0 <= j < blocks_of(new_dir, a).len() && 0 <= k < blocks_of(new_dir, b).len() && (a != b || j != k)
        implies #[trigger] blocks_of(new_dir, a)[j] != #[trigger] blocks_of(new_dir, b)[k] by {
        if a != filename {
            assert(blocks_of(new_dir, a) == blocks_of(old_dir, a));
        }
        if b != filename {
            assert(blocks_of(new_dir, b) == blocks_of(old_dir, b));
        }
    }
    assert forall|name: Seq<char>| (#[trigger] new_dir.lookup(name)) is Some
        implies is_chunk_count(new_dir.lookup(name).unwrap().0 as int, new_dir.lookup(name).unwrap().1.len() as int) by {
        if name != filename {
            assert(new_dir.lookup(name) == old_dir.lookup(name));
        }
    }
}

/// The block index that a byte offset of the vault file addresses.
pub open spec fn block_index_at(offset: int) -> int {
    (offset - HEADER_SALT_SIZE) / (BLOCK_SIZE as int)
}

/// The blocks stored in the vault file, by index, after the writes: each
/// write's block replaces the block at its offset.
pub open spec fn stored_after(stored: Map<int, Seq<u8>>, writes: Seq<BlockWrite>) -> Map<int, Seq<u8>>
    decreases writes.len(),
{
    if writes.len() == 0 {
        stored
    } else {
        stored_after(stored, writes.drop_last()).insert(block_index_at(writes.last().offset as int),
            writes.last().block@)
    }
}

/// What reading a file of a directory gives, from the stored blocks (`None`
/// when the directory holds no such file).
pub open spec fn read_stored(stored: Map<int, Seq<u8>>, key: Seq<u8>, dir: Directory, name: Seq<char>)
    -> Option<Result<Seq<u8>, VaultError>> {
    match dir.lookup(name) {
        None => None,
        Some(e) => Some(assemble_spec(key, e.1.map_values(|b: u64| block_at(stored, b as int)), e.0 as nat)),
    }
}

/// The block stored at an index; nothing where none is (the file ends before it).
pub open spec fn block_at(stored: Map<int, Seq<u8>>, index: int) -> Seq<u8> {
    if stored.contains_key(index) { stored[index] } else { Seq::empty() }
}

/// The offset of block `i` addresses block `i`.
pub proof fn lemma_offset_index(i: int)
    requires
        0 <= i,
    ensures
        block_index_at(block_offset_spec(i)) == i,
{
    assert((i * (BLOCK_SIZE as int)) / (BLOCK_SIZE as int) == i) by (nonlinear_arith);
}

proof fn lemma_stored_after(stored: Map<int, Seq<u8>>, writes: Seq<BlockWrite>, start: int)
    requires
        0 <= start,
        forall|i: int| 0 <= i < writes.len() ==> (#[trigger] writes[i]).offset == block_offset_spec(start + i),
    ensures
        forall|i: int| 0 <= i < writes.len() ==> #[trigger] block_at(stored_after(stored, writes), start + i)
            == writes[i].block@,
        forall|x: int| x < start ==> #[trigger] block_at(stored_after(stored, writes), x) == block_at(stored, x),
    decreases writes.len(),
{
    if writes.len() > 0 {
        let prefix = writes.drop_last();
        assert forall|i: int| 0 <= i < prefix.len() implies (#[trigger] prefix[i]).offset
            == block_offset_spec(start + i) by {
            assert(prefix[i] == writes[i]);
        }
        lemma_stored_after(stored, prefix, start);
        let last = writes.len() - 1;
        assert(writes.last() == writes[last]);
        lemma_offset_index(start + last);
        let before = stored_after(stored, prefix);
        assert(stored_after(stored, writes) == before.insert(start + last, writes[last].block@));
        assert forall|i: int| 0 <= i < writes.len() implies #[trigger] block_at(stored_after(stored, writes), start + i)
            == writes[i].block@ by {
            if i < last {
                assert(prefix[i] == writes[i]);
                assert(block_at(before, start + i) == writes[i].block@);
            }
        }
        assert forall|x: int| x < start implies #[trigger] block_at(stored_after(stored, writes), x)
            == block_at(stored, x) by {
            assert(block_at(before, x) == block_at(stored, x));
        }
    }
}

/// Reading back through the stored blocks: after a write of `data` as
/// `filename` (the blocks it returns put at their offsets), reading
/// `filename` gives `data`, reading any other file gives what it gave before,
/// and the layout is kept.
pub proof fn lemma_stored_read_after_write(old_dir: Directory, new_dir: Directory, key: Seq<u8>,
    stored: Map<int, Seq<u8>>, writes: Seq<BlockWrite>, filename: Seq<char>, data: Seq<u8>, start: int)
    requires
        layout_ok(old_dir, start),
        1 <= start,
        start + data.len() <= max_block_index(),
        is_chunk_count(data.len() as int, writes.len() as int),
        forall|i: int| 0 <= i < writes.len() ==> {
            &&& (#[trigger] writes[i]).offset == block_offset_spec(start + i)
            &&& open_block_spec(key, writes[i].block@) == Ok::<Seq<u8>, VaultError>(padded_payload(chunk(data, i)))
        },
        new_dir.lookup(filename) == Some((data.len() as u64,
            Seq::new(writes.len(), |i: int| (start + i) as u64))),
        forall|other: Seq<char>| other != filename ==> new_dir.lookup(other) == old_dir.lookup(other),
    ensures
        read_stored(stored_after(stored, writes), key, new_dir, filename) == Some(Ok::<Seq<u8>, VaultError>(data)),
        forall|other: Seq<char>| other != filename ==> #[trigger] read_stored(stored_after(stored, writes), key,
            new_dir, other) == read_stored(stored, key, old_dir, other),
        layout_ok(new_dir, start + writes.len()),
{
    let n = writes.len() as int;
    let after = stored_after(stored, writes);
    assert(n <= data.len());
    lemma_stored_after(stored, writes, start);
    lemma_write_keeps_layout(old_dir, new_dir, filename, data.len() as u64, start, n);
    let idx = Seq::new(n as nat, |i: int| (start + i) as u64);
    let blocks = idx.map_values(|b: u64| block_at(after, b as int));
    assert forall|i: int| 0 <= i < blocks.len() implies open_block_spec(key, #[trigger] blocks[i])
        == Ok::<Seq<u8>, VaultError>(padded_payload(chunk(data, i))) by {
        assert(idx[i] as int == start + i);
        assert(blocks[i] == block_at(after, start + i));
    }
    lemma_read_after_write(key, data, blocks);
    assert forall|other: Seq<char>| other != filename implies #[trigger] read_stored(after, key, new_dir, other)
        == read_stored(stored, key, old_dir, other) by {
        assert(new_dir.lookup(other) == old_dir.lookup(other));
        match old_dir.lookup(other) {
            None => {},
            Some(e) => {
                assert(blocks_of(old_dir, other) == e.1);
                assert forall|j: int| 0 <= j < e.1.len() implies #[trigger] e.1[j] < start by {
                    assert(blocks_of(old_dir, other)[j] == e.1[j]);
                }
                assert(e.1.map_values(|b: u64| block_at(after, b as int))
                    =~= e.1.map_values(|b: u64| block_at(stored, b as int)));
            },
        }
    }
}

} // verus!
