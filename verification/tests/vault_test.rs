use std::collections::HashMap;
use isotope::error::{PasswordWeakness, VaultError};
use isotope::vault::block::{open_block, prepare_block, BLOCK_SIZE, PAYLOAD_SIZE};
use isotope::vault::directory::{Directory, FileEntry};
use isotope::vault::filesystem::{assemble_file, block_offset, frame_metadata, unframe_metadata, Vault};
use isotope::vault::hidden::HiddenVault;

fn test_vault() -> Vault {
    Vault { key: vec![4u8; 32], directory: Directory::new(), total_blocks: 1 }
}

#[test]
fn block_roundtrip_pads_to_payload() {
    let key = vec![1u8; 32];
    let block = prepare_block(&key, b"hello").unwrap();
    assert_eq!(block.len(), BLOCK_SIZE);
    let plain = open_block(&key, &block).unwrap();
    assert_eq!(plain.len(), PAYLOAD_SIZE);
    assert_eq!(&plain[..5], b"hello");
    assert!(plain[5..].iter().all(|b| *b == 0));
    // Two blocks of the same data differ (fresh nonces) but both open.
    let again = prepare_block(&key, b"hello").unwrap();
    assert_ne!(block, again);
    assert_eq!(open_block(&key, &again).unwrap(), plain);
}

#[test]
fn block_errors() {
    let key = vec![1u8; 32];
    assert_eq!(prepare_block(&key, &vec![0u8; PAYLOAD_SIZE + 1]), Err(VaultError::BlockOverflow(PAYLOAD_SIZE + 1, PAYLOAD_SIZE)));
    let block = prepare_block(&key, b"x").unwrap();
    assert_eq!(open_block(&key, &block[1..]), Err(VaultError::CorruptedVault));
    assert_eq!(open_block(&vec![2u8; 32], &block), Err(VaultError::DecryptionFailed));
}

#[test]
fn metadata_framing() {
    let framed = frame_metadata(b"dir").unwrap();
    assert_eq!(framed, vec![0, 0, 0, 3, b'd', b'i', b'r']);
    let mut padded = framed.clone();
    padded.resize(100, 0);
    assert_eq!(unframe_metadata(&padded).unwrap(), b"dir".to_vec());
    assert_eq!(frame_metadata(&vec![0u8; PAYLOAD_SIZE - 3]), Err(VaultError::DirectoryOverflow));
    assert_eq!(unframe_metadata(&[0, 0, 0]), Err(VaultError::CorruptedVault));
    assert_eq!(unframe_metadata(&[0, 0, 0, 9, 1]), Err(VaultError::CorruptedVault));
    let v = test_vault();
    let block = v.metadata_block(b"abc").unwrap();
    assert_eq!(v.read_metadata(&block).unwrap(), b"abc".to_vec());
}

#[test]
fn password_rules() {
    assert_eq!(Vault::check_new_password("Short1"), Err(VaultError::WeakPassword(PasswordWeakness::TooShort)));
    assert_eq!(Vault::check_new_password("longenough1"), Err(VaultError::WeakPassword(PasswordWeakness::NoUppercase)));
    assert_eq!(Vault::check_new_password("LongEnough"), Err(VaultError::WeakPassword(PasswordWeakness::NoNumber)));
    assert_eq!(Vault::check_new_password("LongEnough1"), Ok(()));
    // Unicode letters and numerals count.
    assert_eq!(Vault::check_new_password("ÉCOLEécole٣"), Ok(()));
    assert!(Vault::create("weak", &[0u8; 32]).is_err());
}

#[test]
fn write_then_read_blocks() {
    let mut v = test_vault();
    let data: Vec<u8> = (0..9000u32).map(|i| (i % 251) as u8).collect();
    let writes = v.write_file("f", &data).unwrap();
    assert_eq!(writes.len(), 3);
    assert_eq!(v.total_blocks, 4);
    assert_eq!(writes[0].offset, 32 + 4096);
    assert_eq!(writes[2].offset, 32 + 3 * 4096);
    let blocks: Vec<Vec<u8>> = writes.iter().map(|w| w.block.clone()).collect();
    let entry = v.file_entry("f").unwrap();
    assert_eq!(entry.blocks, vec![1, 2, 3]);
    assert_eq!(entry.size, 9000);
    assert_eq!(assemble_file(&v.key, &blocks, entry.size).unwrap(), data);
    // Empty files take no block.
    assert!(v.write_file("empty", b"").unwrap().is_empty());
    assert_eq!(assemble_file(&v.key, &Vec::new(), 0).unwrap(), Vec::<u8>::new());
    assert!(matches!(v.file_entry("missing"), Err(VaultError::FileNotFound(n)) if n == "missing"));
    let mut broken = blocks.clone();
    broken[1][40] ^= 1;
    assert_eq!(assemble_file(&v.key, &broken, 9000), Err(VaultError::DecryptionFailed));
}

#[test]
fn overwriting_a_file_replaces_its_entry() {
    let mut v = test_vault();
    v.write_file("a", b"one").unwrap();
    v.write_file("b", b"two").unwrap();
    v.write_file("a", b"three").unwrap();
    assert_eq!(v.list_files(), vec!["a".to_string(), "b".to_string()]);
    assert_eq!(v.file_entry("a").unwrap().blocks, vec![3]);
}

#[test]
fn file_length_and_offsets() {
    let mut v = test_vault();
    assert_eq!(v.set_file_len(10), Err(VaultError::CorruptedVault));
    assert_eq!(v.set_file_len(32 + 3 * 4096 + 5), Ok(()));
    assert_eq!(v.total_blocks, 3);
    assert_eq!(block_offset(0), 32);
    assert_eq!(block_offset(2), 32 + 8192);
    assert_eq!(v.allocate_block(), 3);
    assert_eq!(v.total_blocks, 4);
}

#[test]
fn directory_lookup() {
    let mut d = Directory::new();
    d.insert("x".to_string(), FileEntry { size: 1, blocks: vec![5] });
    assert_eq!(d.len(), 1);
    assert_eq!(d.get(&"x".to_string()).unwrap().blocks, vec![5]);
    assert!(d.get(&"y".to_string()).is_none());
    assert_eq!(d.names(), vec!["x".to_string()]);
}

#[test]
fn hidden_volume_layout() {
    assert_eq!(HiddenVault::check_size(3), Err(VaultError::InsufficientBlocks(4)));
    assert_eq!(HiddenVault::check_size(4), Ok(()));
    assert_eq!(HiddenVault::inner_start(8), 32 + 4 * 4096);
    assert_eq!(HiddenVault::inner_start(9), 32 + 4 * 4096);
    assert_eq!(HiddenVault::total_blocks_of(32 + 8 * 4096 + 100), 8);
    let key = vec![6u8; 32];
    let block = HiddenVault::inner_metadata_block(&key, &[0u8; 8]);
    assert_eq!(block.len(), BLOCK_SIZE);
    let plain = HiddenVault::open_inner_metadata(&key, &block).unwrap();
    assert_eq!(plain, vec![0u8; PAYLOAD_SIZE]);
    assert_eq!(HiddenVault::open_inner_metadata(&vec![7u8; 32], &block), Err(VaultError::DecryptionFailed));
    assert_eq!(HiddenVault::open_inner_metadata(&key, &block[..10]), Err(VaultError::CorruptedVault));
}

#[test]
fn hidden_volume_views() {
    let inner = HiddenVault::from_inner(vec![1u8; 32], Directory::new(), 9);
    assert!(inner.is_inner());
    let outer = HiddenVault::from_outer(test_vault());
    assert!(!outer.is_inner());
    let mut h = inner;
    let writes = h.write_file("n", b"note").unwrap();
    assert_eq!(writes[0].offset, 32 + 5 * 4096);
    assert_eq!(h.list_files(), vec!["n".to_string()]);
    assert_eq!(h.file_entry("n").unwrap().size, 4);
    let blocks = vec![writes[0].block.clone()];
    assert_eq!(assemble_file(h.key(), &blocks, 4).unwrap(), b"note".to_vec());
    let meta = h.metadata_block(b"dir").unwrap();
    assert_eq!(meta.offset, 32 + 4 * 4096);
    let plain = HiddenVault::open_inner_metadata(h.key(), &meta.block).unwrap();
    assert_eq!(&plain[..3], b"dir");
    assert_eq!(plain.len(), PAYLOAD_SIZE);
    assert_eq!(h.metadata_block(&vec![0u8; PAYLOAD_SIZE + 1]).err(), Some(VaultError::DirectoryOverflow));
}

#[test]
fn hidden_volume_keeps_to_its_region() {
    let mut h = HiddenVault::from_inner(vec![1u8; 32], Directory::new(), 8);
    let a = h.write_file("a", &vec![1u8; 4056 * 2]).unwrap();
    assert_eq!(a.iter().map(|w| w.offset).collect::<Vec<_>>(), vec![32 + 5 * 4096, 32 + 6 * 4096]);
    assert_eq!(h.write_file("b", &vec![2u8; 4057]).err(), Some(VaultError::HiddenVolumeFull));
    let b = h.write_file("b", b"x").unwrap();
    assert_eq!(b[0].offset, 32 + 7 * 4096);
    assert_eq!(h.write_file("c", b"y").err(), Some(VaultError::HiddenVolumeFull));
    assert_eq!(h.list_files(), vec!["a".to_string(), "b".to_string()]);
}

#[test]
fn hidden_volume_resumes_after_used_blocks() {
    let mut dir = Directory::new();
    dir.insert("old".to_string(), FileEntry { size: 1, blocks: vec![6] });
    let mut h = HiddenVault::from_inner(vec![1u8; 32], dir, 10);
    let w = h.write_file("new", b"z").unwrap();
    assert_eq!(w[0].offset, 32 + 7 * 4096);
}

#[test]
fn outer_metadata_goes_first() {
    let h = HiddenVault::from_outer(test_vault());
    let meta = h.metadata_block(b"abc").unwrap();
    assert_eq!(meta.offset, 32);
    assert_eq!(test_vault().read_metadata(&meta.block).unwrap(), b"abc".to_vec());
}

#[test]
fn new_vault_password_length_counts_bytes() {
    // Seven characters, eight bytes of UTF-8: long enough.
    assert_eq!(Vault::check_new_password("ÄBCDEF1"), Ok(()));
    // Seven bytes: too short.
    assert_eq!(Vault::check_new_password("ABCDEF1"), Err(VaultError::WeakPassword(PasswordWeakness::TooShort)));
}

#[test]
fn stored_blocks_read_back_after_overwrites() {
    let mut v = test_vault();
    let mut stored: HashMap<u64, Vec<u8>> = HashMap::new();
    let put = |writes: Vec<isotope::vault::filesystem::BlockWrite>, stored: &mut HashMap<u64, Vec<u8>>| {
        for w in writes {
            stored.insert((w.offset - 32) / 4096, w.block);
        }
    };
    let read = |v: &Vault, stored: &HashMap<u64, Vec<u8>>, name: &str| {
        let e = v.file_entry(name).unwrap();
        let blocks: Vec<Vec<u8>> = e.blocks.iter().map(|b| stored.get(b).cloned().unwrap_or_default()).collect();
        assemble_file(&v.key, &blocks, e.size)
    };
    let a1: Vec<u8> = vec![1u8; 5000];
    let b: Vec<u8> = vec![2u8; 100];
    let a2: Vec<u8> = (0..4100u32).map(|i| (i % 7) as u8).collect();
    put(v.write_file("a", &a1).unwrap(), &mut stored);
    put(v.write_file("b", &b).unwrap(), &mut stored);
    put(v.write_file("a", &a2).unwrap(), &mut stored);
    assert_eq!(read(&v, &stored, "a").unwrap(), a2);
    assert_eq!(read(&v, &stored, "b").unwrap(), b);
    assert_eq!(v.total_blocks, 1 + 2 + 1 + 2);
    // Every block in use is a data block, and none is shared.
    let mut used: Vec<u64> = Vec::new();
    for name in v.list_files() {
        used.extend(v.file_entry(&name).unwrap().blocks);
    }
    used.sort();
    assert_eq!(used, vec![3, 4, 5]);
}

#[test]
fn hidden_writes_leave_the_outer_volume_readable() {
    // A file of 8 blocks: the outer volume's metadata at block 0, its files from block 8 on.
    let mut outer = Vault { key: vec![4u8; 32], directory: Directory::new(), total_blocks: 8 };
    let mut stored: HashMap<u64, Vec<u8>> = HashMap::new();
    stored.insert(0, outer.metadata_block(b"outer-dir").unwrap());
    for w in outer.write_file("public.txt", b"nothing to see").unwrap() {
        stored.insert((w.offset - 32) / 4096, w.block);
    }
    let before = stored.clone();
    let mut hidden = HiddenVault::from_inner(vec![9u8; 32], Directory::new(), 8);
    let mut writes = hidden.write_file("secret", &vec![5u8; 5000]).unwrap();
    writes.push(hidden.metadata_block(b"inner-dir").unwrap());
    for w in writes {
        let index = (w.offset - 32) / 4096;
        assert!((4..8).contains(&index));
        stored.insert(index, w.block);
    }
    assert_eq!(stored.get(&0), before.get(&0));
    assert_eq!(outer.read_metadata(&stored[&0]).unwrap(), b"outer-dir".to_vec());
    let e = outer.file_entry("public.txt").unwrap();
    let blocks: Vec<Vec<u8>> = e.blocks.iter().map(|b| stored[b].clone()).collect();
    assert_eq!(assemble_file(&outer.key, &blocks, e.size).unwrap(), b"nothing to see".to_vec());
}
