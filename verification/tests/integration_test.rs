use isotope::crypto::identity::Identity;
use isotope::crypto::keys::derive_key;
use isotope::crypto::ring_sig::{ring_sign, ring_verify};
use isotope::network::address::parse_onion_address;
use isotope::vault::block::{BLOCK_SIZE, HEADER_SALT_SIZE};
use isotope::vault::directory::Directory;
use isotope::vault::filesystem::Vault;
use isotope::error::VaultError;
use isotope::protocol::IsotopePacket;
use isotope::PLAINTEXT_SIZE;

/// A vault file kept in memory: salt, metadata block, data blocks.
struct MemoryVault {
    image: Vec<u8>,
}

/// Serialises a directory as `count ‖ (name_len ‖ name ‖ size ‖ block_count ‖ blocks…)…`.
fn encode_directory(dir: &Directory) -> Vec<u8> {
    let mut out = Vec::new();
    out.extend_from_slice(&(dir.len() as u64).to_le_bytes());
    for i in 0..dir.len() {
        let (name, entry) = dir.entry_at(i);
        out.extend_from_slice(&(name.len() as u64).to_le_bytes());
        out.extend_from_slice(name.as_bytes());
        out.extend_from_slice(&entry.size.to_le_bytes());
        out.extend_from_slice(&(entry.blocks.len() as u64).to_le_bytes());
        for b in &entry.blocks {
            out.extend_from_slice(&b.to_le_bytes());
        }
    }
    out
}

fn read_u64(b: &[u8], pos: &mut usize) -> u64 {
    let v = u64::from_le_bytes(b[*pos..*pos + 8].try_into().unwrap());
    *pos += 8;
    v
}

fn decode_directory(b: &[u8]) -> Directory {
    let mut dir = Directory::new();
    let mut pos = 0;
    let count = read_u64(b, &mut pos);
    for _ in 0..count {
        let len = read_u64(b, &mut pos) as usize;
        let name = String::from_utf8(b[pos..pos + len].to_vec()).unwrap();
        pos += len;
        let size = read_u64(b, &mut pos);
        let n = read_u64(b, &mut pos);
        let mut blocks = Vec::new();
        for _ in 0..n {
            blocks.push(read_u64(b, &mut pos));
        }
        dir.insert(name, isotope::vault::directory::FileEntry { size, blocks });
    }
    dir
}

impl MemoryVault {
    fn write_at(&mut self, offset: u64, data: &[u8]) {
        let off = offset as usize;
        if self.image.len() < off + data.len() {
            self.image.resize(off + data.len(), 0);
        }
        self.image[off..off + data.len()].copy_from_slice(data);
    }

    fn save_metadata(&mut self, v: &Vault) -> Result<(), VaultError> {
        let block = v.metadata_block(&encode_directory(&v.directory))?;
        self.write_at(HEADER_SALT_SIZE as u64, &block);
        Ok(())
    }

    fn create(password: &str) -> Result<(MemoryVault, Vault), VaultError> {
        Vault::check_new_password(password)?;
        let salt = Vault::new_salt();
        let mut mem = MemoryVault { image: salt.clone() };
        let v = Vault::create(password, &salt)?;
        mem.save_metadata(&v)?;
        Ok((mem, v))
    }

    fn open(&self, password: &str) -> Result<Vault, VaultError> {
        let salt = &self.image[..HEADER_SALT_SIZE];
        let mut v = Vault::unlock(password, salt)?;
        let block = &self.image[HEADER_SALT_SIZE..HEADER_SALT_SIZE + BLOCK_SIZE];
        let dir_bytes = v.read_metadata(block)?;
        v.set_directory(decode_directory(&dir_bytes));
        v.set_file_len(self.image.len() as u64)?;
        Ok(v)
    }

    fn write_file(&mut self, v: &mut Vault, name: &str, data: &[u8]) -> Result<(), VaultError> {
        let writes = v.write_file(name, data)?;
        for w in writes {
            self.write_at(w.offset, &w.block);
        }
        self.save_metadata(v)
    }

    fn read_file(&self, v: &Vault, name: &str) -> Result<Vec<u8>, VaultError> {
        let entry = v.file_entry(name)?;
        let mut blocks = Vec::new();
        for &b in &entry.blocks {
            let off = isotope::vault::filesystem::block_offset(b) as usize;
            blocks.push(self.image[off..off + BLOCK_SIZE].to_vec());
        }
        isotope::vault::filesystem::assemble_file(&v.key, &blocks, entry.size)
    }
}

fn stored_record(id: &Identity) -> Vec<u8> {
    let (public_hex, private_hex, metadata) = id.stored_fields();
    format!(
        "{{\"public_hex\":\"{}\",\"private_hex\":\"{}\",\"metadata\":\"{}\"}}",
        public_hex, private_hex, metadata
    )
    .into_bytes()
}

fn profile_of(record: &[u8]) -> String {
    let text = String::from_utf8(record.to_vec()).unwrap();
    let start = text.find("\"metadata\":\"").unwrap() + "\"metadata\":\"".len();
    let end = text[start..].find('"').unwrap() + start;
    text[start..end].to_string()
}

#[test]
fn test_identity_dual_slot() {
    let pass_ops = "ops_password";
    let pass_casual = "casual_password";

    // Setup
    let (ops, casual, salt) = Identity::generate_dual().expect("Setup failed");
    let key_ops = derive_key(pass_ops, &salt).expect("Setup failed");
    let key_casual = derive_key(pass_casual, &salt).expect("Setup failed");
    let image = Identity::dual_file_image_with_keys(&key_ops, &key_casual, pass_ops, pass_casual, &salt,
        &stored_record(&ops), &stored_record(&casual)).expect("Setup failed");

    // Load Ops
    let (slot1, _) = Identity::open_slots_with_key(&image, &key_ops, pass_ops);
    assert_eq!(profile_of(&slot1.expect("Failed to load Ops")), "ops");

    // Load Casual
    let (slot1, slot2) = Identity::open_slots_with_key(&image, &key_casual, pass_casual);
    assert!(slot1.is_none());
    assert_eq!(profile_of(&slot2.expect("Failed to load Casual")), "casual");

    // Invalid Password
    let (a, b) = Identity::open_slots(&image, "wrong").unwrap();
    assert!(a.is_none() && b.is_none());
}

#[test]
fn test_vault_operations() {
    let pass = "VaultSecret1";
    let (mut mem, mut v) = MemoryVault::create(pass).expect("Create failed");
    mem.write_file(&mut v, "secret.txt", b"Top Secret Data").expect("Write failed");

    let v = mem.open(pass).expect("Open failed");
    let data = mem.read_file(&v, "secret.txt").expect("Read failed");
    assert_eq!(data, b"Top Secret Data");
}

#[test]
fn test_parse_onion_address_valid() {
    let (host, port) = parse_onion_address("abc123.onion:7878").unwrap();
    assert_eq!(host, "abc123.onion");
    assert_eq!(port, 7878);
}

#[test]
fn test_parse_onion_address_missing_port() {
    let result = parse_onion_address("abc123.onion");
    assert!(result.is_err());
}

#[test]
fn test_parse_onion_address_non_onion() {
    let result = parse_onion_address("example.com:7878");
    assert!(result.is_err());
}

#[test]
fn test_vault_wrong_password() {
    let pass = "CorrectPass1";
    let wrong = "WrongPass1";
    let (mut mem, mut v) = MemoryVault::create(pass).expect("Create failed");
    mem.write_file(&mut v, "secret.txt", b"data").expect("Write failed");

    let result = mem.open(wrong);
    assert!(result.is_err(), "Wrong password should fail to open vault");
}

#[test]
fn test_vault_multiple_files() {
    let pass = "MultiPass1";
    let (mut mem, mut v) = MemoryVault::create(pass).expect("Create failed");
    mem.write_file(&mut v, "file1.txt", b"Data One").unwrap();
    mem.write_file(&mut v, "file2.txt", b"Data Two").unwrap();
    mem.write_file(&mut v, "file3.bin", &[0xFF; 8000]).unwrap(); // Multi-block file

    let v = mem.open(pass).expect("Open failed");
    assert_eq!(mem.read_file(&v, "file1.txt").unwrap(), b"Data One");
    assert_eq!(mem.read_file(&v, "file2.txt").unwrap(), b"Data Two");
    assert_eq!(mem.read_file(&v, "file3.bin").unwrap(), vec![0xFF; 8000]);

    let files = v.list_files();
    assert_eq!(files.len(), 3);
}

#[test]
fn test_identity_fingerprint_and_did() {
    let id = Identity::generate("test").unwrap();

    let fp = id.fingerprint();
    assert!(!fp.is_empty(), "Fingerprint should not be empty");

    let did = id.did();
    assert!(did.starts_with("did:key:z"), "DID should start with did:key:z");
}

#[test]
fn test_ring_signature() {
    let id1 = Identity::generate("member1").unwrap();
    let id2 = Identity::generate("member2").unwrap();
    let id3 = Identity::generate("member3").unwrap();

    let ring = vec![
        id1.keypair.public.clone(),
        id2.keypair.public.clone(),
        id3.keypair.public.clone(),
    ];

    let message = b"Anonymous group statement";
    let sig = ring_sign(message, &id1.keypair.private, &ring);

    assert!(!sig.is_empty(), "Signature should not be empty");
    assert!(ring_verify(message, &sig, &ring), "Signature verification failed");
    assert!(!ring_verify(b"Tampered message", &sig, &ring), "Tampered message should fail verification");
}

#[test]
fn test_packet_serialization() {
    let msg: (String, String, i64) = ("Alice".to_string(), "Hello World".to_string(), chrono::Utc::now().timestamp());

    let data = bincode::serialize(&msg).unwrap();
    let packet = IsotopePacket::new(&data).unwrap();

    let wire_bytes = packet.to_bytes().unwrap();
    assert_eq!(wire_bytes.len(), PLAINTEXT_SIZE);

    let restored = IsotopePacket::from_bytes(&wire_bytes).unwrap();
    let (sender, content, _): (String, String, i64) = bincode::deserialize(&restored.payload).unwrap();
    assert_eq!(sender, "Alice");
    assert_eq!(content, "Hello World");
}

#[test]
fn test_packet_oversized_payload_rejected() {
    let huge = vec![0u8; PLAINTEXT_SIZE + 1000];
    let result = IsotopePacket::new(&huge);
    assert!(result.is_err(), "Oversized payload should be rejected");
}
