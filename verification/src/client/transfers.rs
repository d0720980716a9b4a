//! File transfers of a client session: the offers it has seen, the files it
//! offered, the downloads it accepted, and where each received chunk goes.

use vstd::prelude::*;
use std::collections::{HashMap, HashSet};

verus! {

broadcast use vstd::std_specs::hash::group_hash_axioms;

/// A file offered by another user.
pub struct Offer {
    /// The offered name, reduced to its last path component.
    pub name: String,
    pub sender: String,
}

/// A download in progress: the name it is saved under and the last chunk index seen.
pub struct Download {
    pub name: String,
    pub last_chunk: u32,
}

/// The transfer state of a session.
pub struct Transfers {
    /// Offers received, by file id.
    pub pending_offers: HashMap<u32, Offer>,
    /// Files this user offered, by file id: the local path.
    pub upload_queue: HashMap<u32, String>,
    /// File ids whose chunks are accepted.
    pub download_whitelist: HashSet<u32>,
    /// Downloads that have received a chunk, by file id.
    pub active_downloads: HashMap<u32, Download>,
}

/// What to do with a received chunk.
pub enum ChunkAction {
    /// Not a download this user accepted.
    Ignore,
    /// Append the data to `downloads/<name>`; `complete` when it was the last chunk.
    Append { name: String, complete: bool },
}

/// "file_<id>.bin", the name of a download whose offer was not seen.
pub open spec fn default_download_name(id: u32) -> Seq<char> {
    seq!['f', 'i', 'l', 'e', '_'] + decimal_chars(id as nat) + seq!['.', 'b', 'i', 'n']
}

/// The decimal digits of `n`.
pub open spec fn decimal_chars(n: nat) -> Seq<char>
    decreases n,
{
    if n < 10 { seq![((48 + n) as u32) as char] } else { decimal_chars(n / 10).push(((48 + n % 10) as u32) as char) }
}

fn push_decimal(out: &mut Vec<char>, n: u32)
    ensures
        final(out)@ == old(out)@ + decimal_chars(n as nat),
    decreases n,
{
    if n < 10 {
        out.push(((48 + n) as u8) as char);
        assert(decimal_chars(n as nat) =~= seq![((48 + n) as u32) as char]);
    } else {
        push_decimal(out, n / 10);
        out.push(((48 + n % 10) as u8) as char);
    }
}

impl Transfers {
    pub fn new() -> (t: Transfers)
        ensures
            t.pending_offers@ == Map::<u32, Offer>::empty(),
            t.upload_queue@ == Map::<u32, String>::empty(),
            t.download_whitelist@ == Set::<u32>::empty(),
            t.active_downloads@ == Map::<u32, Download>::empty(),
    {
        Transfers {
            pending_offers: HashMap::new(),
            upload_queue: HashMap::new(),
            download_whitelist: HashSet::new(),
            active_downloads: HashMap::new(),
        }
    }

    /// Records a file this user offered.
    pub fn offer_upload(&mut self, id: u32, path: String)
        ensures
            final(self).upload_queue@ == old(self).upload_queue@.insert(id, path),
            final(self).pending_offers@ == old(self).pending_offers@,
            final(self).download_whitelist@ == old(self).download_whitelist@,
            final(self).active_downloads@ == old(self).active_downloads@,
    {
        self.upload_queue.insert(id, path);
    }

    /// The local path of a file this user offered, when another user asks for it.
    pub fn upload_for(&self, id: u32) -> (r: Option<String>)
        ensures
            match r {
                Some(p) => self.upload_queue@.contains_key(id) && p == self.upload_queue@[id],
                None => !self.upload_queue@.contains_key(id),
            },
    {
        match self.upload_queue.get(&id) {
            Some(p) => Some(p.clone()),
            None => None,
        }
    }

    /// Remembers an offer from another user, so that `/get` can accept it.
    pub fn remember_offer(&mut self, id: u32, name: String, sender: String)
        ensures
            final(self).pending_offers@ == old(self).pending_offers@.insert(id, Offer { name, sender }),
            final(self).upload_queue@ == old(self).upload_queue@,
            final(self).download_whitelist@ == old(self).download_whitelist@,
            final(self).active_downloads@ == old(self).active_downloads@,
    {
        self.pending_offers.insert(id, Offer { name, sender });
    }

    /// `/get id`: accepts an offer that was seen, returning its sender (to
    /// whom the request goes); an unknown id changes nothing.
    pub fn accept(&mut self, id: u32) -> (r: Option<String>)
        ensures
            old(self).pending_offers@.contains_key(id) ==> r == Some(old(self).pending_offers@[id].sender)
                && final(self).download_whitelist@ == old(self).download_whitelist@.insert(id),
            !old(self).pending_offers@.contains_key(id) ==> r is None
                && final(self).download_whitelist@ == old(self).download_whitelist@,
            final(self).pending_offers@ == old(self).pending_offers@,
            final(self).upload_queue@ == old(self).upload_queue@,
            final(self).active_downloads@ == old(self).active_downloads@,
    {
        let sender = match self.pending_offers.get(&id) {
            Some(o) => o.sender.clone(),
            None => { return None; },
        };
        self.download_whitelist.insert(id);
        Some(sender)
    }

    /// A chunk of file `file_id` arrived. Chunks of accepted downloads are
    /// appended under the offered name (or `file_<id>.bin`); the last chunk
    /// completes the download, whose chunks are no longer accepted after it.
    /// A chunk that claims a total of zero chunks never completes one.
    pub fn on_chunk(&mut self, file_id: u32, chunk_index: u32, total_chunks: u32) -> (r: ChunkAction)
        ensures
            !old(self).download_whitelist@.contains(file_id) ==> r is Ignore
                && final(self).download_whitelist@ == old(self).download_whitelist@
                && final(self).active_downloads@ == old(self).active_downloads@,
            old(self).download_whitelist@.contains(file_id) ==> {
                let name = if old(self).active_downloads@.contains_key(file_id) {
                    old(self).active_downloads@[file_id].name@
                } else if old(self).pending_offers@.contains_key(file_id) {
                    old(self).pending_offers@[file_id].name@
                } else {
                    default_download_name(file_id)
                };
                let complete = chunk_index + 1 == total_chunks;
                &&& r matches ChunkAction::Append { name: n, complete: c } && n@ == name && c == complete
                &&& final(self).active_downloads@.dom() == old(self).active_downloads@.dom().insert(file_id)
                &&& final(self).active_downloads@[file_id].name@ == name
                &&& final(self).active_downloads@[file_id].last_chunk == chunk_index
                &&& final(self).download_whitelist@ == if complete {
                        old(self).download_whitelist@.remove(file_id)
                    } else {
                        old(self).download_whitelist@
                    }
            },
            final(self).pending_offers@ == old(self).pending_offers@,
            final(self).upload_queue@ == old(self).upload_queue@,
    {
        if !self.download_whitelist.contains(&file_id) {
            return ChunkAction::Ignore;
        }
        let name = match self.active_downloads.get(&file_id) {
            Some(d) => d.name.clone(),
            None => match self.pending_offers.get(&file_id) {
                Some(o) => o.name.clone(),
                None => {
                    let mut v: Vec<char> = vec!['f', 'i', 'l', 'e', '_'];
                    push_decimal(&mut v, file_id);
                    v.push('.');
                    v.push('b');
                    v.push('i');
                    v.push('n');
                    assert(v@ =~= default_download_name(file_id));
                    crate::text::string_of(v.as_slice())
                },
            },
        };
        self.active_downloads.insert(file_id, Download { name: name.clone(), last_chunk: chunk_index });
        let complete = total_chunks > 0 && chunk_index == total_chunks - 1;
        if complete {
            self.download_whitelist.remove(&file_id);
        }
        ChunkAction::Append { name, complete }
    }
}

} // verus!
