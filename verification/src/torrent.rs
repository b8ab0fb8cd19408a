//! Torrents: the details that the user gave when adding one, kept by torrent
//! id, and the name under which a torrent is listed.

use vstd::prelude::*;
use std::collections::HashMap;
use crate::text::{chars_of, hex_lower, hex_lower_chars};
use crate::trusted::string_of;

verus! {

broadcast use vstd::std_specs::hash::group_hash_axioms;

/// What the user said of a torrent when adding it.
#[derive(Debug)]
pub struct TorrentMeta {
    pub title: String,
    pub poster_url: Option<String>,
}

impl Default for TorrentMeta {
    fn default() -> (m: TorrentMeta)
        ensures
            m.title@ == Seq::<char>::empty(),
            m.poster_url is None,
    {
        TorrentMeta { title: String::new(), poster_url: None }
    }
}

/// A copy of a torrent's details.
pub fn copy_meta(m: &TorrentMeta) -> (c: TorrentMeta)
    ensures
        c == *m,
{
    TorrentMeta {
        title: m.title.clone(),
        poster_url: match &m.poster_url {
            Some(p) => Some(p.clone()),
            None => None,
        },
    }
}

/// The details of the torrents, by torrent id.
pub struct MetaStore {
    map: HashMap<usize, TorrentMeta>,
}

impl MetaStore {
    /// The details by torrent id.
    pub closed spec fn metas(&self) -> Map<usize, TorrentMeta> {
        self.map@
    }

    /// No details.
    pub fn new() -> (r: MetaStore)
        ensures
            r.metas() == Map::<usize, TorrentMeta>::empty(),
    {
        MetaStore { map: HashMap::new() }
    }

    /// Records the details of a torrent, replacing earlier ones.
    pub fn record(&mut self, id: usize, meta: TorrentMeta)
        ensures
            final(self).metas() == old(self).metas().insert(id, meta),
    {
        self.map.insert(id, meta);
    }

    /// Forgets the details of a torrent.
    pub fn forget(&mut self, id: usize)
        ensures
            final(self).metas() == old(self).metas().remove(id),
    {
        self.map.remove(&id);
    }

    /// A copy of a torrent's details; empty ones (`TorrentMeta::default`)
    /// for a torrent without.
    pub fn meta_for(&self, id: usize) -> (m: TorrentMeta)
        ensures
            self.metas().contains_key(id) ==> m == self.metas()[id],
            !self.metas().contains_key(id) ==> m.title@ == Seq::<char>::empty() && m.poster_url is None,
    {
        match self.map.get(&id) {
            Some(m) => copy_meta(m),
            None => TorrentMeta::default(),
        }
    }
}

/// What the torrent session answered to a request to add a torrent.
#[derive(Debug)]
pub enum AddOutcome {
    /// The torrent was added under this id.
    Added(usize),
    /// The session already had the torrent, under this id.
    AlreadyManaged(usize),
    /// Any other answer.
    Other,
}

/// Records the details of a torrent that the session added or already had,
/// and gives its id; any other answer gives `None` and records nothing.
pub fn register_added(store: &mut MetaStore, outcome: AddOutcome, meta: TorrentMeta) -> (r: Option<usize>)
    ensures
        match outcome {
            AddOutcome::Added(id) | AddOutcome::AlreadyManaged(id) => r == Some(id)
                && final(store).metas() == old(store).metas().insert(id, meta),
            AddOutcome::Other => r is None && final(store).metas() == old(store).metas(),
        },
{
    let id = match outcome {
        AddOutcome::Added(id) => id,
        AddOutcome::AlreadyManaged(id) => id,
        AddOutcome::Other => return None,
    };
    store.record(id, meta);
    Some(id)
}

/// The name a torrent is listed under: its own name, else the title the user
/// gave, else its info hash in lowercase hexadecimal.
pub open spec fn display_name_of(name: Seq<char>, title: Seq<char>, info_hash: Seq<u8>) -> Seq<char> {
    if name.len() > 0 {
        name
    } else if title.len() > 0 {
        title
    } else {
        hex_lower(info_hash)
    }
}

/// The name a torrent is listed under.
pub fn display_name(name: &str, title: &str, info_hash: &[u8]) -> (r: String)
    ensures
        r@ == display_name_of(name@, title@, info_hash@),
{
    let n = chars_of(name);
    if n.len() > 0 {
        return string_of(n.as_slice());
    }
    let t = chars_of(title);
    if t.len() > 0 {
        return string_of(t.as_slice());
    }
    string_of(hex_lower_chars(info_hash).as_slice())
}

/// Law: a torrent with an info hash is never listed under an empty name.
pub proof fn law_display_name_nonempty(name: Seq<char>, title: Seq<char>, info_hash: Seq<u8>)
    requires
        info_hash.len() > 0,
    ensures
        display_name_of(name, title, info_hash).len() > 0,
{
    lemma_hex_len(info_hash);
}

proof fn lemma_hex_len(b: Seq<u8>)
    ensures
        hex_lower(b).len() == 2 * b.len(),
    decreases b.len(),
{
    if b.len() > 0 {
        lemma_hex_len(b.drop_last());
    }
}

} // verus!
