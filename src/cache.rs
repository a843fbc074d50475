use std::sync::Arc;
use vstd::prelude::*;
use crate::codec::{webp_decodes, webp_pixels};
use crate::raster::{Raster, RasterView};

verus! {

#[verifier::external_type_specification]
#[verifier::external_body]
#[verifier::reject_recursive_types(K)]
#[verifier::reject_recursive_types(V)]
#[verifier::reject_recursive_types(S)]
pub struct ExDashMap<K, V, S>(dashmap::DashMap<K, V, S>);

/// A decoded component together with, as ghost state, the identifier it
/// was decoded for and the file it was decoded from: its pixels are always
/// the decoding of that file.
pub struct Decoded {
    img: Arc<Raster>,
    id: Ghost<Seq<char>>,
    file: Ghost<Seq<u8>>,
}

impl Decoded {
    #[verifier::type_invariant]
    spec fn decoded_from_file(&self) -> bool {
        self.img.wf() && webp_decodes(self.file@) && self.img@ == webp_pixels(self.file@)
    }

    pub closed spec fn id(&self) -> Seq<char> {
        self.id@
    }

    pub closed spec fn file(&self) -> Seq<u8> {
        self.file@
    }

    pub closed spec fn image(&self) -> Arc<Raster> {
        self.img
    }

    /// Pairs a raster with the file it was decoded from and the component
    /// it stands for.
    pub(crate) fn new(img: Arc<Raster>, id: Ghost<Seq<char>>, file: Ghost<Seq<u8>>) -> (r: Decoded)
        requires
            img.wf(),
            webp_decodes(file@),
            img@ == webp_pixels(file@),
        ensures
            r.image() == img,
            r.id() == id@,
            r.file() == file@,
    {
        Decoded { img, id, file }
    }

    /// The shared raster.
    pub fn raster(&self) -> (r: Arc<Raster>)
        ensures
            r == self.image(),
            r.wf(),
            webp_decodes(self.file()),
            r@ == webp_pixels(self.file()),
    {
        proof {
            use_type_invariant(self);
        }
        Arc::clone(&self.img)
    }
}

/// Relies on DashMap::new: a map with no entry.
#[verifier::external_body]
fn empty_entries() -> (r: dashmap::DashMap<String, Decoded>) {
    dashmap::DashMap::new()
}

/// Decoded components, keyed by identifier, shared by every worker of a run.
/// Entries are added through shared references from many threads at once,
/// so a worker knows of an entry only what a lookup has just returned: an
/// entry is only ever stored under the identifier it was decoded for.
pub struct DecodeCache {
    entries: dashmap::DashMap<String, Decoded>,
}

impl DecodeCache {
    /// A cache that holds nothing yet.
    pub fn new() -> (r: DecodeCache) {
        DecodeCache { entries: empty_entries() }
    }

    /// Relies on DashMap::get: the entry stored under `id`, if any; as
    /// `remember` stores an entry only under its own identifier, what comes
    /// back was decoded for `id`.
    #[verifier::external_body]
    pub(crate) fn lookup(&self, id: &str) -> (r: Option<Decoded>)
        ensures
            r matches Some(entry) ==> entry.id() == id@,
    {
        self.entries.get(id).map(|entry| {
            let found = entry.value();
            Decoded { img: Arc::clone(&found.img), id: found.id, file: found.file }
        })
    }

    /// Relies on DashMap::insert: stores `entry` under `id`, replacing what
    /// another worker may have stored there meanwhile.
    #[verifier::external_body]
    pub(crate) fn remember(&self, id: String, entry: &Decoded)
        requires
            entry.id() == id@,
    {
        self.entries.insert(id, Decoded { img: Arc::clone(&entry.img), id: entry.id, file: entry.file });
    }
}

} // verus!
