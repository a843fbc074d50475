use std::sync::Arc;
use vstd::prelude::*;
use crate::cache::{DecodeCache, Decoded};
use crate::codec::{decode_webp, encode_png, png_file, webp_decodes, webp_pixels, PNG_MAX_DIMENSION};
use crate::compose::{all_wf, combine, composite, views, CombineError};
use crate::manifest::{split_tokens, string_views, tokens};
use crate::raster::{Raster, RasterView};

verus! {

/// The extension of a component file.
pub open spec fn component_ext() -> Seq<char> {
    seq!['.', 'w', 'e', 'b', 'p']
}

/// The extension of an output file.
pub open spec fn output_ext() -> Seq<char> {
    seq!['.', 'P', 'n', 'g']
}

/// The file that holds the component `id`.
pub fn component_file_name(id: &str) -> (r: String)
    ensures
        r@ == id@ + component_ext(),
{
    let mut r = String::from_str(id);
    r.append(".webp");
    proof {
        reveal_strlit(".webp");
    }
    r
}

/// The file that the composite for `output` is written to.
pub fn output_file_name(output: &str) -> (r: String)
    ensures
        r@ == output@ + output_ext(),
{
    let mut r = String::from_str(output);
    r.append(".Png");
    proof {
        reveal_strlit(".Png");
    }
    r
}

proof fn lemma_views_prefix(all: Seq<Arc<Raster>>, prefix: Seq<Arc<Raster>>)
    requires
        prefix.len() <= all.len(),
        all.subrange(0, prefix.len() as int) == prefix,
    ensures
        views(all).subrange(0, prefix.len() as int) == views(prefix),
{
    assert(views(all).subrange(0, prefix.len() as int) =~= views(prefix));
}

/// Why a manifest line gave no output.
#[derive(Debug)]
pub enum LineFailure {
    /// The line holds no token at all.
    Blank,
    /// The line names no component.
    NoComponents,
    /// The file of this component was not found.
    Missing(String),
    /// The file of this component is not a valid image.
    Undecodable(String),
    /// The composite could not be encoded.
    Unencodable,
}

/// What a line job asks for next.
#[derive(Debug)]
pub enum Step {
    /// The component file of this name has to be found and read, and handed
    /// to `supply`.
    Fetch(String),
    /// These bytes are to be written to the output file of this name.
    Write(String, Vec<u8>),
    /// The line fails.
    Fail(LineFailure),
}

/// One manifest line in progress: its output name, its components in
/// stacking order, bottom first, the decoded layers resolved so far and, as
/// ghost state, the file each of them was decoded from.
pub struct LineJob {
    pub output: String,
    pub components: Vec<String>,
    pub layers: Vec<Arc<Raster>>,
    pub sources: Ghost<Seq<Seq<u8>>>,
}

/// The composite that `advance` encodes fits the PNG format.
pub open spec fn encodable(img: RasterView) -> bool {
    0 < img.width <= PNG_MAX_DIMENSION && 0 < img.height <= PNG_MAX_DIMENSION
}

impl LineJob {
    pub open spec fn layers(&self) -> Seq<RasterView> {
        views(self.layers@)
    }

    pub open spec fn names(&self) -> Seq<Seq<char>> {
        string_views(self.components@)
    }

    /// Each resolved layer is the decoding of the file it was read from.
    pub open spec fn wf(&self) -> bool {
        &&& self.layers@.len() <= self.components@.len()
        &&& all_wf(self.layers@)
        &&& self.sources@.len() == self.layers@.len()
        &&& forall|k: int|
            0 <= k < self.layers@.len() ==> webp_decodes(#[trigger] self.sources@[k])
                && self.layers@[k]@ == webp_pixels(self.sources@[k])
    }

    /// The number of components resolved so far.
    pub open spec fn resolved(&self) -> nat {
        self.layers@.len()
    }

    /// Starts the job for a manifest line: its first token names the output,
    /// the others are the components.
    pub fn start(line: &str) -> (r: Result<LineJob, LineFailure>)
        ensures
            tokens(line@).len() == 0 <==> r matches Err(LineFailure::Blank),
            tokens(line@).len() > 0 ==> (r matches Ok(job) && job.wf() && job.resolved() == 0
                && job.output@ == tokens(line@)[0] && job.names() == tokens(line@).drop_first()),
    {
        let mut parts = split_tokens(line);
        if parts.len() == 0 {
            return Err(LineFailure::Blank);
        }
        let ghost all = parts@;
        let output = parts.remove(0);
        proof {
            assert(string_views(parts@) =~= string_views(all).drop_first());
        }
        Ok(LineJob { output, components: parts, layers: Vec::new(), sources: Ghost(Seq::empty()) })
    }

    /// Resolves from the cache as many of the next components as it holds,
    /// then says what has to happen: a component file to fetch, the encoded
    /// composite to write, or the failure of the line.
    pub fn advance(&mut self, cache: &DecodeCache) -> (r: Step)
        requires
            old(self).wf(),
        ensures
            final(self).wf(),
            final(self).output == old(self).output,
            final(self).names() == old(self).names(),
            old(self).resolved() <= final(self).resolved(),
            final(self).layers().subrange(0, old(self).resolved() as int) == old(self).layers(),
            final(self).sources@.subrange(0, old(self).resolved() as int) == old(self).sources@,
            r matches Step::Fetch(file) ==> (final(self).resolved() < final(self).names().len()
                && file@ == final(self).names()[final(self).resolved() as int] + component_ext()),
            r matches Step::Write(file, bytes) ==> (final(self).resolved() == final(self).names().len()
                && final(self).names().len() > 0 && file@ == final(self).output@ + output_ext()
                && bytes@ == png_file(composite(final(self).layers()))),
            r matches Step::Fail(f) ==> (
                (f is NoComponents && final(self).names().len() == 0)
                || (f is Unencodable && final(self).resolved() == final(self).names().len() > 0
                    && !encodable(composite(final(self).layers())))),
            final(self).names().len() == 0 ==> r matches Step::Fail(LineFailure::NoComponents),
            final(self).resolved() == final(self).names().len() > 0 && encodable(
                composite(final(self).layers()),
            ) ==> r is Write,
    {
        let ghost start = self.layers@;
        let ghost start_sources = self.sources@;
        while self.layers.len() < self.components.len()
            invariant
                self.wf(),
                self.output == old(self).output,
                self.components == old(self).components,
                start == old(self).layers@,
                start_sources == old(self).sources@,
                start.len() <= self.layers@.len(),
                self.layers@.subrange(0, start.len() as int) == start,
                self.sources@.subrange(0, start.len() as int) == start_sources,
            decreases self.components@.len() - self.layers@.len(),
        {
            let k = self.layers.len();
            match cache.lookup(self.components[k].as_str()) {
                Some(entry) => {
                    let img = entry.raster();
                    let ghost before = self.layers@;
                    let ghost before_sources = self.sources@;
                    self.layers.push(img);
                    self.sources = Ghost(self.sources@.push(entry.file()));
                    proof {
                        assert(self.layers@.subrange(0, start.len() as int) =~= before.subrange(
                            0,
                            start.len() as int,
                        ));
                        assert(self.sources@.subrange(0, start.len() as int) =~= before_sources.subrange(
                            0,
                            start.len() as int,
                        ));
                        assert forall|j: int| 0 <= j < self.layers@.len() implies webp_decodes(
                            #[trigger] self.sources@[j],
                        ) && self.layers@[j]@ == webp_pixels(self.sources@[j]) by {
                            if j < before.len() {
                                assert(self.sources@[j] == before_sources[j]);
                            }
                        }
                    }
                },
                None => {
                    proof {
                        lemma_views_prefix(self.layers@, start);
                    }
                    return Step::Fetch(component_file_name(self.components[k].as_str()));
                },
            }
        }
        proof {
            lemma_views_prefix(self.layers@, start);
        }
        match combine(&self.layers) {
            Err(CombineError::EmptyInput) => Step::Fail(LineFailure::NoComponents),
            Ok(img) => match encode_png(&img) {
                Ok(bytes) => Step::Write(output_file_name(self.output.as_str()), bytes),
                Err(_) => Step::Fail(LineFailure::Unencodable),
            },
        }
    }

    /// Takes the file of the next component, as read by the caller, or
    /// `None` where it was not found. A file that decodes becomes the next
    /// layer and is remembered in the cache; otherwise the line fails.
    pub fn supply(&mut self, cache: &DecodeCache, file: Option<&[u8]>) -> (r: Option<LineFailure>)
        requires
            old(self).wf(),
            old(self).resolved() < old(self).names().len(),
        ensures
            final(self).wf(),
            final(self).output == old(self).output,
            final(self).names() == old(self).names(),
            file is None ==> (r matches Some(LineFailure::Missing(id))
                && id@ == old(self).names()[old(self).resolved() as int]),
            file matches Some(bytes) ==> ((r is None) == webp_decodes(bytes@)),
            file matches Some(bytes) && !webp_decodes(bytes@) ==> (r matches Some(
                LineFailure::Undecodable(id),
            ) && id@ == old(self).names()[old(self).resolved() as int]),
            r is Some ==> final(self).layers() == old(self).layers() && final(self).sources@ == old(
                self,
            ).sources@,
            r is None ==> (file matches Some(bytes) && final(self).layers() == old(self).layers().push(
                webp_pixels(bytes@),
            ) && final(self).sources@ == old(self).sources@.push(bytes@)),
    {
        let k = self.layers.len();
        let id = self.components[k].clone();
        let bytes = match file {
            None => return Some(LineFailure::Missing(id)),
            Some(bytes) => bytes,
        };
        match decode_webp(bytes) {
            Err(_) => Some(LineFailure::Undecodable(id)),
            Ok(img) => {
                let shared = Arc::new(img);
                let entry = Decoded::new(Arc::clone(&shared), Ghost(id@), Ghost(bytes@));
                cache.remember(id, &entry);
                let ghost before = self.layers@;
                let ghost before_sources = self.sources@;
                self.layers.push(shared);
                self.sources = Ghost(self.sources@.push(bytes@));
                proof {
                    assert(views(self.layers@) =~= views(before).push(webp_pixels(bytes@)));
                    assert forall|j: int| 0 <= j < self.layers@.len() implies webp_decodes(
                        #[trigger] self.sources@[j],
                    ) && self.layers@[j]@ == webp_pixels(self.sources@[j]) by {
                        if j < before.len() {
                            assert(self.sources@[j] == before_sources[j]);
                        }
                    }
                }
                None
            },
        }
    }
}

/// Every line sees the same pixels for a component read from the same file:
/// a layer, whether decoded by its own job or taken from the cache, is the
/// decoding of the file it came from.
pub proof fn lemma_same_file_same_layer(a: LineJob, b: LineJob, i: int, j: int)
    requires
        a.wf(),
        b.wf(),
        0 <= i < a.resolved(),
        0 <= j < b.resolved(),
        a.sources@[i] == b.sources@[j],
    ensures
        a.layers()[i] == b.layers()[j],
{
}

} // verus!
