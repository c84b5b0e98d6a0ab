//! The web asset pipeline: files are served over HTTP, each may carry
//! precompressed variants, and an `index.html` is served at its directory.
use crate::error::PipelineError;
use crate::filter::{accepts, Filter, FilterListType};
use crate::generate::{const_declaration, holds_nul, is_identifier_text, quote_str, web_asset_record};
use crate::path::{extension_of, normalize_path, relative_path_of, relative_segments};
use crate::pipeline::{
    compression_suffix, found_paths, is_compressed_variant, sibling_path, visit_spec, web_items, web_output,
    Compression, FoundFile, Visit,
};
use vstd::prelude::*;

verus! {

/// A pipeline that embeds the files under a directory as web assets.
pub struct WebAssets {
    ident: String,
    prefix: String,
    path: String,
    filters: Vec<Filter>,
    filter_list_type: FilterListType,
    brotli: bool,
    gzip: bool,
}

impl WebAssets {
    /// The name of the generated constant.
    pub closed spec fn spec_ident(&self) -> Seq<char> {
        self.ident@
    }

    /// The prefix of every URI.
    pub closed spec fn spec_prefix(&self) -> Seq<char> {
        self.prefix@
    }

    /// The filters, in the order they were added.
    pub closed spec fn spec_filters(&self) -> Seq<Filter> {
        self.filters@
    }

    /// The policy for paths that no filter matches.
    pub closed spec fn spec_policy(&self) -> FilterListType {
        self.filter_list_type
    }

    /// The asset root.
    pub closed spec fn spec_root(&self) -> Seq<char> {
        self.path@
    }

    /// Whether gzip variants are embedded.
    pub closed spec fn spec_gzip(&self) -> bool {
        self.gzip
    }

    /// Whether brotli variants are embedded.
    pub closed spec fn spec_brotli(&self) -> bool {
        self.brotli
    }

    /// A pipeline named `identifier` over the directory `path`: no filters,
    /// a blacklist, the prefix `/`, and both compressed variants embedded.
    pub fn new(identifier: &str, path: &str) -> (r: Self)
        ensures
            r.spec_ident() == identifier@,
            r.spec_root() == path@,
            r.spec_prefix() == seq!['/'],
            r.spec_filters().len() == 0,
            r.spec_policy() == FilterListType::Blacklist,
            r.spec_gzip(),
            r.spec_brotli(),
    {
        let prefix = String::from_str("/");
        proof {
            reveal_strlit("/");
            assert(prefix@ =~= seq!['/']);
        }
        WebAssets {
            ident: String::from_str(identifier),
            prefix,
            path: String::from_str(path),
            filters: Vec::new(),
            filter_list_type: FilterListType::Blacklist,
            brotli: true,
            gzip: true,
        }
    }

    /// Adds a filter after those already there. The first filter that
    /// matches a path decides about it.
    pub fn filter(self, filter: Filter) -> (r: Self)
        ensures
            r.spec_filters() == self.spec_filters().push(filter),
            r.spec_ident() == self.spec_ident(),
            r.spec_root() == self.spec_root(),
            r.spec_prefix() == self.spec_prefix(),
            r.spec_policy() == self.spec_policy(),
            r.spec_gzip() == self.spec_gzip(),
            r.spec_brotli() == self.spec_brotli(),
    {
        let mut s = self;
        s.filters.push(filter);
        s
    }

    /// Sets the prefix of every URI.
    pub fn prefix(self, prefix: &str) -> (r: Self)
        ensures
            r.spec_prefix() == prefix@,
            r.spec_filters() == self.spec_filters(),
            r.spec_ident() == self.spec_ident(),
            r.spec_root() == self.spec_root(),
            r.spec_policy() == self.spec_policy(),
            r.spec_gzip() == self.spec_gzip(),
            r.spec_brotli() == self.spec_brotli(),
    {
        let mut s = self;
        s.prefix = String::from_str(prefix);
        s
    }

    /// Sets the asset root.
    pub fn set_path(self, path: &str) -> (r: Self)
        ensures
            r.spec_root() == path@,
            r.spec_prefix() == self.spec_prefix(),
            r.spec_filters() == self.spec_filters(),
            r.spec_ident() == self.spec_ident(),
            r.spec_policy() == self.spec_policy(),
            r.spec_gzip() == self.spec_gzip(),
            r.spec_brotli() == self.spec_brotli(),
    {
        let mut s = self;
        s.path = String::from_str(path);
        s
    }

    /// Accepts the paths that no filter matches.
    pub fn blacklist(self) -> (r: Self)
        ensures
            r.spec_policy() == FilterListType::Blacklist,
            r.spec_root() == self.spec_root(),
            r.spec_prefix() == self.spec_prefix(),
            r.spec_filters() == self.spec_filters(),
            r.spec_ident() == self.spec_ident(),
            r.spec_gzip() == self.spec_gzip(),
            r.spec_brotli() == self.spec_brotli(),
    {
        let mut s = self;
        s.filter_list_type = FilterListType::Blacklist;
        s
    }

    /// Rejects the paths that no filter matches.
    pub fn whitelist(self) -> (r: Self)
        ensures
            r.spec_policy() == FilterListType::Whitelist,
            r.spec_root() == self.spec_root(),
            r.spec_prefix() == self.spec_prefix(),
            r.spec_filters() == self.spec_filters(),
            r.spec_ident() == self.spec_ident(),
            r.spec_gzip() == self.spec_gzip(),
            r.spec_brotli() == self.spec_brotli(),
    {
        let mut s = self;
        s.filter_list_type = FilterListType::Whitelist;
        s
    }

    /// Boxes the finished pipeline.
    pub fn build(self) -> (r: Box<Self>)
        ensures
            *r == self,
    {
        Box::new(self)
    }

    /// Sets whether the brotli variant of each file is embedded too.
    pub fn brotli(self, brotli: bool) -> (r: Self)
        ensures
            r.spec_brotli() == brotli,
            r.spec_gzip() == self.spec_gzip(),
            r.spec_policy() == self.spec_policy(),
            r.spec_root() == self.spec_root(),
            r.spec_prefix() == self.spec_prefix(),
            r.spec_filters() == self.spec_filters(),
            r.spec_ident() == self.spec_ident(),
    {
        let mut s = self;
        s.brotli = brotli;
        s
    }

    /// Sets whether the gzip variant of each file is embedded too.
    pub fn gzip(self, gzip: bool) -> (r: Self)
        ensures
            r.spec_gzip() == gzip,
            r.spec_brotli() == self.spec_brotli(),
            r.spec_policy() == self.spec_policy(),
            r.spec_root() == self.spec_root(),
            r.spec_prefix() == self.spec_prefix(),
            r.spec_filters() == self.spec_filters(),
            r.spec_ident() == self.spec_ident(),
    {
        let mut s = self;
        s.gzip = gzip;
        s
    }

    /// The name of the generated constant.
    pub fn identifier(&self) -> (r: &str)
        ensures
            r@ == self.spec_ident(),
    {
        self.ident.as_str()
    }

    /// The asset root.
    pub fn path(&self) -> (r: &str)
        ensures
            r@ == self.spec_root(),
    {
        self.path.as_str()
    }

    /// Whether the walk probes for a compressed variant beside each file.
    pub fn probes(&self, compression: Compression) -> (r: bool)
        ensures
            r == match compression {
                Compression::Gzip => self.spec_gzip(),
                Compression::Brotli => self.spec_brotli(),
            },
    {
        match compression {
            Compression::Gzip => self.gzip,
            Compression::Brotli => self.brotli,
        }
    }

    /// Whether a file is a compressed variant that this pipeline keeps for
    /// the file it belongs to rather than as an asset of its own.
    pub fn skip_compressed(&self, entry: &str) -> (r: bool)
        ensures
            r == is_compressed_variant(self.spec_gzip(), self.spec_brotli(), entry@),
    {
        match extension_of(entry) {
            Some(ext) => {
                let gz = String::from_str("gz");
                let br = String::from_str("br");
                proof {
                    reveal_strlit("gz");
                    reveal_strlit("br");
                    assert(gz@ =~= seq!['g', 'z']);
                    assert(br@ =~= seq!['b', 'r']);
                }
                (self.gzip && ext == gz) || (self.brotli && ext == br)
            },
            None => false,
        }
    }

    /// What the walk does with an entry: see `visit_spec`. A compressed
    /// variant of another file is never taken.
    pub fn visit(&self, entry: &str, is_dir: bool) -> (r: Result<Visit, PipelineError>)
        ensures
            r == visit_spec(
                self.spec_root(),
                self.spec_filters(),
                self.spec_policy(),
                is_compressed_variant(self.spec_gzip(), self.spec_brotli(), entry@),
                entry@,
                is_dir,
            ),
    {
        if is_dir {
            return Ok(Visit::Skip);
        }
        if self.filters.len() == 0 && self.filter_list_type == FilterListType::Whitelist {
            return Ok(Visit::Stop);
        }
        match relative_path_of(entry, self.path.as_str()) {
            None => Err(PipelineError::PathError),
            Some(rel) => if !self.skip_compressed(entry) && accepts(
                &self.filters,
                self.filter_list_type,
                rel.as_str(),
            ) {
                Ok(Visit::Take)
            } else {
                Ok(Visit::Skip)
            },
        }
    }

    /// The declaration for the files taken, in the order they were taken. A
    /// compressed variant is embedded where it is enabled and was found.
    pub fn render(&self, files: &Vec<FoundFile>) -> (r: Result<String, PipelineError>)
        ensures
            match r {
                Ok(text) => web_output(
                    self.spec_ident(),
                    self.spec_root(),
                    self.spec_prefix(),
                    self.spec_gzip(),
                    self.spec_brotli(),
                    files@,
                ) == Ok::<Seq<char>, PipelineError>(text@),
                Err(e) => web_output(
                    self.spec_ident(),
                    self.spec_root(),
                    self.spec_prefix(),
                    self.spec_gzip(),
                    self.spec_brotli(),
                    files@,
                ) == Err::<Seq<char>, PipelineError>(e),
            },
    {
        let ghost fv = found_paths(files@);
        let mut records: Vec<String> = Vec::new();
        let mut i: usize = 0;
        while i < files.len()
            invariant
                i <= files.len(),
                fv == found_paths(files@),
                forall|k: int|
                    0 <= k < i ==> #[trigger] crate::pipeline::file_fits(
                        fv[k],
                        self.path@,
                        self.prefix@,
                        true,
                    ),
                crate::path::views(records@) == web_items(
                    files@,
                    self.path@,
                    self.prefix@,
                    self.gzip,
                    self.brotli,
                ).take(i as int),
            decreases files.len() - i,
        {
            let file = &files[i];
            let uri = match normalize_path(file.path.as_str(), self.path.as_str(), self.prefix.as_str(), true) {
                Ok(u) => u,
                Err(e) => {
                    proof {
                        assert(fv[i as int] == files@[i as int].path@);
                        assert(!crate::pipeline::file_fits(fv[i as int], self.path@, self.prefix@, true));
                    }
                    return Err(e);
                },
            };
            if holds_nul(file.path.as_str()) || holds_nul(uri.as_str()) {
                proof {
                    assert(fv[i as int] == files@[i as int].path@);
                    assert(!crate::pipeline::file_fits(fv[i as int], self.path@, self.prefix@, true));
                }
                return Err(PipelineError::PathError);
            }
            proof {
                assert(fv[i as int] == files@[i as int].path@);
                assert(crate::pipeline::file_fits(fv[i as int], self.path@, self.prefix@, true));
                crate::pipeline::lemma_variant_keeps_no_nul(file.path@, Compression::Gzip);
                crate::pipeline::lemma_variant_keeps_no_nul(file.path@, Compression::Brotli);
            }
            let uri_lit = quote_str(uri.as_str());
            let path_lit = quote_str(file.path.as_str());
            let gz_lit = if self.gzip && file.has_gz {
                let p = sibling_path(file.path.as_str(), Compression::Gzip);
                Some(quote_str(p.as_str()))
            } else {
                None
            };
            let br_lit = if self.brotli && file.has_br {
                let p = sibling_path(file.path.as_str(), Compression::Brotli);
                Some(quote_str(p.as_str()))
            } else {
                None
            };
            let gz_ref = match &gz_lit {
                Some(s) => Some(s.as_str()),
                None => None,
            };
            let br_ref = match &br_lit {
                Some(s) => Some(s.as_str()),
                None => None,
            };
            let record = web_asset_record(uri_lit.as_str(), path_lit.as_str(), gz_ref, br_ref);
            let ghost before = crate::path::views(records@);
            records.push(record);
            proof {
                assert(fv[i as int] == files@[i as int].path@);
                assert(crate::path::views(records@) =~= before.push(record@));
                assert(crate::path::views(records@) =~= web_items(
                    files@,
                    self.path@,
                    self.prefix@,
                    self.gzip,
                    self.brotli,
                ).take(i + 1));
            }
            i += 1;
        }
        proof {
            assert(web_items(files@, self.path@, self.prefix@, self.gzip, self.brotli).take(
                files.len() as int,
            ) =~= web_items(files@, self.path@, self.prefix@, self.gzip, self.brotli));
        }
        if !is_identifier_text(self.ident.as_str()) {
            return Err(PipelineError::InvalidIdentifier);
        }
        let mut text = const_declaration(self.ident.as_str(), "WebAsset", &records);
        let ghost body = text@;
        text.append("\n");
        proof {
            reveal_strlit("\n");
            assert(text@ =~= body + seq!['\n']);
            assert(crate::pipeline::all_fit(fv, self.path@, self.prefix@, true));
        }
        Ok(text)
    }
}

/// A compressed variant stored beside a file, named as the file with `.gz`
/// (or `.br`) appended, is never taken as an asset of its own while that
/// variant is embedded: it is data of the file it belongs to.
pub proof fn lemma_variant_not_taken(w: WebAssets, file: Seq<char>, c: Compression)
    requires
        file.len() > 0,
        file.last() != '/',
        match c {
            Compression::Gzip => w.spec_gzip(),
            Compression::Brotli => w.spec_brotli(),
        },
    ensures
        visit_spec(
            w.spec_root(),
            w.spec_filters(),
            w.spec_policy(),
            is_compressed_variant(w.spec_gzip(), w.spec_brotli(), file + compression_suffix(c)),
            file + compression_suffix(c),
            false,
        ) != Ok::<Visit, PipelineError>(Visit::Take),
{
    let ext = match c {
        Compression::Gzip => seq!['g', 'z'],
        Compression::Brotli => seq!['b', 'r'],
    };
    assert(compression_suffix(c) =~= seq!['.'] + ext);
    assert(file + compression_suffix(c) =~= file + seq!['.'] + ext);
    crate::path::lemma_extension_after_suffix(file, ext);
}

} // verus!
