//! The asset pipelines: which files of a walked tree they take, and the
//! declaration they generate for the files taken.
use crate::error::PipelineError;
use crate::filter::{accepts, chain_verdict, lemma_empty_chain, Filter, FilterListType};
use crate::generate::{
    asset_record, asset_text, const_declaration, const_text, has_nul, holds_nul, is_identifier,
    is_identifier_text, quote_str, string_literal, web_asset_text,
};
use crate::path::{
    normalize_path, normalized, path_extension, relative_path, relative_path_of, relative_segments,
};
use vstd::prelude::*;

verus! {

/// What the walk does with one entry of the tree.
#[derive(Debug, Clone, Copy, PartialEq, Eq, Structural)]
pub enum Visit {
    /// Go on without taking the entry.
    Skip,
    /// Take the entry as an asset.
    Take,
    /// Stop the walk: no later entry can be taken.
    Stop,
}

/// A precompressed variant of a file, stored beside it.
#[derive(Debug, Clone, Copy, PartialEq, Eq, Structural)]
pub enum Compression {
    Gzip,
    Brotli,
}

/// A file that a web pipeline took, with what the probe found beside it.
pub struct FoundFile {
    pub path: String,
    pub has_gz: bool,
    pub has_br: bool,
}

/// The suffix of a compressed variant's file name.
pub open spec fn compression_suffix(c: Compression) -> Seq<char> {
    match c {
        Compression::Gzip => seq!['.', 'g', 'z'],
        Compression::Brotli => seq!['.', 'b', 'r'],
    }
}

/// The path of a file's compressed variant: the file's path with `.gz` or
/// `.br` appended, in the same directory.
pub fn sibling_path(path: &str, compression: Compression) -> (r: String)
    ensures
        r@ == path@ + compression_suffix(compression),
{
    let mut out = String::from_str(path);
    match compression {
        Compression::Gzip => {
            out.append(".gz");
            proof {
                reveal_strlit(".gz");
            }
        },
        Compression::Brotli => {
            out.append(".br");
            proof {
                reveal_strlit(".br");
            }
        },
    }
    proof {
        assert(out@ =~= path@ + compression_suffix(compression));
    }
    out
}

/// What a pipeline does with an entry of the walk. Directories are never
/// taken. A whitelist without filters can take nothing, so the walk stops at
/// the first file. A file is taken where the chain accepts its path relative
/// to the root, and where `compressed` does not set it apart.
pub open spec fn visit_spec(
    root: Seq<char>,
    filters: Seq<Filter>,
    policy: FilterListType,
    compressed: bool,
    entry: Seq<char>,
    is_dir: bool,
) -> Result<Visit, PipelineError> {
    if is_dir {
        Ok(Visit::Skip)
    } else if filters.len() == 0 && policy == FilterListType::Whitelist {
        Ok(Visit::Stop)
    } else {
        match relative_path(entry, root) {
            None => Err(PipelineError::PathError),
            Some(rel) => if !compressed && chain_verdict(filters, policy, rel) {
                Ok(Visit::Take)
            } else {
                Ok(Visit::Skip)
            },
        }
    }
}

/// Whether a file is itself a compressed variant that a web pipeline keeps
/// for the file it belongs to: its extension is `gz` with gzip variants on,
/// or `br` with brotli variants on.
pub open spec fn is_compressed_variant(gzip: bool, brotli: bool, entry: Seq<char>) -> bool {
    (gzip && path_extension(entry) == Some(seq!['g', 'z'])) || (brotli && path_extension(entry)
        == Some(seq!['b', 'r']))
}

/// Whether a file can become a record: it lies under the root, and neither
/// its path nor its URI holds a NUL character.
pub open spec fn file_fits(file: Seq<char>, root: Seq<char>, prefix: Seq<char>, web: bool) -> bool {
    &&& relative_segments(file, root).is_some()
    &&& !has_nul(file)
    &&& !has_nul(normalized(file, root, prefix, web).unwrap())
}

/// Whether every file can become a record.
pub open spec fn all_fit(files: Seq<Seq<char>>, root: Seq<char>, prefix: Seq<char>, web: bool) -> bool {
    forall|i: int| 0 <= i < files.len() ==> #[trigger] file_fits(files[i], root, prefix, web)
}

/// A file's compressed variant holds a NUL character only where the file's
/// path does.
pub proof fn lemma_variant_keeps_no_nul(path: Seq<char>, c: Compression)
    requires
        !has_nul(path),
    ensures
        !has_nul(path + compression_suffix(c)),
{
    let full = path + compression_suffix(c);
    assert forall|i: int| 0 <= i < full.len() implies full[i] != '\0' by {
        if i >= path.len() {
            assert(full[i] == compression_suffix(c)[i - path.len()]);
        } else {
            assert(full[i] == path[i]);
        }
    }
}

/// The records of a plain pipeline for the files taken, in order.
pub open spec fn plain_items(files: Seq<Seq<char>>, root: Seq<char>, prefix: Seq<char>) -> Seq<
    Seq<char>,
> {
    Seq::new(
        files.len(),
        |i: int|
            asset_text(
                string_literal(normalized(files[i], root, prefix, false).unwrap()),
                string_literal(files[i]),
            ),
    )
}

/// The declaration a plain pipeline generates: a run with no file is an
/// error, as are a file that cannot become a record and a name that is no
/// identifier.
pub open spec fn plain_output(
    ident: Seq<char>,
    root: Seq<char>,
    prefix: Seq<char>,
    files: Seq<Seq<char>>,
) -> Result<Seq<char>, PipelineError> {
    if files.len() == 0 {
        Err(PipelineError::EmptyResult)
    } else if !all_fit(files, root, prefix, false) {
        Err(PipelineError::PathError)
    } else if !is_identifier(ident) {
        Err(PipelineError::InvalidIdentifier)
    } else {
        Ok(const_text(ident, "Asset"@, plain_items(files, root, prefix)))
    }
}

/// The literal of a compressed variant, where the pipeline embeds it.
pub open spec fn variant_literal(enabled: bool, found: bool, path: Seq<char>, c: Compression) -> Option<
    Seq<char>,
> {
    if enabled && found {
        Some(string_literal(path + compression_suffix(c)))
    } else {
        None
    }
}

/// The paths of found files.
pub open spec fn found_paths(files: Seq<FoundFile>) -> Seq<Seq<char>> {
    files.map_values(|f: FoundFile| f.path@)
}

/// The records of a web pipeline for the files taken, in order.
pub open spec fn web_items(
    files: Seq<FoundFile>,
    root: Seq<char>,
    prefix: Seq<char>,
    gzip: bool,
    brotli: bool,
) -> Seq<Seq<char>> {
    Seq::new(
        files.len(),
        |i: int|
            web_asset_text(
                string_literal(normalized(files[i].path@, root, prefix, true).unwrap()),
                string_literal(files[i].path@),
                variant_literal(gzip, files[i].has_gz, files[i].path@, Compression::Gzip),
                variant_literal(brotli, files[i].has_br, files[i].path@, Compression::Brotli),
            ),
    )
}

/// The declaration a web pipeline generates, followed by a line break. A run
/// with no file gives an empty array.
pub open spec fn web_output(
    ident: Seq<char>,
    root: Seq<char>,
    prefix: Seq<char>,
    gzip: bool,
    brotli: bool,
    files: Seq<FoundFile>,
) -> Result<Seq<char>, PipelineError> {
    if !all_fit(found_paths(files), root, prefix, true) {
        Err(PipelineError::PathError)
    } else if !is_identifier(ident) {
        Err(PipelineError::InvalidIdentifier)
    } else {
        Ok(const_text(ident, "WebAsset"@, web_items(files, root, prefix, gzip, brotli)) + seq!['\n'])
    }
}

/// The paths of found files, in order.
pub fn found_file_paths(files: &Vec<FoundFile>) -> (r: Vec<String>)
    ensures
        crate::path::views(r@) == found_paths(files@),
{
    let mut paths: Vec<String> = Vec::new();
    let mut i: usize = 0;
    while i < files.len()
        invariant
            i <= files.len(),
            crate::path::views(paths@) == found_paths(files@).take(i as int),
        decreases files.len() - i,
    {
        let p = files[i].path.clone();
        let ghost before = crate::path::views(paths@);
        paths.push(p);
        proof {
            assert(crate::path::views(paths@) =~= before.push(files@[i as int].path@));
            assert(crate::path::views(paths@) =~= found_paths(files@).take(i + 1));
        }
        i += 1;
    }
    proof {
        assert(found_paths(files@).take(files.len() as int) =~= found_paths(files@));
    }
    paths
}

/// A pipeline that embeds the files under a directory as plain assets.
pub struct Assets {
    ident: String,
    prefix: String,
    filters: Vec<Filter>,
    filter_list_type: FilterListType,
    path: String,
}

impl Assets {
    /// The name of the generated constant.
    pub closed spec fn spec_ident(&self) -> Seq<char> {
        self.ident@
    }

    /// The prefix of every URI.
    pub closed spec fn spec_prefix(&self) -> Seq<char> {
        self.prefix@
    }

    /// The filters, in the order they were added.
    pub closed spec fn spec_filters(&self) -> Seq<Filter> {
        self.filters@
    }

    /// The policy for paths that no filter matches.
    pub closed spec fn spec_policy(&self) -> FilterListType {
        self.filter_list_type
    }

    /// The asset root.
    pub closed spec fn spec_root(&self) -> Seq<char> {
        self.path@
    }

    /// A pipeline named `identifier` over the directory `path`: no filters,
    /// a blacklist, and the prefix `/`.
    pub fn new(identifier: &str, path: &str) -> (r: Self)
        ensures
            r.spec_ident() == identifier@,
            r.spec_root() == path@,
            r.spec_prefix() == seq!['/'],
            r.spec_filters().len() == 0,
            r.spec_policy() == FilterListType::Blacklist,
    {
        let prefix = String::from_str("/");
        proof {
            reveal_strlit("/");
            assert(prefix@ =~= seq!['/']);
        }
        Assets {
            ident: String::from_str(identifier),
            prefix,
            filters: Vec::new(),
            filter_list_type: FilterListType::Blacklist,
            path: String::from_str(path),
        }
    }

    /// Adds a filter after those already there. The first filter that
    /// matches a path decides about it.
    pub fn filter(self, filter: Filter) -> (r: Self)
        ensures
            r.spec_filters() == self.spec_filters().push(filter),
            r.spec_ident() == self.spec_ident(),
            r.spec_root() == self.spec_root(),
            r.spec_prefix() == self.spec_prefix(),
            r.spec_policy() == self.spec_policy(),
    {
        let mut s = self;
        s.filters.push(filter);
        s
    }

    /// Sets the prefix of every URI.
    pub fn prefix(self, prefix: &str) -> (r: Self)
        ensures
            r.spec_prefix() == prefix@,
            r.spec_filters() == self.spec_filters(),
            r.spec_ident() == self.spec_ident(),
            r.spec_root() == self.spec_root(),
            r.spec_policy() == self.spec_policy(),
    {
        let mut s = self;
        s.prefix = String::from_str(prefix);
        s
    }

    /// Sets the asset root.
    pub fn set_path(self, path: &str) -> (r: Self)
        ensures
            r.spec_root() == path@,
            r.spec_prefix() == self.spec_prefix(),
            r.spec_filters() == self.spec_filters(),
            r.spec_ident() == self.spec_ident(),
            r.spec_policy() == self.spec_policy(),
    {
        let mut s = self;
        s.path = String::from_str(path);
        s
    }

    /// Accepts the paths that no filter matches.
    pub fn blacklist(self) -> (r: Self)
        ensures
            r.spec_policy() == FilterListType::Blacklist,
            r.spec_root() == self.spec_root(),
            r.spec_prefix() == self.spec_prefix(),
            r.spec_filters() == self.spec_filters(),
            r.spec_ident() == self.spec_ident(),
    {
        let mut s = self;
        s.filter_list_type = FilterListType::Blacklist;
        s
    }

    /// Rejects the paths that no filter matches.
    pub fn whitelist(self) -> (r: Self)
        ensures
            r.spec_policy() == FilterListType::Whitelist,
            r.spec_root() == self.spec_root(),
            r.spec_prefix() == self.spec_prefix(),
            r.spec_filters() == self.spec_filters(),
            r.spec_ident() == self.spec_ident(),
    {
        let mut s = self;
        s.filter_list_type = FilterListType::Whitelist;
        s
    }

    /// Boxes the finished pipeline.
    pub fn build(self) -> (r: Box<Self>)
        ensures
            *r == self,
    {
        Box::new(self)
    }

    /// The name of the generated constant.
    pub fn identifier(&self) -> (r: &str)
        ensures
            r@ == self.spec_ident(),
    {
        self.ident.as_str()
    }

    /// The asset root.
    pub fn path(&self) -> (r: &str)
        ensures
            r@ == self.spec_root(),
    {
        self.path.as_str()
    }

    /// What the walk does with an entry: see `visit_spec`.
    pub fn visit(&self, entry: &str, is_dir: bool) -> (r: Result<Visit, PipelineError>)
        ensures
            r == visit_spec(
                self.spec_root(),
                self.spec_filters(),
                self.spec_policy(),
                false,
                entry@,
                is_dir,
            ),
    {
        if is_dir {
            return Ok(Visit::Skip);
        }
        if self.filters.len() == 0 && self.filter_list_type == FilterListType::Whitelist {
            return Ok(Visit::Stop);
        }
        match relative_path_of(entry, self.path.as_str()) {
            None => Err(PipelineError::PathError),
            Some(rel) => if accepts(&self.filters, self.filter_list_type, rel.as_str()) {
                Ok(Visit::Take)
            } else {
                Ok(Visit::Skip)
            },
        }
    }

    /// The declaration for the files taken, in the order they were taken.
    pub fn render(&self, files: &Vec<String>) -> (r: Result<String, PipelineError>)
        ensures
            match r {
                Ok(text) => plain_output(
                    self.spec_ident(),
                    self.spec_root(),
                    self.spec_prefix(),
                    crate::path::views(files@),
                ) == Ok::<Seq<char>, PipelineError>(text@),
                Err(e) => plain_output(
                    self.spec_ident(),
                    self.spec_root(),
                    self.spec_prefix(),
                    crate::path::views(files@),
                ) == Err::<Seq<char>, PipelineError>(e),
            },
    {
        let ghost fv = crate::path::views(files@);
        if files.len() == 0 {
            return Err(PipelineError::EmptyResult);
        }
        let mut records: Vec<String> = Vec::new();
        let mut i: usize = 0;
        while i < files.len()
            invariant
                i <= files.len(),
                fv == crate::path::views(files@),
                forall|k: int| 0 <= k < i ==> #[trigger] file_fits(fv[k], self.path@, self.prefix@, false),
                crate::path::views(records@) == plain_items(fv, self.path@, self.prefix@).take(
                    i as int,
                ),
            decreases files.len() - i,
        {
            let uri = match normalize_path(files[i].as_str(), self.path.as_str(), self.prefix.as_str(), false) {
                Ok(u) => u,
                Err(e) => {
                    proof {
                        assert(fv[i as int] == files@[i as int]@);
                        assert(!file_fits(fv[i as int], self.path@, self.prefix@, false));
                    }
                    return Err(e);
                },
            };
            if holds_nul(files[i].as_str()) || holds_nul(uri.as_str()) {
                proof {
                    assert(fv[i as int] == files@[i as int]@);
                    assert(!file_fits(fv[i as int], self.path@, self.prefix@, false));
                }
                return Err(PipelineError::PathError);
            }
            proof {
                assert(fv[i as int] == files@[i as int]@);
                assert(file_fits(fv[i as int], self.path@, self.prefix@, false));
            }
            let uri_lit = quote_str(uri.as_str());
            let path_lit = quote_str(files[i].as_str());
            let record = asset_record(uri_lit.as_str(), path_lit.as_str());
            let ghost before = crate::path::views(records@);
            records.push(record);
            proof {
                assert(fv[i as int] == files@[i as int]@);
                assert(crate::path::views(records@) =~= before.push(record@));
                assert(crate::path::views(records@) =~= plain_items(fv, self.path@, self.prefix@).take(
                    i + 1,
                ));
            }
            i += 1;
        }
        proof {
            assert(plain_items(fv, self.path@, self.prefix@).take(files.len() as int) =~= plain_items(
                fv,
                self.path@,
                self.prefix@,
            ));
        }
        if !is_identifier_text(self.ident.as_str()) {
            return Err(PipelineError::InvalidIdentifier);
        }
        let text = const_declaration(self.ident.as_str(), "Asset", &records);
        Ok(text)
    }
}

/// Without filters, a blacklist takes every file under the root that is
/// not set apart as a compressed variant, and a whitelist takes no file at
/// all: the walk stops at the first one.
pub proof fn lemma_no_filters(
    root: Seq<char>,
    policy: FilterListType,
    compressed: bool,
    entry: Seq<char>,
)
    requires
        relative_path(entry, root).is_some(),
    ensures
        policy == FilterListType::Blacklist ==> (visit_spec(
            root,
            Seq::empty(),
            policy,
            compressed,
            entry,
            false,
        ) == Ok::<Visit, PipelineError>(Visit::Take)) == !compressed,
        policy == FilterListType::Whitelist ==> visit_spec(
            root,
            Seq::empty(),
            policy,
            compressed,
            entry,
            false,
        ) == Ok::<Visit, PipelineError>(Visit::Stop),
{
    lemma_empty_chain(policy, relative_path(entry, root).unwrap());
}

/// A run that takes no file: the plain pipeline fails with an empty result,
/// the web pipeline declares an empty array.
pub proof fn lemma_no_files(ident: Seq<char>, root: Seq<char>, prefix: Seq<char>, gzip: bool, brotli: bool)
    requires
        is_identifier(ident),
    ensures
        plain_output(ident, root, prefix, Seq::empty()) == Err::<Seq<char>, PipelineError>(
            PipelineError::EmptyResult,
        ),
        web_output(ident, root, prefix, gzip, brotli, Seq::empty()) == Ok::<Seq<char>, PipelineError>(
            const_text(ident, "WebAsset"@, Seq::empty()) + seq!['\n'],
        ),
{
    let files = Seq::<FoundFile>::empty();
    assert(found_paths(files) =~= Seq::<Seq<char>>::empty());
    assert(web_items(files, root, prefix, gzip, brotli) =~= Seq::<Seq<char>>::empty());
}

} // verus!
