//! A builder for web asset pipelines that filter by file extension alone.
use crate::error::PipelineError;
use crate::filter::{first_match, has_leading_dot, Filter, FilterListType, FilterRule};
use crate::path::{path_extension, relative_path};
use crate::pipeline::{is_compressed_variant, visit_spec, Visit};
use crate::web::WebAssets;
use vstd::prelude::*;

verus! {

/// A web asset pipeline described by extensions: a whitelist takes the
/// files with an extension that was added with `include_ext`, a blacklist
/// takes the files without one added with `exclude`.
pub struct AssetsBuilder {
    ident: String,
    prefix: String,
    filter_type: FilterListType,
    included: Vec<String>,
    excluded: Vec<String>,
    brotli: bool,
    gzip: bool,
    path: String,
}

/// Whether a filter stands for an extension under a policy: an inclusion
/// for a whitelist, an exclusion for a blacklist.
pub open spec fn extension_filter(f: Filter, policy: FilterListType, ext: Seq<char>) -> bool {
    match f {
        Filter::Include(FilterRule::Extension(e)) => policy == FilterListType::Whitelist && e@ == ext,
        Filter::Exclude(FilterRule::Extension(e)) => policy == FilterListType::Blacklist && e@ == ext,
        _ => false,
    }
}

impl AssetsBuilder {
    pub closed spec fn spec_ident(&self) -> Seq<char> {
        self.ident@
    }

    pub closed spec fn spec_prefix(&self) -> Seq<char> {
        self.prefix@
    }

    pub closed spec fn spec_policy(&self) -> FilterListType {
        self.filter_type
    }

    /// The extensions a whitelist takes.
    pub closed spec fn spec_included(&self) -> Seq<Seq<char>> {
        crate::path::views(self.included@)
    }

    /// The extensions a blacklist leaves out.
    pub closed spec fn spec_excluded(&self) -> Seq<Seq<char>> {
        crate::path::views(self.excluded@)
    }

    pub closed spec fn spec_brotli(&self) -> bool {
        self.brotli
    }

    pub closed spec fn spec_gzip(&self) -> bool {
        self.gzip
    }

    pub closed spec fn spec_root(&self) -> Seq<char> {
        self.path@
    }

    /// The extensions that the policy in force uses.
    pub open spec fn spec_extensions(&self) -> Seq<Seq<char>> {
        if self.spec_policy() == FilterListType::Whitelist {
            self.spec_included()
        } else {
            self.spec_excluded()
        }
    }

    /// A builder named `identifier` over the directory `path`: a blacklist
    /// with no extensions, the prefix `/`, and both compressed variants.
    pub fn new(identifier: &str, path: &str) -> (r: Self)
        ensures
            r.spec_ident() == identifier@,
            r.spec_root() == path@,
            r.spec_prefix() == seq!['/'],
            r.spec_policy() == FilterListType::Blacklist,
            r.spec_included().len() == 0,
            r.spec_excluded().len() == 0,
            r.spec_gzip(),
            r.spec_brotli(),
    {
        let prefix = String::from_str("/");
        proof {
            reveal_strlit("/");
            assert(prefix@ =~= seq!['/']);
        }
        let b = AssetsBuilder {
            ident: String::from_str(identifier),
            filter_type: FilterListType::Blacklist,
            included: Vec::new(),
            excluded: Vec::new(),
            prefix,
            brotli: true,
            gzip: true,
            path: String::from_str(path),
        };
        proof {
            assert(b.spec_included() =~= Seq::<Seq<char>>::empty());
            assert(b.spec_excluded() =~= Seq::<Seq<char>>::empty());
        }
        b
    }

    /// Adds an extension that a whitelist takes.
    pub fn include_ext(self, ext: &str) -> (r: Self)
        ensures
            r.spec_included() == self.spec_included().push(ext@),
            r.spec_excluded() == self.spec_excluded(),
            r.spec_ident() == self.spec_ident(),
            r.spec_root() == self.spec_root(),
            r.spec_prefix() == self.spec_prefix(),
            r.spec_policy() == self.spec_policy(),
            r.spec_gzip() == self.spec_gzip(),
            r.spec_brotli() == self.spec_brotli(),
    {
        let mut s = self;
        s.included.push(String::from_str(ext));
        proof {
            assert(s.spec_included() =~= self.spec_included().push(ext@));
        }
        s
    }

    /// Adds an extension that a blacklist leaves out.
    pub fn exclude(self, ext: &str) -> (r: Self)
        ensures
            r.spec_excluded() == self.spec_excluded().push(ext@),
            r.spec_included() == self.spec_included(),
            r.spec_ident() == self.spec_ident(),
            r.spec_root() == self.spec_root(),
            r.spec_prefix() == self.spec_prefix(),
            r.spec_policy() == self.spec_policy(),
            r.spec_gzip() == self.spec_gzip(),
            r.spec_brotli() == self.spec_brotli(),
    {
        let mut s = self;
        s.excluded.push(String::from_str(ext));
        proof {
            assert(s.spec_excluded() =~= self.spec_excluded().push(ext@));
        }
        s
    }

    /// Sets the prefix of every URI.
    pub fn prefix(self, prefix: &str) -> (r: Self)
        ensures
            r.spec_prefix() == prefix@,
            r.spec_included() == self.spec_included(),
            r.spec_excluded() == self.spec_excluded(),
            r.spec_ident() == self.spec_ident(),
            r.spec_root() == self.spec_root(),
            r.spec_policy() == self.spec_policy(),
            r.spec_gzip() == self.spec_gzip(),
            r.spec_brotli() == self.spec_brotli(),
    {
        let mut s = self;
        s.prefix = String::from_str(prefix);
        s
    }

    /// Filters by the excluded extensions.
    pub fn blacklist(self) -> (r: Self)
        ensures
            r.spec_policy() == FilterListType::Blacklist,
            r.spec_prefix() == self.spec_prefix(),
            r.spec_included() == self.spec_included(),
            r.spec_excluded() == self.spec_excluded(),
            r.spec_ident() == self.spec_ident(),
            r.spec_root() == self.spec_root(),
            r.spec_gzip() == self.spec_gzip(),
            r.spec_brotli() == self.spec_brotli(),
    {
        let mut s = self;
        s.filter_type = FilterListType::Blacklist;
        s
    }

    /// Filters by the included extensions.
    pub fn whitelist(self) -> (r: Self)
        ensures
            r.spec_policy() == FilterListType::Whitelist,
            r.spec_prefix() == self.spec_prefix(),
            r.spec_included() == self.spec_included(),
            r.spec_excluded() == self.spec_excluded(),
            r.spec_ident() == self.spec_ident(),
            r.spec_root() == self.spec_root(),
            r.spec_gzip() == self.spec_gzip(),
            r.spec_brotli() == self.spec_brotli(),
    {
        let mut s = self;
        s.filter_type = FilterListType::Whitelist;
        s
    }

    /// Sets whether the brotli variant of each file is embedded too.
    pub fn brotli(self, brotli: bool) -> (r: Self)
        ensures
            r.spec_brotli() == brotli,
            r.spec_gzip() == self.spec_gzip(),
            r.spec_policy() == self.spec_policy(),
            r.spec_prefix() == self.spec_prefix(),
            r.spec_included() == self.spec_included(),
            r.spec_excluded() == self.spec_excluded(),
            r.spec_ident() == self.spec_ident(),
            r.spec_root() == self.spec_root(),
    {
        let mut s = self;
        s.brotli = brotli;
        s
    }

    /// Sets whether the gzip variant of each file is embedded too.
    pub fn gzip(self, gzip: bool) -> (r: Self)
        ensures
            r.spec_gzip() == gzip,
            r.spec_brotli() == self.spec_brotli(),
            r.spec_policy() == self.spec_policy(),
            r.spec_prefix() == self.spec_prefix(),
            r.spec_included() == self.spec_included(),
            r.spec_excluded() == self.spec_excluded(),
            r.spec_ident() == self.spec_ident(),
            r.spec_root() == self.spec_root(),
    {
        let mut s = self;
        s.gzip = gzip;
        s
    }

    /// Sets the asset root.
    pub fn set_path(self, path: &str) -> (r: Self)
        ensures
            r.spec_root() == path@,
            r.spec_gzip() == self.spec_gzip(),
            r.spec_brotli() == self.spec_brotli(),
            r.spec_policy() == self.spec_policy(),
            r.spec_prefix() == self.spec_prefix(),
            r.spec_included() == self.spec_included(),
            r.spec_excluded() == self.spec_excluded(),
            r.spec_ident() == self.spec_ident(),
    {
        let mut s = self;
        s.path = String::from_str(path);
        s
    }

    /// The asset root.
    pub fn path(&self) -> (r: &str)
        ensures
            r@ == self.spec_root(),
    {
        self.path.as_str()
    }

    /// Whether gzip, or brotli, variants are embedded.
    pub fn embeds(&self, compression: crate::pipeline::Compression) -> (r: bool)
        ensures
            r == match compression {
                crate::pipeline::Compression::Gzip => self.spec_gzip(),
                crate::pipeline::Compression::Brotli => self.spec_brotli(),
            },
    {
        match compression {
            crate::pipeline::Compression::Gzip => self.gzip,
            crate::pipeline::Compression::Brotli => self.brotli,
        }
    }

    /// Boxes the finished builder.
    pub fn build(self) -> (r: Box<Self>)
        ensures
            *r == self,
    {
        Box::new(self)
    }

    /// The web asset pipeline this builder describes: one extension filter
    /// for each extension of the policy in force, in the order they were
    /// added. An extension with a leading `.` is an invalid rule.
    pub fn web_assets(&self) -> (r: Result<WebAssets, PipelineError>)
        ensures
            (exists|i: int|
                0 <= i < self.spec_extensions().len() && #[trigger] has_leading_dot(
                    self.spec_extensions()[i],
                )) <==> r == Err::<WebAssets, PipelineError>(PipelineError::InvalidRule),
            match r {
                Ok(w) => {
                    &&& w.spec_ident() == self.spec_ident()
                    &&& w.spec_root() == self.spec_root()
                    &&& w.spec_prefix() == self.spec_prefix()
                    &&& w.spec_policy() == self.spec_policy()
                    &&& w.spec_gzip() == self.spec_gzip()
                    &&& w.spec_brotli() == self.spec_brotli()
                    &&& w.spec_filters().len() == self.spec_extensions().len()
                    &&& forall|i: int|
                        0 <= i < w.spec_filters().len() ==> #[trigger] extension_filter(
                            w.spec_filters()[i],
                            self.spec_policy(),
                            self.spec_extensions()[i],
                        )
                },
                Err(e) => e == PipelineError::InvalidRule,
            },
    {
        let whitelist = self.filter_type == FilterListType::Whitelist;
        let exts = if whitelist {
            &self.included
        } else {
            &self.excluded
        };
        let mut w = WebAssets::new(self.ident.as_str(), self.path.as_str()).prefix(
            self.prefix.as_str(),
        ).gzip(self.gzip).brotli(self.brotli);
        w = if whitelist {
            w.whitelist()
        } else {
            w.blacklist()
        };
        let mut i: usize = 0;
        while i < exts.len()
            invariant
                i <= exts.len(),
                whitelist == (self.spec_policy() == FilterListType::Whitelist),
                crate::path::views(exts@) == self.spec_extensions(),
                w.spec_ident() == self.spec_ident(),
                w.spec_root() == self.spec_root(),
                w.spec_prefix() == self.spec_prefix(),
                w.spec_policy() == self.spec_policy(),
                w.spec_gzip() == self.spec_gzip(),
                w.spec_brotli() == self.spec_brotli(),
                w.spec_filters().len() == i,
                forall|k: int| 0 <= k < i ==> !#[trigger] has_leading_dot(self.spec_extensions()[k]),
                forall|k: int|
                    0 <= k < i ==> #[trigger] extension_filter(
                        w.spec_filters()[k],
                        self.spec_policy(),
                        self.spec_extensions()[k],
                    ),
            decreases exts.len() - i,
        {
            proof {
                assert(self.spec_extensions()[i as int] == exts@[i as int]@);
            }
            let made = if whitelist {
                Filter::include_extension(exts[i].as_str())
            } else {
                Filter::exclude_extension(exts[i].as_str())
            };
            let f = match made {
                Ok(f) => f,
                Err(e) => {
                    return Err(e);
                },
            };
            proof {
                assert(!has_leading_dot(self.spec_extensions()[i as int]));
                assert(extension_filter(f, self.spec_policy(), self.spec_extensions()[i as int]));
            }
            let ghost before = w.spec_filters();
            w = w.filter(f);
            proof {
                assert(w.spec_filters()[i as int] == f);
                assert forall|k: int| 0 <= k < i + 1 implies #[trigger] extension_filter(
                    w.spec_filters()[k],
                    self.spec_policy(),
                    self.spec_extensions()[k],
                ) by {
                    if k < i {
                        assert(w.spec_filters()[k] == before[k]);
                    }
                }
            }
            i += 1;
        }
        Ok(w)
    }
}

/// Whether a relative path has one of the extensions.
pub open spec fn listed(exts: Seq<Seq<char>>, relative: Seq<char>) -> bool {
    exists|i: int| 0 <= i < exts.len() && path_extension(relative) == Some(#[trigger] exts[i])
}

/// A chain of extension filters for a policy: some filter matches exactly
/// when the path has one of the extensions, and the first that matches
/// includes under a whitelist and excludes under a blacklist.
proof fn lemma_extension_chain(
    filters: Seq<Filter>,
    policy: FilterListType,
    exts: Seq<Seq<char>>,
    relative: Seq<char>,
)
    requires
        filters.len() == exts.len(),
        forall|i: int| 0 <= i < filters.len() ==> #[trigger] extension_filter(filters[i], policy, exts[i]),
    ensures
        first_match(filters, relative) == if listed(exts, relative) {
            Some(policy == FilterListType::Whitelist)
        } else {
            None::<bool>
        },
    decreases filters.len(),
{
    if filters.len() > 0 {
        assert(extension_filter(filters[0], policy, exts[0]));
        let rest = filters.drop_first();
        let rest_exts = exts.drop_first();
        assert forall|i: int| 0 <= i < rest.len() implies #[trigger] extension_filter(
            rest[i],
            policy,
            rest_exts[i],
        ) by {
            assert(extension_filter(filters[i + 1], policy, exts[i + 1]));
        }
        lemma_extension_chain(rest, policy, rest_exts, relative);
        if listed(rest_exts, relative) {
            let i = choose|i: int| 0 <= i < rest_exts.len() && path_extension(relative) == Some(
                #[trigger] rest_exts[i],
            );
            assert(exts[i + 1] == rest_exts[i]);
        }
        if listed(exts, relative) {
            let i = choose|i: int| 0 <= i < exts.len() && path_extension(relative) == Some(
                #[trigger] exts[i],
            );
            if i > 0 {
                assert(rest_exts[i - 1] == exts[i]);
            }
        }
    }
}

/// The web pipeline that a builder describes (as `web_assets` gives it)
/// takes a file under the root exactly when the file is not an embedded
/// compressed variant and its extension is listed for a whitelist, or not
/// listed for a blacklist. A whitelist with no extensions takes nothing.
pub proof fn lemma_builder_takes(b: AssetsBuilder, w: WebAssets, entry: Seq<char>)
    requires
        w.spec_root() == b.spec_root(),
        w.spec_policy() == b.spec_policy(),
        w.spec_filters().len() == b.spec_extensions().len(),
        forall|i: int|
            0 <= i < w.spec_filters().len() ==> #[trigger] extension_filter(
                w.spec_filters()[i],
                b.spec_policy(),
                b.spec_extensions()[i],
            ),
        relative_path(entry, b.spec_root()).is_some(),
    ensures
        (visit_spec(
            w.spec_root(),
            w.spec_filters(),
            w.spec_policy(),
            is_compressed_variant(w.spec_gzip(), w.spec_brotli(), entry),
            entry,
            false,
        ) == Ok::<Visit, PipelineError>(Visit::Take)) <==> (!is_compressed_variant(
            w.spec_gzip(),
            w.spec_brotli(),
            entry,
        ) && listed(b.spec_extensions(), relative_path(entry, b.spec_root()).unwrap()) == (
        b.spec_policy() == FilterListType::Whitelist)),
{
    lemma_extension_chain(
        w.spec_filters(),
        b.spec_policy(),
        b.spec_extensions(),
        relative_path(entry, b.spec_root()).unwrap(),
    );
}

} // verus!
