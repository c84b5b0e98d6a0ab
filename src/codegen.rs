//! The registry of pipelines whose declarations go, in order, into one
//! generated file.
use crate::builder::AssetsBuilder;
use crate::error::PipelineError;
use crate::pipeline::{
    found_file_paths, found_paths, is_compressed_variant, plain_output, visit_spec, web_output, Assets, Compression,
    FoundFile, Visit,
};
use crate::web::WebAssets;
use vstd::prelude::*;

verus! {

/// The view of a rendered text.
pub open spec fn text_view(r: Result<String, PipelineError>) -> Result<Seq<char>, PipelineError> {
    match r {
        Ok(s) => Ok(s@),
        Err(e) => Err(e),
    }
}

/// A pipeline that a registry runs. The walk of its root and the probes
/// for compressed variants happen outside; the pipeline decides what to
/// take and generates the declaration for what it took.
pub trait Pipeline {
    /// The asset root to walk.
    fn root(&self) -> &str;

    /// Whether to probe for a compressed variant beside each file taken.
    fn probes_for(&self, compression: Compression) -> bool;

    /// What the walk does with an entry.
    fn decide(&self, entry: &str, is_dir: bool) -> Result<Visit, PipelineError>;

    /// The generated declaration for the files taken.
    fn generate(&self, files: &Vec<FoundFile>) -> Result<String, PipelineError>;
}

impl Pipeline for Assets {
    fn root(&self) -> &str {
        self.path()
    }

    fn probes_for(&self, _compression: Compression) -> bool {
        false
    }

    fn decide(&self, entry: &str, is_dir: bool) -> Result<Visit, PipelineError> {
        self.visit(entry, is_dir)
    }

    fn generate(&self, files: &Vec<FoundFile>) -> Result<String, PipelineError> {
        let paths = found_file_paths(files);
        self.render(&paths)
    }
}

impl Pipeline for WebAssets {
    fn root(&self) -> &str {
        self.path()
    }

    fn probes_for(&self, compression: Compression) -> bool {
        self.probes(compression)
    }

    fn decide(&self, entry: &str, is_dir: bool) -> Result<Visit, PipelineError> {
        self.visit(entry, is_dir)
    }

    fn generate(&self, files: &Vec<FoundFile>) -> Result<String, PipelineError> {
        self.render(files)
    }
}

impl Pipeline for AssetsBuilder {
    fn root(&self) -> &str {
        self.path()
    }

    fn probes_for(&self, compression: Compression) -> bool {
        self.embeds(compression)
    }

    fn decide(&self, entry: &str, is_dir: bool) -> Result<Visit, PipelineError> {
        match self.web_assets() {
            Ok(w) => w.visit(entry, is_dir),
            Err(e) => Err(e),
        }
    }

    fn generate(&self, files: &Vec<FoundFile>) -> Result<String, PipelineError> {
        match self.web_assets() {
            Ok(w) => w.render(files),
            Err(e) => Err(e),
        }
    }
}

impl Pipeline for AnyPipeline {
    fn root(&self) -> &str {
        self.path()
    }

    fn probes_for(&self, compression: Compression) -> bool {
        self.probes(compression)
    }

    fn decide(&self, entry: &str, is_dir: bool) -> Result<Visit, PipelineError> {
        self.visit(entry, is_dir)
    }

    fn generate(&self, files: &Vec<FoundFile>) -> Result<String, PipelineError> {
        self.render(files)
    }
}

/// A pipeline of either kind that this library provides.
pub enum AnyPipeline {
    Assets(Box<Assets>),
    Web(Box<WebAssets>),
}

impl AnyPipeline {
    /// The asset root that the pipeline walks.
    pub fn path(&self) -> (r: &str)
        ensures
            r@ == match self {
                AnyPipeline::Assets(a) => a.spec_root(),
                AnyPipeline::Web(w) => w.spec_root(),
            },
    {
        match self {
            AnyPipeline::Assets(a) => a.path(),
            AnyPipeline::Web(w) => w.path(),
        }
    }

    /// Whether the walk probes for a compressed variant beside each file
    /// taken. A plain pipeline embeds none.
    pub fn probes(&self, compression: Compression) -> (r: bool)
        ensures
            r == match self {
                AnyPipeline::Assets(_) => false,
                AnyPipeline::Web(w) => match compression {
                    Compression::Gzip => w.spec_gzip(),
                    Compression::Brotli => w.spec_brotli(),
                },
            },
    {
        match self {
            AnyPipeline::Assets(_) => false,
            AnyPipeline::Web(w) => w.probes(compression),
        }
    }

    /// What the walk does with an entry.
    pub fn visit(&self, entry: &str, is_dir: bool) -> (r: Result<Visit, PipelineError>)
        ensures
            r == match self {
                AnyPipeline::Assets(a) => visit_spec(
                    a.spec_root(),
                    a.spec_filters(),
                    a.spec_policy(),
                    false,
                    entry@,
                    is_dir,
                ),
                AnyPipeline::Web(w) => visit_spec(
                    w.spec_root(),
                    w.spec_filters(),
                    w.spec_policy(),
                    is_compressed_variant(w.spec_gzip(), w.spec_brotli(), entry@),
                    entry@,
                    is_dir,
                ),
            },
    {
        match self {
            AnyPipeline::Assets(a) => a.visit(entry, is_dir),
            AnyPipeline::Web(w) => w.visit(entry, is_dir),
        }
    }

    /// The declaration for the files taken. A plain pipeline ignores what
    /// the probe found.
    pub fn render(&self, files: &Vec<FoundFile>) -> (r: Result<String, PipelineError>)
        ensures
            text_view(r) == match self {
                AnyPipeline::Assets(a) => plain_output(
                    a.spec_ident(),
                    a.spec_root(),
                    a.spec_prefix(),
                    found_paths(files@),
                ),
                AnyPipeline::Web(w) => web_output(
                    w.spec_ident(),
                    w.spec_root(),
                    w.spec_prefix(),
                    w.spec_gzip(),
                    w.spec_brotli(),
                    files@,
                ),
            },
    {
        match self {
            AnyPipeline::Assets(a) => {
                let paths = found_file_paths(files);
                a.render(&paths)
            },
            AnyPipeline::Web(w) => w.render(files),
        }
    }
}

/// The file name used under a build output directory.
pub open spec fn default_file_name() -> Seq<char> {
    seq!['a', 's', 's', 'e', 't', 's', '.', 'r', 's']
}

/// A file name joined to a directory, with one `/` between them.
pub open spec fn in_directory(dir: Seq<char>, name: Seq<char>) -> Seq<char> {
    if dir.len() == 0 {
        name
    } else if dir.last() == '/' {
        dir + name
    } else {
        dir + seq!['/'] + name
    }
}

/// A code generation registry: pipelines, written in the order they were
/// added, to one destination file.
pub struct Codegen<P> {
    assets_builder: Vec<P>,
    path: Option<String>,
}

impl<P: Pipeline> Codegen<P> {
    /// The pipelines, in the order they were added.
    pub closed spec fn spec_pipelines(&self) -> Seq<P> {
        self.assets_builder@
    }

    /// The destination path, where one is set.
    pub closed spec fn spec_path(&self) -> Option<Seq<char>> {
        match self.path {
            Some(p) => Some(p@),
            None => None,
        }
    }

    /// A registry without pipelines and without a destination.
    pub fn new() -> (r: Codegen<P>)
        ensures
            r.spec_pipelines().len() == 0,
            r.spec_path().is_none(),
    {
        Codegen { assets_builder: Vec::new(), path: None }
    }

    /// A registry without pipelines whose destination is `assets.rs` in the
    /// build output directory `out_dir`.
    pub fn with_out_dir(out_dir: &str) -> (r: Codegen<P>)
        ensures
            r.spec_pipelines().len() == 0,
            r.spec_path() == Some(in_directory(out_dir@, default_file_name())),
    {
        let mut p = String::from_str(out_dir);
        if !out_dir.is_empty() && out_dir.get_char(out_dir.unicode_len() - 1) != '/' {
            p.append("/");
            proof {
                reveal_strlit("/");
            }
        }
        p.append("assets.rs");
        proof {
            reveal_strlit("assets.rs");
            assert(p@ =~= in_directory(out_dir@, default_file_name()));
        }
        Codegen { assets_builder: Vec::new(), path: Some(p) }
    }

    /// The destination path, where one is set.
    pub fn path(&self) -> (r: Option<&str>)
        ensures
            match r {
                Some(p) => self.spec_path() == Some(p@),
                None => self.spec_path().is_none(),
            },
    {
        match &self.path {
            Some(p) => Some(p.as_str()),
            None => None,
        }
    }

    /// Sets the destination path.
    pub fn set_path(self, path: &str) -> (r: Codegen<P>)
        ensures
            r.spec_path() == Some(path@),
            r.spec_pipelines() == self.spec_pipelines(),
    {
        let mut s = self;
        s.path = Some(String::from_str(path));
        s
    }

    /// The pipelines, in the order they were added.
    pub fn pipelines(&self) -> (r: &[P])
        ensures
            r@ == self.spec_pipelines(),
    {
        self.assets_builder.as_slice()
    }

    /// Adds a pipeline after those already there.
    pub fn pipe(self, generator: P) -> (r: Codegen<P>)
        ensures
            r.spec_pipelines() == self.spec_pipelines().push(generator),
            r.spec_path() == self.spec_path(),
    {
        let mut s = self;
        s.assets_builder.push(generator);
        s
    }

    /// The destination path, which must be set before anything is written.
    pub fn destination(&self) -> (r: Result<&str, PipelineError>)
        ensures
            match r {
                Ok(p) => self.spec_path() == Some(p@),
                Err(e) => e == PipelineError::PathNotSet && self.spec_path().is_none(),
            },
    {
        match &self.path {
            Some(p) => Ok(p.as_str()),
            None => Err(PipelineError::PathNotSet),
        }
    }
}

} // verus!
