//! The records that generated code holds: static data embedded in a binary.
use vstd::prelude::*;

verus! {

/// An embedded file and the URI it is served at.
#[derive(Debug)]
pub struct Asset {
    pub uri: &'static str,
    pub data: &'static [u8],
}

impl Asset {
    /// The URI of the file.
    pub fn uri(&self) -> (r: &'static str)
        ensures
            r == self.uri,
    {
        self.uri
    }

    /// The file's bytes as they were when the code was generated.
    pub fn data(&self) -> (r: &'static [u8])
        ensures
            r == self.data,
    {
        self.data
    }
}

/// An embedded web file, its precompressed variants where they were found,
/// and its MIME type.
#[derive(Debug)]
pub struct WebAsset {
    pub uri: &'static str,
    pub data: &'static [u8],
    pub data_gz: Option<&'static [u8]>,
    pub data_br: Option<&'static [u8]>,
    pub mime: &'static str,
}

impl WebAsset {
    /// The URI of the file.
    pub fn uri(&self) -> (r: &'static str)
        ensures
            r == self.uri,
    {
        self.uri
    }

    /// The file's bytes.
    pub fn data(&self) -> (r: &'static [u8])
        ensures
            r == self.data,
    {
        self.data
    }

    /// The bytes of the gzip variant, where one was found.
    pub fn data_gz(&self) -> (r: Option<&'static [u8]>)
        ensures
            r == self.data_gz,
    {
        self.data_gz
    }

    /// The bytes of the brotli variant, where one was found.
    pub fn data_br(&self) -> (r: Option<&'static [u8]>)
        ensures
            r == self.data_br,
    {
        self.data_br
    }

    /// The MIME type.
    pub fn mime_type(&self) -> (r: &'static str)
        ensures
            r == self.mime,
    {
        self.mime
    }
}

} // verus!
