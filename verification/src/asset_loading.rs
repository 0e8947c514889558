//! Loading a template from the bytes of an asset: a zipped bundle or a single
//! Typst document.

use crate::archive::{open_archive, zip_entries};
use crate::file_resolver::{
    load_outcome, standalone_template, FilePreloaderError, StructuredInMemoryTemplate,
    TemplateView,
};
use crate::path::{components, has_extension, EntryPath};
use vstd::prelude::*;
use vstd::string::StringExecFns;
use vstd::utf8::{decode_utf8, valid_utf8};

verus! {

#[verifier::external_type_specification]
#[verifier::external_body]
pub struct ExFromUtf8Error(std::string::FromUtf8Error);

/// Registers the template asset and its loader with the host application.
#[derive(Debug, Clone, Copy, Default)]
pub struct AssetPluginForTypstTextures;

/// Loads templates from `.zip` bundles and from single `.typ` documents.
#[derive(Debug, Clone, Copy, Default)]
pub struct TypstZipLoader;

/// A loaded template, as the host's asset store keeps it.
#[derive(Debug)]
pub struct TypstTemplate(pub StructuredInMemoryTemplate);

impl View for TypstTemplate {
    type V = TemplateView;

    open spec fn view(&self) -> TemplateView {
        self.0@
    }
}

/// Why a template could not be loaded.
#[non_exhaustive]
#[derive(Debug)]
pub enum TypstAssetError {
    /// An entry's content could not be read, or a document is not UTF-8.
    Io(std::io::Error),
    /// The zip container or one of its entries could not be opened.
    Zip(zip::result::ZipError),
    /// The bundle's content does not make a template.
    Preloader(FilePreloaderError),
    /// The asset is neither a `.zip` bundle nor a single `.typ` document.
    UnsupportedFormat,
}

/// The kind of a loading error, without the underlying error.
#[derive(Debug, Clone, Copy, PartialEq, Eq, Structural)]
pub enum AssetErrorKind {
    Io,
    Zip,
    Preloader(FilePreloaderError),
    UnsupportedFormat,
}

impl View for TypstAssetError {
    type V = AssetErrorKind;

    open spec fn view(&self) -> AssetErrorKind {
        match self {
            TypstAssetError::Io(_) => AssetErrorKind::Io,
            TypstAssetError::Zip(_) => AssetErrorKind::Zip,
            TypstAssetError::Preloader(e) => AssetErrorKind::Preloader(*e),
            TypstAssetError::UnsupportedFormat => AssetErrorKind::UnsupportedFormat,
        }
    }
}

impl TypstAssetError {
    /// The kind of this error.
    pub fn kind(&self) -> (kind: AssetErrorKind)
        ensures
            kind == self@,
    {
        match self {
            TypstAssetError::Io(_) => AssetErrorKind::Io,
            TypstAssetError::Zip(_) => AssetErrorKind::Zip,
            TypstAssetError::Preloader(e) => AssetErrorKind::Preloader(*e),
            TypstAssetError::UnsupportedFormat => AssetErrorKind::UnsupportedFormat,
        }
    }
}

/// Whether the last component of an asset's path has the extension `ext`.
pub open spec fn asset_has_extension(path: Seq<char>, ext: Seq<char>) -> bool {
    components(path).len() > 0 && has_extension(components(path).last(), ext)
}

/// What an asset is, going by its path.
#[derive(Debug, Clone, Copy, PartialEq, Eq, Structural)]
pub enum AssetFormat {
    /// A zipped bundle: the path ends in `.zip`.
    Bundle,
    /// A single document: the path ends in `.typ`.
    Document,
}

/// The format of the asset at `path`; `None` where it is neither of the two.
pub open spec fn asset_format(path: Seq<char>) -> Option<AssetFormat> {
    if asset_has_extension(path, "zip"@) {
        Some(AssetFormat::Bundle)
    } else if asset_has_extension(path, "typ"@) {
        Some(AssetFormat::Document)
    } else {
        None
    }
}

/// What loading the asset at `path` with the content `bytes` gives: the
/// bundle's template for a bundle, the template of the one document for a
/// document, and nothing for anything else.
pub open spec fn load_result(path: Seq<char>, bytes: Seq<u8>) -> Result<
    TemplateView,
    AssetErrorKind,
> {
    match asset_format(path) {
        Some(AssetFormat::Bundle) => match zip_entries(bytes) {
            Some(entries) => load_outcome(entries),
            None => Err(AssetErrorKind::Zip),
        },
        Some(AssetFormat::Document) => if valid_utf8(bytes) {
            Ok(standalone_template(decode_utf8(bytes)))
        } else {
            Err(AssetErrorKind::Io)
        },
        None => Err(AssetErrorKind::UnsupportedFormat),
    }
}

/// Decodes bytes as UTF-8 text.
///
/// Wraps `String::from_utf8`, which std documents as failing exactly where
/// the bytes are not valid UTF-8.
#[verifier::external_body]
fn text_from_utf8(bytes: Vec<u8>) -> (text: Result<String, std::string::FromUtf8Error>)
    ensures
        text is Ok <==> valid_utf8(bytes@),
        text matches Ok(t) ==> t@ == decode_utf8(bytes@),
{
    String::from_utf8(bytes)
}

/// The reading error for content that is not UTF-8.
///
/// Wraps `std::io::Error::new` with the kind `InvalidData`.
#[verifier::external_body]
fn invalid_data(cause: std::string::FromUtf8Error) -> std::io::Error {
    std::io::Error::new(std::io::ErrorKind::InvalidData, cause)
}

/// The text that a reading error displays. It may differ from machine to
/// machine.
///
/// Wraps `ToString::to_string` of `std::io::Error`.
#[verifier::external_body]
fn io_error_text(error: &std::io::Error) -> String {
    error.to_string()
}

/// The text that a container error displays.
///
/// Wraps `ToString::to_string` of `zip::result::ZipError`.
#[verifier::external_body]
fn zip_error_text(error: &zip::result::ZipError) -> String {
    error.to_string()
}

impl TypstZipLoader {
    /// Tells from its path what an asset is.
    pub fn format_of(&self, path: &str) -> (format: Option<AssetFormat>)
        ensures
            format == asset_format(path@),
    {
        let asset = EntryPath::parse(path);
        if asset.has_extension("zip") {
            Some(AssetFormat::Bundle)
        } else if asset.has_extension("typ") {
            Some(AssetFormat::Document)
        } else {
            None
        }
    }

    /// Loads a template from the content of the asset at `path`.
    pub fn load(&self, path: &str, bytes: Vec<u8>) -> (loaded: Result<
        TypstTemplate,
        TypstAssetError,
    >)
        ensures
            match loaded {
                Ok(template) => load_result(path@, bytes@) == Ok::<TemplateView, AssetErrorKind>(
                    template@,
                ),
                Err(e) => load_result(path@, bytes@) == Err::<TemplateView, AssetErrorKind>(e@),
            },
    {
        match self.format_of(path) {
            Some(AssetFormat::Bundle) => {
                let zip = match open_archive(bytes) {
                    Ok(zip) => zip,
                    Err(e) => {
                        return Err(TypstAssetError::Zip(e));
                    },
                };
                match StructuredInMemoryTemplate::from_zip(zip) {
                    Ok(template) => Ok(TypstTemplate(template)),
                    Err(e) => Err(e),
                }
            },
            Some(AssetFormat::Document) => match text_from_utf8(bytes) {
                Ok(text) => Ok(TypstTemplate(StructuredInMemoryTemplate::standalone(text))),
                Err(e) => Err(TypstAssetError::Io(invalid_data(e))),
            },
            None => Err(TypstAssetError::UnsupportedFormat),
        }
    }
}

/// What an error's message begins with, by its kind.
pub open spec fn message_prefix(kind: AssetErrorKind) -> Seq<char> {
    match kind {
        AssetErrorKind::Io => "TypstAssetError::Io: "@,
        AssetErrorKind::Zip => "TypstAssetError::Zip: "@,
        AssetErrorKind::Preloader(_) => "TypstAssetError::Preloader: "@,
        AssetErrorKind::UnsupportedFormat => "TypstAssetError::UnsupportedFormat: "@,
    }
}

/// What follows the prefix in an error's message, where the error itself
/// settles it.
pub open spec fn message_detail(kind: AssetErrorKind) -> Option<Seq<char>> {
    match kind {
        AssetErrorKind::Io => None,
        AssetErrorKind::Zip => None,
        AssetErrorKind::Preloader(e) => Some(e.name_text()),
        AssetErrorKind::UnsupportedFormat => Some(
            "Neither a .zip archive or a standalone .typ file"@,
        ),
    }
}

impl TypstAssetError {
    /// The error as text: the kind, then the detail. For a reading or a
    /// container error the detail is what the underlying error displays.
    pub fn message(&self) -> (text: String)
        ensures
            text@.len() >= message_prefix(self@).len(),
            text@.take(message_prefix(self@).len() as int) == message_prefix(self@),
            message_detail(self@) matches Some(detail) ==> text@ == message_prefix(self@)
                + detail,
    {
        match self {
            TypstAssetError::Io(e) => {
                let detail = io_error_text(e);
                let text = String::from_str("TypstAssetError::Io: ").concat(detail.as_str());
                assert(text@.take("TypstAssetError::Io: "@.len() as int)
                    =~= "TypstAssetError::Io: "@);
                text
            },
            TypstAssetError::Zip(e) => {
                let detail = zip_error_text(e);
                let text = String::from_str("TypstAssetError::Zip: ").concat(detail.as_str());
                assert(text@.take("TypstAssetError::Zip: "@.len() as int)
                    =~= "TypstAssetError::Zip: "@);
                text
            },
            TypstAssetError::Preloader(e) => {
                let text = String::from_str("TypstAssetError::Preloader: ").concat(e.name());
                assert(text@.take("TypstAssetError::Preloader: "@.len() as int)
                    =~= "TypstAssetError::Preloader: "@);
                text
            },
            TypstAssetError::UnsupportedFormat => {
                let text = String::from_str("TypstAssetError::UnsupportedFormat: ").concat(
                    "Neither a .zip archive or a standalone .typ file",
                );
                assert(text@.take("TypstAssetError::UnsupportedFormat: "@.len() as int)
                    =~= "TypstAssetError::UnsupportedFormat: "@);
                text
            },
        }
    }
}

} // verus!
