//! From the entries of a zipped bundle to a template held in memory.
//!
//! The first entry's name is the bundle's root: it is taken off the front of
//! every entry's name. What is left decides what an entry is:
//! `main.typ` at the root is the main document, any other `.typ` file a
//! further document, an `.otf` file a font, `package.toml` at the root the
//! manifest, everything else an asset. Directories, and whatever lies under
//! `__MACOSX`, are passed over.

use crate::archive::{
    archive_entries, entry_count, read_bytes, read_header, read_text, Archive, ArchiveEntry,
    EntryHeader,
};
use crate::asset_loading::{AssetErrorKind, TypstAssetError};
use crate::assoc::{distinct_keys, find_key, key_texts, keys_of, lemma_put_distinct, put};
use crate::font::{decodes_as_font, is_font_program};
use crate::manifest::{empty_manifest, manifest_of, BevyTypstDotToml, ManifestView};
use crate::path::{components, has_extension, joined, relative_to, EntryPath};
use vstd::prelude::*;

verus! {

/// What is wrong with the content of a bundle.
#[derive(Debug, Clone, Copy, PartialEq, Eq, Structural)]
pub enum FilePreloaderError {
    NoPackageDotToml,
    MalformedPackageToml,
    NoMainDotTyp,
}

impl FilePreloaderError {
    /// The error's name as text.
    pub open spec fn name_text(self) -> Seq<char> {
        match self {
            FilePreloaderError::NoPackageDotToml => "NoPackageDotToml"@,
            FilePreloaderError::MalformedPackageToml => "MalformedPackageToml"@,
            FilePreloaderError::NoMainDotTyp => "NoMainDotTyp"@,
        }
    }

    /// The error's name.
    pub fn name(&self) -> (name: &'static str)
        ensures
            name@ == self.name_text(),
    {
        match self {
            FilePreloaderError::NoPackageDotToml => "NoPackageDotToml",
            FilePreloaderError::MalformedPackageToml => "MalformedPackageToml",
            FilePreloaderError::NoMainDotTyp => "NoMainDotTyp",
        }
    }
}

/// A template with everything it needs, held in memory.
#[derive(Debug, Clone)]
pub struct StructuredInMemoryTemplate {
    /// The manifest; empty where the bundle has none.
    pub loaded_toml: BevyTypstDotToml,
    /// The font programs that decode, as raw bytes.
    pub loaded_fonts: Vec<Vec<u8>>,
    /// The text of the main document.
    pub loaded_main: String,
    /// The identity under which the template is kept.
    pub path_given: String,
    /// The assets, one for each asset entry and in the entries' order, each
    /// with its path below the bundle's root.
    pub file_resolver: Vec<(String, Vec<u8>)>,
    /// The further documents, each under its path below the bundle's root;
    /// no path twice.
    pub source_resolver: Vec<(String, String)>,
}

/// A template as plain values.
pub struct TemplateView {
    pub manifest: ManifestView,
    pub fonts: Seq<Seq<u8>>,
    pub main: Seq<char>,
    pub path_given: Seq<char>,
    pub files: Seq<(Seq<char>, Seq<u8>)>,
    pub sources: Seq<(Seq<char>, Seq<char>)>,
}

impl TemplateView {
    /// Whether every path names at most one further document.
    pub open spec fn well_formed(self) -> bool {
        distinct_keys(self.sources)
    }
}

/// The views of a list of byte vectors.
pub open spec fn blob_views(blobs: Seq<Vec<u8>>) -> Seq<Seq<u8>> {
    blobs.map_values(|b: Vec<u8>| b@)
}

/// The views of a list of assets.
pub open spec fn file_views(files: Seq<(String, Vec<u8>)>) -> Seq<(Seq<char>, Seq<u8>)> {
    files.map_values(|f: (String, Vec<u8>)| (f.0@, f.1@))
}

/// The views of a list of documents.
pub open spec fn source_views(sources: Seq<(String, String)>) -> Seq<(Seq<char>, Seq<char>)> {
    sources.map_values(|s: (String, String)| (s.0@, s.1@))
}

impl View for StructuredInMemoryTemplate {
    type V = TemplateView;

    open spec fn view(&self) -> TemplateView {
        TemplateView {
            manifest: self.loaded_toml@,
            fonts: blob_views(self.loaded_fonts@),
            main: self.loaded_main@,
            path_given: self.path_given@,
            files: file_views(self.file_resolver@),
            sources: source_views(self.source_resolver@),
        }
    }
}

/// What an entry of a bundle is.
#[derive(Debug, Clone, Copy, PartialEq, Eq, Structural)]
pub enum EntryKind {
    /// A directory, or anything under the reserved directory: passed over.
    Skipped,
    /// `main.typ` at the bundle's root.
    MainDocument,
    /// Any other `.typ` file.
    AuxiliaryDocument,
    /// An `.otf` file.
    Font,
    /// `package.toml` at the bundle's root.
    Manifest,
    /// Any other file.
    Asset,
}

/// Whether a path lies under the directory that archivers on macOS add.
pub open spec fn is_reserved(relative: Seq<Seq<char>>) -> bool {
    relative.len() > 0 && relative[0] == "__MACOSX"@
}

/// What the entry with the path `relative` below the bundle's root is.
pub open spec fn entry_kind(relative: Seq<Seq<char>>, is_file: bool) -> EntryKind {
    if !is_file || is_reserved(relative) {
        EntryKind::Skipped
    } else if relative.len() > 0 && has_extension(relative.last(), "typ"@) {
        if relative.len() == 1 && relative[0] == "main.typ"@ {
            EntryKind::MainDocument
        } else {
            EntryKind::AuxiliaryDocument
        }
    } else if relative.len() > 0 && has_extension(relative.last(), "otf"@) {
        EntryKind::Font
    } else if relative.len() == 1 && relative[0] == "package.toml"@ {
        EntryKind::Manifest
    } else {
        EntryKind::Asset
    }
}

/// Decides what an entry is from its path below the bundle's root.
pub fn classify(relative: &EntryPath, is_file: bool) -> (kind: EntryKind)
    ensures
        kind == entry_kind(relative@, is_file),
{
    if !is_file || relative.first_is("__MACOSX") {
        EntryKind::Skipped
    } else if relative.has_extension("typ") {
        if relative.is_only("main.typ") {
            EntryKind::MainDocument
        } else {
            EntryKind::AuxiliaryDocument
        }
    } else if relative.has_extension("otf") {
        EntryKind::Font
    } else if relative.is_only("package.toml") {
        EntryKind::Manifest
    } else {
        EntryKind::Asset
    }
}

/// The root of a bundle: the components of its first entry's name.
pub open spec fn bundle_prefix(entries: Seq<ArchiveEntry>) -> Seq<Seq<char>> {
    if entries.len() > 0 && entries[0].header is Some {
        components(entries[0].header->Some_0.0)
    } else {
        Seq::empty()
    }
}

/// The path of a named entry below the root `prefix`.
pub open spec fn relative_path(name: Seq<char>, prefix: Seq<Seq<char>>) -> Seq<Seq<char>> {
    relative_to(components(name), prefix)
}

/// What has been gathered from the entries read so far.
pub struct Gathered {
    pub main: Option<Seq<char>>,
    pub manifest: Option<ManifestView>,
    pub fonts: Seq<Seq<u8>>,
    pub files: Seq<(Seq<char>, Seq<u8>)>,
    pub sources: Seq<(Seq<char>, Seq<char>)>,
}

/// Nothing gathered yet.
pub open spec fn nothing_gathered() -> Gathered {
    Gathered {
        main: None,
        manifest: None,
        fonts: Seq::empty(),
        files: Seq::empty(),
        sources: Seq::empty(),
    }
}

/// Takes one entry in: what has been gathered after it, or the error that
/// ends the loading. An entry that cannot be opened is a container error; one
/// whose content is needed and cannot be read (as text, for a document or the
/// manifest) is a reading error; a manifest that is no valid manifest is
/// malformed. A later main document or manifest replaces an earlier one, as
/// does a later document under a path that is taken. Every asset is kept, in
/// the order of the entries; a font that does not decode is left out.
pub open spec fn absorb(state: Gathered, entry: ArchiveEntry, prefix: Seq<Seq<char>>) -> Result<
    Gathered,
    AssetErrorKind,
> {
    match entry.header {
        None => Err(AssetErrorKind::Zip),
        Some((name, is_file)) => {
            let relative = relative_path(name, prefix);
            match entry_kind(relative, is_file) {
                EntryKind::Skipped => Ok(state),
                EntryKind::MainDocument => match entry.text() {
                    Some(text) => Ok(Gathered { main: Some(text), ..state }),
                    None => Err(AssetErrorKind::Io),
                },
                EntryKind::AuxiliaryDocument => match entry.text() {
                    Some(text) => Ok(
                        Gathered { sources: put(state.sources, joined(relative), text), ..state },
                    ),
                    None => Err(AssetErrorKind::Io),
                },
                EntryKind::Font => match entry.payload {
                    Some(data) => Ok(
                        if is_font_program(data) {
                            Gathered { fonts: state.fonts.push(data), ..state }
                        } else {
                            state
                        },
                    ),
                    None => Err(AssetErrorKind::Io),
                },
                EntryKind::Manifest => match entry.text() {
                    Some(text) => match manifest_of(text) {
                        Some(manifest) => Ok(Gathered { manifest: Some(manifest), ..state }),
                        None => Err(
                            AssetErrorKind::Preloader(FilePreloaderError::MalformedPackageToml),
                        ),
                    },
                    None => Err(AssetErrorKind::Io),
                },
                EntryKind::Asset => match entry.payload {
                    Some(data) => Ok(
                        Gathered { files: state.files.push((joined(relative), data)), ..state },
                    ),
                    None => Err(AssetErrorKind::Io),
                },
            }
        },
    }
}

/// Takes the first `n` entries in, one after the other, and stops at the
/// first error.
pub open spec fn gather(entries: Seq<ArchiveEntry>, n: int) -> Result<Gathered, AssetErrorKind>
    decreases n,
{
    if n <= 0 {
        Ok(nothing_gathered())
    } else {
        match gather(entries, n - 1) {
            Ok(state) => absorb(state, entries[n - 1], bundle_prefix(entries)),
            Err(e) => Err(e),
        }
    }
}

/// The template that the entries of a bundle make, or why they make none.
pub open spec fn load_outcome(entries: Seq<ArchiveEntry>) -> Result<TemplateView, AssetErrorKind> {
    match gather(entries, entries.len() as int) {
        Err(e) => Err(e),
        Ok(state) => match state.main {
            None => Err(AssetErrorKind::Preloader(FilePreloaderError::NoMainDotTyp)),
            Some(main) => Ok(
                TemplateView {
                    manifest: match state.manifest {
                        Some(manifest) => manifest,
                        None => empty_manifest(),
                    },
                    fonts: state.fonts,
                    main,
                    path_given: "/"@,
                    files: state.files,
                    sources: state.sources,
                },
            ),
        },
    }
}

/// The entries gathered while an archive is read.
struct Gathering {
    main: Option<String>,
    manifest: Option<BevyTypstDotToml>,
    fonts: Vec<Vec<u8>>,
    files: Vec<(String, Vec<u8>)>,
    sources: Vec<(String, String)>,
}

impl View for Gathering {
    type V = Gathered;

    closed spec fn view(&self) -> Gathered {
        Gathered {
            main: match self.main {
                Some(text) => Some(text@),
                None => None,
            },
            manifest: match self.manifest {
                Some(manifest) => Some(manifest@),
                None => None,
            },
            fonts: blob_views(self.fonts@),
            files: file_views(self.files@),
            sources: source_views(self.sources@),
        }
    }
}

/// The template of a single document: no further documents, fonts or
/// assets, an empty manifest and an empty identity.
pub open spec fn standalone_template(main: Seq<char>) -> TemplateView {
    TemplateView {
        manifest: empty_manifest(),
        fonts: Seq::empty(),
        main,
        path_given: Seq::empty(),
        files: Seq::empty(),
        sources: Seq::empty(),
    }
}

impl Default for StructuredInMemoryTemplate {
    fn default() -> (template: Self)
        ensures
            template@ == standalone_template(Seq::empty()),
    {
        StructuredInMemoryTemplate::standalone(String::new())
    }
}

impl Gathering {
    /// Nothing gathered yet.
    fn new() -> (state: Self)
        ensures
            state@ == nothing_gathered(),
    {
        let state = Gathering {
            main: None,
            manifest: None,
            fonts: Vec::new(),
            files: Vec::new(),
            sources: Vec::new(),
        };
        assert(state@.fonts =~= Seq::empty());
        assert(state@.files =~= Seq::empty());
        assert(state@.sources =~= Seq::empty());
        state
    }

    /// Keeps a document under its path, in place of one that was there.
    fn keep_source(&mut self, path: String, text: String)
        ensures
            final(self)@ == (Gathered {
                sources: put(old(self)@.sources, path@, text@),
                ..old(self)@
            }),
    {
        let ghost views = source_views(self.sources@);
        assert(key_texts(self.sources@) == keys_of(views));
        let place = find_key(&self.sources, &path);
        if place < self.sources.len() {
            assert(source_views(self.sources@.update(place as int, (path, text))) == views.update(
                place as int,
                (path@, text@),
            ));
            self.sources.set(place, (path, text));
        } else {
            assert(source_views(self.sources@.push((path, text))) == views.push((path@, text@)));
            self.sources.push((path, text));
        }
    }

    /// Keeps an asset under its path, behind the assets that are there.
    fn keep_file(&mut self, path: String, data: Vec<u8>)
        ensures
            final(self)@ == (Gathered {
                files: old(self)@.files.push((path@, data@)),
                ..old(self)@
            }),
    {
        assert(file_views(self.files@.push((path, data))) == file_views(self.files@).push(
            (path@, data@),
        ));
        self.files.push((path, data));
    }

    /// Keeps a font program, if it decodes.
    fn keep_font(&mut self, data: Vec<u8>)
        ensures
            final(self)@ == if is_font_program(data@) {
                Gathered { fonts: old(self)@.fonts.push(data@), ..old(self)@ }
            } else {
                old(self)@
            },
    {
        if decodes_as_font(&data) {
            assert(blob_views(self.fonts@.push(data)) == blob_views(self.fonts@).push(data@));
            self.fonts.push(data);
        }
    }

    /// Takes in the entry at `index`, whose header has been read, reading its
    /// content where it is needed.
    fn take_in(
        &mut self,
        archive: &mut Archive,
        index: usize,
        header: EntryHeader,
        prefix: &EntryPath,
    ) -> (taken: Result<(), TypstAssetError>)
        requires
            index < archive_entries(*old(archive)).len(),
            archive_entries(*old(archive))[index as int].header == Some(
                (header.name@, header.is_file),
            ),
        ensures
            archive_entries(*final(archive)) == archive_entries(*old(archive)),
            match taken {
                Ok(_) => absorb(old(self)@, archive_entries(*old(archive))[index as int], prefix@)
                    == Ok::<Gathered, AssetErrorKind>(final(self)@),
                Err(e) => absorb(old(self)@, archive_entries(*old(archive))[index as int], prefix@)
                    == Err::<Gathered, AssetErrorKind>(e@),
            },
    {
        let relative = EntryPath::parse(header.name.as_str()).strip_prefix(prefix);
        match classify(&relative, header.is_file) {
            EntryKind::Skipped => {},
            EntryKind::MainDocument => match read_text(archive, index) {
                Ok(text) => {
                    self.main = Some(text);
                },
                Err(e) => {
                    return Err(TypstAssetError::Io(e));
                },
            },
            EntryKind::AuxiliaryDocument => match read_text(archive, index) {
                Ok(text) => {
                    self.keep_source(relative.to_text(), text);
                },
                Err(e) => {
                    return Err(TypstAssetError::Io(e));
                },
            },
            EntryKind::Font => match read_bytes(archive, index) {
                Ok(data) => {
                    self.keep_font(data);
                },
                Err(e) => {
                    return Err(TypstAssetError::Io(e));
                },
            },
            EntryKind::Manifest => match read_text(archive, index) {
                Ok(text) => match BevyTypstDotToml::parse(text.as_str()) {
                    Some(manifest) => {
                        self.manifest = Some(manifest);
                    },
                    None => {
                        return Err(
                            TypstAssetError::Preloader(FilePreloaderError::MalformedPackageToml),
                        );
                    },
                },
                Err(e) => {
                    return Err(TypstAssetError::Io(e));
                },
            },
            EntryKind::Asset => match read_bytes(archive, index) {
                Ok(data) => {
                    self.keep_file(relative.to_text(), data);
                },
                Err(e) => {
                    return Err(TypstAssetError::Io(e));
                },
            },
        }
        Ok(())
    }
}

impl StructuredInMemoryTemplate {
    /// The template of a single document that needs nothing else.
    pub fn standalone(main: String) -> (template: Self)
        ensures
            template@ == standalone_template(main@),
            template@.well_formed(),
    {
        let template = StructuredInMemoryTemplate {
            loaded_toml: BevyTypstDotToml::default(),
            loaded_fonts: Vec::new(),
            loaded_main: main,
            path_given: String::new(),
            file_resolver: Vec::new(),
            source_resolver: Vec::new(),
        };
        assert(template@.fonts =~= Seq::empty());
        assert(template@.files =~= Seq::empty());
        assert(template@.sources =~= Seq::empty());
        template
    }

    /// Reads a bundle out of a zip archive.
    pub fn from_zip(zip: Archive) -> (loaded: Result<Self, TypstAssetError>)
        ensures
            match loaded {
                Ok(template) => load_outcome(archive_entries(zip)) == Ok::<
                    TemplateView,
                    AssetErrorKind,
                >(template@),
                Err(e) => load_outcome(archive_entries(zip)) == Err::<TemplateView, AssetErrorKind>(
                    e@,
                ),
            },
            loaded matches Ok(template) ==> template@.well_formed(),
    {
        let mut archive = zip;
        let ghost entries = archive_entries(zip);
        let n = entry_count(&archive);
        let mut state = Gathering::new();
        let mut prefix = EntryPath { parts: Vec::new() };
        let mut ix: usize = 0;
        while ix < n
            invariant
                ix <= n,
                n == entries.len(),
                archive_entries(zip) == entries,
                archive_entries(archive) == entries,
                gather(entries, ix as int) == Ok::<Gathered, AssetErrorKind>(state@),
                ix > 0 ==> prefix@ == bundle_prefix(entries),
            decreases n - ix,
        {
            let header = match read_header(&mut archive, ix) {
                Ok(header) => header,
                Err(e) => {
                    proof {
                        lemma_gather_error(entries, ix as int + 1, n as int);
                    }
                    return Err(TypstAssetError::Zip(e));
                },
            };
            if ix == 0 {
                prefix = EntryPath::parse(header.name.as_str());
            }
            match state.take_in(&mut archive, ix, header, &prefix) {
                Ok(_) => {},
                Err(e) => {
                    proof {
                        lemma_gather_error(entries, ix as int + 1, n as int);
                    }
                    return Err(e);
                },
            }
            ix += 1;
        }
        proof {
            lemma_gathered_paths_are_distinct(entries, n as int);
        }
        let main = match state.main {
            Some(main) => main,
            None => {
                return Err(TypstAssetError::Preloader(FilePreloaderError::NoMainDotTyp));
            },
        };
        let loaded_toml = match state.manifest {
            Some(manifest) => manifest,
            None => BevyTypstDotToml::default(),
        };
        Ok(
            StructuredInMemoryTemplate {
                loaded_toml,
                loaded_fonts: state.fonts,
                loaded_main: main,
                path_given: "/".to_owned(),
                file_resolver: state.files,
                source_resolver: state.sources,
            },
        )
    }
}

/// What the entry at index `i` of a bundle is; an entry that cannot be
/// opened counts as passed over.
pub open spec fn kind_at(entries: Seq<ArchiveEntry>, i: int) -> EntryKind {
    match entries[i].header {
        Some((name, is_file)) => entry_kind(
            relative_path(name, bundle_prefix(entries)),
            is_file,
        ),
        None => EntryKind::Skipped,
    }
}

/// Whether an entry can be taken in: it can be opened and, where its content
/// is needed, read; a document is text, and a manifest is a valid one.
pub open spec fn entry_loads(entry: ArchiveEntry, prefix: Seq<Seq<char>>) -> bool {
    absorb(nothing_gathered(), entry, prefix) is Ok
}

/// Whether each of the first `n` entries can be taken in.
pub open spec fn entries_load(entries: Seq<ArchiveEntry>, n: int) -> bool {
    forall|i: int| 0 <= i < n ==> entry_loads(#[trigger] entries[i], bundle_prefix(entries))
}

/// Gathering succeeds as long as every entry can be taken in.
pub proof fn lemma_gather_succeeds(entries: Seq<ArchiveEntry>, n: int)
    requires
        0 <= n <= entries.len(),
        entries_load(entries, n),
    ensures
        gather(entries, n) is Ok,
    decreases n,
{
    if n > 0 {
        lemma_gather_succeeds(entries, n - 1);
        assert(entry_loads(entries[n - 1], bundle_prefix(entries)));
    }
}

/// The main text gathered from the first `n` entries of a bundle whose only
/// main document is the entry at `k`.
proof fn lemma_gather_single_main(entries: Seq<ArchiveEntry>, k: int, n: int)
    requires
        0 <= k < entries.len(),
        0 <= n <= entries.len(),
        entries_load(entries, entries.len() as int),
        forall|i: int|
            0 <= i < entries.len() ==> (kind_at(entries, i) == EntryKind::MainDocument <==> i
                == k),
    ensures
        gather(entries, n) is Ok,
        gather(entries, n)->Ok_0.main == if n > k {
            entries[k].text()
        } else {
            None
        },
    decreases n,
{
    if n > 0 {
        lemma_gather_single_main(entries, k, n - 1);
        assert(entry_loads(entries[n - 1], bundle_prefix(entries)));
        assert(kind_at(entries, n - 1) == EntryKind::MainDocument <==> n - 1 == k);
    }
}

/// A bundle whose entries can all be taken in, exactly one of them a main
/// document, loads; and the template's main text is that document's text.
pub proof fn lemma_single_main_document(entries: Seq<ArchiveEntry>, k: int)
    requires
        0 <= k < entries.len(),
        entries_load(entries, entries.len() as int),
        forall|i: int|
            0 <= i < entries.len() ==> (kind_at(entries, i) == EntryKind::MainDocument <==> i
                == k),
    ensures
        load_outcome(entries) is Ok,
        entries[k].text() == Some(load_outcome(entries)->Ok_0.main),
{
    lemma_gather_single_main(entries, k, entries.len() as int);
    assert(entry_loads(entries[k], bundle_prefix(entries)));
    assert(kind_at(entries, k) == EntryKind::MainDocument);
}

/// Without a main document among the first `n` entries, no main text is
/// gathered from them.
proof fn lemma_gather_no_main(entries: Seq<ArchiveEntry>, n: int)
    requires
        0 <= n <= entries.len(),
        forall|i: int| 0 <= i < entries.len() ==> kind_at(entries, i) != EntryKind::MainDocument,
    ensures
        gather(entries, n) matches Ok(state) ==> state.main is None,
    decreases n,
{
    if n > 0 {
        lemma_gather_no_main(entries, n - 1);
        assert(kind_at(entries, n - 1) != EntryKind::MainDocument);
    }
}

/// A bundle without a main document never loads.
pub proof fn lemma_bundle_without_main_never_loads(entries: Seq<ArchiveEntry>)
    requires
        forall|i: int| 0 <= i < entries.len() ==> kind_at(entries, i) != EntryKind::MainDocument,
    ensures
        load_outcome(entries) is Err,
{
    lemma_gather_no_main(entries, entries.len() as int);
}

/// A bundle without a main document, each of whose entries can be taken in,
/// fails because the main document is missing, and for no other reason.
pub proof fn lemma_missing_main_document(entries: Seq<ArchiveEntry>)
    requires
        forall|i: int| 0 <= i < entries.len() ==> kind_at(entries, i) != EntryKind::MainDocument,
        entries_load(entries, entries.len() as int),
    ensures
        load_outcome(entries) == Err::<TemplateView, AssetErrorKind>(
            AssetErrorKind::Preloader(FilePreloaderError::NoMainDotTyp),
        ),
{
    lemma_gather_no_main(entries, entries.len() as int);
    lemma_gather_succeeds(entries, entries.len() as int);
}

/// A bundle whose manifest is text but no valid manifest fails as malformed,
/// whatever else it holds, provided that the entries before the manifest can
/// be taken in.
pub proof fn lemma_malformed_manifest(entries: Seq<ArchiveEntry>, k: int)
    requires
        0 <= k < entries.len(),
        kind_at(entries, k) == EntryKind::Manifest,
        entries[k].text() is Some,
        manifest_of(entries[k].text()->Some_0) is None,
        entries_load(entries, k),
    ensures
        load_outcome(entries) == Err::<TemplateView, AssetErrorKind>(
            AssetErrorKind::Preloader(FilePreloaderError::MalformedPackageToml),
        ),
{
    lemma_gather_succeeds(entries, k);
    assert(gather(entries, k + 1) == Err::<Gathered, AssetErrorKind>(
        AssetErrorKind::Preloader(FilePreloaderError::MalformedPackageToml),
    ));
    lemma_gather_error(entries, k + 1, entries.len() as int);
}

/// Whatever is gathered holds no path twice among the further documents.
pub proof fn lemma_gathered_paths_are_distinct(entries: Seq<ArchiveEntry>, n: int)
    ensures
        gather(entries, n) matches Ok(state) ==> distinct_keys(state.sources),
    decreases n,
{
    if n > 0 {
        lemma_gathered_paths_are_distinct(entries, n - 1);
        match gather(entries, n - 1) {
            Ok(state) => {
                let entry = entries[n - 1];
                if let Some((name, is_file)) = entry.header {
                    let path = joined(relative_path(name, bundle_prefix(entries)));
                    if let Some(text) = entry.text() {
                        lemma_put_distinct(state.sources, path, text);
                    }
                }
            },
            Err(_) => {},
        }
    }
}

/// A template that loads holds no further document's path twice.
pub proof fn lemma_loaded_template_is_well_formed(entries: Seq<ArchiveEntry>)
    ensures
        load_outcome(entries) matches Ok(template) ==> template.well_formed(),
{
    lemma_gathered_paths_are_distinct(entries, entries.len() as int);
}

/// Once gathering has failed, it stays failed with the same error however
/// many more entries follow.
pub proof fn lemma_gather_error(entries: Seq<ArchiveEntry>, n: int, m: int)
    requires
        gather(entries, n) is Err,
        n <= m,
    ensures
        gather(entries, m) == gather(entries, n),
    decreases m - n,
{
    if n < m {
        lemma_gather_error(entries, n, m - 1);
    }
}

} // verus!
