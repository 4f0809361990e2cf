use vstd::prelude::*;
use vstd::string::StringExecFns;

use select::predicate::{And, Attr, Name};

use crate::error::AssetError;

verus! {

/// The two kinds of asset a card's back carries.
#[derive(Clone, Copy, Debug, PartialEq, Eq, Structural)]
pub enum AssetKind {
    Audio,
    Image,
}

/// The directory under the asset root that holds one kind.
pub open spec fn kind_dir(kind: AssetKind) -> Seq<char> {
    match kind {
        AssetKind::Audio => "audio"@,
        AssetKind::Image => "images"@,
    }
}

/// The file extension of one kind.
pub open spec fn kind_ext(kind: AssetKind) -> Seq<char> {
    match kind {
        AssetKind::Audio => ".mp3"@,
        AssetKind::Image => ".jpg"@,
    }
}

/// Where an asset is cached, relative to the asset root:
/// `<kind>/<language>/<key>.<ext>`.
pub open spec fn asset_path(kind: AssetKind, abbr: Seq<char>, key: Seq<char>) -> Seq<char> {
    kind_dir(kind) + "/"@ + abbr + "/"@ + key + kind_ext(kind)
}

/// What sanitising a word gives: a file-name-safe token.
pub uninterp spec fn sanitized_of(word: Seq<char>) -> Seq<char>;

/// A character that sanitising keeps: not one of `/ ? < > \ : * | "` and not a
/// control character.
pub open spec fn file_name_char(c: char) -> bool {
    &&& c != '/' && c != '?' && c != '<' && c != '>' && c != '\\' && c != ':' && c != '*'
        && c != '|' && c != '"'
    &&& !((c as u32) <= 0x1f) && !(0x80 <= (c as u32) <= 0x9f)
}

/// A word that sanitising leaves as it is: only kept characters, not made of
/// dots alone, and short enough (63 characters are at most 252 bytes) not to
/// be truncated.
pub open spec fn file_name_safe(word: Seq<char>) -> bool {
    &&& word.len() <= 63
    &&& forall|i: int| 0 <= i < word.len() ==> file_name_char(#[trigger] word[i])
    &&& !(word.len() > 0 && forall|i: int| 0 <= i < word.len() ==> #[trigger] word[i] == '.')
}

/// Relies on `sanitize_filename::sanitize_with_options` with the non-Windows
/// rules, truncation at 255 bytes and an empty replacement: the result
/// depends on the word alone; `/`, being illegal in file names, is removed;
/// and a word with nothing to remove or truncate is kept as it is.
#[verifier::external_body]
fn sanitize_word(word: &str) -> (r: String)
    ensures
        r@ == sanitized_of(word@),
        forall|i: int| 0 <= i < r@.len() ==> r@[i] != '/',
        file_name_safe(word@) ==> r@ == word@,
{
    sanitize_filename::sanitize_with_options(
        word,
        sanitize_filename::Options { windows: false, truncate: true, replacement: "" },
    )
}

/// The storage key of a word: its sanitised form.
pub fn storage_key(word: &str) -> (r: String)
    ensures
        r@ == sanitized_of(word@),
        forall|i: int| 0 <= i < r@.len() ==> r@[i] != '/',
        file_name_safe(word@) ==> r@ == word@,
{
    sanitize_word(word)
}

/// The path, relative to the asset root, where the asset of a word with this
/// storage key is cached.
pub fn relative_path(kind: AssetKind, abbr: &str, key: &str) -> (r: String)
    ensures
        r@ == asset_path(kind, abbr@, key@),
{
    let mut p = String::new();
    match kind {
        AssetKind::Audio => p.append("audio"),
        AssetKind::Image => p.append("images"),
    }
    p.append("/");
    p.append(abbr);
    p.append("/");
    p.append(key);
    match kind {
        AssetKind::Audio => p.append(".mp3"),
        AssetKind::Image => p.append(".jpg"),
    }
    p
}

/// The text-to-speech URL of a term in a language.
pub uninterp spec fn tts_url_of(term: Seq<char>, language: Seq<char>) -> Seq<char>;

/// Relies on `google_translate_tts::url`: the URL of the spoken term, which
/// depends on the term and the language alone.
#[verifier::external_body]
fn tts_url(term: &str, language: &str) -> (r: String)
    ensures
        r@ == tts_url_of(term@, language@),
{
    google_translate_tts::url(term, language)
}

/// The `src` of the first `<img alt="">` of a page that has one.
pub uninterp spec fn first_image_src_of(html: Seq<char>) -> Option<Seq<char>>;

/// Relies on `select`: parses the page and takes the `src` attribute of the
/// first `img` element whose `alt` is empty and that has a `src`. The
/// result depends on the page alone.
#[verifier::external_body]
fn first_image_src(html: &str) -> (r: Option<String>)
    ensures
        r.is_some() == first_image_src_of(html@).is_some(),
        r.is_some() ==> r.unwrap()@ == first_image_src_of(html@).unwrap(),
{
    select::document::Document::from(html)
        .find(And(Attr("alt", ""), Name("img")))
        .filter_map(|n| n.attr("src"))
        .next()
        .map(|s| s.to_string())
}

/// The image search query for a word, restricted to JPEG files.
pub open spec fn search_url_of(word: Seq<char>) -> Seq<char> {
    "https://www.google.com/search?q="@ + word + "&tbm=isch&tbs=ift:jpg"@
}

/// Where the asset of a word is fetched from when it is not cached yet:
/// the spoken word for audio, an image search for images.
pub open spec fn source_url_of(kind: AssetKind, abbr: Seq<char>, word: Seq<char>) -> Seq<char> {
    match kind {
        AssetKind::Audio => tts_url_of(word, abbr),
        AssetKind::Image => search_url_of(word),
    }
}

/// What to do once it is known whether the cached file exists.
#[derive(Debug)]
pub enum CacheStep {
    /// The file is there: use this path, with no network request.
    Hit(String),
    /// The file is missing: fetch from this URL.
    Fetch(String),
}

/// One asset to resolve: its kind, the language it is in, the word, and the
/// word's storage key.
#[derive(Debug)]
pub struct AssetJob {
    pub kind: AssetKind,
    pub abbr: String,
    pub word: String,
    pub key: String,
}

impl AssetJob {
    /// The job's key is the storage key of its word, so that its path depends
    /// on the kind, the language and the word alone.
    pub open spec fn wf(&self) -> bool {
        self.key@ == sanitized_of(self.word@)
    }

    pub fn new(kind: AssetKind, abbr: String, word: String) -> (r: AssetJob)
        ensures
            r.wf(),
            r.kind == kind,
            r.abbr == abbr,
            r.word == word,
            r.key@ == sanitized_of(word@),
    {
        let key = storage_key(word.as_str());
        AssetJob { kind, abbr, word, key }
    }

    /// The path, relative to the asset root, of the cached file; it depends
    /// on the kind, the language and the word alone.
    pub fn path(&self) -> (r: String)
        ensures
            r@ == asset_path(self.kind, self.abbr@, self.key@),
            self.wf() ==> r@ == asset_path(self.kind, self.abbr@, sanitized_of(self.word@)),
    {
        relative_path(self.kind, self.abbr.as_str(), self.key.as_str())
    }

    /// The directory, relative to the asset root, that holds the file.
    pub fn directory(&self) -> (r: String)
        ensures
            r@ == kind_dir(self.kind) + "/"@ + self.abbr@,
    {
        let mut d = String::new();
        match self.kind {
            AssetKind::Audio => d.append("audio"),
            AssetKind::Image => d.append("images"),
        }
        d.append("/");
        d.append(self.abbr.as_str());
        d
    }

    /// Where to fetch the asset from when it is not cached.
    pub fn source_url(&self) -> (r: String)
        ensures
            r@ == source_url_of(self.kind, self.abbr@, self.word@),
    {
        match self.kind {
            AssetKind::Audio => tts_url(self.word.as_str(), self.abbr.as_str()),
            AssetKind::Image => {
                let mut u = String::new();
                u.append("https://www.google.com/search?q=");
                u.append(self.word.as_str());
                u.append("&tbm=isch&tbs=ift:jpg");
                u
            },
        }
    }

    /// The cache-aside decision: a file that exists is used as it is and
    /// never fetched or overwritten; a missing one is fetched from its
    /// source.
    pub fn on_cache_check(&self, exists: bool) -> (r: CacheStep)
        ensures
            exists ==> r is Hit && r->Hit_0@ == asset_path(self.kind, self.abbr@, self.key@),
            exists && self.wf() ==> r->Hit_0@ == asset_path(
                self.kind,
                self.abbr@,
                sanitized_of(self.word@),
            ),
            !exists ==> r is Fetch && r->Fetch_0@ == source_url_of(
                self.kind,
                self.abbr@,
                self.word@,
            ),
    {
        if exists {
            CacheStep::Hit(self.path())
        } else {
            CacheStep::Fetch(self.source_url())
        }
    }

    /// Reads the image search page: the URL of the first image, or
    /// `NoResult` when the page shows none.
    pub fn on_search_page(&self, html: &str) -> (r: Result<String, AssetError>)
        ensures
            first_image_src_of(html@).is_some() ==> r.is_ok() && r.unwrap()@
                == first_image_src_of(html@).unwrap(),
            first_image_src_of(html@).is_none() ==> r == Err::<String, AssetError>(
                AssetError::NoResult,
            ),
    {
        match first_image_src(html) {
            Some(src) => Ok(src),
            None => Err(AssetError::NoResult),
        }
    }
}

} // verus!
