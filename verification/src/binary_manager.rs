//! Locating, choosing and checking the yt-dlp and ffmpeg binaries: reading
//! GitHub release metadata, picking the Windows asset, resolving the path to
//! run, finding the executables inside the ffmpeg archive, and comparing
//! versions.

use crate::config::{bin_dir, Config, ConfigError, BIN_DIR_NAME};
use crate::json::{items_view, lemma_items_view, member_value, parse, spec_parse, Value, ValueView};
use crate::paths::{joined_path_text, path_from_str, path_join, path_text};
use crate::text::{char_vec_views, chars_equal, lowercase_ascii, lowercase_chars, split_by, split_chars, str_to_chars, string_views, trim_str, trimmed};
use std::path::PathBuf;
use vstd::prelude::*;

verus! {

pub const YTDLP_RELEASE_API: &'static str = "https://api.github.com/repos/yt-dlp/yt-dlp/releases/latest";

pub const FFMPEG_RELEASE_API: &'static str = "https://api.github.com/repos/BtbN/FFmpeg-Builds/releases/latest";

pub const YTDLP_ASSET_NAME: &'static str = "yt-dlp.exe";

pub const YTDLP_EXE_NAME: &'static str = "yt-dlp.exe";

pub const FFMPEG_EXE_NAME: &'static str = "ffmpeg.exe";

pub const FFPROBE_EXE_NAME: &'static str = "ffprobe.exe";

pub const FFMPEG_ARCHIVE_FFMPEG_SUFFIX: &'static str = "bin/ffmpeg.exe";

pub const FFMPEG_ARCHIVE_FFPROBE_SUFFIX: &'static str = "bin/ffprobe.exe";

/// The file beside a managed binary that records the release it came from.
pub const YTDLP_VERSION_META_FILE: &'static str = "yt-dlp.version";

pub const FFMPEG_VERSION_META_FILE: &'static str = "ffmpeg.version";

/// GitHub refuses API requests without a User-Agent.
pub const GITHUB_USER_AGENT: &'static str = "featherpull";

/// What `AssetNotFound` names when no ffmpeg build fits.
pub const FFMPEG_ASSET_DESCRIPTION: &'static str = "win64向けのgpl/essentialsビルド";

#[verifier::external_type_specification]
#[verifier::external_body]
pub struct ExReqwestError(reqwest::Error);

#[verifier::external_type_specification]
#[verifier::external_body]
pub struct ExZipError(zip::result::ZipError);

/// Why a binary could not be located, fetched or unpacked.
#[derive(Debug)]
pub enum BinaryManagerError {
    Config(ConfigError),
    Http(reqwest::Error),
    Io(std::io::Error),
    Zip(zip::result::ZipError),
    InvalidJson(String),
    AssetNotFound(String),
    FileNotFoundInArchive(String),
}

/// A downloadable file of a release.
#[derive(Debug, Clone, PartialEq)]
pub struct ReleaseAsset {
    pub name: String,
    pub browser_download_url: String,
}

impl View for ReleaseAsset {
    /// The name and the download URL.
    type V = (Seq<char>, Seq<char>);

    open spec fn view(&self) -> (Seq<char>, Seq<char>) {
        (self.name@, self.browser_download_url@)
    }
}

/// A release: its tag, and the assets that carry a name and a URL.
#[derive(Debug, Clone, PartialEq)]
pub struct ReleaseInfo {
    pub tag_name: String,
    pub assets: Vec<ReleaseAsset>,
}

pub open spec fn asset_views(assets: Seq<ReleaseAsset>) -> Seq<(Seq<char>, Seq<char>)> {
    assets.map_values(|a: ReleaseAsset| a@)
}

// ---- release metadata ----

/// The member `key` of an object; nothing for any other value.
pub open spec fn object_member(v: ValueView, key: Seq<char>) -> Option<ValueView> {
    match v {
        ValueView::Object(entries) => member_value(entries, key),
        _ => None,
    }
}

/// The string member `key` of an object.
pub open spec fn string_member(v: ValueView, key: Seq<char>) -> Option<Seq<char>> {
    match object_member(v, key) {
        Some(ValueView::String(t)) => Some(t),
        _ => None,
    }
}

/// An item of `assets` that has a string `name` and a string
/// `browser_download_url`, as such a pair.
pub open spec fn release_asset_of(v: ValueView) -> Option<(Seq<char>, Seq<char>)> {
    match (string_member(v, "name"@), string_member(v, "browser_download_url"@)) {
        (Some(n), Some(u)) => Some((n, u)),
        _ => None,
    }
}

/// The assets that can be read from the items, in order; the others are skipped.
pub open spec fn release_assets_of(items: Seq<ValueView>) -> Seq<(Seq<char>, Seq<char>)>
    decreases items.len(),
{
    if items.len() == 0 {
        seq![]
    } else {
        let front = release_assets_of(items.drop_last());
        match release_asset_of(items.last()) {
            Some(a) => front.push(a),
            None => front,
        }
    }
}

pub open spec fn missing_tag_message() -> Seq<char> {
    "tag_nameフィールドがありません"@
}

pub open spec fn missing_assets_message() -> Seq<char> {
    "assetsフィールドがありません"@
}

/// The release described by `body`: its tag and its readable assets, or the
/// message of why it could not be read.
pub open spec fn spec_release_info(body: Seq<char>) -> Result<(Seq<char>, Seq<(Seq<char>, Seq<char>)>), Seq<char>> {
    match spec_parse(body) {
        Err(m) => Err(m),
        Ok(root) => match string_member(root, "tag_name"@) {
            None => Err(missing_tag_message()),
            Some(tag) => match object_member(root, "assets"@) {
                Some(ValueView::Array(items)) => Ok((tag, release_assets_of(items))),
                _ => Err(missing_assets_message()),
            },
        },
    }
}

/// The string member `key` of `v`, where `v` is an object that has one.
fn string_field(v: &Value, key: &str) -> (r: Option<String>)
    ensures
        match string_member(v@, key@) {
            Some(t) => r is Some && r->0@ == t,
            None => r is None,
        },
{
    match v.get(key) {
        Some(m) => match m.as_str() {
            Some(t) => Some(t.to_string()),
            None => None,
        },
        None => None,
    }
}

/// Reads a GitHub release (`releases/latest`) from the response body.
pub fn parse_release_info(body: &str) -> (r: Result<ReleaseInfo, BinaryManagerError>)
    ensures
        match spec_release_info(body@) {
            Ok((tag, assets)) => r is Ok && r->Ok_0.tag_name@ == tag && asset_views(r->Ok_0.assets@) == assets,
            Err(m) => r is Err && (r->Err_0 matches BinaryManagerError::InvalidJson(t) && t@ == m),
        },
{
    let root = match parse(body) {
        Ok(v) => v,
        Err(m) => {
            return Err(BinaryManagerError::InvalidJson(m));
        },
    };
    let tag_name = match string_field(&root, "tag_name") {
        Some(t) => t,
        None => {
            return Err(BinaryManagerError::InvalidJson("tag_nameフィールドがありません".to_string()));
        },
    };
    let items: &[Value] = match root.get("assets") {
        Some(v) => match v.as_array() {
            Some(items) => items,
            None => {
                return Err(BinaryManagerError::InvalidJson("assetsフィールドがありません".to_string()));
            },
        },
        None => {
            return Err(BinaryManagerError::InvalidJson("assetsフィールドがありません".to_string()));
        },
    };
    let ghost item_views = items_view(items@);
    proof {
        lemma_items_view(items@);
    }
    let mut assets: Vec<ReleaseAsset> = Vec::new();
    let n = items.len();
    let mut i: usize = 0;
    while i < n
        invariant
            i <= n == items@.len(),
            item_views == items_view(items@),
            item_views.len() == n,
            forall|k: int| 0 <= k < n ==> #[trigger] item_views[k] == items@[k]@,
            asset_views(assets@) == release_assets_of(item_views.subrange(0, i as int)),
        decreases n - i,
    {
        let item = &items[i];
        let ghost front = item_views.subrange(0, i as int);
        let ghost next = item_views.subrange(0, i + 1);
        assert(next.drop_last() =~= front);
        assert(next.last() == item@);
        let ghost before = assets@;
        match string_field(item, "name") {
            Some(name) => match string_field(item, "browser_download_url") {
                Some(url) => {
                    assets.push(ReleaseAsset { name, browser_download_url: url });
                    assert(asset_views(assets@) =~= asset_views(before).push(assets@.last()@));
                },
                None => {},
            },
            None => {},
        }
        i = i + 1;
    }
    assert(item_views.subrange(0, n as int) =~= item_views);
    Ok(ReleaseInfo { tag_name, assets })
}

// ---- choosing an asset ----

/// The yt-dlp asset is the single Windows executable, named exactly `yt-dlp.exe`.
pub open spec fn is_ytdlp_asset_name(name: Seq<char>) -> bool {
    name == YTDLP_ASSET_NAME@
}

/// `i` is the first index whose asset is the yt-dlp executable.
pub open spec fn first_ytdlp_asset(assets: Seq<ReleaseAsset>, i: int) -> bool {
    &&& 0 <= i < assets.len()
    &&& is_ytdlp_asset_name(assets[i].name@)
    &&& forall|j: int| 0 <= j < i ==> !is_ytdlp_asset_name(#[trigger] assets[j].name@)
}

/// Whether `a` and `b` are the same text.
fn same_text(a: &str, b: &str) -> (r: bool)
    ensures
        r == (a@ == b@),
{
    let ca = str_to_chars(a);
    let cb = str_to_chars(b);
    chars_equal(ca.as_slice(), cb.as_slice())
}

/// The first asset named exactly `yt-dlp.exe`.
pub fn select_ytdlp_asset(assets: &[ReleaseAsset]) -> (r: Option<&ReleaseAsset>)
    ensures
        match r {
            Some(a) => exists|i: int| first_ytdlp_asset(assets@, i) && assets@[i] == *a,
            None => forall|j: int| 0 <= j < assets@.len() ==> !is_ytdlp_asset_name(#[trigger] assets@[j].name@),
        },
{
    let n = assets.len();
    let mut i: usize = 0;
    while i < n
        invariant
            i <= n == assets@.len(),
            forall|j: int| 0 <= j < i ==> !is_ytdlp_asset_name(#[trigger] assets@[j].name@),
        decreases n - i,
    {
        if same_text(assets[i].name.as_str(), YTDLP_ASSET_NAME) {
            assert(first_ytdlp_asset(assets@, i as int));
            return Some(&assets[i]);
        }
        i = i + 1;
    }
    None
}

/// The separators between the words of an ffmpeg build's file name.
pub open spec fn name_separators() -> Seq<char> {
    seq!['-', '_', '.']
}

/// The words of a lowercased `.zip` name without its extension; nothing for
/// any other name.
pub open spec fn zip_name_words(name: Seq<char>) -> Option<Seq<Seq<char>>> {
    let lower = lowercase_ascii(name);
    if lower.len() >= 4 && lower.subrange(lower.len() - 4, lower.len() as int) == ".zip"@ {
        Some(split_by(lower.subrange(0, lower.len() - 4), name_separators()))
    } else {
        None
    }
}

/// A Windows 64-bit static ffmpeg build: a `.zip` whose name has the word
/// `win64`, `gpl` or `essentials`, and not `shared`.
pub open spec fn is_ffmpeg_win64_name(name: Seq<char>) -> bool {
    match zip_name_words(name) {
        Some(words) => words.contains("win64"@) && (words.contains("gpl"@) || words.contains("essentials"@))
            && !words.contains("shared"@),
        None => false,
    }
}

/// `i` is the first index whose asset is a Windows 64-bit static ffmpeg build.
pub open spec fn first_ffmpeg_asset(assets: Seq<ReleaseAsset>, i: int) -> bool {
    &&& 0 <= i < assets.len()
    &&& is_ffmpeg_win64_name(assets[i].name@)
    &&& forall|j: int| 0 <= j < i ==> !is_ffmpeg_win64_name(#[trigger] assets[j].name@)
}

/// Whether one of `words` is `w`.
fn has_word(words: &Vec<Vec<char>>, w: &str) -> (r: bool)
    ensures
        r == char_vec_views(words@).contains(w@),
{
    let target = str_to_chars(w);
    let ghost views = char_vec_views(words@);
    let n = words.len();
    let mut i: usize = 0;
    while i < n
        invariant
            i <= n == words@.len(),
            views == char_vec_views(words@),
            target@ == w@,
            forall|k: int| 0 <= k < i ==> views[k] != w@,
        decreases n - i,
    {
        if chars_equal(words[i].as_slice(), target.as_slice()) {
            assert(views[i as int] == w@);
            return true;
        }
        i = i + 1;
    }
    false
}

/// Whether `name` is a Windows 64-bit static ffmpeg build (see `is_ffmpeg_win64_name`).
pub fn is_ffmpeg_win64_asset(name: &str) -> (r: bool)
    ensures
        r == is_ffmpeg_win64_name(name@),
{
    let lower = lowercase_chars(str_to_chars(name).as_slice());
    let n = lower.len();
    if n < 4 {
        return false;
    }
    let tail = crate::flat_json::copy_range(&lower, n - 4, n);
    let zip = str_to_chars(".zip");
    if !chars_equal(tail.as_slice(), zip.as_slice()) {
        return false;
    }
    let stem = crate::flat_json::copy_range(&lower, 0, n - 4);
    let seps: Vec<char> = vec!['-', '_', '.'];
    assert(seps@ =~= name_separators());
    let words = split_chars(stem.as_slice(), seps.as_slice());
    has_word(&words, "win64") && (has_word(&words, "gpl") || has_word(&words, "essentials")) && !has_word(
        &words,
        "shared",
    )
}

/// The first asset that is a Windows 64-bit static ffmpeg build.
pub fn select_ffmpeg_asset(assets: &[ReleaseAsset]) -> (r: Option<&ReleaseAsset>)
    ensures
        match r {
            Some(a) => exists|i: int| first_ffmpeg_asset(assets@, i) && assets@[i] == *a,
            None => forall|j: int| 0 <= j < assets@.len() ==> !is_ffmpeg_win64_name(#[trigger] assets@[j].name@),
        },
{
    let n = assets.len();
    let mut i: usize = 0;
    while i < n
        invariant
            i <= n == assets@.len(),
            forall|j: int| 0 <= j < i ==> !is_ffmpeg_win64_name(#[trigger] assets@[j].name@),
        decreases n - i,
    {
        if is_ffmpeg_win64_asset(assets[i].name.as_str()) {
            assert(first_ffmpeg_asset(assets@, i as int));
            return Some(&assets[i]);
        }
        i = i + 1;
    }
    None
}

// ---- where the binaries are ----

/// `name` inside the directory of the managed binaries (`bin` inside some
/// settings directory).
pub open spec fn is_managed_binary_path(p: PathBuf, name: Seq<char>) -> bool {
    exists|root: Seq<char>| path_text(p) == joined_path_text(joined_path_text(root, BIN_DIR_NAME@), name)
}

/// The binary to run: the custom path where one is set, else `auto_managed_file_name`
/// inside the managed `bin` directory.
pub fn resolve_binary_path(custom_path: &str, auto_managed_file_name: &str) -> (r: Result<PathBuf, BinaryManagerError>)
    ensures
        custom_path@.len() > 0 ==> r is Ok && path_text(r->Ok_0) == custom_path@,
        custom_path@.len() == 0 ==> match r {
            Ok(p) => is_managed_binary_path(p, auto_managed_file_name@),
            Err(e) => e matches BinaryManagerError::Config(c) && c is ProjectDirsUnavailable,
        },
{
    if custom_path.is_empty() {
        let dir = match bin_dir() {
            Ok(d) => d,
            Err(e) => {
                return Err(BinaryManagerError::Config(e));
            },
        };
        let p = path_join(&dir, auto_managed_file_name);
        proof {
            let root = choose|root: Seq<char>| path_text(dir) == joined_path_text(root, BIN_DIR_NAME@);
            assert(path_text(p) == joined_path_text(joined_path_text(root, BIN_DIR_NAME@), auto_managed_file_name@));
        }
        Ok(p)
    } else {
        Ok(path_from_str(custom_path))
    }
}

/// The yt-dlp executable to run under `config`.
pub fn resolve_ytdlp_path(config: &Config) -> (r: Result<PathBuf, BinaryManagerError>)
    ensures
        config.binaries.ytdlp_path@.len() > 0 ==> r is Ok && path_text(r->Ok_0) == config.binaries.ytdlp_path@,
        config.binaries.ytdlp_path@.len() == 0 ==> match r {
            Ok(p) => is_managed_binary_path(p, YTDLP_EXE_NAME@),
            Err(e) => e matches BinaryManagerError::Config(c) && c is ProjectDirsUnavailable,
        },
{
    resolve_binary_path(config.binaries.ytdlp_path.as_str(), YTDLP_EXE_NAME)
}

/// The ffmpeg executable to run under `config`.
pub fn resolve_ffmpeg_path(config: &Config) -> (r: Result<PathBuf, BinaryManagerError>)
    ensures
        config.binaries.ffmpeg_path@.len() > 0 ==> r is Ok && path_text(r->Ok_0) == config.binaries.ffmpeg_path@,
        config.binaries.ffmpeg_path@.len() == 0 ==> match r {
            Ok(p) => is_managed_binary_path(p, FFMPEG_EXE_NAME@),
            Err(e) => e matches BinaryManagerError::Config(c) && c is ProjectDirsUnavailable,
        },
{
    resolve_binary_path(config.binaries.ffmpeg_path.as_str(), FFMPEG_EXE_NAME)
}

// ---- versions ----

/// How the recorded version of a binary compares with the latest release.
#[derive(Debug, Clone, PartialEq, Eq)]
pub enum VersionCheckResult {
    UpToDate,
    UpdateAvailable { current: String, latest: String },
    NotInstalled { latest: String },
}

pub enum VersionCheckView {
    UpToDate,
    UpdateAvailable { current: Seq<char>, latest: Seq<char> },
    NotInstalled { latest: Seq<char> },
}

impl View for VersionCheckResult {
    type V = VersionCheckView;

    open spec fn view(&self) -> VersionCheckView {
        match self {
            VersionCheckResult::UpToDate => VersionCheckView::UpToDate,
            VersionCheckResult::UpdateAvailable { current, latest } => VersionCheckView::UpdateAvailable {
                current: current@,
                latest: latest@,
            },
            VersionCheckResult::NotInstalled { latest } => VersionCheckView::NotInstalled { latest: latest@ },
        }
    }
}

/// The comparison: no recorded version means not installed; otherwise the
/// versions are compared as text, and any difference counts as an update.
pub open spec fn spec_check_for_update(current: Option<Seq<char>>, latest: Seq<char>) -> VersionCheckView {
    match current {
        None => VersionCheckView::NotInstalled { latest },
        Some(c) => if c == latest {
            VersionCheckView::UpToDate
        } else {
            VersionCheckView::UpdateAvailable { current: c, latest }
        },
    }
}

pub open spec fn opt_str_view(s: Option<&str>) -> Option<Seq<char>> {
    match s {
        Some(t) => Some(t@),
        None => None,
    }
}

/// Compares the recorded version `current` with the latest release's tag.
pub fn check_for_update(current: Option<&str>, latest: &str) -> (r: VersionCheckResult)
    ensures
        r@ == spec_check_for_update(opt_str_view(current), latest@),
{
    match current {
        None => VersionCheckResult::NotInstalled { latest: latest.to_string() },
        Some(c) => {
            let a = c.to_string();
            let b = latest.to_string();
            if a == b {
                VersionCheckResult::UpToDate
            } else {
                VersionCheckResult::UpdateAvailable { current: a, latest: b }
            }
        },
    }
}

/// The version recorded in a version file's text: the text without the white
/// space around it.
pub fn version_from_meta(content: &str) -> (v: String)
    ensures
        v@ == trimmed(content@),
{
    trim_str(content)
}

// ---- the ffmpeg archive ----

/// The names of the entries of a zip archive, in the order of its central
/// directory, as `ZipArchive::new` and then `file_names` list them; `None`
/// where `ZipArchive::new` cannot read the bytes as an archive.
pub uninterp spec fn zip_entry_names(bytes: Seq<u8>) -> Option<Seq<Seq<char>>>;

/// Opens the bytes with `zip::ZipArchive::new` over a `Cursor` and lists the
/// entry names with `ZipArchive::file_names`. The contract claims that the
/// listing is the one named by `zip_entry_names`, and that the error comes
/// exactly where that name has no listing.
#[verifier::external_body]
fn archive_entry_names(zip_bytes: &[u8]) -> (r: Result<Vec<String>, zip::result::ZipError>)
    ensures
        match zip_entry_names(zip_bytes@) {
            Some(names) => r is Ok && string_views(r->Ok_0@) == names,
            None => r is Err,
        },
{
    let archive = zip::ZipArchive::new(std::io::Cursor::new(zip_bytes))?;
    Ok(archive.file_names().map(|name| name.to_string()).collect())
}

/// The name with each `\` turned into `/`.
pub open spec fn with_forward_slashes(name: Seq<char>) -> Seq<char> {
    name.map_values(|c: char| if c == '\\' { '/' } else { c })
}

/// `str::ends_with`.
pub open spec fn ends_with(s: Seq<char>, suffix: Seq<char>) -> bool {
    suffix.len() <= s.len() && s.subrange(s.len() - suffix.len(), s.len() as int) == suffix
}

/// The first index from `i` on whose name, with forward slashes, ends with `suffix`.
pub open spec fn entry_index_from(names: Seq<Seq<char>>, suffix: Seq<char>, i: int) -> Option<int>
    decreases names.len() - i,
{
    if i < 0 || i >= names.len() {
        None
    } else if ends_with(with_forward_slashes(names[i]), suffix) {
        Some(i)
    } else {
        entry_index_from(names, suffix, i + 1)
    }
}

fn forward_slashes(s: &[char]) -> (t: Vec<char>)
    ensures
        t@ == with_forward_slashes(s@),
{
    let mut t: Vec<char> = Vec::new();
    let n = s.len();
    for i in 0..n
        invariant
            n == s@.len(),
            t@ == with_forward_slashes(s@.subrange(0, i as int)),
    {
        let c = if s[i] == '\\' { '/' } else { s[i] };
        t.push(c);
        assert(with_forward_slashes(s@.subrange(0, i + 1)) =~= with_forward_slashes(s@.subrange(0, i as int)).push(c));
    }
    assert(s@.subrange(0, n as int) =~= s@);
    t
}

fn chars_end_with(s: &Vec<char>, suffix: &Vec<char>) -> (r: bool)
    ensures
        r == ends_with(s@, suffix@),
{
    if suffix.len() > s.len() {
        return false;
    }
    let tail = crate::flat_json::copy_range(s, s.len() - suffix.len(), s.len());
    chars_equal(tail.as_slice(), suffix.as_slice())
}

/// The index of the first entry whose name, with `\` read as `/`, ends with
/// `suffix`.
pub fn find_entry_by_suffix(names: &Vec<String>, suffix: &str) -> (r: Option<usize>)
    ensures
        match entry_index_from(string_views(names@), suffix@, 0) {
            Some(i) => r == Some(i as usize),
            None => r is None,
        },
{
    let wanted = str_to_chars(suffix);
    let ghost views = string_views(names@);
    let n = names.len();
    let mut i: usize = 0;
    while i < n
        invariant
            i <= n == names@.len(),
            views == string_views(names@),
            wanted@ == suffix@,
            entry_index_from(views, suffix@, 0) == entry_index_from(views, suffix@, i as int),
        decreases n - i,
    {
        let name = str_to_chars(names[i].as_str());
        let normalized = forward_slashes(name.as_slice());
        assert(views[i as int] == names@[i as int]@);
        if chars_end_with(&normalized, &wanted) {
            return Some(i);
        }
        i = i + 1;
    }
    None
}

/// The index of the archive entry whose name ends with `suffix`:
/// `Zip` where the bytes are no readable archive, `FileNotFoundInArchive`
/// where no entry fits.
pub fn locate_archive_entry(zip_bytes: &[u8], suffix: &str) -> (r: Result<usize, BinaryManagerError>)
    ensures
        match zip_entry_names(zip_bytes@) {
            None => r is Err && r->Err_0 is Zip,
            Some(names) => match entry_index_from(names, suffix@, 0) {
                Some(i) => r == Ok::<usize, BinaryManagerError>(i as usize),
                None => r is Err && (r->Err_0 matches BinaryManagerError::FileNotFoundInArchive(s) && s@ == suffix@),
            },
        },
{
    let names = match archive_entry_names(zip_bytes) {
        Ok(names) => names,
        Err(e) => {
            return Err(BinaryManagerError::Zip(e));
        },
    };
    match find_entry_by_suffix(&names, suffix) {
        Some(i) => Ok(i),
        None => Err(BinaryManagerError::FileNotFoundInArchive(suffix.to_string())),
    }
}

// ---- what to download ----

/// The asset to download for yt-dlp, or `AssetNotFound` naming `yt-dlp.exe`.
pub fn require_ytdlp_asset(release: &ReleaseInfo) -> (r: Result<&ReleaseAsset, BinaryManagerError>)
    ensures
        match r {
            Ok(a) => exists|i: int| first_ytdlp_asset(release.assets@, i) && release.assets@[i] == *a,
            Err(e) => (e matches BinaryManagerError::AssetNotFound(s) && s@ == YTDLP_ASSET_NAME@)
                && forall|j: int| 0 <= j < release.assets@.len() ==> !is_ytdlp_asset_name(#[trigger] release.assets@[j].name@),
        },
{
    match select_ytdlp_asset(release.assets.as_slice()) {
        Some(a) => Ok(a),
        None => Err(BinaryManagerError::AssetNotFound(YTDLP_ASSET_NAME.to_string())),
    }
}

/// The asset to download for ffmpeg, or `AssetNotFound` describing the build sought.
pub fn require_ffmpeg_asset(release: &ReleaseInfo) -> (r: Result<&ReleaseAsset, BinaryManagerError>)
    ensures
        match r {
            Ok(a) => exists|i: int| first_ffmpeg_asset(release.assets@, i) && release.assets@[i] == *a,
            Err(e) => (e matches BinaryManagerError::AssetNotFound(s) && s@ == FFMPEG_ASSET_DESCRIPTION@)
                && forall|j: int| 0 <= j < release.assets@.len() ==> !is_ffmpeg_win64_name(#[trigger] release.assets@[j].name@),
        },
{
    match select_ffmpeg_asset(release.assets.as_slice()) {
        Some(a) => Ok(a),
        None => Err(BinaryManagerError::AssetNotFound(FFMPEG_ASSET_DESCRIPTION.to_string())),
    }
}

} // verus!
