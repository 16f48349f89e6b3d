//! Names of files the shell writes into the StemRed downloads folder, and how local music
//! files are recognized, titled and identified.
use vstd::prelude::*;

use crate::format::{decimal, decimal_text, fnv1a, hex16, stable_hash};
use crate::text::{
    lemma_text_le_reflexive, lemma_text_le_total, lemma_text_le_transitive, text_le,
    ascii_lower, ascii_lower_char, chars_of, is_control, is_control_char, opt_str, opt_text, owned,
    push_char, to_ascii_lower, trim, trim_ws,
};
use crate::update_rules::string_of;

verus! {

/// Characters that Windows does not allow in file names.
pub open spec fn forbidden_in_file_name(c: char) -> bool {
    c == '<' || c == '>' || c == ':' || c == '"' || c == '/' || c == '\\' || c == '|' || c == '?'
        || c == '*'
}

pub open spec fn file_name_char(c: char) -> char {
    if forbidden_in_file_name(c) || is_control_char(c) {
        '_'
    } else {
        c
    }
}

pub open spec fn is_dot_or_space(c: char) -> bool {
    c == '.' || c == ' '
}

/// `s` without leading and trailing dots and spaces.
pub open spec fn trim_dots_spaces(s: Seq<char>) -> Seq<char>
    decreases s.len(),
{
    if s.len() > 0 && is_dot_or_space(s[0]) {
        trim_dots_spaces(s.drop_first())
    } else if s.len() > 0 && is_dot_or_space(s.last()) {
        trim_dots_spaces(s.drop_last())
    } else {
        s
    }
}

/// The part of a file name before its last dot, when there is a dot not at its start.
pub open spec fn before_last_dot(s: Seq<char>) -> Option<Seq<char>>
    decreases s.len(),
{
    if s.len() == 0 {
        None
    } else if s.last() == '.' {
        Some(s.drop_last())
    } else {
        before_last_dot(s.drop_last())
    }
}

/// `Path::file_stem` of a single file name other than `..`.
pub open spec fn file_stem(name: Seq<char>) -> Seq<char> {
    match before_last_dot(name) {
        Some(before) => if before.len() > 0 {
            before
        } else {
            name
        },
        None => name,
    }
}

/// `Path::extension` of a single file name other than `..`.
pub open spec fn file_extension(name: Seq<char>) -> Option<Seq<char>> {
    match before_last_dot(name) {
        Some(before) => if before.len() > 0 {
            Some(name.subrange(before.len() as int + 1, name.len() as int))
        } else {
            None
        },
        None => None,
    }
}

/// Device names that Windows reserves, whatever the extension.
pub open spec fn reserved_device_names() -> Seq<Seq<char>> {
    seq![
        "con"@, "prn"@, "aux"@, "nul"@, "com1"@, "com2"@, "com3"@, "com4"@, "com5"@, "com6"@,
        "com7"@, "com8"@, "com9"@, "lpt1"@, "lpt2"@, "lpt3"@, "lpt4"@, "lpt5"@, "lpt6"@,
        "lpt7"@, "lpt8"@, "lpt9"@,
    ]
}

/// The cleaned name before the reserved-name check.
pub open spec fn cleaned_file_name(filename: Seq<char>) -> Seq<char> {
    let cleaned = trim_dots_spaces(trim_ws(filename).map_values(|c: char| file_name_char(c)));
    if cleaned.len() == 0 {
        "stem-file"@
    } else {
        cleaned
    }
}

/// A safe name for a downloaded file.
pub open spec fn sanitized_file_name(filename: Seq<char>) -> Seq<char> {
    let name = cleaned_file_name(filename);
    if reserved_device_names().contains(ascii_lower(file_stem(name))) {
        "_"@ + name
    } else {
        name
    }
}

/// Index of the last dot of `chars`, if any.
fn last_dot(chars: &Vec<char>) -> (r: Option<usize>)
    ensures
        match r {
            Some(i) => i < chars@.len() && before_last_dot(chars@) == Some(chars@.subrange(0, i as int)),
            None => before_last_dot(chars@) is None,
        },
{
    let mut end = chars.len();
    proof {
        assert(chars@.subrange(0, chars@.len() as int) =~= chars@);
    }
    while end > 0
        invariant
            end <= chars@.len(),
            before_last_dot(chars@) == before_last_dot(chars@.subrange(0, end as int)),
        decreases end,
    {
        let ghost prefix = chars@.subrange(0, end as int);
        proof {
            assert(prefix.drop_last() =~= chars@.subrange(0, end - 1));
            assert(prefix.last() == chars@[end - 1]);
        }
        if chars[end - 1] == '.' {
            return Some(end - 1);
        }
        end = end - 1;
    }
    None
}

fn stem_range(chars: &Vec<char>) -> (r: usize)
    ensures
        r <= chars@.len(),
        chars@.subrange(0, r as int) == file_stem(chars@),
{
    match last_dot(chars) {
        Some(i) => if i > 0 {
            i
        } else {
            proof {
                assert(chars@.subrange(0, chars@.len() as int) =~= chars@);
            }
            chars.len()
        },
        None => {
            proof {
                assert(chars@.subrange(0, chars@.len() as int) =~= chars@);
            }
            chars.len()
        },
    }
}

/// `Path::file_stem` of a file name.
pub fn file_stem_of(name: &str) -> (r: String)
    ensures
        r@ == file_stem(name@),
{
    let chars = chars_of(name);
    let end = stem_range(&chars);
    string_of(&chars, 0, end)
}

/// `Path::extension` of a file name.
pub fn file_extension_of(name: &str) -> (r: Option<String>)
    ensures
        opt_str(r) == file_extension(name@),
{
    let chars = chars_of(name);
    match last_dot(&chars) {
        Some(i) => if i > 0 {
            assert(i < chars.len());
            Some(string_of(&chars, i + 1, chars.len()))
        } else {
            None
        },
        None => None,
    }
}

fn lower_string(s: &str) -> (r: String)
    ensures
        r@ == ascii_lower(s@),
{
    let chars = chars_of(s);
    let mut out = String::new();
    let mut i: usize = 0;
    while i < chars.len()
        invariant
            chars@ == s@,
            i <= chars@.len(),
            out@ == ascii_lower(chars@.subrange(0, i as int)),
        decreases chars@.len() - i,
    {
        push_char(&mut out, to_ascii_lower(chars[i]));
        proof {
            assert(ascii_lower(chars@.subrange(0, i + 1)) =~= ascii_lower(chars@.subrange(0, i as int)).push(
                ascii_lower_char(chars@[i as int]),
            ));
        }
        i = i + 1;
    }
    proof {
        assert(chars@.subrange(0, chars@.len() as int) =~= chars@);
    }
    out
}

fn is_reserved_device_name(stem: &String) -> (r: bool)
    ensures
        r == reserved_device_names().contains(stem@),
{
    let names: [&str; 22] = [
        "con", "prn", "aux", "nul", "com1", "com2", "com3", "com4", "com5", "com6", "com7",
        "com8", "com9", "lpt1", "lpt2", "lpt3", "lpt4", "lpt5", "lpt6", "lpt7", "lpt8", "lpt9",
    ];
    let ghost listed = Seq::new(22, |k: int| names@[k]@);
    proof {
        assert(listed =~= reserved_device_names());
    }
    let mut i: usize = 0;
    while i < 22
        invariant
            i <= 22,
            listed == reserved_device_names(),
            forall|k: int| 0 <= k < 22 ==> #[trigger] listed[k] == names@[k]@,
            forall|k: int| 0 <= k < i ==> listed[k] != stem@,
        decreases 22 - i,
    {
        if *stem == owned(names[i]) {
            proof {
                assert(listed[i as int] == stem@);
            }
            return true;
        }
        i = i + 1;
    }
    false
}

/// Makes a file name safe to create in the downloads folder: the trimmed name with characters
/// that Windows forbids and control characters replaced by `_`, without leading or trailing
/// dots and spaces, `stem-file` when nothing is left, and prefixed with `_` when its stem is
/// a reserved device name.
pub fn sanitize_download_filename(filename: &str) -> (r: String)
    ensures
        r@ == sanitized_file_name(filename@),
{
    let chars = chars_of(trim(filename));
    let mut mapped: Vec<char> = Vec::new();
    let mut i: usize = 0;
    while i < chars.len()
        invariant
            chars@ == trim_ws(filename@),
            i <= chars@.len(),
            mapped@ == chars@.subrange(0, i as int).map_values(|c: char| file_name_char(c)),
        decreases chars@.len() - i,
    {
        let c = chars[i];
        let m = if c == '<' || c == '>' || c == ':' || c == '"' || c == '/' || c == '\\' || c
            == '|' || c == '?' || c == '*' || is_control(c) {
            '_'
        } else {
            c
        };
        mapped.push(m);
        proof {
            assert(mapped@ =~= chars@.subrange(0, i + 1).map_values(|c: char| file_name_char(c)));
        }
        i = i + 1;
    }
    proof {
        assert(chars@.subrange(0, chars@.len() as int) =~= chars@);
    }
    let mut start: usize = 0;
    proof {
        assert(mapped@.subrange(0, mapped@.len() as int) =~= mapped@);
    }
    while start < mapped.len() && (mapped[start] == '.' || mapped[start] == ' ')
        invariant
            start <= mapped@.len(),
            trim_dots_spaces(mapped@) == trim_dots_spaces(mapped@.subrange(start as int, mapped@.len() as int)),
        decreases mapped@.len() - start,
    {
        proof {
            let rest = mapped@.subrange(start as int, mapped@.len() as int);
            assert(rest.drop_first() =~= mapped@.subrange(start + 1, mapped@.len() as int));
        }
        start = start + 1;
    }
    let mut end: usize = mapped.len();
    while end > start && (mapped[end - 1] == '.' || mapped[end - 1] == ' ')
        invariant
            start <= end <= mapped@.len(),
            start == mapped@.len() || !is_dot_or_space(mapped@[start as int]),
            trim_dots_spaces(mapped@) == trim_dots_spaces(mapped@.subrange(start as int, end as int)),
        decreases end - start,
    {
        proof {
            let rest = mapped@.subrange(start as int, end as int);
            assert(rest.drop_last() =~= mapped@.subrange(start as int, end - 1));
            assert(!is_dot_or_space(rest[0]));
        }
        end = end - 1;
    }
    proof {
        let rest = mapped@.subrange(start as int, end as int);
        if rest.len() > 0 {
            assert(!is_dot_or_space(rest[0]));
            assert(!is_dot_or_space(rest.last()));
        }
    }
    let cleaned = string_of(&mapped, start, end);
    let fallback = if cleaned.as_str().is_empty() {
        owned("stem-file")
    } else {
        cleaned
    };
    let stem = lower_string(file_stem_of(fallback.as_str()).as_str());
    if is_reserved_device_name(&stem) {
        let mut prefixed = owned("_");
        prefixed.append(fallback.as_str());
        prefixed
    } else {
        fallback
    }
}

/// The name tried for the `index`-th copy of a file: `stem (index).ext`, or `stem (index)`
/// for a name without extension.
pub open spec fn numbered_name(filename: Seq<char>, index: u64) -> Seq<char> {
    let base = file_stem(filename) + " ("@ + decimal(index) + ")"@;
    match file_extension(filename) {
        Some(ext) => if ext.len() > 0 {
            base + "."@ + ext
        } else {
            base
        },
        None => base,
    }
}

proof fn lemma_before_last_dot_of_extension(stem: Seq<char>, ext: Seq<char>)
    requires
        forall|i: int| 0 <= i < ext.len() ==> ext[i] != '.',
    ensures
        before_last_dot(stem.push('.') + ext) == Some(stem),
    decreases ext.len(),
{
    let x = stem.push('.') + ext;
    if ext.len() == 0 {
        assert(x =~= stem.push('.'));
        assert(x.drop_last() =~= stem);
    } else {
        assert(x.last() == ext.last());
        assert(x.drop_last() =~= stem.push('.') + ext.drop_last());
        lemma_before_last_dot_of_extension(stem, ext.drop_last());
    }
}

/// A numbered copy keeps the file's extension: the number goes between the stem (everything
/// before the last dot) and the extension, as in `report (2).pdf`.
pub proof fn law_numbered_copy_keeps_extension(stem: Seq<char>, ext: Seq<char>, index: u64)
    requires
        stem.len() > 0,
        ext.len() > 0,
        forall|i: int| 0 <= i < ext.len() ==> ext[i] != '.',
    ensures
        numbered_name(stem + "."@ + ext, index) == stem + " ("@ + decimal(index) + ")."@ + ext,
{
    reveal_strlit(".");
    reveal_strlit(")");
    reveal_strlit(").");
    let name = stem + "."@ + ext;
    assert(name =~= stem.push('.') + ext);
    lemma_before_last_dot_of_extension(stem, ext);
    assert(name.subrange(stem.len() as int + 1, name.len() as int) =~= ext);
    assert(stem + " ("@ + decimal(index) + ")"@ + "."@ + ext =~= stem + " ("@ + decimal(index) + ")."@ + ext);
}

/// The name of the `index`-th copy of a file that already exists.
pub fn numbered_download_name(filename: &str, index: u64) -> (r: String)
    ensures
        r@ == numbered_name(filename@, index),
{
    let stem = file_stem_of(filename);
    let mut name = stem;
    name.append(" (");
    name.append(decimal_text(index).as_str());
    name.append(")");
    match file_extension_of(filename) {
        Some(ext) => if !ext.as_str().is_empty() {
            name.append(".");
            name.append(ext.as_str());
        },
        None => {},
    }
    name
}

/// The name used when every numbered copy is taken: `stem-counter`.
pub fn last_resort_download_name(filename: &str, counter: &str) -> (r: String)
    ensures
        r@ == file_stem(filename@) + "-"@ + counter@,
{
    let mut name = file_stem_of(filename);
    name.append("-");
    name.append(counter);
    name
}

/// The id of a chunked save: the start time and the hash of the target path.
pub fn download_transfer_id(now_ms: u64, target_path: &str) -> (r: String)
    ensures
        r@ == decimal(now_ms) + "-"@ + hex16(fnv1a(vstd::utf8::encode_utf8(target_path@))),
{
    let mut id = decimal_text(now_ms);
    id.append("-");
    id.append(stable_hash(target_path.as_bytes()).as_str());
    id
}

/// Where a saved file ended up.
pub struct DesktopDownloadSaveResult {
    pub filename: String,
    pub directory: String,
    pub path: String,
}

/// The result for a saved file: its own name when it has one, else the name asked for.
pub fn desktop_download_result(
    directory: &str,
    target: &str,
    target_file_name: Option<&str>,
    fallback_filename: &str,
) -> (r: DesktopDownloadSaveResult)
    ensures
        r.filename@ == match target_file_name {
            Some(name) => name@,
            None => fallback_filename@,
        },
        r.directory@ == directory@,
        r.path@ == target@,
{
    DesktopDownloadSaveResult {
        filename: match target_file_name {
            Some(name) => owned(name),
            None => owned(fallback_filename),
        },
        directory: owned(directory),
        path: owned(target),
    }
}

/// The audio formats the music player reads.
pub open spec fn music_extensions() -> Seq<Seq<char>> {
    seq!["aac"@, "flac"@, "m4a"@, "mp3"@, "ogg"@, "opus"@, "wav"@]
}

pub open spec fn is_music_file_name(name: Seq<char>) -> bool {
    match file_extension(name) {
        Some(ext) => music_extensions().contains(ascii_lower(ext)),
        None => false,
    }
}

/// Whether a file is played as music, by its extension, in any letter case.
pub fn is_desktop_music_file(file_name: &str) -> (r: bool)
    ensures
        r == is_music_file_name(file_name@),
{
    match file_extension_of(file_name) {
        None => false,
        Some(ext) => {
            let lower = lower_string(ext.as_str());
            let known: [&str; 7] = ["aac", "flac", "m4a", "mp3", "ogg", "opus", "wav"];
            let ghost listed = Seq::new(7, |k: int| known@[k]@);
            proof {
                assert(listed =~= music_extensions());
            }
            let mut i: usize = 0;
            while i < 7
                invariant
                    i <= 7,
                    listed == music_extensions(),
                    file_extension(file_name@) == Some(ext@),
                    lower@ == ascii_lower(ext@),
                    forall|k: int| 0 <= k < 7 ==> #[trigger] listed[k] == known@[k]@,
                    forall|k: int| 0 <= k < i ==> listed[k] != lower@,
                decreases 7 - i,
            {
                if lower == owned(known[i]) {
                    proof {
                        assert(listed[i as int] == lower@);
                    }
                    return true;
                }
                i = i + 1;
            }
            false
        },
    }
}

pub open spec fn music_mime(name: Seq<char>) -> Seq<char> {
    let ext = match file_extension(name) {
        Some(e) => Some(ascii_lower(e)),
        None => None,
    };
    if ext == Some("aac"@) {
        "audio/aac"@
    } else if ext == Some("flac"@) {
        "audio/flac"@
    } else if ext == Some("m4a"@) {
        "audio/mp4"@
    } else if ext == Some("ogg"@) || ext == Some("opus"@) {
        "audio/ogg"@
    } else if ext == Some("wav"@) {
        "audio/wav"@
    } else {
        "audio/mpeg"@
    }
}

fn text_is(value: &Option<String>, wanted: &str) -> (r: bool)
    ensures
        r == (opt_str(*value) == Some(wanted@)),
{
    match value {
        Some(v) => *v == owned(wanted),
        None => false,
    }
}

/// The MIME type of a music file, by its extension; MP3 when unknown.
pub fn desktop_music_mime(file_name: &str) -> (r: &'static str)
    ensures
        r@ == music_mime(file_name@),
{
    let ext = match file_extension_of(file_name) {
        Some(e) => Some(lower_string(e.as_str())),
        None => None,
    };
    if text_is(&ext, "aac") {
        "audio/aac"
    } else if text_is(&ext, "flac") {
        "audio/flac"
    } else if text_is(&ext, "m4a") {
        "audio/mp4"
    } else if text_is(&ext, "ogg") || text_is(&ext, "opus") {
        "audio/ogg"
    } else if text_is(&ext, "wav") {
        "audio/wav"
    } else {
        "audio/mpeg"
    }
}

/// The title of a track: its file name without the extension, or the whole name when that
/// would leave nothing but whitespace.
pub open spec fn music_title(filename: Seq<char>) -> Seq<char> {
    if trim_ws(file_stem(filename)).len() > 0 {
        file_stem(filename)
    } else {
        filename
    }
}

pub fn desktop_music_title(filename: &str) -> (r: String)
    ensures
        r@ == music_title(filename@),
{
    let stem = file_stem_of(filename);
    if !trim(stem.as_str()).is_empty() {
        stem
    } else {
        owned(filename)
    }
}

/// The id of a music folder: `desktop-folder:` and the hash of its path.
pub fn desktop_music_directory_id(path: &str) -> (r: String)
    ensures
        r@ == "desktop-folder:"@ + hex16(fnv1a(vstd::utf8::encode_utf8(path@))),
{
    let mut id = owned("desktop-folder:");
    id.append(stable_hash(path.as_bytes()).as_str());
    id
}

/// A music folder the user picked.
pub struct DesktopMusicDirectory {
    pub id: String,
    pub name: String,
    pub path: String,
}

/// The folder entry for a path: its id, its own name (a default name for a root) and the path.
pub fn desktop_music_directory(path: &str, folder_name: Option<&str>) -> (r: DesktopMusicDirectory)
    ensures
        r.id@ == "desktop-folder:"@ + hex16(fnv1a(vstd::utf8::encode_utf8(path@))),
        r.name@ == match folder_name {
            Some(n) => n@,
            None => "Локальная музыка"@,
        },
        r.path@ == path@,
{
    DesktopMusicDirectory {
        id: desktop_music_directory_id(path),
        name: match folder_name {
            Some(n) => owned(n),
            None => owned("Локальная музыка"),
        },
        path: owned(path),
    }
}

/// The remembered music folders after the user picks `folder`: unchanged when a folder with
/// the same path is already there, else with `folder` appended.
pub fn remember_music_folder(folders: Vec<DesktopMusicDirectory>, folder: DesktopMusicDirectory) -> (r: Vec<DesktopMusicDirectory>)
    ensures
        (exists|i: int| 0 <= i < folders@.len() && (#[trigger] folders@[i]).path@ == folder.path@)
            ==> r@ == folders@,
        !(exists|i: int| 0 <= i < folders@.len() && (#[trigger] folders@[i]).path@ == folder.path@)
            ==> r@ == folders@.push(folder),
{
    let mut i: usize = 0;
    while i < folders.len()
        invariant
            i <= folders@.len(),
            forall|k: int| 0 <= k < i ==> (#[trigger] folders@[k]).path@ != folder.path@,
        decreases folders@.len() - i,
    {
        if folders[i].path == folder.path {
            return folders;
        }
        i = i + 1;
    }
    let mut out = folders;
    out.push(folder);
    out
}

/// A music file handed to the player.
pub struct DesktopMusicFile {
    pub filename: String,
    pub mime: String,
    pub size: u64,
    pub modified_ms: u64,
    pub content_base64: String,
}

/// The player's copy of a music file: its name (`music` when it has none), MIME type, size,
/// modification time and content in standard Base64.
pub fn desktop_music_file(file_name: Option<&str>, size: u64, modified_ms: u64, bytes: &[u8]) -> (r: DesktopMusicFile)
    ensures
        r.filename@ == match file_name {
            Some(n) => n@,
            None => "music"@,
        },
        r.mime@ == music_mime(r.filename@),
        r.size == size,
        r.modified_ms == modified_ms,
        r.content_base64@ == crate::ids::base64_std_text(bytes@),
{
    let filename = match file_name {
        Some(n) => owned(n),
        None => owned("music"),
    };
    let mime = owned(desktop_music_mime(filename.as_str()));
    DesktopMusicFile {
        filename,
        mime,
        size,
        modified_ms,
        content_base64: crate::ids::encode_base64_standard(bytes),
    }
}

pub const DESKTOP_MUSIC_MAX_FILES: usize = 600;

pub const DESKTOP_MUSIC_MAX_DEPTH: usize = 4;

/// A scan stops descending below four levels and after 600 tracks.
pub fn music_scan_exhausted(depth: usize, tracks: usize) -> (r: bool)
    ensures
        r == (depth > DESKTOP_MUSIC_MAX_DEPTH || tracks >= DESKTOP_MUSIC_MAX_FILES),
{
    depth > DESKTOP_MUSIC_MAX_DEPTH || tracks >= DESKTOP_MUSIC_MAX_FILES
}

/// A track found in a music folder.
pub struct DesktopMusicTrack {
    pub id: String,
    pub title: String,
    pub filename: String,
    pub path: String,
    pub relative_path: String,
    pub mime: String,
    pub size: u64,
    pub modified_ms: u64,
}

pub open spec fn slash_char(c: char) -> char {
    if c == '\\' {
        '/'
    } else {
        c
    }
}

/// The track entry for a music file: an id made of the path's hash, the size and the
/// modification time, its title and MIME type, and its path relative to the folder with `/`
/// separators.
pub fn desktop_music_track(
    path: &str,
    filename: &str,
    relative_path: &str,
    size: u64,
    modified_ms: u64,
) -> (r: DesktopMusicTrack)
    ensures
        r.id@ == "desktop-track:"@ + hex16(fnv1a(vstd::utf8::encode_utf8(path@))) + ":"@ + decimal(
            size,
        ) + ":"@ + decimal(modified_ms),
        r.title@ == music_title(filename@),
        r.filename@ == filename@,
        r.path@ == path@,
        r.relative_path@ == relative_path@.map_values(|c: char| slash_char(c)),
        r.mime@ == music_mime(filename@),
        r.size == size,
        r.modified_ms == modified_ms,
{
    let mut id = owned("desktop-track:");
    id.append(stable_hash(path.as_bytes()).as_str());
    id.append(":");
    id.append(decimal_text(size).as_str());
    id.append(":");
    id.append(decimal_text(modified_ms).as_str());
    let chars = chars_of(relative_path);
    let mut relative = String::new();
    let mut i: usize = 0;
    while i < chars.len()
        invariant
            chars@ == relative_path@,
            i <= chars@.len(),
            relative@ == chars@.subrange(0, i as int).map_values(|c: char| slash_char(c)),
        decreases chars@.len() - i,
    {
        let c = chars[i];
        push_char(&mut relative, if c == '\\' {
            '/'
        } else {
            c
        });
        proof {
            assert(relative@ =~= chars@.subrange(0, i + 1).map_values(|c: char| slash_char(c)));
        }
        i = i + 1;
    }
    proof {
        assert(chars@.subrange(0, chars@.len() as int) =~= chars@);
    }
    DesktopMusicTrack {
        id,
        title: desktop_music_title(filename),
        filename: owned(filename),
        path: owned(path),
        relative_path: relative,
        mime: owned(desktop_music_mime(filename)),
        size,
        modified_ms,
    }
}

/// The lower-case form of `s` that `str::to_lowercase` gives (Unicode lower-casing).
pub uninterp spec fn unicode_lower(s: Seq<char>) -> Seq<char>;

/// `str::to_lowercase`.
#[verifier::external_body]
fn to_lowercase(s: &str) -> (r: String)
    ensures
        r@ == unicode_lower(s@),
{
    s.to_lowercase()
}

fn text_le_exec(a: &Vec<char>, b: &Vec<char>) -> (r: bool)
    ensures
        r == text_le(a@, b@),
{
    let mut i: usize = 0;
    proof {
        assert(a@.skip(0) =~= a@);
        assert(b@.skip(0) =~= b@);
    }
    while i < a.len() && i < b.len() && a[i] == b[i]
        invariant
            i <= a@.len(),
            i <= b@.len(),
            text_le(a@, b@) == text_le(a@.skip(i as int), b@.skip(i as int)),
        decreases a@.len() - i,
    {
        proof {
            assert(a@.skip(i as int).drop_first() =~= a@.skip(i + 1));
            assert(b@.skip(i as int).drop_first() =~= b@.skip(i + 1));
        }
        i = i + 1;
    }
    if i == a.len() {
        true
    } else if i == b.len() {
        false
    } else {
        a[i] < b[i]
    }
}

/// What a track is ordered by: its title in lower case.
pub open spec fn track_order_key(t: DesktopMusicTrack) -> Seq<char> {
    unicode_lower(t.title@)
}

pub open spec fn tracks_sorted(s: Seq<DesktopMusicTrack>) -> bool {
    forall|i: int, j: int|
        0 <= i < j < s.len() ==> text_le(track_order_key(#[trigger] s[i]), track_order_key(#[trigger] s[j]))
}

/// The tracks of `s` whose lower-case title is `k`, in their order in `s`.
pub open spec fn titled(s: Seq<DesktopMusicTrack>, k: Seq<char>) -> Seq<DesktopMusicTrack> {
    s.filter(|t: DesktopMusicTrack| track_order_key(t) == k)
}

/// Inserting `t` before tracks that all order after it adds `t` at the end of its title's
/// group and leaves the other groups as they were.
proof fn lemma_insert_keeps_groups(old: Seq<DesktopMusicTrack>, p: int, t: DesktopMusicTrack, k: Seq<char>)
    requires
        0 <= p <= old.len(),
        forall|m: int| p <= m < old.len() ==> !text_le(track_order_key(#[trigger] old[m]), track_order_key(t)),
    ensures
        titled(old.insert(p, t), k) == if track_order_key(t) == k {
            titled(old, k).push(t)
        } else {
            titled(old, k)
        },
{
    let pred = |x: DesktopMusicTrack| track_order_key(x) == k;
    let front = old.take(p);
    let back = old.skip(p);
    assert(old =~= front + back);
    assert(old.insert(p, t) =~= front + (seq![t] + back));
    Seq::filter_distributes_over_add(front, back, pred);
    Seq::filter_distributes_over_add(front, seq![t] + back, pred);
    back.lemma_filter_prepend(t, pred);
    if track_order_key(t) == k {
        lemma_text_le_reflexive(k);
        assert forall|i: int| 0 <= i < back.len() implies !#[trigger] pred(back[i]) by {
            assert(back[i] == old[p + i]);
        }
        back.lemma_all_neg_filter_empty(pred);
        assert(back.filter(pred) =~= Seq::<DesktopMusicTrack>::empty());
        assert(titled(old.insert(p, t), k) =~= titled(old, k).push(t));
    } else {
        assert(titled(old.insert(p, t), k) =~= titled(old, k));
    }
}

/// The tracks of a scan, ordered by their lower-case titles; tracks with equal titles keep the
/// order in which the scan found them.
pub fn sort_music_tracks(tracks: Vec<DesktopMusicTrack>) -> (r: Vec<DesktopMusicTrack>)
    ensures
        r@.to_multiset() == tracks@.to_multiset(),
        tracks_sorted(r@),
        forall|k: Seq<char>| #[trigger] titled(r@, k) == titled(tracks@, k),
{
    broadcast use vstd::seq_lib::group_to_multiset_ensures, vstd::multiset::group_multiset_axioms;

    let ghost scanned = tracks@;
    let mut rest = tracks;
    let mut sorted: Vec<DesktopMusicTrack> = Vec::new();
    let mut keys: Vec<Vec<char>> = Vec::new();
    proof {
        assert(sorted@.to_multiset().add(rest@.to_multiset()) =~= scanned.to_multiset());
        assert forall|k: Seq<char>| #[trigger] titled(sorted@, k) + titled(rest@, k) == titled(scanned, k) by {
            assert(titled(sorted@, k) =~= Seq::<DesktopMusicTrack>::empty()) by {
                reveal_with_fuel(Seq::filter, 1);
            }
            assert(titled(sorted@, k) + titled(rest@, k) =~= titled(scanned, k));
        }
    }
    while rest.len() > 0
        invariant
            forall|k: Seq<char>| #[trigger] titled(sorted@, k) + titled(rest@, k) == titled(scanned, k),
            keys@.len() == sorted@.len(),
            forall|k: int| 0 <= k < keys@.len() ==> #[trigger] keys@[k]@ == track_order_key(sorted@[k]),
            tracks_sorted(sorted@),
            sorted@.to_multiset().add(rest@.to_multiset()) == scanned.to_multiset(),
        decreases rest@.len(),
    {
        let ghost before_rest = rest@;
        let track = rest.remove(0);
        proof {
            assert(track == before_rest[0]);
            assert(rest@ == before_rest.remove(0));
            vstd::seq_lib::to_multiset_remove(before_rest, 0);
            assert(before_rest.contains(track)) by {
                assert(before_rest[0] == track);
            }
            vstd::seq_lib::to_multiset_contains(before_rest, track);
            assert(before_rest.to_multiset().count(track) > 0);
            assert(rest@.to_multiset().insert(track) =~= before_rest.to_multiset());
            assert(before_rest =~= seq![track] + rest@);
        }
        let key = chars_of(to_lowercase(track.title.as_str()).as_str());
        let mut p: usize = 0;
        while p < keys.len() && text_le_exec(&keys[p], &key)
            invariant
                p <= keys@.len(),
                keys@.len() == sorted@.len(),
                key@ == track_order_key(track),
                forall|k: int| 0 <= k < keys@.len() ==> #[trigger] keys@[k]@ == track_order_key(sorted@[k]),
                forall|k: int| 0 <= k < p ==> text_le(track_order_key(#[trigger] sorted@[k]), key@),
            decreases keys@.len() - p,
        {
            p = p + 1;
        }
        let ghost old_sorted = sorted@;
        proof {
            if p < keys@.len() {
                assert(!text_le(keys@[p as int]@, key@));
                lemma_text_le_total(keys@[p as int]@, key@);
                assert forall|k: int| p <= k < old_sorted.len() implies text_le(
                    key@,
                    track_order_key(#[trigger] old_sorted[k]),
                ) by {
                    if k > p {
                        assert(text_le(track_order_key(old_sorted[p as int]), track_order_key(old_sorted[k])));
                        lemma_text_le_transitive(
                            key@,
                            track_order_key(old_sorted[p as int]),
                            track_order_key(old_sorted[k]),
                        );
                    }
                }
            }
        }
        sorted.insert(p, track);
        keys.insert(p, key);
        proof {
            let s = sorted@;
            assert(s == old_sorted.insert(p as int, track));
            assert forall|i: int, j: int| 0 <= i < j < s.len() implies text_le(
                track_order_key(#[trigger] s[i]),
                track_order_key(#[trigger] s[j]),
            ) by {
                if j < p {
                    assert(s[i] == old_sorted[i] && s[j] == old_sorted[j]);
                } else if j == p {
                    assert(s[i] == old_sorted[i]);
                } else if i == p {
                    assert(s[j] == old_sorted[j - 1]);
                } else if i < p {
                    assert(s[i] == old_sorted[i] && s[j] == old_sorted[j - 1]);
                    lemma_text_le_transitive(
                        track_order_key(old_sorted[i]),
                        key@,
                        track_order_key(old_sorted[j - 1]),
                    );
                } else {
                    assert(s[i] == old_sorted[i - 1] && s[j] == old_sorted[j - 1]);
                }
            }
            assert forall|k: int| 0 <= k < keys@.len() implies #[trigger] keys@[k]@ == track_order_key(sorted@[k]) by {
                if k < p {
                } else if k == p {
                } else {
                    assert(keys@[k] == keys@.remove(p as int)[k - 1]);
                }
            }
            vstd::seq_lib::to_multiset_insert(old_sorted, p as int, track);
            assert(sorted@.to_multiset().add(rest@.to_multiset()) =~= scanned.to_multiset());
            assert forall|m: int| p <= m < old_sorted.len() implies !text_le(
                track_order_key(#[trigger] old_sorted[m]),
                track_order_key(track),
            ) by {
                if m > p && text_le(track_order_key(old_sorted[m]), key@) {
                    assert(text_le(track_order_key(old_sorted[p as int]), track_order_key(old_sorted[m])));
                    lemma_text_le_transitive(
                        track_order_key(old_sorted[p as int]),
                        track_order_key(old_sorted[m]),
                        key@,
                    );
                }
            }
            assert forall|k: Seq<char>| #[trigger] titled(sorted@, k) + titled(rest@, k) == titled(scanned, k) by {
                let pred = |x: DesktopMusicTrack| track_order_key(x) == k;
                lemma_insert_keeps_groups(old_sorted, p as int, track, k);
                rest@.lemma_filter_prepend(track, pred);
                assert(titled(old_sorted, k) + titled(before_rest, k) == titled(scanned, k));
                if track_order_key(track) == k {
                    assert(titled(sorted@, k) + titled(rest@, k) =~= titled(old_sorted, k) + titled(before_rest, k));
                } else {
                    assert(titled(sorted@, k) + titled(rest@, k) =~= titled(old_sorted, k) + titled(before_rest, k));
                }
            }
        }
    }
    proof {
        assert(rest@ =~= Seq::<DesktopMusicTrack>::empty());
        assert(rest@.to_multiset().len() == 0);
        assert(rest@.to_multiset() =~= vstd::multiset::Multiset::empty());
        assert(sorted@.to_multiset().add(rest@.to_multiset()) =~= sorted@.to_multiset());
        assert forall|k: Seq<char>| #[trigger] titled(sorted@, k) == titled(scanned, k) by {
            assert(titled(rest@, k) =~= Seq::<DesktopMusicTrack>::empty()) by {
                reveal_with_fuel(Seq::filter, 1);
            }
            assert(titled(sorted@, k) + titled(rest@, k) == titled(scanned, k));
            assert(titled(sorted@, k) + titled(rest@, k) =~= titled(sorted@, k));
        }
    }
    sorted
}

/// A scan of a music folder in progress: the tracks found so far, in the order found, and
/// whether the scan was cut short by the depth or track limit.
pub struct MusicScan {
    tracks: Vec<DesktopMusicTrack>,
    truncated: bool,
}

impl MusicScan {
    pub closed spec fn found(&self) -> Seq<DesktopMusicTrack> {
        self.tracks@
    }

    pub closed spec fn cut_short(&self) -> bool {
        self.truncated
    }

    /// A scan never holds more than the track limit.
    pub open spec fn well_formed(&self) -> bool {
        self.found().len() <= DESKTOP_MUSIC_MAX_FILES
    }

    /// Every scan is well formed: it starts empty and no step passes the limit.
    #[verifier::type_invariant]
    spec fn limit_kept(self) -> bool {
        self.well_formed()
    }

    pub fn new() -> (r: Self)
        ensures
            r.well_formed(),
            r.found() == Seq::<DesktopMusicTrack>::empty(),
            !r.cut_short(),
    {
        MusicScan { tracks: Vec::new(), truncated: false }
    }

    /// Whether a folder at `depth` below the scanned one is read: not below four levels and
    /// not once the track limit is reached; a folder that is not read cuts the scan short.
    pub fn enter_directory(&mut self, depth: usize) -> (r: bool)
        ensures
            final(self).well_formed(),
            r == !(depth > DESKTOP_MUSIC_MAX_DEPTH || old(self).found().len() >= DESKTOP_MUSIC_MAX_FILES),
            final(self).found() == old(self).found(),
            final(self).cut_short() == (old(self).cut_short() || !r),
    {
        proof {
            use_type_invariant(&*self);
        }
        if music_scan_exhausted(depth, self.tracks.len()) {
            self.truncated = true;
            false
        } else {
            true
        }
    }

    /// Whether the next entry of a folder is looked at: only below the track limit; at the
    /// limit the scan is cut short.
    pub fn room_for_entry(&mut self) -> (r: bool)
        ensures
            final(self).well_formed(),
            r == (old(self).found().len() < DESKTOP_MUSIC_MAX_FILES),
            final(self).found() == old(self).found(),
            final(self).cut_short() == (old(self).cut_short() || !r),
    {
        proof {
            use_type_invariant(&*self);
        }
        if self.tracks.len() >= DESKTOP_MUSIC_MAX_FILES {
            self.truncated = true;
            false
        } else {
            true
        }
    }

    /// Adds a track found, after the earlier ones; at the limit the track is left out and the
    /// scan is cut short.
    pub fn add_track(&mut self, track: DesktopMusicTrack)
        ensures
            final(self).well_formed(),
            old(self).found().len() < DESKTOP_MUSIC_MAX_FILES ==> final(self).found() == old(self).found().push(track)
                && final(self).cut_short() == old(self).cut_short(),
            old(self).found().len() >= DESKTOP_MUSIC_MAX_FILES ==> final(self).found() == old(self).found()
                && final(self).cut_short(),
    {
        proof {
            use_type_invariant(&*self);
        }
        if self.tracks.len() < DESKTOP_MUSIC_MAX_FILES {
            let mut tracks: Vec<DesktopMusicTrack> = Vec::new();
            std::mem::swap(&mut tracks, &mut self.tracks);
            tracks.push(track);
            self.tracks = tracks;
        } else {
            self.truncated = true;
        }
    }

    /// The tracks found, ordered by their lower-case titles (equal titles in the order found),
    /// and whether the scan was cut short.
    pub fn finish(self) -> (r: (Vec<DesktopMusicTrack>, bool))
        ensures
            r.0@.to_multiset() == self.found().to_multiset(),
            tracks_sorted(r.0@),
            forall|k: Seq<char>| #[trigger] titled(r.0@, k) == titled(self.found(), k),
            r.0@.len() <= DESKTOP_MUSIC_MAX_FILES,
            r.1 == self.cut_short(),
    {
        proof {
            use_type_invariant(&self);
        }
        let truncated = self.truncated;
        let ghost found = self.tracks@;
        let sorted = sort_music_tracks(self.tracks);
        proof {
            vstd::seq_lib::to_multiset_len(sorted@);
            vstd::seq_lib::to_multiset_len(found);
        }
        (sorted, truncated)
    }
}

pub open spec fn safe_file_name_char(c: char) -> bool {
    !forbidden_in_file_name(c) && !is_control_char(c)
}

proof fn lemma_trim_dots_spaces(s: Seq<char>)
    requires
        forall|i: int| 0 <= i < s.len() ==> safe_file_name_char(#[trigger] s[i]),
    ensures
        forall|i: int| 0 <= i < trim_dots_spaces(s).len() ==> safe_file_name_char(#[trigger] trim_dots_spaces(s)[i]),
        trim_dots_spaces(s).len() > 0 ==> !is_dot_or_space(trim_dots_spaces(s)[0]) && !is_dot_or_space(
            trim_dots_spaces(s).last(),
        ),
    decreases s.len(),
{
    if s.len() > 0 && is_dot_or_space(s[0]) {
        assert forall|i: int| 0 <= i < s.drop_first().len() implies safe_file_name_char(#[trigger] s.drop_first()[i]) by {
            assert(s.drop_first()[i] == s[i + 1]);
        }
        lemma_trim_dots_spaces(s.drop_first());
    } else if s.len() > 0 && is_dot_or_space(s.last()) {
        assert forall|i: int| 0 <= i < s.drop_last().len() implies safe_file_name_char(#[trigger] s.drop_last()[i]) by {
            assert(s.drop_last()[i] == s[i]);
        }
        lemma_trim_dots_spaces(s.drop_last());
    }
}

proof fn lemma_before_last_dot_is_prefix(s: Seq<char>)
    ensures
        before_last_dot(s) matches Some(b) ==> b.len() < s.len() && b =~= s.take(b.len() as int),
    decreases s.len(),
{
    if s.len() > 0 && s.last() != '.' {
        lemma_before_last_dot_is_prefix(s.drop_last());
    }
}

/// No reserved device name, in any letter case, has these as its first character.
proof fn lemma_reserved_names_start_with_letters()
    ensures
        forall|k: int| 0 <= k < reserved_device_names().len() ==> {
            let name = #[trigger] reserved_device_names()[k];
            &&& name.len() == 3 || name.len() == 4
            &&& name[0] != '_'
        },
{
    reveal_strlit("con");
    reveal_strlit("prn");
    reveal_strlit("aux");
    reveal_strlit("nul");
    reveal_strlit("com1");
    reveal_strlit("com2");
    reveal_strlit("com3");
    reveal_strlit("com4");
    reveal_strlit("com5");
    reveal_strlit("com6");
    reveal_strlit("com7");
    reveal_strlit("com8");
    reveal_strlit("com9");
    reveal_strlit("lpt1");
    reveal_strlit("lpt2");
    reveal_strlit("lpt3");
    reveal_strlit("lpt4");
    reveal_strlit("lpt5");
    reveal_strlit("lpt6");
    reveal_strlit("lpt7");
    reveal_strlit("lpt8");
    reveal_strlit("lpt9");
}

/// The stem of a sanitized download name is never a reserved device name, in any letter
/// case: such names get a `_` in front. A name with nothing left after cleaning becomes
/// `stem-file`.
pub proof fn law_sanitized_name_not_reserved(filename: Seq<char>)
    ensures
        !reserved_device_names().contains(ascii_lower(file_stem(sanitized_file_name(filename)))),
        trim_dots_spaces(trim_ws(filename).map_values(|c: char| file_name_char(c))).len() == 0
            ==> sanitized_file_name(filename) == "stem-file"@,
{
    lemma_reserved_names_start_with_letters();
    reveal_strlit("stem-file");
    reveal_strlit("_");
    let name = cleaned_file_name(filename);
    let stem_file = "stem-file"@;
    assert(stem_file.len() == 9);
    assert(before_last_dot(stem_file) is None) by {
        reveal_with_fuel(before_last_dot, 10);
    }
    assert(file_stem(stem_file) == stem_file);
    assert(!reserved_device_names().contains(ascii_lower(stem_file))) by {
        if reserved_device_names().contains(ascii_lower(stem_file)) {
            let k = choose|k: int| 0 <= k < reserved_device_names().len() && reserved_device_names()[k]
                == ascii_lower(stem_file);
            assert(reserved_device_names()[k].len() == 3 || reserved_device_names()[k].len() == 4);
        }
    }
    let stem = file_stem(name);
    if reserved_device_names().contains(ascii_lower(stem)) {
        let prefixed = "_"@ + name;
        assert(sanitized_file_name(filename) == prefixed);
        lemma_before_last_dot_is_prefix(prefixed);
        let pstem = file_stem(prefixed);
        assert(pstem.len() > 0 && pstem[0] == '_');
        assert(ascii_lower(pstem)[0] == '_');
        if reserved_device_names().contains(ascii_lower(pstem)) {
            let k = choose|k: int| 0 <= k < reserved_device_names().len() && reserved_device_names()[k]
                == ascii_lower(pstem);
            assert(reserved_device_names()[k][0] != '_');
        }
    }
}

/// A sanitized download name is never empty, holds no character that Windows forbids in a
/// file name and no control character, and neither starts nor ends with a dot or a space.
pub proof fn law_sanitized_name_is_safe(filename: Seq<char>)
    ensures
        sanitized_file_name(filename).len() > 0,
        forall|i: int| 0 <= i < sanitized_file_name(filename).len() ==> safe_file_name_char(
            #[trigger] sanitized_file_name(filename)[i],
        ),
        !is_dot_or_space(sanitized_file_name(filename)[0]),
        !is_dot_or_space(sanitized_file_name(filename).last()),
{
    let mapped = trim_ws(filename).map_values(|c: char| file_name_char(c));
    assert forall|i: int| 0 <= i < mapped.len() implies safe_file_name_char(#[trigger] mapped[i]) by {
        let c = trim_ws(filename)[i];
        assert(mapped[i] == file_name_char(c));
    }
    lemma_trim_dots_spaces(mapped);
    reveal_strlit("stem-file");
    reveal_strlit("_");
    let name = cleaned_file_name(filename);
    assert(name.len() > 0);
    assert(forall|i: int| 0 <= i < name.len() ==> safe_file_name_char(#[trigger] name[i]));
    assert(!is_dot_or_space(name[0]) && !is_dot_or_space(name.last()));
    let prefixed = "_"@ + name;
    assert forall|i: int| 0 <= i < prefixed.len() implies safe_file_name_char(#[trigger] prefixed[i]) by {
        if i > 0 {
            assert(prefixed[i] == name[i - 1]);
        }
    }
    assert(prefixed.last() == name.last());
}

} // verus!
