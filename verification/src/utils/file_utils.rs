use crate::utils::text::{
    alphanumeric, lowercase, lowered, same_text, strip_leading_dots, to_lowercase,
    without_leading_dots,
};
use vstd::prelude::*;

verus! {

/// The extension that `std::path::Path::extension` finds in `path`.
pub uninterp spec fn path_extension(path: Seq<char>) -> Option<Seq<char>>;

/// The file stem that `std::path::Path::file_stem` finds in `path`.
pub uninterp spec fn path_file_stem(path: Seq<char>) -> Option<Seq<char>>;

/// The parent that `std::path::Path::parent` finds for `path`.
pub uninterp spec fn path_parent(path: Seq<char>) -> Option<Seq<char>>;

/// The final component that `std::path::Path::file_name` finds in `path`.
pub uninterp spec fn path_file_name(path: Seq<char>) -> Option<Seq<char>>;

/// The path that `std::path::Path::join` makes of `directory` and `name`.
pub uninterp spec fn path_join(directory: Seq<char>, name: Seq<char>) -> Seq<char>;

/// The characters of an optional text.
pub open spec fn text_of(text: Option<String>) -> Option<Seq<char>> {
    match text {
        Some(t) => Some(t@),
        None => None,
    }
}

/// The characters of which plain names are made: letters, digits, `_`, `-`,
/// `~` and dots.
pub open spec fn name_character(c: char) -> bool {
    alphanumeric(c) || c == '_' || c == '-' || c == '~' || c == '.'
}

/// A path that is a single file name and nothing more, such as
/// `video.mp4`: characters of names, not beginning with a dot.
pub open spec fn single_name(path: Seq<char>) -> bool {
    &&& path.len() > 0
    &&& path[0] != '.'
    &&& forall|i: int| 0 <= i < path.len() ==> name_character(#[trigger] path[i])
}

/// The index of the last `c` in `text`, or `-1` if it holds none.
pub open spec fn last_position(text: Seq<char>, c: char) -> int
    decreases text.len(),
{
    if text.len() == 0 {
        -1
    } else if text.last() == c {
        text.len() - 1
    } else {
        last_position(text.drop_last(), c)
    }
}

/// The index of the last dot in `name`, or `-1` if it holds none.
pub open spec fn last_dot(name: Seq<char>) -> int {
    last_position(name, '.')
}

/// The index of the last slash in `path`, or `-1` if it holds none.
pub open spec fn last_slash(path: Seq<char>) -> int {
    last_position(path, '/')
}

/// What follows the last dot of a file name, if it holds a dot.
pub open spec fn name_extension(name: Seq<char>) -> Option<Seq<char>> {
    if last_dot(name) < 0 {
        None
    } else {
        Some(name.skip(last_dot(name) + 1))
    }
}

/// What stands before the last dot of a file name, or all of it if it holds
/// no dot.
pub open spec fn name_stem(name: Seq<char>) -> Seq<char> {
    if last_dot(name) < 0 {
        name
    } else {
        name.take(last_dot(name))
    }
}

/// What follows the last slash of `path`, or all of it if it holds no slash.
pub open spec fn file_part(path: Seq<char>) -> Seq<char> {
    path.skip(last_slash(path) + 1)
}

/// What stands before the last slash of `path`: nothing if it holds no
/// slash, and the slash itself if nothing stands before it.
pub open spec fn directory_part(path: Seq<char>) -> Seq<char> {
    if last_slash(path) < 0 {
        Seq::empty()
    } else if last_slash(path) == 0 {
        path.take(1)
    } else {
        path.take(last_slash(path))
    }
}

/// A path such as `video.mp4`, `dir/video.mp4` or `/tmp/a/video.mp4`: single
/// names with one slash between each two, and at most one slash before the
/// first.
pub open spec fn plain_path(path: Seq<char>) -> bool
    decreases path.len(),
{
    &&& single_name(file_part(path))
    &&& last_slash(path) <= 0 || {
        proof {
            lemma_last_position(path, '/');
        }
        plain_path(path.take(last_slash(path)))
    }
}

/// Calls `std::path::Path::extension` on `path`, whose result depends on
/// the text of the path alone. The standard library documents the extension
/// of a file name that does not begin with a dot: none if the name holds no
/// dot, and else what follows its last dot. The contract says so of a plain
/// path, whose file name is its last name, and nothing of any other path.
#[verifier::external_body]
fn std_extension(path: &str) -> (found: Option<String>)
    ensures
        text_of(found) == path_extension(path@),
        plain_path(path@) ==> text_of(found) == name_extension(file_part(path@)),
{
    match std::path::Path::new(path).extension() {
        Some(part) => Some(part.to_string_lossy().into_owned()),
        None => None,
    }
}

/// Calls `std::path::Path::file_stem` on `path`, whose result depends on
/// the text of the path alone. The standard library documents the stem of a
/// file name that does not begin with a dot: the whole name if it holds no
/// dot, and else what stands before its last dot. The contract says so of a
/// plain path, whose file name is its last name, and nothing of any other
/// path.
#[verifier::external_body]
fn std_file_stem(path: &str) -> (found: Option<String>)
    ensures
        text_of(found) == path_file_stem(path@),
        plain_path(path@) ==> text_of(found) == Some(name_stem(file_part(path@))),
{
    match std::path::Path::new(path).file_stem() {
        Some(part) => Some(part.to_string_lossy().into_owned()),
        None => None,
    }
}

/// Calls `std::path::Path::parent` on `path`, whose result depends on the
/// text of the path alone. The standard library documents the parent as the
/// path without its final component: the empty path for a relative path with
/// one component, and the root for a name in the root. The contract says so
/// of a plain path, and nothing of any other path.
#[verifier::external_body]
fn std_parent(path: &str) -> (found: Option<String>)
    ensures
        text_of(found) == path_parent(path@),
        plain_path(path@) ==> text_of(found) == Some(directory_part(path@)),
{
    match std::path::Path::new(path).parent() {
        Some(part) => Some(part.to_string_lossy().into_owned()),
        None => None,
    }
}

/// Calls `std::path::Path::file_name` on `path`, whose result depends on
/// the text of the path alone. The standard library documents the file name
/// as the final component of the path. The contract says so of a plain path,
/// whose final component is its last name, and nothing of any other path.
#[verifier::external_body]
fn std_file_name(path: &str) -> (found: Option<String>)
    ensures
        text_of(found) == path_file_name(path@),
        plain_path(path@) ==> text_of(found) == Some(file_part(path@)),
{
    match std::path::Path::new(path).file_name() {
        Some(part) => Some(part.to_string_lossy().into_owned()),
        None => None,
    }
}

/// Calls `std::path::Path::join` on `directory` with `name`. Nothing is
/// claimed of the result but that it depends on the two texts alone.
#[verifier::external_body]
fn std_join(directory: &str, name: &str) -> (joined: String)
    ensures
        joined@ == path_join(directory@, name@),
{
    std::path::Path::new(directory).join(name).to_string_lossy().into_owned()
}

/// The extension of the file that `path` names, without the dot before it.
/// Of a plain path it is what follows the last dot of its last name; of any
/// other path it is what the standard library finds.
pub open spec fn extension_of(path: Seq<char>) -> Option<Seq<char>> {
    if plain_path(path) {
        name_extension(file_part(path))
    } else {
        path_extension(path)
    }
}

/// The name, without its last extension, of the file that `path` names. Of
/// a plain path it is what stands before the last dot of its last name; of
/// any other path it is what the standard library finds.
pub open spec fn stem_of(path: Seq<char>) -> Option<Seq<char>> {
    if plain_path(path) {
        Some(name_stem(file_part(path)))
    } else {
        path_file_stem(path)
    }
}

/// The directory that holds what `path` names. Of a plain path it is what
/// stands before its last slash; of any other path it is what the standard
/// library finds.
pub open spec fn directory_of(path: Seq<char>) -> Option<Seq<char>> {
    if plain_path(path) {
        Some(directory_part(path))
    } else {
        path_parent(path)
    }
}

/// The name of the file that `path` names. Of a plain path it is its last
/// name; of any other path it is what the standard library finds.
pub open spec fn file_name_of(path: Seq<char>) -> Option<Seq<char>> {
    if plain_path(path) {
        Some(file_part(path))
    } else {
        path_file_name(path)
    }
}

/// The extensions, in lower case, of the media formats that are supported.
pub open spec fn supported_extension(extension: Seq<char>) -> bool {
    ||| extension == "mp4"@
    ||| extension == "avi"@
    ||| extension == "mov"@
    ||| extension == "wmv"@
    ||| extension == "mkv"@
    ||| extension == "webm"@
    ||| extension == "mp3"@
    ||| extension == "wav"@
    ||| extension == "flac"@
    ||| extension == "jpg"@
    ||| extension == "png"@
    ||| extension == "gif"@
}

/// A path is supported when it has an extension and that extension, in lower
/// case, is one of the supported ones.
pub open spec fn supported_format(path: Seq<char>) -> bool {
    match extension_of(path) {
        Some(extension) => supported_extension(lowered(extension)),
        None => false,
    }
}

/// The path in `directory` of the file named `stem` with the extension that
/// `format` gives, with or without dots before it. An empty `directory`
/// leaves the file name alone.
pub open spec fn path_with_format(
    directory: Seq<char>,
    stem: Seq<char>,
    format: Seq<char>,
) -> Seq<char> {
    if directory.len() == 0 {
        stem + seq!['.'] + without_leading_dots(format)
    } else {
        directory + seq!['/'] + stem + seq!['.'] + without_leading_dots(format)
    }
}

/// What `path` becomes when its extension is replaced by the one that
/// `format` gives: nothing when the path names no file.
pub open spec fn path_with_replaced_extension(path: Seq<char>, format: Seq<char>) -> Option<
    Seq<char>,
> {
    match stem_of(path) {
        Some(stem) => Some(
            path_with_format(
                match directory_of(path) {
                    Some(directory) => directory,
                    None => Seq::empty(),
                },
                stem,
                format,
            ),
        ),
        None => None,
    }
}

/// The path in `directory` of a file named as the one that `path` names:
/// nothing when `path` names no file.
pub open spec fn path_in_directory(path: Seq<char>, directory: Seq<char>) -> Option<Seq<char>> {
    match file_name_of(path) {
        Some(name) => Some(path_join(directory, name)),
        None => None,
    }
}

/// Checks if `extension`, whatever its case, is one of the supported ones.
pub fn is_supported_extension(extension: &str) -> (supported: bool)
    ensures
        supported == supported_extension(lowered(extension@)),
{
    let lowered = to_lowercase(extension);
    let ext = lowered.as_str();
    same_text(ext, "mp4") || same_text(ext, "avi") || same_text(ext, "mov") || same_text(
        ext,
        "wmv",
    ) || same_text(ext, "mkv") || same_text(ext, "webm") || same_text(ext, "mp3") || same_text(
        ext,
        "wav",
    ) || same_text(ext, "flac") || same_text(ext, "jpg") || same_text(ext, "png") || same_text(
        ext,
        "gif",
    )
}

/// Checks if the file format is supported
pub fn is_supported_format(file_path: &str) -> (supported: bool)
    ensures
        supported == supported_format(file_path@),
{
    match std_extension(file_path) {
        Some(ext) => is_supported_extension(ext.as_str()),
        None => false,
    }
}

/// Builds the path in `directory` of the file named `stem` with the
/// extension that `format` gives.
pub fn join_with_format(directory: &str, stem: &str, format: &str) -> (path: String)
    ensures
        path@ == path_with_format(directory@, stem@, format@),
{
    let extension = strip_leading_dots(format);
    let mut path = String::new();
    if directory.unicode_len() != 0 {
        path.append(directory);
        path.append("/");
    }
    path.append(stem);
    path.append(".");
    path.append(extension.as_str());
    proof {
        reveal_strlit("/");
        reveal_strlit(".");
        assert("/"@ =~= seq!['/']);
        assert("."@ =~= seq!['.']);
        assert(path@ =~= path_with_format(directory@, stem@, format@));
    }
    path
}

/// Replaces the extension of `path` by the one that `format` gives, keeping
/// its directory. Returns nothing when the path names no file.
pub fn replace_extension(path: &str, format: &str) -> (replaced: Option<String>)
    ensures
        text_of(replaced) == path_with_replaced_extension(path@, format@),
{
    let directory = match std_parent(path) {
        Some(directory) => directory,
        None => String::new(),
    };
    match std_file_stem(path) {
        Some(stem) => Some(join_with_format(directory.as_str(), stem.as_str(), format)),
        None => None,
    }
}

/// Builds the path in `directory` of a file named as the one that `path`
/// names. Returns nothing when `path` names no file.
pub fn move_to_directory(path: &str, directory: &str) -> (moved: Option<String>)
    ensures
        text_of(moved) == path_in_directory(path@, directory@),
{
    match std_file_name(path) {
        Some(name) => Some(std_join(directory, name.as_str())),
        None => None,
    }
}

/// The last `c` of a text is where `last_position` says: a `c` stands there,
/// none stands after it, and `last_position` is negative exactly when the
/// text holds no `c`.
pub proof fn lemma_last_position(text: Seq<char>, c: char)
    ensures
        -1 <= last_position(text, c) < text.len(),
        last_position(text, c) >= 0 ==> text[last_position(text, c)] == c,
        forall|i: int| last_position(text, c) < i < text.len() ==> text[i] != c,
        last_position(text, c) >= 0 <==> text.contains(c),
    decreases text.len(),
{
    if text.len() > 0 && text.last() != c {
        let shorter = text.drop_last();
        lemma_last_position(shorter, c);
        assert forall|i: int| last_position(text, c) < i < text.len() implies text[i] != c by {
            if i < shorter.len() {
                assert(shorter[i] == text[i]);
            }
        }
        if last_position(text, c) >= 0 {
            assert(shorter[last_position(text, c)] == text[last_position(text, c)]);
        }
        if text.contains(c) {
            let i = choose|i: int| 0 <= i < text.len() && text[i] == c;
            assert(shorter[i] == c);
        }
    }
}

/// A `c` that no `c` follows is the last `c`.
pub proof fn lemma_last_position_is(text: Seq<char>, c: char, at: int)
    requires
        0 <= at < text.len(),
        text[at] == c,
        forall|i: int| at < i < text.len() ==> text[i] != c,
    ensures
        last_position(text, c) == at,
{
    lemma_last_position(text, c);
}

/// A single file name is a plain path, and is its own last name.
pub proof fn lemma_single_name_is_plain(name: Seq<char>)
    requires
        single_name(name),
    ensures
        plain_path(name),
        last_slash(name) == -1,
        file_part(name) == name,
        directory_part(name) == Seq::<char>::empty(),
{
    lemma_last_position(name, '/');
    if last_slash(name) >= 0 {
        assert(name_character(name[last_slash(name)]));
    }
    assert(name.skip(0) =~= name);
}

/// A single file name in a plain directory is a plain path: its last name is
/// that name, and the directory is what stands before it.
pub proof fn lemma_name_in_directory(directory: Seq<char>, name: Seq<char>)
    requires
        plain_path(directory),
        single_name(name),
    ensures
        plain_path(directory + seq!['/'] + name),
        file_part(directory + seq!['/'] + name) == name,
        directory_part(directory + seq!['/'] + name) == directory,
{
    let path = directory + seq!['/'] + name;
    let at = directory.len() as int;
    assert(directory.len() > 0) by {
        lemma_last_position(directory, '/');
        assert(file_part(directory).len() > 0);
    }
    assert forall|i: int| at < i < path.len() implies path[i] != '/' by {
        assert(path[i] == name[i - at - 1]);
        assert(name_character(name[i - at - 1]));
    }
    lemma_last_position_is(path, '/', at);
    assert(path.skip(at + 1) =~= name);
    assert(path.take(at) =~= directory);
}

/// A single file name in the root is a plain path: its last name is that
/// name, and the directory is the root.
pub proof fn lemma_name_in_root(name: Seq<char>)
    requires
        single_name(name),
    ensures
        plain_path(seq!['/'] + name),
        file_part(seq!['/'] + name) == name,
        directory_part(seq!['/'] + name) == seq!['/'],
{
    let path = seq!['/'] + name;
    assert forall|i: int| 0 < i < path.len() implies path[i] != '/' by {
        assert(path[i] == name[i - 1]);
        assert(name_character(name[i - 1]));
    }
    lemma_last_position_is(path, '/', 0);
    assert(path.skip(1) =~= name);
    assert(path.take(1) =~= seq!['/']);
}

/// The extension of a file name that is a stem, a dot, and letters and
/// digits is those letters and digits, and its stem is that stem.
pub proof fn lemma_parts_of_name(stem: Seq<char>, extension: Seq<char>)
    requires
        single_name(stem),
        forall|i: int| 0 <= i < extension.len() ==> alphanumeric(#[trigger] extension[i]),
    ensures
        single_name(stem + seq!['.'] + extension),
        name_extension(stem + seq!['.'] + extension) == Some(extension),
        name_stem(stem + seq!['.'] + extension) == stem,
{
    let name = stem + seq!['.'] + extension;
    let at = stem.len() as int;
    assert forall|i: int| 0 <= i < name.len() implies name_character(#[trigger] name[i]) by {
        if i < at {
            assert(name[i] == stem[i]);
        } else if i > at {
            assert(name[i] == extension[i - at - 1]);
        }
    }
    assert(name[0] == stem[0]);
    assert forall|i: int| at < i < name.len() implies name[i] != '.' by {
        assert(name[i] == extension[i - at - 1]);
    }
    lemma_last_position_is(name, '.', at);
    assert(name.skip(at + 1) =~= extension);
    assert(name.take(at) =~= stem);
}

/// The extension of a file name that is a stem, a dot, and letters and
/// digits is those letters and digits, and its stem is that stem. Such a
/// name lies in no directory.
pub proof fn lemma_parts_of_single_name(stem: Seq<char>, extension: Seq<char>)
    requires
        single_name(stem),
        forall|i: int| 0 <= i < extension.len() ==> alphanumeric(#[trigger] extension[i]),
    ensures
        single_name(stem + seq!['.'] + extension),
        extension_of(stem + seq!['.'] + extension) == Some(extension),
        stem_of(stem + seq!['.'] + extension) == Some(stem),
        directory_of(stem + seq!['.'] + extension) == Some(Seq::<char>::empty()),
        file_name_of(stem + seq!['.'] + extension) == Some(stem + seq!['.'] + extension),
{
    lemma_parts_of_name(stem, extension);
    lemma_single_name_is_plain(stem + seq!['.'] + extension);
}

/// In a plain directory, the extension of a file name that is a stem, a
/// dot, and letters and digits is those letters and digits, its stem is that
/// stem, and its directory is that directory.
pub proof fn lemma_parts_of_path(directory: Seq<char>, stem: Seq<char>, extension: Seq<char>)
    requires
        plain_path(directory),
        single_name(stem),
        forall|i: int| 0 <= i < extension.len() ==> alphanumeric(#[trigger] extension[i]),
    ensures
        plain_path(directory + seq!['/'] + (stem + seq!['.'] + extension)),
        extension_of(directory + seq!['/'] + (stem + seq!['.'] + extension)) == Some(extension),
        stem_of(directory + seq!['/'] + (stem + seq!['.'] + extension)) == Some(stem),
        directory_of(directory + seq!['/'] + (stem + seq!['.'] + extension)) == Some(directory),
        file_name_of(directory + seq!['/'] + (stem + seq!['.'] + extension)) == Some(
            stem + seq!['.'] + extension,
        ),
{
    lemma_parts_of_name(stem, extension);
    lemma_name_in_directory(directory, stem + seq!['.'] + extension);
}

/// Whether a file name that is a stem, a dot, and letters and digits is
/// supported depends on those letters and digits alone.
pub proof fn lemma_single_name_supported(stem: Seq<char>, extension: Seq<char>)
    requires
        single_name(stem),
        forall|i: int| 0 <= i < extension.len() ==> alphanumeric(#[trigger] extension[i]),
    ensures
        supported_format(stem + seq!['.'] + extension) == supported_extension(
            lowercase(extension),
        ),
{
    lemma_parts_of_single_name(stem, extension);
}

/// Whether a file in a plain directory is supported depends on the letters
/// and digits of its extension alone.
pub proof fn lemma_path_supported(directory: Seq<char>, stem: Seq<char>, extension: Seq<char>)
    requires
        plain_path(directory),
        single_name(stem),
        forall|i: int| 0 <= i < extension.len() ==> alphanumeric(#[trigger] extension[i]),
    ensures
        supported_format(directory + seq!['/'] + (stem + seq!['.'] + extension))
            == supported_extension(lowercase(extension)),
{
    lemma_parts_of_path(directory, stem, extension);
}

} // verus!
