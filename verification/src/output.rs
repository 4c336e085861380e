//! Where an export is written.
use crate::text::{
    is_ascii_text, law_only_suffixes_are_taken_off, lowercase, lowers_ascii, strip_suffixes,
    without_suffixes,
};
use vstd::prelude::*;
use vstd::string::*;

verus! {

/// What the API name of a custom object ends with.
pub const CUSTOM_SUFFIX: &'static str = "__c";

/// Where an export is written.
#[derive(Debug)]
pub enum OutputTarget {
    /// To this file in the current directory.
    Current { file_name: String },
    /// To the path as it was given; the directory that it lies in is made first.
    File { path: String },
    /// To the named file in the directory that was given, which is made first.
    Directory { path: String, file_name: String },
}

/// Where an export is written, as text.
pub enum TargetView {
    Current { file_name: Seq<char> },
    File { path: Seq<char> },
    Directory { path: Seq<char>, file_name: Seq<char> },
}

impl View for OutputTarget {
    type V = TargetView;

    open spec fn view(&self) -> TargetView {
        match self {
            OutputTarget::Current { file_name } => TargetView::Current { file_name: file_name@ },
            OutputTarget::File { path } => TargetView::File { path: path@ },
            OutputTarget::Directory { path, file_name } => TargetView::Directory {
                path: path@,
                file_name: file_name@,
            },
        }
    }
}

/// The name of an object without the endings that mark it as custom.
pub open spec fn plain_name(table: Seq<char>) -> Seq<char> {
    without_suffixes(table, CUSTOM_SUFFIX@)
}

/// The file name that goes with a name.
pub open spec fn parquet_name(name: Seq<char>) -> Seq<char> {
    name + ".parquet"@
}

/// The file name of an object's export where none is given.
pub open spec fn default_file_name(table: Seq<char>) -> Seq<char> {
    parquet_name(lowercase(plain_name(table)))
}

/// Where an export goes: to the path that was given if that names a file, else into the
/// directory that was given, else to the current directory.
pub open spec fn target_of(
    file_name: Seq<char>,
    output: Option<Seq<char>>,
    is_file: bool,
) -> TargetView {
    match output {
        None => TargetView::Current { file_name },
        Some(path) => if is_file {
            TargetView::File { path }
        } else {
            TargetView::Directory { path, file_name }
        },
    }
}

/// Where the last segment of a path begins: behind its last slash.
pub open spec fn last_segment_start(path: Seq<char>) -> int
    decreases path.len(),
{
    if path.len() == 0 || path.last() == '/' {
        path.len() as int
    } else {
        last_segment_start(path.drop_last())
    }
}

/// The last component of a path. Slashes at the end and single dots behind a slash do not
/// count.
pub open spec fn last_component(path: Seq<char>) -> Seq<char>
    decreases path.len(),
{
    let start = last_segment_start(path);
    if path.len() == 0 {
        path
    } else if path.last() == '/' {
        last_component(path.drop_last())
    } else if 0 < start < path.len() && path.skip(start) == seq!['.'] {
        last_component(path.take(start))
    } else {
        path.skip(start)
    }
}

/// Whether a file name has an extension: it is not the parent directory, and holds a dot
/// that is not its first character.
pub open spec fn dotted(name: Seq<char>) -> bool {
    name != seq!['.', '.'] && exists|i: int| 1 <= i < name.len() && name[i] == '.'
}

/// Whether a path that slashes split has an extension: its last component has one.
pub open spec fn has_extension(path: Seq<char>) -> bool {
    dotted(last_component(path))
}

/// A slash or a backslash: what may separate the components of a path.
pub open spec fn is_slash(c: char) -> bool {
    c == '/' || c == '\\'
}

/// Whether a path begins with a drive letter and its colon.
pub open spec fn begins_with_drive(path: Seq<char>) -> bool {
    &&& path.len() >= 2
    &&& 'A' <= path[0] <= 'Z' || 'a' <= path[0] <= 'z'
    &&& path[1] == ':'
}

/// Whether a path begins with two slashes or backslashes.
pub open spec fn begins_like_share(path: Seq<char>) -> bool {
    path.len() >= 2 && is_slash(path[0]) && is_slash(path[1])
}

/// Where the segment that begins at `from` ends: at the next slash or backslash, or with
/// the path.
pub open spec fn segment_end(path: Seq<char>, from: int) -> int
    decreases path.len() - from,
{
    if from < 0 || from >= path.len() || is_slash(path[from]) {
        from
    } else {
        segment_end(path, from + 1)
    }
}

/// Where the server of a network share ends.
pub open spec fn server_end(path: Seq<char>) -> int {
    segment_end(path, 2)
}

/// Where the name of a network share ends.
pub open spec fn share_end(path: Seq<char>) -> int {
    segment_end(path, server_end(path) + 1)
}

/// Whether a path begins with a network share: a server and a share on it. What begins with
/// `\\?\` or `\\.\` is something else.
pub open spec fn names_share(path: Seq<char>) -> bool {
    &&& begins_like_share(path)
    &&& 2 < server_end(path) < path.len()
    &&& server_end(path) + 1 < share_end(path)
    &&& path.subrange(2, server_end(path)) != seq!['?']
    &&& path.subrange(2, server_end(path)) != seq!['.']
}

/// How much of a path its share or drive takes up.
pub open spec fn prefix_len(path: Seq<char>) -> int {
    if names_share(path) {
        share_end(path)
    } else if begins_with_drive(path) {
        2
    } else {
        0
    }
}

/// A path with slashes for its backslashes.
pub open spec fn slashed(path: Seq<char>) -> Seq<char> {
    path.map_values(
        |c: char|
            if c == '\\' {
                '/'
            } else {
                c
            },
    )
}

/// A path as Windows splits it: behind its share or drive, and at backslashes as at slashes.
pub open spec fn windows_form(path: Seq<char>) -> Seq<char> {
    slashed(path.skip(prefix_len(path)))
}

/// Whether some platform may find that the path has an extension, or has none, as
/// `extended` says. A path is split at slashes alone, or else as Windows does it. Of one
/// that begins like a share but names none only this is known, that an extension takes a
/// dot.
pub open spec fn extended_somewhere(path: Seq<char>, extended: bool) -> bool {
    if begins_like_share(path) && !names_share(path) {
        path.contains('.') || !extended
    } else {
        extended == has_extension(path) || extended == has_extension(windows_form(path))
    }
}

/// `std::path::Path::extension`, of which only whether there is one counts. How a path is
/// split rests on the platform; where slashes alone and Windows lead to one answer, that is
/// the answer. What Windows makes of a path in `\\?\` or `\\.\`, or of a server without a
/// share, is left unsaid.
#[verifier::external_body]
fn path_has_extension(path: &str) -> (has: bool)
    ensures
        extended_somewhere(path@, has),
{
    std::path::Path::new(path).extension().is_some()
}

/// `std::path::is_separator`: a slash separates on every platform, a backslash on some, and
/// nothing else on any.
pub assume_specification[ std::path::is_separator ](c: char) -> (separates: bool)
    ensures
        c == '/' ==> separates,
        separates ==> is_slash(c),
;

/// Whether some platform may take the path for that of a file, or of a directory, as
/// `is_file` says: a separator at the end makes it a directory, and else an extension makes
/// it a file.
pub open spec fn file_somewhere(path: Seq<char>, is_file: bool) -> bool {
    if path.len() > 0 && path.last() == '/' {
        !is_file
    } else {
        ||| path.len() > 0 && path.last() == '\\' && !is_file
        ||| extended_somewhere(path, is_file)
    }
}

/// Tells whether a path ends with a separator. A slash is one on every platform, a backslash
/// on some.
pub fn ends_with_separator(path: &str) -> (ends: bool)
    ensures
        path@.len() > 0 && path@.last() == '/' ==> ends,
        ends ==> path@.len() > 0 && is_slash(path@.last()),
{
    let len: usize = path.unicode_len();
    if len == 0 {
        false
    } else {
        std::path::is_separator(path.get_char(len - 1))
    }
}

/// Picks the target for a file name, a path that may have been given, and whether that is
/// the path of a file.
pub fn pick_target(file_name: String, output: Option<String>, is_file: bool) -> (target:
    OutputTarget)
    ensures
        target@ == target_of(file_name@, output.deep_view(), is_file),
{
    match output {
        None => OutputTarget::Current { file_name },
        Some(path) => if is_file {
            OutputTarget::File { path }
        } else {
            OutputTarget::Directory { path, file_name }
        },
    }
}

/// Takes the endings that mark it as custom off an object's name.
pub fn strip_custom_suffix(table_name: &str) -> (name: String)
    ensures
        name@ == plain_name(table_name@),
{
    proof {
        reveal_strlit("__c");
    }
    strip_suffixes(table_name, CUSTOM_SUFFIX)
}

/// The file name of an object's export where none is given: the name without the endings
/// that mark it as custom, in lower case.
pub fn default_output_name(table_name: &str) -> (file_name: String)
    ensures
        file_name@ == default_file_name(table_name@),
        lowers_ascii(plain_name(table_name@)),
{
    strip_custom_suffix(table_name).as_str().to_lowercase().concat(".parquet")
}

/// Resolves where an object's export is written.
///
/// - A path with a separator at its end is a directory, and the default file is written
///   inside it.
/// - Any other path with an extension is used as it is.
/// - Any other path is a directory too.
/// - Without a path, the default file is written to the current directory.
pub fn resolve_output_path(table_name: &str, output: Option<String>) -> (target: OutputTarget)
    ensures
        match output {
            None => target@ == target_of(default_file_name(table_name@), None, false),
            Some(path) => exists|is_file: bool|
                file_somewhere(path@, is_file) && target@ == #[trigger] target_of(
                    default_file_name(table_name@),
                    Some(path@),
                    is_file,
                ),
        },
        lowers_ascii(plain_name(table_name@)),
{
    let file_name: String = default_output_name(table_name);
    let is_file: bool = match &output {
        Some(path) => !ends_with_separator(path.as_str()) && path_has_extension(path.as_str()),
        None => false,
    };
    pick_target(file_name, output, is_file)
}

/// A custom object and the object of its plain name have the same default file.
pub proof fn law_custom_suffix_is_dropped(table: Seq<char>)
    ensures
        default_file_name(table + CUSTOM_SUFFIX@) == default_file_name(table),
{
    let suffix = CUSTOM_SUFFIX@;
    let custom = table + suffix;
    reveal_strlit("__c");
    assert(suffix.is_suffix_of(custom));
    assert(custom.take(custom.len() - suffix.len()) =~= table);
}

/// What a plain name is made of ends with no mark of a custom object.
pub proof fn law_plain_name_has_no_suffix(table: Seq<char>)
    ensures
        !CUSTOM_SUFFIX@.is_suffix_of(plain_name(table)),
        plain_name(table).is_prefix_of(table),
    decreases table.len(),
{
    let suffix = CUSTOM_SUFFIX@;
    reveal_strlit("__c");
    if suffix.is_suffix_of(table) {
        law_plain_name_has_no_suffix(table.take(table.len() - suffix.len()));
    }
}

/// A path that ends with a slash is a directory on every platform, whatever its name holds,
/// and the default file goes inside it.
pub proof fn law_trailing_slash_means_directory(table: Seq<char>, path: Seq<char>, is_file: bool)
    requires
        path.len() > 0,
        path.last() == '/',
        file_somewhere(path, is_file),
    ensures
        target_of(default_file_name(table), Some(path), is_file) == (TargetView::Directory {
            path,
            file_name: default_file_name(table),
        }),
{
}

/// A path without a dot is a directory on every platform, and the default file goes inside
/// it.
pub proof fn law_path_without_a_dot_is_a_directory(
    table: Seq<char>,
    path: Seq<char>,
    is_file: bool,
)
    requires
        !path.contains('.'),
        file_somewhere(path, is_file),
    ensures
        target_of(default_file_name(table), Some(path), is_file) == (TargetView::Directory {
            path,
            file_name: default_file_name(table),
        }),
{
    lemma_extension_takes_a_dot(path);
    let rest = path.skip(prefix_len(path));
    lemma_prefix_fits(path);
    if has_extension(slashed(rest)) {
        lemma_extension_takes_a_dot(slashed(rest));
        let at = choose|i: int| 0 <= i < slashed(rest).len() && slashed(rest)[i] == '.';
        assert(path[prefix_len(path) + at] == '.');
    }
}

/// A path is that of a file on every platform where the name behind its last separator has
/// an extension.
pub proof fn law_dotted_name_is_a_file(front: Seq<char>, name: Seq<char>, is_file: bool)
    requires
        name != seq!['.', '.'],
        exists|i: int| 1 <= i < name.len() && name[i] == '.',
        !name.contains('/'),
        !name.contains('\\'),
        front.len() == 0 && begins_with_drive(name) ==> dotted(name.skip(2)),
        front.len() > 0 ==> front.last() == '/' || front.last() == '\\' || front.len() == 2
            && begins_with_drive(front),
        front.len() >= 2 && (front[0] == '/' || front[0] == '\\') ==> front[1] != '/' && front[1]
            != '\\',
        file_somewhere(front + name, is_file),
    ensures
        is_file,
{
    let path = front + name;
    assert(dotted(name));
    assert(front.len() >= 2 ==> path[0] == front[0] && path[1] == front[1]);
    assert(front.len() == 1 ==> path[0] == front[0] && path[1] == name[0]);
    assert(front.len() == 0 ==> path[0] == name[0]);
    assert(name.contains(name[0]));
    assert(!begins_like_share(path));
    if front.len() == 0 && begins_with_drive(name) {
        let rest = name.skip(2);
        assert(path =~= name.take(2) + rest);
        assert forall|i: int| 0 <= i < rest.len() implies !is_slash(#[trigger] rest[i]) by {
            assert(name.contains(name[i + 2]));
        }
        lemma_dotted_end(name.take(2), rest, 2);
    } else {
        assert(front.len() == 0 ==> path =~= name);
        lemma_dotted_end(front, name, prefix_len(path));
    }
}

/// Whether `joined` is the path of a file in a directory: the directory and the name with a
/// slash or a backslash between them, or none where there is one already, where no directory
/// is named, or where a drive alone is. A name that begins with a drive stands for itself.
pub open spec fn joins(directory: Seq<char>, name: Seq<char>, joined: Seq<char>) -> bool {
    ||| joined == directory.push('/') + name
    ||| joined == directory.push('\\') + name
    ||| joined == directory + name && (directory.len() == 0 || is_slash(directory.last())
        || directory.len() == 2 && begins_with_drive(directory))
    ||| joined == name && begins_with_drive(name)
}

/// Whether a target comes down to this path.
pub open spec fn comes_down_to(target: TargetView, path: Seq<char>) -> bool {
    match target {
        TargetView::Current { file_name } => path == file_name,
        TargetView::File { path: given } => path == given,
        TargetView::Directory { path: directory, file_name } => joins(directory, file_name, path),
    }
}

/// Whether a name can stand in a file name: it is not empty, holds no separator, and is not
/// a drive.
pub open spec fn stands_in_file_name(name: Seq<char>) -> bool {
    &&& name.len() > 0
    &&& !name.contains('/')
    &&& !name.contains('\\')
    &&& !(name.len() == 2 && begins_with_drive(name))
}

/// In lower case an ASCII name can stand in a file name if it could before.
pub proof fn law_lower_case_stands_in_file_name(name: Seq<char>)
    requires
        is_ascii_text(name),
        lowers_ascii(name),
        stands_in_file_name(name),
    ensures
        stands_in_file_name(lowercase(name)),
{
    let lower = lowercase(name);
    assert forall|i: int| 0 <= i < lower.len() implies !is_slash(#[trigger] lower[i]) by {
        assert(name.contains(name[i]));
    }
}

/// A resolved path resolves to itself, whatever the object. `is_file` is what the platform
/// takes the given path for, and `again` what it takes the resolved path for. Left out are
/// objects whose plain name in lower case cannot stand in a file name, and directories that
/// begin like a network share but name none: behind a server alone the file would be taken
/// for the share.
pub proof fn law_resolved_path_resolves_to_itself(
    table: Seq<char>,
    output: Option<Seq<char>>,
    is_file: bool,
    resolved: Seq<char>,
    other: Seq<char>,
    again: bool,
)
    requires
        stands_in_file_name(lowercase(plain_name(table))),
        output matches Some(path) ==> file_somewhere(path, is_file),
        comes_down_to(target_of(default_file_name(table), output, is_file), resolved),
        output matches Some(path) ==> is_file || names_share(path) || !begins_like_share(resolved),
        file_somewhere(resolved, again),
        output == Some(resolved) ==> again == is_file,
    ensures
        target_of(default_file_name(other), Some(resolved), again) == (TargetView::File {
            path: resolved,
        }),
{
    let name = default_file_name(table);
    lemma_parquet_name(lowercase(plain_name(table)));
    match output {
        None => {
            assert(Seq::<char>::empty() + name =~= resolved);
            law_dotted_name_is_a_file(Seq::empty(), name, again);
        },
        Some(path) => if !is_file {
            if resolved == name {
                assert(Seq::<char>::empty() + name =~= resolved);
                law_dotted_name_is_a_file(Seq::empty(), name, again);
            } else if names_share(path) {
                let front = joined_front(path, name, resolved);
                lemma_share_of_longer_path(path, resolved);
                lemma_prefix_fits(path);
                lemma_dotted_end(front, name, prefix_len(resolved));
            } else {
                law_dotted_name_is_a_file(joined_front(path, name, resolved), name, again);
            }
        },
    }
}

/// What stands before the name in the path of a file in a directory.
spec fn joined_front(directory: Seq<char>, name: Seq<char>, joined: Seq<char>) -> Seq<char> {
    if joined == directory.push('/') + name {
        directory.push('/')
    } else if joined == directory.push('\\') + name {
        directory.push('\\')
    } else {
        directory
    }
}

/// The file name that goes with a name that can stand in one has an extension, behind its
/// drive too, and holds no separator.
proof fn lemma_parquet_name(name: Seq<char>)
    requires
        stands_in_file_name(name),
    ensures
        dotted(parquet_name(name)),
        begins_with_drive(parquet_name(name)) ==> dotted(parquet_name(name).skip(2)),
        !parquet_name(name).contains('/'),
        !parquet_name(name).contains('\\'),
        parquet_name(name).len() > 0,
        !is_slash(parquet_name(name)[0]),
{
    let file = parquet_name(name);
    reveal_strlit(".parquet");
    assert(file[name.len() as int] == '.');
    assert forall|i: int| 0 <= i < file.len() implies !is_slash(#[trigger] file[i]) by {
        if i < name.len() {
            assert(name.contains(name[i]));
        }
    }
    if begins_with_drive(file) {
        assert(name.len() > 2) by {
            assert(name.len() == 1 ==> file[1] == '.');
            assert(name.len() == 2 ==> name[0] == file[0] && name[1] == file[1]);
        }
        assert(file.skip(2)[name.len() - 2] == '.');
        assert(file.skip(2).len() > 2);
    }
}

/// A share or drive takes up no more than the path.
proof fn lemma_prefix_fits(path: Seq<char>)
    ensures
        0 <= prefix_len(path) <= path.len(),
{
    lemma_segment_end(path, 2);
    lemma_segment_end(path, server_end(path) + 1);
}

proof fn lemma_segment_end(path: Seq<char>, from: int)
    ensures
        from <= segment_end(path, from),
        from <= path.len() ==> segment_end(path, from) <= path.len(),
    decreases path.len() - from,
{
    if 0 <= from < path.len() && !is_slash(path[from]) {
        lemma_segment_end(path, from + 1);
    }
}

/// A segment ends in a longer path where it did before, if it ended within the path or the
/// path goes on with a slash or a backslash.
proof fn lemma_segment_of_longer_path(path: Seq<char>, longer: Seq<char>, from: int)
    requires
        0 <= from <= path.len(),
        path.is_prefix_of(longer),
        path.len() < longer.len(),
        segment_end(path, from) < path.len() || is_slash(longer[path.len() as int]),
    ensures
        segment_end(longer, from) == segment_end(path, from),
    decreases path.len() - from,
{
    if from < path.len() {
        assert(longer[from] == path[from]);
        if !is_slash(path[from]) {
            lemma_segment_of_longer_path(path, longer, from + 1);
        }
    }
}

/// A file inside a network share lies on that share.
proof fn lemma_share_of_longer_path(path: Seq<char>, longer: Seq<char>)
    requires
        names_share(path),
        path.is_prefix_of(longer),
        path.len() < longer.len(),
        is_slash(path.last()) || is_slash(longer[path.len() as int]),
    ensures
        names_share(longer),
        share_end(longer) == share_end(path),
{
    assert(longer[0] == path[0] && longer[1] == path[1]);
    lemma_segment_of_longer_path(path, longer, 2);
    let from = server_end(path) + 1;
    lemma_segment_end(path, from);
    if !is_slash(longer[path.len() as int]) {
        lemma_segment_stops_at(path, from, path.len() - 1);
    }
    lemma_segment_of_longer_path(path, longer, from);
    assert(longer.subrange(2, server_end(path)) =~= path.subrange(2, server_end(path)));
}

/// A segment ends at the latest where a slash or a backslash stands.
proof fn lemma_segment_stops_at(path: Seq<char>, from: int, at: int)
    requires
        0 <= from <= at < path.len(),
        is_slash(path[at]),
    ensures
        segment_end(path, from) <= at,
    decreases at - from,
{
    if !is_slash(path[from]) {
        lemma_segment_stops_at(path, from + 1, at);
    }
}

/// A path that ends with a name that has an extension has one, split at slashes or as
/// Windows does it.
proof fn lemma_dotted_end(front: Seq<char>, name: Seq<char>, skipped: int)
    requires
        dotted(name),
        !name.contains('/'),
        !name.contains('\\'),
        0 <= skipped <= front.len(),
    ensures
        has_extension(front + name),
        has_extension(slashed((front + name).skip(skipped))),
        !is_slash((front + name).last()),
{
    lemma_dotted_component(front, name);
    let rest = front.skip(skipped);
    assert forall|i: int| 0 <= i < name.len() implies !is_slash(#[trigger] name[i]) by {
        assert(name.contains(name[i]));
    }
    assert(slashed((front + name).skip(skipped)) =~= slashed(rest) + name);
    lemma_dotted_component(slashed(rest), name);
    assert((front + name).last() == name.last());
}

proof fn lemma_dotted_component(front: Seq<char>, name: Seq<char>)
    requires
        dotted(name),
        !name.contains('/'),
    ensures
        has_extension(front + name),
{
    let path = front + name;
    let start = last_segment_start(path);
    let component = path.skip(start);
    lemma_segment_start(front, name);
    let at = choose|i: int| 1 <= i < name.len() && name[i] == '.';
    assert(component[front.len() - start + at] == '.');
    assert(path.last() == name.last());
    assert(name.contains(name.last()));
    assert(component != seq!['.']) by {
        assert(component.len() >= 2);
    }
    assert(last_component(path) == component);
    if component == seq!['.', '.'] {
        assert(component.len() == 2);
        assert(component =~= name);
    }
}

/// What follows the last slash moves no segment's beginning.
proof fn lemma_segment_start(front: Seq<char>, segment: Seq<char>)
    requires
        !segment.contains('/'),
    ensures
        0 <= last_segment_start(front) <= front.len(),
        last_segment_start(front + segment) == last_segment_start(front),
    decreases front.len() + segment.len(),
{
    let path = front + segment;
    if segment.len() == 0 {
        assert(path =~= front);
        if front.len() > 0 {
            lemma_segment_start(front.drop_last(), segment);
        }
    } else {
        assert(path.last() == segment.last());
        assert(segment.contains(segment.last()));
        assert(path.drop_last() =~= front + segment.drop_last());
        assert forall|i: int| 0 <= i < segment.len() - 1 implies segment.drop_last()[i] != '/' by {
            assert(segment.contains(segment[i]));
        }
        lemma_segment_start(front, segment.drop_last());
    }
}

/// Where there is an extension, there is a dot.
proof fn lemma_extension_takes_a_dot(path: Seq<char>)
    ensures
        has_extension(path) ==> path.contains('.'),
    decreases path.len(),
{
    let start = last_segment_start(path);
    lemma_segment_start(path, Seq::empty());
    if path.len() == 0 {
    } else if path.last() == '/' {
        lemma_extension_takes_a_dot(path.drop_last());
        if has_extension(path) {
            let at = choose|i: int| 0 <= i < path.len() - 1 && path.drop_last()[i] == '.';
            assert(path[at] == '.');
        }
    } else if 0 < start < path.len() && path.skip(start) == seq!['.'] {
        assert(path.skip(start)[0] == '.');
        assert(path[start] == '.');
    } else if has_extension(path) {
        let at = choose|i: int| 1 <= i < path.skip(start).len() && path.skip(start)[i] == '.';
        assert(path[start + at] == '.');
    }
}

/// The default file of an object is named after it in lower case, with the extension of
/// Parquet files and nothing else; each ending that marks a custom object is left off first.
pub proof fn law_default_file_is_named_after_the_object(table: Seq<char>)
    ensures
        default_file_name(table + "__c"@) == default_file_name(table),
        !"__c"@.is_suffix_of(table) ==> default_file_name(table) == lowercase(table) + ".parquet"@,
{
    reveal_strlit("__c");
    law_only_suffixes_are_taken_off(table, "__c"@);
}

/// Without a path the file goes to the current directory; a path is used as it is where it
/// names a file, and else the file goes inside it.
pub proof fn law_target_follows_the_path(file_name: Seq<char>, path: Seq<char>, is_file: bool)
    ensures
        target_of(file_name, None, is_file) == (TargetView::Current { file_name }),
        target_of(file_name, Some(path), true) == (TargetView::File { path }),
        target_of(file_name, Some(path), false) == (TargetView::Directory { path, file_name }),
{
}

/// A path is that of a directory on every platform where the name behind its last slash has
/// no extension: no dot but one that it begins with, or that of the parent directory.
pub proof fn law_name_without_extension_is_a_directory(
    front: Seq<char>,
    name: Seq<char>,
    is_file: bool,
)
    requires
        name.len() > 0,
        name == seq!['.', '.'] || forall|i: int| 1 <= i < name.len() ==> name[i] != '.',
        name != seq!['.'],
        !name.contains('/'),
        !name.contains('\\'),
        front.len() > 0 ==> front.last() == '/',
        front.len() >= 2 && (front[0] == '/' || front[0] == '\\') ==> front[1] != '/' && front[1]
            != '\\',
        file_somewhere(front + name, is_file),
    ensures
        !is_file,
{
    let path = front + name;
    assert forall|i: int| 0 <= i < name.len() implies !is_slash(#[trigger] name[i]) by {
        assert(name.contains(name[i]));
    }
    assert(front.len() >= 2 ==> path[0] == front[0] && path[1] == front[1]);
    assert(front.len() == 1 ==> path[0] == front[0] && path[1] == name[0]);
    assert(front.len() == 0 ==> path =~= name);
    assert(!begins_like_share(path));
    assert(path.last() == name.last());
    lemma_whole_component(front, name);
    if front.len() == 0 && begins_with_drive(name) {
        assert(!name.contains('.')) by {
            assert(name[0] != '.');
            assert(name != seq!['.', '.']) by {
                assert(seq!['.', '.'][0] == '.');
            }
        }
        let rest = slashed(path.skip(2));
        lemma_extension_takes_a_dot(rest);
        if has_extension(rest) {
            let at = choose|i: int| 0 <= i < rest.len() && rest[i] == '.';
            assert(name[at + 2] == '.');
        }
    } else {
        let k = prefix_len(path);
        assert(k <= front.len());
        let rest = slashed(front.skip(k));
        assert(windows_form(path) =~= rest + name);
        assert(rest.len() > 0 ==> rest.last() == '/');
        lemma_whole_component(rest, name);
    }
}

/// A name behind a slash is the last component of its path.
proof fn lemma_whole_component(front: Seq<char>, name: Seq<char>)
    requires
        name.len() > 0,
        name != seq!['.'],
        !name.contains('/'),
        front.len() > 0 ==> front.last() == '/',
    ensures
        last_component(front + name) == name,
{
    let path = front + name;
    lemma_segment_start(front, name);
    assert(last_segment_start(front) == front.len());
    assert(path.skip(front.len() as int) =~= name);
    assert(path.last() == name.last());
    assert(name.contains(name.last()));
}

/// On a network share, as anywhere, a path is that of a file on every platform where the
/// name behind its last separator has an extension.
pub proof fn law_dotted_name_on_a_share_is_a_file(
    server: Seq<char>,
    share: Seq<char>,
    way: Seq<char>,
    name: Seq<char>,
    is_file: bool,
)
    requires
        server.len() > 0,
        share.len() > 0,
        !server.contains('/') && !server.contains('\\'),
        !share.contains('/') && !share.contains('\\'),
        server != seq!['?'] && server != seq!['.'],
        way.len() > 0 ==> way.last() == '/' || way.last() == '\\',
        name != seq!['.', '.'],
        exists|i: int| 1 <= i < name.len() && name[i] == '.',
        !name.contains('/'),
        !name.contains('\\'),
        file_somewhere(
            seq!['\\', '\\'] + server + seq!['\\'] + share + seq!['\\'] + way + name,
            is_file,
        ),
    ensures
        is_file,
{
    let front = seq!['\\', '\\'] + server + seq!['\\'] + share + seq!['\\'] + way;
    let path = front + name;
    let first: int = 2 + server.len() as int;
    let second: int = first + 1 + share.len() as int;
    assert(dotted(name));
    assert(path =~= seq!['\\', '\\'] + server + seq!['\\'] + share + seq!['\\'] + way + name);
    assert forall|i: int| 2 <= i < first implies !is_slash(#[trigger] path[i]) by {
        assert(path[i] == server[i - 2]);
        assert(server.contains(server[i - 2]));
    }
    assert forall|i: int| first + 1 <= i < second implies !is_slash(#[trigger] path[i]) by {
        assert(path[i] == share[i - first - 1]);
        assert(share.contains(share[i - first - 1]));
    }
    assert(path[0] == '\\' && path[1] == '\\' && path[first] == '\\' && path[second] == '\\');
    lemma_segment_ends_at(path, 2, first);
    lemma_segment_ends_at(path, first + 1, second);
    assert(path.subrange(2, first) =~= server);
    assert(names_share(path));
    lemma_dotted_end(front, name, prefix_len(path));
}

/// A segment ends at the first slash or backslash.
proof fn lemma_segment_ends_at(path: Seq<char>, from: int, at: int)
    requires
        0 <= from <= at < path.len(),
        is_slash(path[at]),
        forall|i: int| from <= i < at ==> !is_slash(#[trigger] path[i]),
    ensures
        segment_end(path, from) == at,
    decreases at - from,
{
    if from < at {
        lemma_segment_ends_at(path, from + 1, at);
    }
}

} // verus!
