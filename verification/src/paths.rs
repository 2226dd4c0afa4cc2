//! Paths as texts, and how systems read them.
//!
//! There are two ways to divide a path into components: at slashes alone, or as Windows
//! does, at slashes and backslashes behind a prefix such as a drive or a share. The
//! machine decides which way is taken, so the contracts here say that a result is that
//! of one of the two.

use crate::text::occurs_at;
use vstd::prelude::*;

verus! {

/// How a system reads paths.
pub enum PathRules {
    /// Components are divided at slashes.
    Slashes,
    /// Components are divided at slashes and backslashes, behind a prefix.
    Windows,
}

/// The position of the last occurrence of a character, or -1.
pub open spec fn last_position(text: Seq<char>, c: char) -> int
    decreases text.len(),
{
    if text.len() == 0 {
        -1
    } else if text.last() == c {
        text.len() - 1
    } else {
        last_position(text.drop_last(), c)
    }
}

/// Whether a character separates components on Windows.
pub open spec fn is_separator(c: char) -> bool {
    c == '/' || c == '\\'
}

/// Whether a text holds a character that separates components on some system.
pub open spec fn has_separator(text: Seq<char>) -> bool {
    text.contains('/') || text.contains('\\')
}

/// The end of the component that begins at `from`: the position of the next backslash or,
/// where slashes count too, of the next separator, or else the end of the path.
pub open spec fn component_end(path: Seq<char>, from: int, slashes_count: bool) -> int
    decreases path.len() - from,
{
    if from < 0 || from >= path.len() {
        from
    } else if path[from] == '\\' || slashes_count && path[from] == '/' {
        from
    } else {
        component_end(path, from + 1, slashes_count)
    }
}

/// The end of a server name that begins at `from` and the share name behind it, if both
/// are there.
pub open spec fn share_end(path: Seq<char>, from: int, slashes_count: bool) -> Option<int> {
    let server = component_end(path, from, slashes_count);
    let share = component_end(path, server + 1, slashes_count);
    if from < server < path.len() && server + 1 < share {
        Some(share)
    } else {
        None
    }
}

/// Whether a path begins with two separators.
pub open spec fn has_double_front(path: Seq<char>) -> bool {
    path.len() >= 2 && is_separator(path[0]) && is_separator(path[1])
}

/// Whether a path begins with two backslashes, a question mark and a backslash: Windows
/// takes what follows as it stands.
pub open spec fn is_verbatim(path: Seq<char>) -> bool {
    &&& path.len() >= 4
    &&& path[0] == '\\'
    &&& path[1] == '\\'
    &&& path[2] == '?'
    &&& path[3] == '\\'
}

/// Whether a verbatim path goes on with the names of a server and a share.
pub open spec fn is_verbatim_share(path: Seq<char>) -> bool {
    &&& is_verbatim(path)
    &&& path.len() >= 8
    &&& path[4] == 'U'
    &&& path[5] == 'N'
    &&& path[6] == 'C'
    &&& path[7] == '\\'
}

/// Whether a path begins with two separators, a dot and a separator: what follows is a
/// device.
pub open spec fn is_device(path: Seq<char>) -> bool {
    has_double_front(path) && path.len() >= 4 && path[2] == '.' && is_separator(path[3])
}

/// A letter that can name a drive.
pub open spec fn is_drive_letter(c: char) -> bool {
    'A' <= c <= 'Z' || 'a' <= c <= 'z'
}

/// The length of the prefix that Windows sees in a path, where the form of the path is
/// one of those documented: no prefix, a drive, a server and a share, a device, or one of
/// the verbatim forms.
pub open spec fn prefix_length(path: Seq<char>) -> Option<int> {
    if !has_double_front(path) {
        if path.len() < 2 || path[1] != ':' {
            Some(0)
        } else if is_drive_letter(path[0]) {
            Some(2)
        } else {
            None
        }
    } else if is_verbatim_share(path) {
        share_end(path, 8, false)
    } else if is_verbatim(path) || is_device(path) {
        let end = component_end(path, 4, !is_verbatim(path));
        if end > 4 {
            Some(end)
        } else {
            None
        }
    } else if path.len() > 2 && path[2] != '?' {
        share_end(path, 2, true)
    } else {
        None
    }
}

/// The text with slashes in place of backslashes.
pub open spec fn slashed(text: Seq<char>) -> Seq<char> {
    text.map_values(
        |c: char|
            if c == '\\' {
                '/'
            } else {
                c
            },
    )
}

/// The length of the prefix of a path.
pub open spec fn prefix_on(rules: PathRules, path: Seq<char>) -> int {
    match (rules, prefix_length(path)) {
        (PathRules::Windows, Some(length)) => length,
        _ => 0,
    }
}

/// What stands behind the prefix of a path, divided by slashes.
pub open spec fn reading(rules: PathRules, path: Seq<char>) -> Seq<char> {
    match rules {
        PathRules::Slashes => path,
        PathRules::Windows => slashed(path.skip(prefix_on(rules, path))),
    }
}

/// What stands behind the last slash of a text.
pub open spec fn tail(text: Seq<char>) -> Seq<char> {
    text.skip(last_position(text, '/') + 1)
}

/// Whether the reading of a path is known: always at slashes alone, and on Windows where
/// the prefix has a documented form. A verbatim path has to end in a name, and to hold no
/// slash, which does not separate there.
pub open spec fn reads(rules: PathRules, path: Seq<char>) -> bool {
    match rules {
        PathRules::Slashes => true,
        PathRules::Windows => {
            &&& prefix_length(path) is Some
            &&& is_verbatim(path) ==> {
                &&& !path.contains('/')
                &&& path.last() != '\\'
                &&& tail(reading(rules, path)) != seq!['.']
            }
        },
    }
}

/// The components of a text that slashes divide. The root is a component of its own;
/// slashes elsewhere, and single dots but at the front, are passed over.
pub open spec fn components(text: Seq<char>) -> Seq<Seq<char>>
    decreases text.len(),
{
    let slash = last_position(text, '/');
    if text.len() == 0 {
        Seq::empty()
    } else if text == seq!['/'] {
        seq![text]
    } else if text.last() == '/' || text.len() > 1 && tail(text) == seq!['.'] {
        components(text.drop_last())
    } else if 0 <= slash < text.len() - 1 {
        components(text.take(slash + 1)).push(tail(text))
    } else {
        seq![text]
    }
}

/// The file name in a text that slashes divide: its last component, unless that is the
/// root, or one dot or two.
pub open spec fn file_name(text: Seq<char>) -> Option<Seq<char>> {
    let parts = components(text);
    if parts.len() == 0 || parts.last() == seq!['/'] || parts.last() == seq!['.'] || parts.last()
        == seq!['.', '.'] {
        None
    } else {
        Some(parts.last())
    }
}

/// The extension of a file name: what stands behind its last dot, unless that dot is
/// its first character or it has none.
pub open spec fn name_extension(name: Seq<char>) -> Option<Seq<char>> {
    if last_position(name, '.') > 0 {
        Some(name.skip(last_position(name, '.') + 1))
    } else {
        None
    }
}

/// A file name without its extension.
pub open spec fn name_stem(name: Seq<char>) -> Seq<char> {
    if last_position(name, '.') > 0 {
        name.take(last_position(name, '.'))
    } else {
        name
    }
}

/// A stem with an extension behind it, unless the extension is empty.
pub open spec fn extended(stem: Seq<char>, extension: Seq<char>) -> Seq<char> {
    if extension.len() == 0 {
        stem
    } else {
        stem + seq!['.'] + extension
    }
}

/// The name of the file that a path leads to.
pub open spec fn file_name_on(rules: PathRules, path: Seq<char>) -> Option<Seq<char>> {
    file_name(reading(rules, path))
}

/// Where the file that a path leads to lies: the prefix, and the components before the
/// last.
pub open spec fn parent_on(rules: PathRules, path: Seq<char>) -> (Seq<char>, Seq<Seq<char>>) {
    (path.take(prefix_on(rules, path)), components(reading(rules, path)).drop_last())
}

/// The extension of the file that a path leads to.
pub open spec fn extension_on(rules: PathRules, path: Seq<char>) -> Option<Seq<char>> {
    match file_name_on(rules, path) {
        Some(name) => name_extension(name),
        None => None,
    }
}

/// Whether a system with these rules can see this extension in a path. Where the reading
/// of the path is not known, an extension stands behind a dot that is not at the front,
/// and holds none itself.
pub open spec fn sees_extension(
    rules: PathRules,
    path: Seq<char>,
    extension: Option<Seq<char>>,
) -> bool {
    if reads(rules, path) {
        extension == extension_on(rules, path)
    } else {
        match extension {
            Some(text) => !text.contains('.') && exists|i: int|
                0 < i < path.len() && path[i] == '.' && #[trigger] occurs_at(path, text, i + 1),
            None => true,
        }
    }
}

/// Whether a path ends in something else than a separator or a dot.
pub open spec fn ends_plainly(path: Seq<char>) -> bool {
    path.len() > 0 && !is_separator(path.last()) && path.last() != '.'
}

/// Whether a system with these rules can make `replaced` of a path by setting its
/// extension. A path that leads to no file stays. One that ends in the name of its file
/// has the extension taken off that name and the new one put on. One with slashes or dots
/// behind the name leads to the file that is named anew at the same place. Where the
/// reading of the path is not known, one that ends plainly stays, or is cut and extended.
pub open spec fn sets_extension(
    rules: PathRules,
    path: Seq<char>,
    extension: Seq<char>,
    replaced: Seq<char>,
) -> bool {
    if reads(rules, path) {
        match file_name_on(rules, path) {
            None => replaced == path,
            Some(name) => if tail(reading(rules, path)) == name {
                replaced == extended(
                    path.take(path.len() - (name.len() - name_stem(name).len())),
                    extension,
                )
            } else {
                extension.len() > 0 && !extension.contains(':') ==> {
                    &&& reads(rules, replaced)
                    &&& parent_on(rules, replaced) == parent_on(rules, path)
                    &&& file_name_on(rules, replaced) == Some(
                        extended(name_stem(name), extension),
                    )
                }
            },
        }
    } else {
        ends_plainly(path) ==> replaced == path || exists|n: int|
            0 < n <= path.len() && replaced == extended(#[trigger] path.take(n), extension)
    }
}

/// The characters of a text that may be missing.
pub open spec fn text_of(text: Option<String>) -> Option<Seq<char>> {
    match text {
        Some(known) => Some(known@),
        None => None,
    }
}

/// The characters of a borrowed text that may be missing.
pub open spec fn str_text(text: Option<&str>) -> Option<Seq<char>> {
    match text {
        Some(known) => Some(known@),
        None => None,
    }
}

/// `std::path::Path::extension`, as text. The contract says that it is the extension of
/// the last component, as `Path::components`, `Path::file_name` and `Path::extension`
/// describe it, read at slashes alone or read as on Windows with the prefixes that
/// `std::path::Prefix` lists. Which of the two the machine decides.
#[verifier::external_body]
pub(crate) fn extension_of(path: &str) -> (extension: Option<String>)
    ensures
        exists|rules: PathRules| #[trigger] sees_extension(rules, path@, text_of(extension)),
{
    std::path::Path::new(path).extension().and_then(|e| e.to_str()).map(|e| e.to_string())
}

/// `std::path::PathBuf::set_extension`, on texts. It panics on an extension with a
/// separator. The contract says what becomes of the path, read at slashes alone or as on
/// Windows. Which text becomes of a path with slashes or dots behind its file name is
/// left unsaid, but not where it leads.
#[verifier::external_body]
pub(crate) fn replace_extension(path: &str, extension: &str) -> (replaced: String)
    requires
        !has_separator(extension@),
    ensures
        exists|rules: PathRules| #[trigger]
            sets_extension(rules, path@, extension@, replaced@),
{
    let mut replaced = std::path::PathBuf::from(path);
    replaced.set_extension(extension);
    replaced.to_string_lossy().into_owned()
}

proof fn lemma_last_position(text: Seq<char>, c: char)
    ensures
        -1 <= last_position(text, c) < text.len(),
        last_position(text, c) >= 0 ==> text[last_position(text, c)] == c,
        forall|i: int| last_position(text, c) < i < text.len() ==> text[i] != c,
    decreases text.len(),
{
    if text.len() > 0 && text.last() != c {
        lemma_last_position(text.drop_last(), c);
        assert forall|i: int| last_position(text, c) < i < text.len() implies text[i] != c by {
            if i < text.len() - 1 {
                assert(text.drop_last()[i] == text[i]);
            }
        }
    }
}

proof fn lemma_last_position_is(text: Seq<char>, c: char, at: int)
    requires
        -1 <= at < text.len(),
        at >= 0 ==> text[at] == c,
        forall|i: int| at < i < text.len() ==> text[i] != c,
    ensures
        last_position(text, c) == at,
{
    lemma_last_position(text, c);
}

/// No component is empty.
proof fn lemma_components(text: Seq<char>)
    ensures
        components(text).len() > 0 ==> components(text).last().len() > 0,
    decreases text.len(),
{
    if text.len() > 0 {
        lemma_components(text.drop_last());
        lemma_last_position(text, '/');
    }
}

/// A name behind a slash, or on its own, is one more component.
proof fn lemma_one_more_component(head: Seq<char>, name: Seq<char>)
    requires
        head.len() == 0 || head.last() == '/',
        name.len() > 0,
        name != seq!['.'],
        !name.contains('/'),
    ensures
        components(head + name) == components(head).push(name),
        tail(head + name) == name,
{
    let text = head + name;
    assert forall|i: int| head.len() <= i < text.len() implies text[i] != '/' by {
        assert(text[i] == name[i - head.len()]);
        assert(name.contains(name[i - head.len()]));
    }
    if head.len() > 0 {
        assert(text[head.len() - 1] == head.last());
    }
    lemma_last_position_is(text, '/', head.len() - 1);
    assert(tail(text) =~= name);
    assert(text.last() == text[text.len() - 1]);
    assert(text.take(head.len() as int) =~= head);
    if head.len() == 0 {
        assert(text =~= name);
        assert(components(head) =~= Seq::empty());
        assert(components(text) =~= components(head).push(name));
    }
}

/// A text that ends in the name of its file is that name behind what comes before.
proof fn lemma_name_at_end(text: Seq<char>, name: Seq<char>)
    requires
        file_name(text) == Some(name),
        tail(text) == name,
    ensures
        name.len() > 0,
        !name.contains('/'),
        ({
            let head = text.take(text.len() - name.len());
            &&& text == head + name
            &&& head.len() == 0 || head.last() == '/'
            &&& components(text) == components(head).push(name)
        }),
{
    lemma_components(text);
    lemma_last_position(text, '/');
    let head = text.take(text.len() - name.len());
    assert(text =~= head + name);
    assert forall|i: int| 0 <= i < name.len() implies name[i] != '/' by {
        assert(name[i] == text[last_position(text, '/') + 1 + i]);
    }
    lemma_one_more_component(head, name);
}

/// A name that gets an extension has it, and keeps its stem.
proof fn lemma_extended_name(name: Seq<char>, extension: Seq<char>)
    requires
        name.len() > 0,
        extension.len() > 0,
        !extension.contains('.'),
    ensures
        0 < name_stem(name).len() <= name.len(),
        name_stem(name) == name.take(name_stem(name).len() as int),
        ({
            let new = extended(name_stem(name), extension);
            &&& name_extension(new) == Some(extension)
            &&& name_stem(new) == name_stem(name)
            &&& new.len() > 2
        }),
{
    lemma_last_position(name, '.');
    let stem = name_stem(name);
    let new = extended(stem, extension);
    let dot = stem.len() as int;
    assert(new[dot] == '.');
    assert forall|i: int| dot < i < new.len() implies new[i] != '.' by {
        assert(new[i] == extension[i - dot - 1]);
        assert(extension.contains(extension[i - dot - 1]));
    }
    lemma_last_position_is(new, '.', dot);
    assert(new.skip(dot + 1) =~= extension);
    assert(new.take(dot) =~= stem);
    assert(name.take(dot) =~= stem);
}

/// Where a component ends.
proof fn lemma_component_end(path: Seq<char>, from: int, slashes_count: bool)
    requires
        0 <= from <= path.len(),
    ensures
        from <= component_end(path, from, slashes_count) <= path.len(),
    decreases path.len() - from,
{
    if from < path.len() {
        lemma_component_end(path, from + 1, slashes_count);
    }
}

/// Paths that are alike up to the end of a component, and the character behind it, have
/// that end in common.
proof fn lemma_same_end(path: Seq<char>, other: Seq<char>, from: int, slashes_count: bool)
    requires
        0 <= from <= path.len(),
        component_end(path, from, slashes_count) < path.len(),
        component_end(path, from, slashes_count) < other.len(),
        forall|i: int| from <= i <= component_end(path, from, slashes_count) ==> path[i] == other[i],
    ensures
        component_end(other, from, slashes_count) == component_end(path, from, slashes_count),
    decreases path.len() - from,
{
    lemma_component_end(path, from, slashes_count);
    if from < path.len() && !(path[from] == '\\' || slashes_count && path[from] == '/') {
        lemma_component_end(path, from + 1, slashes_count);
        lemma_same_end(path, other, from + 1, slashes_count);
    }
}

proof fn lemma_same_share(path: Seq<char>, other: Seq<char>, from: int, slashes_count: bool)
    requires
        0 <= from <= path.len(),
        share_end(path, from, slashes_count) is Some,
        share_end(path, from, slashes_count)->0 < path.len(),
        share_end(path, from, slashes_count)->0 < other.len(),
        forall|i: int| 0 <= i <= share_end(path, from, slashes_count)->0 ==> path[i] == other[i],
    ensures
        share_end(other, from, slashes_count) == share_end(path, from, slashes_count),
{
    let server = component_end(path, from, slashes_count);
    lemma_component_end(path, from, slashes_count);
    lemma_component_end(path, server + 1, slashes_count);
    lemma_same_end(path, other, from, slashes_count);
    lemma_same_end(path, other, server + 1, slashes_count);
}

/// A prefix ends before the end of the path, or there.
proof fn lemma_prefix_bound(path: Seq<char>)
    requires
        prefix_length(path) is Some,
    ensures
        0 <= prefix_length(path)->0 <= path.len(),
        has_double_front(path) ==> prefix_length(path)->0 > 2,
        has_double_front(path) && prefix_length(path)->0 < path.len() ==> is_separator(
            path[prefix_length(path)->0],
        ),
{
    if has_double_front(path) {
        if is_verbatim_share(path) {
            lemma_share_bound(path, 8, false);
        } else if is_verbatim(path) || is_device(path) {
            lemma_component_end(path, 4, !is_verbatim(path));
            lemma_end_separates(path, 4, !is_verbatim(path));
        } else {
            lemma_share_bound(path, 2, true);
        }
    }
}

proof fn lemma_end_separates(path: Seq<char>, from: int, slashes_count: bool)
    requires
        0 <= from <= path.len(),
    ensures
        component_end(path, from, slashes_count) < path.len() ==> is_separator(
            path[component_end(path, from, slashes_count)],
        ),
    decreases path.len() - from,
{
    if from < path.len() {
        lemma_end_separates(path, from + 1, slashes_count);
    }
}

proof fn lemma_share_bound(path: Seq<char>, from: int, slashes_count: bool)
    requires
        0 <= from <= path.len(),
        share_end(path, from, slashes_count) is Some,
    ensures
        from < share_end(path, from, slashes_count)->0 <= path.len(),
        share_end(path, from, slashes_count)->0 < path.len() ==> is_separator(
            path[share_end(path, from, slashes_count)->0],
        ),
{
    let server = component_end(path, from, slashes_count);
    lemma_component_end(path, from, slashes_count);
    lemma_component_end(path, server + 1, slashes_count);
    lemma_end_separates(path, server + 1, slashes_count);
}

/// A path that is cut within its last component and goes on with a dot has the same
/// prefix.
proof fn lemma_same_prefix(path: Seq<char>, other: Seq<char>, cut: int)
    requires
        prefix_length(path) is Some,
        prefix_length(path)->0 < cut <= path.len(),
        has_double_front(path) ==> prefix_length(path)->0 + 1 < cut,
        cut < other.len(),
        forall|i: int| 0 <= i < cut ==> path[i] == other[i],
        other[cut] == '.',
    ensures
        prefix_length(other) == prefix_length(path),
        is_verbatim(other) == is_verbatim(path),
{
    lemma_prefix_bound(path);
    if has_double_front(path) {
        assert(has_double_front(other));
        if is_verbatim_share(path) {
            lemma_share_bound(path, 8, false);
            lemma_same_share(path, other, 8, false);
        } else if is_verbatim(path) || is_device(path) {
            lemma_component_end(path, 4, !is_verbatim(path));
            lemma_same_end(path, other, 4, !is_verbatim(path));
            lemma_end_is(other, 4, !is_verbatim(path));
        } else {
            lemma_share_bound(path, 2, true);
            lemma_same_share(path, other, 2, true);
        }
    }
}

/// Before its end a component holds no backslash.
proof fn lemma_end_is(path: Seq<char>, from: int, slashes_count: bool)
    requires
        0 <= from <= path.len(),
    ensures
        forall|i: int| from <= i < component_end(path, from, slashes_count) ==> path[i] != '\\',
    decreases path.len() - from,
{
    if from < path.len() && !(path[from] == '\\' || slashes_count && path[from] == '/') {
        lemma_end_is(path, from + 1, slashes_count);
    }
}

/// Whether two paths lead to files at the same place whose names differ in the extension
/// alone.
pub open spec fn same_but_extension(rules: PathRules, path: Seq<char>, other: Seq<char>) -> bool {
    &&& file_name_on(rules, path) is Some
    &&& file_name_on(rules, other) is Some
    &&& parent_on(rules, other) == parent_on(rules, path)
    &&& name_stem(file_name_on(rules, other)->0) == name_stem(file_name_on(rules, path)->0)
}

/// A path that ends in the name of its file, with the end of that name cut off and a dot
/// and an extension put on, has the same prefix, and its reading changes likewise.
proof fn lemma_changed_reading(
    rules: PathRules,
    path: Seq<char>,
    extension: Seq<char>,
    kept: int,
)
    requires
        reads(rules, path),
        !has_separator(extension),
        ({
            let name = tail(reading(rules, path));
            0 < kept <= name.len() && file_name_on(rules, path) == Some(name)
        }),
    ensures
        ({
            let text = reading(rules, path);
            let cut = path.len() - (tail(text).len() - kept);
            let replaced = path.take(cut) + seq!['.'] + extension;
            &&& prefix_on(rules, replaced) == prefix_on(rules, path)
            &&& replaced.take(prefix_on(rules, path)) == path.take(prefix_on(rules, path))
            &&& reading(rules, replaced) == text.take(text.len() - tail(text).len()) + tail(
                text,
            ).take(kept) + seq!['.'] + extension
            &&& rules == PathRules::Windows ==> prefix_length(replaced) == prefix_length(path)
            &&& rules == PathRules::Windows ==> is_verbatim(replaced) == is_verbatim(path)
        }),
{
    let text = reading(rules, path);
    let name = tail(text);
    let head = text.take(text.len() - name.len());
    let cut = path.len() - (name.len() - kept);
    let replaced = path.take(cut) + seq!['.'] + extension;
    lemma_name_at_end(text, name);
    match rules {
        PathRules::Slashes => {
            assert(replaced =~= head + name.take(kept) + seq!['.'] + extension);
            assert(replaced.take(0) =~= path.take(0));
        },
        PathRules::Windows => {
            let prefix = prefix_on(rules, path);
            lemma_prefix_bound(path);
            assert(text.len() == path.len() - prefix);
            if has_double_front(path) {
                // The reading begins with a separator, so the name begins behind it.
                assert(text[0] == '/');
                if head.len() == 0 {
                    assert(text =~= name);
                    assert(name.contains('/'));
                }
            }
            lemma_same_prefix(path, replaced, cut);
            assert(replaced.take(prefix) =~= path.take(prefix));
            assert forall|i: int| 0 <= i < extension.len() implies extension[i] != '\\' by {
                assert(extension.contains(extension[i]));
            }
            assert(slashed(extension) =~= extension);
            assert(slashed(replaced.skip(prefix)) =~= head + name.take(kept) + seq!['.']
                + extension);
        },
    }
}

/// On each system a path that leads to a file gets the extension that is set, and keeps
/// its place and its stem.
pub proof fn law_extension_is_what_was_set(
    rules: PathRules,
    path: Seq<char>,
    extension: Seq<char>,
    replaced: Seq<char>,
)
    requires
        reads(rules, path),
        file_name_on(rules, path) is Some,
        extension.len() > 0,
        !has_separator(extension),
        !extension.contains(':'),
        !extension.contains('.'),
        sets_extension(rules, path, extension, replaced),
    ensures
        reads(rules, replaced),
        extension_on(rules, replaced) == Some(extension),
        same_but_extension(rules, path, replaced),
{
    let text = reading(rules, path);
    let name = file_name_on(rules, path)->0;
    lemma_components(text);
    lemma_extended_name(name, extension);
    let stem = name_stem(name);
    let new = extended(stem, extension);
    if tail(text) == name {
        let head = text.take(text.len() - name.len());
        lemma_name_at_end(text, name);
        lemma_changed_reading(rules, path, extension, stem.len() as int);
        assert(reading(rules, replaced) =~= head + new);
        lemma_plain_extended(name, stem, extension);
        lemma_one_more_component(head, new);
        assert(components(head).push(new).drop_last() =~= components(head));
        assert(components(head).push(name).drop_last() =~= components(head));
        if rules == PathRules::Windows && is_verbatim(path) {
            lemma_prefix_bound(path);
            lemma_no_slash_after(path, path.len() - (name.len() - stem.len()), extension);
        }
    }
}

/// A name that keeps no more than its stem and gets an extension without slashes has
/// none.
proof fn lemma_plain_extended(name: Seq<char>, stem: Seq<char>, extension: Seq<char>)
    requires
        !name.contains('/'),
        stem.len() <= name.len(),
        stem == name.take(stem.len() as int),
        !has_separator(extension),
    ensures
        !extended(stem, extension).contains('/'),
{
    let new = extended(stem, extension);
    assert forall|i: int| 0 <= i < new.len() implies new[i] != '/' by {
        if i < stem.len() {
            assert(new[i] == name[i]);
            assert(name.contains(name[i]));
        } else if i > stem.len() {
            assert(new[i] == extension[i - stem.len() - 1]);
            assert(extension.contains(extension[i - stem.len() - 1]));
        }
    }
}

proof fn lemma_no_slash_after(path: Seq<char>, cut: int, extension: Seq<char>)
    requires
        !path.contains('/'),
        0 <= cut <= path.len(),
        extension.len() > 0,
        !has_separator(extension),
    ensures
        ({
            let replaced = path.take(cut) + seq!['.'] + extension;
            !replaced.contains('/') && replaced.last() != '\\'
        }),
{
    let replaced = path.take(cut) + seq!['.'] + extension;
    lemma_plain_extended(path, path.take(cut), extension);
    assert(replaced.last() == extension.last());
    assert(extension.contains(extension.last()));
}

/// A path without backslashes, colons and a double separator in front is read alike on
/// all systems.
pub proof fn law_plain_paths_are_read_alike(path: Seq<char>)
    requires
        !path.contains('\\'),
        !path.contains(':'),
        !has_double_front(path),
    ensures
        reads(PathRules::Windows, path),
        reading(PathRules::Windows, path) == reading(PathRules::Slashes, path),
{
    if path.len() >= 2 {
        assert(path.contains(path[1]));
    }
    assert(reading(PathRules::Windows, path) =~= path) by {
        assert forall|i: int| 0 <= i < path.len() implies path[i] != '\\' by {
            assert(path.contains(path[i]));
        }
    }
}

/// A name with no separator in it that ends in an extension has that extension on all
/// systems.
pub proof fn law_extension_of_a_plain_name(rules: PathRules, stem: Seq<char>, extension: Seq<char>)
    requires
        stem.len() > 0,
        !has_separator(stem),
        !stem.contains(':'),
        extension.len() > 0,
        !has_separator(extension),
        !extension.contains(':'),
        !extension.contains('.'),
    ensures
        reads(rules, stem + seq!['.'] + extension),
        extension_on(rules, stem + seq!['.'] + extension) == Some(extension),
{
    let name = stem + seq!['.'] + extension;
    assert forall|i: int| 0 <= i < name.len() implies !is_separator(name[i]) && name[i] != ':' by {
        if i < stem.len() {
            assert(stem.contains(stem[i]));
        } else if i > stem.len() {
            assert(name[i] == extension[i - stem.len() - 1]);
            assert(extension.contains(extension[i - stem.len() - 1]));
        }
    }
    law_plain_paths_are_read_alike(name);
    assert(name[stem.len() as int] == '.');
    assert forall|i: int| stem.len() < i < name.len() implies name[i] != '.' by {
        assert(name[i] == extension[i - stem.len() - 1]);
        assert(extension.contains(extension[i - stem.len() - 1]));
    }
    lemma_last_position_is(name, '.', stem.len() as int);
    assert(name.skip(stem.len() + 1int) =~= extension);
    lemma_one_more_component(Seq::empty(), name);
    assert(Seq::<char>::empty() + name =~= name);
    assert(name.len() > 2);
}

/// A text that may be missing is looked at by its characters.
pub proof fn law_texts_are_seen_as_they_are(owned: Option<String>, borrowed: Option<&str>)
    ensures
        text_of(owned) is Some <==> owned is Some,
        owned is Some ==> text_of(owned)->0 == owned->0@,
        str_text(borrowed) is Some <==> borrowed is Some,
        borrowed is Some ==> str_text(borrowed)->0 == borrowed->0@,
{
}

} // verus!
