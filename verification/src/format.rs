//! Which format an extension stands for, and the names that results get.

use crate::paths::extension_of;
use crate::paths::extension_on;
use crate::paths::file_name_on;
use crate::paths::has_double_front;
use crate::paths::has_separator;
use crate::paths::law_extension_is_what_was_set;
use crate::paths::law_extension_of_a_plain_name;
use crate::paths::law_plain_paths_are_read_alike;
use crate::paths::reads;
use crate::paths::replace_extension;
use crate::paths::same_but_extension;
use crate::paths::sees_extension;
use crate::paths::sets_extension;
use crate::paths::str_text;
use crate::paths::text_of;
use crate::paths::PathRules;
use crate::pipeline::PointCloudFormat;
use crate::text::ends_in;
use crate::text::lemma_ends_in;
use crate::text::same_text;
use vstd::prelude::*;

verus! {

/// The lowercase equivalent of a text under Unicode's case mapping.
pub uninterp spec fn unicode_lowercase(text: Seq<char>) -> Seq<char>;

/// The lowercase of an ASCII character.
pub open spec fn ascii_lowercase(c: char) -> char {
    if 'A' <= c <= 'Z' {
        (c as u32 + 32) as char
    } else {
        c
    }
}

/// The lowercase of a text: letter by letter in ASCII, by Unicode's mapping beyond it.
pub open spec fn lowercase(text: Seq<char>) -> Seq<char> {
    if vstd::utf8::is_ascii_chars(text) {
        text.map_values(|c: char| ascii_lowercase(c))
    } else {
        unicode_lowercase(text)
    }
}

/// `str::to_lowercase`. For ASCII the contract gives the result; beyond ASCII it is
/// the named Unicode mapping.
#[verifier::external_body]
fn to_lowercase(text: &str) -> (lower: String)
    ensures
        vstd::utf8::is_ascii_chars(text@) ==> lower@ == text@.map_values(
            |c: char| ascii_lowercase(c),
        ),
        !vstd::utf8::is_ascii_chars(text@) ==> lower@ == unicode_lowercase(text@),
{
    text.to_lowercase()
}

/// The format that an extension stands for, in upper or lower case.
pub open spec fn format_of(extension: Option<Seq<char>>) -> Option<PointCloudFormat> {
    match extension {
        Some(text) => if lowercase(text) == "las"@ || lowercase(text) == "laz"@ {
            Some(PointCloudFormat::Las)
        } else if lowercase(text) == "e57"@ {
            Some(PointCloudFormat::E57)
        } else {
            None
        },
        None => None,
    }
}

/// The format that an extension stands for.
pub fn extension_format(extension: Option<&str>) -> (format: Option<PointCloudFormat>)
    ensures
        format == format_of(str_text(extension)),
{
    match extension {
        Some(text) => {
            let lower = to_lowercase(text);
            if same_text(lower.as_str(), "las") || same_text(lower.as_str(), "laz") {
                Some(PointCloudFormat::Las)
            } else if same_text(lower.as_str(), "e57") {
                Some(PointCloudFormat::E57)
            } else {
                None
            }
        },
        None => None,
    }
}

/// Whether all systems see the same extension in a path.
pub open spec fn is_agreed(path: Seq<char>) -> bool {
    reads(PathRules::Windows, path) && extension_on(PathRules::Windows, path) == extension_on(
        PathRules::Slashes,
        path,
    )
}

/// The format that a path's extension stands for.
pub fn detect_format(path: &str) -> (format: Option<PointCloudFormat>)
    ensures
        exists|rules: PathRules, extension: Option<Seq<char>>| #[trigger]
            sees_extension(rules, path@, extension) && format == format_of(extension),
        is_agreed(path@) ==> format == format_of(extension_on(PathRules::Slashes, path@)),
{
    let extension = extension_of(path);
    let ghost rules = choose|rules: PathRules| #[trigger]
        sees_extension(rules, path@, text_of(extension));
    let format = match &extension {
        Some(text) => extension_format(Some(text.as_str())),
        None => extension_format(None),
    };
    assert(sees_extension(rules, path@, text_of(extension)) && format == format_of(
        text_of(extension),
    ));
    format
}

/// Whether a path names a supported format on a system with these rules.
pub open spec fn names_format_on(rules: PathRules, path: Seq<char>) -> bool {
    reads(rules, path) && format_of(extension_on(rules, path)) is Some
}

/// Whether a path names a supported format on all systems.
pub open spec fn names_format(path: Seq<char>) -> bool {
    names_format_on(PathRules::Slashes, path) && names_format_on(PathRules::Windows, path)
}

/// Whether all systems agree on whether a path names a supported format.
pub open spec fn is_settled(path: Seq<char>) -> bool {
    &&& reads(PathRules::Windows, path)
    &&& names_format_on(PathRules::Slashes, path) == names_format_on(PathRules::Windows, path)
}

/// What becomes of a path in which this extension was seen: it stays as it stands where
/// the extension names a supported format, else it gets the default one.
pub open spec fn saves_seen(
    rules: PathRules,
    path: Seq<char>,
    extension: Option<Seq<char>>,
    default_ext: Seq<char>,
    target: Seq<char>,
) -> bool {
    if format_of(extension) is Some {
        target == path
    } else {
        sets_extension(rules, path, default_ext, target)
    }
}

/// Whether a system with these rules saves under `target` what is to be saved under
/// `path`.
pub open spec fn saves_on(
    rules: PathRules,
    path: Seq<char>,
    default_ext: Seq<char>,
    target: Seq<char>,
) -> bool {
    exists|extension: Option<Seq<char>>| #[trigger]
        sees_extension(rules, path, extension) && saves_seen(
            rules,
            path,
            extension,
            default_ext,
            target,
        )
}

/// The path under which a result is saved, given the extension of the path.
pub fn target_for(path: &str, extension: Option<&str>, default_ext: &str) -> (target: String)
    requires
        !has_separator(default_ext@) || format_of(str_text(extension)) is Some,
    ensures
        exists|rules: PathRules| #[trigger]
            saves_seen(rules, path@, str_text(extension), default_ext@, target@),
{
    let ghost seen = str_text(extension);
    if extension_format(extension).is_some() {
        assert(saves_seen(PathRules::Slashes, path@, seen, default_ext@, path@));
        return path.to_owned();
    }
    let target = replace_extension(path, default_ext);
    let ghost rules = choose|rules: PathRules| #[trigger]
        sets_extension(rules, path@, default_ext@, target@);
    assert(saves_seen(rules, path@, seen, default_ext@, target@));
    target
}

/// The path under which a result is saved: as it stands where its extension names a
/// supported format, else with the default extension. Where systems differ on whether it
/// names one, the contract lets one system read the path and another one write it.
pub fn add_extension_if_needed(path: &str, default_ext: &str) -> (target: String)
    requires
        !has_separator(default_ext@) || names_format(path@),
    ensures
        names_format(path@) ==> target@ == path@,
        is_settled(path@) ==> exists|rules: PathRules| #[trigger]
            saves_on(rules, path@, default_ext@, target@),
        exists|seen: PathRules, set: PathRules, extension: Option<Seq<char>>|
            #[trigger] sees_extension(seen, path@, extension) && #[trigger] saves_seen(
                set,
                path@,
                extension,
                default_ext@,
                target@,
            ),
{
    let extension = extension_of(path);
    let ghost seen = choose|rules: PathRules| #[trigger]
        sees_extension(rules, path@, text_of(extension));
    let target = match &extension {
        Some(text) => target_for(path, Some(text.as_str()), default_ext),
        None => target_for(path, None, default_ext),
    };
    proof {
        let set = choose|rules: PathRules| #[trigger]
            saves_seen(rules, path@, text_of(extension), default_ext@, target@);
        assert(sees_extension(seen, path@, text_of(extension)) && saves_seen(
            set,
            path@,
            text_of(extension),
            default_ext@,
            target@,
        ));
        if is_settled(path@) {
            if format_of(text_of(extension)) is Some {
                assert(saves_seen(seen, path@, text_of(extension), default_ext@, target@));
                assert(saves_on(seen, path@, default_ext@, target@));
            } else {
                assert(reads(seen, path@) && reads(set, path@));
                let own = extension_on(set, path@);
                assert(sees_extension(set, path@, own));
                assert(saves_seen(set, path@, own, default_ext@, target@));
                assert(saves_on(set, path@, default_ext@, target@));
            }
        }
    }
    target
}

/// The extension that a result gets by default: that of the input's format, and LAS
/// where there is none.
pub fn default_extension(input: Option<PointCloudFormat>) -> (extension: &'static str)
    ensures
        extension@ == if input == Some(PointCloudFormat::E57) {
            "e57"@
        } else {
            "las"@
        },
{
    match input {
        Some(PointCloudFormat::E57) => "e57",
        _ => "las",
    }
}

/// The file name that is proposed for the result of processing a file with this stem.
pub fn suggested_name(stem: Option<&str>, extension: &str) -> (name: String)
    ensures
        stem is Some ==> stem->0@.is_prefix_of(name@),
        ends_in(name@, extension@),
        name@ == (match stem { Some(text) => text@, None => "output"@ }) + "_processed."@
            + extension@,
{
    let mut name = match stem {
        Some(text) => text.to_owned(),
        None => "output".to_owned(),
    };
    name.append("_processed.");
    let ghost front = name@;
    name.append(extension);
    proof {
        lemma_ends_in(front, extension@);
    }
    name
}

/// On each system a path that names a format stays as it stands, letter by letter.
pub proof fn law_named_path_stays(
    rules: PathRules,
    path: Seq<char>,
    default_ext: Seq<char>,
    target: Seq<char>,
)
    requires
        names_format_on(rules, path),
        saves_on(rules, path, default_ext, target),
    ensures
        target == path,
{
}

/// On each system a result that is saved under a path which leads to a file gets an
/// extension of a supported format, if the default one is such, and keeps its place and
/// its stem. Saving under the name that it got changes the name no more, whatever the
/// default.
pub proof fn law_saved_name_has_a_format(
    rules: PathRules,
    path: Seq<char>,
    default_ext: Seq<char>,
    target: Seq<char>,
    other_ext: Seq<char>,
    again: Seq<char>,
)
    requires
        reads(rules, path),
        file_name_on(rules, path) is Some,
        default_ext == "las"@ || default_ext == "laz"@ || default_ext == "e57"@,
        saves_on(rules, path, default_ext, target),
        saves_on(rules, target, other_ext, again),
    ensures
        names_format_on(rules, target),
        names_format_on(rules, path) ==> target == path,
        !names_format_on(rules, path) ==> extension_on(rules, target) == Some(default_ext),
        same_but_extension(rules, path, target),
        again == target,
{
    reveal_strlit("las");
    reveal_strlit("laz");
    reveal_strlit("e57");
    assert(lowercase(default_ext) =~= default_ext);
    if !names_format_on(rules, path) {
        assert forall|i: int| 0 <= i < default_ext.len() implies default_ext[i] != '/'
            && default_ext[i] != '.' && default_ext[i] != '\\' && default_ext[i] != ':' by {}
        law_extension_is_what_was_set(rules, path, default_ext, target);
    }
}

/// Upper and lower case stand for the same format.
pub proof fn law_case_does_not_matter(extension: Seq<char>)
    requires
        vstd::utf8::is_ascii_chars(extension),
    ensures
        format_of(Some(lowercase(extension))) == format_of(Some(extension)),
{
    let lower = lowercase(extension);
    assert(vstd::utf8::is_ascii_chars(lower)) by {
        assert forall|i: int| 0 <= i < lower.len() implies '\0' <= #[trigger] lower[i]
            <= '\u{7f}' by {
            assert('\0' <= extension[i] <= '\u{7f}');
        }
    }
    assert(lowercase(lower) =~= lower);
}

/// The name that is proposed for a result has the extension it was proposed with, on
/// each system.
pub proof fn law_suggested_name_has_its_extension(
    rules: PathRules,
    stem: Seq<char>,
    extension: Seq<char>,
)
    requires
        !has_separator(stem),
        !stem.contains(':'),
        extension.len() > 0,
        !has_separator(extension),
        !extension.contains(':'),
        !extension.contains('.'),
    ensures
        reads(rules, stem + "_processed."@ + extension),
        extension_on(rules, stem + "_processed."@ + extension) == Some(extension),
{
    reveal_strlit("_processed.");
    reveal_strlit("_processed");
    let front = stem + "_processed"@;
    assert forall|i: int| 0 <= i < front.len() implies front[i] != '/' && front[i] != '\\'
        && front[i] != ':' by {
        if i < stem.len() {
            assert(stem.contains(stem[i]));
        }
    }
    assert(stem + "_processed."@ + extension =~= front + seq!['.'] + extension);
    law_extension_of_a_plain_name(rules, front, extension);
}

/// An extension of ASCII letters stands for LAS exactly if it spells out one of the two
/// LAS extensions, and for E57 exactly if it spells out that one, each letter in either
/// case.
pub proof fn law_extensions_are_spelled_out(text: Seq<char>)
    requires
        vstd::utf8::is_ascii_chars(text),
    ensures
        format_of(Some(text)) == Some(PointCloudFormat::Las) <==> {
            &&& text.len() == 3
            &&& text[0] == 'l' || text[0] == 'L'
            &&& text[1] == 'a' || text[1] == 'A'
            &&& text[2] == 's' || text[2] == 'S' || text[2] == 'z' || text[2] == 'Z'
        },
        format_of(Some(text)) == Some(PointCloudFormat::E57) <==> {
            &&& text.len() == 3
            &&& text[0] == 'e' || text[0] == 'E'
            &&& text[1] == '5'
            &&& text[2] == '7'
        },
        format_of(None) is None,
{
    reveal_strlit("las");
    reveal_strlit("laz");
    reveal_strlit("e57");
    let lower = lowercase(text);
    assert(lower.len() == text.len());
    assert forall|i: int| 0 <= i < text.len() implies lower[i] == ascii_lowercase(text[i]) by {}
    if text.len() == 3 {
        assert(lower =~= seq![lower[0], lower[1], lower[2]]);
        assert("las"@ =~= seq!['l', 'a', 's']);
        assert("laz"@ =~= seq!['l', 'a', 'z']);
        assert("e57"@ =~= seq!['e', '5', '7']);
        assert(forall|i: int| 0 <= i < 3 ==> '\0' <= #[trigger] text[i] <= '\u{7f}');
    }
}

/// On a path without backslashes, colons and a double separator in front all systems
/// agree.
pub proof fn law_plain_paths_are_settled(path: Seq<char>)
    requires
        !path.contains('\\'),
        !path.contains(':'),
        !has_double_front(path),
    ensures
        is_agreed(path),
        is_settled(path),
        names_format(path) <==> format_of(extension_on(PathRules::Slashes, path)) is Some,
{
    law_plain_paths_are_read_alike(path);
}

/// A path is saved as it stands exactly by its extension: where that names a format it
/// stays, and where it does not, what is set is the default.
pub proof fn law_other_paths_get_the_default(
    rules: PathRules,
    path: Seq<char>,
    default_ext: Seq<char>,
    target: Seq<char>,
)
    requires
        reads(rules, path),
        saves_on(rules, path, default_ext, target),
        format_of(extension_on(rules, path)) is None,
    ensures
        sets_extension(rules, path, default_ext, target),
{
}

} // verus!
