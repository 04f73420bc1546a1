//! File system locations as a root and the names below it.

use std::path::PathBuf;
use vstd::prelude::*;

use crate::text;

verus! {

/// `std::path::PathBuf`, carried through without a look inside.
#[verifier::external_type_specification]
#[verifier::external_body]
pub struct ExPathBuf(std::path::PathBuf);

/// The characters that a path reads as: `Path::to_string_lossy`.
pub uninterp spec fn path_chars(path: std::path::PathBuf) -> Seq<char>;

/// `PathBuf::from` on a text: the path reads as that text.
#[verifier::external_body]
pub(crate) fn path_from_text(text: &str) -> (r: PathBuf)
    ensures
        path_chars(r) == text@,
{
    PathBuf::from(text)
}

/// `Path::to_string_lossy`: the characters that the path reads as.
#[verifier::external_body]
pub(crate) fn path_text(path: &PathBuf) -> (r: String)
    ensures
        r@ == path_chars(*path),
{
    path.to_string_lossy().into_owned()
}

/// A text that starts as an absolute path does on some operating system: with a slash, a
/// backslash, or a drive letter.
pub open spec fn rooted(path: Seq<char>) -> bool {
    path.len() > 0 && (path[0] == '/' || path[0] == '\\' || (path.len() > 2 && path[1] == ':'))
}

/// `Path::is_absolute` on a text. An absolute path starts with a slash, with a backslash, or
/// with a drive letter and a colon; which of these counts differs between operating systems,
/// so no text is said to be absolute.
#[verifier::external_body]
pub(crate) fn is_absolute(path: &str) -> (r: bool)
    ensures
        r ==> rooted(path@),
{
    std::path::Path::new(path).is_absolute()
}

/// A text that every operating system reads as one name, not as a path with several parts.
pub open spec fn single_name(name: Seq<char>) -> bool {
    &&& name.len() > 0
    &&& !name.contains('/')
    &&& !name.contains('\\')
    &&& !name.contains(':')
    &&& name != "."@
    &&& name != ".."@
}

/// Where the last dot of a name stands; before the name where there is none.
pub open spec fn last_dot(name: Seq<char>) -> int
    decreases name.len(),
{
    if name.len() == 0 {
        -1
    } else if name.last() == '.' {
        name.len() - 1
    } else {
        last_dot(name.drop_last())
    }
}

/// A name without its extension. A dot in front does not begin an extension.
pub open spec fn stem_of(name: Seq<char>) -> Seq<char> {
    if last_dot(name) > 0 {
        name.take(last_dot(name))
    } else {
        name
    }
}

/// The extension of a name, without the dot.
pub open spec fn extension_of(name: Seq<char>) -> Option<Seq<char>> {
    if last_dot(name) > 0 {
        Some(name.skip(last_dot(name) + 1))
    } else {
        None
    }
}

/// `Path::file_stem` on a text. What the parts of a path are differs between operating
/// systems; of a single name, the stem is what comes before the final dot, or the name
/// itself where it has no dot or only one in front.
#[verifier::external_body]
pub(crate) fn file_stem(path: &str) -> (r: Option<String>)
    ensures
        single_name(path@) ==> text::optional(r) == Some(stem_of(path@)),
{
    std::path::Path::new(path).file_stem().and_then(|value| value.to_str()).map(|value| value.to_string())
}

/// The end of a text: what follows the last slash, backslash or colon.
pub open spec fn leaf(path: Seq<char>) -> Seq<char>
    decreases path.len(),
{
    if path.len() == 0 || path.last() == '/' || path.last() == '\\' || path.last() == ':' {
        Seq::empty()
    } else {
        leaf(path.drop_last()).push(path.last())
    }
}

/// What follows the last slash of a text.
pub open spec fn after_slash(path: Seq<char>) -> Seq<char>
    decreases path.len(),
{
    if path.len() == 0 || path.last() == '/' {
        Seq::empty()
    } else {
        after_slash(path.drop_last()).push(path.last())
    }
}

/// A text that starts with two separators, as the name of a network share does.
pub open spec fn share(path: Seq<char>) -> bool {
    &&& path.len() > 1
    &&& path[0] == '/' || path[0] == '\\'
    &&& path[1] == '/' || path[1] == '\\'
}

/// A path whose last part has an extension on every operating system: a dot stands in it
/// behind its first character.
pub open spec fn has_extension(path: Seq<char>) -> bool {
    !share(path) && leaf(path) != ".."@ && last_dot(leaf(path)) > 0
}

/// A path whose last part has no extension on any operating system: it holds no dot, or it is
/// a name that only starts with one.
pub open spec fn has_no_extension(path: Seq<char>) -> bool {
    ||| !path.contains('.')
    ||| !share(path) && after_slash(path).len() > 0 && !after_slash(path).contains('.')
        && !after_slash(path).contains('\\')
    ||| single_name(path) && extension_of(path) is None
}

/// `Path::extension` on a text. The extension is what comes after the final dot of the last
/// part, and there is none where that part has no dot or only one in front. What the last part
/// of a path is differs between operating systems, so nothing is said of the texts on which
/// they disagree.
#[verifier::external_body]
pub(crate) fn file_extension(path: &str) -> (r: Option<String>)
    ensures
        has_extension(path@) ==> text::optional(r) == extension_of(leaf(path@)),
        has_no_extension(path@) ==> r is None,
{
    std::path::Path::new(path).extension().and_then(|value| value.to_str()).map(|value| value.to_string())
}

/// A single name is its own last part.
pub proof fn lemma_leaf_of_name(name: Seq<char>)
    requires
        !name.contains('/'),
        !name.contains('\\'),
        !name.contains(':'),
    ensures
        leaf(name) == name,
    decreases name.len(),
{
    if name.len() > 0 {
        assert(name.contains(name.last()));
        assert forall|ch: char| name.drop_last().contains(ch) implies name.contains(ch) by {
            let at = choose|i: int| 0 <= i < name.drop_last().len() && name.drop_last()[i] == ch;
            assert(name[at] == ch);
        }
        lemma_leaf_of_name(name.drop_last());
        assert(name.drop_last().push(name.last()) =~= name);
    }
}

/// `dirs::home_dir`: the user's home directory, where the system knows one.
/// It depends on the environment, so nothing is said of the answer.
pub assume_specification[ dirs::home_dir ]() -> (r: Option<PathBuf>);

/// A path that is still to be put together: the root with the parts joined to
/// it one after the other.
pub struct Location {
    pub root: PathBuf,
    pub parts: Vec<String>,
}

impl Location {
    /// The place is `root` with `parts` below it.
    pub open spec fn is_below(self, root: PathBuf, parts: Seq<Seq<char>>) -> bool {
        &&& self.root == root
        &&& self.parts.deep_view() == parts
    }

    /// The root itself.
    pub fn at(root: PathBuf) -> (r: Self)
        ensures
            r.is_below(root, Seq::empty()),
    {
        let parts: Vec<String> = Vec::new();
        assert(parts.deep_view() == Seq::<Seq<char>>::empty());
        Location { root, parts }
    }

    /// One part further down.
    pub fn join(self, part: &str) -> (r: Self)
        ensures
            r.is_below(self.root, self.parts.deep_view().push(part@)),
    {
        let mut parts: Vec<String> = self.parts;
        let ghost before = parts.deep_view();
        parts.push(part.to_owned());
        assert(parts.deep_view() == before.push(part@));
        Location { root: self.root, parts }
    }
}

/// A name is its stem and its extension with a dot between them, the dot being the last one. A
/// dot in front begins no extension.
pub proof fn law_a_name_is_its_stem_and_its_extension(name: Seq<char>, dot: int)
    ensures
        0 < dot < name.len() && name[dot] == '.' && (forall|i: int|
            dot < i < name.len() ==> #[trigger] name[i] != '.') ==> stem_of(name) == name.take(dot)
            && extension_of(name) == Some(name.skip(dot + 1)),
        (forall|i: int| 0 < i < name.len() ==> #[trigger] name[i] != '.') ==> stem_of(name) == name
            && extension_of(name) is None,
{
    if 0 < dot < name.len() && name[dot] == '.' && (forall|i: int|
        dot < i < name.len() ==> #[trigger] name[i] != '.') {
        lemma_where_the_last_dot_stands(name, dot);
    }
    if forall|i: int| 0 < i < name.len() ==> #[trigger] name[i] != '.' {
        lemma_no_late_dot(name);
    }
}

/// The last dot of a name stands where no dot follows.
proof fn lemma_where_the_last_dot_stands(name: Seq<char>, dot: int)
    requires
        0 <= dot < name.len(),
        name[dot] == '.',
        forall|i: int| dot < i < name.len() ==> #[trigger] name[i] != '.',
    ensures
        last_dot(name) == dot,
    decreases name.len(),
{
    if dot < name.len() - 1 {
        assert(name[name.len() - 1] != '.');
        let shorter = name.drop_last();
        assert forall|i: int| dot < i < shorter.len() implies #[trigger] shorter[i] != '.' by {
            assert(shorter[i] == name[i]);
        }
        lemma_where_the_last_dot_stands(shorter, dot);
    }
}

/// Without a dot behind the first character, the last dot stands in front or nowhere.
proof fn lemma_no_late_dot(name: Seq<char>)
    requires
        forall|i: int| 0 < i < name.len() ==> #[trigger] name[i] != '.',
    ensures
        last_dot(name) <= 0,
    decreases name.len(),
{
    if name.len() > 1 {
        assert(name[name.len() - 1] != '.');
        let shorter = name.drop_last();
        assert forall|i: int| 0 < i < shorter.len() implies #[trigger] shorter[i] != '.' by {
            assert(shorter[i] == name[i]);
        }
        lemma_no_late_dot(shorter);
    } else if name.len() == 1 {
        assert(last_dot(name.drop_last()) == -1);
    }
}

/// The last part of a path is what follows its last separator, whatever comes before that.
pub proof fn law_the_last_part_follows_the_last_separator(
    before: Seq<char>,
    separator: char,
    name: Seq<char>,
)
    requires
        separator == '/' || separator == '\\' || separator == ':',
        forall|i: int|
            0 <= i < name.len() ==> #[trigger] name[i] != '/' && name[i] != '\\' && name[i] != ':',
    ensures
        leaf(before + seq![separator] + name) == name,
        separator == '/' ==> after_slash(before + seq![separator] + name) == name,
    decreases name.len(),
{
    let whole = before + seq![separator] + name;
    if name.len() == 0 {
        assert(whole.last() == separator);
        assert(name =~= Seq::<char>::empty());
    } else {
        let shorter = name.drop_last();
        assert forall|i: int| 0 <= i < shorter.len() implies #[trigger] shorter[i] != '/' && shorter[i]
            != '\\' && shorter[i] != ':' by {
            assert(shorter[i] == name[i]);
        }
        law_the_last_part_follows_the_last_separator(before, separator, shorter);
        assert(name[name.len() - 1] != '/');
        assert(whole.drop_last() =~= before + seq![separator] + shorter);
        assert(whole.last() == name.last());
        assert(shorter.push(name.last()) =~= name);
    }
}

/// What can be an absolute path starts with a slash, a backslash or a drive letter.
pub proof fn law_what_can_be_absolute(rest: Seq<char>, drive: char, ch: char)
    ensures
        rooted(seq!['/'] + rest),
        rooted(seq!['\\'] + rest),
        rest.len() > 0 ==> rooted(seq![drive, ':'] + rest),
        !rooted(Seq::<char>::empty()),
        ch != '/' && ch != '\\' && (rest.len() == 0 || rest[0] != ':') ==> !rooted(seq![ch] + rest),
{
    assert((seq![drive, ':'] + rest)[1] == ':');
    if rest.len() > 0 {
        assert((seq![ch] + rest)[1] == rest[0]);
    }
}

/// A plain name that has something before and after its last dot has an extension, and one without
/// a dot has none, on every operating system.
pub proof fn law_which_names_have_an_extension(stem: Seq<char>, extension: Seq<char>)
    requires
        stem.len() > 0,
        extension.len() > 0,
        !stem.contains('/') && !stem.contains('\\') && !stem.contains(':'),
        !extension.contains('/') && !extension.contains('\\') && !extension.contains(':'),
        !extension.contains('.'),
    ensures
        has_extension(stem + seq!['.'] + extension),
        single_name(stem + seq!['.'] + extension),
        has_no_extension(extension),
        single_name(extension),
{
    let name = stem + seq!['.'] + extension;
    let dot = stem.len() as int;
    reveal_strlit(".");
    reveal_strlit("..");
    assert forall|i: int| 0 <= i < name.len() implies #[trigger] name[i] != '/' && name[i] != '\\'
        && name[i] != ':' by {
        if i < dot {
            assert(stem.contains(stem[i]));
        } else if i > dot {
            assert(extension.contains(extension[i - dot - 1]));
        }
    }
    lemma_leaf_of_name(name);
    assert forall|i: int| dot < i < name.len() implies #[trigger] name[i] != '.' by {
        assert(extension.contains(extension[i - dot - 1]));
    }
    assert(name[dot] == '.');
    law_a_name_is_its_stem_and_its_extension(name, dot);
    assert(extension.contains(extension[0]));
    assert(name.last() == extension.last());
    assert(extension.contains(extension.last()));
    assert(".."@[1] == '.');
    assert("."@[0] == '.');
}

/// A place is below another exactly where it has the same root and the same parts.
pub proof fn law_where_a_place_is(place: Location, root: PathBuf, parts: Seq<Seq<char>>)
    ensures
        place.is_below(root, parts) <==> place.root == root && place.parts.deep_view() == parts,
        place.is_below(place.root, place.parts.deep_view()),
{
}

} // verus!
