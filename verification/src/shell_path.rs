//! The `PATH` of a macOS application, which starts with next to nothing on it: what the
//! login shell has, and where node and npm are usually installed.

use vstd::prelude::*;

use crate::exec::{CommandSpec, CommandView};
use crate::text;
use crate::text::Class;

verus! {

/// The command that asks the login shell for its `PATH`.
pub open spec fn path_query(shell: Option<Seq<char>>) -> CommandView {
    CommandView::bare(
        match shell {
            Some(program) => program,
            None => "/bin/zsh"@,
        },
    ).with_args(seq!["-lc"@, "printf %s \"$PATH\""@])
}

/// Makes the command that asks the login shell for its `PATH`.
pub fn login_shell_command(shell: Option<String>) -> (r: CommandSpec)
    ensures
        r@ == path_query(text::optional(shell)),
{
    let program: String = match shell {
        Some(name) => name,
        None => "/bin/zsh".to_string(),
    };
    let mut command: CommandSpec = CommandSpec::new(program.as_str());
    command.arg("-lc");
    command.arg("printf %s \"$PATH\"");
    assert(command@ =~= path_query(text::optional(shell)));
    command
}

/// The `PATH` that the login shell has, if it printed one.
pub open spec fn adopted(success: bool, stdout: Seq<char>) -> Option<Seq<char>> {
    if success && text::stripped(stdout).len() > 0 {
        Some(text::stripped(stdout))
    } else {
        None
    }
}

/// The `PATH` to adopt, given what the login shell printed: none where the shell failed or
/// printed nothing.
pub fn adopt_login_shell_path(success: bool, stdout: &str) -> (r: Option<String>)
    ensures
        text::optional(r) == adopted(success, stdout@),
{
    let path: String = text::trim(stdout);
    if success && !path.as_str().is_empty() {
        Some(path)
    } else {
        None
    }
}

/// A part of a version, zero where it is missing or not a number.
pub open spec fn part_number(parts: Seq<Seq<char>>, at: int) -> u64 {
    if at < parts.len() && text::parsed_u64(parts[at]) is Some {
        text::parsed_u64(parts[at])->0
    } else {
        0
    }
}

/// The number of a node version, from the name of its directory.
pub open spec fn node_version(name: Seq<char>) -> (u64, u64, u64) {
    let parts = text::split_on(text::trimmed_start(name, Class::OneOf("v")), Class::OneOf("."));
    (part_number(parts, 0), part_number(parts, 1), part_number(parts, 2))
}

/// The name of a directory, empty where it cannot be read.
pub open spec fn readable(name: Option<String>) -> Seq<char> {
    match name {
        Some(value) => value@,
        None => Seq::empty(),
    }
}

/// Reads a part of a version.
fn read_part(parts: &Vec<String>, at: usize) -> (r: u64)
    ensures
        r == part_number(parts.deep_view(), at as int),
{
    if at < parts.len() {
        assert(parts.deep_view()[at as int] == parts@[at as int]@);
        match text::parse_u64(parts[at].as_str()) {
            Some(number) => number,
            None => 0,
        }
    } else {
        0
    }
}

/// Reads the number of a node version from the name of its directory.
pub fn version_key(name: &Option<String>) -> (r: (u64, u64, u64))
    ensures
        r == node_version(readable(*name)),
{
    let empty: String = String::new();
    let chosen: &str = match name {
        Some(value) => value.as_str(),
        None => empty.as_str(),
    };
    let digits: String = text::trim_start_matches(chosen, Class::OneOf("v"));
    let parts: Vec<String> = text::split(digits.as_str(), Class::OneOf("."));
    (read_part(&parts, 0), read_part(&parts, 1), read_part(&parts, 2))
}

/// The first version is the older one.
pub open spec fn older(left: (u64, u64, u64), right: (u64, u64, u64)) -> bool {
    ||| left.0 < right.0
    ||| left.0 == right.0 && left.1 < right.1
    ||| left.0 == right.0 && left.1 == right.1 && left.2 < right.2
}

/// Tells whether the first version is the older one.
fn is_older(left: (u64, u64, u64), right: (u64, u64, u64)) -> (r: bool)
    ensures
        r == older(left, right),
{
    left.0 < right.0 || (left.0 == right.0 && left.1 < right.1) || (left.0 == right.0 && left.1
        == right.1 && left.2 < right.2)
}

/// The entry comes before the other: its version is newer, or it is as new and was listed
/// first.
pub open spec fn precedes(keys: Seq<(u64, u64, u64)>, left: int, right: int) -> bool {
    older(keys[right], keys[left]) || (keys[left] == keys[right] && left < right)
}

/// The first `count` entries, each once, the newest version first.
pub open spec fn is_newest_first(order: Seq<usize>, keys: Seq<(u64, u64, u64)>, count: int) -> bool {
    &&& order.len() == count
    &&& forall|i: int| 0 <= i < order.len() ==> 0 <= #[trigger] order[i] < count
    &&& forall|i: int, j: int|
        0 <= i < j < order.len() ==> precedes(keys, #[trigger] order[i] as int, #[trigger] order[j] as int)
}

/// Puts one more entry where it belongs.
fn insert_entry(order: &mut Vec<usize>, keys: &Vec<(u64, u64, u64)>, entry: usize)
    requires
        entry < keys.len(),
        is_newest_first(old(order)@, keys@, entry as int),
    ensures
        is_newest_first(final(order)@, keys@, entry + 1),
{
    let mut at: usize = order.len();
    while at > 0 && is_older(keys[order[at - 1]], keys[entry])
        invariant
            at <= order.len(),
            entry < keys.len(),
            is_newest_first(order@, keys@, entry as int),
            forall|i: int|
                at <= i < order.len() ==> older(keys@[#[trigger] order@[i] as int], keys@[entry as int]),
        decreases at,
    {
        at -= 1;
    }
    let ghost before = order@;
    assert forall|i: int| 0 <= i < at implies precedes(
        keys@,
        #[trigger] before[i] as int,
        entry as int,
    ) by {
        let last = before[at - 1] as int;
        assert(!older(keys@[last], keys@[entry as int]));
        if i < at - 1 {
            assert(precedes(keys@, before[i] as int, before[at - 1] as int));
        }
    }
    order.insert(at, entry);
    assert(order@ == before.insert(at as int, entry));
    assert forall|i: int, j: int| 0 <= i < j < order.len() implies precedes(
        keys@,
        #[trigger] order@[i] as int,
        #[trigger] order@[j] as int,
    ) by {
        let left = if i < at { i } else { i - 1 };
        let right = if j < at { j } else { j - 1 };
        if i != at && j != at {
            assert(order@[i] == before[left] && order@[j] == before[right]);
            assert(precedes(keys@, before[left] as int, before[right] as int));
        } else if i == at {
            assert(order@[j] == before[j - 1]);
        } else {
            assert(order@[i] == before[i]);
        }
    }
    assert forall|i: int| 0 <= i < order.len() implies 0 <= #[trigger] order@[i] < entry + 1 by {
        if i < at {
            assert(order@[i] == before[i]);
        } else if i > at {
            assert(order@[i] == before[i - 1]);
        }
    }
}

/// Orders entries, the newest version first; entries of one version keep their order.
pub fn newest_first(keys: &Vec<(u64, u64, u64)>) -> (r: Vec<usize>)
    ensures
        is_newest_first(r@, keys@, keys@.len() as int),
{
    let mut order: Vec<usize> = Vec::new();
    let mut entry: usize = 0;
    while entry < keys.len()
        invariant
            entry <= keys.len(),
            is_newest_first(order@, keys@, entry as int),
        decreases keys.len() - entry,
    {
        insert_entry(&mut order, keys, entry);
        entry += 1;
    }
    order
}

/// No entry is listed twice, and none is listed before one of a newer version.
pub proof fn law_newer_versions_come_first(order: Seq<usize>, keys: Seq<(u64, u64, u64)>)
    requires
        is_newest_first(order, keys, keys.len() as int),
    ensures
        order.no_duplicates(),
        forall|i: int, j: int|
            0 <= i < j < order.len() ==> !older(
                keys[#[trigger] order[i] as int],
                keys[#[trigger] order[j] as int],
            ),
{
    assert forall|i: int, j: int| 0 <= i < order.len() && 0 <= j < order.len() && i != j implies order[i]
        != order[j] by {
        let (low, high) = if i < j { (i, j) } else { (j, i) };
        assert(precedes(keys, order[low] as int, order[high] as int));
    }
    assert forall|i: int, j: int| 0 <= i < j < order.len() implies !older(
        keys[#[trigger] order[i] as int],
        keys[#[trigger] order[j] as int],
    ) by {
        assert(precedes(keys, order[i] as int, order[j] as int));
    }
}

/// A directory in which commands of node and npm may stand.
pub enum PathDir {
    /// Below the home directory.
    Home { parts: Vec<String> },
    /// `bin` in the directory of this node version, counted as the versions were listed.
    Node { entry: usize },
    /// This directory.
    Fixed { path: String },
}

/// The content of a `PathDir`.
pub enum PathDirView {
    Home(Seq<Seq<char>>),
    Node(int),
    Fixed(Seq<char>),
}

impl PathDir {
    /// The content of the directory's description.
    pub open spec fn content(self) -> PathDirView {
        match self {
            PathDir::Home { parts } => PathDirView::Home(parts.deep_view()),
            PathDir::Node { entry } => PathDirView::Node(entry as int),
            PathDir::Fixed { path } => PathDirView::Fixed(path@),
        }
    }
}

/// The contents of the descriptions.
pub open spec fn dir_contents(dirs: Seq<PathDir>) -> Seq<PathDirView> {
    dirs.map_values(|dir: PathDir| dir.content())
}

/// The directories below the home directory: those of npm with its two usual prefixes.
pub open spec fn home_dirs() -> Seq<PathDirView> {
    seq![
        PathDirView::Home(seq![".npm-global"@, "bin"@]),
        PathDirView::Home(seq!["node_modules"@, ".bin"@]),
    ]
}

/// The directories of Homebrew, of the system and of MacPorts.
pub open spec fn fixed_dirs() -> Seq<PathDirView> {
    seq![
        PathDirView::Fixed("/opt/homebrew/bin"@),
        PathDirView::Fixed("/opt/homebrew/opt/node@24/bin"@),
        PathDirView::Fixed("/opt/homebrew/opt/node@22/bin"@),
        PathDirView::Fixed("/opt/homebrew/opt/node@20/bin"@),
        PathDirView::Fixed("/opt/homebrew/opt/node@18/bin"@),
        PathDirView::Fixed("/usr/local/bin"@),
        PathDirView::Fixed("/opt/local/bin"@),
    ]
}

/// The versions that have a `bin` directory, in the given order.
pub open spec fn node_dirs(order: Seq<usize>, has_bin: Seq<bool>) -> Seq<PathDirView>
    decreases order.len(),
{
    if order.len() == 0 {
        Seq::empty()
    } else {
        let before = node_dirs(order.drop_last(), has_bin);
        if has_bin[order.last() as int] {
            before.push(PathDirView::Node(order.last() as int))
        } else {
            before
        }
    }
}

/// The numbers of the node versions, from the names of their directories.
pub open spec fn node_versions(names: Seq<Option<String>>) -> Seq<(u64, u64, u64)> {
    names.map_values(|name: Option<String>| node_version(readable(name)))
}

/// Makes the description of a directory below the home directory.
fn home_dir(first: &str, second: &str) -> (r: PathDir)
    ensures
        r.content() == PathDirView::Home(seq![first@, second@]),
{
    let mut parts: Vec<String> = Vec::new();
    parts.push(first.to_owned());
    parts.push(second.to_owned());
    assert(parts.deep_view() =~= seq![first@, second@]);
    PathDir::Home { parts }
}

/// Lists the directories in which commands of node and npm usually stand, given the names
/// of the installed node versions and which of them have a `bin` directory. Newer versions
/// come first.
pub fn known_path_dirs(names: &Vec<Option<String>>, has_bin: &Vec<bool>) -> (r: Vec<PathDir>)
    requires
        names.len() == has_bin.len(),
    ensures
        exists|order: Seq<usize>|
            is_newest_first(order, node_versions(names@), names@.len() as int) && dir_contents(r@)
                == home_dirs() + #[trigger] node_dirs(order, has_bin@) + fixed_dirs(),
{
    let mut keys: Vec<(u64, u64, u64)> = Vec::new();
    let mut at: usize = 0;
    while at < names.len()
        invariant
            at <= names.len(),
            keys@ == node_versions(names@).take(at as int),
        decreases names.len() - at,
    {
        keys.push(version_key(&names[at]));
        assert(keys@ =~= node_versions(names@).take(at + 1));
        at += 1;
    }
    assert(keys@ =~= node_versions(names@));
    let order: Vec<usize> = newest_first(&keys);
    let mut dirs: Vec<PathDir> = Vec::new();
    dirs.push(home_dir(".npm-global", "bin"));
    dirs.push(home_dir("node_modules", ".bin"));
    assert(dir_contents(dirs@) =~= home_dirs() + node_dirs(order@.take(0), has_bin@));
    let mut next: usize = 0;
    while next < order.len()
        invariant
            next <= order.len(),
            order.len() == has_bin.len(),
            is_newest_first(order@, keys@, order@.len() as int),
            dir_contents(dirs@) == home_dirs() + node_dirs(order@.take(next as int), has_bin@),
        decreases order.len() - next,
    {
        let entry: usize = order[next];
        let ghost before = dir_contents(dirs@);
        assert(order@.take(next + 1).drop_last() =~= order@.take(next as int));
        assert(order@.take(next + 1).last() == entry);
        if has_bin[entry] {
            dirs.push(PathDir::Node { entry });
            assert(dir_contents(dirs@) =~= before.push(PathDirView::Node(entry as int)));
        }
        assert(dir_contents(dirs@) =~= home_dirs() + node_dirs(order@.take(next + 1), has_bin@));
        next += 1;
    }
    assert(order@.take(next as int) =~= order@);
    let ghost before = dir_contents(dirs@);
    dirs.push(PathDir::Fixed { path: "/opt/homebrew/bin".to_string() });
    dirs.push(PathDir::Fixed { path: "/opt/homebrew/opt/node@24/bin".to_string() });
    dirs.push(PathDir::Fixed { path: "/opt/homebrew/opt/node@22/bin".to_string() });
    dirs.push(PathDir::Fixed { path: "/opt/homebrew/opt/node@20/bin".to_string() });
    dirs.push(PathDir::Fixed { path: "/opt/homebrew/opt/node@18/bin".to_string() });
    dirs.push(PathDir::Fixed { path: "/usr/local/bin".to_string() });
    dirs.push(PathDir::Fixed { path: "/opt/local/bin".to_string() });
    assert(dir_contents(dirs@) =~= before + fixed_dirs());
    dirs
}

/// What a Unix path consists of, by which paths are told apart: whether it starts at the
/// root, whether it starts at the current directory, and its names.
pub struct UnixPath {
    pub rooted: bool,
    pub current: bool,
    pub names: Vec<String>,
}

/// A piece between slashes that is part of the path.
pub open spec fn is_name(piece: Seq<char>) -> bool {
    piece.len() > 0 && piece != "."@
}

/// The names of a path: doubled slashes and single dots between them do not count.
pub open spec fn path_names(pieces: Seq<Seq<char>>) -> Seq<Seq<char>>
    decreases pieces.len(),
{
    if pieces.len() == 0 {
        Seq::empty()
    } else if is_name(pieces.last()) {
        path_names(pieces.drop_last()).push(pieces.last())
    } else {
        path_names(pieces.drop_last())
    }
}

/// What a Unix path consists of: root, current directory, names.
pub open spec fn unix_parts(path: Seq<char>) -> (bool, bool, Seq<Seq<char>>) {
    let pieces = text::split_on(path, Class::OneOf("/"));
    (path.len() > 0 && path[0] == '/', pieces[0] == "."@, path_names(pieces))
}

/// Two texts name the same path.
pub open spec fn same_path(left: Seq<char>, right: Seq<char>) -> bool {
    unix_parts(left) == unix_parts(right)
}

/// Takes a Unix path apart.
fn take_apart(path: &str) -> (r: UnixPath)
    ensures
        (r.rooted, r.current, r.names.deep_view()) == unix_parts(path@),
{
    proof {
        text::lemma_split_nonempty(path@, Class::OneOf("/"));
    }
    let rooted: bool = text::starts_with(path, "/");
    proof {
        reveal_strlit("/");
        assert(rooted == (path@.len() > 0 && path@[0] == '/')) by {
            if path@.len() > 0 {
                assert("/"@[0] == '/');
                if path@[0] == '/' {
                    assert("/"@ =~= path@.subrange(0, 1));
                }
            }
        }
    }
    let pieces: Vec<String> = text::split(path, Class::OneOf("/"));
    let ghost all = pieces.deep_view();
    assert(all[0] == pieces@[0]@);
    let current: bool = text::same_text(pieces[0].as_str(), ".");
    let mut names: Vec<String> = Vec::new();
    let mut at: usize = 0;
    assert(names.deep_view() =~= path_names(all.take(0)));
    while at < pieces.len()
        invariant
            at <= pieces.len(),
            all == pieces.deep_view(),
            names.deep_view() == path_names(all.take(at as int)),
        decreases pieces.len() - at,
    {
        let ghost before = names.deep_view();
        let ghost piece = pieces@[at as int]@;
        assert(all.take(at + 1).drop_last() =~= all.take(at as int));
        assert(all.take(at + 1).last() == piece);
        if !pieces[at].as_str().is_empty() && !text::same_text(pieces[at].as_str(), ".") {
            names.push(pieces[at].clone());
            assert(names.deep_view() =~= before.push(piece));
        }
        at += 1;
    }
    assert(all.take(at as int) =~= all);
    UnixPath { rooted, current, names }
}

/// Tells whether two texts name the same path.
pub fn equal_paths(left: &str, right: &str) -> (r: bool)
    ensures
        r == same_path(left@, right@),
{
    let one: UnixPath = take_apart(left);
    let other: UnixPath = take_apart(right);
    if one.rooted != other.rooted || one.current != other.current || one.names.len()
        != other.names.len() {
        assert(one.names.deep_view().len() == one.names@.len());
        assert(other.names.deep_view().len() == other.names@.len());
        return false;
    }
    let mut at: usize = 0;
    while at < one.names.len()
        invariant
            at <= one.names.len() == other.names.len(),
            forall|i: int|
                0 <= i < at ==> one.names.deep_view()[i] == #[trigger] other.names.deep_view()[i],
            (one.rooted, one.current, one.names.deep_view()) == unix_parts(left@),
            (other.rooted, other.current, other.names.deep_view()) == unix_parts(right@),
        decreases one.names.len() - at,
    {
        assert(one.names.deep_view()[at as int] == one.names@[at as int]@);
        assert(other.names.deep_view()[at as int] == other.names@[at as int]@);
        if !text::same_text(one.names[at].as_str(), other.names[at].as_str()) {
            return false;
        }
        at += 1;
    }
    assert(one.names.deep_view() =~= other.names.deep_view());
    true
}

/// A directory that may be added to `PATH`.
pub struct Candidate {
    pub path: String,
    pub exists: bool,
}

/// The path is among the parts.
pub open spec fn listed(parts: Seq<Seq<char>>, path: Seq<char>) -> bool {
    exists|i: int| 0 <= i < parts.len() && same_path(#[trigger] parts[i], path)
}

/// The path is one of the directories that are there.
pub open spec fn offered(dirs: Seq<Candidate>, path: Seq<char>) -> bool {
    exists|k: int| 0 <= k < dirs.len() && (#[trigger] dirs[k]).exists && dirs[k].path@ == path
}

/// The parts with the directories added that are there and not yet listed.
pub open spec fn extended(parts: Seq<Seq<char>>, dirs: Seq<Candidate>) -> Seq<Seq<char>>
    decreases dirs.len(),
{
    if dirs.len() == 0 {
        parts
    } else {
        let before = extended(parts, dirs.drop_last());
        let dir = dirs.last();
        if dir.exists && !listed(before, dir.path@) {
            before.push(dir.path@)
        } else {
            before
        }
    }
}

/// The parts can be joined again: no separator occurs in them.
pub open spec fn joinable(parts: Seq<Seq<char>>) -> bool {
    forall|i: int| 0 <= i < parts.len() ==> !(#[trigger] parts[i]).contains(':')
}

/// The parts of `PATH`.
pub open spec fn path_parts(path: Seq<char>) -> Seq<Seq<char>> {
    text::split_on(path, Class::OneOf(":"))
}

/// `PATH` with the directories added; unchanged where one of them cannot stand on it.
pub open spec fn merged(dirs: Seq<Candidate>, current: Seq<char>) -> Seq<char> {
    let parts = extended(path_parts(current), dirs);
    if joinable(parts) {
        text::joined(parts, ":"@)
    } else {
        current
    }
}

/// The colon that separates the parts of `PATH`.
proof fn lemma_colon()
    ensures
        text::only(Class::OneOf(":"), ':'),
        ":"@ == seq![':'],
{
    reveal_strlit(":");
    assert(":"@ =~= seq![':']);
    text::lemma_only(":", ':');
}

/// Tells whether the path is among the parts.
fn is_listed(parts: &Vec<String>, path: &str) -> (r: bool)
    ensures
        r == listed(parts.deep_view(), path@),
{
    let ghost all = parts.deep_view();
    let mut at: usize = 0;
    while at < parts.len()
        invariant
            at <= parts.len(),
            all == parts.deep_view(),
            forall|i: int| 0 <= i < at ==> !same_path(#[trigger] all[i], path@),
        decreases parts.len() - at,
    {
        assert(all[at as int] == parts@[at as int]@);
        if equal_paths(parts[at].as_str(), path) {
            return true;
        }
        at += 1;
    }
    false
}

/// Adds directories to the end of `PATH` that are there and not yet on it. Where one of
/// them has a colon in its name, `PATH` stays as it is.
pub fn merge_existing_path_dirs(dirs: &Vec<Candidate>, current: &str) -> (r: String)
    ensures
        r@ == merged(dirs@, current@),
{
    let mut parts: Vec<String> = text::split(current, Class::OneOf(":"));
    let mut path: String = current.to_owned();
    let mut clean: bool = true;
    proof {
        lemma_colon();
        text::lemma_split_nonempty(current@, Class::OneOf(":"));
        text::lemma_split_pieces(current@, Class::OneOf(":"), ':');
        text::lemma_join_split(current@, Class::OneOf(":"), ':');
    }
    assert(dirs@.take(0) =~= Seq::<Candidate>::empty());
    let mut at: usize = 0;
    while at < dirs.len()
        invariant
            at <= dirs.len(),
            ":"@ == seq![':'],
            parts.len() > 0,
            parts.deep_view() == extended(path_parts(current@), dirs@.take(at as int)),
            path@ == text::joined(parts.deep_view(), ":"@),
            clean == joinable(parts.deep_view()),
        decreases dirs.len() - at,
    {
        let ghost before = parts.deep_view();
        let ghost dir = dirs@[at as int];
        assert(dirs@.take(at + 1).drop_last() =~= dirs@.take(at as int));
        assert(dirs@.take(at + 1).last() == dir);
        if dirs[at].exists && !is_listed(&parts, dirs[at].path.as_str()) {
            path.append(":");
            path.append(dirs[at].path.as_str());
            if text::contains_char(dirs[at].path.as_str(), ':') {
                clean = false;
            }
            parts.push(dirs[at].path.clone());
            let ghost longer = before.push(dir.path@);
            assert(parts.deep_view() =~= longer);
            assert(longer.drop_last() =~= before);
            assert(before.len() == parts@.len() - 1);
            assert(joinable(longer) == (joinable(before) && !dir.path@.contains(':'))) by {
                if joinable(longer) {
                    assert forall|i: int| 0 <= i < before.len() implies !(#[trigger] before[i]).contains(
                        ':',
                    ) by {
                        assert(longer[i] == before[i]);
                    }
                    assert(!longer[longer.len() - 1].contains(':'));
                }
            }
        }
        at += 1;
    }
    assert(dirs@.take(at as int) =~= dirs@);
    if clean {
        path
    } else {
        current.to_owned()
    }
}

/// Adding directories keeps what was there, in front and in order, and adds none that is
/// missing or already listed.
proof fn lemma_extended(parts: Seq<Seq<char>>, dirs: Seq<Candidate>)
    ensures
        parts.is_prefix_of(extended(parts, dirs)),
        extended(parts, dirs).len() >= parts.len(),
        forall|i: int|
            parts.len() <= i < extended(parts, dirs).len() ==> offered(
                dirs,
                #[trigger] extended(parts, dirs)[i],
            ),
        forall|i: int, j: int|
            0 <= i < j < extended(parts, dirs).len() && parts.len() <= j ==> !same_path(
                #[trigger] extended(parts, dirs)[i],
                #[trigger] extended(parts, dirs)[j],
            ),
        forall|k: int|
            0 <= k < dirs.len() && dirs[k].exists ==> listed(
                extended(parts, dirs),
                (#[trigger] dirs[k]).path@,
            ),
    decreases dirs.len(),
{
    if dirs.len() == 0 {
        assert(parts =~= parts.subrange(0, parts.len() as int));
    } else {
        let shorter = dirs.drop_last();
        let before = extended(parts, shorter);
        let after = extended(parts, dirs);
        let dir = dirs.last();
        lemma_extended(parts, shorter);
        assert(parts =~= after.subrange(0, parts.len() as int)) by {
            assert(parts =~= before.subrange(0, parts.len() as int));
        }
        assert forall|i: int| parts.len() <= i < after.len() implies offered(dirs, #[trigger] after[i]) by {
            if i < before.len() {
                assert(offered(shorter, before[i]));
                let k = choose|k: int|
                    0 <= k < shorter.len() && (#[trigger] shorter[k]).exists && shorter[k].path@
                        == before[i];
                assert(dirs[k] == shorter[k]);
            } else {
                assert(dirs[dirs.len() - 1] == dir);
            }
        }
        assert forall|i: int, j: int|
            0 <= i < j < after.len() && parts.len() <= j implies !same_path(
            #[trigger] after[i],
            #[trigger] after[j],
        ) by {
            if j < before.len() {
                assert(!same_path(before[i], before[j]));
            } else {
                assert(!same_path(before[i], dir.path@));
            }
        }
        assert forall|k: int| 0 <= k < dirs.len() && dirs[k].exists implies listed(
            after,
            (#[trigger] dirs[k]).path@,
        ) by {
            if k < shorter.len() {
                assert(shorter[k] == dirs[k]);
                let i = choose|i: int|
                    0 <= i < before.len() && same_path(#[trigger] before[i], shorter[k].path@);
                assert(after[i] == before[i]);
            } else if !listed(before, dir.path@) {
                assert(same_path(after[after.len() - 1], dir.path@));
            } else {
                assert(after == before);
            }
        }
    }
}

/// What was on `PATH` stays in front and in order.
pub proof fn law_merging_keeps_the_path(dirs: Seq<Candidate>, current: Seq<char>)
    ensures
        current.is_prefix_of(merged(dirs, current)),
{
    let parts = path_parts(current);
    let all = extended(parts, dirs);
    lemma_colon();
    lemma_extended(parts, dirs);
    text::lemma_split_nonempty(current, Class::OneOf(":"));
    text::lemma_join_split(current, Class::OneOf(":"), ':');
    if joinable(all) {
        lemma_joined_prefix(parts, all);
    } else {
        assert(current =~= current.subrange(0, current.len() as int));
    }
}

/// Joining more parts only adds to the end.
proof fn lemma_joined_prefix(parts: Seq<Seq<char>>, all: Seq<Seq<char>>)
    requires
        0 < parts.len(),
        parts.is_prefix_of(all),
    ensures
        text::joined(parts, ":"@).is_prefix_of(text::joined(all, ":"@)),
    decreases all.len(),
{
    let start = text::joined(parts, ":"@);
    if all.len() == parts.len() {
        assert(all =~= parts);
        assert(start =~= start.subrange(0, start.len() as int));
    } else {
        let before = all.drop_last();
        assert(parts =~= before.subrange(0, parts.len() as int));
        lemma_joined_prefix(parts, before);
        let shorter = text::joined(before, ":"@);
        let longer = text::joined(all, ":"@);
        assert(longer == shorter + ":"@ + all.last());
        assert(start =~= shorter.subrange(0, start.len() as int));
        assert(start =~= longer.subrange(0, start.len() as int));
    }
}

/// What is added to `PATH` is there, and is neither on it yet nor added twice; whatever is
/// there of the directories is on it afterwards.
pub proof fn law_only_new_directories_are_added(dirs: Seq<Candidate>, current: Seq<char>, added: int)
    requires
        path_parts(current).len() <= added < extended(path_parts(current), dirs).len(),
    ensures
        ({
            let all = extended(path_parts(current), dirs);
            &&& offered(dirs, all[added])
            &&& forall|i: int| 0 <= i < added ==> !same_path(#[trigger] all[i], all[added])
            &&& forall|k: int|
                0 <= k < dirs.len() && dirs[k].exists ==> listed(all, (#[trigger] dirs[k]).path@)
        }),
{
    lemma_extended(path_parts(current), dirs);
}

/// Where everything is listed already, nothing is added.
proof fn lemma_nothing_to_add(parts: Seq<Seq<char>>, dirs: Seq<Candidate>)
    requires
        forall|k: int|
            0 <= k < dirs.len() && dirs[k].exists ==> listed(parts, (#[trigger] dirs[k]).path@),
    ensures
        extended(parts, dirs) == parts,
    decreases dirs.len(),
{
    if dirs.len() > 0 {
        let shorter = dirs.drop_last();
        assert forall|k: int| 0 <= k < shorter.len() && shorter[k].exists implies listed(
            parts,
            (#[trigger] shorter[k]).path@,
        ) by {
            assert(shorter[k] == dirs[k]);
        }
        lemma_nothing_to_add(parts, shorter);
        assert(dirs[dirs.len() - 1] == dirs.last());
    }
}

/// Adding the same directories again changes nothing.
pub proof fn law_merging_again_changes_nothing(dirs: Seq<Candidate>, current: Seq<char>)
    ensures
        merged(dirs, merged(dirs, current)) == merged(dirs, current),
{
    let parts = path_parts(current);
    let all = extended(parts, dirs);
    lemma_colon();
    lemma_extended(parts, dirs);
    text::lemma_split_nonempty(current, Class::OneOf(":"));
    if joinable(all) {
        text::lemma_split_join(all, Class::OneOf(":"), ':');
        lemma_nothing_to_add(all, dirs);
    }
}

/// The version of a node installation is read from the name of its directory, with a `v` in
/// front or without.
pub proof fn law_the_version_of_node_is_read(major: u64, minor: u64, patch: u64)
    ensures
        ({
            let version = text::decimal(major as nat) + seq!['.'] + text::decimal(minor as nat)
                + seq!['.'] + text::decimal(patch as nat);
            &&& node_version(version) == (major, minor, patch)
            &&& node_version(seq!['v'] + version) == (major, minor, patch)
        }),
{
    let first = text::decimal(major as nat);
    let second = text::decimal(minor as nat);
    let third = text::decimal(patch as nat);
    let version = first + seq!['.'] + second + seq!['.'] + third;
    let dot = Class::OneOf(".");
    let prefix = Class::OneOf("v");
    reveal_strlit(".");
    reveal_strlit("v");
    assert("."@[0] == '.' && "v"@[0] == 'v');
    assert(dot.has('.'));
    text::lemma_decimal(major as nat);
    text::lemma_decimal(minor as nat);
    text::lemma_decimal(patch as nat);
    text::law_decimal_round_trip(major);
    text::law_decimal_round_trip(minor);
    text::law_decimal_round_trip(patch);
    lemma_digits_have_no_dot(first);
    lemma_digits_have_no_dot(second);
    lemma_digits_have_no_dot(third);
    text::law_a_text_is_cut_at_the_class(Seq::empty(), '.', first, dot);
    text::law_a_text_is_cut_at_the_class(first, '.', second, dot);
    text::law_a_text_is_cut_at_the_class(first + seq!['.'] + second, '.', third, dot);
    let parts = text::split_on(version, dot);
    assert(parts == seq![first].push(second).push(third));
    assert(text::is_digit(first[0]));
    assert(version[0] == first[0]);
    assert(text::trimmed_start(version, prefix) == version);
    let longer = seq!['v'] + version;
    assert(longer.drop_first() =~= version);
    assert(prefix.has(longer[0]));
    assert(text::trimmed_start(longer, prefix) == version);
}

/// Digits are no dots.
proof fn lemma_digits_have_no_dot(digits: Seq<char>)
    requires
        text::all_digits(digits),
    ensures
        forall|i: int| 0 <= i < digits.len() ==> !Class::OneOf(".").has(#[trigger] digits[i]),
{
    reveal_strlit(".");
    assert forall|i: int| 0 <= i < digits.len() implies !Class::OneOf(".").has(#[trigger] digits[i]) by {
        assert(text::is_digit(digits[i]));
    }
}

/// Of two versions of node the one is older whose number is smaller where they first differ.
pub proof fn law_which_node_is_older(left: (u64, u64, u64), right: (u64, u64, u64))
    ensures
        left.0 < right.0 ==> older(left, right),
        left.0 == right.0 && left.1 < right.1 ==> older(left, right),
        left.0 == right.0 && left.1 == right.1 ==> (older(left, right) <==> left.2 < right.2),
        older(left, right) ==> !older(right, left),
        !older(left, right) && !older(right, left) ==> left == right,
{
}

/// Every installed version stands in the order once.
pub proof fn law_every_version_stands_in_the_order(
    order: Seq<usize>,
    keys: Seq<(u64, u64, u64)>,
    entry: int,
)
    requires
        is_newest_first(order, keys, keys.len() as int),
        0 <= entry < keys.len(),
    ensures
        exists|i: int| 0 <= i < order.len() && #[trigger] order[i] == entry,
{
    law_newer_versions_come_first(order, keys);
    let numbers = order.map_values(|one: usize| one as int);
    assert(numbers.no_duplicates()) by {
        assert forall|i: int, j: int|
            0 <= i < numbers.len() && 0 <= j < numbers.len() && i != j implies numbers[i] != numbers[j] by {
            assert(order[i] != order[j]);
        }
    }
    let range = vstd::set_lib::set_int_range(0, keys.len() as int);
    vstd::set_lib::lemma_int_range(0, keys.len() as int);
    numbers.unique_seq_to_set();
    assert(numbers.to_set().subset_of(range)) by {
        assert forall|one: int| numbers.to_set().contains(one) implies range.contains(one) by {
            let i = choose|i: int| 0 <= i < numbers.len() && numbers[i] == one;
            assert(order[i] < keys.len());
        }
    }
    vstd::set_lib::lemma_subset_equality(numbers.to_set(), range);
    assert(range.contains(entry));
    assert(numbers.to_set().contains(entry));
    let i = choose|i: int| 0 <= i < numbers.len() && numbers[i] == entry;
    assert(order[i] == entry);
}

/// The versions that are listed are those with a `bin` directory, all of them and in their order.
pub proof fn law_versions_with_commands_are_listed(order: Seq<usize>, entry: usize, has_bin: Seq<bool>)
    ensures
        node_dirs(Seq::<usize>::empty(), has_bin).len() == 0,
        has_bin[entry as int] ==> node_dirs(order.push(entry), has_bin) == node_dirs(order, has_bin).push(
            PathDirView::Node(entry as int),
        ),
        !has_bin[entry as int] ==> node_dirs(order.push(entry), has_bin) == node_dirs(order, has_bin),
{
    assert(order.push(entry).drop_last() =~= order);
}

/// The login shell is asked for its `PATH`, and it is zsh where the user has none.
pub proof fn law_the_login_shell_is_asked(shell: Seq<char>)
    ensures
        path_query(Some(shell)).program == shell,
        path_query(None).program == "/bin/zsh"@,
        path_query(Some(shell)).args == seq!["-lc"@, "printf %s \"$PATH\""@],
        path_query(None).args == path_query(Some(shell)).args,
{
    assert(path_query(Some(shell)).args =~= seq!["-lc"@, "printf %s \"$PATH\""@]);
    assert(path_query(None).args =~= seq!["-lc"@, "printf %s \"$PATH\""@]);
}

/// Paths from the root are told apart by their names: two name the same directory exactly where
/// their names are the same.
pub proof fn law_paths_are_told_apart_by_their_names(left: Seq<Seq<char>>, right: Seq<Seq<char>>)
    requires
        left.len() > 0,
        right.len() > 0,
        forall|i: int|
            0 <= i < left.len() ==> (#[trigger] left[i]).len() > 0 && !left[i].contains('/') && left[i]
                != "."@,
        forall|i: int|
            0 <= i < right.len() ==> (#[trigger] right[i]).len() > 0 && !right[i].contains('/')
                && right[i] != "."@,
    ensures
        same_path(
            text::joined(seq![Seq::<char>::empty()] + left, seq!['/']),
            text::joined(seq![Seq::<char>::empty()] + right, seq!['/']),
        ) <==> left == right,
{
    lemma_parts_of_a_path(left);
    lemma_parts_of_a_path(right);
}

/// What a path from the root consists of.
proof fn lemma_parts_of_a_path(names: Seq<Seq<char>>)
    requires
        names.len() > 0,
        forall|i: int|
            0 <= i < names.len() ==> (#[trigger] names[i]).len() > 0 && !names[i].contains('/')
                && names[i] != "."@,
    ensures
        unix_parts(text::joined(seq![Seq::<char>::empty()] + names, seq!['/'])) == (true, false, names),
{
    let nothing = Seq::<char>::empty();
    let pieces = seq![nothing] + names;
    let path = text::joined(pieces, seq!['/']);
    reveal_strlit("/");
    reveal_strlit(".");
    assert("/"@ =~= seq!['/']);
    text::lemma_only("/", '/');
    assert forall|i: int| 0 <= i < pieces.len() implies !(#[trigger] pieces[i]).contains('/') by {
        if i > 0 {
            assert(pieces[i] == names[i - 1]);
        }
    }
    text::lemma_split_join(pieces, Class::OneOf("/"), '/');
    lemma_all_names(names);
    lemma_starts_with_a_slash(names);
    assert(pieces[0] == nothing);
    assert("."@.len() == 1);
}

/// Names are all names of a path.
proof fn lemma_all_names(names: Seq<Seq<char>>)
    requires
        forall|i: int| 0 <= i < names.len() ==> (#[trigger] names[i]).len() > 0 && names[i] != "."@,
    ensures
        path_names(seq![Seq::<char>::empty()] + names) == names,
    decreases names.len(),
{
    let pieces = seq![Seq::<char>::empty()] + names;
    if names.len() == 0 {
        assert(pieces.drop_last() =~= Seq::<Seq<char>>::empty());
        assert(path_names(pieces.drop_last()) =~= names);
    } else {
        let shorter = names.drop_last();
        assert forall|i: int| 0 <= i < shorter.len() implies (#[trigger] shorter[i]).len() > 0
            && shorter[i] != "."@ by {
            assert(shorter[i] == names[i]);
        }
        lemma_all_names(shorter);
        assert(pieces.drop_last() =~= seq![Seq::<char>::empty()] + shorter);
        assert(names[names.len() - 1].len() > 0);
        assert(shorter.push(names.last()) =~= names);
    }
}

/// A path from the root starts with a slash.
proof fn lemma_starts_with_a_slash(names: Seq<Seq<char>>)
    requires
        names.len() > 0,
    ensures
        ({
            let path = text::joined(seq![Seq::<char>::empty()] + names, seq!['/']);
            path.len() > 0 && path[0] == '/'
        }),
    decreases names.len(),
{
    let pieces = seq![Seq::<char>::empty()] + names;
    let shorter = names.drop_last();
    assert(pieces.drop_last() =~= seq![Seq::<char>::empty()] + shorter);
    assert(pieces.len() > 1);
    if names.len() > 1 {
        lemma_starts_with_a_slash(shorter);
    } else {
        assert(seq![Seq::<char>::empty()] + shorter =~= seq![Seq::<char>::empty()]);
        assert(text::joined(pieces.drop_last(), seq!['/']) == Seq::<char>::empty());
    }
}

/// A slash at the end of a path, a dot behind it, and a slash that is doubled make no difference.
pub proof fn law_slashes_and_dots_make_no_difference(path: Seq<char>, rest: Seq<char>)
    requires
        path.len() > 0,
    ensures
        same_path(path + seq!['/'], path),
        same_path(path + seq!['/', '.'], path),
        same_path(path + seq!['/', '/'] + rest, path + seq!['/'] + rest),
{
    let class = Class::OneOf("/");
    let nothing = Seq::<char>::empty();
    reveal_strlit("/");
    reveal_strlit(".");
    assert("/"@ =~= seq!['/']);
    assert("."@ =~= seq!['.']);
    text::lemma_only("/", '/');
    assert(class.has('/'));
    let pieces = text::split_on(path, class);
    text::lemma_split_nonempty(path, class);
    text::law_a_text_is_cut_at_the_class(path, '/', nothing, class);
    assert(path + seq!['/'] + nothing =~= path + seq!['/']);
    assert(pieces.push(nothing).drop_last() =~= pieces);
    text::law_a_text_is_cut_at_the_class(path, '/', seq!['.'], class);
    assert(path + seq!['/'] + seq!['.'] =~= path + seq!['/', '.']);
    assert(pieces.push(seq!['.']).drop_last() =~= pieces);
    lemma_doubled_slash(path, rest);
}

/// A doubled slash adds an empty piece, which is no name.
proof fn lemma_doubled_slash(path: Seq<char>, rest: Seq<char>)
    requires
        path.len() > 0,
    ensures
        ({
            let one = text::split_on(path + seq!['/'] + rest, Class::OneOf("/"));
            let two = text::split_on(path + seq!['/', '/'] + rest, Class::OneOf("/"));
            &&& one.len() > 1 && two.len() > 1
            &&& one[0] == two[0]
            &&& one.last() == two.last()
            &&& path_names(one.drop_last()) == path_names(two.drop_last())
            &&& path_names(one) == path_names(two)
        }),
    decreases rest.len(),
{
    let class = Class::OneOf("/");
    let nothing = Seq::<char>::empty();
    let left = path + seq!['/'] + rest;
    let right = path + seq!['/', '/'] + rest;
    reveal_strlit("/");
    assert("/"@ =~= seq!['/']);
    text::lemma_only("/", '/');
    assert(class.has('/'));
    if rest.len() == 0 {
        let pieces = text::split_on(path, class);
        text::lemma_split_nonempty(path, class);
        text::law_a_text_is_cut_at_the_class(path, '/', nothing, class);
        text::law_a_text_is_cut_at_the_class(path + seq!['/'], '/', nothing, class);
        assert(left =~= path + seq!['/'] + nothing);
        assert(path + seq!['/'] + nothing =~= path + seq!['/']);
        assert(right =~= path + seq!['/'] + seq!['/'] + nothing);
        assert(pieces.push(nothing).drop_last() =~= pieces);
        assert(pieces.push(nothing).push(nothing).drop_last() =~= pieces.push(nothing));
    } else {
        let shorter = rest.drop_last();
        lemma_doubled_slash(path, shorter);
        assert(left.drop_last() =~= path + seq!['/'] + shorter);
        assert(right.drop_last() =~= path + seq!['/', '/'] + shorter);
        assert(left.last() == rest.last() && right.last() == rest.last());
        let one = text::split_on(left.drop_last(), class);
        let two = text::split_on(right.drop_last(), class);
        if class.has(rest.last()) {
            assert(one.push(nothing).drop_last() =~= one);
            assert(two.push(nothing).drop_last() =~= two);
        } else {
            let longer = one.last().push(rest.last());
            assert(one.drop_last().push(longer).drop_last() =~= one.drop_last());
            assert(two.drop_last().push(longer).drop_last() =~= two.drop_last());
        }
    }
}

/// A directory is on `PATH` exactly where one of its parts names it, however that is written.
pub proof fn law_what_is_on_the_path(parts: Seq<Seq<char>>, path: Seq<char>, at: int)
    ensures
        0 <= at < parts.len() && parts[at] == path ==> listed(parts, path),
        0 <= at < parts.len() && same_path(parts[at], path) ==> listed(parts, path),
        (forall|i: int| 0 <= i < parts.len() ==> !same_path(#[trigger] parts[i], path)) ==> !listed(
            parts,
            path,
        ),
        same_path(path, path),
{
}

/// Where `PATH` gets something new, it is added behind a colon at the end; nothing is added that
/// is missing, that is on it already, or that has a colon in its name.
pub proof fn law_how_a_directory_is_added(dirs: Seq<Candidate>, dir: Candidate, current: Seq<char>)
    requires
        joinable(extended(path_parts(current), dirs)),
    ensures
        !dir.exists || listed(extended(path_parts(current), dirs), dir.path@) ==> merged(
            dirs.push(dir),
            current,
        ) == merged(dirs, current),
        dir.exists && !listed(extended(path_parts(current), dirs), dir.path@) && !dir.path@.contains(
            ':',
        ) ==> merged(dirs.push(dir), current) == merged(dirs, current) + seq![':'] + dir.path@,
        dir.exists && !listed(extended(path_parts(current), dirs), dir.path@) && dir.path@.contains(
            ':',
        ) ==> merged(dirs.push(dir), current) == current,
{
    let parts = path_parts(current);
    let before = extended(parts, dirs);
    let after = extended(parts, dirs.push(dir));
    lemma_colon();
    text::lemma_split_nonempty(current, Class::OneOf(":"));
    lemma_extended(parts, dirs);
    assert(dirs.push(dir).drop_last() =~= dirs);
    if dir.exists && !listed(before, dir.path@) {
        assert(after == before.push(dir.path@));
        assert(after.drop_last() =~= before);
        if !dir.path@.contains(':') {
            assert(joinable(after)) by {
                assert forall|i: int| 0 <= i < after.len() implies !(#[trigger] after[i]).contains(':') by {
                    if i < before.len() {
                        assert(after[i] == before[i]);
                    }
                }
            }
        } else {
            assert(after[after.len() - 1].contains(':'));
        }
    }
}

/// The `PATH` of the login shell is what it printed without the white space around it, and nothing
/// is adopted from a shell that failed or printed nothing else.
pub proof fn law_what_is_adopted_from_the_shell(stdout: Seq<char>, from: int, to: int)
    requires
        text::is_core(stdout, Class::White, from, to),
    ensures
        adopted(false, stdout) is None,
        from < to ==> adopted(true, stdout) == Some(stdout.subrange(from, to)),
        from == to ==> adopted(true, stdout) is None,
{
    text::law_trimming_keeps_the_core(stdout, Class::White, from, to);
}

/// The directories of npm in the home directory come first, and those of the system last, Homebrew's
/// before them and with the newest node in front.
pub proof fn law_where_commands_are_looked_for()
    ensures
        home_dirs().len() == 2,
        home_dirs()[0] == PathDirView::Home(seq![".npm-global"@, "bin"@]),
        home_dirs()[1] == PathDirView::Home(seq!["node_modules"@, ".bin"@]),
        fixed_dirs().len() == 7,
        fixed_dirs()[0] == PathDirView::Fixed("/opt/homebrew/bin"@),
        fixed_dirs()[1] == PathDirView::Fixed("/opt/homebrew/opt/node@24/bin"@),
        fixed_dirs()[2] == PathDirView::Fixed("/opt/homebrew/opt/node@22/bin"@),
        fixed_dirs()[3] == PathDirView::Fixed("/opt/homebrew/opt/node@20/bin"@),
        fixed_dirs()[4] == PathDirView::Fixed("/opt/homebrew/opt/node@18/bin"@),
        fixed_dirs()[5] == PathDirView::Fixed("/usr/local/bin"@),
        fixed_dirs()[6] == PathDirView::Fixed("/opt/local/bin"@),
{
}

} // verus!
