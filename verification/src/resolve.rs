//! Finding an executable on Windows, where a GUI process often lacks parts of `PATH`.

use vstd::prelude::*;

use crate::exec::{CommandSpec, Platform};
use crate::paths;
use crate::text;
use crate::text::Class;

verus! {

/// The path has more than one part.
pub open spec fn has_separator(raw: Seq<char>) -> bool {
    raw.contains('\\') || raw.contains('/')
}

/// The names under which an executable is looked for, the likeliest first: npm puts a
/// `.cmd` shim beside the POSIX one.
pub open spec fn candidates(raw: Seq<char>, extension: bool) -> Seq<Seq<char>> {
    if extension {
        seq![raw]
    } else if has_separator(raw) {
        seq![raw + ".cmd"@, raw + ".exe"@, raw]
    } else {
        seq![raw + ".cmd"@, raw + ".exe"@]
    }
}

/// Makes the names under which an executable is looked for.
pub fn candidate_names(raw: &str, extension: bool) -> (r: Vec<String>)
    ensures
        r.deep_view() == candidates(raw@, extension),
{
    let mut names: Vec<String> = Vec::new();
    if extension {
        names.push(raw.to_owned());
    } else {
        names.push(raw.to_owned().concat(".cmd"));
        names.push(raw.to_owned().concat(".exe"));
        if separated(raw) {
            names.push(raw.to_owned());
        }
    }
    assert(names.deep_view() =~= candidates(raw@, extension));
    names
}

/// Tells whether the path has more than one part.
pub fn separated(raw: &str) -> (r: bool)
    ensures
        r == has_separator(raw@),
{
    text::contains_char(raw, '\\') || text::contains_char(raw, '/')
}

/// A place where an executable may be found.
pub enum Probe {
    /// The text itself, if it names a file; the file's canonical path is the answer.
    Supplied,
    /// This path, if it names a file.
    File { path: String },
    /// What `where.exe` prints for this name.
    Where { name: String },
    /// This name in one of the known directories, if that is a file.
    Global { directory: usize, name: String },
}

/// The content of a `Probe`.
pub enum ProbeView {
    Supplied,
    File(Seq<char>),
    Where(Seq<char>),
    Global(int, Seq<char>),
}

impl Probe {
    /// The content of the probe.
    pub open spec fn content(self) -> ProbeView {
        match self {
            Probe::Supplied => ProbeView::Supplied,
            Probe::File { path } => ProbeView::File(path@),
            Probe::Where { name } => ProbeView::Where(name@),
            Probe::Global { directory, name } => ProbeView::Global(directory as int, name@),
        }
    }
}

/// The contents of probes.
pub open spec fn contents(probes: Seq<Probe>) -> Seq<ProbeView> {
    probes.map_values(|probe: Probe| probe.content())
}

/// Each name is looked for as a file if it is a path, and then through `where.exe`.
pub open spec fn path_probes(names: Seq<Seq<char>>, separator: bool) -> Seq<ProbeView>
    decreases names.len(),
{
    if names.len() == 0 {
        Seq::empty()
    } else {
        let before = path_probes(names.drop_last(), separator);
        let tried = if separator {
            before.push(ProbeView::File(names.last()))
        } else {
            before
        };
        tried.push(ProbeView::Where(names.last()))
    }
}

/// Each known directory is searched for each name.
pub open spec fn global_probes(names: Seq<Seq<char>>, directories: nat) -> Seq<ProbeView>
    decreases directories,
{
    if directories == 0 {
        Seq::empty()
    } else {
        global_probes(names, (directories - 1) as nat) + names.map_values(
            |name: Seq<char>| ProbeView::Global(directories - 1, name),
        )
    }
}

/// All places, in the order in which they are looked at. The known directories are for
/// bare names only.
pub open spec fn all_probes(raw: Seq<char>, extension: bool, directories: nat) -> Seq<ProbeView> {
    let names = candidates(raw, extension);
    seq![ProbeView::Supplied] + path_probes(names, has_separator(raw)) + (if has_separator(raw) {
        Seq::empty()
    } else {
        global_probes(names, directories)
    })
}

/// What looking at a place came to.
pub enum Answer {
    /// There is nothing.
    Miss,
    /// There is a file, and this is its path; for `where.exe`, this is what it printed.
    Hit { text: String },
    /// The file is there, but its path cannot be made out.
    Fault { error: String },
}

/// The first text that is not blank, without the white space around it.
pub open spec fn first_nonblank(lines: Seq<Seq<char>>) -> Option<Seq<char>>
    decreases lines.len(),
{
    if lines.len() == 0 {
        None
    } else if text::stripped(lines[0]).len() > 0 {
        Some(text::stripped(lines[0]))
    } else {
        first_nonblank(lines.drop_first())
    }
}

/// The first line of a command's output that is not blank.
pub fn first_line(output: &str) -> (r: Option<String>)
    ensures
        text::optional(r) == first_nonblank(text::split_on(output@, Class::OneOf("\n"))),
{
    let lines: Vec<String> = text::split(output, Class::OneOf("\n"));
    let ghost all = lines.deep_view();
    let mut at: usize = 0;
    assert(all.skip(0) =~= all);
    while at < lines.len()
        invariant
            at <= lines.len(),
            all == lines.deep_view(),
            all == text::split_on(output@, Class::OneOf("\n")),
            first_nonblank(all.skip(at as int)) == first_nonblank(all),
        decreases lines.len() - at,
    {
        assert(all.skip(at as int)[0] == lines@[at as int]@);
        assert(all.skip(at as int).drop_first() =~= all.skip(at + 1));
        let line: String = text::trim(lines[at].as_str());
        if !line.as_str().is_empty() {
            return Some(line);
        }
        at += 1;
    }
    None
}

/// What an answer decides, if it decides anything: the executable or a complaint.
pub open spec fn verdict(raw: Seq<char>, probe: ProbeView, answer: Answer) -> Option<
    Result<Seq<char>, Seq<char>>,
> {
    match (probe, answer) {
        (ProbeView::Supplied, Answer::Hit { text }) => Some(Ok(text@)),
        (ProbeView::Supplied, Answer::Fault { error }) => Some(
            Err("无法解析 CLI 路径 "@ + raw + "："@ + error@),
        ),
        (ProbeView::File(path), Answer::Hit { text }) => Some(Ok(path)),
        (ProbeView::Where(name), Answer::Hit { text }) => match first_nonblank(
            text::split_on(text@, Class::OneOf("\n")),
        ) {
            Some(line) => Some(Ok(line)),
            None => None,
        },
        (ProbeView::Global(directory, name), Answer::Hit { text }) => Some(Ok(text@)),
        _ => None,
    }
}

/// The complaint where no place has the executable.
pub open spec fn not_found(raw: Seq<char>) -> Seq<char> {
    "找不到命令 "@ + raw + "。请确认它能在普通终端中运行，或填写 .cmd/.exe 的完整路径。"@
}

/// The text of a result.
pub open spec fn result_text(r: Result<String, String>) -> Result<Seq<char>, Seq<char>> {
    match r {
        Ok(value) => Ok(value@),
        Err(message) => Err(message@),
    }
}

/// A search that is under way.
pub struct Resolver {
    raw: String,
    probes: Vec<Probe>,
    /// The place to look at now.
    next: usize,
}

/// The content of a `Resolver`.
#[verifier::ext_equal]
pub struct ResolverView {
    /// The text that the executable was given as.
    pub raw: Seq<char>,
    /// The places to look at, in order.
    pub probes: Seq<ProbeView>,
    /// How many of them were looked at.
    pub next: nat,
}

impl View for Resolver {
    type V = ResolverView;

    closed spec fn view(&self) -> ResolverView {
        ResolverView {
            raw: self.raw@,
            probes: contents(self.probes@),
            next: self.next as nat,
        }
    }
}

impl ResolverView {
    /// The search for an executable: all places in order, none looked at yet.
    pub open spec fn of(raw: Seq<char>, extension: bool, directories: nat) -> Self {
        ResolverView { raw, probes: all_probes(raw, extension, directories), next: 0 }
    }

    /// There is a place to look at.
    pub open spec fn searching(self) -> bool {
        self.next < self.probes.len()
    }

    /// The search after an answer for the current place, and what it has come to if it is over.
    pub open spec fn after(self, answer: Answer) -> (Self, Option<Result<Seq<char>, Seq<char>>>) {
        match verdict(self.raw, self.probes[self.next as int], answer) {
            Some(outcome) => (self, Some(outcome)),
            None => if self.next + 1 < self.probes.len() {
                (ResolverView { next: self.next + 1, ..self }, None)
            } else {
                (self, Some(Err(not_found(self.raw))))
            },
        }
    }
}

/// The text of a result, if there is one.
pub open spec fn optional_result(r: Option<Result<String, String>>) -> Option<
    Result<Seq<char>, Seq<char>>,
> {
    match r {
        Some(outcome) => Some(result_text(outcome)),
        None => None,
    }
}

impl Resolver {
    /// Starts a search, given whether the text has an extension and how many known
    /// directories there are.
    pub fn plan(raw: &str, extension: bool, directories: usize) -> (r: Self)
        ensures
            r@ == ResolverView::of(raw@, extension, directories as nat),
            r@.searching(),
    {
        let names: Vec<String> = candidate_names(raw, extension);
        let ghost all = names.deep_view();
        let separator: bool = separated(raw);
        let mut probes: Vec<Probe> = Vec::new();
        probes.push(Probe::Supplied);
        let ghost first = seq![ProbeView::Supplied];
        assert(contents(probes@) =~= first);
        let mut at: usize = 0;
        assert(contents(probes@) =~= first + path_probes(all.take(0), separator));
        while at < names.len()
            invariant
                at <= names.len(),
                all == names.deep_view(),
                contents(probes@) == first + path_probes(all.take(at as int), separator),
            decreases names.len() - at,
        {
            let ghost start = contents(probes@);
            let ghost name = names@[at as int]@;
            assert(all.take(at + 1).drop_last() =~= all.take(at as int));
            assert(all.take(at + 1).last() == name);
            if separator {
                probes.push(Probe::File { path: names[at].clone() });
                assert(contents(probes@) =~= start.push(ProbeView::File(name)));
            }
            let ghost middle = contents(probes@);
            probes.push(Probe::Where { name: names[at].clone() });
            assert(contents(probes@) =~= middle.push(ProbeView::Where(name)));
            assert(contents(probes@) =~= first + path_probes(all.take(at + 1), separator));
            at += 1;
        }
        assert(all.take(at as int) =~= all);
        let ghost prefix = contents(probes@);
        if !separator {
            let mut directory: usize = 0;
            assert(prefix + global_probes(all, 0) =~= prefix);
            while directory < directories
                invariant
                    directory <= directories,
                    all == names.deep_view(),
                    contents(probes@) == prefix + global_probes(all, directory as nat),
                decreases directories - directory,
            {
                let ghost start = contents(probes@);
                let ghost added = all.map_values(
                    |name: Seq<char>| ProbeView::Global(directory as int, name),
                );
                let mut index: usize = 0;
                assert(start + added.take(0) =~= start);
                while index < names.len()
                    invariant
                        index <= names.len(),
                        all == names.deep_view(),
                        added == all.map_values(
                            |name: Seq<char>| ProbeView::Global(directory as int, name),
                        ),
                        contents(probes@) == start + added.take(index as int),
                    decreases names.len() - index,
                {
                    let ghost held = contents(probes@);
                    probes.push(Probe::Global { directory, name: names[index].clone() });
                    assert(contents(probes@) =~= held.push(added[index as int]));
                    assert(added.take(index + 1) =~= added.take(index as int).push(
                        added[index as int],
                    ));
                    assert(contents(probes@) =~= start + added.take(index + 1));
                    index += 1;
                }
                assert(added.take(index as int) =~= added);
                assert(contents(probes@) =~= prefix + (global_probes(all, directory as nat) + added));
                directory += 1;
            }
        }
        assert(contents(probes@) =~= all_probes(raw@, extension, directories as nat));
        assert(contents(probes@).len() == probes@.len());
        Resolver { raw: raw.to_owned(), probes, next: 0 }
    }

    /// Starts the search for an executable, `directories` known directories being there.
    pub fn start(raw: &str, directories: usize) -> (r: Self)
        ensures
            r@.searching(),
            exists|extension: bool|
                r@ == #[trigger] ResolverView::of(raw@, extension, directories as nat),
            paths::has_extension(raw@) ==> r@ == ResolverView::of(raw@, true, directories as nat),
            paths::has_no_extension(raw@) ==> r@ == ResolverView::of(
                raw@,
                false,
                directories as nat,
            ),
    {
        let extension: Option<String> = paths::file_extension(raw);
        Resolver::plan(raw, extension.is_some(), directories)
    }

    /// The place to look at now.
    pub fn probe(&self) -> (r: &Probe)
        requires
            self@.searching(),
        ensures
            r.content() == self@.probes[self@.next as int],
    {
        &self.probes[self.next]
    }
}

/// Takes in what looking at the current place came to. `None` means that the search
/// goes on with the next place.
pub fn resolve_windows_executable(search: &mut Resolver, answer: Answer) -> (r: Option<
    Result<String, String>,
>)
    requires
        old(search)@.searching(),
    ensures
        (final(search)@, optional_result(r)) == old(search)@.after(answer),
{
    assert(search@.probes[search.next as int] == search.probes@[search.next as int].content());
    let decided: Option<Result<String, String>> = match (&search.probes[search.next], answer) {
        (Probe::Supplied, Answer::Hit { text }) => Some(Ok(text)),
        (Probe::Supplied, Answer::Fault { error }) => {
            let mut message: String = "无法解析 CLI 路径 ".to_string();
            message.append(search.raw.as_str());
            message.append("：");
            message.append(error.as_str());
            Some(Err(message))
        },
        (Probe::File { path }, Answer::Hit { text }) => Some(Ok(path.clone())),
        (Probe::Where { name }, Answer::Hit { text }) => match first_line(text.as_str()) {
            Some(line) => Some(Ok(line)),
            None => None,
        },
        (Probe::Global { directory, name }, Answer::Hit { text }) => Some(Ok(text)),
        _ => None,
    };
    match decided {
        Some(outcome) => Some(outcome),
        None => {
            let last: usize = search.probes.len() - 1;
            if search.next < last {
                search.next += 1;
                None
            } else {
                let mut message: String = "找不到命令 ".to_string();
                message.append(search.raw.as_str());
                message.append("。请确认它能在普通终端中运行，或填写 .cmd/.exe 的完整路径。");
                Some(Err(message))
            }
        },
    }
}

/// The Windows command that looks a name up on `PATH`.
pub fn where_command(name: &str) -> (r: CommandSpec)
    ensures
        r@ == crate::exec::CommandView::bare("where.exe"@).without_console(
            Platform::Windows,
        ).with_args(seq![name@]),
{
    let mut command: CommandSpec = CommandSpec::new("where.exe");
    crate::exec::hide_console(&mut command, Platform::Windows);
    command.arg(name);
    command
}

/// The variables that name the directories of Windows applications.
#[derive(Clone, Copy, Debug, PartialEq, Eq, Structural)]
pub enum Variable {
    AppData,
    LocalAppData,
    ProgramFiles,
}

impl Variable {
    /// The name of the variable.
    pub open spec fn spelling(self) -> Seq<char> {
        match self {
            Variable::AppData => "APPDATA"@,
            Variable::LocalAppData => "LOCALAPPDATA"@,
            Variable::ProgramFiles => "ProgramFiles"@,
        }
    }

    /// The name of the variable.
    pub fn name(&self) -> (r: String)
        ensures
            r@ == self.spelling(),
    {
        match self {
            Variable::AppData => "APPDATA".to_string(),
            Variable::LocalAppData => "LOCALAPPDATA".to_string(),
            Variable::ProgramFiles => "ProgramFiles".to_string(),
        }
    }
}

/// A directory below the one that a variable names.
pub struct BinDir {
    pub variable: Variable,
    pub parts: Vec<String>,
}

/// The contents of directories.
pub open spec fn bin_dirs(dirs: Seq<BinDir>) -> Seq<(Variable, Seq<Seq<char>>)> {
    dirs.map_values(|dir: BinDir| (dir.variable, dir.parts.deep_view()))
}

/// The directories in which global npm commands usually stand, those of npm itself first.
pub open spec fn global_dirs(appdata: bool, local: bool, programs: bool) -> Seq<
    (Variable, Seq<Seq<char>>),
> {
    let npm = if appdata {
        seq![(Variable::AppData, seq!["npm"@])]
    } else {
        Seq::empty()
    };
    let managers = if local {
        seq![
            (Variable::LocalAppData, seq!["pnpm"@]),
            (Variable::LocalAppData, seq!["Volta"@, "bin"@]),
        ]
    } else {
        Seq::empty()
    };
    let node = if programs {
        seq![(Variable::ProgramFiles, seq!["nodejs"@])]
    } else {
        Seq::empty()
    };
    npm + managers + node
}

/// Makes a directory with one part or two.
fn bin_dir(variable: Variable, first: &str, second: Option<&str>) -> (r: BinDir)
    ensures
        r.variable == variable,
        r.parts.deep_view() == (match second {
            Some(part) => seq![first@, part@],
            None => seq![first@],
        }),
{
    let mut parts: Vec<String> = Vec::new();
    parts.push(first.to_owned());
    match second {
        Some(part) => {
            parts.push(part.to_owned());
            assert(parts.deep_view() =~= seq![first@, part@]);
        },
        None => {
            assert(parts.deep_view() =~= seq![first@]);
        },
    }
    BinDir { variable, parts }
}

/// Lists the directories in which global npm commands usually stand, given which of the
/// three variables are set.
pub fn known_global_bin_dirs(appdata: bool, local: bool, programs: bool) -> (r: Vec<BinDir>)
    ensures
        bin_dirs(r@) == global_dirs(appdata, local, programs),
{
    let mut dirs: Vec<BinDir> = Vec::new();
    if appdata {
        dirs.push(bin_dir(Variable::AppData, "npm", None));
    }
    if local {
        dirs.push(bin_dir(Variable::LocalAppData, "pnpm", None));
        dirs.push(bin_dir(Variable::LocalAppData, "Volta", Some("bin")));
    }
    if programs {
        dirs.push(bin_dir(Variable::ProgramFiles, "nodejs", None));
    }
    assert(bin_dirs(dirs@) =~= global_dirs(appdata, local, programs));
    dirs
}

/// A path is looked for where it points and on `PATH`; the known directories are searched
/// for bare names only.
pub proof fn law_paths_are_not_searched_in_known_directories(
    raw: Seq<char>,
    extension: bool,
    directories: nat,
    at: int,
)
    requires
        has_separator(raw),
        0 <= at < all_probes(raw, extension, directories).len(),
    ensures
        !(all_probes(raw, extension, directories)[at] is Global),
{
    lemma_path_probes(candidates(raw, extension), true);
    assert(all_probes(raw, extension, directories) =~= seq![ProbeView::Supplied] + path_probes(
        candidates(raw, extension),
        true,
    ));
}

/// Looking on `PATH` never means a known directory.
proof fn lemma_path_probes(names: Seq<Seq<char>>, separator: bool)
    ensures
        forall|i: int|
            0 <= i < path_probes(names, separator).len() ==> !(#[trigger] path_probes(
                names,
                separator,
            )[i] is Global),
    decreases names.len(),
{
    if names.len() > 0 {
        lemma_path_probes(names.drop_last(), separator);
    }
}

/// The text itself is looked at first, and a bare name is looked for on `PATH` before any
/// known directory is searched.
pub proof fn law_known_directories_come_last(
    raw: Seq<char>,
    extension: bool,
    directories: nat,
    at: int,
    later: int,
)
    requires
        !has_separator(raw),
        0 <= at <= later < all_probes(raw, extension, directories).len(),
        all_probes(raw, extension, directories)[at] is Global,
    ensures
        all_probes(raw, extension, directories)[0] == ProbeView::Supplied,
        all_probes(raw, extension, directories)[later] is Global,
{
    let names = candidates(raw, extension);
    lemma_path_probes(names, false);
    lemma_global_probes(names, directories);
    let front = seq![ProbeView::Supplied] + path_probes(names, false);
    assert(all_probes(raw, extension, directories) == front + global_probes(names, directories));
    assert(at >= front.len()) by {
        if at < front.len() && at > 0 {
            assert(front[at] == path_probes(names, false)[at - 1]);
        }
    }
}

/// The known directories are searched, and nothing else.
proof fn lemma_global_probes(names: Seq<Seq<char>>, directories: nat)
    ensures
        forall|i: int|
            0 <= i < global_probes(names, directories).len() ==> #[trigger] global_probes(
                names,
                directories,
            )[i] is Global,
    decreases directories,
{
    if directories > 0 {
        lemma_global_probes(names, (directories - 1) as nat);
    }
}

/// What is found decides: where a file is found in a known directory, or the text itself names
/// one, the executable is exactly the path that the answer carries; where a path was looked at,
/// it is that path.
pub proof fn law_what_is_found_decides(
    raw: Seq<char>,
    directory: int,
    name: Seq<char>,
    path: Seq<char>,
    text: String,
)
    ensures
        verdict(raw, ProbeView::Global(directory, name), Answer::Hit { text }) == Some(
            Ok::<Seq<char>, Seq<char>>(text@),
        ),
        verdict(raw, ProbeView::Supplied, Answer::Hit { text }) == Some(
            Ok::<Seq<char>, Seq<char>>(text@),
        ),
        verdict(raw, ProbeView::File(path), Answer::Hit { text }) == Some(
            Ok::<Seq<char>, Seq<char>>(path),
        ),
{
}

/// Where nothing is found the search goes on. A file whose path cannot be made out ends it where
/// the text itself names the file, with a complaint that has the text and the error in it.
pub proof fn law_a_miss_decides_nothing(raw: Seq<char>, probe: ProbeView, error: String)
    ensures
        verdict(raw, probe, Answer::Miss) is None,
        verdict(raw, ProbeView::Supplied, Answer::Fault { error }) == Some(
            Err::<Seq<char>, Seq<char>>("无法解析 CLI 路径 "@ + raw + "："@ + error@),
        ),
        probe != ProbeView::Supplied ==> verdict(raw, probe, Answer::Fault { error }) is None,
{
}

/// Of what `where.exe` prints, the first line counts that is not blank, without the white space
/// around it. Where all are blank, nothing is decided.
pub proof fn law_the_first_line_counts(raw: Seq<char>, name: Seq<char>, text: String, at: int)
    requires
        ({
            let lines = text::split_on(text@, Class::OneOf("\n"));
            &&& 0 <= at <= lines.len()
            &&& at < lines.len() ==> text::stripped(lines[at]).len() > 0
            &&& forall|i: int| 0 <= i < at ==> text::stripped(#[trigger] lines[i]).len() == 0
        }),
    ensures
        ({
            let lines = text::split_on(text@, Class::OneOf("\n"));
            verdict(raw, ProbeView::Where(name), Answer::Hit { text }) == (if at < lines.len() {
                Some(Ok::<Seq<char>, Seq<char>>(text::stripped(lines[at])))
            } else {
                None
            })
        }),
{
    lemma_first_nonblank(text::split_on(text@, Class::OneOf("\n")), at);
}

/// The first line that is not blank.
proof fn lemma_first_nonblank(lines: Seq<Seq<char>>, at: int)
    requires
        0 <= at <= lines.len(),
        at < lines.len() ==> text::stripped(lines[at]).len() > 0,
        forall|i: int| 0 <= i < at ==> text::stripped(#[trigger] lines[i]).len() == 0,
    ensures
        first_nonblank(lines) == (if at < lines.len() {
            Some(text::stripped(lines[at]))
        } else {
            None
        }),
    decreases lines.len(),
{
    if at > 0 {
        assert(text::stripped(lines[0]).len() == 0);
        let rest = lines.drop_first();
        assert forall|i: int| 0 <= i < at - 1 implies text::stripped(#[trigger] rest[i]).len() == 0 by {
            assert(rest[i] == lines[i + 1]);
        }
        lemma_first_nonblank(rest, at - 1);
    }
}

/// The executable is never made up: it is what an answer carried, a line of it, or a path with
/// several parts that was looked at. A bare name is not the result unless an answer carried it.
pub proof fn law_the_executable_comes_from_an_answer(
    raw: Seq<char>,
    extension: bool,
    directories: nat,
    at: int,
    answer: Answer,
)
    requires
        0 <= at < all_probes(raw, extension, directories).len(),
        verdict(raw, all_probes(raw, extension, directories)[at], answer) matches Some(Ok(path)),
    ensures
        ({
            let path = verdict(raw, all_probes(raw, extension, directories)[at], answer)->0->Ok_0;
            ||| path.contains('/') || path.contains('\\')
            ||| answer matches Answer::Hit { text } && path == text@
            ||| answer matches Answer::Hit { text } && exists|line: int|
                0 <= line < text::split_on(text@, Class::OneOf("\n")).len() && path == text::stripped(
                    #[trigger] text::split_on(text@, Class::OneOf("\n"))[line],
                )
        }),
{
    let probe = all_probes(raw, extension, directories)[at];
    let names = candidates(raw, extension);
    match probe {
        ProbeView::File(path) => {
            lemma_files_have_parts(raw, extension, directories, at);
        },
        ProbeView::Where(name) => {
            if answer is Hit {
                let lines = text::split_on(answer->text@, Class::OneOf("\n"));
                lemma_some_line(lines);
            }
        },
        _ => {},
    }
}

/// A line that is found is one of the lines.
proof fn lemma_some_line(lines: Seq<Seq<char>>)
    ensures
        first_nonblank(lines) is Some ==> exists|line: int|
            0 <= line < lines.len() && first_nonblank(lines)->0 == text::stripped(
                #[trigger] lines[line],
            ),
    decreases lines.len(),
{
    if lines.len() > 0 {
        if text::stripped(lines[0]).len() == 0 {
            lemma_some_line(lines.drop_first());
            if first_nonblank(lines) is Some {
                let line = choose|line: int|
                    0 <= line < lines.drop_first().len() && first_nonblank(lines)->0
                        == text::stripped(#[trigger] lines.drop_first()[line]);
                assert(lines.drop_first()[line] == lines[line + 1]);
            }
        }
    }
}

/// A path that is looked at as a file has several parts.
proof fn lemma_files_have_parts(raw: Seq<char>, extension: bool, directories: nat, at: int)
    requires
        0 <= at < all_probes(raw, extension, directories).len(),
        all_probes(raw, extension, directories)[at] is File,
    ensures
        ({
            let path = all_probes(raw, extension, directories)[at]->File_0;
            path.contains('/') || path.contains('\\')
        }),
{
    let names = candidates(raw, extension);
    let separator = has_separator(raw);
    let front = seq![ProbeView::Supplied] + path_probes(names, separator);
    lemma_global_probes(names, directories);
    lemma_files_are_names(names, separator);
    let path = all_probes(raw, extension, directories)[at]->File_0;
    assert(at < front.len()) by {
        if at >= front.len() {
            assert(all_probes(raw, extension, directories)[at] is Global);
        }
    }
    assert(at > 0);
    assert(path_probes(names, separator)[at - 1] == ProbeView::File(path));
    assert(names.contains(path));
    let k = choose|k: int| 0 <= k < names.len() && names[k] == path;
    assert(raw =~= path.subrange(0, raw.len() as int));
    let mark = if raw.contains('/') { '/' } else { '\\' };
    let i = choose|i: int| 0 <= i < raw.len() && raw[i] == mark;
    assert(path[i] == mark);
}

/// What is looked at as a file is one of the names, and only where the text has several parts.
proof fn lemma_files_are_names(names: Seq<Seq<char>>, separator: bool)
    ensures
        forall|i: int|
            0 <= i < path_probes(names, separator).len() && path_probes(names, separator)[i] is File
                ==> separator && names.contains((#[trigger] path_probes(names, separator)[i])->File_0),
    decreases names.len(),
{
    if names.len() > 0 {
        let before = names.drop_last();
        lemma_files_are_names(before, separator);
        let all = path_probes(names, separator);
        let earlier = path_probes(before, separator);
        assert forall|i: int| 0 <= i < all.len() && all[i] is File implies separator && names.contains(
            (#[trigger] all[i])->File_0,
        ) by {
            if i < earlier.len() {
                assert(all[i] == earlier[i]);
                let k = choose|k: int| 0 <= k < before.len() && before[k] == all[i]->File_0;
                assert(names[k] == all[i]->File_0);
            } else {
                assert(names[names.len() - 1] == all[i]->File_0);
            }
        }
    }
}

/// Where a bare name without an extension is looked for, and in which order: as it is, then on
/// `PATH` as a shim and as a program, then under both names in each known directory in turn.
pub proof fn law_where_a_bare_name_is_looked_for(raw: Seq<char>, directories: nat, directory: int)
    requires
        !raw.contains('/'),
        !raw.contains('\\'),
    ensures
        all_probes(raw, false, directories).len() == 3 + 2 * directories,
        all_probes(raw, false, directories)[0] == ProbeView::Supplied,
        all_probes(raw, false, directories)[1] == ProbeView::Where(raw + ".cmd"@),
        all_probes(raw, false, directories)[2] == ProbeView::Where(raw + ".exe"@),
        0 <= directory < directories ==> all_probes(raw, false, directories)[3 + 2 * directory]
            == ProbeView::Global(directory, raw + ".cmd"@) && all_probes(raw, false, directories)[4 + 2
            * directory] == ProbeView::Global(directory, raw + ".exe"@),
{
    let names = candidates(raw, false);
    lemma_two_places(raw + ".cmd"@, raw + ".exe"@, false);
    lemma_places_in_directories(names, directories, directory, 0);
    lemma_places_in_directories(names, directories, directory, 1);
}

/// Where a bare name with an extension is looked for: as it is, on `PATH`, and in each known
/// directory, always under that very name.
pub proof fn law_where_a_full_name_is_looked_for(raw: Seq<char>, directories: nat, directory: int)
    requires
        !raw.contains('/'),
        !raw.contains('\\'),
    ensures
        all_probes(raw, true, directories).len() == 2 + directories,
        all_probes(raw, true, directories)[0] == ProbeView::Supplied,
        all_probes(raw, true, directories)[1] == ProbeView::Where(raw),
        0 <= directory < directories ==> all_probes(raw, true, directories)[2 + directory]
            == ProbeView::Global(directory, raw),
{
    let names = candidates(raw, true);
    reveal_with_fuel(path_probes, 2);
    assert(names.drop_last() =~= Seq::<Seq<char>>::empty());
    lemma_places_in_directories(names, directories, directory, 0);
}

/// Where a path is looked for: as it is, then with each extension and without one, each time as a
/// file first and then on `PATH`. Known directories are not searched.
pub proof fn law_where_a_path_is_looked_for(raw: Seq<char>, directories: nat)
    requires
        raw.contains('/') || raw.contains('\\'),
    ensures
        all_probes(raw, false, directories) == seq![
            ProbeView::Supplied,
            ProbeView::File(raw + ".cmd"@),
            ProbeView::Where(raw + ".cmd"@),
            ProbeView::File(raw + ".exe"@),
            ProbeView::Where(raw + ".exe"@),
            ProbeView::File(raw),
            ProbeView::Where(raw),
        ],
        all_probes(raw, true, directories) == seq![
            ProbeView::Supplied,
            ProbeView::File(raw),
            ProbeView::Where(raw),
        ],
{
    reveal_with_fuel(path_probes, 4);
    let names = candidates(raw, false);
    assert(names.drop_last() =~= seq![raw + ".cmd"@, raw + ".exe"@]);
    assert(names.drop_last().drop_last() =~= seq![raw + ".cmd"@]);
    assert(names.drop_last().drop_last().drop_last() =~= Seq::<Seq<char>>::empty());
    assert(candidates(raw, true).drop_last() =~= Seq::<Seq<char>>::empty());
    assert(all_probes(raw, false, directories) =~= seq![
        ProbeView::Supplied,
        ProbeView::File(raw + ".cmd"@),
        ProbeView::Where(raw + ".cmd"@),
        ProbeView::File(raw + ".exe"@),
        ProbeView::Where(raw + ".exe"@),
        ProbeView::File(raw),
        ProbeView::Where(raw),
    ]);
    assert(all_probes(raw, true, directories) =~= seq![
        ProbeView::Supplied,
        ProbeView::File(raw),
        ProbeView::Where(raw),
    ]);
}

/// The places of two names on `PATH`.
proof fn lemma_two_places(first: Seq<char>, second: Seq<char>, separator: bool)
    requires
        !separator,
    ensures
        path_probes(seq![first, second], separator) == seq![
            ProbeView::Where(first),
            ProbeView::Where(second),
        ],
{
    reveal_with_fuel(path_probes, 3);
    assert(seq![first, second].drop_last() =~= seq![first]);
    assert(seq![first].drop_last() =~= Seq::<Seq<char>>::empty());
    assert(path_probes(seq![first, second], separator) =~= seq![
        ProbeView::Where(first),
        ProbeView::Where(second),
    ]);
}

/// The place of a name in a known directory.
proof fn lemma_places_in_directories(names: Seq<Seq<char>>, directories: nat, directory: int, name: int)
    requires
        0 <= name < names.len(),
    ensures
        global_probes(names, directories).len() == directories * names.len(),
        0 <= directory < directories ==> 0 <= directory * names.len() + name < directories
            * names.len() && global_probes(names, directories)[directory * names.len() + name]
            == ProbeView::Global(directory, names[name]),
    decreases directories,
{
    let len = names.len() as int;
    if directories > 0 {
        let fewer = (directories - 1) as nat;
        lemma_places_in_directories(names, fewer, directory, name);
        assert(directories * len == fewer * len + len) by (nonlinear_arith)
            requires
                directories == fewer + 1,
        ;
        if directory == fewer {
            assert(directory * len == fewer * len);
        } else if 0 <= directory < fewer {
            assert(directory * len + name < fewer * len) by (nonlinear_arith)
                requires
                    0 <= directory < fewer,
                    0 <= name < len,
            ;
        }
        if 0 <= directory {
            assert(0 <= directory * len) by (nonlinear_arith)
                requires
                    0 <= directory,
                    0 <= len,
            ;
        }
    } else {
        assert(directories * len == 0) by (nonlinear_arith)
            requires
                directories == 0,
        ;
    }
}

/// The complaint that nothing was found names what was looked for.
pub proof fn law_what_is_not_found_is_named(raw: Seq<char>)
    ensures
        not_found(raw) == "找不到命令 "@ + raw
            + "。请确认它能在普通终端中运行，或填写 .cmd/.exe 的完整路径。"@,
        text::occurs(not_found(raw), raw),
{
    text::law_what_occurs_is_a_part(
        "找不到命令 "@,
        raw,
        "。请确认它能在普通终端中运行，或填写 .cmd/.exe 的完整路径。"@,
        raw,
    );
}

/// The known directories are those of npm, of pnpm and Volta, and of node, in this order, each
/// where its variable is set.
pub proof fn law_which_directories_are_known(appdata: bool, local: bool, programs: bool)
    ensures
        ({
            let dirs = global_dirs(appdata, local, programs);
            let npm: int = if appdata { 1 } else { 0 };
            let managers: int = if local { 2 } else { 0 };
            &&& dirs.len() == npm + managers + (if programs { 1int } else { 0 })
            &&& appdata ==> dirs[0] == (Variable::AppData, seq!["npm"@])
            &&& local ==> dirs[npm] == (Variable::LocalAppData, seq!["pnpm"@]) && dirs[npm + 1] == (
                Variable::LocalAppData,
                seq!["Volta"@, "bin"@],
            )
            &&& programs ==> dirs[npm + managers] == (Variable::ProgramFiles, seq!["nodejs"@])
        }),
        Variable::AppData.spelling() == "APPDATA"@,
        Variable::LocalAppData.spelling() == "LOCALAPPDATA"@,
        Variable::ProgramFiles.spelling() == "ProgramFiles"@,
{
}

/// A search goes on from place to place as long as nothing is decided, keeps what it was made
/// for, and ends after the last place with a complaint that names what was looked for.
pub proof fn law_a_search_goes_from_place_to_place(search: ResolverView, answer: Answer)
    requires
        search.searching(),
    ensures
        ({
            let place = search.probes[search.next as int];
            let (next, outcome) = search.after(answer);
            &&& next.raw == search.raw
            &&& next.probes == search.probes
            &&& verdict(search.raw, place, answer) is Some ==> outcome == verdict(
                search.raw,
                place,
                answer,
            )
            &&& verdict(search.raw, place, answer) is None && search.next + 1 < search.probes.len()
                ==> outcome is None && next.next == search.next + 1 && next.searching()
            &&& verdict(search.raw, place, answer) is None && search.next + 1 == search.probes.len()
                ==> outcome == Some(
                Err::<Seq<char>, Seq<char>>(
                    "找不到命令 "@ + search.raw
                        + "。请确认它能在普通终端中运行，或填写 .cmd/.exe 的完整路径。"@,
                ),
            )
        }),
{
}

} // verus!
