//! Downloads: where a file goes and under which name.

use std::path::PathBuf;
use vstd::prelude::*;

use crate::config::LauncherConfig;
use crate::paths;
use crate::text;
use crate::text::Class;

verus! {

/// How many numbered names are tried before the time is used in their place.
pub const NUMBERED_NAMES: u32 = 100_000;

/// A character that not every file system takes in a name.
pub open spec fn forbidden(ch: char) -> bool {
    text::is_control(ch) || "<>:\\\"/|?*"@.contains(ch)
}

/// The character, or an underscore for one that not every file system takes.
pub open spec fn tamed(ch: char) -> char {
    if forbidden(ch) {
        '_'
    } else {
        ch
    }
}

/// A name that every file system takes: `download` where nothing is left.
pub open spec fn safe_name(name: Seq<char>) -> Seq<char> {
    let cleaned = name.map_values(|ch: char| tamed(ch));
    let kept = text::trimmed(text::stripped(cleaned), Class::OneOf("."));
    if kept.len() == 0 {
        "download"@
    } else {
        kept
    }
}

/// Makes a name that every file system takes: forbidden characters become underscores, and
/// the white space around the name, then the dots around it, are taken off.
pub fn safe_download_file_name(name: &str) -> (r: String)
    ensures
        r@ == safe_name(name@),
{
    let chars: Vec<char> = text::chars_of(name);
    let ghost all = name@.map_values(|ch: char| tamed(ch));
    let mut cleaned: String = String::new();
    let mut at: usize = 0;
    while at < chars.len()
        invariant
            at <= chars.len(),
            chars@ == name@,
            all == name@.map_values(|ch: char| tamed(ch)),
            cleaned@ == all.take(at as int),
        decreases chars.len() - at,
    {
        let ch: char = chars[at];
        if text::control(ch) || text::contains_char("<>:\\\"/|?*", ch) {
            cleaned.push('_');
        } else {
            cleaned.push(ch);
        }
        assert(cleaned@ =~= all.take(at + 1));
        at += 1;
    }
    assert(cleaned@ =~= all);
    let stripped: String = text::trim(cleaned.as_str());
    let kept: String = text::trim_matches(stripped.as_str(), Class::OneOf("."));
    if kept.as_str().is_empty() {
        "download".to_string()
    } else {
        kept
    }
}

/// A safe name is a single name without forbidden characters, and no dot stands at its
/// start or its end: it cannot lead out of the directory that it is put in.
pub proof fn law_safe_names_stay_in_their_directory(name: Seq<char>)
    ensures
        paths::single_name(safe_name(name)),
        forall|i: int| 0 <= i < safe_name(name).len() ==> !forbidden(#[trigger] safe_name(name)[i]),
        safe_name(name)[0] != '.',
        safe_name(name).last() != '.',
{
    reveal_strlit("download");
    reveal_strlit("<>:\\\"/|?*");
    reveal_strlit(".");
    reveal_strlit("..");
    let bad = "<>:\\\"/|?*"@;
    let cleaned = name.map_values(|ch: char| tamed(ch));
    let stripped = text::stripped(cleaned);
    let dots = Class::OneOf(".");
    let kept = text::trimmed(stripped, dots);
    text::lemma_trimmed(cleaned, Class::White);
    text::lemma_trimmed(stripped, dots);
    assert("."@ =~= seq!['.']);
    text::lemma_only(".", '.');
    assert(bad[2] == ':' && bad[3] == '\\' && bad[5] == '/');
    let r = safe_name(name);
    assert forall|i: int| 0 <= i < r.len() implies !forbidden(#[trigger] r[i]) by {
        if kept.len() > 0 {
            let (a, b) = choose|from: int, to: int|
                0 <= from <= to <= cleaned.len() && stripped == #[trigger] cleaned.subrange(from, to);
            let (c, d) = choose|from: int, to: int|
                0 <= from <= to <= stripped.len() && kept == #[trigger] stripped.subrange(from, to);
            assert(kept[i] == stripped[c + i]);
            assert(stripped[c + i] == cleaned[a + c + i]);
            assert(cleaned[a + c + i] == tamed(name[a + c + i]));
        }
    }
    assert(!r.contains('/') && !r.contains('\\') && !r.contains(':'));
    assert("."@[0] == '.' && ".."@[0] == '.');
}

/// The directory that a download goes to: the one of the settings where that is absolute.
pub fn download_directory(config: &LauncherConfig, absolute: bool, fallback: PathBuf) -> (r: PathBuf)
    ensures
        absolute ==> paths::path_chars(r) == text::stripped(config.download_directory@),
        !absolute ==> r == fallback,
{
    if absolute {
        let configured: String = text::trim(config.download_directory.as_str());
        paths::path_from_text(configured.as_str())
    } else {
        fallback
    }
}

/// What becomes of a download.
pub enum DownloadPlan {
    /// The user chooses the file; the dialog starts out with this directory and name.
    Choose { directory: PathBuf, name: String },
    /// The file goes to this directory under a name made from this one. `ask` says whether
    /// the user has to agree.
    Save { directory: PathBuf, name: String, ask: bool },
}

/// The name that a download is given, `download` where it comes without one.
pub open spec fn suggested(file_name: Option<String>) -> Seq<char> {
    match file_name {
        Some(name) => safe_name(name@),
        None => "download"@,
    }
}

/// The plan for a download into a directory.
pub open spec fn is_plan(
    plan: DownloadPlan,
    config: LauncherConfig,
    file_name: Option<String>,
    into: PathBuf,
) -> bool {
    if config.download_choose_location {
        plan matches DownloadPlan::Choose { directory, name } && directory == into && name@
            == suggested(file_name)
    } else {
        plan matches DownloadPlan::Save { directory, name, ask } && directory == into && name@
            == suggested(file_name) && ask == config.download_ask
    }
}

/// Plans a download into a directory.
pub fn plan_download(config: &LauncherConfig, file_name: Option<String>, directory: PathBuf) -> (r:
    DownloadPlan)
    ensures
        is_plan(r, *config, file_name, directory),
{
    let name: String = match &file_name {
        Some(given) => safe_download_file_name(given.as_str()),
        None => "download".to_string(),
    };
    if config.download_choose_location {
        DownloadPlan::Choose { directory, name }
    } else {
        DownloadPlan::Save { directory, name, ask: config.download_ask }
    }
}

/// Where a download goes: the directory of the settings where it is absolute, which only a
/// rooted one can be, and otherwise the fallback.
pub open spec fn is_directory(
    directory: PathBuf,
    config: LauncherConfig,
    fallback: PathBuf,
    absolute: bool,
) -> bool {
    if absolute {
        &&& paths::rooted(text::stripped(config.download_directory@))
        &&& paths::path_chars(directory) == text::stripped(config.download_directory@)
    } else {
        directory == fallback
    }
}

/// Plans a download, given the last part of the path that it was to go to and the directory
/// that stands in where the settings name no absolute one. What is absolute depends on the
/// operating system.
pub fn handle_download_request(
    config: &LauncherConfig,
    file_name: Option<String>,
    fallback: PathBuf,
) -> (r: DownloadPlan)
    ensures
        exists|absolute: bool, directory: PathBuf| #[trigger]
            is_directory(directory, *config, fallback, absolute) && is_plan(
                r,
                *config,
                file_name,
                directory,
            ),
{
    let ghost stand_in = fallback;
    let configured: String = text::trim(config.download_directory.as_str());
    let absolute: bool = paths::is_absolute(configured.as_str());
    let directory: PathBuf = download_directory(config, absolute, fallback);
    let ghost chosen = directory;
    assert(is_directory(chosen, *config, stand_in, absolute));
    plan_download(config, file_name, directory)
}

/// Tells whether a file that the user chose is used: `absolute` is `None` where the user
/// chose none.
pub fn accepts_choice(absolute: Option<bool>) -> (r: bool)
    ensures
        r == (absolute == Some(true)),
{
    match absolute {
        Some(value) => value,
        None => false,
    }
}

/// What happened on the way to a download without a dialog for the file.
#[derive(Clone, Copy, Debug, PartialEq, Eq, Structural)]
pub enum SaveEvent {
    /// The directory was to be made if it was missing.
    DirectoryMade { made: bool },
    /// The user was asked.
    Answered { agreed: bool },
}

/// What comes next on the way to a download.
#[derive(Clone, Copy, Debug, PartialEq, Eq, Structural)]
pub enum SaveAction {
    /// Ask the user.
    Ask,
    /// Look for a name that is not taken.
    FindName,
    /// Refuse the download.
    Refuse,
}

/// How a download goes on.
pub open spec fn save_action(ask: bool, event: SaveEvent) -> SaveAction {
    match event {
        SaveEvent::DirectoryMade { made: false } => SaveAction::Refuse,
        SaveEvent::DirectoryMade { made: true } => if ask {
            SaveAction::Ask
        } else {
            SaveAction::FindName
        },
        SaveEvent::Answered { agreed: true } => SaveAction::FindName,
        SaveEvent::Answered { agreed: false } => SaveAction::Refuse,
    }
}

/// Decides how a download goes on.
pub fn save_step(ask: bool, event: SaveEvent) -> (r: SaveAction)
    ensures
        r == save_action(ask, event),
{
    match event {
        SaveEvent::DirectoryMade { made } => if !made {
            SaveAction::Refuse
        } else if ask {
            SaveAction::Ask
        } else {
            SaveAction::FindName
        },
        SaveEvent::Answered { agreed } => if agreed {
            SaveAction::FindName
        } else {
            SaveAction::Refuse
        },
    }
}

/// The question that the user is asked.
pub fn confirm_question(file_name: &str) -> (r: String)
    ensures
        r@ == "是否下载“"@ + file_name@ + "”？"@,
{
    let mut question: String = "是否下载“".to_string();
    question.append(file_name);
    question.append("”？");
    question
}

/// The extension with its dot, or nothing.
pub open spec fn dotted(extension: Option<Seq<char>>) -> Seq<char> {
    match extension {
        Some(value) => "."@ + value,
        None => Seq::empty(),
    }
}

/// The name that is tried after `index` others were taken.
pub open spec fn numbered(
    file_name: Seq<char>,
    stem: Seq<char>,
    extension: Seq<char>,
    index: nat,
) -> Seq<char> {
    if index == 0 {
        file_name
    } else {
        stem + " ("@ + text::decimal(index) + ")"@ + extension
    }
}

/// The name where all others are taken.
pub open spec fn timed(stem: Seq<char>, extension: Seq<char>, seconds: u64) -> Seq<char> {
    stem + "-"@ + text::decimal(seconds as nat) + extension
}

/// The search for a name that is not taken.
pub struct NameSearch {
    file_name: String,
    stem: String,
    /// The extension with its dot.
    extension: String,
    /// How many names were taken.
    index: u32,
}

/// The content of a `NameSearch`.
#[verifier::ext_equal]
pub struct NameSearchView {
    /// The name that is wished for.
    pub file_name: Seq<char>,
    /// What the numbered names start with.
    pub stem: Seq<char>,
    /// What the numbered names end with.
    pub extension: Seq<char>,
    /// How many names were taken.
    pub index: nat,
}

impl View for NameSearch {
    type V = NameSearchView;

    closed spec fn view(&self) -> NameSearchView {
        NameSearchView {
            file_name: self.file_name@,
            stem: self.stem@,
            extension: self.extension@,
            index: self.index as nat,
        }
    }
}

impl NameSearchView {
    /// The name that is tried now.
    pub open spec fn candidate(self) -> Seq<char> {
        numbered(self.file_name, self.stem, self.extension, self.index)
    }

    /// There is a name to be tried.
    pub open spec fn searching(self) -> bool {
        self.index < NUMBERED_NAMES
    }

    /// The search for a name, given the parts of the name that is wished for.
    pub open spec fn beginning(
        file_name: Seq<char>,
        stem: Option<Seq<char>>,
        extension: Option<Seq<char>>,
    ) -> Self {
        NameSearchView {
            file_name,
            stem: text::text_or(stem, "download"@),
            extension: dotted(extension),
            index: 0,
        }
    }

    /// The name that is found and how the search goes on, given whether the name that is tried
    /// now is taken.
    pub open spec fn after(self, taken: bool, seconds: u64) -> (Option<Seq<char>>, Self) {
        if !taken {
            (Some(self.candidate()), self)
        } else if self.index + 1 < NUMBERED_NAMES {
            (None, NameSearchView { index: self.index + 1, ..self })
        } else {
            (Some(timed(self.stem, self.extension, seconds)), self)
        }
    }
}

impl NameSearch {

    /// The search for a name, given the parts of the name that is wished for; `download`
    /// stands in for a stem that is missing.
    pub fn from_parts(file_name: &str, stem: Option<String>, extension: Option<String>) -> (r: Self)
        ensures
            r@ == NameSearchView::beginning(
                file_name@,
                text::optional(stem),
                text::optional(extension),
            ),
    {
        let stem: String = match stem {
            Some(value) => value,
            None => "download".to_string(),
        };
        let extension: String = match extension {
            Some(value) => {
                let mut out: String = ".".to_string();
                out.append(value.as_str());
                out
            },
            None => String::new(),
        };
        NameSearch { file_name: file_name.to_owned(), stem, extension, index: 0 }
    }

    /// The search for a name like the one that is wished for.
    pub fn new(file_name: &str) -> (r: Self)
        ensures
            r@.index == 0,
            r@.file_name == file_name@,
            paths::single_name(file_name@) ==> r@.stem == paths::stem_of(file_name@) && r@.extension
                == dotted(paths::extension_of(file_name@)),
    {
        proof {
            if paths::single_name(file_name@) {
                paths::lemma_leaf_of_name(file_name@);
            }
        }
        NameSearch::from_parts(
            file_name,
            paths::file_stem(file_name),
            paths::file_extension(file_name),
        )
    }

    /// The name that is tried now.
    pub fn name(&self) -> (r: String)
        ensures
            r@ == self@.candidate(),
    {
        if self.index == 0 {
            return self.file_name.clone();
        }
        let mut out: String = self.stem.clone();
        let number: String = text::decimal_text(self.index as u64);
        out.append(" (");
        out.append(number.as_str());
        out.append(")");
        out.append(self.extension.as_str());
        out
    }
}

/// Takes in whether the name that is tried is taken. The result is the name to use, or
/// `None` where another is to be tried. `seconds` is the time, for the name where all
/// others are taken.
pub fn unique_download_path(search: &mut NameSearch, taken: bool, seconds: u64) -> (r: Option<
    String,
>)
    requires
        old(search)@.searching(),
    ensures
        (text::optional(r), final(search)@) == old(search)@.after(taken, seconds),
{
    if !taken {
        return Some(search.name());
    }
    if search.index + 1 < NUMBERED_NAMES {
        search.index += 1;
        return None;
    }
    let mut out: String = search.stem.clone();
    let digits: String = text::decimal_text(seconds);
    out.append("-");
    out.append(digits.as_str());
    out.append(search.extension.as_str());
    Some(out)
}

/// No name is tried twice.
pub proof fn law_no_name_is_tried_twice(file_name: Seq<char>, first: nat, second: nat)
    requires
        first != second,
    ensures
        numbered(
            file_name,
            paths::stem_of(file_name),
            dotted(paths::extension_of(file_name)),
            first,
        ) != numbered(
            file_name,
            paths::stem_of(file_name),
            dotted(paths::extension_of(file_name)),
            second,
        ),
{
    let stem = paths::stem_of(file_name);
    let extension = dotted(paths::extension_of(file_name));
    lemma_name_parts(file_name);
    if first == 0 || second == 0 {
        let index = if first == 0 { second } else { first };
        text::lemma_decimal(index);
        assert(numbered(file_name, stem, extension, index).len() > stem.len() + extension.len());
    } else {
        text::lemma_decimal(first);
        text::lemma_decimal(second);
        let one = numbered(file_name, stem, extension, first);
        let other = numbered(file_name, stem, extension, second);
        let from = (stem + " ("@).len() as int;
        let tail = (")"@ + extension).len() as int;
        if one == other {
            assert(one.subrange(from, one.len() - tail) =~= text::decimal(first));
            assert(other.subrange(from, other.len() - tail) =~= text::decimal(second));
            assert(false);
        }
    }
}

/// A name consists of its stem and its extension.
proof fn lemma_name_parts(name: Seq<char>)
    ensures
        name == paths::stem_of(name) + dotted(paths::extension_of(name)),
{
    lemma_last_dot(name);
    reveal_strlit(".");
    let at = paths::last_dot(name);
    if at > 0 {
        assert(name =~= name.take(at) + ("."@ + name.skip(at + 1)));
    } else {
        assert(name =~= name + Seq::<char>::empty());
    }
}

/// Where the last dot stands, a dot stands.
proof fn lemma_last_dot(name: Seq<char>)
    ensures
        -1 <= paths::last_dot(name) < name.len(),
        paths::last_dot(name) >= 0 ==> name[paths::last_dot(name)] == '.',
    decreases name.len(),
{
    if name.len() > 0 && name.last() != '.' {
        lemma_last_dot(name.drop_last());
    }
}

/// The characters that not every file system takes: control characters and the nine signs that
/// Windows keeps to itself.
pub proof fn law_which_characters_are_forbidden(ch: char)
    ensures
        forbidden(ch) <==> text::is_control(ch) || ch == '<' || ch == '>' || ch == ':' || ch == '\\'
            || ch == '"' || ch == '/' || ch == '|' || ch == '?' || ch == '*',
        forbidden(ch) ==> tamed(ch) == '_',
        !forbidden(ch) ==> tamed(ch) == ch,
{
    reveal_strlit("<>:\\\"/|?*");
    let bad = "<>:\\\"/|?*"@;
    assert(bad[0] == '<' && bad[1] == '>' && bad[2] == ':' && bad[3] == '\\' && bad[4] == '"' && bad[5]
        == '/' && bad[6] == '|' && bad[7] == '?' && bad[8] == '*');
}

/// A safe name is the name as it came: every character of its middle is there in its place, an
/// underscore standing in for one that is forbidden. Only white space and dots around it are
/// gone, and `download` stands in where nothing is left.
pub proof fn law_a_safe_name_is_the_name_as_it_came(name: Seq<char>)
    ensures
        exists|from: int, to: int|
            #![trigger name.subrange(from, to)]
            {
                &&& 0 <= from <= to <= name.len()
                &&& forall|i: int|
                    0 <= i < name.len() && !(from <= i < to) ==> text::is_white(#[trigger] name[i])
                        || name[i] == '.'
                &&& from == to ==> safe_name(name) == "download"@
                &&& from < to ==> safe_name(name).len() == to - from && forall|i: int|
                    0 <= i < to - from ==> #[trigger] safe_name(name)[i] == (if forbidden(
                        name[from + i],
                    ) {
                        '_'
                    } else {
                        name[from + i]
                    })
            },
{
    let cleaned = name.map_values(|ch: char| tamed(ch));
    let inner = text::stripped(cleaned);
    let dots = Class::OneOf(".");
    reveal_strlit(".");
    assert("."@ =~= seq!['.']);
    text::lemma_only(".", '.');
    text::law_every_text_has_a_core(cleaned, Class::White);
    text::law_every_text_has_a_core(inner, dots);
    let (a, b) = choose|from: int, to: int|
        #[trigger] text::is_core(cleaned, Class::White, from, to) && text::trimmed(
            cleaned,
            Class::White,
        ) == cleaned.subrange(from, to);
    let (c, d) = choose|from: int, to: int|
        #[trigger] text::is_core(inner, dots, from, to) && text::trimmed(inner, dots) == inner.subrange(
            from,
            to,
        );
    let kept = text::trimmed(inner, dots);
    let from = a + c;
    let to = a + d;
    let part = name.subrange(from, to);
    assert forall|i: int| 0 <= i < name.len() && !(from <= i < to) implies text::is_white(
        #[trigger] name[i],
    ) || name[i] == '.' by {
        assert(cleaned[i] == tamed(name[i]));
        if a <= i < b {
            assert(inner[i - a] == cleaned[i]);
            assert(dots.has(inner[i - a]));
        } else {
            assert(Class::White.has(cleaned[i]));
        }
        assert(tamed(name[i]) == name[i]);
    }
    if from < to {
        assert forall|i: int| 0 <= i < to - from implies #[trigger] safe_name(name)[i] == (if forbidden(
            name[from + i],
        ) {
            '_'
        } else {
            name[from + i]
        }) by {
            assert(kept[i] == inner[c + i]);
            assert(inner[c + i] == cleaned[a + c + i]);
        }
    }
}

/// A name that every file system takes is kept.
pub proof fn law_a_good_name_is_kept(name: Seq<char>)
    requires
        name.len() > 0,
        forall|i: int| 0 <= i < name.len() ==> !forbidden(#[trigger] name[i]),
        !text::is_white(name[0]) && name[0] != '.',
        !text::is_white(name.last()) && name.last() != '.',
    ensures
        safe_name(name) == name,
{
    let cleaned = name.map_values(|ch: char| tamed(ch));
    assert(cleaned =~= name);
    text::lemma_stripped_fixed(name);
    reveal_strlit(".");
    assert("."@ =~= seq!['.']);
    text::lemma_only(".", '.');
    let dots = Class::OneOf(".");
    assert(text::is_core(name, dots, 0, name.len() as int));
    text::law_trimming_keeps_the_core(name, dots, 0, name.len() as int);
    assert(name.subrange(0, name.len() as int) =~= name);
}

/// The name that is tried first is the name itself, and each further one has its number in
/// brackets between the stem and the extension.
pub proof fn law_taken_names_are_numbered(
    file_name: Seq<char>,
    stem: Seq<char>,
    extension: Seq<char>,
    index: nat,
    seconds: u64,
)
    ensures
        numbered(file_name, stem, extension, 0) == file_name,
        index > 0 ==> numbered(file_name, stem, extension, index) == stem + seq![' ', '(']
            + text::decimal(index) + seq![')'] + extension,
        timed(stem, extension, seconds) == stem + seq!['-'] + text::decimal(seconds as nat)
            + extension,
        dotted(Some(extension)) == seq!['.'] + extension,
        dotted(None).len() == 0,
{
    reveal_strlit(" (");
    reveal_strlit(")");
    reveal_strlit("-");
    reveal_strlit(".");
    assert(" ("@ =~= seq![' ', '(']);
    assert(")"@ =~= seq![')']);
    assert("-"@ =~= seq!['-']);
    assert("."@ =~= seq!['.']);
}

/// The numbers of the names that are tried go up one by one, to a hundred thousand names.
pub proof fn law_how_many_names_are_tried(search: NameSearchView)
    ensures
        search.searching() <==> search.index < 100_000,
        search.index == 0 ==> search.candidate() == search.file_name,
{
}

/// A download goes where it was planned to go, under its own name made safe or under `download`;
/// the user chooses the place, or is asked, as the settings say.
pub proof fn law_what_becomes_of_a_download(
    plan: DownloadPlan,
    config: LauncherConfig,
    file_name: Option<String>,
    into: PathBuf,
)
    requires
        is_plan(plan, config, file_name, into),
    ensures
        config.download_choose_location <==> plan is Choose,
        plan is Choose ==> plan->Choose_directory == into,
        plan is Save ==> plan->Save_directory == into && plan->ask == config.download_ask,
        file_name is None ==> (plan is Choose ==> plan->Choose_name@ == "download"@) && (plan is Save
            ==> plan->Save_name@ == "download"@),
        file_name is Some ==> (plan is Choose ==> plan->Choose_name@ == safe_name(file_name->0@)) && (
        plan is Save ==> plan->Save_name@ == safe_name(file_name->0@)),
{
}

/// A download goes to the directory of the settings where that is absolute, and otherwise to the
/// fallback.
pub proof fn law_where_a_download_goes(
    directory: PathBuf,
    config: LauncherConfig,
    fallback: PathBuf,
    absolute: bool,
)
    requires
        is_directory(directory, config, fallback, absolute),
    ensures
        !absolute ==> directory == fallback,
        absolute ==> paths::path_chars(directory) == text::stripped(config.download_directory@),
        absolute ==> paths::rooted(text::stripped(config.download_directory@)),
{
}

/// A download is refused exactly where its directory cannot be made or the user says no; the user
/// is asked exactly where the settings say so, and nothing is saved without the answer.
pub proof fn law_when_a_download_is_refused(ask: bool, made: bool, agreed: bool)
    ensures
        save_action(ask, SaveEvent::DirectoryMade { made }) == SaveAction::Refuse <==> !made,
        save_action(ask, SaveEvent::DirectoryMade { made }) == SaveAction::Ask <==> made && ask,
        save_action(ask, SaveEvent::DirectoryMade { made }) == SaveAction::FindName <==> made && !ask,
        save_action(ask, SaveEvent::Answered { agreed }) == SaveAction::Refuse <==> !agreed,
        save_action(ask, SaveEvent::Answered { agreed }) == SaveAction::FindName <==> agreed,
{
}

/// The search after so many names have turned out to be taken.
pub open spec fn after_taken(search: NameSearchView, taken: nat, seconds: u64) -> NameSearchView
    decreases taken,
{
    if taken == 0 {
        search
    } else {
        after_taken(search, (taken - 1) as nat, seconds).after(true, seconds).1
    }
}

/// The first name that is not taken is found: the name as it is wished for, or else the name with
/// the number of names that are taken. Nothing is found as long as names are taken, until a
/// hundred thousand are; the name then carries the time.
pub proof fn law_the_first_free_name_is_found(
    file_name: Seq<char>,
    stem: Seq<char>,
    extension: Option<Seq<char>>,
    taken: nat,
    seconds: u64,
)
    requires
        taken < 100_000,
    ensures
        ({
            let begun = NameSearchView::beginning(file_name, Some(stem), extension);
            let unnamed = NameSearchView::beginning(file_name, None, extension);
            let ending = if extension is Some { seq!['.'] + extension->0 } else { Seq::empty() };
            let now = after_taken(begun, taken, seconds);
            &&& taken == 0 ==> now.after(false, seconds).0 == Some(file_name)
            &&& taken > 0 ==> now.after(false, seconds).0 == Some(
                stem + seq![' ', '('] + text::decimal(taken) + seq![')'] + ending,
            )
            &&& taken < 99_999 ==> now.after(true, seconds).0 is None
            &&& taken == 99_999 ==> now.after(true, seconds).0 == Some(
                stem + seq!['-'] + text::decimal(seconds as nat) + ending,
            )
            &&& unnamed == (NameSearchView { stem: "download"@, ..begun })
        }),
{
    let begun = NameSearchView::beginning(file_name, Some(stem), extension);
    lemma_names_are_counted(begun, taken, seconds);
    law_taken_names_are_numbered(file_name, stem, begun.extension, taken, seconds);
    reveal_strlit(".");
    assert("."@ =~= seq!['.']);
}

/// As many names as have been taken are counted.
proof fn lemma_names_are_counted(search: NameSearchView, taken: nat, seconds: u64)
    requires
        search.index == 0,
        taken < NUMBERED_NAMES,
    ensures
        after_taken(search, taken, seconds) == (NameSearchView { index: taken, ..search }),
    decreases taken,
{
    if taken > 0 {
        lemma_names_are_counted(search, (taken - 1) as nat, seconds);
    }
}

} // verus!
