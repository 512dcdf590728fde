//! Saved games: where they lie, how they are written and which can be read.
use crate::mission::{MissionProgress, SimulationClock};
use crate::text::{
    before, digits, is_before, law_before_is_irreflexive, law_before_is_total,
    law_before_is_transitive, push_decimal,
};
use crate::vessel::Vessel;
use std::path::PathBuf;
use vstd::prelude::*;

verus! {

/// The version of the form in which games are saved.
pub const SAVE_SCHEMA: u32 = 1;

/// A path of the file system.
#[verifier::external_type_specification]
#[verifier::external_body]
pub struct ExPathBuf(PathBuf);

/// A flight as it is saved.
#[derive(Debug)]
pub struct QuickSave {
    pub schema_version: u32,
    pub vessel: Vessel,
    pub clock: SimulationClock,
    pub mission: MissionProgress,
    pub script_source: String,
    pub script_state: Option<serde_json::Value>,
}

/// Whether the save is that flight as it is.
pub open spec fn is_captured(
    save: QuickSave,
    vessel: Vessel,
    clock: SimulationClock,
    mission: MissionProgress,
    script_source: String,
    script_state: Option<serde_json::Value>,
) -> bool {
    &&& save.schema_version == SAVE_SCHEMA
    &&& save.vessel@ == vessel@
    &&& save.clock == clock
    &&& save.mission == mission
    &&& save.script_source == script_source
    &&& save.script_state == script_state
}

impl QuickSave {
    /// Saves the flight as it is.
    pub fn capture(
        vessel: &Vessel,
        clock: &SimulationClock,
        mission: &MissionProgress,
        script_source: &String,
        script_state: Option<serde_json::Value>,
    ) -> (r: Self)
        ensures
            is_captured(r, *vessel, *clock, *mission, *script_source, script_state),
    {
        QuickSave {
            schema_version: SAVE_SCHEMA,
            vessel: vessel.clone(),
            clock: *clock,
            mission: *mission,
            script_source: script_source.clone(),
            script_state,
        }
    }
}

/// A path below the directory of the saves: the names of directories, then that of
/// a file or directory.
#[derive(Debug)]
pub struct SavePath {
    pub names: Vec<String>,
}

impl View for SavePath {
    type V = Seq<Seq<char>>;

    open spec fn view(&self) -> Seq<Seq<char>> {
        self.names@.map_values(|name: String| name@)
    }
}

impl Clone for SavePath {
    fn clone(&self) -> (r: Self)
        ensures
            r@ == self@,
    {
        let names = self.names.clone();
        proof {
            assert(names@ =~= self.names@);
        }
        SavePath { names }
    }
}

/// A step of writing a file.
#[derive(Debug)]
pub enum FileStep {
    /// Make the directory and those above it, where they are not there.
    MakeDirectory(SavePath),
    /// Write a file whole.
    Write(SavePath, String),
    /// Remove a file, where it is there.
    Remove(SavePath),
    /// Give a file another name.
    Rename(SavePath, SavePath),
}

/// A step with paths and texts as sequences.
pub enum StepView {
    MakeDirectory(Seq<Seq<char>>),
    Write(Seq<Seq<char>>, Seq<char>),
    Remove(Seq<Seq<char>>),
    Rename(Seq<Seq<char>>, Seq<Seq<char>>),
}

impl View for FileStep {
    type V = StepView;

    open spec fn view(&self) -> StepView {
        match self {
            FileStep::MakeDirectory(path) => StepView::MakeDirectory(path@),
            FileStep::Write(path, text) => StepView::Write(path@, text@),
            FileStep::Remove(path) => StepView::Remove(path@),
            FileStep::Rename(from, to) => StepView::Rename(from@, to@),
        }
    }
}

/// The steps with paths and texts as sequences.
pub open spec fn steps_view(steps: Seq<FileStep>) -> Seq<StepView> {
    steps.map_values(|step: FileStep| step@)
}

/// Whether the character may stand in the name of a file.
pub open spec fn is_plain(c: char) -> bool {
    'a' <= c <= 'z' || 'A' <= c <= 'Z' || '0' <= c <= '9' || c == '-' || c == '_'
}

/// The character, or a line in its place.
pub open spec fn plain(c: char) -> char {
    if is_plain(c) {
        c
    } else {
        '_'
    }
}

/// The name with a line in place of each character that may not stand in the name
/// of a file.
pub open spec fn cleaned(name: Seq<char>) -> Seq<char> {
    name.map_values(|c: char| plain(c))
}

/// The name under which something is saved: the name cleaned, where anything but
/// lines is left of it.
pub open spec fn file_name(name: Seq<char>) -> Seq<char> {
    if forall|i: int| 0 <= i < name.len() ==> #[trigger] cleaned(name)[i] == '_' {
        "untitled"@
    } else {
        cleaned(name)
    }
}

/// The name under which something is saved.
pub fn safe_name(name: &str) -> (r: String)
    ensures
        r@ == file_name(name@),
{
    let mut r = String::new();
    let mut blank = true;
    for c in it: name.chars()
        invariant
            it.seq() == name@,
            r@ == cleaned(name@.take(it.index())),
            blank == forall|i: int| 0 <= i < it.index() ==> #[trigger] cleaned(name@)[i] == '_',
    {
        proof {
            assert(name@.take(it.index() + 1) =~= name@.take(it.index()).push(c));
            assert(cleaned(name@.take(it.index() + 1)) =~= cleaned(name@.take(it.index())).push(
                plain(c),
            ));
            assert(cleaned(name@)[it.index()] == plain(c));
        }
        let kept = if 'a' <= c && c <= 'z' || 'A' <= c && c <= 'Z' || '0' <= c && c <= '9' || c
            == '-' || c == '_' {
            c
        } else {
            '_'
        };
        if kept != '_' {
            blank = false;
        }
        r.push(kept);
    }
    proof {
        assert(name@.take(name@.len() as int) =~= name@);
    }
    if blank {
        "untitled".to_owned()
    } else {
        r
    }
}

/// A saved name is never empty nor made of lines alone, and holds letters, digits and lines
/// alone, so it names a file in its own directory.
pub proof fn law_saved_names_are_plain(name: Seq<char>)
    ensures
        file_name(name).len() > 0,
        forall|i: int| 0 <= i < file_name(name).len() ==> is_plain(#[trigger] file_name(name)[i]),
        exists|i: int| 0 <= i < file_name(name).len() && #[trigger] file_name(name)[i] != '_',
{
    reveal_strlit("untitled");
    if file_name(name) == "untitled"@ {
        assert(file_name(name)[0] != '_');
    } else {
        let k = choose|i: int| 0 <= i < name.len() && #[trigger] cleaned(name)[i] != '_';
        assert(file_name(name)[k] != '_');
    }
    assert forall|i: int| 0 <= i < file_name(name).len() implies is_plain(
        #[trigger] file_name(name)[i],
    ) by {
        if file_name(name) == "untitled"@ {
            assert(i == 0 || i == 1 || i == 2 || i == 3 || i == 4 || i == 5 || i == 6 || i == 7);
        }
    }
}

/// Saving under a saved name changes the name no more.
pub proof fn law_saved_names_are_stable(name: Seq<char>)
    ensures
        file_name(file_name(name)) == file_name(name),
{
    let once = file_name(name);
    law_saved_names_are_plain(name);
    assert forall|i: int| 0 <= i < once.len() implies #[trigger] cleaned(once)[i] == once[i] by {
        assert(is_plain(once[i]));
    }
    assert(cleaned(once) =~= once);
    if forall|i: int| 0 <= i < name.len() ==> #[trigger] cleaned(name)[i] == '_' {
        reveal_strlit("untitled");
        assert(cleaned(once)[0] == 'u');
    } else {
        let k = choose|i: int| 0 <= i < name.len() && #[trigger] cleaned(name)[i] != '_';
        assert(cleaned(once)[k] != '_');
    }
}

fn path_of(directory: Option<&str>, name: &str, ending: &str) -> (r: SavePath)
    ensures
        r@ == match directory {
            Some(directory) => seq![directory@, name@ + ending@],
            None => seq![name@ + ending@],
        },
{
    let mut file = name.to_owned();
    file.append(ending);
    let names = match directory {
        Some(directory) => vec![directory.to_owned(), file],
        None => vec![file],
    };
    let r = SavePath { names };
    proof {
        assert(r@ =~= match directory {
            Some(directory) => seq![directory@, name@ + ending@],
            None => seq![name@ + ending@],
        });
    }
    r
}

fn directory_path(name: &str) -> (r: SavePath)
    ensures
        r@ == seq![name@],
{
    let r = SavePath { names: vec![name.to_owned()] };
    proof {
        assert(r@ =~= seq![name@]);
    }
    r
}

/// The directories of crafts and scripts.
pub open spec fn ensured() -> Seq<StepView> {
    seq![
        StepView::MakeDirectory(seq!["crafts"@]),
        StepView::MakeDirectory(seq!["scripts"@]),
    ]
}

/// Writing a file so that the old one stays whole until the new one is: the text goes
/// to a draft, which then takes the place of the old file.
pub open spec fn replaced(
    draft: Seq<Seq<char>>,
    path: Seq<Seq<char>>,
    text: Seq<char>,
) -> Seq<StepView> {
    seq![StepView::Write(draft, text), StepView::Remove(path), StepView::Rename(draft, path)]
}

/// What files hold after the steps, by path, where `disk` is what they held before.
pub open spec fn contents(
    steps: Seq<StepView>,
    disk: Map<Seq<Seq<char>>, Seq<char>>,
) -> Map<Seq<Seq<char>>, Seq<char>>
    decreases steps.len(),
{
    if steps.len() == 0 {
        disk
    } else {
        let earlier = contents(steps.drop_last(), disk);
        match steps.last() {
            StepView::MakeDirectory(_) => earlier,
            StepView::Write(path, text) => earlier.insert(path, text),
            StepView::Remove(path) => earlier.remove(path),
            StepView::Rename(from, to) => if earlier.contains_key(from) {
                earlier.remove(from).insert(to, earlier[from])
            } else {
                earlier
            },
        }
    }
}

/// Replacing a file leaves the new text in it, leaves no draft and touches no other
/// file; and at no step is the new text in neither the file nor the draft while the old
/// one is gone.
pub proof fn law_replacing_is_safe(
    draft: Seq<Seq<char>>,
    path: Seq<Seq<char>>,
    text: Seq<char>,
    disk: Map<Seq<Seq<char>>, Seq<char>>,
    n: int,
)
    requires
        draft != path,
        0 <= n <= 3,
    ensures
        contents(replaced(draft, path, text), disk) == disk.remove(draft).insert(path, text),
        ({
            let partial = contents(replaced(draft, path, text).take(n), disk);
            ||| partial.contains_key(path) == disk.contains_key(path) && (disk.contains_key(path)
                ==> partial[path] == disk[path])
            ||| partial.contains_key(draft) && partial[draft] == text
            ||| partial.contains_key(path) && partial[path] == text
        }),
{
    let steps = replaced(draft, path, text);
    let zero = steps.take(0);
    let one = steps.take(1);
    let two = steps.take(2);
    assert(steps.take(3) =~= steps);
    assert(steps.drop_last() =~= two);
    assert(two.drop_last() =~= one);
    assert(one.drop_last() =~= zero);
    assert(one.last() == StepView::Write(draft, text));
    assert(two.last() == StepView::Remove(path));
    assert(steps.last() == StepView::Rename(draft, path));
    assert(contents(zero, disk) == disk);
    assert(contents(one, disk) == disk.insert(draft, text));
    assert(contents(two, disk) == disk.insert(draft, text).remove(path));
    assert(contents(steps, disk) =~= disk.remove(draft).insert(path, text));
    assert(n == 0 || n == 1 || n == 2 || n == 3);
}

/// The drafts of crafts, scripts and flights are files of their own.
pub proof fn law_drafts_are_apart(name: Seq<char>)
    ensures
        seq!["crafts"@, file_name(name) + ".tmp"@] != seq!["crafts"@, file_name(name) + ".ron"@],
        seq!["scripts"@, file_name(name) + ".tmp"@] != seq!["scripts"@, file_name(name) + ".lua"@],
        seq!["quicksave.tmp"@] != seq!["quicksave.ron"@],
{
    reveal_strlit(".tmp");
    reveal_strlit(".ron");
    reveal_strlit(".lua");
    reveal_strlit("quicksave.tmp");
    reveal_strlit("quicksave.ron");
    let f = file_name(name);
    let n = f.len() as int;
    assert((f + ".tmp"@)[n + 1] == 't');
    assert((f + ".ron"@)[n + 1] == 'r');
    assert((f + ".lua"@)[n + 1] == 'l');
    assert(seq!["crafts"@, f + ".tmp"@][1] != seq!["crafts"@, f + ".ron"@][1]);
    assert(seq!["scripts"@, f + ".tmp"@][1] != seq!["scripts"@, f + ".lua"@][1]);
    assert("quicksave.tmp"@[10] == 't' && "quicksave.ron"@[10] == 'r');
    assert(seq!["quicksave.tmp"@][0] != seq!["quicksave.ron"@][0]);
}

/// The steps that save a text: the directories are made, then the file is replaced.
pub open spec fn saved(
    draft: Seq<Seq<char>>,
    path: Seq<Seq<char>>,
    text: Seq<char>,
) -> Seq<StepView> {
    ensured() + replaced(draft, path, text)
}

/// What was saved is found again where it is looked for, and nothing else is touched but
/// the draft.
pub proof fn law_saved_text_is_found(
    name: Seq<char>,
    text: Seq<char>,
    disk: Map<Seq<Seq<char>>, Seq<char>>,
)
    ensures
        contents(
            saved(
                seq!["crafts"@, file_name(name) + ".tmp"@],
                seq!["crafts"@, file_name(name) + ".ron"@],
                text,
            ),
            disk,
        ) == disk.remove(seq!["crafts"@, file_name(name) + ".tmp"@]).insert(
            seq!["crafts"@, file_name(name) + ".ron"@],
            text,
        ),
        contents(
            saved(
                seq!["scripts"@, file_name(name) + ".tmp"@],
                seq!["scripts"@, file_name(name) + ".lua"@],
                text,
            ),
            disk,
        ) == disk.remove(seq!["scripts"@, file_name(name) + ".tmp"@]).insert(
            seq!["scripts"@, file_name(name) + ".lua"@],
            text,
        ),
        contents(saved(seq!["quicksave.tmp"@], seq!["quicksave.ron"@], text), disk)
            == disk.remove(seq!["quicksave.tmp"@]).insert(seq!["quicksave.ron"@], text),
{
    law_drafts_are_apart(name);
    lemma_saved(
        seq!["crafts"@, file_name(name) + ".tmp"@],
        seq!["crafts"@, file_name(name) + ".ron"@],
        text,
        disk,
    );
    lemma_saved(
        seq!["scripts"@, file_name(name) + ".tmp"@],
        seq!["scripts"@, file_name(name) + ".lua"@],
        text,
        disk,
    );
    lemma_saved(seq!["quicksave.tmp"@], seq!["quicksave.ron"@], text, disk);
}

proof fn lemma_saved(
    draft: Seq<Seq<char>>,
    path: Seq<Seq<char>>,
    text: Seq<char>,
    disk: Map<Seq<Seq<char>>, Seq<char>>,
)
    requires
        draft != path,
    ensures
        contents(saved(draft, path, text), disk) == disk.remove(draft).insert(path, text),
{
    lemma_contents_follow(ensured(), replaced(draft, path, text), disk);
    let made = ensured();
    assert(made.drop_last().drop_last() =~= Seq::<StepView>::empty());
    assert(made.drop_last().last() is MakeDirectory);
    assert(made.last() is MakeDirectory);
    assert(contents(made.drop_last().drop_last(), disk) == disk);
    assert(contents(made.drop_last(), disk) == disk);
    assert(contents(made, disk) == disk);
    law_replacing_is_safe(draft, path, text, disk, 0);
}

proof fn lemma_contents_follow(
    a: Seq<StepView>,
    b: Seq<StepView>,
    disk: Map<Seq<Seq<char>>, Seq<char>>,
)
    ensures
        contents(a + b, disk) == contents(b, contents(a, disk)),
    decreases b.len(),
{
    if b.len() == 0 {
        assert(a + b =~= a);
    } else {
        assert((a + b).drop_last() =~= a + b.drop_last());
        lemma_contents_follow(a, b.drop_last(), disk);
    }
}

/// The saves below a directory.
#[derive(Debug)]
pub struct SaveStore {
    root: PathBuf,
}

/// `directories::ProjectDirs::from` and `data_local_dir`: the directory in which the
/// machine has a program of that name keep its data, if it has one. It depends on the
/// machine and the user, so nothing is claimed of it.
#[verifier::external_body]
pub fn data_directory(qualifier: &str, organization: &str, application: &str) -> Option<PathBuf> {
    directories::ProjectDirs::from(qualifier, organization, application).map(
        |found| found.data_local_dir().to_path_buf(),
    )
}

/// `PathBuf::from`, for a text. Of the path nothing is claimed: how its parts are told
/// apart depends on the machine.
#[verifier::external_body]
pub fn path_from(text: &str) -> PathBuf {
    PathBuf::from(text)
}

impl Default for SaveStore {
    /// The saves in the directory that the machine gives the game, or else in one of
    /// their own below the present directory.
    fn default() -> (r: SaveStore)
        ensures
            exists|found: Option<PathBuf>, spare: PathBuf|
                {
                    &&& #[trigger] call_ensures(
                        data_directory,
                        ("org", "Crabby Space Institute", "Crabby Space Institute"),
                        found,
                    )
                    &&& #[trigger] call_ensures(path_from, ("crabby_space_data",), spare)
                    &&& r.place() == found_place(found, spare)
                },
    {
        SaveStore::located(data_directory, path_from)
    }
}

/// The directory that was found, or else the other.
pub open spec fn found_place(found: Option<PathBuf>, other: PathBuf) -> PathBuf {
    match found {
        Some(root) => root,
        None => other,
    }
}

impl SaveStore {
    /// The saves in the directory that `ask` finds for the game, or else in one of their
    /// own, which `path` makes of its name.
    pub fn located<A: Fn(&str, &str, &str) -> Option<PathBuf>, B: Fn(&str) -> PathBuf>(
        ask: A,
        path: B,
    ) -> (r: Self)
        requires
            call_requires(ask, ("org", "Crabby Space Institute", "Crabby Space Institute")),
            call_requires(path, ("crabby_space_data",)),
        ensures
            exists|found: Option<PathBuf>, spare: PathBuf|
                {
                    &&& #[trigger] call_ensures(
                        ask,
                        ("org", "Crabby Space Institute", "Crabby Space Institute"),
                        found,
                    )
                    &&& #[trigger] call_ensures(path, ("crabby_space_data",), spare)
                    &&& r.place() == found_place(found, spare)
                },
    {
        let found = ask("org", "Crabby Space Institute", "Crabby Space Institute");
        let spare = path("crabby_space_data");
        SaveStore::found_or(found, spare)
    }

    /// The saves in the directory that was found, or else in the other.
    pub fn found_or(found: Option<PathBuf>, other: PathBuf) -> (r: Self)
        ensures
            r.place() == found_place(found, other),
    {
        match found {
            Some(root) => SaveStore { root },
            None => SaveStore { root: other },
        }
    }

    /// The directory of the saves.
    pub closed spec fn place(&self) -> PathBuf {
        self.root
    }

    /// The saves below that directory.
    pub fn at(root: PathBuf) -> (r: Self)
        ensures
            r.place() == root,
    {
        SaveStore { root }
    }

    /// The directory of the saves.
    pub fn root(&self) -> (r: &PathBuf)
        ensures
            *r == self.place(),
    {
        &self.root
    }

    /// The steps that make the directories of crafts and scripts.
    pub fn ensure(&self) -> (r: Vec<FileStep>)
        ensures
            steps_view(r@) == ensured(),
    {
        let r = vec![
            FileStep::MakeDirectory(directory_path("crafts")),
            FileStep::MakeDirectory(directory_path("scripts")),
        ];
        proof {
            assert(steps_view(r@) =~= ensured());
        }
        r
    }

    /// Where the flight is saved.
    pub fn quicksave_path(&self) -> (r: SavePath)
        ensures
            r@ == seq!["quicksave.ron"@],
    {
        directory_path("quicksave.ron")
    }

    /// Whether a flight is saved; `is_file` tells whether a file lies at a path.
    pub fn quicksave_exists<F: Fn(SavePath) -> bool>(&self, is_file: F) -> (r: bool)
        requires
            forall|path: SavePath| call_requires(is_file, (path,)),
        ensures
            exists|path: SavePath| #[trigger]
                call_ensures(is_file, (path,), r) && path@ == seq!["quicksave.ron"@],
    {
        is_file(self.quicksave_path())
    }

    /// Where the craft of that name is saved.
    pub fn craft_path(&self, name: &str) -> (r: SavePath)
        ensures
            r@ == seq!["crafts"@, file_name(name@) + ".ron"@],
    {
        let file = safe_name(name);
        path_of(Some("crafts"), &file, ".ron")
    }

    /// Where the script of that name is saved.
    pub fn script_path(&self, name: &str) -> (r: SavePath)
        ensures
            r@ == seq!["scripts"@, file_name(name@) + ".lua"@],
    {
        let file = safe_name(name);
        path_of(Some("scripts"), &file, ".lua")
    }

    /// The steps that save a craft of that name, given as text.
    pub fn save_craft(&self, name: &str, text: &str) -> (r: Vec<FileStep>)
        ensures
            steps_view(r@) == saved(
                seq!["crafts"@, file_name(name@) + ".tmp"@],
                seq!["crafts"@, file_name(name@) + ".ron"@],
                text@,
            ),
    {
        let file = safe_name(name);
        let mut steps = self.ensure();
        replace(
            &mut steps,
            path_of(Some("crafts"), &file, ".tmp"),
            self.craft_path(name),
            text,
        );
        steps
    }

    /// The steps that save a script of that name.
    pub fn save_script(&self, name: &str, source: &str) -> (r: Vec<FileStep>)
        ensures
            steps_view(r@) == saved(
                seq!["scripts"@, file_name(name@) + ".tmp"@],
                seq!["scripts"@, file_name(name@) + ".lua"@],
                source@,
            ),
    {
        let file = safe_name(name);
        let mut steps = self.ensure();
        replace(
            &mut steps,
            path_of(Some("scripts"), &file, ".tmp"),
            self.script_path(name),
            source,
        );
        steps
    }

    /// The steps that save a flight, given as text.
    pub fn save_quick(&self, text: &str) -> (r: Vec<FileStep>)
        ensures
            steps_view(r@) == saved(
                seq!["quicksave.tmp"@],
                seq!["quicksave.ron"@],
                text@,
            ),
    {
        let mut steps = self.ensure();
        replace(&mut steps, directory_path("quicksave.tmp"), self.quicksave_path(), text);
        steps
    }
}

fn replace(steps: &mut Vec<FileStep>, draft: SavePath, path: SavePath, text: &str)
    ensures
        steps_view(final(steps)@) == steps_view(old(steps)@) + replaced(draft@, path@, text@),
{
    steps.push(FileStep::Write(draft.clone(), text.to_owned()));
    steps.push(FileStep::Remove(path.clone()));
    steps.push(FileStep::Rename(draft, path));
    proof {
        assert(steps_view(steps@) =~= steps_view(old(steps)@) + replaced(draft@, path@, text@));
    }
}

/// Why a save of that form cannot be read.
pub open spec fn unsupported(kind: Seq<char>, version: u32) -> Seq<char> {
    "Unsupported "@ + kind + " schema "@ + digits(version as nat)
}

fn check_schema(kind: &str, version: u32) -> (r: Result<(), String>)
    ensures
        match r {
            Ok(()) => version == SAVE_SCHEMA,
            Err(reason) => version != SAVE_SCHEMA && reason@ == unsupported(kind@, version),
        },
{
    if version == SAVE_SCHEMA {
        return Ok(());
    }
    let mut reason = "Unsupported ".to_owned();
    reason.append(kind);
    reason.append(" schema ");
    push_decimal(&mut reason, version as u64);
    Err(reason)
}

/// Whether a craft of that form can be read, or why not.
pub fn check_craft_schema(version: u32) -> (r: Result<(), String>)
    ensures
        match r {
            Ok(()) => version == SAVE_SCHEMA,
            Err(reason) => version != SAVE_SCHEMA && reason@ == unsupported("craft"@, version),
        },
{
    check_schema("craft", version)
}

/// Whether a saved flight of that form can be read, or why not.
pub fn check_quicksave_schema(version: u32) -> (r: Result<(), String>)
    ensures
        match r {
            Ok(()) => version == SAVE_SCHEMA,
            Err(reason) => version != SAVE_SCHEMA && reason@ == unsupported(
                "quicksave"@,
                version,
            ),
        },
{
    check_schema("quicksave", version)
}

/// Whether no name stands before an earlier one.
pub open spec fn in_order(names: Seq<String>) -> bool {
    forall|i: int, j: int|
        0 <= i < j < names.len() ==> !before(#[trigger] names[j]@, #[trigger] names[i]@)
}

/// Puts the names in the order of code points.
pub fn sort_names(names: Vec<String>) -> (r: Vec<String>)
    ensures
        in_order(r@),
        r@.to_multiset() == names@.to_multiset(),
{
    let mut sorted: Vec<String> = Vec::new();
    let ghost all = names@;
    let mut rest = names;
    proof {
        assert(sorted@ + rest@ =~= all);
    }
    while rest.len() > 0
        invariant
            in_order(sorted@),
            (sorted@ + rest@).to_multiset() == all.to_multiset(),
        decreases rest.len(),
    {
        let ghost prior = sorted@;
        let ghost left = rest@;
        if let Some(name) = rest.pop() {
            let mut at: usize = 0;
            while at < sorted.len() && !is_before(&name, &sorted[at])
                invariant
                    at <= sorted.len(),
                    sorted@ == prior,
                    forall|k: int| 0 <= k < at ==> !before(name@, #[trigger] prior[k]@),
                decreases sorted.len() - at,
            {
                at = at + 1;
            }
            let ghost moved = name;
            sorted.insert(at, name);
            proof {
                lemma_inserted_in_order(prior, at as int, moved);
                lemma_moved(prior, left, at as int);
            }
        }
    }
    proof {
        assert(sorted@ + rest@ =~= sorted@);
    }
    sorted
}

proof fn lemma_inserted_in_order(names: Seq<String>, at: int, name: String)
    requires
        in_order(names),
        0 <= at <= names.len(),
        forall|k: int| 0 <= k < at ==> !before(name@, #[trigger] names[k]@),
        at < names.len() ==> before(name@, names[at]@),
    ensures
        in_order(names.insert(at, name)),
{
    let next = names.insert(at, name);
    assert forall|i: int, j: int| 0 <= i < j < next.len() implies !before(
        #[trigger] next[j]@,
        #[trigger] next[i]@,
    ) by {
        let a = if i < at { i } else { i - 1 };
        let b = if j < at { j } else { j - 1 };
        if i == at {
            assert(next[j] == names[b]);
            law_before_is_irreflexive(name@);
            if before(names[b]@, name@) {
                law_before_is_transitive(names[b]@, name@, names[at]@);
                if b > at {
                    assert(!before(names[b]@, names[at]@));
                } else {
                    law_before_is_irreflexive(names[at]@);
                }
            }
        } else if j == at {
            assert(next[i] == names[a]);
        } else {
            assert(next[i] == names[a] && next[j] == names[b]);
        }
    }
}

proof fn lemma_moved(prior: Seq<String>, left: Seq<String>, at: int)
    requires
        left.len() > 0,
        0 <= at <= prior.len(),
    ensures
        (prior.insert(at, left.last()) + left.drop_last()).to_multiset() == (prior
            + left).to_multiset(),
{
    let name = left.last();
    vstd::seq_lib::lemma_multiset_commutative(prior.insert(at, name), left.drop_last());
    vstd::seq_lib::lemma_multiset_commutative(prior, left);
    assert(left =~= left.drop_last().push(name));
    left.drop_last().to_multiset_ensures();
    prior.to_multiset_ensures();
    prior.insert(at, name).to_multiset_ensures();
    assert(prior.insert(at, name).to_multiset() =~= prior.to_multiset().insert(name)) by {
        let head = prior.take(at);
        let tail = prior.skip(at);
        assert(prior =~= head + tail);
        assert(prior.insert(at, name) =~= head.push(name) + tail);
        vstd::seq_lib::lemma_multiset_commutative(head, tail);
        vstd::seq_lib::lemma_multiset_commutative(head.push(name), tail);
        head.to_multiset_ensures();
    }
}

/// A name of a file keeps every plain character in its place and has an underscore for every
/// other; one of which nothing is left becomes untitled.
pub proof fn law_file_names_follow_names(name: &str, r: String, i: int)
    requires
        call_ensures(safe_name, (name,), r),
        0 <= i < name@.len(),
        is_plain(name@[i]) && name@[i] != '_',
    ensures
        r@.len() == name@.len(),
        r@[i] == name@[i],
        forall|k: int|
            0 <= k < name@.len() && ('a' <= #[trigger] name@[k] <= 'z' || 'A' <= name@[k] <= 'Z'
                || '0' <= name@[k] <= '9' || name@[k] == '-' || name@[k] == '_') ==> r@[k]
                == name@[k],
        forall|k: int|
            0 <= k < name@.len() && !('a' <= #[trigger] name@[k] <= 'z' || 'A' <= name@[k] <= 'Z'
                || '0' <= name@[k] <= '9' || name@[k] == '-' || name@[k] == '_') ==> r@[k] == '_',
{
    assert(cleaned(name@)[i] == name@[i]);
}

/// A name without a plain letter, digit or dash is the file untitled.
pub proof fn law_empty_names_are_untitled(name: &str, r: String)
    requires
        call_ensures(safe_name, (name,), r),
        forall|i: int|
            0 <= i < name@.len() ==> !('a' <= #[trigger] name@[i] <= 'z' || 'A' <= name@[i] <= 'Z'
                || '0' <= name@[i] <= '9' || name@[i] == '-'),
    ensures
        r@ == "untitled"@,
{
    assert forall|i: int| 0 <= i < name@.len() implies #[trigger] cleaned(name@)[i] == '_' by {
        assert(!('a' <= name@[i] <= 'z'));
    }
}

/// Crafts lie with crafts and scripts with scripts, each in a file of its name; the saved
/// flight is one file.
pub proof fn law_saves_have_their_places(
    store: &SaveStore,
    name: &str,
    safe: String,
    craft: SavePath,
    script: SavePath,
    quick: SavePath,
)
    requires
        call_ensures(safe_name, (name,), safe),
        call_ensures(SaveStore::craft_path, (store, name), craft),
        call_ensures(SaveStore::script_path, (store, name), script),
        call_ensures(SaveStore::quicksave_path, (store,), quick),
    ensures
        craft@ == seq!["crafts"@, safe@ + ".ron"@],
        script@ == seq!["scripts"@, safe@ + ".lua"@],
        quick@ == seq!["quicksave.ron"@],
{
}

/// Saving makes the two directories, writes a draft, and only then puts it in the place of the
/// file: afterwards the file holds the text, the draft is gone, and every other file is as it
/// was.
pub proof fn law_saving_replaces_one_file(
    store: &SaveStore,
    name: &str,
    text: &str,
    craft: Vec<FileStep>,
    craft_path: SavePath,
    script: Vec<FileStep>,
    script_path: SavePath,
    quick: Vec<FileStep>,
    quick_path: SavePath,
    disk: Map<Seq<Seq<char>>, Seq<char>>,
    other: Seq<Seq<char>>,
)
    requires
        call_ensures(SaveStore::save_craft, (store, name, text), craft),
        call_ensures(SaveStore::craft_path, (store, name), craft_path),
        call_ensures(SaveStore::save_script, (store, name, text), script),
        call_ensures(SaveStore::script_path, (store, name), script_path),
        call_ensures(SaveStore::save_quick, (store, text), quick),
        call_ensures(SaveStore::quicksave_path, (store,), quick_path),
    ensures
        is_saved_in_order(steps_view(craft@), craft_path@, text@),
        is_saved_in_order(steps_view(script@), script_path@, text@),
        is_saved_in_order(steps_view(quick@), quick_path@, text@),
        contents(steps_view(craft@), disk).contains_key(craft_path@) && contents(
            steps_view(craft@),
            disk,
        )[craft_path@] == text@,
        contents(steps_view(script@), disk).contains_key(script_path@) && contents(
            steps_view(script@),
            disk,
        )[script_path@] == text@,
        contents(steps_view(quick@), disk).contains_key(quick_path@) && contents(
            steps_view(quick@),
            disk,
        )[quick_path@] == text@,
        disk.contains_key(other) && other != quick_path@ && other != seq!["quicksave.tmp"@]
            ==> contents(steps_view(quick@), disk).contains_key(other) && contents(
            steps_view(quick@),
            disk,
        )[other] == disk[other],
{
    law_saved_text_is_found(name@, text@, disk);
    law_drafts_are_apart(name@);
    assert(is_saved_in_order(steps_view(craft@), craft_path@, text@)) by {
        assert(steps_view(craft@)[2] == StepView::Write(
            seq!["crafts"@, file_name(name@) + ".tmp"@],
            text@,
        ));
    }
}

/// Whether the steps make the directories of the crafts and the scripts, write a draft with
/// the text, and put it in the place of the file.
pub open spec fn is_saved_in_order(
    steps: Seq<StepView>,
    path: Seq<Seq<char>>,
    text: Seq<char>,
) -> bool {
    &&& steps.len() == 5
    &&& steps[0] == StepView::MakeDirectory(seq!["crafts"@])
    &&& steps[1] == StepView::MakeDirectory(seq!["scripts"@])
    &&& steps[2] is Write && steps[2]->Write_0 != path && steps[2]->Write_1 == text
    &&& steps[3] == StepView::Remove(path)
    &&& steps[4] == StepView::Rename(steps[2]->Write_0, path)
}

/// Files of the first schema are read, and no others.
pub proof fn law_first_schema_is_read(
    version: u32,
    craft: Result<(), String>,
    quick: Result<(), String>,
)
    requires
        call_ensures(check_craft_schema, (version,), craft),
        call_ensures(check_quicksave_schema, (version,), quick),
    ensures
        craft is Ok <==> version == 1,
        quick is Ok <==> version == 1,
        craft is Err ==> craft->Err_0@ == "Unsupported "@ + "craft"@ + " schema "@ + digits(
            version as nat,
        ),
        quick is Err ==> quick->Err_0@ == "Unsupported "@ + "quicksave"@ + " schema "@ + digits(
            version as nat,
        ),
{
}

/// A flight is saved with all that it is, under the first schema.
pub proof fn law_saves_hold_the_flight(
    vessel: &Vessel,
    clock: &SimulationClock,
    mission: &MissionProgress,
    script_source: &String,
    script_state: Option<serde_json::Value>,
    r: QuickSave,
)
    requires
        call_ensures(
            QuickSave::capture,
            (vessel, clock, mission, script_source, script_state),
            r,
        ),
    ensures
        r.schema_version == 1,
        r.vessel@ == vessel@,
        r.clock == *clock,
        r.mission == *mission,
        r.script_source == *script_source,
        r.script_state == script_state,
{
}

/// The saves lie where the machine says, and in the spare place only where it says nothing.
pub proof fn law_saves_lie_where_the_machine_says(
    found: Option<PathBuf>,
    spare: PathBuf,
    r: SaveStore,
)
    requires
        call_ensures(SaveStore::found_or, (found, spare), r),
    ensures
        found is Some ==> r.place() == found->0,
        found is None ==> r.place() == spare,
{
}

/// Names are sorted, and none is lost, added or changed.
pub proof fn law_sorted_names_are_the_same_names(names: Vec<String>, r: Vec<String>, i: int, j: int)
    requires
        call_ensures(sort_names, (names,), r),
        0 <= i < j < r@.len(),
    ensures
        r@.to_multiset() == names@.to_multiset(),
        r@[i]@ == r@[j]@ || before(r@[i]@, r@[j]@),
{
    law_before_is_total(r@[i]@, r@[j]@);
    assert(!before(r@[j]@, r@[i]@));
}

/// Before anything is saved there are the directories of the crafts and of the scripts.
pub proof fn law_directories_come_first(store: &SaveStore, r: Vec<FileStep>)
    requires
        call_ensures(SaveStore::ensure, (store,), r),
    ensures
        r@.len() == 2,
        r@[0]@ == StepView::MakeDirectory(seq!["crafts"@]),
        r@[1]@ == StepView::MakeDirectory(seq!["scripts"@]),
{
    let steps = steps_view(r@);
    assert(steps.len() == r@.len());
    assert(steps[0] == r@[0]@ && steps[1] == r@[1]@);
}

} // verus!
