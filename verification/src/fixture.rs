use vstd::prelude::*;

use crate::inbox::{ChildPane, Commit, FileChange, GitHubAuthor, Inbox, InboxSource, Repository};
use crate::review_state::is_full_sha;

verus! {

/// Author time of every demo commit: 2024-01-15 12:00:00 UTC, in seconds since the Unix epoch.
pub const DEMO_AUTHORED_AT: i64 = 1705320000;

/// A demo commit: a complete 40-digit hexadecimal SHA, a subject, and either files to show or
/// files that could not be had.
pub open spec fn is_demo_commit(commit: Commit) -> bool {
    &&& is_full_sha(commit.sha@)
    &&& commit.sha@.len() == 40
    &&& commit.subject@.len() > 0
    &&& match commit.files {
        ChildPane::Available(files) => files@.len() > 0,
        ChildPane::Unavailable => true,
    }
}

/// The commits of the repositories that share the first one's history (the first and the last):
/// six, the second of which has its files unavailable; every other demo repository has only
/// commits with files.
pub open spec fn demo_files_unavailable(repository: int, commit: int) -> bool {
    (repository == 0 || repository == 5) && commit == 1
}

/// The names of the demo repositories, in order.
pub open spec fn demo_repository_names() -> Seq<Seq<char>> {
    seq![
        "fictional-labs/orbit-notes-demo"@,
        "fictional-studio/pixel-garden-demo"@,
        "fictional-co/clockwork-api-demo"@,
        "fictional-works/lantern-map-demo"@,
        "fictional-lab/paper-comet-demo"@,
        "fictional-foundry/quiet-signal-demo"@,
    ]
}

/// The (SHA, subject) of each commit that the first and last demo repositories share.
pub open spec fn demo_primary_commits() -> Seq<(Seq<char>, Seq<char>)> {
    seq![
        ("a1b2c3d000000000000000000000000000000000"@, "Refine fictional launch screen"@),
        ("b2c3d4e000000000000000000000000000000000"@, "Simulate a fictional oversized response"@),
        ("c3d4e5f000000000000000000000000000000000"@, "Add imaginary planet routes"@),
        ("d4e5f6a000000000000000000000000000000000"@, "Document offline fixture mode"@),
        ("e5f6a7b000000000000000000000000000000000"@, "Cover made-up route examples"@),
        ("f6a7b8c000000000000000000000000000000000"@, "Polish demonstration labels"@),
    ]
}

/// The (SHA, subject) of each commit that the second and fourth demo repositories share.
pub open spec fn demo_secondary_commits() -> Seq<(Seq<char>, Seq<char>)> {
    seq![
        ("13579bd000000000000000000000000000000000"@, "Plant fictional color seeds"@),
        ("2468ace000000000000000000000000000000000"@, "Arrange sample garden tiles"@),
    ]
}

/// The (SHA, subject) of the one commit of the third and fifth demo repositories.
pub open spec fn demo_single_commit() -> Seq<(Seq<char>, Seq<char>)> {
    seq![
        ("0decafe000000000000000000000000000000000"@, "Calibrate imaginary clockwork"@),
    ]
}

/// The (SHA, subject) of each commit of the demo repository at `repository`, in order.
pub open spec fn demo_commit_table(repository: int) -> Seq<(Seq<char>, Seq<char>)> {
    if repository == 0 || repository == 5 {
        demo_primary_commits()
    } else if repository == 1 || repository == 3 {
        demo_secondary_commits()
    } else {
        demo_single_commit()
    }
}

/// `commits` are, in order, the commits of `table`: the same SHAs and subjects.
pub open spec fn commits_match(commits: Seq<Commit>, table: Seq<(Seq<char>, Seq<char>)>) -> bool {
    &&& commits.len() == table.len()
    &&& forall|j: int| 0 <= j < commits.len() ==> (#[trigger] commits[j]).sha@ == table[j].0
        && commits[j].subject@ == table[j].1
}

/// The paths of the files of the larger demo commits, in order.
pub open spec fn demo_primary_paths() -> Seq<Seq<char>> {
    seq![
        "src/welcome.rs"@,
        "themes/twilight.toml"@,
        "src/routes.rs"@,
        "tests/routes.rs"@,
        "README.md"@,
        "assets/fictional-orbit-map.bin"@,
        "generated/fictional-catalog.rs"@,
        "notes/empty-placeholder.txt"@,
    ]
}

/// The paths of the files of the smaller demo commits, in order.
pub open spec fn demo_small_paths() -> Seq<Seq<char>> {
    seq![
        "src/lib.rs"@,
        "tests/demo.rs"@,
    ]
}

/// The paths of the files of commit `commit` of the demo repository at `repository`.
pub open spec fn demo_paths(repository: int, commit: int) -> Seq<Seq<char>> {
    if repository == 0 || repository == 5 {
        if commit == 3 || commit == 5 {
            demo_small_paths()
        } else {
            demo_primary_paths()
        }
    } else if repository == 1 || repository == 3 {
        if commit == 0 {
            demo_small_paths()
        } else {
            demo_primary_paths()
        }
    } else {
        demo_small_paths()
    }
}

/// `files` have, in order, the paths `paths`.
pub open spec fn paths_match(files: Seq<FileChange>, paths: Seq<Seq<char>>) -> bool {
    &&& files.len() == paths.len()
    &&& forall|k: int| 0 <= k < files.len() ==> (#[trigger] files[k]).path@ == paths[k]
}

/// The fictional, fully populated inbox of `--demo` and of tests: six repositories whose commits
/// carry files and diffs, including a commit whose files are unavailable, a file without a
/// patch, and one with an empty patch.
pub struct DemoFixture;

impl DemoFixture {
    /// The demo inbox.
    pub fn load() -> (inbox: Inbox)
        ensures
            inbox.source == InboxSource::Demo,
            inbox.repositories@.len() == 6,
            forall|i: int| 0 <= i < inbox.repositories@.len() ==> (#[trigger] inbox.repositories@[i]).commits@.len() > 0,
            forall|i: int, j: int|
                0 <= i < inbox.repositories@.len() && 0 <= j < inbox.repositories@[i].commits@.len() ==> {
                    &&& is_demo_commit(#[trigger] inbox.repositories@[i].commits@[j])
                    &&& (inbox.repositories@[i].commits@[j].files is Unavailable <==> demo_files_unavailable(i, j))
                },
            forall|i: int| 0 <= i < inbox.repositories@.len() ==> {
                &&& (#[trigger] inbox.repositories@[i]).name@ == demo_repository_names()[i]
                &&& commits_match(inbox.repositories@[i].commits@, demo_commit_table(i))
            },
            forall|i: int, j: int|
                0 <= i < inbox.repositories@.len() && 0 <= j < inbox.repositories@[i].commits@.len()
                    ==> ((#[trigger] inbox.repositories@[i].commits@[j]).files matches ChildPane::Available(files)
                    ==> paths_match(files@, demo_paths(i, j))),
    {
        let mut repositories: Vec<Repository> = Vec::new();
        repositories.push(repository("fictional-labs/orbit-notes-demo", primary_commits()));
        repositories.push(repository("fictional-studio/pixel-garden-demo", secondary_commits()));
        repositories.push(repository("fictional-co/clockwork-api-demo", single_commit()));
        repositories.push(repository("fictional-works/lantern-map-demo", secondary_commits()));
        repositories.push(repository("fictional-lab/paper-comet-demo", single_commit()));
        repositories.push(repository("fictional-foundry/quiet-signal-demo", primary_commits()));
        Inbox::demo(repositories)
    }
}

fn repository(name: &str, commits: Vec<Commit>) -> (repository: Repository)
    ensures
        repository.name@ == name@,
        repository.commits@ == commits@,
{
    Repository { name: name.to_owned(), commits }
}

fn commit(sha: &str, subject: &str, files: ChildPane<FileChange>) -> (commit: Commit)
    requires
        is_full_sha(sha@),
        subject@.len() > 0,
    ensures
        commit.sha@ == sha@,
        commit.subject@ == subject@,
        commit.files == files,
{
    Commit {
        sha: sha.to_owned(),
        subject: subject.to_owned(),
        author: GitHubAuthor { login: "fictional-author".to_owned() },
        authored_at: DEMO_AUTHORED_AT,
        files,
    }
}

fn primary_commits() -> (commits: Vec<Commit>)
    ensures
        forall|j: int| 0 <= j < commits@.len() ==> ((#[trigger] commits@[j]).files matches ChildPane::Available(files) ==> paths_match(files@, if j == 3 || j == 5 { demo_small_paths() } else { demo_primary_paths() })),
        commits_match(commits@, demo_primary_commits()),
        commits@.len() == 6,
        forall|j: int| 0 <= j < commits@.len() ==> is_demo_commit(#[trigger] commits@[j]),
        forall|j: int| 0 <= j < commits@.len() ==> ((#[trigger] commits@[j]).files is Unavailable <==> j == 1),
{
    let mut commits: Vec<Commit> = Vec::new();
    proof {
        reveal_strlit("a1b2c3d000000000000000000000000000000000");
        reveal_strlit("Refine fictional launch screen");
    }
    commits.push(commit("a1b2c3d000000000000000000000000000000000", "Refine fictional launch screen", ChildPane::Available(primary_files())));
    proof {
        reveal_strlit("b2c3d4e000000000000000000000000000000000");
        reveal_strlit("Simulate a fictional oversized response");
    }
    commits.push(commit("b2c3d4e000000000000000000000000000000000", "Simulate a fictional oversized response", ChildPane::Unavailable));
    proof {
        reveal_strlit("c3d4e5f000000000000000000000000000000000");
        reveal_strlit("Add imaginary planet routes");
    }
    commits.push(commit("c3d4e5f000000000000000000000000000000000", "Add imaginary planet routes", ChildPane::Available(primary_files())));
    proof {
        reveal_strlit("d4e5f6a000000000000000000000000000000000");
        reveal_strlit("Document offline fixture mode");
    }
    commits.push(commit("d4e5f6a000000000000000000000000000000000", "Document offline fixture mode", ChildPane::Available(small_files())));
    proof {
        reveal_strlit("e5f6a7b000000000000000000000000000000000");
        reveal_strlit("Cover made-up route examples");
    }
    commits.push(commit("e5f6a7b000000000000000000000000000000000", "Cover made-up route examples", ChildPane::Available(primary_files())));
    proof {
        reveal_strlit("f6a7b8c000000000000000000000000000000000");
        reveal_strlit("Polish demonstration labels");
    }
    commits.push(commit("f6a7b8c000000000000000000000000000000000", "Polish demonstration labels", ChildPane::Available(small_files())));
    commits
}

fn secondary_commits() -> (commits: Vec<Commit>)
    ensures
        forall|j: int| 0 <= j < commits@.len() ==> ((#[trigger] commits@[j]).files matches ChildPane::Available(files) ==> paths_match(files@, if j == 0 { demo_small_paths() } else { demo_primary_paths() })),
        commits_match(commits@, demo_secondary_commits()),
        commits@.len() == 2,
        forall|j: int| 0 <= j < commits@.len() ==> is_demo_commit(#[trigger] commits@[j]),
        forall|j: int| 0 <= j < commits@.len() ==> (#[trigger] commits@[j]).files is Available,
{
    let mut commits: Vec<Commit> = Vec::new();
    proof {
        reveal_strlit("13579bd000000000000000000000000000000000");
        reveal_strlit("Plant fictional color seeds");
    }
    commits.push(commit("13579bd000000000000000000000000000000000", "Plant fictional color seeds", ChildPane::Available(small_files())));
    proof {
        reveal_strlit("2468ace000000000000000000000000000000000");
        reveal_strlit("Arrange sample garden tiles");
    }
    commits.push(commit("2468ace000000000000000000000000000000000", "Arrange sample garden tiles", ChildPane::Available(primary_files())));
    commits
}

fn single_commit() -> (commits: Vec<Commit>)
    ensures
        forall|j: int| 0 <= j < commits@.len() ==> ((#[trigger] commits@[j]).files matches ChildPane::Available(files) ==> paths_match(files@, demo_small_paths())),
        commits_match(commits@, demo_single_commit()),
        commits@.len() == 1,
        forall|j: int| 0 <= j < commits@.len() ==> is_demo_commit(#[trigger] commits@[j]),
        forall|j: int| 0 <= j < commits@.len() ==> (#[trigger] commits@[j]).files is Available,
{
    let mut commits: Vec<Commit> = Vec::new();
    proof {
        reveal_strlit("0decafe000000000000000000000000000000000");
        reveal_strlit("Calibrate imaginary clockwork");
    }
    commits.push(commit("0decafe000000000000000000000000000000000", "Calibrate imaginary clockwork", ChildPane::Available(small_files())));
    commits
}

fn file(path: &str, lines: Vec<String>) -> (file: FileChange)
    ensures
        file.path@ == path@,
        file.diff_lines == ChildPane::Available(lines),
{
    FileChange { path: path.to_owned(), diff_lines: ChildPane::Available(lines) }
}

fn primary_files() -> (files: Vec<FileChange>)
    ensures
        paths_match(files@, demo_primary_paths()),
        files@.len() == 8,
{
    let mut files: Vec<FileChange> = Vec::new();
    files.push(file("src/welcome.rs", welcome_diff()));
    files.push(file("themes/twilight.toml", theme_diff()));
    files.push(file("src/routes.rs", routes_diff()));
    files.push(file("tests/routes.rs", test_diff()));
    files.push(file("README.md", doc_diff()));
    files.push(FileChange { path: "assets/fictional-orbit-map.bin".to_owned(), diff_lines: ChildPane::Unavailable });
    files.push(file("generated/fictional-catalog.rs", capped_diff()));
    files.push(file("notes/empty-placeholder.txt", Vec::new()));
    files
}

fn small_files() -> (files: Vec<FileChange>)
    ensures
        paths_match(files@, demo_small_paths()),
        files@.len() == 2,
{
    let mut files: Vec<FileChange> = Vec::new();
    files.push(file("src/lib.rs", routes_diff()));
    files.push(file("tests/demo.rs", test_diff()));
    files
}

/// The diff of the demo welcome screen: two hunks and one very long line.
fn welcome_diff() -> (lines: Vec<String>)
    ensures
        lines@.len() == 45,
{
    let mut lines: Vec<String> = Vec::new();
    lines.push("@@ -1,12 +1,27 @@".to_owned());
    lines.push(" pub fn greeting(name: &str) -> String {".to_owned());
    lines.push("-    format!(\"Hello, {name}\")".to_owned());
    lines.push("+    let heading = \"Welcome aboard\";".to_owned());
    lines.push("+    format!(\"{heading}, {name}!\")".to_owned());
    lines.push(" }".to_owned());
    lines.push("+".to_owned());
    lines.push("+pub fn beacon_sequence() -> Vec<&'static str> {".to_owned());
    lines.push("+    vec![".to_owned());
    lines.push("+        \"first fictional beacon\",".to_owned());
    lines.push("+        \"second fictional beacon\",".to_owned());
    lines.push("+        \"third fictional beacon\",".to_owned());
    lines.push("+    ]".to_owned());
    lines.push("+}".to_owned());
    lines.push("+".to_owned());
    lines.push("+pub fn launch_checklist() -> Vec<&'static str> {".to_owned());
    lines.push("+    vec![".to_owned());
    lines.push("+        \"seal the sample hatch\",".to_owned());
    lines.push("+        \"count the paper satellites\",".to_owned());
    lines.push("+        \"tune the imaginary receiver\",".to_owned());
    lines.push("+        \"confirm the painted horizon\",".to_owned());
    lines.push("+        \"wave to the cardboard moon\",".to_owned());
    lines.push("+    ]".to_owned());
    lines.push("+}".to_owned());
    lines.push(" ".to_owned());
    lines.push(" pub fn version() -> &'static str {".to_owned());
    lines.push("     \"demo-1\"".to_owned());
    lines.push(" }".to_owned());
    lines.push("@@ -24,6 +39,22 @@ pub fn launch() -> LaunchState {".to_owned());
    lines.push("     let state = LaunchState::Preparing;".to_owned());
    lines.push("+    record(\"first fictional beacon acknowledged\");".to_owned());
    lines.push("+    record(\"second fictional beacon acknowledged\");".to_owned());
    lines.push("+    record(\"third fictional beacon acknowledged\");".to_owned());
    lines.push("+    record(\"crew manifest checked\");".to_owned());
    lines.push("+    record(\"sample route selected\");".to_owned());
    lines.push("+    record(\"practice countdown started\");".to_owned());
    lines.push("+    record(\"practice countdown paused\");".to_owned());
    lines.push("+    record(\"paper map unfolded\");".to_owned());
    lines.push("+    record(\"fictional weather accepted\");".to_owned());
    lines.push("+    record(\"demonstration telemetry enabled\");".to_owned());
    lines.push("+    record(\"this deliberately long fictional telemetry message demonstrates Unicode-safe soft wrapping across a narrow diff pane without hiding any review content from the reader\");".to_owned());
    lines.push("+    record(\"all systems remain imaginary\");".to_owned());
    lines.push("+    record(\"launch review complete\");".to_owned());
    lines.push("     state".to_owned());
    lines.push(" }".to_owned());
    lines
}

/// The diff of the demo theme.
fn theme_diff() -> (lines: Vec<String>)
    ensures
        lines@.len() == 11,
{
    let mut lines: Vec<String> = Vec::new();
    lines.push("@@ -4,9 +4,11 @@".to_owned());
    lines.push(" [palette]".to_owned());
    lines.push(" background = \"#10151c\"".to_owned());
    lines.push(" foreground = \"#d8e2ee\"".to_owned());
    lines.push("-accent = \"#80cbc4\"".to_owned());
    lines.push("+accent = \"#67d4c1\"".to_owned());
    lines.push("+selection = \"#244a52\"".to_owned());
    lines.push(" ".to_owned());
    lines.push(" [panes]".to_owned());
    lines.push("+focused_border = \"accent\"".to_owned());
    lines.push(" inactive_border = \"#53606d\"".to_owned());
    lines
}

/// The diff of the demo routes.
fn routes_diff() -> (lines: Vec<String>)
    ensures
        lines@.len() == 14,
{
    let mut lines: Vec<String> = Vec::new();
    lines.push("@@ -18,7 +18,16 @@".to_owned());
    lines.push(" pub fn routes() -> Router {".to_owned());
    lines.push("     Router::new()".to_owned());
    lines.push("         .route(\"/health\", get(health))".to_owned());
    lines.push("+        .route(\"/planets\", get(list_planets))".to_owned());
    lines.push(" }".to_owned());
    lines.push("+".to_owned());
    lines.push("+async fn list_planets() -> Json<Vec<&'static str>> {".to_owned());
    lines.push("+    Json(vec![".to_owned());
    lines.push("+        \"Aster\",".to_owned());
    lines.push("+        \"Brindle\",".to_owned());
    lines.push("+        \"Cinder\",".to_owned());
    lines.push("+    ])".to_owned());
    lines.push("+}".to_owned());
    lines
}

/// The diff of the demo tests.
fn test_diff() -> (lines: Vec<String>)
    ensures
        lines@.len() == 12,
{
    let mut lines: Vec<String> = Vec::new();
    lines.push("@@ -0,0 +1,13 @@".to_owned());
    lines.push("+#[test]".to_owned());
    lines.push("+fn fictional_planets_are_stable() {".to_owned());
    lines.push("+    let planets = demo_planets();".to_owned());
    lines.push("+    assert_eq!(planets.len(), 3);".to_owned());
    lines.push("+    assert_eq!(planets[0], \"Aster\");".to_owned());
    lines.push("+}".to_owned());
    lines.push("+".to_owned());
    lines.push("+#[test]".to_owned());
    lines.push("+fn health_is_ready() {".to_owned());
    lines.push("+    assert_eq!(health(), \"ready\");".to_owned());
    lines.push("+}".to_owned());
    lines
}

/// The diff of the demo README.
fn doc_diff() -> (lines: Vec<String>)
    ensures
        lines@.len() == 7,
{
    let mut lines: Vec<String> = Vec::new();
    lines.push("@@ -2,5 +2,8 @@".to_owned());
    lines.push(" # Orbit Notes (fictional demo)".to_owned());
    lines.push(" ".to_owned());
    lines.push("+This repository exists only inside ReviewBox fixtures.".to_owned());
    lines.push("+It never performs a network request.".to_owned());
    lines.push("+".to_owned());
    lines.push(" Run the example with `cargo run`.".to_owned());
    lines
}

/// The lines kept of a generated file whose patch was capped.
fn capped_diff() -> (lines: Vec<String>)
    ensures
        lines@.len() == 5,
{
    let mut lines: Vec<String> = Vec::new();
    lines.push("@@ -1,2 +1,4 @@".to_owned());
    lines.push(" pub fn catalog() {".to_owned());
    lines.push("+    add_fictional_entry(\"Aster\");".to_owned());
    lines.push("+    add_fictional_entry(\"Brindle\");".to_owned());
    lines.push(" }".to_owned());
    lines
}

} // verus!
