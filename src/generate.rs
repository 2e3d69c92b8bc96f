//! Project generation: which files and directories a new project gets, and
//! the decisions taken before anything is written.

use crate::config::DEFAULT_PORT;
use crate::template::{
    destination_path, destination_path_of, render_template_file, rendered, replacements,
    substituted, Replacements,
};
use vstd::prelude::*;
use vstd::utf8::valid_utf8;

verus! {

/// A file of the template tree; its path is relative to the tree's root.
#[derive(Debug, Clone)]
pub struct TemplateFile {
    pub path: String,
    pub contents: Vec<u8>,
}

/// A directory of the template tree; its path is relative to the tree's root.
#[derive(Debug)]
pub struct TemplateDir {
    pub path: String,
    pub entries: Vec<TemplateEntry>,
}

/// An entry of a template directory.
#[derive(Debug)]
pub enum TemplateEntry {
    File(TemplateFile),
    Dir(TemplateDir),
}

/// One step of writing a project; paths are relative to the target directory.
#[derive(Debug, Clone)]
pub enum WriteOp {
    /// Create the directory, and its parents, where missing.
    CreateDir { path: String },
    /// Write the file, creating its parent directories where missing.
    WriteFile { path: String, contents: Vec<u8> },
}

/// A step of writing a project, as values.
pub enum WriteOpView {
    CreateDir(Seq<char>),
    WriteFile(Seq<char>, Seq<u8>),
}

impl View for WriteOp {
    type V = WriteOpView;

    open spec fn view(&self) -> WriteOpView {
        match self {
            WriteOp::CreateDir { path } => WriteOpView::CreateDir(path@),
            WriteOp::WriteFile { path, contents } => WriteOpView::WriteFile(path@, contents@),
        }
    }
}

/// The steps as values.
pub open spec fn ops_view(ops: Seq<WriteOp>) -> Seq<WriteOpView> {
    ops.map_values(|o: WriteOp| o@)
}

/// The step that writes a template file.
pub open spec fn file_op(f: TemplateFile, rep: Replacements) -> WriteOpView {
    WriteOpView::WriteFile(
        destination_path(f.path@),
        rendered(f.contents@, valid_utf8(f.contents@), rep),
    )
}

/// The steps that write the entries of `d` from the `i`-th on, in order; a
/// subdirectory is created, then its own entries are written.
pub open spec fn entry_ops(d: TemplateDir, i: int, rep: Replacements) -> Seq<WriteOpView>
    decreases d, d.entries@.len() - i,
{
    if i < 0 || i >= d.entries@.len() {
        seq![]
    } else {
        let here = match d.entries@[i] {
            TemplateEntry::File(f) => seq![file_op(f, rep)],
            TemplateEntry::Dir(sub) => seq![WriteOpView::CreateDir(sub.path@)] + entry_ops(
                sub,
                0,
                rep,
            ),
        };
        here + entry_ops(d, i + 1, rep)
    }
}

/// Why a project could not be generated.
#[derive(Debug, Clone, Copy, PartialEq, Eq)]
pub enum GenerationError {
    /// No name was given and prompting is disabled.
    MissingProjectName,
    /// The project name is the empty string.
    EmptyProjectName,
    /// The target directory already exists and generation is not in place.
    TargetExists,
}

/// Appends the steps that write the entries of `dir`.
fn extract_recursive(
    dir: &TemplateDir,
    project_name: &str,
    port: u16,
    library_version: &str,
    ops: &mut Vec<WriteOp>,
)
    ensures
        ops_view(final(ops)@) == ops_view(old(ops)@) + entry_ops(
            *dir,
            0,
            replacements(project_name@, port, library_version@),
        ),
    decreases dir,
{
    let ghost rep = replacements(project_name@, port, library_version@);
    let mut i: usize = 0;
    assert(ops_view(ops@) + entry_ops(*dir, 0, rep) =~= ops_view(old(ops)@) + entry_ops(*dir, 0, rep));
    while i < dir.entries.len()
        invariant
            i <= dir.entries@.len(),
            rep == replacements(project_name@, port, library_version@),
            ops_view(ops@) + entry_ops(*dir, i as int, rep) == ops_view(old(ops)@) + entry_ops(
                *dir,
                0,
                rep,
            ),
        decreases dir.entries@.len() - i,
    {
        let ghost before = ops@;
        match &dir.entries[i] {
            TemplateEntry::File(file) => {
                let path = destination_path_of(file.path.as_str());
                let contents = render_template_file(
                    file.contents.as_slice(),
                    project_name,
                    port,
                    library_version,
                );
                ops.push(WriteOp::WriteFile { path, contents });
                assert(ops_view(ops@) =~= ops_view(before) + seq![file_op(*file, rep)]);
            },
            TemplateEntry::Dir(subdir) => {
                ops.push(WriteOp::CreateDir { path: subdir.path.clone() });
                let ghost mid = ops@;
                assert(ops_view(mid) =~= ops_view(before) + seq![
                    WriteOpView::CreateDir(subdir.path@),
                ]);
                extract_recursive(subdir, project_name, port, library_version, ops);
            },
        }
        assert(ops_view(ops@) + entry_ops(*dir, i + 1, rep) =~= ops_view(before) + entry_ops(
            *dir,
            i as int,
            rep,
        ));
        i = i + 1;
    }
    assert(entry_ops(*dir, i as int, rep) =~= seq![]);
    assert(ops_view(ops@) + seq![] =~= ops_view(ops@));
}

/// The steps that write a new project from the template tree `tree`: each
/// directory is created and each file written, in the tree's order, with the
/// environment template renamed and the placeholders of text files replaced.
///
/// An empty project name is refused first; then, unless generating in place,
/// an existing target directory.
pub fn generate_project(
    tree: &TemplateDir,
    project_name: &str,
    port: u16,
    library_version: &str,
    init_in_place: bool,
    target_exists: bool,
) -> (r: Result<Vec<WriteOp>, GenerationError>)
    ensures
        r == Err::<Vec<WriteOp>, _>(GenerationError::EmptyProjectName) <==> project_name@.len()
            == 0,
        r == Err::<Vec<WriteOp>, _>(GenerationError::TargetExists) <==> (project_name@.len() > 0
            && !init_in_place && target_exists),
        r is Ok <==> (project_name@.len() > 0 && (init_in_place || !target_exists)),
        r matches Ok(ops) ==> ops_view(ops@) == entry_ops(
            *tree,
            0,
            replacements(project_name@, port, library_version@),
        ),
{
    if let Err(e) = check_project_name(project_name) {
        return Err(e);
    }
    if !init_in_place && target_exists {
        return Err(GenerationError::TargetExists);
    }
    let mut ops: Vec<WriteOp> = Vec::new();
    assert(ops_view(ops@) =~= seq![]);
    extract_recursive(tree, project_name, port, library_version, &mut ops);
    assert(ops_view(ops@) =~= entry_ops(*tree, 0, replacements(project_name@, port, library_version@)));
    Ok(ops)
}

/// The file that `route` leads to from `d`: each index but the last picks a
/// subdirectory among the entries, the last picks a file.
pub open spec fn file_at(d: TemplateDir, route: Seq<int>) -> Option<TemplateFile>
    decreases route.len(),
{
    if route.len() == 0 || route[0] < 0 || route[0] >= d.entries@.len() {
        None
    } else {
        match d.entries@[route[0]] {
            TemplateEntry::File(f) => if route.len() == 1 {
                Some(f)
            } else {
                None
            },
            TemplateEntry::Dir(sub) => file_at(sub, route.skip(1)),
        }
    }
}

/// The directory that `route` leads to from `d`: each index picks a
/// subdirectory among the entries.
pub open spec fn dir_at(d: TemplateDir, route: Seq<int>) -> Option<TemplateDir>
    decreases route.len(),
{
    if route.len() == 0 || route[0] < 0 || route[0] >= d.entries@.len() {
        None
    } else {
        match d.entries@[route[0]] {
            TemplateEntry::File(_) => None,
            TemplateEntry::Dir(sub) => if route.len() == 1 {
                Some(sub)
            } else {
                dir_at(sub, route.skip(1))
            },
        }
    }
}

/// The steps for entry `i` of `d`, alone.
pub open spec fn own_ops(d: TemplateDir, i: int, rep: Replacements) -> Seq<WriteOpView>
    recommends
        0 <= i < d.entries@.len(),
{
    match d.entries@[i] {
        TemplateEntry::File(f) => seq![file_op(f, rep)],
        TemplateEntry::Dir(sub) => seq![WriteOpView::CreateDir(sub.path@)] + entry_ops(sub, 0, rep),
    }
}

proof fn lemma_entry_ops_unfold(d: TemplateDir, i: int, rep: Replacements)
    requires
        0 <= i < d.entries@.len(),
    ensures
        entry_ops(d, i, rep) == own_ops(d, i, rep) + entry_ops(d, i + 1, rep),
{
}

/// A step of the entries from the `j`-th on is a step of those from any earlier `i`-th on.
proof fn lemma_contains_from(d: TemplateDir, i: int, j: int, x: WriteOpView, rep: Replacements)
    requires
        0 <= i <= j < d.entries@.len(),
        entry_ops(d, j, rep).contains(x),
    ensures
        entry_ops(d, i, rep).contains(x),
    decreases j - i,
{
    if i < j {
        lemma_contains_from(d, i + 1, j, x, rep);
        lemma_entry_ops_unfold(d, i, rep);
        let h = own_ops(d, i, rep);
        let b = entry_ops(d, i + 1, rep);
        let k = choose|k: int| 0 <= k < b.len() && b[k] == x;
        assert((h + b)[h.len() + k] == x);
    }
}

/// A step of entry `j` alone is a step of the entries from the `j`-th on.
proof fn lemma_own_ops_included(d: TemplateDir, j: int, x: WriteOpView, rep: Replacements)
    requires
        0 <= j < d.entries@.len(),
        own_ops(d, j, rep).contains(x),
    ensures
        entry_ops(d, 0, rep).contains(x),
{
    lemma_entry_ops_unfold(d, j, rep);
    let h = own_ops(d, j, rep);
    let k = choose|k: int| 0 <= k < h.len() && h[k] == x;
    assert((h + entry_ops(d, j + 1, rep))[k] == x);
    lemma_contains_from(d, 0, j, x, rep);
}

/// Every file of the template tree, at any depth, is written: under its
/// destination path (the environment template renamed to `.env`), with the
/// placeholders of a text file replaced and any other file copied unchanged.
pub proof fn lemma_every_file_written(tree: TemplateDir, route: Seq<int>, rep: Replacements)
    requires
        file_at(tree, route) is Some,
    ensures
        ({
            let f = file_at(tree, route)->0;
            entry_ops(tree, 0, rep).contains(
                WriteOpView::WriteFile(
                    destination_path(f.path@),
                    if valid_utf8(f.contents@) {
                        substituted(f.contents@, rep)
                    } else {
                        f.contents@
                    },
                ),
            )
        }),
    decreases route.len(),
{
    let f = file_at(tree, route)->0;
    let x = file_op(f, rep);
    let j = route[0];
    match tree.entries@[j] {
        TemplateEntry::File(_) => {
            assert(own_ops(tree, j, rep)[0] == x);
        },
        TemplateEntry::Dir(sub) => {
            lemma_every_file_written(sub, route.skip(1), rep);
            let b = entry_ops(sub, 0, rep);
            let k = choose|k: int| 0 <= k < b.len() && b[k] == x;
            assert(own_ops(tree, j, rep)[1 + k] == x);
        },
    }
    lemma_own_ops_included(tree, j, x, rep);
}

/// Every file of the template tree that is not well-formed UTF-8, at any
/// depth, is written byte for byte as it is.
pub proof fn lemma_binary_files_copied(tree: TemplateDir, route: Seq<int>, rep: Replacements)
    requires
        file_at(tree, route) matches Some(f) && !valid_utf8(f.contents@),
    ensures
        ({
            let f = file_at(tree, route)->0;
            entry_ops(tree, 0, rep).contains(
                WriteOpView::WriteFile(destination_path(f.path@), f.contents@),
            )
        }),
{
    lemma_every_file_written(tree, route, rep);
}

/// Every directory of the template tree, at any depth, is created.
pub proof fn lemma_every_dir_created(tree: TemplateDir, route: Seq<int>, rep: Replacements)
    requires
        dir_at(tree, route) is Some,
    ensures
        entry_ops(tree, 0, rep).contains(WriteOpView::CreateDir(dir_at(tree, route)->0.path@)),
    decreases route.len(),
{
    let j = route[0];
    let sub = tree.entries@[j]->Dir_0;
    if route.len() == 1 {
        let x = WriteOpView::CreateDir(sub.path@);
        assert(own_ops(tree, j, rep)[0] == x);
        lemma_own_ops_included(tree, j, x, rep);
    } else {
        let x = WriteOpView::CreateDir(dir_at(tree, route)->0.path@);
        lemma_every_dir_created(sub, route.skip(1), rep);
        let b = entry_ops(sub, 0, rep);
        let k = choose|k: int| 0 <= k < b.len() && b[k] == x;
        assert(own_ops(tree, j, rep)[1 + k] == x);
        lemma_own_ops_included(tree, j, x, rep);
    }
}

/// Refuses the empty project name.
pub fn check_project_name(project_name: &str) -> (r: Result<(), GenerationError>)
    ensures
        r is Ok <==> project_name@.len() > 0,
        r is Err ==> r == Err::<(), _>(GenerationError::EmptyProjectName),
{
    if project_name.is_empty() {
        Err(GenerationError::EmptyProjectName)
    } else {
        Ok(())
    }
}

/// The version of the library that generated projects depend on.
pub const LIBRARY_VERSION: &'static str = "0.1.0";

/// How the project name is settled: `Ok(Some(name))` when one was given,
/// `Ok(None)` when the user is to be asked, and an error when no name was
/// given and asking is disabled.
pub fn project_name_choice(name: Option<String>, no_interactive: bool) -> (r: Result<
    Option<String>,
    GenerationError,
>)
    ensures
        name is Some ==> r == Ok::<_, GenerationError>(name),
        name is None && no_interactive ==> r == Err::<Option<String>, _>(
            GenerationError::MissingProjectName,
        ),
        name is None && !no_interactive ==> r == Ok::<_, GenerationError>(None::<String>),
{
    match name {
        Some(n) => Ok(Some(n)),
        None => if no_interactive {
            Err(GenerationError::MissingProjectName)
        } else {
            Ok(None)
        },
    }
}

/// How the port is settled: `Some(port)` when one was given, the default
/// port when none was given and asking is disabled, and `None` when the user
/// is to be asked (offering the default port).
pub fn port_choice(port: Option<u16>, no_interactive: bool) -> (r: Option<u16>)
    ensures
        port is Some ==> r == port,
        port is None && no_interactive ==> r == Some(DEFAULT_PORT),
        port is None && !no_interactive ==> r is None,
{
    match port {
        Some(p) => Some(p),
        None => if no_interactive {
            Some(DEFAULT_PORT)
        } else {
            None
        },
    }
}

} // verus!
