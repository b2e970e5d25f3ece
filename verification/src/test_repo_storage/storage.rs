//! Where a repository keeps its tests, and what is to be fetched or removed.

use crate::ordered::{entry_views, listing, stable_sort, stable_sorted, OrderedMap};
use crate::test_repo_storage::models::{
    not_found_message, source_id_of, BootstrapDataGeneratorDefinition,
    SourceChangeGeneratorDefinition, TestDefinition, TestSourceDefinition,
};
use crate::text::{debug_text, option_text, str_debug};
use vstd::prelude::*;
use vstd::string::*;

verus! {

/// The repositories of a store.
#[derive(Debug)]
pub struct TestRepoStore {
    pub path: String,
    pub test_repos: OrderedMap<String, ()>,
}

/// A repository of a store.
#[derive(Debug)]
pub struct TestRepoStorage {
    pub id: String,
    pub path: String,
}

/// A test of a repository: its definition, and the folders of its data and of its sources,
/// below the repository.
#[derive(Debug)]
pub struct TestStorage {
    pub id: String,
    pub repo_id: String,
    pub data_folder: String,
    pub sources_folder: String,
    pub test_definition: TestDefinition,
}

/// A source of a test, and the folder of its data below the repository.
#[derive(Debug)]
pub struct TestSourceStorage {
    pub id: String,
    pub repo_id: String,
    pub test_id: String,
    pub test_source_definition: TestSourceDefinition,
}

/// The name of the folder of a test's sources.
pub open spec fn sources_folder_name() -> Seq<char> {
    "sources"@
}

/// The file of a test's definition.
pub open spec fn definition_file(test_id: Seq<char>) -> Seq<char> {
    test_id + ".test.json"@
}

/// The folder of a test's data: the one that the definition names, or the test's own name.
pub open spec fn data_folder_of(definition: TestDefinition, test_id: Seq<char>) -> Seq<char> {
    match option_text(definition.test_folder) {
        Some(folder) => folder,
        None => test_id,
    }
}

/// What is to be done about a folder before it is used.
#[derive(Clone, Copy, Debug, PartialEq, Eq, Structural)]
pub struct FolderPlan {
    pub remove: bool,
    pub create: bool,
}

/// What is to be done about a folder: one that is to be replaced is removed, and one that is
/// not there, or no longer, is created.
pub fn plan_folder(replace: bool, exists: bool) -> (r: FolderPlan)
    ensures
        r.remove == (replace && exists),
        r.create == (replace || !exists),
{
    FolderPlan { remove: replace && exists, create: replace || !exists }
}

/// What is to be done about a test that is kept elsewhere.
#[derive(Clone, Copy, Debug, PartialEq, Eq, Structural)]
pub struct RemoteTestPlan {
    pub remove_definition: bool,
    pub remove_data: bool,
    pub download: bool,
}

/// What is to be done about a test that is kept elsewhere: one that is to be replaced is
/// removed with its data, and a definition that is not there, or no longer, is fetched.
pub fn plan_remote_test(replace: bool, definition_exists: bool, data_exist: bool) -> (r:
    RemoteTestPlan)
    ensures
        r.remove_definition == (replace && definition_exists),
        r.remove_data == (replace && data_exist),
        r.download == (replace || !definition_exists),
{
    RemoteTestPlan {
        remove_definition: replace && definition_exists,
        remove_data: replace && data_exist,
        download: replace || !definition_exists,
    }
}

/// The message that a test is not there.
pub open spec fn test_not_found(id: Seq<char>) -> Seq<char> {
    "Test with ID "@ + debug_text(id) + " not found"@
}

impl TestRepoStore {
    /// The repositories are well formed.
    pub open spec fn wf(self) -> bool {
        self.test_repos.wf()
    }

    /// A store without repositories.
    pub fn new(path: String) -> (r: TestRepoStore)
        ensures
            r.wf(),
            r.path@ == path@,
            r.test_repos@ == Map::<Seq<char>, ()>::empty(),
    {
        TestRepoStore { path, test_repos: OrderedMap::new() }
    }

    /// Registers a repository, whether its folder was there already or had to be created.
    pub fn add_test_repo(&mut self, id: &str)
        requires
            old(self).wf(),
        ensures
            final(self).wf(),
            final(self).path == old(self).path,
            final(self).test_repos@ == old(self).test_repos@.insert(id@, ()),
    {
        self.test_repos.insert(id.to_owned(), ());
    }

    /// The storage of a repository whose folder is there, at the given path.
    pub fn get_test_repo_storage(&self, id: &str, exists: bool, path: String) -> (r: Result<
        TestRepoStorage,
        String,
    >)
        requires
            self.wf(),
            exists ==> self.test_repos@.contains_key(id@),
        ensures
            match r {
                Ok(storage) => exists && storage.id@ == id@ && storage.path == path,
                Err(error) => !exists && error@ == "Test Repo with ID "@ + debug_text(id@)
                    + " not found"@,
            },
    {
        if exists {
            Ok(TestRepoStorage { id: id.to_owned(), path })
        } else {
            Err(TestRepoStore::repo_not_found(id))
        }
    }

    /// Whether a repository is registered.
    pub fn is_registered(&self, id: &str) -> (r: bool)
        requires
            self.wf(),
        ensures
            r == self.test_repos@.contains_key(id@),
    {
        self.test_repos.contains_key(&id.to_owned())
    }

    /// The message that a repository is not there.
    fn repo_not_found(id: &str) -> (r: String)
        ensures
            r@ == "Test Repo with ID "@ + debug_text(id@) + " not found"@,
    {
        let mut message = "Test Repo with ID ".to_owned();
        message.append(str_debug(id).as_str());
        message.append(" not found");
        message
    }
}

impl TestRepoStorage {
    /// The file of a test's definition.
    pub fn definition_file_name(test_id: &str) -> (r: String)
        ensures
            r@ == definition_file(test_id@),
    {
        let mut name = test_id.to_owned();
        name.append(".test.json");
        name
    }

    /// The definition of a test, or the message that there is none.
    pub fn get_test_definition(id: &str, definition: Option<TestDefinition>) -> (r: Result<
        TestDefinition,
        String,
    >)
        ensures
            match (r, definition) {
                (Ok(found), Some(definition)) => found == definition,
                (Err(error), None) => error@ == test_not_found(id@),
                _ => false,
            },
    {
        match definition {
            Some(definition) => Ok(definition),
            None => {
                let mut message = "Test with ID ".to_owned();
                message.append(str_debug(id).as_str());
                message.append(" not found");
                Err(message)
            },
        }
    }

    /// The storage of a test whose definition was read, or the message that there is none.
    pub fn get_test_storage(&self, id: &str, definition: Option<TestDefinition>) -> (r: Result<
        TestStorage,
        String,
    >)
        ensures
            match (r, definition) {
                (Ok(storage), Some(definition)) => {
                    &&& storage.id@ == id@
                    &&& storage.repo_id@ == self.id@
                    &&& storage.data_folder@ == data_folder_of(definition, id@)
                    &&& storage.sources_folder@ == sources_folder_name()
                    &&& storage.test_definition == definition
                },
                (Err(error), None) => error@ == test_not_found(id@),
                _ => false,
            },
    {
        match TestRepoStorage::get_test_definition(id, definition) {
            Ok(definition) => {
                let data_folder = match &definition.test_folder {
                    Some(folder) => folder.clone(),
                    None => id.to_owned(),
                };
                Ok(
                    TestStorage {
                        id: id.to_owned(),
                        repo_id: self.id.clone(),
                        data_folder,
                        sources_folder: "sources".to_owned(),
                        test_definition: definition,
                    },
                )
            },
            Err(error) => Err(error),
        }
    }
}

impl TestStorage {
    /// The definition of a source, and what is to be done about its data.
    pub fn get_test_source(&self, id: &str, replace: bool, data_exist: bool) -> (r: Result<
        (&TestSourceDefinition, FolderPlan),
        String,
    >)
        ensures
            match r {
                Ok((source, plan)) => {
                    &&& source_id_of(*source) == id@
                    &&& exists|i: int|
                        #![trigger self.test_definition.sources@[i]]
                        0 <= i < self.test_definition.sources@.len() && *source
                            == self.test_definition.sources@[i] && (forall|j: int|
                            0 <= j < i ==> source_id_of(
                                #[trigger] self.test_definition.sources@[j],
                            ) != id@)
                    &&& plan.remove == (replace && data_exist)
                    &&& plan.create == (replace || !data_exist)
                },
                Err(error) => {
                    &&& error@ == not_found_message("Test Source with ID "@, id@)
                    &&& forall|j: int|
                        0 <= j < self.test_definition.sources@.len() ==> source_id_of(
                            #[trigger] self.test_definition.sources@[j],
                        ) != id@
                },
            },
    {
        match self.test_definition.get_test_source(id) {
            Ok(source) => Ok((source, plan_folder(replace, data_exist))),
            Err(error) => Err(error),
        }
    }
}

/// A file of initial data: the type of its data, which is the name of the folder that it lies in,
/// and its path.
#[derive(Debug)]
pub struct BootstrapScriptFile {
    pub data_type_name: String,
    pub path: Vec<u8>,
}

/// A file of changes: its name and its path.
#[derive(Debug)]
pub struct ChangeScriptFile {
    pub file_name: Vec<u8>,
    pub path: Vec<u8>,
}

/// The views of a list of paths.
pub open spec fn path_views(paths: Seq<Vec<u8>>) -> Seq<Seq<u8>> {
    Seq::new(paths.len(), |i: int| paths[i]@)
}

/// The paths of the files of one type of data.
#[derive(Debug)]
pub struct PathList {
    pub paths: Vec<Vec<u8>>,
}

impl View for PathList {
    type V = Seq<Seq<u8>>;

    open spec fn view(&self) -> Seq<Seq<u8>> {
        path_views(self.paths@)
    }
}

/// The files of a source's scripts: those of its initial data by type, and those of its
/// changes in order.
#[derive(Debug)]
pub struct TestSourceScriptSet {
    pub bootstrap_data_script_files: Vec<(String, PathList)>,
    pub source_change_script_files: Vec<Vec<u8>>,
}

/// The files by the type of their data, those of each type in their order.
pub open spec fn files_by_type(files: Seq<BootstrapScriptFile>) -> Map<Seq<char>, Seq<Seq<u8>>>
    decreases files.len(),
{
    if files.len() == 0 {
        Map::empty()
    } else {
        let map = files_by_type(files.drop_last());
        let file = files.last();
        let known = if map.contains_key(file.data_type_name@) {
            map[file.data_type_name@]
        } else {
            Seq::empty()
        };
        map.insert(file.data_type_name@, known.push(file.path@))
    }
}

/// The paths under their files' names.
pub open spec fn named_paths(files: Seq<ChangeScriptFile>) -> Seq<(Seq<u8>, Seq<u8>)> {
    Seq::new(files.len(), |i: int| (files[i].file_name@, files[i].path@))
}

/// The second parts of a list of pairs.
pub open spec fn paths_of(entries: Seq<(Seq<u8>, Seq<u8>)>) -> Seq<Seq<u8>> {
    Seq::new(entries.len(), |i: int| entries[i].1)
}

/// The folder of a source's initial data scripts, where it has some.
pub open spec fn bootstrap_folder(source: TestSourceDefinition) -> Option<Seq<char>> {
    match source {
        TestSourceDefinition::Script(def) => match def.bootstrap_data_generator {
            Some(BootstrapDataGeneratorDefinition::Script(generator)) => Some(
                generator.script_file_folder@,
            ),
            None => None,
        },
        TestSourceDefinition::Model(_) => None,
    }
}

/// The folder of a source's change scripts, where it has some.
pub open spec fn change_folder(source: TestSourceDefinition) -> Option<Seq<char>> {
    match source {
        TestSourceDefinition::Script(def) => match def.source_change_generator {
            Some(SourceChangeGeneratorDefinition::Script(generator)) => Some(
                generator.script_file_folder@,
            ),
            None => None,
        },
        TestSourceDefinition::Model(_) => None,
    }
}

impl TestSourceStorage {
    /// The folders of the source's initial data scripts and of its change scripts.
    pub fn script_folders(&self) -> (r: (Option<&str>, Option<&str>))
        ensures
            match r.0 {
                Some(folder) => bootstrap_folder(self.test_source_definition) == Some(folder@),
                None => bootstrap_folder(self.test_source_definition) is None,
            },
            match r.1 {
                Some(folder) => change_folder(self.test_source_definition) == Some(folder@),
                None => change_folder(self.test_source_definition) is None,
            },
    {
        match &self.test_source_definition {
            TestSourceDefinition::Script(def) => {
                let bootstrap = match &def.bootstrap_data_generator {
                    Some(BootstrapDataGeneratorDefinition::Script(generator)) => Some(
                        generator.script_file_folder.as_str(),
                    ),
                    None => None,
                };
                let changes = match &def.source_change_generator {
                    Some(SourceChangeGeneratorDefinition::Script(generator)) => Some(
                        generator.script_file_folder.as_str(),
                    ),
                    None => None,
                };
                (bootstrap, changes)
            },
            TestSourceDefinition::Model(_) => (None, None),
        }
    }

    /// The files of the source's scripts, given those that were found in the folders.
    pub fn get_script_files(
        bootstrap_files: Vec<BootstrapScriptFile>,
        change_files: Vec<ChangeScriptFile>,
    ) -> (r: TestSourceScriptSet)
        ensures
            entry_views(r.bootstrap_data_script_files@) == listing::<String, Seq<Seq<u8>>>(
                files_by_type(bootstrap_files@),
            ),
            path_views(r.source_change_script_files@) == paths_of(
                stable_sorted::<Vec<u8>, Seq<u8>>(named_paths(change_files@)),
            ),
    {
        TestSourceScriptSet {
            bootstrap_data_script_files: group_files(bootstrap_files),
            source_change_script_files: sort_files(change_files),
        }
    }
}

/// The files by the type of their data.
fn group_files(files: Vec<BootstrapScriptFile>) -> (r: Vec<(String, PathList)>)
    ensures
        entry_views(r@) == listing::<String, Seq<Seq<u8>>>(files_by_type(files@)),
{
    let mut map: OrderedMap<String, PathList> = OrderedMap::new();
    assert(files@.take(0) =~= Seq::<BootstrapScriptFile>::empty());
    for file in it: files
        invariant
            it.seq() == files@,
            map.wf(),
            map@ == files_by_type(files@.take(it.index())),
    {
        let ghost before = map@;
        proof {
            let k = it.index();
            assert(files@.take(k + 1).drop_last() =~= files@.take(k));
            assert(files@.take(k + 1).last() == file);
        }
        let mut paths = match map.remove(&file.data_type_name) {
            Some(list) => list.paths,
            None => {
                let paths: Vec<Vec<u8>> = Vec::new();
                assert(path_views(paths@) =~= Seq::<Seq<u8>>::empty());
                paths
            },
        };
        let ghost known = path_views(paths@);
        let ghost folder = file.data_type_name@;
        let ghost path = file.path@;
        paths.push(file.path);
        proof {
            assert(path_views(paths@) =~= known.push(path));
            assert(before.remove(folder).insert(folder, known.push(path)) =~= before.insert(
                folder,
                known.push(path),
            ));
        }
        map.insert(file.data_type_name, PathList { paths });
    }
    assert(files@.take(files@.len() as int) =~= files@);
    map.into_entries()
}

/// The paths of files in order of the files' names.
fn sort_files(files: Vec<ChangeScriptFile>) -> (r: Vec<Vec<u8>>)
    ensures
        path_views(r@) == paths_of(stable_sorted::<Vec<u8>, Seq<u8>>(named_paths(files@))),
{
    let ghost expected = named_paths(files@);
    let mut entries: Vec<(Vec<u8>, Vec<u8>)> = Vec::new();
    for file in it: files
        invariant
            it.seq() == files@,
            entries@.len() == it.index(),
            expected == named_paths(files@),
            forall|j: int|
                0 <= j < entries@.len() ==> ((#[trigger] entries@[j]).0@, entries@[j].1@)
                    == expected[j],
    {
        entries.push((file.file_name, file.path));
    }
    assert(entry_views(entries@) =~= expected);
    let entries = stable_sort(entries);
    let ghost sorted = entry_views(entries@);
    let mut r: Vec<Vec<u8>> = Vec::new();
    for entry in it: entries
        invariant
            it.seq() == entries@,
            sorted == entry_views(entries@),
            r@.len() == it.index(),
            forall|j: int| 0 <= j < r@.len() ==> (#[trigger] r@[j])@ == sorted[j].1,
    {
        assert(entry.1@ == sorted[it.index()].1);
        r.push(entry.1);
    }
    assert(path_views(r@) =~= paths_of(sorted));
    r
}

} // verus!
