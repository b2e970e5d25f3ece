use e2e_test_framework::test_repo_storage::models::{
    BootstrapDataGeneratorDefinition, CommonBootstrapDataGeneratorDefinition,
    CommonTestSourceDefinition, ModelTestSourceDefinition, ScriptBootstrapDataGeneratorDefinition,
    ScriptTestSourceDefinition, TestDefinition, TestSourceDefinition, TimeMode,
};
use e2e_test_framework::test_repo_storage::storage::{
    plan_folder, plan_remote_test, BootstrapScriptFile, ChangeScriptFile, FolderPlan, RemoteTestPlan,
    TestRepoStorage, TestRepoStore, TestSourceStorage,
};

fn common(id: &str) -> CommonTestSourceDefinition {
    CommonTestSourceDefinition {
        test_source_id: id.to_string(),
        source_change_dispatchers: vec![],
        subscribers: vec![],
    }
}

fn script_source() -> TestSourceDefinition {
    TestSourceDefinition::Script(ScriptTestSourceDefinition {
        bootstrap_data_generator: Some(BootstrapDataGeneratorDefinition::Script(
            ScriptBootstrapDataGeneratorDefinition {
                common: CommonBootstrapDataGeneratorDefinition {
                    time_mode: TimeMode::Recorded,
                },
                script_file_folder: "bootstrap".to_string(),
            },
        )),
        common: common("s"),
        source_change_generator: None,
    })
}

fn definition(test_folder: Option<&str>) -> TestDefinition {
    TestDefinition {
        test_id: "t".to_string(),
        version: 1,
        description: None,
        test_folder: test_folder.map(|f| f.to_string()),
        drasi_lib_instances: vec![],
        queries: vec![],
        reactions: vec![],
        sources: vec![script_source()],
        completion_handlers: vec![],
    }
}

#[test]
fn repositories_are_registered_whether_their_folders_exist_or_not() {
    let mut store = TestRepoStore::new("/data".to_string());
    assert!(!store.is_registered("r"));
    assert_eq!(plan_folder(false, true), FolderPlan { remove: false, create: false });
    store.add_test_repo("r");
    assert!(store.is_registered("r"));
    let repo = store
        .get_test_repo_storage("r", true, "/data/r".to_string())
        .unwrap();
    assert_eq!(repo.id, "r");
    assert_eq!(
        store
            .get_test_repo_storage("x", false, "/data/x".to_string())
            .unwrap_err(),
        "Test Repo with ID \"x\" not found"
    );
}

#[test]
fn what_is_replaced_is_removed_and_fetched() {
    assert_eq!(plan_folder(true, true), FolderPlan { remove: true, create: true });
    assert_eq!(plan_folder(true, false), FolderPlan { remove: false, create: true });
    assert_eq!(plan_folder(false, false), FolderPlan { remove: false, create: true });
    assert_eq!(
        plan_remote_test(true, true, false),
        RemoteTestPlan {
            remove_definition: true,
            remove_data: false,
            download: true
        }
    );
    assert_eq!(
        plan_remote_test(false, true, true),
        RemoteTestPlan {
            remove_definition: false,
            remove_data: false,
            download: false
        }
    );
}

#[test]
fn tests_lie_in_their_folder_or_under_their_name() {
    let repo = TestRepoStorage {
        id: "r".to_string(),
        path: "/data/r".to_string(),
    };
    assert_eq!(TestRepoStorage::definition_file_name("t"), "t.test.json");
    let storage = repo.get_test_storage("t", Some(definition(None))).unwrap();
    assert_eq!(storage.data_folder, "t");
    assert_eq!(storage.sources_folder, "sources");
    assert_eq!(storage.repo_id, "r");
    let storage = repo.get_test_storage("t", Some(definition(Some("f")))).unwrap();
    assert_eq!(storage.data_folder, "f");
    assert_eq!(
        repo.get_test_storage("t", None).unwrap_err(),
        "Test with ID \"t\" not found"
    );
    let (source, plan) = storage.get_test_source("s", true, true).unwrap();
    assert!(matches!(source, TestSourceDefinition::Script(_)));
    assert!(plan.remove && plan.create);
    assert_eq!(
        storage.get_test_source("x", true, true).unwrap_err(),
        "Test Source with ID \"x\" not found"
    );
}

fn data(folder: &str, name: &str) -> BootstrapScriptFile {
    BootstrapScriptFile {
        data_type_name: folder.to_string(),
        path: format!("{folder}/{name}").into_bytes(),
    }
}

fn change(folder: &str, name: &str) -> ChangeScriptFile {
    ChangeScriptFile {
        file_name: name.as_bytes().to_vec(),
        path: format!("{folder}/{name}").into_bytes(),
    }
}

#[test]
fn script_files_are_grouped_and_sorted() {
    let set = TestSourceStorage::get_script_files(
        vec![data("Room", "2"), data("Floor", "1"), data("Room", "1")],
        vec![change("c", "b10"), change("c", "b1"), change("d", "a"), change("e", "a")],
    );
    assert_eq!(set.bootstrap_data_script_files.len(), 2);
    assert_eq!(set.bootstrap_data_script_files[0].0, "Floor");
    assert_eq!(set.bootstrap_data_script_files[1].0, "Room");
    assert_eq!(
        set.bootstrap_data_script_files[1].1.paths,
        vec![b"Room/2".to_vec(), b"Room/1".to_vec()]
    );
    assert_eq!(
        set.source_change_script_files,
        vec![
            b"d/a".to_vec(),
            b"e/a".to_vec(),
            b"c/b1".to_vec(),
            b"c/b10".to_vec()
        ]
    );
}

#[test]
fn only_script_sources_have_script_folders() {
    let storage = |definition: TestSourceDefinition| TestSourceStorage {
        id: "s".to_string(),
        repo_id: "r".to_string(),
        test_id: "t".to_string(),
        test_source_definition: definition,
    };
    assert_eq!(
        storage(script_source()).script_folders(),
        (Some("bootstrap"), None)
    );
    let model = TestSourceDefinition::Model(ModelTestSourceDefinition {
        common: common("m"),
        model_data_generator: None,
    });
    assert_eq!(storage(model).script_folders(), (None, None));
}
