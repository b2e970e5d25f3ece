//! How the files of a source are put together, and what its settings stand for.

use crate::ordered::{in_order, lemma_stable_sorted, stable_sorted};
use crate::ordered_laws::{lemma_sorting_is_stable, with_key};
use crate::test_repo_storage::models::{
    signed_bits, source_id_of, spacing_mode_of, time_mode_of, unsigned_bits,
    BootstrapDataGeneratorDefinition, SourceChangeGeneratorDefinition, SpacingMode, TestDefinition,
    TestSourceDefinition, TimeMode,
};
use crate::test_repo_storage::storage::{
    bootstrap_folder, change_folder, data_folder_of, definition_file, files_by_type, named_paths,
    paths_of, BootstrapScriptFile, ChangeScriptFile,
};
use crate::text::decimal;
use crate::text_laws::lemma_printed_numbers_are_read_back;
use vstd::prelude::*;

verus! {

/// The paths that a grouping has for a type.
pub open spec fn paths_for(map: Map<Seq<char>, Seq<Seq<u8>>>, name: Seq<char>) -> Seq<Seq<u8>> {
    if map.contains_key(name) {
        map[name]
    } else {
        Seq::empty()
    }
}

/// Each file is filed under its own type, behind the files of that type that come before it:
/// those of two lists put together are those of the first, followed by those of the second.
pub proof fn lemma_files_keep_their_order(
    a: Seq<BootstrapScriptFile>,
    b: Seq<BootstrapScriptFile>,
    file: BootstrapScriptFile,
    name: Seq<char>,
)
    ensures
        paths_for(files_by_type(a + b), name) == paths_for(files_by_type(a), name) + paths_for(
            files_by_type(b),
            name,
        ),
        files_by_type(a + b).contains_key(name) <==> files_by_type(a).contains_key(name)
            || files_by_type(b).contains_key(name),
        paths_for(files_by_type(seq![file]), name) == if name == file.data_type_name@ {
            seq![file.path@]
        } else {
            Seq::empty()
        },
    decreases b.len(),
{
    reveal_with_fuel(files_by_type, 2);
    assert(seq![file].drop_last() =~= Seq::<BootstrapScriptFile>::empty());
    assert(paths_for(files_by_type(seq![file]), name) =~= if name == file.data_type_name@ {
        seq![file.path@]
    } else {
        Seq::empty()
    });
    let first = paths_for(files_by_type(a), name);
    if b.len() == 0 {
        assert(a + b =~= a);
        assert(first + paths_for(files_by_type(b), name) =~= first);
    } else {
        lemma_files_keep_their_order(a, b.drop_last(), file, name);
        assert((a + b).drop_last() =~= a + b.drop_last());
        assert((a + b).last() == b.last());
        assert(paths_for(files_by_type(a + b), name) =~= first + paths_for(files_by_type(b), name));
    }
}

/// The files with changes are played in the order of their names: none is lost, none comes
/// before one with a smaller name, and files of one name keep their order.
pub proof fn lemma_change_files_are_played_by_name(
    files: Seq<ChangeScriptFile>,
    name: Seq<u8>,
)
    ensures
        ({
            let entries = named_paths(files);
            let sorted = stable_sorted::<Vec<u8>, Seq<u8>>(entries);
            &&& entries.len() == files.len()
            &&& forall|i: int|
                0 <= i < files.len() ==> #[trigger] entries[i] == (
                    files[i].file_name@,
                    files[i].path@,
                )
            &&& in_order::<Vec<u8>, Seq<u8>>(sorted)
            &&& sorted.to_multiset() == entries.to_multiset()
            &&& with_key(sorted, name) == with_key(entries, name)
            &&& paths_of(sorted).len() == sorted.len()
            &&& forall|i: int|
                0 <= i < sorted.len() ==> #[trigger] paths_of(sorted)[i] == sorted[i].1
        }),
{
    let entries = named_paths(files);
    lemma_stable_sorted::<Vec<u8>, Seq<u8>>(entries);
    lemma_sorting_is_stable::<Vec<u8>, Seq<u8>>(entries, name);
}

/// The data of a test are in the folder that its definition names, or else in one of the test's
/// own name; the definition itself is in a file of the test's name.
pub proof fn lemma_where_tests_are_kept(definition: TestDefinition, test_id: Seq<char>)
    ensures
        definition.test_folder matches Some(folder) ==> data_folder_of(definition, test_id)
            == folder@,
        definition.test_folder is None ==> data_folder_of(definition, test_id) == test_id,
        definition_file(test_id).take(test_id.len() as int) == test_id,
        definition_file(test_id).skip(test_id.len() as int) == ".test.json"@,
{
    assert(definition_file(test_id).take(test_id.len() as int) =~= test_id);
    assert(definition_file(test_id).skip(test_id.len() as int) =~= ".test.json"@);
}

/// A source that is scripted has its initial data and its changes in the folders of their own
/// generators; one that comes from a model has neither.
pub proof fn lemma_where_scripts_are_kept(source: TestSourceDefinition)
    ensures
        match source {
            TestSourceDefinition::Script(def) => {
                &&& match def.bootstrap_data_generator {
                    Some(BootstrapDataGeneratorDefinition::Script(generator)) => bootstrap_folder(
                        source,
                    ) == Some(generator.script_file_folder@),
                    None => bootstrap_folder(source) is None,
                }
                &&& match def.source_change_generator {
                    Some(SourceChangeGeneratorDefinition::Script(generator)) => change_folder(
                        source,
                    ) == Some(generator.script_file_folder@),
                    None => change_folder(source) is None,
                }
            },
            TestSourceDefinition::Model(_) => bootstrap_folder(source) is None && change_folder(
                source,
            ) is None,
        },
{
}

/// The bits of a number are those of one number only: read as signed and as unsigned they
/// differ by nothing or by the full range.
pub proof fn lemma_bits_are_kept(n: i64, m: u64)
    ensures
        signed_bits(unsigned_bits(n)) == n,
        unsigned_bits(signed_bits(m)) == m,
        n >= 0 ==> unsigned_bits(n) == n,
        n < 0 ==> unsigned_bits(n) == n + 0x1_0000_0000_0000_0000,
{
}

/// A rate that is printed is read back; zero is no rate, and what is neither a name nor a
/// number is no spacing.
pub proof fn lemma_rates_are_read(text: Seq<char>, lower: Seq<char>, rate: u32)
    ensures
        lower == "none"@ ==> spacing_mode_of(text, lower) == Ok::<SpacingMode, Seq<char>>(
            SpacingMode::Unspaced,
        ),
        lower == "recorded"@ ==> spacing_mode_of(text, lower) == Ok::<SpacingMode, Seq<char>>(
            SpacingMode::Recorded,
        ),
        lower != "none"@ && lower != "recorded"@ ==> {
            &&& text == decimal(rate as nat) && rate > 0 ==> spacing_mode_of(text, lower) == Ok::<
                SpacingMode,
                Seq<char>,
            >(SpacingMode::Rate(rate))
            &&& text == decimal(0) ==> spacing_mode_of(text, lower) is Err
            &&& spacing_mode_of(text, lower) matches Ok(mode) ==> (mode matches SpacingMode::Rate(r)
                && r > 0)
        },
{
    reveal_strlit("none");
    reveal_strlit("recorded");
    assert("none"@.len() != "recorded"@.len());
    lemma_printed_numbers_are_read_back(rate as nat, u32::MAX as nat);
    lemma_printed_numbers_are_read_back(0, u32::MAX as nat);
}

/// A time that is read is the one from which the events are given; live and recorded times are
/// told by their names.
pub proof fn lemma_times_are_read(
    text: Seq<char>,
    lower: Seq<char>,
    time: Result<Option<i64>, Seq<char>>,
)
    ensures
        lower == "live"@ ==> time_mode_of(text, lower, time) == Ok::<TimeMode, Seq<char>>(
            TimeMode::Live,
        ),
        lower == "recorded"@ ==> time_mode_of(text, lower, time) == Ok::<TimeMode, Seq<char>>(
            TimeMode::Recorded,
        ),
        lower != "live"@ && lower != "recorded"@ ==> {
            &&& time matches Ok(Some(nanos)) ==> (time_mode_of(text, lower, time) matches Ok(
                TimeMode::Rebased(base),
            ) && signed_bits(base) == nanos)
            &&& time is Err ==> time_mode_of(text, lower, time) is Err
        },
{
    reveal_strlit("live");
    reveal_strlit("recorded");
    assert("live"@.len() != "recorded"@.len());
}

/// A source is told by the name in its definition, whatever it comes from.
pub proof fn lemma_sources_are_told_by_name(source: TestSourceDefinition)
    ensures
        match source {
            TestSourceDefinition::Model(def) => source_id_of(source) == def.common.test_source_id@,
            TestSourceDefinition::Script(def) => source_id_of(source) == def.common.test_source_id@,
        },
{
}

} // verus!
