# e2e_test_framework

The logic of an end-to-end test framework for continuous queries, with its behaviour stated in
contracts and proved with Verus.

- `src/` is the verified library.
  - `reactions/output_loggers` hashes what reactions put out, either in the order in which it came
    or as the rows that remain, and measures throughput.
  - `test_run_completion` waits for a run to complete, and compares hashes and final states with
    stored ones.
  - `sources/model_data_generators` decides what a generator of model data does next.
  - `sources/source_change_dispatchers` and `grpc_converters` give changes the form in which they
    are sent.
  - `reactions/reaction_handlers` turns requests into invocations of reactions.
  - `test_repo_storage` holds the definitions of tests and decides where their data are kept.
  - `test_run_host` keeps the test runs of a host and the order in which they start and stop.
- `app/` is the I/O around the library: files, HTTP, gRPC, channels and clocks.
- `tests/` runs the library on concrete values.
