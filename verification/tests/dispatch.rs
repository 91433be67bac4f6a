use oxidoc::cli::{Command, DeleteArgs, GetArgs, InsertArgs};
use oxidoc::dispatch::{CommandExecutor, CommandExecutorFactory, DummyCommandExecutor};

#[test]
fn dummy_is_the_one_known_executor() {
    assert!(CommandExecutorFactory::get_executor(String::from("dummy")).is_some());
    for unknown in ["", "Dummy", "dummy ", "real", "dumm"] {
        assert!(CommandExecutorFactory::get_executor(String::from(unknown)).is_none());
    }
}

#[test]
fn dummy_executor_reports_what_it_was_asked() {
    let executor = CommandExecutorFactory::get_executor(String::from("dummy")).unwrap();
    assert_eq!(executor.execute(Command::Start), "Executor started.");
    assert_eq!(executor.execute(Command::Stop), "Executor stopped.");
    assert_eq!(executor.execute(Command::Status), "Executor status: Running.");
    assert_eq!(
        executor.execute(Command::Insert(InsertArgs {
            collection: "c".to_string(),
            key: "k".to_string(),
            value: "v".to_string(),
        })),
        "Inserted key 'k' with value 'v' into collection 'c'."
    );
    assert_eq!(
        executor.execute(Command::Get(GetArgs { collection: "c".to_string(), key: "k".to_string() })),
        "Retrieved value for key 'k' from collection 'c'."
    );
    assert_eq!(
        DummyCommandExecutor.execute(Command::Delete(DeleteArgs {
            collection: "c".to_string(),
            key: "k".to_string(),
        })),
        "Deleted key 'k' from collection 'c'."
    );
}

#[test]
fn dummy_executor_repeats_strings_as_they_are() {
    assert_eq!(
        DummyCommandExecutor.execute(Command::Insert(InsertArgs {
            collection: String::new(),
            key: "a'b".to_string(),
            value: "ü \"q\"".to_string(),
        })),
        "Inserted key 'a'b' with value 'ü \"q\"' into collection ''."
    );
}
