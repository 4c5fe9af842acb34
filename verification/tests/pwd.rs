use sysutils::pwd::{run, Cli, PathForm};

#[test]
fn logical_unless_only_physical_was_asked_for() {
    assert_eq!(run(&Cli::new(false, false)), PathForm::Logical);
    assert_eq!(run(&Cli::new(true, false)), PathForm::Logical);
    assert_eq!(run(&Cli::new(true, true)), PathForm::Logical);
    assert_eq!(run(&Cli::new(false, true)), PathForm::Physical);
}
