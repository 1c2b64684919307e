use vm::Args;
use vm::ArgsError;
use vm::Matches;
use vm::SubCommand;

fn nothing() -> Matches {
    Matches {
        subcommand: None,
        add_name: None,
        add_path: None,
        remove_name: None,
        remove_force: false,
        find_vagrantfiles_base_path: None,
        vm_name: None,
        vagrant_options: None,
    }
}

fn named(subcommand: &str) -> Matches {
    Matches { subcommand: Some(String::from(subcommand)), ..nothing() }
}

fn some(text: &str) -> Option<String> {
    Some(String::from(text))
}

#[test]
fn list_is_a_request_to_list() {
    assert_eq!(Args::new(named("list")), Ok(Args { subcommand: SubCommand::List }));
}

#[test]
fn add_needs_a_name_and_a_path() {
    let full = Matches { add_name: some("db"), add_path: some("proj"), ..named("add") };
    assert_eq!(
        Args::new(full).unwrap().subcommand,
        SubCommand::Add { name: String::from("db"), path: String::from("proj") }
    );
    assert_eq!(Args::new(named("add")), Err(ArgsError::NoVmName));
    let no_name = Matches { add_path: some("proj"), ..named("add") };
    assert_eq!(Args::new(no_name), Err(ArgsError::NoVmName));
    let no_path = Matches { add_name: some("db"), ..named("add") };
    assert_eq!(Args::new(no_path), Err(ArgsError::NoVmPath));
}

#[test]
fn remove_needs_a_name_and_may_be_forced() {
    let asked = Matches { remove_name: some("web"), ..named("remove") };
    assert_eq!(
        Args::new(asked).unwrap().subcommand,
        SubCommand::Remove { name: String::from("web"), force: false }
    );
    let forced = Matches { remove_name: some("web"), remove_force: true, ..named("remove") };
    assert_eq!(
        Args::new(forced).unwrap().subcommand,
        SubCommand::Remove { name: String::from("web"), force: true }
    );
    assert_eq!(Args::new(named("remove")), Err(ArgsError::NoVmName));
}

#[test]
fn backup_needs_nothing() {
    assert_eq!(Args::new(named("backup_config_file")).unwrap().subcommand, SubCommand::BackupConfigFile);
}

#[test]
fn find_needs_a_base_path() {
    let full = Matches { find_vagrantfiles_base_path: some("/home/u"), ..named("find_vagrantfiles") };
    assert_eq!(
        Args::new(full).unwrap().subcommand,
        SubCommand::FindVagrantfiles { base_path: String::from("/home/u") }
    );
    assert_eq!(Args::new(named("find_vagrantfiles")), Err(ArgsError::NoFindVagrantfilesBasePath));
}

#[test]
fn without_a_subcommand_the_options_are_forwarded_word_by_word() {
    let raw = Matches { vm_name: some("web"), vagrant_options: some("vbguest --do  rebuild"), ..nothing() };
    assert_eq!(
        Args::new(raw).unwrap().subcommand,
        SubCommand::Raw {
            vm_name: String::from("web"),
            options: vec![String::from("vbguest"), String::from("--do"), String::from("rebuild")],
        }
    );
    let bare = Matches { vm_name: some("web"), ..nothing() };
    assert_eq!(
        Args::new(bare).unwrap().subcommand,
        SubCommand::Raw { vm_name: String::from("web"), options: vec![] }
    );
    let other = Matches { vm_name: some("web"), vagrant_options: some(" up "), ..named("status") };
    assert_eq!(
        Args::new(other).unwrap().subcommand,
        SubCommand::Raw { vm_name: String::from("web"), options: vec![String::from("up")] }
    );
    assert_eq!(Args::new(nothing()), Err(ArgsError::NoVmName));
    let no_name = Matches { vagrant_options: some("up"), ..nothing() };
    assert_eq!(Args::new(no_name), Err(ArgsError::NoVmName));
}

#[test]
fn values_of_other_subcommands_are_not_read() {
    let mixed = Matches { add_name: some("db"), add_path: some("p"), remove_name: some("x"), ..named("list") };
    assert_eq!(Args::new(mixed).unwrap().subcommand, SubCommand::List);
    let mixed = Matches { add_name: some("db"), add_path: some("p"), ..named("remove") };
    assert_eq!(Args::new(mixed), Err(ArgsError::NoVmName));
}

#[test]
fn each_error_has_its_words() {
    assert_eq!(ArgsError::NoVmName.message(), "Not specified a VM name");
    assert_eq!(ArgsError::NoVmPath.message(), "Not specified a VM directory path");
    assert_eq!(ArgsError::NoFindVagrantfilesBasePath.message(), "Not specified a find path");
}
