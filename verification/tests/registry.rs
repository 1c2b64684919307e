use std::cell::RefCell;
use std::rc::Rc;

use vm::Config;
use vm::ExitStatus;
use vm::Info;
use vm::ProcessError;
use vm::RunVagrant;
use vm::Stored;
use vm::Vm;

/// A runner that starts nothing: it notes what it was asked to run and
/// answers with the status it was made with.
struct Recorder {
    calls: Rc<RefCell<Vec<Vec<String>>>>,
    code: Option<i32>,
}

impl Recorder {
    fn new(code: Option<i32>) -> Recorder {
        Recorder { calls: Rc::new(RefCell::new(Vec::new())), code }
    }
}

impl RunVagrant for Recorder {
    fn subcommand(&self, command: &str, options: &Vec<String>) -> Result<ExitStatus, ProcessError> {
        let mut line = vec![format!("subcommand:{}", command)];
        line.extend(options.iter().cloned());
        self.calls.borrow_mut().push(line);
        Ok(ExitStatus::new(self.code))
    }

    fn raw(&self, options: &Vec<String>) -> Result<ExitStatus, ProcessError> {
        let mut line = vec![String::from("raw")];
        line.extend(options.iter().cloned());
        self.calls.borrow_mut().push(line);
        Ok(ExitStatus::new(self.code))
    }
}

/// A runner whose `vagrant` cannot be started.
struct Broken;

impl RunVagrant for Broken {
    fn subcommand(&self, _command: &str, _options: &Vec<String>) -> Result<ExitStatus, ProcessError> {
        Err(ProcessError::new("vagrant: not found"))
    }

    fn raw(&self, _options: &Vec<String>) -> Result<ExitStatus, ProcessError> {
        Err(ProcessError::new("vagrant: not found"))
    }
}

fn empty_vm() -> Vm<Recorder> {
    let config = Config::from_file(None, false).unwrap();
    Vm::new("/home/u/.config/vm/config.toml", config, Recorder::new(Some(0))).unwrap()
}

fn names(vm: &Vm<Recorder>) -> Vec<String> {
    vm.list().iter().map(|info| info.name().to_string()).collect()
}

#[test]
fn it_works() {
    assert_eq!(2 + 2, 4);
}

#[test]
fn a_new_registry_has_the_default_executable_and_no_entries() {
    let config = Config::from_file(None, false).unwrap();
    assert_eq!(config.vagrant_path(), "vagrant");
    assert!(config.vm_list().is_empty());
    let windows = Config::from_file(None, true).unwrap();
    assert_eq!(windows.vagrant_path(), "vagrant.exe");
    assert!(windows.vm_list().is_empty());
    assert_eq!(Config::new(false), config);
    assert_eq!(Config::new(true), windows);
}

#[test]
fn an_added_relative_path_is_stored_as_absolute() {
    let mut vm = empty_vm();
    assert_eq!(vm.add("db", "proj", "/home/u"), None);
    let info = vm.get_info("db").unwrap();
    assert_eq!(info.name(), "db");
    assert_eq!(info.path(), "/home/u/proj");
}

#[test]
fn an_added_absolute_path_is_stored_as_it_is() {
    let mut vm = empty_vm();
    assert_eq!(vm.add("web", "/srv/web", "/home/u"), None);
    assert_eq!(vm.get_info("web").unwrap().path(), "/srv/web");
}

#[test]
fn an_added_path_is_joined_to_a_base_that_ends_in_a_separator() {
    let mut vm = empty_vm();
    vm.add("a", "x/y", "/");
    vm.add("b", "x/y", "/base/");
    vm.add("c", "", "/base");
    assert_eq!(vm.get_info("a").unwrap().path(), "/x/y");
    assert_eq!(vm.get_info("b").unwrap().path(), "/base/x/y");
    assert_eq!(vm.get_info("c").unwrap().path(), "/base/");
}

#[test]
fn a_second_add_hands_back_the_first_entry() {
    let mut vm = empty_vm();
    assert_eq!(vm.add("web", "/srv/one", "/"), None);
    let before = vm.add("web", "/srv/two", "/");
    assert_eq!(before, Some(Info::new(String::from("web"), String::from("/srv/one"))));
    assert_eq!(vm.get_info("web").unwrap().path(), "/srv/two");
    assert_eq!(vm.list().len(), 1);
}

#[test]
fn removing_an_absent_name_changes_nothing() {
    let mut vm = empty_vm();
    vm.add("web", "/srv/web", "/");
    let before = vm.config().save_to_file();
    assert_eq!(vm.remove("db"), None);
    assert_eq!(vm.remove(""), None);
    assert_eq!(vm.config().save_to_file(), before);
    assert_eq!(names(&vm), vec!["web"]);
}

#[test]
fn removing_hands_back_the_entry_once() {
    let mut vm = empty_vm();
    vm.add("web", "/srv/web", "/");
    vm.add("db", "/srv/db", "/");
    assert_eq!(vm.remove("web"), Some(Info::new(String::from("web"), String::from("/srv/web"))));
    assert_eq!(vm.remove("web"), None);
    assert!(vm.get_info("web").is_none());
    assert_eq!(names(&vm), vec!["db"]);
}

#[test]
fn the_listing_is_in_order_of_name_whatever_the_order_of_adding() {
    let mut one = empty_vm();
    for name in ["web", "db", "cache", "Web", "a", "zz", "db2"] {
        one.add(name, name, "/srv");
    }
    let mut two = empty_vm();
    for name in ["zz", "a", "db2", "cache", "web", "Web", "db"] {
        two.add(name, name, "/srv");
    }
    let expected = vec!["Web", "a", "cache", "db", "db2", "web", "zz"];
    assert_eq!(names(&one), expected);
    assert_eq!(names(&two), expected);
    assert_eq!(one.config(), two.config());
    let paths: Vec<&str> = one.list().iter().map(|info| info.path()).collect();
    assert_eq!(paths, vec!["/srv/Web", "/srv/a", "/srv/cache", "/srv/db", "/srv/db2", "/srv/web", "/srv/zz"]);
}

#[test]
fn names_are_ordered_by_code_point() {
    let mut vm = empty_vm();
    for name in ["é", "z", "ab", "a", "B", "日本", "abc"] {
        vm.add(name, "/x", "/");
    }
    let mut sorted: Vec<String> = ["é", "z", "ab", "a", "B", "日本", "abc"].iter().map(|s| s.to_string()).collect();
    sorted.sort();
    assert_eq!(names(&vm), sorted);
    assert_eq!(vm.config().vm_list().len(), 7);
}

#[test]
fn what_is_written_loads_back_as_the_same_registry() {
    let mut vm = empty_vm();
    vm.add("web", "/srv/web", "/");
    vm.add("db", "proj", "/home/u");
    vm.add("cache", "/var/cache", "/");
    let stored = vm.config().save_to_file();
    assert_eq!(stored.vagrant_path, "vagrant");
    let keys: Vec<&str> = stored.vm_list.iter().map(|(key, _)| key.as_str()).collect();
    assert_eq!(keys, vec!["cache", "db", "web"]);
    let loaded = Config::from_file(Some(stored), false).unwrap();
    assert_eq!(&loaded, vm.config());
    assert_eq!(loaded.save_to_file(), vm.config().save_to_file());
}

#[test]
fn a_file_is_loaded_whatever_the_order_of_its_entries() {
    let stored = Stored {
        vagrant_path: String::from("/opt/vagrant/bin/vagrant"),
        vm_list: vec![
            (String::from("web"), Info::new(String::from("web"), String::from("/srv/web"))),
            (String::from("db"), Info::new(String::from("db"), String::from("/srv/db"))),
        ],
    };
    let config = Config::from_file(Some(stored), true).unwrap();
    assert_eq!(config.vagrant_path(), "/opt/vagrant/bin/vagrant");
    let listed: Vec<&str> = config.list().iter().map(|info| info.name()).collect();
    assert_eq!(listed, vec!["db", "web"]);
    assert_eq!(config.get("web").unwrap().path(), "/srv/web");
    assert!(config.get("cache").is_none());
}

fn stored_with(entries: Vec<(&str, &str, &str)>) -> Stored {
    Stored {
        vagrant_path: String::from("vagrant"),
        vm_list: entries
            .into_iter()
            .map(|(key, name, path)| (String::from(key), Info::new(String::from(name), String::from(path))))
            .collect(),
    }
}

#[test]
fn a_file_whose_key_is_not_the_entry_s_name_is_rejected() {
    let stored = stored_with(vec![("web", "web", "/srv/web"), ("db", "database", "/srv/db")]);
    let error = Config::from_file(Some(stored), false).unwrap_err();
    assert_eq!(error.message(), "invalid entry in vm_list: db");
}

#[test]
fn a_file_with_a_relative_path_is_rejected() {
    let stored = stored_with(vec![("web", "web", "srv/web")]);
    let error = Config::from_file(Some(stored), false).unwrap_err();
    assert_eq!(error.message(), "invalid entry in vm_list: web");
}

#[test]
fn a_file_with_an_empty_name_is_rejected() {
    let stored = stored_with(vec![("", "", "/srv/web")]);
    let error = Config::from_file(Some(stored), false).unwrap_err();
    assert_eq!(error.message(), "invalid entry in vm_list: ");
}

#[test]
fn a_file_with_a_name_twice_is_rejected_at_the_second() {
    let stored = stored_with(vec![("web", "web", "/srv/web"), ("db", "db", "/srv/db"), ("web", "web", "/srv/other")]);
    let error = Config::from_file(Some(stored), false).unwrap_err();
    assert_eq!(error.message(), "invalid entry in vm_list: web");
}

#[test]
fn the_first_entry_that_may_not_be_stored_is_reported() {
    let stored = stored_with(vec![("a", "a", "/a"), ("b", "b", "b"), ("c", "x", "/c")]);
    let error = Config::from_file(Some(stored), false).unwrap_err();
    assert_eq!(error.message(), "invalid entry in vm_list: b");
}

#[test]
fn cd_gives_the_directory_of_a_known_name() {
    let mut vm = empty_vm();
    vm.add("web", "site", "/srv");
    assert_eq!(vm.cd("web"), Ok("/srv/site"));
}

#[test]
fn cd_names_what_it_could_not_find() {
    let vm = empty_vm();
    let error = vm.cd("web").unwrap_err();
    assert_eq!(error.name(), "web");
    assert_eq!(error.message(), "cannot find web from vm list in config file");
    assert_eq!(error.clone(), error);
}

#[test]
fn a_vm_keeps_its_file_and_its_registry() {
    let mut config = Config::new(false);
    config.insert(Info::new(String::from("web"), String::from("/srv/web")));
    let vm = Vm::new("/etc/vm/config.toml", config, Recorder::new(None)).unwrap();
    assert_eq!(vm.config_file_path(), "/etc/vm/config.toml");
    assert_eq!(vm.config().vagrant_path(), "vagrant");
    assert_eq!(vm.config().vm_list().len(), 1);
    assert_eq!(vm.config().vm_list()[0].name(), "web");
}

#[test]
fn the_registry_replaces_and_removes_by_name() {
    let mut config = Config::new(false);
    assert_eq!(config.insert(Info::new(String::from("b"), String::from("/b"))), None);
    assert_eq!(config.insert(Info::new(String::from("a"), String::from("/a"))), None);
    assert_eq!(
        config.insert(Info::new(String::from("b"), String::from("/b2"))),
        Some(Info::new(String::from("b"), String::from("/b")))
    );
    assert_eq!(config.get("b").unwrap().path(), "/b2");
    assert_eq!(config.remove("a"), Some(Info::new(String::from("a"), String::from("/a"))));
    assert_eq!(config.remove("a"), None);
    assert_eq!(config.list().len(), 1);
    assert_eq!(config.get("a"), None);
}

#[test]
fn a_backup_is_a_sibling_of_the_file_with_the_stamp_at_its_end() {
    let vm = empty_vm();
    let copy = vm.backup_config_file("2024-03-05-070809");
    assert_eq!(copy.from, "/home/u/.config/vm/config.toml");
    assert_eq!(copy.to, "/home/u/.config/vm/config.toml.2024-03-05-070809");
}

#[test]
fn the_runner_gets_the_command_and_the_options_as_they_are() {
    let vm = empty_vm();
    let options = vec![String::from("--provision"), String::from("web 1")];
    let status = vm.vagrant("up", &options).unwrap();
    assert_eq!(status.code(), Some(0));
    let status = vm.vagrant_raw(&options).unwrap();
    assert!(status.success());
    let status = vm.vagrant_raw(&Vec::new()).unwrap();
    assert_eq!(status.exit_code(), 0);
}

#[test]
fn what_the_runner_was_asked_is_what_was_passed() {
    let config = Config::new(false);
    let recorder = Recorder::new(Some(3));
    let calls = recorder.calls.clone();
    let vm = Vm::new("/c", config, recorder).unwrap();
    let options = vec![String::from("-f"), String::from("x y")];
    assert_eq!(vm.vagrant("destroy", &options).unwrap().code(), Some(3));
    assert_eq!(vm.vagrant_raw(&options).unwrap().exit_code(), 3);
    assert_eq!(
        *calls.borrow(),
        vec![vec!["subcommand:destroy", "-f", "x y"], vec!["raw", "-f", "x y"]]
    );
    let vm = Vm::new("/c", Config::new(false), Broken).unwrap();
    assert_eq!(vm.vagrant("up", &options).unwrap_err().message(), "vagrant: not found");
    assert_eq!(vm.vagrant_raw(&options).unwrap_err().message(), "vagrant: not found");
}
