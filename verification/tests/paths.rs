//! Where everything is kept, and how a file is replaced.
use ktesio_engine::name::InstanceName;
use ktesio_engine::paths::{
    write_atomic_via, write_atomically, AtomicError, AtomicOutcome, AtomicStep, EnginePaths, PathError, StateDirEnv,
};
use std::collections::HashMap;
use std::path::{Path, PathBuf};

fn name(text: &str) -> InstanceName {
    InstanceName::new(text).unwrap()
}

#[test]
fn override_base_is_used_verbatim() {
    let tmp = PathBuf::from("/var/lib/ktesio");
    let paths = EnginePaths::new(Some(tmp.clone()), None, None).ok().unwrap();
    assert_eq!(paths.state_base(), &tmp);
    assert_eq!(paths.state_db(), tmp.join("state.db"));
    assert_eq!(paths.agents_dir(), tmp.join("agents"));
    assert_eq!(paths.secrets_file(), tmp.join("secrets.toml"));
}

#[test]
fn two_names_get_disjoint_homes() {
    let paths = EnginePaths::new(Some(PathBuf::from("/base")), None, None).ok().unwrap();
    let a = paths.agent_home(&name("alpha"));
    let b = paths.agent_home(&name("beta"));
    assert_ne!(a, b);
    assert!(a.ends_with("agents/alpha"));
    assert!(b.ends_with("agents/beta"));
    assert_eq!(paths.instance_config(&name("alpha")), a.join("config.toml"));
    assert_eq!(
        paths.effective_config_snapshot(&name("alpha")),
        a.join("effective-config.json")
    );
    assert_eq!(paths.agent_memory_dir(&name("alpha")), a.join("memory"));
}

fn environment(text: &str, absolute: bool) -> Option<StateDirEnv> {
    Some(StateDirEnv { path: PathBuf::from(text), text: text.to_string(), absolute })
}

#[test]
fn env_override_is_honored_when_no_explicit_base() {
    let paths = EnginePaths::new(None, environment("/state", true), Some(PathBuf::from("/home/x")))
        .ok()
        .unwrap();
    assert_eq!(paths.state_base(), Path::new("/state"));
}

#[test]
fn relative_env_base_is_rejected() {
    let err = EnginePaths::new(None, environment("relative/state/dir", false), None).err().unwrap();
    assert!(
        matches!(&err, PathError::RelativeStateDir { value } if value == "relative/state/dir"),
        "got {err:?}"
    );
    assert_eq!(
        err.message(),
        "KTESIO_STATE_DIR must be an absolute path, but was 'relative/state/dir'; set it to an absolute path"
    );
}

#[test]
fn explicit_relative_override_is_trusted() {
    let paths = EnginePaths::new(Some(PathBuf::from("relative/base")), None, None).ok().unwrap();
    assert_eq!(paths.state_base(), Path::new("relative/base"));
}

#[test]
fn an_empty_variable_names_no_base() {
    let paths = EnginePaths::new(None, environment("", false), Some(PathBuf::from("/platform")))
        .ok()
        .unwrap();
    assert_eq!(paths.state_base(), Path::new("/platform"));
}

#[test]
fn without_any_base_there_are_no_paths() {
    let err = EnginePaths::new(None, None, None).err().unwrap();
    assert_eq!(err, PathError::NoStateDir);
    assert_eq!(
        err.message(),
        "could not determine a state directory; set KTESIO_STATE_DIR to an explicit path"
    );
}

/// A directory that is held in memory: what each name in it holds, nothing for a directory.
#[derive(Default)]
struct Disk {
    entries: HashMap<String, Option<Vec<u8>>>,
}

/// A replacement under way.
struct Writer {
    temp: String,
    bytes: Vec<u8>,
    step: AtomicStep,
}

fn outcome(worked: bool) -> AtomicOutcome {
    if worked {
        AtomicOutcome::Worked
    } else {
        AtomicOutcome::Failed
    }
}

fn writer(thread: &str, write: u64, bytes: &[u8]) -> Writer {
    let (temp, step) =
        write_atomically("dir/config.toml", Some("config.toml"), 7, thread, write).unwrap();
    Writer { temp, bytes: bytes.to_vec(), step }
}

impl Disk {
    fn read(&self, name: &str) -> Option<&[u8]> {
        self.entries.get(name).and_then(|entry| entry.as_deref())
    }

    fn is_dir(&self, name: &str) -> bool {
        self.entries.get(name) == Some(&None)
    }

    fn temp_residue(&self) -> Vec<&str> {
        self.entries.keys().map(String::as_str).filter(|name| name.contains(".tmp-")).collect()
    }

    /// Carry out the step of a replacement, as far as the directory lets it.
    fn advance(&mut self, writer: &mut Writer) {
        let worked = match writer.step {
            AtomicStep::Create => {
                let free = !self.is_dir(&writer.temp);
                if free {
                    self.entries.insert(writer.temp.clone(), Some(Vec::new()));
                }
                free
            }
            AtomicStep::Write => {
                self.entries.insert(writer.temp.clone(), Some(writer.bytes.clone()));
                true
            }
            AtomicStep::Rename => {
                let free = !self.is_dir("config.toml");
                if free {
                    let bytes = self.entries.remove(&writer.temp).unwrap();
                    self.entries.insert("config.toml".to_string(), bytes);
                }
                free
            }
            AtomicStep::RemoveTemp => {
                let removable = !self.is_dir(&writer.temp);
                if removable {
                    self.entries.remove(&writer.temp);
                }
                removable
            }
            _ => true,
        };
        writer.step = write_atomic_via(writer.step, outcome(worked));
    }

    /// Carry out a whole replacement; whether it was written.
    fn write(&mut self, mut writer: Writer) -> bool {
        while writer.step != AtomicStep::Written && writer.step != AtomicStep::Failed {
            self.advance(&mut writer);
        }
        writer.step == AtomicStep::Written
    }
}

#[test]
fn write_atomically_lands_the_bytes_and_leaves_no_temp_residue() {
    let mut disk = Disk::default();
    assert!(disk.write(writer("ThreadId(1)", 1, b"first bytes")));
    assert_eq!(disk.read("config.toml").unwrap(), b"first bytes");
    assert!(disk.temp_residue().is_empty(), "no residue on create");

    assert!(disk.write(writer("ThreadId(1)", 2, b"second bytes")));
    assert_eq!(disk.read("config.toml").unwrap(), b"second bytes");
    assert!(disk.temp_residue().is_empty(), "no residue on overwrite");
}

#[test]
fn write_atomically_rename_failure_leaves_the_target_and_no_temp() {
    let mut disk = Disk::default();
    disk.entries.insert("config.toml".to_string(), None);
    assert!(!disk.write(writer("ThreadId(1)", 1, b"new bytes")));
    assert!(disk.is_dir("config.toml"), "the target is unchanged");
    assert!(disk.temp_residue().is_empty(), "a failed rename must leave NO temp residue");
}

#[test]
fn write_atomically_temp_write_failure_leaves_the_target_untouched() {
    let mut disk = Disk::default();
    disk.entries.insert("config.toml.tmp-pinned".to_string(), None);
    let pinned = Writer {
        temp: "config.toml.tmp-pinned".to_string(),
        bytes: b"new bytes".to_vec(),
        step: AtomicStep::Create,
    };
    assert!(!disk.write(pinned));
    assert!(disk.read("config.toml").is_none(), "a failed temp write never touches the target");
    assert_eq!(disk.temp_residue(), vec!["config.toml.tmp-pinned"]);
}

#[test]
fn write_atomically_concurrent_same_target_writes_are_collision_safe() {
    let mut disk = Disk::default();
    for round in 0..50 {
        let mut a = writer("ThreadId(1)", 2 * round, b"aaa-threads");
        let mut b = writer("ThreadId(2)", 2 * round + 1, b"bbb-threads");
        while a.step != AtomicStep::Written || b.step != AtomicStep::Written {
            disk.advance(&mut a);
            disk.advance(&mut b);
            assert!(a.step != AtomicStep::Failed && b.step != AtomicStep::Failed);
        }
        let final_bytes = disk.read("config.toml").unwrap();
        assert!(
            final_bytes == b"aaa-threads" || final_bytes == b"bbb-threads",
            "the published bytes must be exactly one writer's value: {final_bytes:?}"
        );
    }
    assert!(disk.temp_residue().is_empty(), "100 concurrent writes must leave no temp residue");
}

#[test]
fn a_step_that_fails_ends_the_write_before_the_target_is_touched() {
    for fails in
        [AtomicStep::Create, AtomicStep::Write, AtomicStep::Sync, AtomicStep::PreserveMode]
    {
        let mut steps = vec![AtomicStep::Create];
        while !matches!(steps.last(), Some(AtomicStep::Written | AtomicStep::Failed)) {
            let step = steps[steps.len() - 1];
            steps.push(write_atomic_via(step, outcome(step != fails)));
        }
        assert_eq!(steps.last(), Some(&AtomicStep::Failed), "{fails:?}");
        assert!(steps.contains(&AtomicStep::RemoveTemp), "{fails:?}");
        assert!(!steps.contains(&AtomicStep::Rename), "{fails:?}");
    }
}

#[test]
fn temporary_names_do_not_collide() {
    let temp = |process: u32, thread: &str, write: u64| {
        write_atomically("d/config.toml", Some("config.toml"), process, thread, write).unwrap().0
    };
    assert_ne!(temp(1, "ThreadId(1)", 1), temp(1, "ThreadId(1)", 2));
    assert_ne!(temp(1, "ThreadId(1)", 1), temp(1, "ThreadId(2)", 1));
    assert_ne!(temp(1, "ThreadId(1)", 1), temp(2, "ThreadId(1)", 1));
    assert!(temp(1, "ThreadId(1)", 1).starts_with("config.toml.tmp-"));
}

#[test]
fn a_target_without_a_file_name_is_refused() {
    let err = write_atomically("..", None, 1, "ThreadId(1)", 1).unwrap_err();
    assert_eq!(err, AtomicError::NoFileName { target: "..".to_string() });
    assert_eq!(err.message(), "cannot write atomically: .. names no file");
}

#[test]
fn a_rename_is_tried_once_more_where_the_target_is_held_open() {
    let again = write_atomic_via(AtomicStep::Rename, AtomicOutcome::HeldOpen);
    assert_eq!(again, AtomicStep::RenameAgain);
    assert_eq!(write_atomic_via(again, AtomicOutcome::Worked), AtomicStep::Written);
    assert_eq!(write_atomic_via(again, AtomicOutcome::HeldOpen), AtomicStep::RemoveTemp);
    assert_eq!(write_atomic_via(again, AtomicOutcome::Failed), AtomicStep::RemoveTemp);
    assert_eq!(
        write_atomic_via(AtomicStep::Rename, AtomicOutcome::Failed),
        AtomicStep::RemoveTemp
    );
    assert_eq!(
        write_atomic_via(AtomicStep::Create, AtomicOutcome::HeldOpen),
        AtomicStep::RemoveTemp
    );
}

#[test]
fn names_are_single_plain_components() {
    assert!(InstanceName::new("").is_err());
    assert!(InstanceName::new("..").is_err());
    assert!(InstanceName::new("a/b").is_err());
    assert!(InstanceName::new("Bad Name").is_err());
    assert_eq!(name("agent-7_x").as_str(), "agent-7_x");
}
