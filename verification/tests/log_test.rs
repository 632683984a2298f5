//! The log on a file system in memory.

use std::collections::HashMap;
use std::path::{Path, PathBuf};

use explorer_tab_merger::log as etm_log;
use explorer_tab_merger::log::{LogCall, LogReply, LogStage, WriteTo};

#[derive(Default)]
struct Disk {
    files: HashMap<PathBuf, String>,
    dirs: Vec<PathBuf>,
    time: Option<u64>,
    /// This call fails.
    refuse: Option<&'static str>,
    calls: Vec<&'static str>,
}

impl Disk {
    fn serve(&mut self, path: &Path, call: LogCall) -> LogReply<&'static str> {
        let old = path.with_extension(etm_log::ROTATED_EXTENSION);
        let name = match &call {
            LogCall::CreateDirs => "dirs",
            LogCall::FileSize => "size",
            LogCall::RemoveRotated => "remove",
            LogCall::Rotate => "rotate",
            LogCall::Open => "open",
            LogCall::ReadClock => "clock",
            LogCall::Append(_) => "append",
        };
        self.calls.push(name);
        if self.refuse == Some(name) {
            return LogReply::Failed(name);
        }
        match call {
            LogCall::CreateDirs => {
                self.dirs.push(path.parent().unwrap().to_path_buf());
                LogReply::Done
            }
            LogCall::FileSize => LogReply::Size(self.files.get(path).map(|s| s.len() as u64)),
            LogCall::RemoveRotated => match self.files.remove(&old) {
                Some(_) => LogReply::Done,
                None => LogReply::Failed("missing"),
            },
            LogCall::Rotate => {
                let contents = self.files.remove(path).unwrap();
                self.files.insert(old, contents);
                LogReply::Done
            }
            LogCall::Open => {
                self.files.entry(path.to_path_buf()).or_default();
                LogReply::Done
            }
            LogCall::ReadClock => LogReply::Time(self.time),
            LogCall::Append(line) => {
                self.files.get_mut(path).unwrap().push_str(&line);
                LogReply::Done
            }
        }
    }

    fn drive(&mut self, path: &Path, task: WriteTo<&'static str>) -> Result<(), &'static str> {
        let mut task = task;
        while let Some(call) = task.call() {
            let reply = self.serve(path, call);
            task = task.on_reply(reply);
        }
        match task.stage {
            LogStage::Finished(r) => r,
            _ => unreachable!(),
        }
    }

    fn write_to(&mut self, path: &Path, msg: &str) -> Result<(), &'static str> {
        self.drive(path, etm_log::write_to(path.parent().is_some(), msg))
    }

    fn read(&self, path: &Path) -> String {
        self.files.get(path).unwrap().clone()
    }
}

fn scratch_dir(label: &str) -> PathBuf {
    PathBuf::from(format!("etm-log-test-{}", label))
}

#[test]
fn writes_and_rotates_at_64kb() {
    let mut disk = Disk::default();
    let dir = scratch_dir("rot1");
    let path = dir.join("error.log");

    // The size is looked at before each line, so the big line itself does not rotate; the
    // next one does.
    disk.write_to(&path, "hello").unwrap();
    let big = "x".repeat(80_000);
    disk.write_to(&path, &big).unwrap();

    let old = dir.join("error.log.old");
    assert!(!disk.files.contains_key(&old), "no rotation before the trigger write");

    disk.write_to(&path, "after-rotate").unwrap();

    assert!(disk.files.contains_key(&old), "rotated file should now exist");
    let new = disk.read(&path);
    assert!(new.contains("after-rotate"));
    assert!(!new.contains("hello"), "post-rotation, original content lives only in .old");
    let old_contents = disk.read(&old);
    assert!(old_contents.contains("hello"));
}

#[test]
fn second_rotation_overwrites_old() {
    let mut disk = Disk::default();
    let dir = scratch_dir("rot2");
    let path = dir.join("error.log");

    let big = "y".repeat(80_000);
    disk.write_to(&path, &big).unwrap();
    let big2 = "z".repeat(80_000);
    disk.write_to(&path, &big2).unwrap();

    let old = disk.read(&dir.join("error.log.old"));
    assert!(old.contains("yyyy"), "second rotation should put y-batch into .old");

    // One more line puts the z-batch in its place.
    disk.write_to(&path, "end").unwrap();
    let old = disk.read(&dir.join("error.log.old"));
    assert!(old.contains("zzzz") && !old.contains("yyyy"));
}

#[test]
fn default_log_path_is_under_appdata_or_temp() {
    let local = PathBuf::from(r"C:\Users\me\AppData\Local");
    let temp = PathBuf::from(r"C:\Temp");
    for (set, base) in [(Some(local.clone()), local), (None, temp.clone())] {
        let place = etm_log::default_log_path(set, temp.clone());
        assert_eq!(place.base, base);
        let p = place.base.join(place.folder).join(place.file);
        let s = p.to_string_lossy();
        assert!(s.ends_with("error.log"));
        assert!(s.contains("ExplorerTabMerger"));
    }
}

#[test]
fn line_has_the_time_and_ends_the_line() {
    assert_eq!(etm_log::format_line(1_700_000_000, "boom"), "[ts=1700000000] boom\n");
    assert_eq!(etm_log::format_line(0, ""), "[ts=0] \n");
    assert_eq!(etm_log::format_line(u64::MAX, "é"), "[ts=18446744073709551615] é\n");
    let mut disk = Disk { time: Some(42), ..Disk::default() };
    let path = PathBuf::from("d/error.log");
    disk.write_to(&path, "one").unwrap();
    disk.time = None;
    disk.write_to(&path, "two").unwrap();
    assert_eq!(disk.read(&path), "[ts=42] one\n[ts=0] two\n");
    assert_eq!(disk.dirs.len(), 2);
}

#[test]
fn rotation_starts_at_the_limit_itself() {
    assert!(!etm_log::rotate_if_needed(None));
    assert!(!etm_log::rotate_if_needed(Some(0)));
    assert!(!etm_log::rotate_if_needed(Some(65_535)));
    assert!(etm_log::rotate_if_needed(Some(65_536)));
    assert!(etm_log::rotate_if_needed(Some(u64::MAX)));
    assert_eq!(etm_log::epoch_timestamp(Some(7)), 7);
    assert_eq!(etm_log::epoch_timestamp(None), 0);
}

#[test]
fn a_path_without_a_folder_creates_none() {
    let mut disk = Disk::default();
    let task: WriteTo<&'static str> = etm_log::write_to(false, "m");
    disk.drive(Path::new("error.log"), task).unwrap();
    assert_eq!(disk.calls, vec!["size", "open", "clock", "append"]);
}

#[test]
fn failures_are_reported_but_for_the_removal() {
    for name in ["dirs", "rotate", "open", "append"] {
        let mut disk = Disk::default();
        let path = PathBuf::from("d/error.log");
        disk.write_to(&path, &"x".repeat(70_000)).unwrap();
        disk.refuse = Some(name);
        assert_eq!(disk.write_to(&path, "next"), Err(name));
    }
    let mut disk = Disk::default();
    let path = PathBuf::from("d/error.log");
    disk.write_to(&path, &"x".repeat(70_000)).unwrap();
    disk.refuse = Some("remove");
    assert_eq!(disk.write_to(&path, "next"), Ok(()));
    assert_eq!(disk.read(&path), "[ts=0] next\n");
}

#[test]
fn best_effort_swallows_every_failure() {
    for name in ["dirs", "size", "remove", "rotate", "open", "clock", "append"] {
        let mut disk = Disk::default();
        let path = PathBuf::from("d/error.log");
        disk.write_to(&path, &"x".repeat(70_000)).unwrap();
        if name == "size" || name == "clock" {
            continue;
        }
        disk.refuse = Some(name);
        let task: WriteTo<&'static str> = etm_log::write("next");
        assert_eq!(disk.drive(&path, task), Ok(()));
    }
}

#[test]
fn disk_use_stays_below_twice_the_limit_and_a_line() {
    let mut disk = Disk::default();
    let path = PathBuf::from("d/error.log");
    let old = PathBuf::from("d/error.log.old");
    let line = "m".repeat(1_000);
    for _ in 0..400 {
        disk.write_to(&path, &line).unwrap();
        let used = disk.read(&path).len() + disk.files.get(&old).map_or(0, |s| s.len());
        assert!(used < 2 * (65_536 + 1_009));
    }
    assert!(disk.files.contains_key(&old));
}
