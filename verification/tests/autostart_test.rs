//! Registration against a registry in memory.

use std::collections::{HashMap, HashSet};
use std::path::PathBuf;

use explorer_tab_merger::autostart;
use explorer_tab_merger::autostart::{
    DeleteStage, EnsureStage, ReadStage, RegistryCall, RegistryReply, WriteStage,
};

const TEST_SUBKEY: &str = r"Software\ExplorerTabMerger\test_run";

#[derive(Default)]
struct Registry {
    keys: HashSet<String>,
    values: HashMap<(String, String), Vec<u8>>,
    open: i32,
    opened: u32,
    writes: u32,
    /// The call with this number is answered with this status.
    refuse: Option<(u32, u32)>,
    calls: u32,
}

impl Registry {
    fn serve(&mut self, subkey: &str, name: &str, call: RegistryCall) -> RegistryReply {
        let mut reply = RegistryReply { status: 0, len: 0, data: Vec::new() };
        let number = self.calls;
        self.calls += 1;
        if let Some((at, status)) = self.refuse {
            if at == number && !matches!(call, RegistryCall::Close) {
                reply.status = status;
                return reply;
            }
        }
        let key = (subkey.to_string(), name.to_string());
        match call {
            RegistryCall::OpenRead | RegistryCall::OpenWrite => {
                if self.keys.contains(subkey) {
                    self.open += 1;
                    self.opened += 1;
                } else {
                    reply.status = 2;
                }
            }
            RegistryCall::Create => {
                self.keys.insert(subkey.to_string());
                self.open += 1;
                self.opened += 1;
            }
            RegistryCall::QuerySize => match self.values.get(&key) {
                Some(bytes) => reply.len = bytes.len() as u32,
                None => reply.status = 2,
            },
            RegistryCall::QueryData(n) => match self.values.get(&key) {
                Some(bytes) if bytes.len() <= n as usize => {
                    reply.data = bytes.clone();
                    reply.data.resize(n as usize, 0);
                }
                Some(_) => reply.status = 234,
                None => reply.status = 2,
            },
            RegistryCall::SetString(bytes) => {
                self.writes += 1;
                self.values.insert(key, bytes);
            }
            RegistryCall::Delete => {
                if self.values.remove(&key).is_none() {
                    reply.status = 2;
                }
            }
            RegistryCall::Close => self.open -= 1,
        }
        reply
    }

    fn ensure_under(&mut self, subkey: &str, name: &str, exe: &PathBuf) -> Result<(), i32> {
        let mut task = autostart::ensure_under(subkey, name, &exe.to_string_lossy());
        while let Some(call) = task.call() {
            let reply = self.serve(&task.subkey, &task.value_name, call);
            task = task.on_reply(reply);
        }
        match task.stage {
            EnsureStage::Finished(r) => r,
            _ => unreachable!(),
        }
    }

    fn read_value(&mut self, subkey: &str, name: &str) -> Result<Option<String>, i32> {
        let mut task = autostart::read_value(subkey, name);
        while let Some(call) = task.call() {
            let reply = self.serve(&task.subkey, &task.value_name, call);
            task = task.on_reply(reply);
        }
        match task.stage {
            ReadStage::Finished(r) => r,
            _ => unreachable!(),
        }
    }

    fn write_value(&mut self, subkey: &str, name: &str, value: &str) -> Result<(), i32> {
        let mut task = autostart::write_value(subkey, name, value);
        while let Some(call) = task.call() {
            let reply = self.serve(&task.subkey, &task.value_name, call);
            task = task.on_reply(reply);
        }
        match task.stage {
            WriteStage::Finished(r) => r,
            _ => unreachable!(),
        }
    }

    fn delete_value(&mut self, subkey: &str, name: &str) -> Result<(), i32> {
        let mut task = autostart::delete_value(subkey, name);
        while let Some(call) = task.call() {
            let reply = self.serve(&task.subkey, &task.value_name, call);
            task = task.on_reply(reply);
        }
        match task.stage {
            DeleteStage::Finished(r) => r,
            _ => unreachable!(),
        }
    }

    fn cleanup(&mut self, name: &str) {
        self.delete_value(TEST_SUBKEY, name).unwrap();
    }
}

#[test]
fn writes_idempotently_and_can_be_read_back() {
    let mut registry = Registry::default();
    let value_name = "etm_test_write";
    registry.cleanup(value_name);

    let exe = PathBuf::from(r"C:\fake\path\merger.exe");

    registry.ensure_under(TEST_SUBKEY, value_name, &exe).unwrap();
    let read1 = registry.read_value(TEST_SUBKEY, value_name).unwrap();
    assert_eq!(read1.as_deref(), Some(exe.to_string_lossy().as_ref()));
    assert_eq!(registry.writes, 1);

    // A second time with the same path: no error, and nothing is written.
    registry.ensure_under(TEST_SUBKEY, value_name, &exe).unwrap();
    assert_eq!(registry.writes, 1);

    // Switching to a different path must overwrite.
    let exe2 = PathBuf::from(r"C:\other\merger.exe");
    registry.ensure_under(TEST_SUBKEY, value_name, &exe2).unwrap();
    let read2 = registry.read_value(TEST_SUBKEY, value_name).unwrap();
    assert_eq!(read2.as_deref(), Some(exe2.to_string_lossy().as_ref()));
    assert_eq!(registry.writes, 2);

    registry.cleanup(value_name);
    assert_eq!(registry.open, 0);
}

#[test]
fn read_returns_none_for_missing_value() {
    let mut registry = Registry::default();
    let value_name = "etm_test_read_missing";
    registry.cleanup(value_name);
    let v = registry.read_value(TEST_SUBKEY, value_name).unwrap();
    assert!(v.is_none());
    // The same where the key exists.
    registry.keys.insert(TEST_SUBKEY.to_string());
    assert_eq!(registry.read_value(TEST_SUBKEY, value_name), Ok(None));
}

#[test]
fn delete_is_idempotent() {
    let mut registry = Registry::default();
    let value_name = "etm_test_delete";
    registry.cleanup(value_name);
    // Second delete must not error.
    registry.cleanup(value_name);
    // The same with a value to delete.
    registry.write_value(TEST_SUBKEY, value_name, "x").unwrap();
    registry.cleanup(value_name);
    assert_eq!(registry.read_value(TEST_SUBKEY, value_name), Ok(None));
    registry.cleanup(value_name);
}

#[test]
fn run_key_is_the_default_target() {
    let task = autostart::ensure_run(r"C:\Tools\merger.exe");
    assert_eq!(task.subkey, r"Software\Microsoft\Windows\CurrentVersion\Run");
    assert_eq!(task.value_name, "ExplorerTabMerger");
    assert_eq!(task.desired, r"C:\Tools\merger.exe");
    assert!(matches!(task.call(), Some(RegistryCall::OpenRead)));
}

#[test]
fn string_is_written_as_utf16_with_a_terminator() {
    let mut registry = Registry::default();
    registry.write_value("k", "v", "A\u{1F600}").unwrap();
    let bytes = registry.values.get(&("k".to_string(), "v".to_string())).unwrap();
    assert_eq!(*bytes, vec![0x41, 0x00, 0x3D, 0xD8, 0x00, 0xDE, 0x00, 0x00]);
    assert_eq!(registry.read_value("k", "v"), Ok(Some("A\u{1F600}".to_string())));
}

#[test]
fn reading_stops_at_the_first_zero() {
    assert_eq!(autostart::decode_string(&[0x41, 0, 0, 0, 0x42, 0]), "A");
    assert_eq!(autostart::decode_string(&[0x41, 0, 0x42, 0, 0x43]), "AB");
    assert_eq!(autostart::decode_string(&[]), "");
    assert_eq!(autostart::decode_string(&[0x00, 0xD8]), "\u{FFFD}");
}

#[test]
fn path_with_a_nul_does_not_read_back() {
    let mut registry = Registry::default();
    let exe = PathBuf::from("a\0b");
    registry.ensure_under("k", "v", &exe).unwrap();
    assert_eq!(registry.read_value("k", "v"), Ok(Some("a".to_string())));
}

#[test]
fn statuses_become_hresults() {
    assert_eq!(autostart::win32_to_hresult(0), 0);
    assert_eq!(autostart::win32_to_hresult(5), 0x8007_0005u32 as i32);
    assert_eq!(autostart::win32_to_hresult(0x1_0002), 0x8007_0002u32 as i32);
    assert_eq!(autostart::win32_to_hresult(u32::MAX), 0x8007_FFFFu32 as i32);
}

#[test]
fn every_refusal_is_reported_and_the_key_closed() {
    // Reading four calls, writing three.
    for at in 0..7u32 {
        let mut registry = Registry::default();
        registry.write_value("k", "v", "old").unwrap();
        registry.calls = 0;
        registry.opened = 0;
        registry.refuse = Some((at, 5));
        let r = registry.ensure_under("k", "v", &PathBuf::from("new"));
        // These two close the key; what they reply does not matter.
        if at == 3 || at == 6 {
            assert_eq!(r, Ok(()));
        } else {
            assert_eq!(r, Err(0x8007_0005u32 as i32));
        }
        assert_eq!(registry.open, 0, "refused call {}", at);
    }
}

#[test]
fn value_that_vanishes_between_two_queries_is_a_failure() {
    let mut registry = Registry::default();
    registry.write_value("k", "v", "old").unwrap();
    registry.calls = 0;
    registry.refuse = Some((2, 2));
    assert_eq!(registry.read_value("k", "v"), Err(0x8007_0002u32 as i32));
    assert_eq!(registry.open, 0);
}

#[test]
fn refused_deletion_is_reported() {
    for at in 0..2u32 {
        let mut registry = Registry::default();
        registry.write_value("k", "v", "old").unwrap();
        registry.calls = 0;
        registry.refuse = Some((at, 5));
        assert_eq!(registry.delete_value("k", "v"), Err(0x8007_0005u32 as i32));
        assert_eq!(registry.open, 0);
    }
}
