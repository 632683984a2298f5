//! Start at login: a string value under the user's `Run` key that names the program.
//!
//! Each operation on the registry is a machine. It names the next call on the key it works
//! on; statuses are Win32 codes, and an operation fails with the `HRESULT` of one.

use vstd::prelude::*;

use crate::text::{
    before_nul, decode_utf16_lossy, encode_utf16, from_le_bytes, law_le_round_trip,
    law_utf16_round_trip, le_bytes, le_units, lemma_before_nul, lemma_utf16_no_nul, same_text,
    to_le_bytes, trim_at_nul, utf16, utf16_text,
};

verus! {

/// The key of the programs that start at login, below the user's own.
pub const RUN_KEY: &'static str = "Software\\Microsoft\\Windows\\CurrentVersion\\Run";

/// The name of this program's value.
pub const VALUE_NAME: &'static str = "ExplorerTabMerger";

/// The status of a call that succeeded.
pub const ERROR_SUCCESS: u32 = 0;

/// The status for a key or value that does not exist.
pub const ERROR_FILE_NOT_FOUND: u32 = 2;

/// The status for a buffer that is too small for the value.
pub const ERROR_MORE_DATA: u32 = 234;

/// A call on the registry: those that open a key name the subkey of the task, the others work
/// on the key that is open and on the task's value.
pub enum RegistryCall {
    /// Open the key for reading.
    OpenRead,
    /// Open the key for changing values.
    OpenWrite,
    /// Open the key for changing values, creating it if need be.
    Create,
    /// Ask how many bytes the value has.
    QuerySize,
    /// Read the value into a buffer of this many zero bytes.
    QueryData(u32),
    /// Set the value to a string with these bytes.
    SetString(Vec<u8>),
    /// Delete the value.
    Delete,
    /// Close the key.
    Close,
}

/// [`RegistryCall`] as a value.
pub enum RegistryCallView {
    OpenRead,
    OpenWrite,
    Create,
    QuerySize,
    QueryData(u32),
    SetString(Seq<u8>),
    Delete,
    Close,
}

impl View for RegistryCall {
    type V = RegistryCallView;

    open spec fn view(&self) -> RegistryCallView {
        match self {
            RegistryCall::OpenRead => RegistryCallView::OpenRead,
            RegistryCall::OpenWrite => RegistryCallView::OpenWrite,
            RegistryCall::Create => RegistryCallView::Create,
            RegistryCall::QuerySize => RegistryCallView::QuerySize,
            RegistryCall::QueryData(n) => RegistryCallView::QueryData(*n),
            RegistryCall::SetString(b) => RegistryCallView::SetString(b@),
            RegistryCall::Delete => RegistryCallView::Delete,
            RegistryCall::Close => RegistryCallView::Close,
        }
    }
}

/// What an optional call comes to.
pub open spec fn registry_call_view(c: Option<RegistryCall>) -> Option<RegistryCallView> {
    match c {
        Some(c) => Some(c@),
        None => None,
    }
}

/// The reply to a call: its status, and what it gave back where it gives something back.
pub struct RegistryReply {
    pub status: u32,
    /// The number of bytes, in reply to [`RegistryCall::QuerySize`].
    pub len: u32,
    /// The buffer, in reply to [`RegistryCall::QueryData`].
    pub data: Vec<u8>,
}

/// [`RegistryReply`] as a value.
pub struct RegistryReplyView {
    pub status: u32,
    pub len: u32,
    pub data: Seq<u8>,
}

impl View for RegistryReply {
    type V = RegistryReplyView;

    open spec fn view(&self) -> RegistryReplyView {
        RegistryReplyView { status: self.status, len: self.len, data: self.data@ }
    }
}

/// The `HRESULT` of a Win32 status: its low sixteen bits in the Win32 facility, with the
/// failure bit set.
pub open spec fn hresult(status: u32) -> int {
    if status == 0 {
        0
    } else {
        status % 0x1_0000 + 0x8007_0000 - 0x1_0000_0000
    }
}

/// Whether a result code says that a call failed with this status: read without a sign, it is
/// the Win32 facility and the status's low sixteen bits.
pub open spec fn is_failure_of(code: int, status: u32) -> bool {
    code + 0x1_0000_0000 == 0x8007_0000 + status % 0x1_0000
}

/// Map a Win32 status to an `HRESULT`.
pub fn win32_to_hresult(status: u32) -> (r: i32)
    ensures
        r == hresult(status),
        status == 0 ==> r == 0,
        status != 0 ==> is_failure_of(r as int, status),
{
    if status == 0 {
        0
    } else {
        let code: i32 = (status & 0xFFFF) as i32;
        assert(status & 0xFFFF == status % 0x1_0000) by (bit_vector);
        -2147024896 + code
    }
}

/// The bytes of a string value: UTF-16, low byte first, with a zero at the end.
pub open spec fn string_bytes(s: Seq<char>) -> Seq<u8> {
    le_bytes(utf16(s).push(0))
}

/// The text of a string value: what comes before the first zero.
pub open spec fn string_text(bytes: Seq<u8>) -> Seq<char> {
    utf16_text(before_nul(le_units(bytes)))
}

/// Lay a string out for the registry.
pub fn encode_string(s: &str) -> (r: Vec<u8>)
    ensures
        r@ == string_bytes(s@),
{
    let mut units = encode_utf16(s);
    units.push(0);
    to_le_bytes(units.as_slice())
}

/// Read a string that the registry holds.
pub fn decode_string(bytes: &[u8]) -> (r: String)
    ensures
        r@ == string_text(bytes@),
{
    let units = from_le_bytes(bytes);
    let used = trim_at_nul(units.as_slice());
    decode_utf16_lossy(used.as_slice())
}

/// A string without a NUL character reads back as it was written.
pub proof fn law_string_round_trip(s: Seq<char>)
    requires
        !s.contains('\0'),
    ensures
        string_text(string_bytes(s)) == s,
{
    law_le_round_trip(utf16(s).push(0));
    lemma_utf16_no_nul(s);
    lemma_before_nul(utf16(s), seq![0u16]);
    assert(utf16(s).push(0) == utf16(s) + seq![0u16]);
    law_utf16_round_trip(s);
}

/// Where the reading of a value stands.
pub enum ReadStage {
    Open,
    QuerySize,
    QueryData(u32),
    Close(Result<Option<String>, i32>),
    Finished(Result<Option<String>, i32>),
}

/// What was read: a text, nothing, or a failure.
pub type ReadResult = Result<Option<Seq<char>>, int>;

/// [`ReadStage`] as a value.
pub enum ReadStageView {
    Open,
    QuerySize,
    QueryData(u32),
    Close(ReadResult),
    Finished(ReadResult),
}

/// A result of reading as a value.
pub open spec fn read_result(r: Result<Option<String>, i32>) -> ReadResult {
    match r {
        Ok(Some(s)) => Ok(Some(s@)),
        Ok(None) => Ok(None),
        Err(e) => Err(e as int),
    }
}

impl View for ReadStage {
    type V = ReadStageView;

    open spec fn view(&self) -> ReadStageView {
        match self {
            ReadStage::Open => ReadStageView::Open,
            ReadStage::QuerySize => ReadStageView::QuerySize,
            ReadStage::QueryData(n) => ReadStageView::QueryData(*n),
            ReadStage::Close(r) => ReadStageView::Close(read_result(*r)),
            ReadStage::Finished(r) => ReadStageView::Finished(read_result(*r)),
        }
    }
}

/// What a status other than success means to a read: nothing there, or a failure.
pub open spec fn read_failure(status: u32) -> ReadResult {
    if status == ERROR_FILE_NOT_FOUND {
        Ok(None)
    } else {
        Err(hresult(status))
    }
}

impl ReadStageView {
    /// The call to make next.
    pub open spec fn call(self) -> Option<RegistryCallView> {
        match self {
            ReadStageView::Open => Some(RegistryCallView::OpenRead),
            ReadStageView::QuerySize => Some(RegistryCallView::QuerySize),
            ReadStageView::QueryData(n) => Some(RegistryCallView::QueryData(n)),
            ReadStageView::Close(_) => Some(RegistryCallView::Close),
            ReadStageView::Finished(_) => None,
        }
    }

    /// Where the reply leads.
    pub open spec fn next(self, reply: RegistryReplyView) -> ReadStageView {
        let ok = reply.status == ERROR_SUCCESS;
        match self {
            ReadStageView::Open => if ok {
                ReadStageView::QuerySize
            } else {
                ReadStageView::Finished(read_failure(reply.status))
            },
            ReadStageView::QuerySize => if ok {
                ReadStageView::QueryData(reply.len)
            } else {
                ReadStageView::Close(read_failure(reply.status))
            },
            // The size was known a moment ago, so a value that is gone is a failure here.
            ReadStageView::QueryData(_) => if ok {
                ReadStageView::Close(Ok(Some(string_text(reply.data))))
            } else {
                ReadStageView::Close(Err(hresult(reply.status)))
            },
            ReadStageView::Close(r) => ReadStageView::Finished(r),
            ReadStageView::Finished(r) => self,
        }
    }
}

/// The reading of one value.
pub struct ReadValue {
    pub subkey: String,
    pub value_name: String,
    pub stage: ReadStage,
}

/// Read the string value `value_name` under `subkey`. A key or value that does not exist
/// reads as nothing.
pub fn read_value(subkey: &str, value_name: &str) -> (r: ReadValue)
    ensures
        r.subkey@ == subkey@,
        r.value_name@ == value_name@,
        r.stage@ == ReadStageView::Open,
{
    ReadValue {
        subkey: subkey.to_owned(),
        value_name: value_name.to_owned(),
        stage: ReadStage::Open,
    }
}

/// What a status other than success means to a read.
fn failed_read(status: u32) -> (r: Result<Option<String>, i32>)
    ensures
        read_result(r) == read_failure(status),
{
    if status == ERROR_FILE_NOT_FOUND {
        Ok(None)
    } else {
        Err(win32_to_hresult(status))
    }
}

impl ReadStage {
    /// The call to make next; none once the reading is over.
    pub fn call(&self) -> (r: Option<RegistryCall>)
        ensures
            registry_call_view(r) == self@.call(),
    {
        match self {
            ReadStage::Open => Some(RegistryCall::OpenRead),
            ReadStage::QuerySize => Some(RegistryCall::QuerySize),
            ReadStage::QueryData(n) => Some(RegistryCall::QueryData(*n)),
            ReadStage::Close(_) => Some(RegistryCall::Close),
            ReadStage::Finished(_) => None,
        }
    }

    /// Take the reply to the call.
    pub fn on_reply(self, reply: RegistryReply) -> (r: ReadStage)
        ensures
            r@ == self@.next(reply@),
    {
        let ok: bool = reply.status == ERROR_SUCCESS;
        match self {
            ReadStage::Open => if ok {
                ReadStage::QuerySize
            } else {
                ReadStage::Finished(failed_read(reply.status))
            },
            ReadStage::QuerySize => if ok {
                ReadStage::QueryData(reply.len)
            } else {
                ReadStage::Close(failed_read(reply.status))
            },
            ReadStage::QueryData(_) => if ok {
                ReadStage::Close(Ok(Some(decode_string(reply.data.as_slice()))))
            } else {
                ReadStage::Close(Err(win32_to_hresult(reply.status)))
            },
            ReadStage::Close(r) => ReadStage::Finished(r),
            ReadStage::Finished(r) => ReadStage::Finished(r),
        }
    }
}

impl ReadValue {
    /// The call to make next; none once the task is done.
    pub fn call(&self) -> (r: Option<RegistryCall>)
        ensures
            registry_call_view(r) == self.stage@.call(),
    {
        self.stage.call()
    }

    /// Take the reply to the call.
    pub fn on_reply(self, reply: RegistryReply) -> (r: ReadValue)
        ensures
            r.subkey == self.subkey,
            r.value_name == self.value_name,
            r.stage@ == self.stage@.next(reply@),
    {
        ReadValue {
            subkey: self.subkey,
            value_name: self.value_name,
            stage: self.stage.on_reply(reply),
        }
    }
}

/// Where the writing of a value stands.
pub enum WriteStage {
    Create,
    Store,
    Close(Result<(), i32>),
    Finished(Result<(), i32>),
}

/// How a change ended.
pub type ChangeResult = Result<(), int>;

/// A result of a change as a value.
pub open spec fn change_result(r: Result<(), i32>) -> ChangeResult {
    match r {
        Ok(_) => Ok(()),
        Err(e) => Err(e as int),
    }
}

/// [`WriteStage`] as a value.
pub enum WriteStageView {
    Create,
    Store,
    Close(ChangeResult),
    Finished(ChangeResult),
}

impl View for WriteStage {
    type V = WriteStageView;

    open spec fn view(&self) -> WriteStageView {
        match self {
            WriteStage::Create => WriteStageView::Create,
            WriteStage::Store => WriteStageView::Store,
            WriteStage::Close(r) => WriteStageView::Close(change_result(*r)),
            WriteStage::Finished(r) => WriteStageView::Finished(change_result(*r)),
        }
    }
}

/// What the status of a change means: success, or a failure.
pub open spec fn change_of(status: u32) -> ChangeResult {
    if status == ERROR_SUCCESS {
        Ok(())
    } else {
        Err(hresult(status))
    }
}

/// What the status of a change means.
fn changed(status: u32) -> (r: Result<(), i32>)
    ensures
        change_result(r) == change_of(status),
{
    if status == ERROR_SUCCESS {
        Ok(())
    } else {
        Err(win32_to_hresult(status))
    }
}

impl WriteStageView {
    /// The call to make next to write `value`.
    pub open spec fn call(self, value: Seq<char>) -> Option<RegistryCallView> {
        match self {
            WriteStageView::Create => Some(RegistryCallView::Create),
            WriteStageView::Store => Some(RegistryCallView::SetString(string_bytes(value))),
            WriteStageView::Close(_) => Some(RegistryCallView::Close),
            WriteStageView::Finished(_) => None,
        }
    }

    /// Where the reply leads.
    pub open spec fn next(self, reply: RegistryReplyView) -> WriteStageView {
        match self {
            WriteStageView::Create => if reply.status == ERROR_SUCCESS {
                WriteStageView::Store
            } else {
                WriteStageView::Finished(Err(hresult(reply.status)))
            },
            WriteStageView::Store => WriteStageView::Close(change_of(reply.status)),
            WriteStageView::Close(r) => WriteStageView::Finished(r),
            WriteStageView::Finished(r) => self,
        }
    }
}

impl WriteStage {
    /// The call to make next to write `value`; none once the writing is over.
    pub fn call(&self, value: &str) -> (r: Option<RegistryCall>)
        ensures
            registry_call_view(r) == self@.call(value@),
    {
        match self {
            WriteStage::Create => Some(RegistryCall::Create),
            WriteStage::Store => Some(RegistryCall::SetString(encode_string(value))),
            WriteStage::Close(_) => Some(RegistryCall::Close),
            WriteStage::Finished(_) => None,
        }
    }

    /// Take the reply to the call.
    pub fn on_reply(self, reply: RegistryReply) -> (r: WriteStage)
        ensures
            r@ == self@.next(reply@),
    {
        match self {
            WriteStage::Create => if reply.status == ERROR_SUCCESS {
                WriteStage::Store
            } else {
                WriteStage::Finished(Err(win32_to_hresult(reply.status)))
            },
            WriteStage::Store => WriteStage::Close(changed(reply.status)),
            WriteStage::Close(r) => WriteStage::Finished(r),
            WriteStage::Finished(r) => WriteStage::Finished(r),
        }
    }
}

/// The writing of one value.
pub struct WriteValue {
    pub subkey: String,
    pub value_name: String,
    pub value: String,
    pub stage: WriteStage,
}

/// Set the value `value_name` under `subkey` to a string, creating the key if need be.
pub fn write_value(subkey: &str, value_name: &str, value: &str) -> (r: WriteValue)
    ensures
        r.subkey@ == subkey@,
        r.value_name@ == value_name@,
        r.value@ == value@,
        r.stage@ == WriteStageView::Create,
{
    WriteValue {
        subkey: subkey.to_owned(),
        value_name: value_name.to_owned(),
        value: value.to_owned(),
        stage: WriteStage::Create,
    }
}

impl WriteValue {
    /// The call to make next; none once the task is done.
    pub fn call(&self) -> (r: Option<RegistryCall>)
        ensures
            registry_call_view(r) == self.stage@.call(self.value@),
    {
        self.stage.call(self.value.as_str())
    }

    /// Take the reply to the call.
    pub fn on_reply(self, reply: RegistryReply) -> (r: WriteValue)
        ensures
            r.subkey == self.subkey,
            r.value_name == self.value_name,
            r.value == self.value,
            r.stage@ == self.stage@.next(reply@),
    {
        WriteValue {
            subkey: self.subkey,
            value_name: self.value_name,
            value: self.value,
            stage: self.stage.on_reply(reply),
        }
    }
}

/// Where the deletion of a value stands.
pub enum DeleteStage {
    Open,
    Delete,
    Close(Result<(), i32>),
    Finished(Result<(), i32>),
}

/// [`DeleteStage`] as a value.
pub enum DeleteStageView {
    Open,
    Delete,
    Close(ChangeResult),
    Finished(ChangeResult),
}

impl View for DeleteStage {
    type V = DeleteStageView;

    open spec fn view(&self) -> DeleteStageView {
        match self {
            DeleteStage::Open => DeleteStageView::Open,
            DeleteStage::Delete => DeleteStageView::Delete,
            DeleteStage::Close(r) => DeleteStageView::Close(change_result(*r)),
            DeleteStage::Finished(r) => DeleteStageView::Finished(change_result(*r)),
        }
    }
}

/// What the status of a deletion means: to find nothing is as good as success.
pub open spec fn delete_of(status: u32) -> ChangeResult {
    if status == ERROR_FILE_NOT_FOUND {
        Ok(())
    } else {
        change_of(status)
    }
}

/// What the status of a deletion means.
fn deleted(status: u32) -> (r: Result<(), i32>)
    ensures
        change_result(r) == delete_of(status),
{
    if status == ERROR_FILE_NOT_FOUND {
        Ok(())
    } else {
        changed(status)
    }
}

impl DeleteStageView {
    /// The call to make next.
    pub open spec fn call(self) -> Option<RegistryCallView> {
        match self {
            DeleteStageView::Open => Some(RegistryCallView::OpenWrite),
            DeleteStageView::Delete => Some(RegistryCallView::Delete),
            DeleteStageView::Close(_) => Some(RegistryCallView::Close),
            DeleteStageView::Finished(_) => None,
        }
    }

    /// Where the reply leads.
    pub open spec fn next(self, reply: RegistryReplyView) -> DeleteStageView {
        match self {
            DeleteStageView::Open => if reply.status == ERROR_SUCCESS {
                DeleteStageView::Delete
            } else {
                DeleteStageView::Finished(delete_of(reply.status))
            },
            DeleteStageView::Delete => DeleteStageView::Close(delete_of(reply.status)),
            DeleteStageView::Close(r) => DeleteStageView::Finished(r),
            DeleteStageView::Finished(r) => self,
        }
    }
}

/// The deletion of one value.
pub struct DeleteValue {
    pub subkey: String,
    pub value_name: String,
    pub stage: DeleteStage,
}

/// Delete the value `value_name` under `subkey`; nothing happens if it does not exist.
pub fn delete_value(subkey: &str, value_name: &str) -> (r: DeleteValue)
    ensures
        r.subkey@ == subkey@,
        r.value_name@ == value_name@,
        r.stage@ == DeleteStageView::Open,
{
    DeleteValue {
        subkey: subkey.to_owned(),
        value_name: value_name.to_owned(),
        stage: DeleteStage::Open,
    }
}

impl DeleteStage {
    /// The call to make next; none once the deletion is over.
    pub fn call(&self) -> (r: Option<RegistryCall>)
        ensures
            registry_call_view(r) == self@.call(),
    {
        match self {
            DeleteStage::Open => Some(RegistryCall::OpenWrite),
            DeleteStage::Delete => Some(RegistryCall::Delete),
            DeleteStage::Close(_) => Some(RegistryCall::Close),
            DeleteStage::Finished(_) => None,
        }
    }

    /// Take the reply to the call.
    pub fn on_reply(self, reply: RegistryReply) -> (r: DeleteStage)
        ensures
            r@ == self@.next(reply@),
    {
        match self {
            DeleteStage::Open => if reply.status == ERROR_SUCCESS {
                DeleteStage::Delete
            } else {
                DeleteStage::Finished(deleted(reply.status))
            },
            DeleteStage::Delete => DeleteStage::Close(deleted(reply.status)),
            DeleteStage::Close(r) => DeleteStage::Finished(r),
            DeleteStage::Finished(r) => DeleteStage::Finished(r),
        }
    }
}

impl DeleteValue {
    /// The call to make next; none once the task is done.
    pub fn call(&self) -> (r: Option<RegistryCall>)
        ensures
            registry_call_view(r) == self.stage@.call(),
    {
        self.stage.call()
    }

    /// Take the reply to the call.
    pub fn on_reply(self, reply: RegistryReply) -> (r: DeleteValue)
        ensures
            r.subkey == self.subkey,
            r.value_name == self.value_name,
            r.stage@ == self.stage@.next(reply@),
    {
        DeleteValue {
            subkey: self.subkey,
            value_name: self.value_name,
            stage: self.stage.on_reply(reply),
        }
    }
}

/// Where the registration stands.
pub enum EnsureStage {
    /// See what the value is.
    Read(ReadStage),
    /// It is something else: write it.
    Write(WriteStage),
    Finished(Result<(), i32>),
}

/// [`EnsureStage`] as a value.
pub enum EnsureStageView {
    Read(ReadStageView),
    Write(WriteStageView),
    Finished(ChangeResult),
}

impl View for EnsureStage {
    type V = EnsureStageView;

    open spec fn view(&self) -> EnsureStageView {
        match self {
            EnsureStage::Read(s) => EnsureStageView::Read(s@),
            EnsureStage::Write(s) => EnsureStageView::Write(s@),
            EnsureStage::Finished(r) => EnsureStageView::Finished(change_result(*r)),
        }
    }
}

impl EnsureStageView {
    /// The call to make next to register `desired`.
    pub open spec fn call(self, desired: Seq<char>) -> Option<RegistryCallView> {
        match self {
            EnsureStageView::Read(s) => s.call(),
            EnsureStageView::Write(s) => s.call(desired),
            EnsureStageView::Finished(_) => None,
        }
    }

    /// What a reading that has come this far asks for.
    pub open spec fn after_read(s: ReadStageView, desired: Seq<char>) -> EnsureStageView {
        match s {
            ReadStageView::Finished(Ok(found)) => if found == Some(desired) {
                EnsureStageView::Finished(Ok(()))
            } else {
                EnsureStageView::Write(WriteStageView::Create)
            },
            ReadStageView::Finished(Err(e)) => EnsureStageView::Finished(Err(e)),
            _ => EnsureStageView::Read(s),
        }
    }

    /// What a writing that has come this far asks for.
    pub open spec fn after_write(s: WriteStageView) -> EnsureStageView {
        match s {
            WriteStageView::Finished(r) => EnsureStageView::Finished(r),
            _ => EnsureStageView::Write(s),
        }
    }

    /// Where the reply leads.
    pub open spec fn next(self, desired: Seq<char>, reply: RegistryReplyView) -> EnsureStageView {
        match self {
            EnsureStageView::Read(s) => Self::after_read(s.next(reply), desired),
            EnsureStageView::Write(s) => Self::after_write(s.next(reply)),
            EnsureStageView::Finished(_) => self,
        }
    }
}

/// The registration of a program.
pub struct EnsureValue {
    pub subkey: String,
    pub value_name: String,
    /// What the value is to be.
    pub desired: String,
    pub stage: EnsureStage,
}

/// Register a program under the user's `Run` key. Nothing is written if it is registered
/// already.
pub fn ensure_run(exe_path: &str) -> (r: EnsureValue)
    ensures
        r.subkey@ == RUN_KEY@,
        r.value_name@ == VALUE_NAME@,
        r.desired@ == exe_path@,
        r.stage@ == EnsureStageView::Read(ReadStageView::Open),
{
    ensure_under(RUN_KEY, VALUE_NAME, exe_path)
}

/// Like [`ensure_run`], for any key and value.
pub fn ensure_under(subkey: &str, value_name: &str, exe_path: &str) -> (r: EnsureValue)
    ensures
        r.subkey@ == subkey@,
        r.value_name@ == value_name@,
        r.desired@ == exe_path@,
        r.stage@ == EnsureStageView::Read(ReadStageView::Open),
{
    EnsureValue {
        subkey: subkey.to_owned(),
        value_name: value_name.to_owned(),
        desired: exe_path.to_owned(),
        stage: EnsureStage::Read(ReadStage::Open),
    }
}

impl EnsureValue {
    /// The call to make next; none once the registration is over.
    pub fn call(&self) -> (r: Option<RegistryCall>)
        ensures
            registry_call_view(r) == self.stage@.call(self.desired@),
    {
        match &self.stage {
            EnsureStage::Read(s) => s.call(),
            EnsureStage::Write(s) => s.call(self.desired.as_str()),
            EnsureStage::Finished(_) => None,
        }
    }

    /// Take the reply to the call.
    pub fn on_reply(self, reply: RegistryReply) -> (r: EnsureValue)
        ensures
            r.subkey == self.subkey,
            r.value_name == self.value_name,
            r.desired == self.desired,
            r.stage@ == self.stage@.next(self.desired@, reply@),
    {
        let stage = match self.stage {
            EnsureStage::Read(s) => match s.on_reply(reply) {
                ReadStage::Finished(Ok(Some(found))) => if same_text(
                    found.as_str(),
                    self.desired.as_str(),
                ) {
                    EnsureStage::Finished(Ok(()))
                } else {
                    EnsureStage::Write(WriteStage::Create)
                },
                ReadStage::Finished(Ok(None)) => EnsureStage::Write(WriteStage::Create),
                ReadStage::Finished(Err(e)) => EnsureStage::Finished(Err(e)),
                s => EnsureStage::Read(s),
            },
            EnsureStage::Write(s) => match s.on_reply(reply) {
                WriteStage::Finished(r) => EnsureStage::Finished(r),
                s => EnsureStage::Write(s),
            },
            EnsureStage::Finished(r) => EnsureStage::Finished(r),
        };
        EnsureValue {
            subkey: self.subkey,
            value_name: self.value_name,
            desired: self.desired,
            stage,
        }
    }
}

/// A place for a value in the registry, as the one who works on it finds it.
pub enum Slot {
    /// The key does not exist.
    NoKey,
    /// The key exists, the value does not.
    NoValue,
    /// The value, byte for byte.
    Value(Seq<u8>),
}

/// The reply that only says how it went.
pub open spec fn status_reply(status: u32) -> RegistryReplyView {
    RegistryReplyView { status, len: 0, data: Seq::empty() }
}

/// The status for a key or value that has to exist.
pub open spec fn presence(there: bool) -> u32 {
    if there {
        ERROR_SUCCESS
    } else {
        ERROR_FILE_NOT_FOUND
    }
}

impl Slot {
    /// The text here, if there is any.
    pub open spec fn text(self) -> Option<Seq<char>> {
        match self {
            Slot::Value(b) => Some(string_text(b)),
            _ => None,
        }
    }

    /// Whether the length of what is here can be told.
    pub open spec fn fits(self) -> bool {
        self matches Slot::Value(b) ==> b.len() <= u32::MAX
    }

    /// What a registry in which nothing fails does on a call, and what it replies.
    pub open spec fn serve(self, call: RegistryCallView) -> (Slot, RegistryReplyView) {
        match call {
            RegistryCallView::OpenRead | RegistryCallView::OpenWrite => (
                self,
                status_reply(presence(self !is NoKey)),
            ),
            RegistryCallView::Create => (
                if self is NoKey {
                    Slot::NoValue
                } else {
                    self
                },
                status_reply(ERROR_SUCCESS),
            ),
            RegistryCallView::QuerySize => match self {
                Slot::Value(b) => (
                    self,
                    RegistryReplyView {
                        status: ERROR_SUCCESS,
                        len: b.len() as u32,
                        data: Seq::empty(),
                    },
                ),
                _ => (self, status_reply(ERROR_FILE_NOT_FOUND)),
            },
            RegistryCallView::QueryData(n) => match self {
                Slot::Value(b) => (
                    self,
                    RegistryReplyView {
                        status: if b.len() <= n {
                            ERROR_SUCCESS
                        } else {
                            ERROR_MORE_DATA
                        },
                        len: b.len() as u32,
                        data: b,
                    },
                ),
                _ => (self, status_reply(ERROR_FILE_NOT_FOUND)),
            },
            RegistryCallView::SetString(b) => (Slot::Value(b), status_reply(ERROR_SUCCESS)),
            RegistryCallView::Delete => (
                if self is Value {
                    Slot::NoValue
                } else {
                    self
                },
                status_reply(presence(self is Value)),
            ),
            RegistryCallView::Close => (self, status_reply(ERROR_SUCCESS)),
        }
    }
}

impl ReadStageView {
    /// How many calls are left at most.
    pub open spec fn rank(self) -> nat {
        match self {
            ReadStageView::Open => 4,
            ReadStageView::QuerySize => 3,
            ReadStageView::QueryData(_) => 2,
            ReadStageView::Close(_) => 1,
            ReadStageView::Finished(_) => 0,
        }
    }

    /// How many keys are open at this stage.
    pub open spec fn keys(self) -> int {
        if self is Open || self is Finished {
            0
        } else {
            1
        }
    }

    /// The reading carried through on a slot.
    pub open spec fn on(self, slot: Slot) -> (Slot, ReadStageView)
        decreases self.rank(),
    {
        match self.call() {
            None => (slot, self),
            Some(call) => {
                let (slot, reply) = slot.serve(call);
                self.next(reply).on(slot)
            },
        }
    }
}

impl WriteStageView {
    /// How many calls are left at most.
    pub open spec fn rank(self) -> nat {
        match self {
            WriteStageView::Create => 3,
            WriteStageView::Store => 2,
            WriteStageView::Close(_) => 1,
            WriteStageView::Finished(_) => 0,
        }
    }

    /// How many keys are open at this stage.
    pub open spec fn keys(self) -> int {
        if self is Create || self is Finished {
            0
        } else {
            1
        }
    }
}

impl DeleteStageView {
    /// How many calls are left at most.
    pub open spec fn rank(self) -> nat {
        match self {
            DeleteStageView::Open => 3,
            DeleteStageView::Delete => 2,
            DeleteStageView::Close(_) => 1,
            DeleteStageView::Finished(_) => 0,
        }
    }

    /// How many keys are open at this stage.
    pub open spec fn keys(self) -> int {
        if self is Open || self is Finished {
            0
        } else {
            1
        }
    }

    /// The deletion carried through on a slot.
    pub open spec fn on(self, slot: Slot) -> (Slot, DeleteStageView)
        decreases self.rank(),
    {
        match self.call() {
            None => (slot, self),
            Some(call) => {
                let (slot, reply) = slot.serve(call);
                self.next(reply).on(slot)
            },
        }
    }
}

impl EnsureStageView {
    /// How many calls are left at most.
    pub open spec fn rank(self) -> nat {
        match self {
            EnsureStageView::Read(s) => 3 + s.rank(),
            EnsureStageView::Write(s) => s.rank(),
            EnsureStageView::Finished(_) => 0,
        }
    }

    /// The registration carried through on a slot.
    pub open spec fn on(self, desired: Seq<char>, slot: Slot) -> (Slot, EnsureStageView)
        decreases self.rank(),
    {
        match self.call(desired) {
            None => (slot, self),
            Some(call) => {
                let (slot, reply) = slot.serve(call);
                self.next(desired, reply).on(desired, slot)
            },
        }
    }

    /// The calls that the registration makes on a slot.
    pub open spec fn calls_on(self, desired: Seq<char>, slot: Slot) -> Seq<RegistryCallView>
        decreases self.rank(),
    {
        match self.call(desired) {
            None => Seq::empty(),
            Some(call) => {
                let (slot, reply) = slot.serve(call);
                seq![call] + self.next(desired, reply).calls_on(desired, slot)
            },
        }
    }

    /// Where replies of any kind lead.
    pub open spec fn after(
        self,
        desired: Seq<char>,
        replies: Seq<RegistryReplyView>,
    ) -> EnsureStageView
        decreases replies.len(),
    {
        if replies.len() == 0 {
            self
        } else {
            self.next(desired, replies[0]).after(desired, replies.drop_first())
        }
    }

    /// How many more keys were opened than closed on the way.
    pub open spec fn left_open(self, desired: Seq<char>, replies: Seq<RegistryReplyView>) -> int
        decreases replies.len(),
    {
        if replies.len() == 0 {
            0
        } else {
            let now = match self.call(desired) {
                Some(call) => key_change(call, replies[0]),
                None => 0,
            };
            now + self.next(desired, replies[0]).left_open(desired, replies.drop_first())
        }
    }

    /// How many keys are open at this stage.
    pub open spec fn keys(self) -> int {
        match self {
            EnsureStageView::Read(s) => s.keys(),
            EnsureStageView::Write(s) => s.keys(),
            EnsureStageView::Finished(_) => 0,
        }
    }
}

/// What a call changes in the number of open keys.
pub open spec fn key_change(call: RegistryCallView, reply: RegistryReplyView) -> int {
    match call {
        RegistryCallView::OpenRead
        | RegistryCallView::OpenWrite
        | RegistryCallView::Create => if reply.status == ERROR_SUCCESS {
            1
        } else {
            0
        },
        RegistryCallView::Close => -1,
        _ => 0,
    }
}

/// Reading gives the text that is there, or nothing where the key or the value is missing,
/// and changes nothing.
pub proof fn law_read_gives_the_value(slot: Slot)
    requires
        slot.fits(),
    ensures
        ReadStageView::Open.on(slot) == (slot, ReadStageView::Finished(Ok(slot.text()))),
{
    reveal_with_fuel(ReadStageView::on, 5);
}

/// A registration ends well whatever was there before, and reading then gives the path.
pub proof fn law_registered_path_reads_back(slot: Slot, path: Seq<char>)
    requires
        slot.fits(),
        !path.contains('\0'),
        string_bytes(path).len() <= u32::MAX,
    ensures
        ({
            let (after, end) = EnsureStageView::Read(ReadStageView::Open).on(path, slot);
            &&& end == EnsureStageView::Finished(Ok(()))
            &&& ReadStageView::Open.on(after).1 == ReadStageView::Finished(Ok(Some(path)))
        }),
{
    reveal_with_fuel(EnsureStageView::on, 8);
    law_string_round_trip(path);
    let (after, end) = EnsureStageView::Read(ReadStageView::Open).on(path, slot);
    assert(after.fits() && after.text() == Some(path));
    law_read_gives_the_value(after);
}

/// Once a path is registered, registering it again only looks: it opens the key, reads the
/// value and closes the key, and the value stays as it is.
pub proof fn law_registering_again_writes_nothing(slot: Slot, path: Seq<char>)
    requires
        slot.fits(),
        slot.text() == Some(path),
    ensures
        ({
            let start = EnsureStageView::Read(ReadStageView::Open);
            let len = slot->Value_0.len() as u32;
            &&& start.on(path, slot) == (slot, EnsureStageView::Finished(Ok(())))
            &&& start.calls_on(path, slot) == seq![
                RegistryCallView::OpenRead,
                RegistryCallView::QuerySize,
                RegistryCallView::QueryData(len),
                RegistryCallView::Close,
            ]
        }),
{
    reveal_with_fuel(EnsureStageView::on, 5);
    reveal_with_fuel(EnsureStageView::calls_on, 5);
}

/// Deleting ends well whether or not there is a value, and reading then finds nothing.
/// Deleting a second time changes nothing.
pub proof fn law_deleted_value_is_gone(slot: Slot)
    ensures
        ({
            let (after, end) = DeleteStageView::Open.on(slot);
            &&& end == DeleteStageView::Finished(Ok(()))
            &&& ReadStageView::Open.on(after).1 == ReadStageView::Finished(Ok(None))
            &&& DeleteStageView::Open.on(after) == (after, end)
        }),
{
    reveal_with_fuel(DeleteStageView::on, 4);
    let (after, end) = DeleteStageView::Open.on(slot);
    law_read_gives_the_value(after);
}

/// Every reply brings an operation closer to its end: a reading takes at most four calls, a
/// writing or a deletion at most three, a registration at most seven.
pub proof fn law_operations_end(
    read: ReadStageView,
    write: WriteStageView,
    delete: DeleteStageView,
    ensure: EnsureStageView,
    desired: Seq<char>,
    reply: RegistryReplyView,
)
    ensures
        read.call() is Some ==> read.next(reply).rank() < read.rank() <= 4,
        write.call(desired) is Some ==> write.next(reply).rank() < write.rank() <= 3,
        delete.call() is Some ==> delete.next(reply).rank() < delete.rank() <= 3,
        ensure.call(desired) is Some ==> ensure.next(desired, reply).rank() < ensure.rank() <= 7,
{
}

/// Each step of a reading, a writing or a deletion opens or closes the key as the number of
/// open keys at its stages says; that number is zero at the end.
pub proof fn law_steps_account_for_the_key(
    read: ReadStageView,
    write: WriteStageView,
    delete: DeleteStageView,
    value: Seq<char>,
    reply: RegistryReplyView,
)
    ensures
        read.call() matches Some(call) ==> read.next(reply).keys() == read.keys() + key_change(
            call,
            reply,
        ),
        write.call(value) matches Some(call) ==> write.next(reply).keys() == write.keys()
            + key_change(call, reply),
        delete.call() matches Some(call) ==> delete.next(reply).keys() == delete.keys()
            + key_change(call, reply),
        read is Finished ==> read.keys() == 0,
        write is Finished ==> write.keys() == 0,
        delete is Finished ==> delete.keys() == 0,
{
}

/// Whatever the registry replies, a registration never leaves a key open behind it, and never
/// closes one that it did not open.
pub proof fn law_keys_are_closed(desired: Seq<char>, replies: Seq<RegistryReplyView>)
    ensures
        ({
            let start = EnsureStageView::Read(ReadStageView::Open);
            let open = start.left_open(desired, replies);
            &&& 0 <= open <= 1
            &&& start.after(desired, replies) is Finished ==> open == 0
        }),
{
    lemma_open_keys(EnsureStageView::Read(ReadStageView::Open), desired, replies);
}

/// The number of keys left open follows from where the registration stands.
proof fn lemma_open_keys(
    stage: EnsureStageView,
    desired: Seq<char>,
    replies: Seq<RegistryReplyView>,
)
    ensures
        stage.left_open(desired, replies) == stage.after(desired, replies).keys() - stage.keys(),
    decreases replies.len(),
{
    if replies.len() > 0 {
        lemma_open_keys(stage.next(desired, replies[0]), desired, replies.drop_first());
    }
}

/// A string is laid out as its code units and a zero, low bytes first. What stands behind the
/// zero does not matter to a reader, nor does an odd byte at the end; and units that are no
/// text are read as far as they can be.
pub proof fn law_string_layout(s: Seq<char>, units: Seq<u16>, bytes: Seq<u8>, tail: Seq<u8>, b: u8)
    ensures
        string_bytes(s).len() == 2 * utf16(s).len() + 2,
        le_units(string_bytes(s)) == utf16(s).push(0),
        !s.contains('\0') ==> string_text(string_bytes(s) + tail) == s,
        !units.contains(0) ==> string_text(le_bytes(units)) == utf16_text(units),
        bytes.len() % 2 == 0 ==> string_text(bytes.push(b)) == string_text(bytes),
{
    law_le_round_trip(utf16(s).push(0));
    law_le_round_trip(units);
    let written = string_bytes(s);
    assert(le_units(written + tail) == le_units(written) + le_units(tail)) by {
        let all = le_units(written + tail);
        let parts = le_units(written) + le_units(tail);
        let n = written.len() as int / 2;
        assert(written.len() == 2 * n);
        assert((written + tail).len() / 2 == n + tail.len() / 2);
        assert forall|i: int| 0 <= i < all.len() implies all[i] == parts[i] by {
            if i < n {
                assert((written + tail)[2 * i] == written[2 * i]);
                assert((written + tail)[2 * i + 1] == written[2 * i + 1]);
            } else {
                assert((written + tail)[2 * i] == tail[2 * (i - n)]);
                assert((written + tail)[2 * i + 1] == tail[2 * (i - n) + 1]);
            }
        }
        assert(all == parts);
    }
    if !s.contains('\0') {
        lemma_utf16_no_nul(s);
        let rest = seq![0u16] + le_units(tail);
        lemma_before_nul(utf16(s), rest);
        assert(utf16(s).push(0) + le_units(tail) == utf16(s) + rest);
        law_utf16_round_trip(s);
    }
    if !units.contains(0) {
        lemma_before_nul(units, Seq::empty());
        assert(units + Seq::<u16>::empty() == units);
    }
    if bytes.len() % 2 == 0 {
        assert(le_units(bytes.push(b)) == le_units(bytes));
    }
}

/// A reading opens the key, asks for the size, reads that many bytes and closes the key. A key
/// or a value that is not found reads as nothing, and any other failure is reported; the key is
/// closed before that, if it was opened.
pub proof fn law_read_outcome(
    opened: RegistryReplyView,
    sized: RegistryReplyView,
    data: RegistryReplyView,
    closed: RegistryReplyView,
)
    ensures
        ({
            let a = ReadStageView::Open;
            let b = a.next(opened);
            let c = b.next(sized);
            let d = c.next(data);
            let end = d.next(closed);
            let early = c.next(closed);
            &&& a.call() == Some(RegistryCallView::OpenRead)
            &&& opened.status == 2 ==> b == ReadStageView::Finished(Ok(None))
            &&& opened.status != 0 && opened.status != 2 ==> (b matches ReadStageView::Finished(
                Err(code),
            ) && is_failure_of(code, opened.status))
            &&& opened.status == 0 ==> {
                &&& b.call() == Some(RegistryCallView::QuerySize)
                &&& sized.status != 0 ==> c.call() == Some(RegistryCallView::Close)
                &&& sized.status == 2 ==> early == ReadStageView::Finished(Ok(None))
                &&& sized.status != 0 && sized.status != 2 ==> (early matches
                    ReadStageView::Finished(Err(code)) && is_failure_of(code, sized.status))
                &&& sized.status == 0 ==> {
                    &&& c.call() == Some(RegistryCallView::QueryData(sized.len))
                    &&& d.call() == Some(RegistryCallView::Close)
                    &&& data.status == 0 ==> end == ReadStageView::Finished(
                        Ok(Some(string_text(data.data))),
                    )
                    &&& data.status != 0 ==> (end matches ReadStageView::Finished(Err(code))
                        && is_failure_of(code, data.status))
                }
            }
        }),
{
}

/// A writing creates the key, sets the string and closes the key; the first failure is
/// reported, after the key is closed if it was opened.
pub proof fn law_write_outcome(
    value: Seq<char>,
    created: RegistryReplyView,
    stored: RegistryReplyView,
    closed: RegistryReplyView,
)
    ensures
        ({
            let a = WriteStageView::Create;
            let b = a.next(created);
            let c = b.next(stored);
            let end = c.next(closed);
            &&& a.call(value) == Some(RegistryCallView::Create)
            &&& created.status != 0 ==> (b matches WriteStageView::Finished(Err(code))
                && is_failure_of(code, created.status))
            &&& created.status == 0 ==> {
                &&& b.call(value) == Some(RegistryCallView::SetString(string_bytes(value)))
                &&& c.call(value) == Some(RegistryCallView::Close)
                &&& stored.status == 0 ==> end == WriteStageView::Finished(Ok(()))
                &&& stored.status != 0 ==> (end matches WriteStageView::Finished(Err(code))
                    && is_failure_of(code, stored.status))
            }
        }),
{
}

/// A deletion opens the key, deletes the value and closes the key; that there is nothing to
/// delete is no failure, any other failure is reported.
pub proof fn law_delete_outcome(
    opened: RegistryReplyView,
    deleted: RegistryReplyView,
    closed: RegistryReplyView,
)
    ensures
        ({
            let a = DeleteStageView::Open;
            let b = a.next(opened);
            let c = b.next(deleted);
            let end = c.next(closed);
            &&& a.call() == Some(RegistryCallView::OpenWrite)
            &&& opened.status == 2 ==> b == DeleteStageView::Finished(Ok(()))
            &&& opened.status != 0 && opened.status != 2 ==> (b matches DeleteStageView::Finished(
                Err(code),
            ) && is_failure_of(code, opened.status))
            &&& opened.status == 0 ==> {
                &&& b.call() == Some(RegistryCallView::Delete)
                &&& c.call() == Some(RegistryCallView::Close)
                &&& deleted.status == 0 || deleted.status == 2 ==> end
                    == DeleteStageView::Finished(Ok(()))
                &&& deleted.status != 0 && deleted.status != 2 ==> (end matches
                    DeleteStageView::Finished(Err(code)) && is_failure_of(code, deleted.status))
            }
        }),
{
}

/// A registration reads first, makes the calls of a reading, and ends with its failure if it
/// has one. It ends well without a write exactly if what was read is what is desired; else it
/// makes the calls of a writing of the desired value, and ends as that does.
pub proof fn law_registration_outcome(
    read: ReadStageView,
    write: WriteStageView,
    desired: Seq<char>,
    reply: RegistryReplyView,
)
    ensures
        EnsureStageView::Read(read).call(desired) == read.call(),
        EnsureStageView::Write(write).call(desired) == write.call(desired),
        ({
            let next = EnsureStageView::Read(read).next(desired, reply);
            match read.next(reply) {
                ReadStageView::Finished(Ok(Some(text))) => if text == desired {
                    next == EnsureStageView::Finished(Ok(()))
                } else {
                    next.call(desired) == Some(RegistryCallView::Create)
                },
                ReadStageView::Finished(Ok(None)) => next.call(desired) == Some(
                    RegistryCallView::Create,
                ),
                ReadStageView::Finished(Err(code)) => next == EnsureStageView::Finished(Err(code)),
                _ => next == EnsureStageView::Read(read.next(reply)),
            }
        }),
        ({
            let next = EnsureStageView::Write(write).next(desired, reply);
            match write.next(reply) {
                WriteStageView::Finished(r) => next == EnsureStageView::Finished(r),
                _ => next == EnsureStageView::Write(write.next(reply)),
            }
        }),
{
}

/// A call, a reply and an outcome seen as values are the same call with the same bytes, the
/// same reply and the same outcome.
pub proof fn law_registry_is_seen_as_it_is(
    n: u32,
    bytes: Vec<u8>,
    reply: RegistryReply,
    text: String,
    code: i32,
)
    ensures
        registry_call_view(None) is None,
        registry_call_view(Some(RegistryCall::OpenRead)) == Some(RegistryCallView::OpenRead),
        registry_call_view(Some(RegistryCall::OpenWrite)) == Some(RegistryCallView::OpenWrite),
        registry_call_view(Some(RegistryCall::Create)) == Some(RegistryCallView::Create),
        registry_call_view(Some(RegistryCall::QuerySize)) == Some(RegistryCallView::QuerySize),
        registry_call_view(Some(RegistryCall::QueryData(n))) == Some(
            RegistryCallView::QueryData(n),
        ),
        registry_call_view(Some(RegistryCall::SetString(bytes))) == Some(
            RegistryCallView::SetString(bytes@),
        ),
        registry_call_view(Some(RegistryCall::Delete)) == Some(RegistryCallView::Delete),
        registry_call_view(Some(RegistryCall::Close)) == Some(RegistryCallView::Close),
        reply@.status == reply.status,
        reply@.len == reply.len,
        reply@.data == reply.data@,
        read_result(Ok(Some(text))) == Ok::<Option<Seq<char>>, int>(Some(text@)),
        read_result(Ok(None)) == Ok::<Option<Seq<char>>, int>(None),
        read_result(Err(code)) == Err::<Option<Seq<char>>, int>(code as int),
        change_result(Ok(())) == Ok::<(), int>(()),
        change_result(Err(code)) == Err::<(), int>(code as int),
        ReadStage::Finished(Ok(Some(text)))@ == ReadStageView::Finished(Ok(Some(text@))),
        ReadStage::Finished(Ok(None))@ == ReadStageView::Finished(Ok(None)),
        ReadStage::Finished(Err(code))@ == ReadStageView::Finished(Err(code as int)),
        WriteStage::Finished(Ok(()))@ == WriteStageView::Finished(Ok(())),
        WriteStage::Finished(Err(code))@ == WriteStageView::Finished(Err(code as int)),
        DeleteStage::Finished(Ok(()))@ == DeleteStageView::Finished(Ok(())),
        DeleteStage::Finished(Err(code))@ == DeleteStageView::Finished(Err(code as int)),
        EnsureStage::Finished(Ok(()))@ == EnsureStageView::Finished(Ok(())),
        EnsureStage::Finished(Err(code))@ == EnsureStageView::Finished(Err(code as int)),
{
}

} // verus!
