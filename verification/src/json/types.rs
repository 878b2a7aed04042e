//! The methods of the control protocol with their parameters, results
//! and errors.

use vstd::prelude::*;
use crate::text::{str_eq, views};

verus! {

pub const GET_VERSION: &'static str = "get-version";

pub const GET_FILE_LIST: &'static str = "get-file-list";

pub const GET_FILE_INFO: &'static str = "get-file-info";

/// Parameters of `get-file-list`: whether the listing starts over.
#[derive(Debug, PartialEq, Eq)]
pub struct ParamGetFileList {
    pub start: bool,
}

/// Parameters of `get-file-info`: the file asked about.
#[derive(Debug, PartialEq, Eq)]
pub struct ParamGetFileInfo {
    pub filename: String,
}

/// The parameters of a request.
#[derive(Debug, PartialEq, Eq)]
pub enum Params {
    FileList(ParamGetFileList),
    FileInfo(ParamGetFileInfo),
}

/// The parameters of a request as the contracts see them.
pub enum ParamsView {
    FileList { start: bool },
    FileInfo { filename: Seq<char> },
}

impl View for Params {
    type V = ParamsView;

    open spec fn view(&self) -> ParamsView {
        match self {
            Params::FileList(p) => ParamsView::FileList { start: p.start },
            Params::FileInfo(p) => ParamsView::FileInfo { filename: p.filename@ },
        }
    }
}

/// Result of `get-version`.
#[derive(Debug, PartialEq, Eq)]
pub struct Version {
    pub project: String,
    pub version: String,
    pub esp_idf: String,
}

/// Result of `get-file-list`: one page of the device's file paths.
#[derive(Debug, PartialEq, Eq)]
pub struct FileList {
    pub first: bool,
    pub last: bool,
    pub files: Vec<String>,
}

/// Result of `get-file-info`: the metadata of one file.
#[derive(Debug, PartialEq, Eq)]
pub struct FileInfo {
    pub filename: String,
    pub genre: String,
    pub artist: String,
    pub album: String,
    pub title: String,
    pub date: Option<u16>,
    pub track: u16,
    pub duration: u16,
}

/// The result of a request, told apart by its shape.
#[derive(Debug, PartialEq, Eq)]
pub enum RpcResult {
    Version(Version),
    FileList(FileList),
    FileInfo(FileInfo),
}

pub struct VersionView {
    pub project: Seq<char>,
    pub version: Seq<char>,
    pub esp_idf: Seq<char>,
}

pub struct FileListView {
    pub first: bool,
    pub last: bool,
    pub files: Seq<Seq<char>>,
}

pub struct FileInfoView {
    pub filename: Seq<char>,
    pub genre: Seq<char>,
    pub artist: Seq<char>,
    pub album: Seq<char>,
    pub title: Seq<char>,
    pub date: Option<u16>,
    pub track: u16,
    pub duration: u16,
}

pub enum RpcResultView {
    Version(VersionView),
    FileList(FileListView),
    FileInfo(FileInfoView),
}

impl View for Version {
    type V = VersionView;

    open spec fn view(&self) -> VersionView {
        VersionView { project: self.project@, version: self.version@, esp_idf: self.esp_idf@ }
    }
}

impl View for FileList {
    type V = FileListView;

    open spec fn view(&self) -> FileListView {
        FileListView { first: self.first, last: self.last, files: views(self.files@) }
    }
}

impl View for FileInfo {
    type V = FileInfoView;

    open spec fn view(&self) -> FileInfoView {
        FileInfoView {
            filename: self.filename@,
            genre: self.genre@,
            artist: self.artist@,
            album: self.album@,
            title: self.title@,
            date: self.date,
            track: self.track,
            duration: self.duration,
        }
    }
}

impl View for RpcResult {
    type V = RpcResultView;

    open spec fn view(&self) -> RpcResultView {
        match self {
            RpcResult::Version(v) => RpcResultView::Version(v@),
            RpcResult::FileList(l) => RpcResultView::FileList(l@),
            RpcResult::FileInfo(i) => RpcResultView::FileInfo(i@),
        }
    }
}

/// The request that an error answers.
#[derive(Clone, Copy, Debug, PartialEq, Eq, Structural)]
pub enum ErrReq {
    Unknown,
    Version,
    FileList,
    FileInfo,
}

impl Default for ErrReq {
    fn default() -> (r: Self)
        ensures
            r == ErrReq::Unknown,
    {
        ErrReq::Unknown
    }
}

/// An error reported by the device, with the request it answers.
#[derive(Debug, PartialEq, Eq)]
pub struct RpcError {
    pub request: ErrReq,
    pub method: String,
    pub code: i16,
    pub message: String,
}

pub struct RpcErrorView {
    pub request: ErrReq,
    pub method: Seq<char>,
    pub code: i16,
    pub message: Seq<char>,
}

impl View for RpcError {
    type V = RpcErrorView;

    open spec fn view(&self) -> RpcErrorView {
        RpcErrorView {
            request: self.request,
            method: self.method@,
            code: self.code,
            message: self.message@,
        }
    }
}

/// The method whose result has the shape of `result`.
pub open spec fn method_of(result: RpcResultView) -> Seq<char> {
    match result {
        RpcResultView::Version(_) => GET_VERSION@,
        RpcResultView::FileList(_) => GET_FILE_LIST@,
        RpcResultView::FileInfo(_) => GET_FILE_INFO@,
    }
}

/// The kind of request that `method` names.
pub open spec fn request_of(method: Seq<char>) -> ErrReq {
    if method == GET_VERSION@ {
        ErrReq::Version
    } else if method == GET_FILE_LIST@ {
        ErrReq::FileList
    } else if method == GET_FILE_INFO@ {
        ErrReq::FileInfo
    } else {
        ErrReq::Unknown
    }
}

/// The three method names differ from one another.
pub proof fn lemma_methods_differ()
    ensures
        GET_VERSION@ != GET_FILE_LIST@,
        GET_VERSION@ != GET_FILE_INFO@,
        GET_FILE_LIST@ != GET_FILE_INFO@,
{
    reveal_strlit("get-version");
    reveal_strlit("get-file-list");
    reveal_strlit("get-file-info");
    assert(GET_VERSION@.len() == 11);
    assert(GET_FILE_LIST@.len() == 13);
    assert(GET_FILE_INFO@[11] == 'f');
    assert(GET_FILE_LIST@[11] == 's');
}

/// Whether `result` has the shape that `method` answers with.
pub fn check_type(result: &RpcResult, method: &str) -> (ok: bool)
    ensures
        ok == (method@ == method_of(result@)),
{
    match result {
        RpcResult::Version(_) => str_eq(method, GET_VERSION),
        RpcResult::FileList(_) => str_eq(method, GET_FILE_LIST),
        RpcResult::FileInfo(_) => str_eq(method, GET_FILE_INFO),
    }
}

/// The kind of request that `method` names, `Unknown` if it names none.
pub fn request_kind(method: &str) -> (kind: ErrReq)
    ensures
        kind == request_of(method@),
{
    if str_eq(method, GET_VERSION) {
        ErrReq::Version
    } else if str_eq(method, GET_FILE_LIST) {
        ErrReq::FileList
    } else if str_eq(method, GET_FILE_INFO) {
        ErrReq::FileInfo
    } else {
        ErrReq::Unknown
    }
}

} // verus!
