//! Reads a reply of the device out of a JSON document. Every shape is
//! strict: an object with a member that the shape does not name is
//! rejected, and so is a member of the wrong type.

use vstd::prelude::*;
use crate::json::types::{
    ErrReq, FileInfo, FileInfoView, FileList, FileListView, RpcError, RpcErrorView, RpcResult,
    RpcResultView, Version, VersionView,
};
use crate::json::value::{json_of, json_text, jsons_of, keys, member, parse_value, Json};
use crate::text::{str_eq, views};

verus! {

/// The envelope of a reply.
#[derive(Debug, PartialEq, Eq)]
pub struct Response {
    pub jsonrpc: String,
    pub result: Option<RpcResult>,
    pub error: Option<RpcError>,
    pub id: Option<u32>,
}

pub struct ResponseView {
    pub jsonrpc: Seq<char>,
    pub result: Option<RpcResultView>,
    pub error: Option<RpcErrorView>,
    pub id: Option<u32>,
}

impl View for Response {
    type V = ResponseView;

    open spec fn view(&self) -> ResponseView {
        ResponseView {
            jsonrpc: self.jsonrpc@,
            result: match self.result {
                Some(r) => Some(r@),
                None => None,
            },
            error: match self.error {
                Some(e) => Some(e@),
                None => None,
            },
            id: self.id,
        }
    }
}

/// The member `key` of an object, if the document is an object that has
/// it.
pub open spec fn member_of(j: Json, key: Seq<char>) -> Option<Json> {
    match j {
        Json::Object(o) => if o.contains_key(key) {
            Some(o[key])
        } else {
            None
        },
        _ => None,
    }
}

/// Whether the document is an object all of whose keys are among
/// `allowed`.
pub open spec fn has_only(j: Json, allowed: Seq<Seq<char>>) -> bool {
    j matches Json::Object(o) && forall|k: Seq<char>| o.contains_key(k) ==> allowed.contains(k)
}

/// Whether a member is missing or `null`.
pub open spec fn absent(m: Option<Json>) -> bool {
    m is None || m == Some(Json::Null)
}

/// The characters of a member that is a string.
pub open spec fn text_of(m: Option<Json>) -> Option<Seq<char>> {
    match m {
        Some(Json::Str(s)) => Some(s),
        _ => None,
    }
}

/// The value of a member that is a boolean.
pub open spec fn flag_of(m: Option<Json>) -> Option<bool> {
    match m {
        Some(Json::Bool(b)) => Some(b),
        _ => None,
    }
}

/// The value of a member that is an integer between `low` and `high`.
pub open spec fn int_of(m: Option<Json>, low: int, high: int) -> Option<int> {
    match m {
        Some(Json::Int(i)) => if low <= i <= high {
            Some(i)
        } else {
            None
        },
        _ => None,
    }
}

/// The strings of a member that is an array of strings.
pub open spec fn texts_of(m: Option<Json>) -> Option<Seq<Seq<char>>> {
    match m {
        Some(Json::Array(items)) => if forall|i: int|
            0 <= i < items.len() ==> (#[trigger] items[i]) is Str {
            Some(Seq::new(items.len(), |i: int| items[i]->Str_0))
        } else {
            None
        },
        _ => None,
    }
}

/// The members of a `get-version` result.
pub open spec fn version_keys() -> Seq<Seq<char>> {
    seq!["project"@, "version"@, "esp-idf"@]
}

/// The members of a `get-file-list` result.
pub open spec fn file_list_keys() -> Seq<Seq<char>> {
    seq!["first"@, "last"@, "files"@]
}

/// The members of a `get-file-info` result.
pub open spec fn file_info_keys() -> Seq<Seq<char>> {
    seq![
        "filename"@,
        "genre"@,
        "artist"@,
        "album"@,
        "title"@,
        "date"@,
        "track"@,
        "duration"@,
    ]
}

/// The members of an error.
pub open spec fn error_keys() -> Seq<Seq<char>> {
    seq!["code"@, "message"@]
}

/// The members of a reply.
pub open spec fn response_keys() -> Seq<Seq<char>> {
    seq!["jsonrpc"@, "result"@, "error"@, "id"@]
}

/// The `get-version` result that a document spells: an object with the
/// three strings `project`, `version` and `esp-idf` and nothing else.
pub open spec fn version_of(j: Json) -> Option<VersionView> {
    let project = text_of(member_of(j, "project"@));
    let version = text_of(member_of(j, "version"@));
    let esp_idf = text_of(member_of(j, "esp-idf"@));
    if has_only(j, version_keys()) && project is Some && version is Some && esp_idf is Some {
        Some(VersionView { project: project->0, version: version->0, esp_idf: esp_idf->0 })
    } else {
        None
    }
}

/// The `get-file-list` result that a document spells: an object with the
/// booleans `first` and `last`, the array of strings `files`, and nothing
/// else.
pub open spec fn file_list_of(j: Json) -> Option<FileListView> {
    let first = flag_of(member_of(j, "first"@));
    let last = flag_of(member_of(j, "last"@));
    let files = texts_of(member_of(j, "files"@));
    if has_only(j, file_list_keys()) && first is Some && last is Some && files is Some {
        Some(FileListView { first: first->0, last: last->0, files: files->0 })
    } else {
        None
    }
}

/// The `get-file-info` result that a document spells: an object with the
/// strings `filename`, `genre`, `artist`, `album` and `title`, the
/// 16-bit numbers `track` and `duration`, a 16-bit number `date` that may
/// be missing or `null`, and nothing else.
pub open spec fn file_info_of(j: Json) -> Option<FileInfoView> {
    let filename = text_of(member_of(j, "filename"@));
    let genre = text_of(member_of(j, "genre"@));
    let artist = text_of(member_of(j, "artist"@));
    let album = text_of(member_of(j, "album"@));
    let title = text_of(member_of(j, "title"@));
    let date = int_of(member_of(j, "date"@), 0, u16::MAX as int);
    let track = int_of(member_of(j, "track"@), 0, u16::MAX as int);
    let duration = int_of(member_of(j, "duration"@), 0, u16::MAX as int);
    if has_only(j, file_info_keys()) && filename is Some && genre is Some && artist is Some
        && album is Some && title is Some && (absent(member_of(j, "date"@)) || date is Some)
        && track is Some && duration is Some {
        Some(
            FileInfoView {
                filename: filename->0,
                genre: genre->0,
                artist: artist->0,
                album: album->0,
                title: title->0,
                date: if absent(member_of(j, "date"@)) {
                    None
                } else {
                    Some(date->0 as u16)
                },
                track: track->0 as u16,
                duration: duration->0 as u16,
            },
        )
    } else {
        None
    }
}

/// The result that a document spells: the first of the three shapes that
/// fits.
pub open spec fn result_of(j: Json) -> Option<RpcResultView> {
    if version_of(j) is Some {
        Some(RpcResultView::Version(version_of(j)->0))
    } else if file_list_of(j) is Some {
        Some(RpcResultView::FileList(file_list_of(j)->0))
    } else if file_info_of(j) is Some {
        Some(RpcResultView::FileInfo(file_info_of(j)->0))
    } else {
        None
    }
}

/// At most one of the three shapes fits a document, so a result is told
/// apart by its shape whatever the order in which the shapes are tried.
pub proof fn lemma_shapes_exclusive(j: Json)
    ensures
        version_of(j) is Some ==> file_list_of(j) is None && file_info_of(j) is None,
        file_list_of(j) is Some ==> file_info_of(j) is None,
{
    reveal_strlit("project");
    reveal_strlit("first");
    reveal_strlit("last");
    reveal_strlit("files");
    reveal_strlit("filename");
    reveal_strlit("genre");
    reveal_strlit("artist");
    reveal_strlit("album");
    reveal_strlit("title");
    reveal_strlit("date");
    reveal_strlit("track");
    reveal_strlit("duration");
    let project = "project"@;
    let first = "first"@;
    assert(project.len() == 7);
    assert(first.len() == 5 && first[0] == 'f');
    if version_of(j) is Some {
        let o = j->Object_0;
        assert(o.contains_key(project));
        if file_list_of(j) is Some {
            assert(file_list_keys().contains(project));
            let k = choose|k: int|
                0 <= k < file_list_keys().len() && file_list_keys()[k] == project;
            assert(file_list_keys()[k].len() != 7);
        }
        if file_info_of(j) is Some {
            assert(file_info_keys().contains(project));
            let k = choose|k: int|
                0 <= k < file_info_keys().len() && file_info_keys()[k] == project;
            assert(file_info_keys()[k].len() != 7);
        }
    }
    if file_list_of(j) is Some && file_info_of(j) is Some {
        let o = j->Object_0;
        assert(o.contains_key(first));
        assert(file_info_keys().contains(first));
        let k = choose|k: int| 0 <= k < file_info_keys().len() && file_info_keys()[k] == first;
        assert(file_info_keys()[k].len() != 5 || file_info_keys()[k][0] != 'f');
    }
}

/// The error that a document spells: an object with the 16-bit signed
/// number `code`, the string `message`, and nothing else. The request
/// that it answers is not known yet.
pub open spec fn error_of(j: Json) -> Option<RpcErrorView> {
    let code = int_of(member_of(j, "code"@), i16::MIN as int, i16::MAX as int);
    let message = text_of(member_of(j, "message"@));
    if has_only(j, error_keys()) && code is Some && message is Some {
        Some(
            RpcErrorView {
                request: ErrReq::Unknown,
                method: Seq::<char>::empty(),
                code: code->0 as i16,
                message: message->0,
            },
        )
    } else {
        None
    }
}

/// The reply that a document spells: an object with the string
/// `jsonrpc`, and, each of them optional, a `result` of one of the three
/// shapes, an `error`, and a 32-bit number `id`, and nothing else. A
/// member that is `null` counts as missing.
pub open spec fn response_of(j: Json) -> Option<ResponseView> {
    let jsonrpc = text_of(member_of(j, "jsonrpc"@));
    let result = member_of(j, "result"@);
    let error = member_of(j, "error"@);
    let id = member_of(j, "id"@);
    if has_only(j, response_keys()) && jsonrpc is Some && (absent(result) || result_of(result->0)
        is Some) && (absent(error) || error_of(error->0) is Some) && (absent(id) || int_of(
        id,
        0,
        u32::MAX as int,
    ) is Some) {
        Some(
            ResponseView {
                jsonrpc: jsonrpc->0,
                result: if absent(result) {
                    None
                } else {
                    result_of(result->0)
                },
                error: if absent(error) {
                    None
                } else {
                    error_of(error->0)
                },
                id: if absent(id) {
                    None
                } else {
                    Some(int_of(id, 0, u32::MAX as int)->0 as u32)
                },
            },
        )
    } else {
        None
    }
}

/// The reply in what was read from a text: none if the text was no JSON,
/// and the reply that the document spells otherwise.
pub open spec fn response_in(doc: Option<Json>) -> Option<ResponseView> {
    match doc {
        Some(j) => response_of(j),
        None => None,
    }
}

/// The document of an optional value.
pub open spec fn doc_of(m: Option<&serde_json::Value>) -> Option<Json> {
    match m {
        Some(v) => Some(json_of(*v)),
        None => None,
    }
}

/// Whether `key` is one of `allowed`.
fn is_allowed(key: &str, allowed: &Vec<&'static str>) -> (r: bool)
    ensures
        r == exists|i: int| 0 <= i < allowed@.len() && (#[trigger] allowed@[i])@ == key@,
{
    let mut i: usize = 0;
    while i < allowed.len()
        invariant
            i <= allowed@.len(),
            forall|j: int| 0 <= j < i ==> (#[trigger] allowed@[j])@ != key@,
        decreases allowed@.len() - i,
    {
        if str_eq(allowed[i], key) {
            return true;
        }
        i = i + 1;
    }
    false
}

/// The views of a list of string slices.
pub open spec fn slice_views(v: Seq<&'static str>) -> Seq<Seq<char>> {
    Seq::new(v.len(), |i: int| v[i]@)
}

/// Whether the value is an object all of whose keys are among `allowed`.
#[verifier::loop_isolation(false)]
fn value_has_only(v: &serde_json::Value, allowed: &Vec<&'static str>) -> (r: bool)
    ensures
        r == has_only(json_of(*v), slice_views(allowed@)),
{
    let ghost names = slice_views(allowed@);
    match keys(v) {
        Some(ks) => {
            let ghost o = json_of(*v)->Object_0;
            let mut i: usize = 0;
            while i < ks.len()
                invariant
                    i <= ks@.len(),
                    names == slice_views(allowed@),
                    forall|j: int| 0 <= j < i ==> names.contains((#[trigger] ks@[j])@),
                decreases ks@.len() - i,
            {
                if !is_allowed(ks[i].as_str(), allowed) {
                    proof {
                        let bad = ks@[i as int]@;
                        assert(o.contains_key(bad));
                        if names.contains(bad) {
                            let k = choose|k: int| 0 <= k < names.len() && names[k] == bad;
                            assert(allowed@[k]@ == bad);
                        }
                    }
                    return false;
                }
                proof {
                    let k = choose|k: int|
                        0 <= k < allowed@.len() && (#[trigger] allowed@[k])@ == ks@[i as int]@;
                    assert(names[k] == ks@[i as int]@);
                }
                i = i + 1;
            }
            assert forall|k: Seq<char>| o.contains_key(k) implies names.contains(k) by {
                let j = choose|j: int| 0 <= j < ks@.len() && (#[trigger] ks@[j])@ == k;
                assert(names.contains(ks@[j]@));
            }
            true
        },
        None => false,
    }
}

/// The characters of a member that is a string.
fn text_member(m: Option<&serde_json::Value>) -> (r: Option<String>)
    ensures
        match r {
            Some(s) => text_of(doc_of(m)) == Some(s@),
            None => text_of(doc_of(m)) is None,
        },
{
    match m {
        Some(v) => match v.as_str() {
            Some(s) => Some(String::from_str(s)),
            None => None,
        },
        None => None,
    }
}

/// The value of a member that is a boolean.
fn flag_member(m: Option<&serde_json::Value>) -> (r: Option<bool>)
    ensures
        r == flag_of(doc_of(m)),
{
    match m {
        Some(v) => v.as_bool(),
        None => None,
    }
}

/// The value of a member that is an integer from zero to `high`.
fn unsigned_member(m: Option<&serde_json::Value>, high: u64) -> (r: Option<u64>)
    ensures
        match r {
            Some(n) => int_of(doc_of(m), 0, high as int) == Some(n as int),
            None => int_of(doc_of(m), 0, high as int) is None,
        },
{
    match m {
        Some(v) => match v.as_u64() {
            Some(n) => if n <= high {
                Some(n)
            } else {
                None
            },
            None => None,
        },
        None => None,
    }
}

/// The value of a member that is an integer from `low` to `high`.
fn signed_member(m: Option<&serde_json::Value>, low: i64, high: i64) -> (r: Option<i64>)
    ensures
        match r {
            Some(n) => int_of(doc_of(m), low as int, high as int) == Some(n as int),
            None => int_of(doc_of(m), low as int, high as int) is None,
        },
{
    match m {
        Some(v) => match v.as_i64() {
            Some(n) => if low <= n && n <= high {
                Some(n)
            } else {
                None
            },
            None => None,
        },
        None => None,
    }
}

/// Whether a member is missing or `null`.
fn is_absent(m: Option<&serde_json::Value>) -> (r: bool)
    ensures
        r == absent(doc_of(m)),
{
    match m {
        Some(v) => v.is_null(),
        None => true,
    }
}

/// The strings of a member that is an array of strings.
#[verifier::loop_isolation(false)]
fn texts_member(m: Option<&serde_json::Value>) -> (r: Option<Vec<String>>)
    ensures
        match r {
            Some(ts) => texts_of(doc_of(m)) == Some(views(ts@)),
            None => texts_of(doc_of(m)) is None,
        },
{
    match m {
        Some(v) => match v.as_array() {
            Some(items) => {
                let ghost docs = jsons_of(items@);
                let mut out: Vec<String> = Vec::new();
                let mut i: usize = 0;
                while i < items.len()
                    invariant
                        i <= items@.len(),
                        docs == jsons_of(items@),
                        out@.len() == i,
                        forall|j: int|
                            0 <= j < i ==> (#[trigger] docs[j]) == Json::Str(out@[j]@),
                    decreases items@.len() - i,
                {
                    match items[i].as_str() {
                        Some(s) => {
                            out.push(String::from_str(s));
                        },
                        None => {
                            assert(!(docs[i as int] is Str));
                            return None;
                        },
                    }
                    i = i + 1;
                }
                assert(views(out@) =~= Seq::new(docs.len(), |i: int| docs[i]->Str_0));
                Some(out)
            },
            None => None,
        },
        None => None,
    }
}

fn version_names() -> (names: Vec<&'static str>)
    ensures
        slice_views(names@) == version_keys(),
{
    let names = vec!["project", "version", "esp-idf"];
    assert(slice_views(names@) =~= version_keys());
    names
}

fn file_list_names() -> (names: Vec<&'static str>)
    ensures
        slice_views(names@) == file_list_keys(),
{
    let names = vec!["first", "last", "files"];
    assert(slice_views(names@) =~= file_list_keys());
    names
}

fn file_info_names() -> (names: Vec<&'static str>)
    ensures
        slice_views(names@) == file_info_keys(),
{
    let names = vec![
        "filename",
        "genre",
        "artist",
        "album",
        "title",
        "date",
        "track",
        "duration",
    ];
    assert(slice_views(names@) =~= file_info_keys());
    names
}

fn error_names() -> (names: Vec<&'static str>)
    ensures
        slice_views(names@) == error_keys(),
{
    let names = vec!["code", "message"];
    assert(slice_views(names@) =~= error_keys());
    names
}

fn response_names() -> (names: Vec<&'static str>)
    ensures
        slice_views(names@) == response_keys(),
{
    let names = vec!["jsonrpc", "result", "error", "id"];
    assert(slice_views(names@) =~= response_keys());
    names
}

/// Reads a `get-version` result.
pub fn decode_version(v: &serde_json::Value) -> (r: Option<Version>)
    ensures
        match r {
            Some(x) => version_of(json_of(*v)) == Some(x@),
            None => version_of(json_of(*v)) is None,
        },
{
    if !value_has_only(v, &version_names()) {
        return None;
    }
    let project = text_member(member(v, "project"));
    let version = text_member(member(v, "version"));
    let esp_idf = text_member(member(v, "esp-idf"));
    match (project, version, esp_idf) {
        (Some(project), Some(version), Some(esp_idf)) => Some(
            Version { project, version, esp_idf },
        ),
        _ => None,
    }
}

/// Reads a `get-file-list` result.
pub fn decode_file_list(v: &serde_json::Value) -> (r: Option<FileList>)
    ensures
        match r {
            Some(x) => file_list_of(json_of(*v)) == Some(x@),
            None => file_list_of(json_of(*v)) is None,
        },
{
    if !value_has_only(v, &file_list_names()) {
        return None;
    }
    let first = flag_member(member(v, "first"));
    let last = flag_member(member(v, "last"));
    let files = texts_member(member(v, "files"));
    match (first, last, files) {
        (Some(first), Some(last), Some(files)) => Some(FileList { first, last, files }),
        _ => None,
    }
}

/// Reads a `get-file-info` result.
pub fn decode_file_info(v: &serde_json::Value) -> (r: Option<FileInfo>)
    ensures
        match r {
            Some(x) => file_info_of(json_of(*v)) == Some(x@),
            None => file_info_of(json_of(*v)) is None,
        },
{
    if !value_has_only(v, &file_info_names()) {
        return None;
    }
    let filename = text_member(member(v, "filename"));
    let genre = text_member(member(v, "genre"));
    let artist = text_member(member(v, "artist"));
    let album = text_member(member(v, "album"));
    let title = text_member(member(v, "title"));
    let no_date = is_absent(member(v, "date"));
    let date = unsigned_member(member(v, "date"), 0xffff);
    let track = unsigned_member(member(v, "track"), 0xffff);
    let duration = unsigned_member(member(v, "duration"), 0xffff);
    if !no_date && date.is_none() {
        return None;
    }
    match (filename, genre, artist, album, title, track, duration) {
        (
            Some(filename),
            Some(genre),
            Some(artist),
            Some(album),
            Some(title),
            Some(track),
            Some(duration),
        ) => Some(
            FileInfo {
                filename,
                genre,
                artist,
                album,
                title,
                date: if no_date {
                    None
                } else {
                    match date {
                        Some(d) => Some(d as u16),
                        None => None,
                    }
                },
                track: track as u16,
                duration: duration as u16,
            },
        ),
        _ => None,
    }
}

/// Reads a result: the first of the three shapes that fits.
pub fn decode_result(v: &serde_json::Value) -> (r: Option<RpcResult>)
    ensures
        match r {
            Some(x) => result_of(json_of(*v)) == Some(x@),
            None => result_of(json_of(*v)) is None,
        },
{
    match decode_version(v) {
        Some(x) => Some(RpcResult::Version(x)),
        None => match decode_file_list(v) {
            Some(x) => Some(RpcResult::FileList(x)),
            None => match decode_file_info(v) {
                Some(x) => Some(RpcResult::FileInfo(x)),
                None => None,
            },
        },
    }
}

/// Reads an error.
pub fn decode_error(v: &serde_json::Value) -> (r: Option<RpcError>)
    ensures
        match r {
            Some(x) => error_of(json_of(*v)) == Some(x@),
            None => error_of(json_of(*v)) is None,
        },
{
    if !value_has_only(v, &error_names()) {
        return None;
    }
    let code = signed_member(member(v, "code"), -0x8000, 0x7fff);
    let message = text_member(member(v, "message"));
    match (code, message) {
        (Some(code), Some(message)) => Some(
            RpcError {
                request: ErrReq::Unknown,
                method: String::new(),
                code: code as i16,
                message,
            },
        ),
        _ => None,
    }
}

/// Reads a reply out of a JSON value.
pub fn decode_response(v: &serde_json::Value) -> (r: Option<Response>)
    ensures
        match r {
            Some(x) => response_of(json_of(*v)) == Some(x@),
            None => response_of(json_of(*v)) is None,
        },
{
    if !value_has_only(v, &response_names()) {
        return None;
    }
    let jsonrpc = match text_member(member(v, "jsonrpc")) {
        Some(s) => s,
        None => {
            return None;
        },
    };
    let result_member = member(v, "result");
    let result = if is_absent(result_member) {
        None
    } else {
        match result_member {
            Some(m) => match decode_result(m) {
                Some(r) => Some(r),
                None => {
                    return None;
                },
            },
            None => None,
        }
    };
    let error_member = member(v, "error");
    let error = if is_absent(error_member) {
        None
    } else {
        match error_member {
            Some(m) => match decode_error(m) {
                Some(e) => Some(e),
                None => {
                    return None;
                },
            },
            None => None,
        }
    };
    let id_member = member(v, "id");
    let id = if is_absent(id_member) {
        None
    } else {
        match unsigned_member(id_member, 0xffff_ffff) {
            Some(n) => Some(n as u32),
            None => {
                return None;
            },
        }
    };
    Some(Response { jsonrpc, result, error, id })
}

/// Reads a reply out of a text: `None` if the text is not JSON or does
/// not spell a reply.
pub fn decode(text: &str) -> (r: Option<Response>)
    ensures
        match r {
            Some(x) => response_in(json_text(text@)) == Some(x@),
            None => response_in(json_text(text@)) is None,
        },
{
    match parse_value(text) {
        Ok(v) => decode_response(&v),
        Err(_) => None,
    }
}

} // verus!
