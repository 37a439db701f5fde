//! Requests to the compositor and its answers.
use vstd::prelude::*;
use vstd::string::StringExecFns;

use crate::json;
use crate::json::{Json, JsonModel};
use crate::names::NameMap;
use crate::niri::decode;
use crate::niri::model::{Event, OutputInfo, WindowInfo, WorkspaceInfo};
use crate::text;

verus! {

/// A line of this many bytes or more is refused.
pub const MAX_LINE: u64 = 8 * 1024 * 1024;

/// How many characters of a line that cannot be read are told.
pub const SNIPPET: usize = 500;

/// The object with a single entry.
pub open spec fn single(name: Seq<char>, v: JsonModel) -> JsonModel {
    JsonModel::Object(seq![(name, v)])
}

fn entry(name: &str, v: Json) -> (j: Json)
    ensures
        j.model() == single(name@, v.model()),
{
    let mut o: Vec<(String, Json)> = Vec::new();
    o.push((name.to_owned(), v));
    let j = Json::Object(o);
    proof {
        json::lemma_model(j);
        assert(json::object_model(o@) =~= seq![(name@, v.model())]);
    }
    j
}

/// The request for an action, ended by a line feed.
pub open spec fn request_text(action: JsonModel) -> Seq<char> {
    json::json_text(single("Action"@, action)) + "\n"@
}

/// Encodes an action as a request that ends with a line feed.
pub fn build_action_request(action_payload: Json) -> (r: String)
    ensures
        r@ == request_text(action_payload.model()),
{
    let mut s: String = json::print(&entry("Action", action_payload));
    s.append("\n");
    s
}

/// The action that gives a window the focus.
pub open spec fn focus_action(id: u64) -> JsonModel {
    single("FocusWindow"@, single("id"@, JsonModel::Number(id as int)))
}

/// The action that closes a window.
pub open spec fn close_action(id: u64) -> JsonModel {
    single("CloseWindow"@, single("id"@, JsonModel::Number(id as int)))
}

/// The action that moves the focused column to an index, counted from one.
pub open spec fn index_action(index: usize) -> JsonModel {
    single("MoveColumnToIndex"@, single("index"@, JsonModel::Number(index as int)))
}

/// The action that moves the focused column to an output.
pub open spec fn monitor_action(output: Seq<char>) -> JsonModel {
    single("MoveColumnToMonitor"@, single("output"@, JsonModel::Text(output)))
}

/// The requests for a list of actions.
pub open spec fn requests(actions: Seq<JsonModel>) -> Seq<Seq<char>> {
    actions.map_values(|a: JsonModel| request_text(a))
}

fn numbered(action: &str, name: &str, n: u64) -> (r: String)
    ensures
        r@ == request_text(single(action@, single(name@, JsonModel::Number(n as int)))),
{
    build_action_request(entry(action, entry(name, Json::Uint(n))))
}

/// The requests that give a window the focus.
pub fn focus_window(id: u64) -> (r: Vec<String>)
    ensures
        text::strs(r@) == requests(seq![focus_action(id)]),
{
    let mut r: Vec<String> = Vec::new();
    r.push(numbered("FocusWindow", "id", id));
    assert(text::strs(r@) =~= requests(seq![focus_action(id)]));
    r
}

/// The requests that close a window.
pub fn close_window(id: u64) -> (r: Vec<String>)
    ensures
        text::strs(r@) == requests(seq![close_action(id)]),
{
    let mut r: Vec<String> = Vec::new();
    r.push(numbered("CloseWindow", "id", id));
    assert(text::strs(r@) =~= requests(seq![close_action(id)]));
    r
}

/// The requests that move a window to a column, counted from one: the window is
/// given the focus first, on the same connection.
pub fn move_window_to_column(id: u64, index: usize) -> (r: Vec<String>)
    ensures
        text::strs(r@) == requests(seq![focus_action(id), index_action(index)]),
{
    let mut r: Vec<String> = focus_window(id);
    let ghost before: Seq<String> = r@;
    assert(text::strs(before).len() == 1);
    r.push(numbered("MoveColumnToIndex", "index", index as u64));
    proof {
        assert(text::strs(r@) =~= text::strs(before).push(request_text(index_action(index))));
        assert(text::strs(r@) =~= requests(seq![focus_action(id), index_action(index)]));
    }
    r
}

/// The actions that move a window to an output, and there to a slot where one is
/// given.
pub open spec fn move_actions(id: u64, output: Seq<char>, slot: Option<usize>) -> Seq<JsonModel> {
    match slot {
        Some(s) => seq![focus_action(id), monitor_action(output), index_action(s)],
        None => seq![focus_action(id), monitor_action(output)],
    }
}

/// The requests that move a window to an output, and there to a slot where one is
/// given.
pub fn move_window_to_monitor(id: u64, output: &str, target_slot: Option<usize>) -> (r: Vec<String>)
    ensures
        text::strs(r@) == requests(move_actions(id, output@, target_slot)),
{
    let mut r: Vec<String> = focus_window(id);
    let ghost one: Seq<String> = r@;
    assert(text::strs(one).len() == 1);
    r.push(
        build_action_request(
            entry("MoveColumnToMonitor", entry("output", Json::Text(output.to_owned()))),
        ),
    );
    let ghost two: Seq<String> = r@;
    assert(text::strs(two) =~= text::strs(one).push(request_text(monitor_action(output@))));
    if let Some(slot) = target_slot {
        r.push(numbered("MoveColumnToIndex", "index", slot as u64));
        assert(text::strs(r@) =~= text::strs(two).push(request_text(index_action(slot))));
    }
    assert(text::strs(r@) =~= requests(move_actions(id, output@, target_slot)));
    r
}

/// The request for a resource such as the list of windows.
pub fn resource_request(resource_name: &str) -> (r: String)
    ensures
        r@ == "\""@ + resource_name@ + "\"\n"@,
{
    let mut s: String = "\"".to_owned();
    s.append(resource_name);
    s.append("\"\n");
    s
}

/// What an answer says: its payload, or the compositor's error. `None` where it is
/// no answer.
pub open spec fn answer(m: JsonModel) -> Option<Result<JsonModel, Seq<char>>> {
    match m {
        JsonModel::Object(o) => if o.len() == 1 && o[0].0 == "Ok"@ {
            Some(Ok(o[0].1))
        } else if o.len() == 1 && o[0].0 == "Err"@ {
            match o[0].1 {
                JsonModel::Text(s) => Some(Err(s)),
                _ => None,
            }
        } else {
            None
        },
        _ => None,
    }
}

/// Why nothing was read from a line.
#[derive(Debug)]
pub enum ReadError {
    /// These words tell why.
    Told(String),
    /// The line is not of the expected form. What the parser says of it tells why.
    Unreadable,
}

impl ReadError {
    /// The words that tell why, where the parser is not asked.
    pub open spec fn told(self) -> Option<Seq<char>> {
        match self {
            ReadError::Told(w) => Some(w@),
            ReadError::Unreadable => None,
        }
    }

    /// The words that tell why nothing was read from a line, by what the parser says of
    /// it.
    pub fn message(&self, said: &str, line: &str) -> (r: String)
        ensures
            r@ == (match self.told() {
                Some(w) => w,
                None => unreadable(said@, line@),
            }),
    {
        match self {
            ReadError::Told(w) => w.clone(),
            ReadError::Unreadable => unreadable_message(said, line),
        }
    }
}

/// The words for an answer that cannot be read, with the front of the line.
pub open spec fn unreadable(said: Seq<char>, line: Seq<char>) -> Seq<char> {
    "Failed to parse response: "@ + said + ". Line: "@ + text::first_chars(
        text::trimmed(line),
        SNIPPET as int,
    )
}

fn unreadable_message(said: &str, line: &str) -> (r: String)
    ensures
        r@ == unreadable(said@, line@),
{
    let mut s: String = "Failed to parse response: ".to_owned();
    s.append(said);
    s.append(". Line: ");
    s.append(text::take_chars(text::trim(line).as_str(), SNIPPET).as_str());
    s
}

/// What the line of an answer says, where it is one line of JSON.
pub open spec fn said_in(line: Seq<char>) -> JsonModel {
    json::document(text::trimmed(line), json::DEPTH as nat)
}

/// What an answer gives: the payload, or why there is none.
pub open spec fn response(m: JsonModel) -> Result<JsonModel, Option<Seq<char>>> {
    match answer(m) {
        Some(Ok(v)) => Ok(v),
        Some(Err(e)) => Err(Some("Niri error: "@ + e)),
        None => Err(None),
    }
}

/// Takes the payload out of an answer.
pub fn read_answer(j: Json) -> (r: Result<Json, ReadError>)
    ensures
        match r {
            Ok(v) => response(j.model()) == Ok::<JsonModel, Option<Seq<char>>>(v.model()),
            Err(e) => response(j.model()) == Err::<JsonModel, Option<Seq<char>>>(e.told()),
        },
{
    proof {
        json::lemma_model(j);
    }
    if let Json::Object(o) = j {
        let mut o: Vec<(String, Json)> = o;
        let ghost before: Seq<(String, Json)> = o@;
        if o.len() == 1 {
            assert(json::object_model(before)[0] == (before[0].0@, before[0].1.model()));
            if let Some((name, v)) = o.pop() {
                if text::same(name.as_str(), "Ok") {
                    return Ok(v);
                } else if text::same(name.as_str(), "Err") {
                    if let Json::Text(s) = v {
                        let mut m: String = "Niri error: ".to_owned();
                        m.append(s.as_str());
                        return Err(ReadError::Told(m));
                    }
                }
            }
        }
    }
    Err(ReadError::Unreadable)
}

/// What an answer with a payload of any form gives. The line as a whole is a value then.
pub open spec fn any_response(line: Seq<char>) -> Result<JsonModel, Option<Seq<char>>> {
    match (response(said_in(line)), json::parsed_json(text::trimmed(line))) {
        (Err(e), _) => Err(e),
        (Ok(_), Some(m)) => response(m),
        (Ok(_), None) => Err(None),
    }
}

/// Reads an answer: `{"Ok": ..}` or `{"Err": ".."}`.
pub fn parse_niri_response(line: &str) -> (r: Result<Json, ReadError>)
    ensures
        match r {
            Ok(v) => any_response(line@) == Ok::<JsonModel, Option<Seq<char>>>(v.model()),
            Err(e) => any_response(line@) == Err::<JsonModel, Option<Seq<char>>>(e.told()),
        },
{
    let t: String = text::trim(line);
    match read_answer(json::parse(t.as_str())) {
        Ok(_) => match json::parse_whole(t.as_str()) {
            Some(j) => read_answer(j),
            None => Err(ReadError::Unreadable),
        },
        Err(e) => Err(e),
    }
}

/// The words for an answer that is too long.
pub open spec fn too_long(resource: Seq<char>) -> Seq<char> {
    resource + " response exceeds 8MB cap"@
}

/// The resource of an answer's payload. It may be null or missing.
pub open spec fn resource(payload: JsonModel, name: Seq<char>) -> Option<Option<JsonModel>> {
    if !json::is_structure(payload, 1) || !decode::may_lack(payload, name, 0) {
        None
    } else {
        match json::field(payload, name, 0) {
            None => Some(None),
            Some(JsonModel::Null) => Some(None),
            Some(v) => Some(Some(v)),
        }
    }
}

/// Refuses the line of an answer that is too long.
pub fn check_line(resource_name: &str, line: &str) -> (r: Result<(), String>)
    ensures
        match r {
            Ok(_) => text::byte_len(line@) < MAX_LINE,
            Err(e) => text::byte_len(line@) >= MAX_LINE && e@ == too_long(resource_name@),
        },
{
    if text::len_bytes(line) as u64 >= MAX_LINE {
        let mut s: String = resource_name.to_owned();
        s.append(" response exceeds 8MB cap");
        Err(s)
    } else {
        Ok(())
    }
}

fn take_resource<'a>(payload: &'a Json, name: &str) -> (r: Option<Option<&'a Json>>)
    ensures
        match r {
            Some(Some(v)) => resource(payload.model(), name@) == Some(Some(v.model())),
            Some(None) => resource(payload.model(), name@) == Some(None::<JsonModel>),
            None => resource(payload.model(), name@) is None,
        },
{
    let f: Option<&Json> = payload.get(name, 0);
    let object: bool = matches!(payload, Json::Object(_));
    if !payload.is_struct(1) || !(object || f.is_some()) {
        return None;
    }
    match f {
        None => Some(None),
        Some(Json::Null) => Some(None),
        Some(v) => Some(Some(v)),
    }
}

/// The windows of the payload of an answer.
pub open spec fn windows_in(payload: JsonModel) -> Option<Seq<decode::WindowModel>> {
    match resource(payload, "Windows"@) {
        Some(Some(v)) => decode::windows_read(v),
        Some(None) => Some(Seq::empty()),
        None => None,
    }
}

/// The workspaces of the payload of an answer.
pub open spec fn workspaces_in(payload: JsonModel) -> Option<Seq<decode::WorkspaceModel>> {
    match resource(payload, "Workspaces"@) {
        Some(Some(v)) => decode::workspaces_read(v),
        Some(None) => Some(Seq::empty()),
        None => None,
    }
}

/// The outputs of the payload of an answer.
pub open spec fn outputs_in(payload: JsonModel) -> Option<Map<Seq<char>, decode::OutputModel>> {
    match resource(payload, "Outputs"@) {
        Some(Some(v)) => decode::outputs_read(v),
        Some(None) => Some(Map::empty()),
        None => None,
    }
}

/// The function that reads the windows of a payload.
pub open spec fn windows_reader() -> spec_fn(JsonModel) -> Option<Seq<decode::WindowModel>> {
    |p: JsonModel| windows_in(p)
}

/// The function that reads the workspaces of a payload.
pub open spec fn workspaces_reader() -> spec_fn(JsonModel) -> Option<Seq<decode::WorkspaceModel>> {
    |p: JsonModel| workspaces_in(p)
}

/// The function that reads the outputs of a payload.
pub open spec fn outputs_reader() -> spec_fn(JsonModel) -> Option<Map<Seq<char>, decode::OutputModel>> {
    |p: JsonModel| outputs_in(p)
}

/// What is read from the line of an answer whose payload is read by `found`: the value,
/// or why there is none.
pub open spec fn fetched<T>(
    line: Seq<char>,
    name: Seq<char>,
    found: spec_fn(JsonModel) -> Option<T>,
) -> Result<T, Option<Seq<char>>> {
    if text::byte_len(line) >= MAX_LINE {
        Err(Some(too_long(name)))
    } else {
        match response(said_in(line)) {
            Err(e) => Err(e),
            Ok(payload) => match found(payload) {
                Some(v) => Ok(v),
                None => Err(None),
            },
        }
    }
}

fn read_payload(resource_name: &str, line: &str) -> (r: Result<Json, ReadError>)
    ensures
        match r {
            Ok(v) => text::byte_len(line@) < MAX_LINE && response(said_in(line@)) == Ok::<
                JsonModel,
                Option<Seq<char>>,
            >(v.model()),
            Err(e) => if text::byte_len(line@) >= MAX_LINE {
                e.told() == Some(too_long(resource_name@))
            } else {
                response(said_in(line@)) == Err::<JsonModel, Option<Seq<char>>>(e.told())
            },
        },
{
    match check_line(resource_name, line) {
        Ok(_) => read_answer(json::parse(text::trim(line).as_str())),
        Err(w) => Err(ReadError::Told(w)),
    }
}

/// Reads the answer to a request for the windows.
pub fn fetch_windows(line: &str) -> (r: Result<Vec<WindowInfo>, ReadError>)
    ensures
        match r {
            Ok(v) => fetched(line@, "Windows"@, windows_reader()) == Ok::<
                Seq<decode::WindowModel>,
                Option<Seq<char>>,
            >(v@.map_values(|w: WindowInfo| decode::window_model(w))),
            Err(e) => fetched(line@, "Windows"@, windows_reader()) == Err::<
                Seq<decode::WindowModel>,
                Option<Seq<char>>,
            >(e.told()),
        },
{
    let payload: Json = match read_payload("Windows", line) {
        Ok(p) => p,
        Err(e) => return Err(e),
    };
    match take_resource(&payload, "Windows") {
        Some(Some(v)) => match decode::read_windows(v) {
            Some(ws) => Ok(ws),
            None => Err(ReadError::Unreadable),
        },
        Some(None) => {
            let none: Vec<WindowInfo> = Vec::new();
            assert(none@.map_values(|w: WindowInfo| decode::window_model(w)) =~= Seq::empty());
            Ok(none)
        },
        None => Err(ReadError::Unreadable),
    }
}

/// Reads the answer to a request for the workspaces.
pub fn fetch_workspaces(line: &str) -> (r: Result<Vec<WorkspaceInfo>, ReadError>)
    ensures
        match r {
            Ok(v) => fetched(line@, "Workspaces"@, workspaces_reader()) == Ok::<
                Seq<decode::WorkspaceModel>,
                Option<Seq<char>>,
            >(v@.map_values(|w: WorkspaceInfo| decode::workspace_model(w))),
            Err(e) => fetched(line@, "Workspaces"@, workspaces_reader()) == Err::<
                Seq<decode::WorkspaceModel>,
                Option<Seq<char>>,
            >(e.told()),
        },
{
    let payload: Json = match read_payload("Workspaces", line) {
        Ok(p) => p,
        Err(e) => return Err(e),
    };
    match take_resource(&payload, "Workspaces") {
        Some(Some(v)) => match decode::read_workspaces(v) {
            Some(ws) => Ok(ws),
            None => Err(ReadError::Unreadable),
        },
        Some(None) => {
            let none: Vec<WorkspaceInfo> = Vec::new();
            assert(none@.map_values(|w: WorkspaceInfo| decode::workspace_model(w)) =~= Seq::empty());
            Ok(none)
        },
        None => Err(ReadError::Unreadable),
    }
}

/// Reads the answer to a request for the outputs.
pub fn fetch_outputs(line: &str) -> (r: Result<NameMap<OutputInfo>, ReadError>)
    ensures
        match r {
            Ok(m) => fetched(line@, "Outputs"@, outputs_reader()) == Ok::<
                Map<Seq<char>, decode::OutputModel>,
                Option<Seq<char>>,
            >(decode::outputs_model(m@)),
            Err(e) => fetched(line@, "Outputs"@, outputs_reader()) == Err::<
                Map<Seq<char>, decode::OutputModel>,
                Option<Seq<char>>,
            >(e.told()),
        },
{
    let payload: Json = match read_payload("Outputs", line) {
        Ok(p) => p,
        Err(e) => return Err(e),
    };
    match take_resource(&payload, "Outputs") {
        Some(Some(v)) => match decode::read_outputs(v) {
            Some(m) => Ok(m),
            None => Err(ReadError::Unreadable),
        },
        Some(None) => {
            let none: NameMap<OutputInfo> = NameMap::new();
            assert(decode::outputs_model(none@) =~= Map::empty());
            Ok(none)
        },
        None => Err(ReadError::Unreadable),
    }
}

/// Reads the answer to an action.
pub fn action_result(line: &str) -> (r: Result<(), ReadError>)
    ensures
        match r {
            Ok(_) => text::byte_len(line@) < MAX_LINE && any_response(line@) is Ok,
            Err(e) => if text::byte_len(line@) >= MAX_LINE {
                e.told() == Some(too_long("Action"@))
            } else {
                any_response(line@) == Err::<JsonModel, Option<Seq<char>>>(e.told())
            },
        },
{
    if let Err(w) = check_line("Action", line) {
        return Err(ReadError::Told(w));
    }
    match parse_niri_response(line) {
        Ok(_) => Ok(()),
        Err(e) => Err(e),
    }
}

/// What a line of the event stream is.
#[derive(Debug)]
pub enum StreamLine {
    /// A blank line.
    Blank,
    Event(Event),
    /// A line that is no event.
    Unreadable,
}

/// The event that a text is, for the value that it holds. The names of its entries are
/// written without escapes.
pub open spec fn event_in(t: Seq<char>) -> Option<decode::EventModel> {
    if json::has_plain_names(t) {
        decode::event_read(json::document(t, json::DEPTH as nat))
    } else {
        None
    }
}

/// Reads a line of the event stream.
pub fn read_stream_line(line: &str) -> (r: StreamLine)
    ensures
        match r {
            StreamLine::Blank => text::trimmed(line@).len() == 0,
            StreamLine::Event(e) => text::trimmed(line@).len() > 0 && event_in(text::trimmed(line@)) == Some(
                decode::event_model(e),
            ),
            StreamLine::Unreadable => text::trimmed(line@).len() > 0 && event_in(text::trimmed(line@)) is None,
        },
{
    let t: String = text::trim(line);
    if t.as_str().is_empty() {
        return StreamLine::Blank;
    }
    if !json::plain_names(t.as_str()) {
        return StreamLine::Unreadable;
    }
    match decode::read_event(&json::parse(t.as_str())) {
        Some(e) => StreamLine::Event(e),
        None => StreamLine::Unreadable,
    }
}

/// The words for a line of the event stream that is no event, by what the parser says of
/// it, with the front of the line.
pub fn event_refusal(said: &str, line: &str) -> (r: String)
    ensures
        r@ == "Failed to parse IPC event: "@ + said@ + ". Payload: "@ + text::first_chars(
            text::trimmed(line@),
            SNIPPET as int,
        ),
{
    let mut s: String = "Failed to parse IPC event: ".to_owned();
    s.append(said);
    s.append(". Payload: ");
    s.append(text::take_chars(text::trim(line).as_str(), SNIPPET).as_str());
    s
}

// ---------------------------------------------------------------------------
// What is asked, and what an answer gives
// ---------------------------------------------------------------------------

/// An action has one name and one argument.
pub open spec fn is_action(a: JsonModel, name: Seq<char>, argument: Seq<char>, v: JsonModel) -> bool {
    a matches JsonModel::Object(o) && o.len() == 1 && o[0].0 == name && (o[0].1 matches JsonModel::Object(p) && p.len()
        == 1 && p[0] == (argument, v))
}

/// A request is the line of an action under the name `Action`.
pub open spec fn is_request(line: Seq<char>, name: Seq<char>, argument: Seq<char>, v: JsonModel) -> bool {
    exists|a: JsonModel|
        is_action(a, name, argument, v) && line == #[trigger] json::json_text(
            JsonModel::Object(seq![("Action"@, a)]),
        ) + "\n"@
}

proof fn lemma_request(a: JsonModel, name: Seq<char>, argument: Seq<char>, v: JsonModel)
    requires
        a == single(name, single(argument, v)),
    ensures
        is_request(request_text(a), name, argument, v),
{
    assert(is_action(a, name, argument, v));
}

/// Focusing and closing a window asks for just that, of this window.
pub proof fn law_window_is_asked_for_by_its_id(id: u64, f: Vec<String>, c: Vec<String>)
    requires
        text::strs(f@) == requests(seq![focus_action(id)]),
        text::strs(c@) == requests(seq![close_action(id)]),
    ensures
        f@.len() == 1,
        is_request(f@[0]@, "FocusWindow"@, "id"@, JsonModel::Number(id as int)),
        c@.len() == 1,
        is_request(c@[0]@, "CloseWindow"@, "id"@, JsonModel::Number(id as int)),
{
    assert(requests(seq![focus_action(id)])[0] == request_text(focus_action(id)));
    assert(requests(seq![close_action(id)])[0] == request_text(close_action(id)));
    assert(text::strs(f@).len() == f@.len() && text::strs(c@).len() == c@.len());
    assert(text::strs(f@)[0] == f@[0]@);
    assert(text::strs(c@)[0] == c@[0]@);
    lemma_request(focus_action(id), "FocusWindow"@, "id"@, JsonModel::Number(id as int));
    lemma_request(close_action(id), "CloseWindow"@, "id"@, JsonModel::Number(id as int));
}

/// A column is moved by its window: the window is focused first, then its column moved to
/// the index.
pub proof fn law_column_is_moved_after_the_focus(id: u64, index: usize, r: Vec<String>)
    requires
        text::strs(r@) == requests(seq![focus_action(id), index_action(index)]),
    ensures
        r@.len() == 2,
        is_request(r@[0]@, "FocusWindow"@, "id"@, JsonModel::Number(id as int)),
        is_request(r@[1]@, "MoveColumnToIndex"@, "index"@, JsonModel::Number(index as int)),
{
    let a = requests(seq![focus_action(id), index_action(index)]);
    assert(a[0] == request_text(focus_action(id)));
    assert(a[1] == request_text(index_action(index)));
    assert(text::strs(r@).len() == r@.len());
    assert(text::strs(r@)[0] == r@[0]@);
    assert(text::strs(r@)[1] == r@[1]@);
    lemma_request(focus_action(id), "FocusWindow"@, "id"@, JsonModel::Number(id as int));
    lemma_request(index_action(index), "MoveColumnToIndex"@, "index"@, JsonModel::Number(index as int));
}

/// A window goes to another output in this order: it is focused, its column moved to the
/// output, and there to the slot where one is given.
pub proof fn law_window_goes_to_an_output_in_order(id: u64, output: Seq<char>, slot: Option<usize>, r: Vec<String>)
    requires
        text::strs(r@) == requests(move_actions(id, output, slot)),
    ensures
        slot is Some ==> r@.len() == 3,
        slot is None ==> r@.len() == 2,
        is_request(r@[0]@, "FocusWindow"@, "id"@, JsonModel::Number(id as int)),
        is_request(r@[1]@, "MoveColumnToMonitor"@, "output"@, JsonModel::Text(output)),
        slot matches Some(s) ==> is_request(r@[2]@, "MoveColumnToIndex"@, "index"@, JsonModel::Number(s as int)),
{
    let a = requests(move_actions(id, output, slot));
    assert(a[0] == request_text(focus_action(id)));
    assert(a[1] == request_text(monitor_action(output)));
    assert(text::strs(r@).len() == r@.len());
    assert(text::strs(r@)[0] == r@[0]@);
    assert(text::strs(r@)[1] == r@[1]@);
    lemma_request(focus_action(id), "FocusWindow"@, "id"@, JsonModel::Number(id as int));
    lemma_request(monitor_action(output), "MoveColumnToMonitor"@, "output"@, JsonModel::Text(output));
    if let Some(s) = slot {
        assert(a[2] == request_text(index_action(s)));
        assert(text::strs(r@)[2] == r@[2]@);
        lemma_request(index_action(s), "MoveColumnToIndex"@, "index"@, JsonModel::Number(s as int));
    }
}

/// An answer is an object with one entry: a payload under `Ok`, or the compositor's words
/// under `Err`. Everything else is no answer.
pub proof fn law_answer_has_one_entry(m: JsonModel, v: JsonModel, words: Seq<char>)
    ensures
        m == JsonModel::Object(seq![("Ok"@, v)]) ==> response(m) == Ok::<JsonModel, Option<Seq<char>>>(v),
        m == JsonModel::Object(seq![("Err"@, JsonModel::Text(words))]) ==> response(m) == Err::<
            JsonModel,
            Option<Seq<char>>,
        >(Some("Niri error: "@ + words)),
        m == JsonModel::Object(seq![("Err"@, v)]) && !(v is Text) ==> response(m) == Err::<
            JsonModel,
            Option<Seq<char>>,
        >(None),
        !(m is Object) ==> response(m) == Err::<JsonModel, Option<Seq<char>>>(None),
        m matches JsonModel::Object(o) ==> (o.len() != 1 || (o[0].0 != "Ok"@ && o[0].0 != "Err"@) ==> response(m)
            == Err::<JsonModel, Option<Seq<char>>>(None)),
{
    reveal_strlit("Ok");
    reveal_strlit("Err");
    assert("Ok"@.len() != "Err"@.len());
}

/// A list that was asked for is what stands under its own name in the payload. It is empty
/// where null stands there, or nothing in an object.
pub proof fn law_lists_stand_under_their_names(payload: JsonModel, v: Option<JsonModel>)
    requires
        payload is Object || (payload matches JsonModel::List(l) && l.len() == 1),
    ensures
        json::says(payload, "Windows"@, 0, v) ==> windows_in(payload) == (if decode::is_nothing(v) {
            Some(Seq::<decode::WindowModel>::empty())
        } else {
            decode::windows_read(v->0)
        }),
        json::says(payload, "Workspaces"@, 0, v) ==> workspaces_in(payload) == (if decode::is_nothing(v) {
            Some(Seq::<decode::WorkspaceModel>::empty())
        } else {
            decode::workspaces_read(v->0)
        }),
        json::says(payload, "Outputs"@, 0, v) ==> outputs_in(payload) == (if decode::is_nothing(v) {
            Some(Map::<Seq<char>, decode::OutputModel>::empty())
        } else {
            decode::outputs_read(v->0)
        }),
{
    if json::says(payload, "Windows"@, 0, v) {
        json::law_field_is_what_is_said(payload, "Windows"@, 0, v);
    }
    if json::says(payload, "Workspaces"@, 0, v) {
        json::law_field_is_what_is_said(payload, "Workspaces"@, 0, v);
    }
    if json::says(payload, "Outputs"@, 0, v) {
        json::law_field_is_what_is_said(payload, "Outputs"@, 0, v);
    }
}

/// An answer of eight mebibytes or more is refused, in words that name what was asked for; a
/// shorter one gives its payload, or the compositor's error.
pub proof fn law_long_answers_are_refused(line: Seq<char>, e: Option<Seq<char>>, payload: JsonModel)
    ensures
        text::byte_len(line) >= 8 * 1024 * 1024 ==> fetched(line, "Windows"@, windows_reader()) == Err::<
            Seq<decode::WindowModel>,
            Option<Seq<char>>,
        >(Some("Windows"@ + " response exceeds 8MB cap"@)),
        text::byte_len(line) < 8 * 1024 * 1024 && response(said_in(line)) == Ok::<JsonModel, Option<Seq<char>>>(payload)
            ==> fetched(line, "Windows"@, windows_reader()) == (match windows_in(payload) {
            Some(w) => Ok::<Seq<decode::WindowModel>, Option<Seq<char>>>(w),
            None => Err(None),
        }),
        text::byte_len(line) < 8 * 1024 * 1024 && response(said_in(line)) == Ok::<JsonModel, Option<Seq<char>>>(payload)
            ==> fetched(line, "Workspaces"@, workspaces_reader()) == (match workspaces_in(payload) {
            Some(w) => Ok::<Seq<decode::WorkspaceModel>, Option<Seq<char>>>(w),
            None => Err(None),
        }),
        text::byte_len(line) < 8 * 1024 * 1024 && response(said_in(line)) == Ok::<JsonModel, Option<Seq<char>>>(payload)
            ==> fetched(line, "Outputs"@, outputs_reader()) == (match outputs_in(payload) {
            Some(o) => Ok::<Map<Seq<char>, decode::OutputModel>, Option<Seq<char>>>(o),
            None => Err(None),
        }),
        text::byte_len(line) < 8 * 1024 * 1024 && response(said_in(line)) == Err::<JsonModel, Option<Seq<char>>>(e)
            ==> fetched(line, "Windows"@, windows_reader()) == Err::<Seq<decode::WindowModel>, Option<Seq<char>>>(e),
{
}

/// A line is read without the white space around it.
pub proof fn law_lines_are_read_trimmed(said: Seq<char>, line: Seq<char>)
    ensures
        said_in(line) == json::document(text::trimmed(line), 8),
        unreadable(said, line) == "Failed to parse response: "@ + said + ". Line: "@ + text::first_chars(
            text::trimmed(line),
            500,
        ),
{
}

/// An event has its names written without escapes, and is then what is read of its line.
pub proof fn law_event_names_are_plain(t: Seq<char>)
    ensures
        json::has_plain_names(t) ==> event_in(t) == decode::event_read(json::document(t, 8)),
        !json::has_plain_names(t) ==> event_in(t) is None,
{
}

/// An answer that is refused for its outer shape is refused as such; any other gives what the
/// whole line says, read as one document.
pub proof fn law_answer_is_read_whole(line: Seq<char>, e: Option<Seq<char>>, m: JsonModel)
    ensures
        response(said_in(line)) == Err::<JsonModel, Option<Seq<char>>>(e) ==> any_response(line) == Err::<
            JsonModel,
            Option<Seq<char>>,
        >(e),
        response(said_in(line)) is Ok && json::parsed_json(text::trimmed(line)) == Some(m) ==> any_response(line)
            == response(m),
        response(said_in(line)) is Ok && json::parsed_json(text::trimmed(line)) is None ==> any_response(line) == Err::<
            JsonModel,
            Option<Seq<char>>,
        >(None),
{
}

/// An error that was told keeps its words; any other has none.
pub proof fn law_told_error_keeps_its_words(words: String)
    ensures
        ReadError::Told(words).told() == Some(words@),
        ReadError::Unreadable.told() is None,
{
}

} // verus!
