//! Codex processes on Windows.

use vstd::prelude::*;

use crate::json;
use crate::json::Json;
use crate::json::JsonView;
use crate::text;

verus! {

/// A process that is called after Codex or ChatGPT
#[derive(Debug)]
pub struct WindowsCodexProcess {
    pub name: String,
    pub process_id: u32,
    pub parent_process_id: u32,
    pub command_line: String,
    pub executable_path: String,
    pub main_window_title: String,
}

/// What a process is.
pub struct ProcessView {
    pub name: Seq<char>,
    pub process_id: u32,
    pub parent_process_id: u32,
    pub command_line: Seq<char>,
    pub executable_path: Seq<char>,
    pub main_window_title: Seq<char>,
}

impl View for WindowsCodexProcess {
    type V = ProcessView;

    open spec fn view(&self) -> ProcessView {
        ProcessView {
            name: self.name@,
            process_id: self.process_id,
            parent_process_id: self.parent_process_id,
            command_line: self.command_line@,
            executable_path: self.executable_path@,
            main_window_title: self.main_window_title@,
        }
    }
}

// ---------------------------------------------------------------------------
// Reading the process list
// ---------------------------------------------------------------------------

/// Why the list of processes cannot be read
#[derive(Debug, Clone, Copy, PartialEq, Eq, Structural)]
pub enum ProcessListError {
    /// It is not a JSON document.
    NotJson,
    /// An entry is not a process.
    NotAProcess,
}

impl ProcessListError {
    pub open spec fn text(self) -> Seq<char> {
        match self {
            ProcessListError::NotJson => "failed to parse Windows process JSON"@,
            ProcessListError::NotAProcess => "failed to deserialize Windows Codex process entry"@,
        }
    }

    pub fn message(&self) -> (r: String)
        ensures
            r@ == self.text(),
    {
        match self {
            ProcessListError::NotJson => "failed to parse Windows process JSON".to_string(),
            ProcessListError::NotAProcess => {
                "failed to deserialize Windows Codex process entry".to_string()
            },
        }
    }
}

/// The process identifier that a value is.
pub open spec fn pid_in(value: Option<JsonView>) -> Option<u32> {
    match value {
        Some(value) => match value.integer() {
            Some(n) if 0 <= n <= u32::MAX => Some(n as u32),
            _ => None,
        },
        None => None,
    }
}

/// The text that a value is.
pub open spec fn text_in(value: Option<JsonView>) -> Option<Seq<char>> {
    match value {
        Some(value) => value.text(),
        None => None,
    }
}

/// The text that a value is; empty where there is no value.
pub open spec fn text_or_empty(value: Option<JsonView>) -> Option<Seq<char>> {
    match value {
        Some(value) => value.text(),
        None => Some(Seq::empty()),
    }
}

/// The process with the given fields, where they have the right kind.
pub open spec fn process_with(
    name: Option<JsonView>,
    process_id: Option<JsonView>,
    parent_process_id: Option<JsonView>,
    command_line: Option<JsonView>,
    executable_path: Option<JsonView>,
    main_window_title: Option<JsonView>,
) -> Option<ProcessView> {
    match (
        text_in(name),
        pid_in(process_id),
        pid_in(parent_process_id),
        text_or_empty(command_line),
        text_or_empty(executable_path),
        text_or_empty(main_window_title),
    ) {
        (
            Some(name),
            Some(process_id),
            Some(parent_process_id),
            Some(command_line),
            Some(executable_path),
            Some(main_window_title),
        ) => Some(
            ProcessView {
                name,
                process_id,
                parent_process_id,
                command_line,
                executable_path,
                main_window_title,
            },
        ),
        _ => None,
    }
}

pub open spec fn item_of(items: Seq<JsonView>, at: int) -> Option<JsonView> {
    if 0 <= at < items.len() {
        Some(items[at])
    } else {
        None
    }
}

/// The process that a value describes: an object with a member for each field,
/// or a list with the fields in their order. The last three may be missing.
pub open spec fn process_of(value: JsonView) -> Option<ProcessView> {
    match value {
        JsonView::Object(members) => process_with(
            value.member("Name"@),
            value.member("ProcessId"@),
            value.member("ParentProcessId"@),
            value.member("CommandLine"@),
            value.member("ExecutablePath"@),
            value.member("MainWindowTitle"@),
        ),
        JsonView::List(items) if items.len() <= 6 => process_with(
            item_of(items, 0),
            item_of(items, 1),
            item_of(items, 2),
            item_of(items, 3),
            item_of(items, 4),
            item_of(items, 5),
        ),
        _ => None,
    }
}

/// What the processes are.
pub open spec fn views(processes: Seq<WindowsCodexProcess>) -> Seq<ProcessView> {
    processes.map_values(|process: WindowsCodexProcess| process@)
}

/// The processes that the values describe, where each of them describes one.
pub open spec fn processes_of(values: Seq<JsonView>) -> Option<Seq<ProcessView>>
    decreases values.len(),
{
    if values.len() == 0 {
        Some(Seq::empty())
    } else {
        match (processes_of(values.drop_last()), process_of(values.last())) {
            (Some(before), Some(process)) => Some(before.push(process)),
            _ => None,
        }
    }
}

/// The processes that a document lists: those of a list, or a single one.
pub open spec fn document_processes(document: JsonView) -> Option<Seq<ProcessView>> {
    match document {
        JsonView::List(values) => processes_of(values),
        value => processes_of(seq![value]),
    }
}

fn pid_from(value: Option<&Json>) -> (r: Option<u32>)
    ensures
        r == pid_in(opt_view(value)),
{
    match value {
        Some(value) => match value.as_i64() {
            Some(n) if 0 <= n && n <= u32::MAX as i64 => Some(n as u32),
            _ => None,
        },
        None => None,
    }
}

/// What an optional value is.
pub open spec fn opt_view(value: Option<&Json>) -> Option<JsonView> {
    match value {
        Some(value) => Some(value@),
        None => None,
    }
}

fn text_from(value: Option<&Json>) -> (r: Option<String>)
    ensures
        text::opt_text(r) == text_in(opt_view(value)),
{
    match value {
        Some(Json::Text(s)) => Some(s.clone()),
        _ => None,
    }
}

fn text_or_default(value: Option<&Json>) -> (r: Option<String>)
    ensures
        text::opt_text(r) == text_or_empty(opt_view(value)),
{
    match value {
        Some(Json::Text(s)) => Some(s.clone()),
        Some(_) => None,
        None => {
            let empty = String::new();
            assert(empty@ =~= Seq::<char>::empty());
            Some(empty)
        },
    }
}

fn build_process(
    name: Option<&Json>,
    process_id: Option<&Json>,
    parent_process_id: Option<&Json>,
    command_line: Option<&Json>,
    executable_path: Option<&Json>,
    main_window_title: Option<&Json>,
) -> (r: Option<WindowsCodexProcess>)
    ensures
        (match r {
            Some(process) => Some(process@),
            None => None,
        }) == process_with(
            opt_view(name),
            opt_view(process_id),
            opt_view(parent_process_id),
            opt_view(command_line),
            opt_view(executable_path),
            opt_view(main_window_title),
        ),
{
    match (
        text_from(name),
        pid_from(process_id),
        pid_from(parent_process_id),
        text_or_default(command_line),
        text_or_default(executable_path),
        text_or_default(main_window_title),
    ) {
        (
            Some(name),
            Some(process_id),
            Some(parent_process_id),
            Some(command_line),
            Some(executable_path),
            Some(main_window_title),
        ) => Some(
            WindowsCodexProcess {
                name,
                process_id,
                parent_process_id,
                command_line,
                executable_path,
                main_window_title,
            },
        ),
        _ => None,
    }
}

fn item<'a>(items: &'a Vec<Json>, at: usize) -> (r: Option<&'a Json>)
    ensures
        at < items@.len() ==> r == Some(&items@[at as int]),
        at >= items@.len() ==> r is None,
{
    if at < items.len() {
        Some(&items[at])
    } else {
        None
    }
}

fn read_process(value: &Json) -> (r: Option<WindowsCodexProcess>)
    ensures
        (match r {
            Some(process) => Some(process@),
            None => None,
        }) == process_of(value@),
{
    match value {
        Json::Object(_) => build_process(
            value.get("Name"),
            value.get("ProcessId"),
            value.get("ParentProcessId"),
            value.get("CommandLine"),
            value.get("ExecutablePath"),
            value.get("MainWindowTitle"),
        ),
        Json::List(items) => {
            if items.len() > 6 {
                return None;
            }
            let ghost all = value@->List_0;
            assert forall|i: int| 0 <= i < items@.len() implies all[i] == #[trigger] items@[i]@ by {
            }
            build_process(
                item(items, 0),
                item(items, 1),
                item(items, 2),
                item(items, 3),
                item(items, 4),
                item(items, 5),
            )
        },
        _ => None,
    }
}

fn read_processes(values: &Vec<Json>) -> (r: Option<Vec<WindowsCodexProcess>>)
    ensures
        (match r {
            Some(processes) => Some(views(processes@)),
            None => None,
        }) == processes_of(values@.map_values(|value: Json| value@)),
{
    let ghost all = values@.map_values(|value: Json| value@);
    let mut r: Vec<WindowsCodexProcess> = Vec::new();
    let mut i: usize = 0;
    assert(views(r@) =~= Seq::<ProcessView>::empty());
    while i < values.len()
        invariant
            all == values@.map_values(|value: Json| value@),
            i <= values@.len(),
            processes_of(all.take(i as int)) == Some(views(r@)),
        decreases values@.len() - i,
    {
        assert(all.take(i + 1).drop_last() =~= all.take(i as int));
        match read_process(&values[i]) {
            Some(process) => {
                let ghost before = views(r@);
                r.push(process);
                assert(views(r@) =~= before.push(process@));
            },
            None => {
                proof {
                    lemma_no_processes(all, i + 1);
                }
                return None;
            },
        }
        i = i + 1;
    }
    assert(all.take(all.len() as int) =~= all);
    Some(r)
}

proof fn lemma_no_processes(values: Seq<JsonView>, upto: int)
    requires
        0 <= upto <= values.len(),
        processes_of(values.take(upto)) is None,
    ensures
        processes_of(values) is None,
    decreases values.len(),
{
    if upto == values.len() {
        assert(values.take(upto) =~= values);
    } else {
        assert(values.drop_last().take(upto) =~= values.take(upto));
        lemma_no_processes(values.drop_last(), upto);
    }
}

/// The processes that a document lists.
pub fn list_processes(document: Json) -> (r: Result<Vec<WindowsCodexProcess>, ProcessListError>)
    ensures
        match r {
            Ok(processes) => document_processes(document@) == Some(views(processes@)),
            Err(error) => document_processes(document@) is None && error
                == ProcessListError::NotAProcess,
        },
{
    let ghost view = document@;
    let values: Vec<Json> = match document {
        Json::List(values) => {
            assert(view->List_0 =~= values@.map_values(|value: Json| value@));
            values
        },
        value => {
            let mut values: Vec<Json> = Vec::new();
            values.push(value);
            assert(values@.map_values(|value: Json| value@) =~= seq![view]);
            values
        },
    };
    match read_processes(&values) {
        Some(processes) => Ok(processes),
        None => Err(ProcessListError::NotAProcess),
    }
}

/// What the answer to the query for processes lists.
pub open spec fn listed(answer: Seq<char>) -> Result<Seq<ProcessView>, ProcessListError> {
    let trimmed = text::trim_of(answer);
    if trimmed.len() == 0 {
        Ok(Seq::empty())
    } else {
        match json::json_document(vstd::utf8::encode_utf8(trimmed)) {
            None => Err(ProcessListError::NotJson),
            Some(document) => match document_processes(document) {
                Some(processes) => Ok(processes),
                None => Err(ProcessListError::NotAProcess),
            },
        }
    }
}

/// The processes in the answer to the query for processes, which is empty where
/// there are none.
pub fn parse_windows_codex_processes(stdout: &str) -> (r: Result<
    Vec<WindowsCodexProcess>,
    ProcessListError,
>)
    ensures
        match r {
            Ok(processes) => listed(stdout@) == Ok::<Seq<ProcessView>, ProcessListError>(
                views(processes@),
            ),
            Err(error) => listed(stdout@) == Err::<Seq<ProcessView>, ProcessListError>(error),
        },
{
    let trimmed = text::trim(stdout);
    if trimmed.as_str().is_empty() {
        let none: Vec<WindowsCodexProcess> = Vec::new();
        assert(views(none@) =~= Seq::<ProcessView>::empty());
        return Ok(none);
    }
    match json::parse_json(trimmed.as_str().as_bytes()) {
        Some(document) => list_processes(document),
        None => Err(ProcessListError::NotJson),
    }
}

// ---------------------------------------------------------------------------
// Laws
// ---------------------------------------------------------------------------

/// The list of processes holds one process for each entry, in their order; a list with an
/// entry that is not a process is refused as a whole, and a single process needs no list.
pub proof fn law_every_entry_is_a_process(values: Seq<JsonView>)
    ensures
        match document_processes(JsonView::List(values)) {
            Some(processes) => processes.len() == values.len() && forall|i: int|
                0 <= i < values.len() ==> process_of(values[i]) == Some(#[trigger] processes[i]),
            None => exists|i: int|
                0 <= i < values.len() && process_of(#[trigger] values[i]) is None,
        },
    decreases values.len(),
{
    if values.len() > 0 {
        let front = values.drop_last();
        law_every_entry_is_a_process(front);
        match processes_of(values) {
            Some(processes) => {
                let before = processes_of(front)->0;
                assert forall|i: int| 0 <= i < values.len() implies process_of(values[i]) == Some(
                    #[trigger] processes[i],
                ) by {
                    if i < front.len() {
                        assert(processes[i] == before[i]);
                        assert(front[i] == values[i]);
                    }
                }
            },
            None => {
                if processes_of(front) is None {
                    let i = choose|i: int|
                        0 <= i < front.len() && process_of(#[trigger] front[i]) is None;
                    assert(process_of(values[i]) is None);
                } else {
                    assert(process_of(values[values.len() - 1]) is None);
                }
            },
        }
    }
}

/// A single process is listed as one process.
pub proof fn law_single_process_is_listed(value: JsonView)
    requires
        value is Object,
    ensures
        match document_processes(value) {
            Some(processes) => processes.len() == 1 && process_of(value) == Some(processes[0]),
            None => process_of(value) is None,
        },
{
    assert(seq![value].drop_last() =~= Seq::<JsonView>::empty());
    assert(processes_of(seq![value].drop_last()) == Some(Seq::<ProcessView>::empty()));
    assert(seq![value].last() == value);
}

/// The fields of a process are the members of its entry: the name and the two identifiers
/// have to be there, the other texts are empty where they are not.
pub proof fn law_process_has_the_fields_of_its_entry(value: JsonView, process: ProcessView)
    requires
        value is Object,
        process_of(value) == Some(process),
    ensures
        value.member("Name"@) matches Some(name) && name.text() == Some(process.name),
        value.member("ProcessId"@) matches Some(id) && id.integer() == Some(
            process.process_id as i64,
        ),
        value.member("ParentProcessId"@) matches Some(id) && id.integer() == Some(
            process.parent_process_id as i64,
        ),
        value.member("CommandLine"@) matches Some(line) ==> line.text() == Some(
            process.command_line,
        ),
        value.member("CommandLine"@) is None ==> process.command_line.len() == 0,
        value.member("ExecutablePath"@) matches Some(path) ==> path.text() == Some(
            process.executable_path,
        ),
        value.member("ExecutablePath"@) is None ==> process.executable_path.len() == 0,
        value.member("MainWindowTitle"@) matches Some(title) ==> title.text() == Some(
            process.main_window_title,
        ),
        value.member("MainWindowTitle"@) is None ==> process.main_window_title.len() == 0,
{
}

/// An empty answer lists no processes, and is no error.
pub proof fn law_empty_answer_lists_nothing(answer: Seq<char>)
    ensures
        text::blank(answer) ==> listed(answer) == Ok::<Seq<ProcessView>, ProcessListError>(
            Seq::empty(),
        ),
        !text::blank(answer) ==> (listed(answer) == Err::<Seq<ProcessView>, ProcessListError>(
            ProcessListError::NotJson,
        ) <==> json::json_document(vstd::utf8::encode_utf8(text::trim_of(answer))) is None),
{
    text::lemma_blank_iff_trim_empty(answer);
}

/// An entry whose name is a text, whose two identifiers are numbers from 0 to 4294967295
/// and whose other fields are texts, where they are there, is a process.
pub proof fn law_proper_entries_are_processes(value: JsonView)
    requires
        value is Object,
        value.member("Name"@) matches Some(name) && name is Text,
        value.member("ProcessId"@) matches Some(id) && id is Number && (id->Number_0 matches Some(n)
            && 0 <= n <= 4_294_967_295),
        value.member("ParentProcessId"@) matches Some(id) && id is Number && (
        id->Number_0 matches Some(n) && 0 <= n <= 4_294_967_295),
        value.member("CommandLine"@) matches Some(line) ==> line is Text,
        value.member("ExecutablePath"@) matches Some(path) ==> path is Text,
        value.member("MainWindowTitle"@) matches Some(title) ==> title is Text,
    ensures
        process_of(value) is Some,
{
}

/// An entry that is a list gives the fields in their order: the name, the identifier, that
/// of the parent, the command line, the path and the title.
pub proof fn law_fields_of_a_list_come_in_order(items: Seq<JsonView>)
    ensures
        process_of(JsonView::List(items)) matches Some(process) ==> {
            &&& 3 <= items.len() <= 6
            &&& items[0] == JsonView::Text(process.name)
            &&& items[1].integer() == Some(process.process_id as i64)
            &&& items[2].integer() == Some(process.parent_process_id as i64)
            &&& items.len() > 3 ==> items[3] == JsonView::Text(process.command_line)
            &&& items.len() > 4 ==> items[4] == JsonView::Text(process.executable_path)
            &&& items.len() > 5 ==> items[5] == JsonView::Text(process.main_window_title)
            &&& items.len() <= 3 ==> process.command_line.len() == 0
            &&& items.len() <= 4 ==> process.executable_path.len() == 0
            &&& items.len() <= 5 ==> process.main_window_title.len() == 0
        },
        items.len() == 3 && items[0] is Text && (items[1].integer() matches Some(n) && 0 <= n
            <= 4_294_967_295) && (items[2].integer() matches Some(n) && 0 <= n <= 4_294_967_295)
            ==> process_of(JsonView::List(items)) is Some,
{
}

} // verus!
