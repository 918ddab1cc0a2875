//! The request that warms an account up, and what is read from the answer.

use vstd::prelude::*;

use crate::json;
use crate::json::Json;
use crate::json::JsonView;
use crate::text;
use crate::words;

verus! {

// ---------------------------------------------------------------------------
// The request
// ---------------------------------------------------------------------------

/// The request that warms an account up.
pub open spec fn warmup_request(stream: bool, include_max_output_tokens: bool) -> JsonView {
    let content = JsonView::Object(
        seq![("text"@, JsonView::Text("Hi"@)), ("type"@, JsonView::Text("input_text"@))],
    );
    let message = JsonView::Object(
        seq![
            ("content"@, JsonView::List(seq![content])),
            ("role"@, JsonView::Text("user"@)),
            ("type"@, JsonView::Text("message"@)),
        ],
    );
    let start = seq![
        ("input"@, JsonView::List(seq![message])),
        ("instructions"@, JsonView::Text("You are Codex."@)),
    ];
    let limit = if include_max_output_tokens {
        seq![("max_output_tokens"@, JsonView::Number(Some(1i64)))]
    } else {
        Seq::empty()
    };
    let end = seq![
        ("model"@, JsonView::Text("gpt-5.4-mini"@)),
        ("parallel_tool_calls"@, JsonView::Bool(false)),
        ("reasoning"@, JsonView::Object(seq![("effort"@, JsonView::Text("low"@))])),
        ("store"@, JsonView::Bool(false)),
        ("stream"@, JsonView::Bool(stream)),
        ("tool_choice"@, JsonView::Text("auto"@)),
        ("tools"@, JsonView::List(Seq::empty())),
    ];
    JsonView::Object(start + limit + end)
}

fn text_member(key: &str, value: &str) -> (r: (String, Json))
    ensures
        r.0@ == key@,
        r.1@ == JsonView::Text(value@),
{
    (key.to_string(), Json::Text(value.to_string()))
}

/// What the members of an object are.
pub open spec fn member_views(members: Seq<(String, Json)>) -> Seq<(Seq<char>, JsonView)> {
    members.map_values(|member: (String, Json)| (member.0@, member.1@))
}

fn object(members: Vec<(String, Json)>) -> (r: Json)
    ensures
        r@ == JsonView::Object(member_views(members@)),
{
    let r = Json::Object(members);
    assert(r@->Object_0 =~= member_views(members@));
    r
}

fn list_of_one(item: Json) -> (r: Json)
    ensures
        r@ == JsonView::List(seq![item@]),
{
    let mut items: Vec<Json> = Vec::new();
    items.push(item);
    let r = Json::List(items);
    assert(r@->List_0 =~= seq![item@]);
    r
}

/// The request that warms an account up.
pub fn build_warmup_payload(stream: bool, include_max_output_tokens: bool) -> (r: Json)
    ensures
        r@ == warmup_request(stream, include_max_output_tokens),
{
    let mut content: Vec<(String, Json)> = Vec::new();
    content.push(text_member("text", "Hi"));
    content.push(text_member("type", "input_text"));
    assert(member_views(content@) =~= seq![
        ("text"@, JsonView::Text("Hi"@)),
        ("type"@, JsonView::Text("input_text"@)),
    ]);
    let content = object(content);
    let mut message: Vec<(String, Json)> = Vec::new();
    message.push(("content".to_string(), list_of_one(content)));
    message.push(text_member("role", "user"));
    message.push(text_member("type", "message"));
    assert(member_views(message@) =~= seq![
        ("content"@, JsonView::List(seq![content@])),
        ("role"@, JsonView::Text("user"@)),
        ("type"@, JsonView::Text("message"@)),
    ]);
    let message = object(message);
    let mut effort: Vec<(String, Json)> = Vec::new();
    effort.push(text_member("effort", "low"));
    assert(member_views(effort@) =~= seq![("effort"@, JsonView::Text("low"@))]);
    let effort = object(effort);
    let mut members: Vec<(String, Json)> = Vec::new();
    members.push(("input".to_string(), list_of_one(message)));
    members.push(text_member("instructions", "You are Codex."));
    if include_max_output_tokens {
        members.push(("max_output_tokens".to_string(), Json::Number(Some(1))));
    }
    members.push(text_member("model", "gpt-5.4-mini"));
    members.push(("parallel_tool_calls".to_string(), Json::Bool(false)));
    members.push(("reasoning".to_string(), effort));
    members.push(("store".to_string(), Json::Bool(false)));
    members.push(("stream".to_string(), Json::Bool(stream)));
    members.push(text_member("tool_choice", "auto"));
    let tools = Json::List(Vec::new());
    assert(tools@->List_0 =~= Seq::<JsonView>::empty());
    members.push(("tools".to_string(), tools));
    let r = object(members);
    assert(r@->Object_0 =~= warmup_request(stream, include_max_output_tokens)->Object_0);
    r
}

// ---------------------------------------------------------------------------
// Texts in a document
// ---------------------------------------------------------------------------

/// A member that holds text of the answer.
pub open spec fn is_text_key(key: Seq<char>) -> bool {
    key == "text"@ || key == "delta"@ || key == "output_text"@
}

/// The last text that a walk through a document comes across, or `before` where
/// there is none: that of a member which holds text, and is not empty. A member is
/// looked at before what lies below it.
pub open spec fn last_text(value: JsonView, before: Option<Seq<char>>) -> Option<Seq<char>>
    decreases value, 0nat,
{
    match value {
        JsonView::Object(members) => last_in_members(members, members.len(), before),
        JsonView::List(items) => last_in_items(items, items.len(), before),
        _ => before,
    }
}

/// The last text in the first `upto` items.
pub open spec fn last_in_items(
    items: Seq<JsonView>,
    upto: nat,
    before: Option<Seq<char>>,
) -> Option<Seq<char>>
    decreases items, upto,
{
    if upto == 0 || upto > items.len() {
        before
    } else {
        last_text(items[upto - 1], last_in_items(items, (upto - 1) as nat, before))
    }
}

/// The text of a member, where it holds text of the answer.
pub open spec fn text_of_member(
    key: Seq<char>,
    value: JsonView,
    before: Option<Seq<char>>,
) -> Option<Seq<char>> {
    match value {
        JsonView::Text(s) if is_text_key(key) && s.len() > 0 => Some(s),
        _ => before,
    }
}

/// The last text in the first `upto` members.
pub open spec fn last_in_members(
    members: Seq<(Seq<char>, JsonView)>,
    upto: nat,
    before: Option<Seq<char>>,
) -> Option<Seq<char>>
    decreases members, upto,
{
    if upto == 0 || upto > members.len() {
        before
    } else {
        let so_far = last_in_members(members, (upto - 1) as nat, before);
        let (key, value) = members[upto - 1];
        last_text(members[upto - 1].1, text_of_member(key, value, so_far))
    }
}

/// The last text that a walk through a document comes across, or `last`.
pub fn collect_last_text(value: &Json, last: Option<String>) -> (r: Option<String>)
    ensures
        text::opt_text(r) == last_text(value@, text::opt_text(last)),
    decreases value,
{
    match value {
        Json::Object(members) => {
            let ghost all = value@->Object_0;
            let ghost before = text::opt_text(last);
            let mut last = last;
            let mut i: usize = 0;
            while i < members.len()
                invariant
                    *value == Json::Object(*members),
                    value@ == JsonView::Object(all),
                    all.len() == members@.len(),
                    i <= members@.len(),
                    text::opt_text(last) == last_in_members(all, i as nat, before),
                decreases members@.len() - i,
            {
                assert(all[i as int] == (members@[i as int].0@, members@[i as int].1@));
                let key = members[i].0.as_str();
                if text::same(key, "text") || text::same(key, "delta") || text::same(
                    key,
                    "output_text",
                ) {
                    if let Json::Text(s) = &members[i].1 {
                        if !s.as_str().is_empty() {
                            last = Some(s.clone());
                        }
                    }
                }
                last = collect_last_text(&members[i].1, last);
                i = i + 1;
            }
            last
        },
        Json::List(items) => {
            let ghost all = value@->List_0;
            let ghost before = text::opt_text(last);
            let mut last = last;
            let mut i: usize = 0;
            while i < items.len()
                invariant
                    *value == Json::List(*items),
                    value@ == JsonView::List(all),
                    all.len() == items@.len(),
                    i <= items@.len(),
                    text::opt_text(last) == last_in_items(all, i as nat, before),
                decreases items@.len() - i,
            {
                assert(all[i as int] == items@[i as int]@);
                last = collect_last_text(&items[i], last);
                i = i + 1;
            }
            last
        },
        _ => last,
    }
}

/// The last text in a document.
pub fn extract_last_text_from_value(value: &Json) -> (r: Option<String>)
    ensures
        text::opt_text(r) == last_text(value@, None),
{
    collect_last_text(value, None)
}

/// The last text in the document that a body is.
pub open spec fn json_text(body: Seq<char>) -> Option<Seq<char>> {
    match json::json_document(vstd::utf8::encode_utf8(body)) {
        Some(document) => last_text(document, None),
        None => None,
    }
}

/// The last text in the document that a body is.
pub fn extract_text_from_json(body: &str) -> (r: Option<String>)
    ensures
        text::opt_text(r) == json_text(body@),
{
    match json::parse_json(body.as_bytes()) {
        Some(document) => extract_last_text_from_value(&document),
        None => None,
    }
}

// ---------------------------------------------------------------------------
// Event streams
// ---------------------------------------------------------------------------

/// `s` without the copies of `part` at its front.
pub open spec fn stripped(s: Seq<char>, part: Seq<char>) -> Seq<char>
    decreases s.len(),
{
    if part.len() > 0 && text::starts_with_of(s, part) {
        stripped(s.skip(part.len() as int), part)
    } else {
        s
    }
}

fn strip_all(s: &str, part: &str) -> (r: String)
    requires
        part@.len() > 0,
    ensures
        r@ == stripped(s@, part@),
{
    let mut rest = s.to_string();
    let ghost goal = stripped(s@, part@);
    loop
        invariant
            part@.len() > 0,
            goal == stripped(s@, part@),
            goal == stripped(rest@, part@),
        decreases rest@.len(),
    {
        match text::strip_prefix_text(rest.as_str(), part) {
            Some(shorter) => {
                rest = shorter;
            },
            None => {
                return rest;
            },
        }
    }
}

/// The data that a line of an event stream carries.
pub open spec fn event_data(line: Seq<char>) -> Option<Seq<char>> {
    let trimmed = text::trim_of(line);
    if !text::starts_with_of(trimmed, "data:"@) {
        None
    } else {
        let data = text::trim_of(stripped(trimmed, "data:"@));
        if data.len() == 0 || data == "[DONE]"@ {
            None
        } else {
            Some(data)
        }
    }
}

/// The data that a line of an event stream carries.
pub fn sse_data(line: &str) -> (r: Option<String>)
    ensures
        text::opt_text(r) == event_data(line@),
{
    let trimmed = text::trim(line);
    if !text::starts_with_text(trimmed.as_str(), "data:") {
        return None;
    }
    proof {
        reveal_strlit("data:");
    }
    let rest = strip_all(trimmed.as_str(), "data:");
    let data = text::trim(rest.as_str());
    if data.as_str().is_empty() || text::same(data.as_str(), "[DONE]") {
        None
    } else {
        Some(data)
    }
}

/// The last text in the data of the lines.
pub open spec fn last_event_text(lines: Seq<Seq<char>>) -> Option<Seq<char>>
    decreases lines.len(),
{
    if lines.len() == 0 {
        None
    } else {
        let before = last_event_text(lines.drop_last());
        match event_data(lines.last()) {
            None => before,
            Some(data) => match json_text(data) {
                Some(text) => Some(text),
                None => before,
            },
        }
    }
}

/// The last text that an event stream carries, where it is not blank.
pub open spec fn sse_text(body: Seq<char>) -> Option<Seq<char>> {
    match last_event_text(words::lines_of(body)) {
        Some(last) if !text::blank(last) => Some(last),
        _ => None,
    }
}

/// The last text that an event stream carries, where it is not blank.
pub fn extract_text_from_sse(body: &str) -> (r: Option<String>)
    ensures
        text::opt_text(r) == sse_text(body@),
{
    let lines = words::lines(body);
    let ghost all = words::lines_of(body@);
    let mut last: Option<String> = None;
    let mut i: usize = 0;
    assert(all.take(0) =~= Seq::<Seq<char>>::empty());
    while i < lines.len()
        invariant
            text::texts(lines@) == all,
            i <= lines@.len(),
            text::opt_text(last) == last_event_text(all.take(i as int)),
        decreases lines@.len() - i,
    {
        proof {
            assert(lines@[i as int]@ == all[i as int]);
            assert(all.take(i + 1).drop_last() =~= all.take(i as int));
        }
        if let Some(data) = sse_data(lines[i].as_str()) {
            if let Some(found) = extract_text_from_json(data.as_str()) {
                last = Some(found);
            }
        }
        i = i + 1;
    }
    assert(all.take(all.len() as int) =~= all);
    match last {
        Some(last) => {
            if text::is_blank(last.as_str()) {
                None
            } else {
                Some(last)
            }
        },
        None => None,
    }
}

// ---------------------------------------------------------------------------
// Previews
// ---------------------------------------------------------------------------

/// A text that takes at most `max_len` bytes, or its first `max_len` bytes and three
/// dots.
pub open spec fn preview(s: Seq<char>, max_len: int) -> Seq<char> {
    let bytes = vstd::utf8::encode_utf8(s);
    if bytes.len() <= max_len {
        s
    } else {
        vstd::utf8::decode_utf8(bytes.subrange(0, max_len)) + "..."@
    }
}

/// The start of a text, for a preview. A text that is cut must not be cut within a
/// character.
pub fn truncate_text(text: &str, max_len: usize) -> (r: String)
    requires
        vstd::utf8::encode_utf8(text@).len() > max_len ==> vstd::utf8::is_char_boundary(
            vstd::utf8::encode_utf8(text@),
            max_len as int,
        ),
    ensures
        r@ == preview(text@, max_len as int),
{
    if text.as_bytes().len() <= max_len {
        return text.to_string();
    }
    let (head, _) = text.split_at(max_len);
    proof {
        vstd::utf8::encode_utf8_decode_utf8(head@);
    }
    crate::text::joined(head, "...")
}

// ---------------------------------------------------------------------------
// What holds of the request and of what is read
// ---------------------------------------------------------------------------

/// The request names the small model and streams the answer exactly where that is asked
/// for. Only where that is asked for too, it limits the answer to one token.
pub proof fn law_request_asks_for_little(stream: bool, include_max_output_tokens: bool)
    ensures
        ({
            let request = warmup_request(stream, include_max_output_tokens);
            &&& request.member("model"@) == Some(JsonView::Text("gpt-5.4-mini"@))
            &&& request.member("stream"@) == Some(JsonView::Bool(stream))
            &&& request.member("store"@) == Some(JsonView::Bool(false))
            &&& include_max_output_tokens ==> request.member("max_output_tokens"@) == Some(
                JsonView::Number(Some(1i64)),
            )
            &&& !include_max_output_tokens ==> request.member("max_output_tokens"@) is None
        }),
{
    let members = warmup_request(stream, include_max_output_tokens)->Object_0;
    let shift: int = if include_max_output_tokens {
        1
    } else {
        0
    };
    reveal_strlit("input");
    reveal_strlit("instructions");
    reveal_strlit("max_output_tokens");
    reveal_strlit("model");
    reveal_strlit("parallel_tool_calls");
    reveal_strlit("reasoning");
    reveal_strlit("store");
    reveal_strlit("stream");
    reveal_strlit("tool_choice");
    reveal_strlit("tools");
    assert("input"@.len() == 5 && "model"@.len() == 5 && "store"@.len() == 5 && "tools"@.len() == 5);
    assert("instructions"@.len() == 12 && "max_output_tokens"@.len() == 17);
    assert("parallel_tool_calls"@.len() == 19 && "reasoning"@.len() == 9);
    assert("stream"@.len() == 6 && "tool_choice"@.len() == 11);
    assert("input"@[0] != "model"@[0]);
    assert("input"@[0] != "store"@[0]);
    assert("model"@[0] != "store"@[0]);
    assert(members.len() == 9 + shift);
    assert(members[0].0 == "input"@);
    assert(members[1].0 == "instructions"@);
    assert(include_max_output_tokens ==> members[2] == (
        "max_output_tokens"@,
        JsonView::Number(Some(1i64)),
    ));
    assert(members[2 + shift] == ("model"@, JsonView::Text("gpt-5.4-mini"@)));
    assert(members[3 + shift].0 == "parallel_tool_calls"@);
    assert(members[4 + shift].0 == "reasoning"@);
    assert(members[5 + shift] == ("store"@, JsonView::Bool(false)));
    assert(members[6 + shift] == ("stream"@, JsonView::Bool(stream)));
    assert(members[7 + shift].0 == "tool_choice"@);
    assert(members[8 + shift].0 == "tools"@);
    assert forall|j: int| 0 <= j < 6 + shift implies (#[trigger] members[j]).0 != "stream"@ by {
        assert(j == 0 || j == 1 || j == 2 || j == 3 || j == 4 || j == 5 || j == 6);
    }
    assert forall|j: int| 0 <= j < 5 + shift implies (#[trigger] members[j]).0 != "store"@ by {
        assert(j == 0 || j == 1 || j == 2 || j == 3 || j == 4 || j == 5);
    }
    assert forall|j: int| 0 <= j < 2 + shift implies (#[trigger] members[j]).0 != "model"@ by {
        assert(j == 0 || j == 1 || j == 2);
    }
    if !include_max_output_tokens {
        assert forall|j: int| 0 <= j < members.len() implies (#[trigger] members[j]).0
            != "max_output_tokens"@ by {
            assert(j == 0 || j == 1 || j == 2 || j == 3 || j == 4 || j == 5 || j == 6 || j == 7 || j
                == 8);
        }
    }
    json::law_members_are_found_by_key(members, "model"@, 2 + shift);
    json::law_members_are_found_by_key(members, "store"@, 5 + shift);
    json::law_members_are_found_by_key(members, "stream"@, 6 + shift);
    json::law_members_are_found_by_key(members, "max_output_tokens"@, 2);
}

proof fn lemma_members_before(
    members: Seq<(Seq<char>, JsonView)>,
    member: (Seq<char>, JsonView),
    upto: nat,
    before: Option<Seq<char>>,
)
    requires
        upto <= members.len(),
    ensures
        last_in_members(members.push(member), upto, before) == last_in_members(
            members,
            upto,
            before,
        ),
    decreases upto,
{
    if upto > 0 {
        lemma_members_before(members, member, (upto - 1) as nat, before);
        assert(members.push(member)[upto - 1] == members[upto - 1]);
    }
}

proof fn lemma_items_before(
    items: Seq<JsonView>,
    item: JsonView,
    upto: nat,
    before: Option<Seq<char>>,
)
    requires
        upto <= items.len(),
    ensures
        last_in_items(items.push(item), upto, before) == last_in_items(items, upto, before),
    decreases upto,
{
    if upto > 0 {
        lemma_items_before(items, item, (upto - 1) as nat, before);
        assert(items.push(item)[upto - 1] == items[upto - 1]);
    }
}

/// The last text of the answer in an object is that of its last member, where this is
/// called `text`, `delta` or `output_text` and is a text that is not empty.
pub proof fn law_last_member_holds_the_text(
    members: Seq<(Seq<char>, JsonView)>,
    key: Seq<char>,
    s: Seq<char>,
    before: Option<Seq<char>>,
)
    requires
        key == "text"@ || key == "delta"@ || key == "output_text"@,
        s.len() > 0,
    ensures
        last_text(JsonView::Object(members.push((key, JsonView::Text(s)))), before) == Some(s),
{
    let all = members.push((key, JsonView::Text(s)));
    lemma_members_before(members, (key, JsonView::Text(s)), members.len(), before);
    let so_far = last_in_members(members, members.len(), before);
    assert(text_of_member(key, JsonView::Text(s), so_far) == Some(s));
    assert(last_text(JsonView::Text(s), Some(s)) == Some(s));
    assert(last_in_members(all, all.len(), before) == Some(s));
}

/// Any other member of an object counts by what lies below it, after the members before
/// it; a text under another name does not count, nor does an empty one.
pub proof fn law_other_members_are_looked_through(
    members: Seq<(Seq<char>, JsonView)>,
    key: Seq<char>,
    value: JsonView,
    before: Option<Seq<char>>,
)
    requires
        value is Text ==> value->Text_0.len() == 0 || (key != "text"@ && key != "delta"@ && key
            != "output_text"@),
    ensures
        last_text(JsonView::Object(members.push((key, value))), before) == last_text(
            value,
            last_text(JsonView::Object(members), before),
        ),
        last_text(JsonView::Object(Seq::empty()), before) == before,
{
    lemma_members_before(members, (key, value), members.len(), before);
}

/// The items of a list count one after the other, and a value that is neither a list nor
/// an object holds no text of the answer by itself.
pub proof fn law_items_are_looked_through(
    items: Seq<JsonView>,
    item: JsonView,
    before: Option<Seq<char>>,
)
    ensures
        last_text(JsonView::List(items.push(item)), before) == last_text(
            item,
            last_text(JsonView::List(items), before),
        ),
        last_text(JsonView::List(Seq::empty()), before) == before,
        !(item is List) && !(item is Object) ==> last_text(item, before) == before,
{
    lemma_items_before(items, item, items.len(), before);
}

/// A line of an event stream carries what stands behind `data:`, apart from the mark of
/// the end of the stream. A line that starts otherwise carries nothing.
pub proof fn law_lines_carry_data(line: Seq<char>, data: Seq<char>)
    ensures
        !text::starts_with_of(text::trim_of(line), "data:"@) ==> event_data(line) is None,
        text::trim_of(line) == "data:"@ + data && !text::starts_with_of(data, "data:"@) ==> {
            &&& text::trim_of(data).len() == 0 || text::trim_of(data) == "[DONE]"@ ==> event_data(
                line,
            ) is None
            &&& text::trim_of(data).len() > 0 && text::trim_of(data) != "[DONE]"@ ==> event_data(
                line,
            ) == Some(text::trim_of(data))
        },
{
    reveal_strlit("data:");
    let mark = "data:"@;
    let trimmed = text::trim_of(line);
    if trimmed == mark + data && !text::starts_with_of(data, mark) {
        assert(trimmed.subrange(0, mark.len() as int) =~= mark);
        assert(text::starts_with_of(trimmed, mark));
        assert(trimmed.skip(mark.len() as int) =~= data);
        assert(stripped(data, mark) == data);
        assert(stripped(trimmed, mark) == data);
    }
}

/// The last line of an event stream whose data holds text of the answer counts; one that
/// carries no data, or data without such text, does not change what came before.
pub proof fn law_last_event_counts(lines: Seq<Seq<char>>, line: Seq<char>)
    ensures
        last_event_text(Seq::empty()) is None,
        event_data(line) matches Some(data) && json_text(data) is Some ==> last_event_text(
            lines.push(line),
        ) == json_text(event_data(line)->0),
        event_data(line) matches Some(data) && json_text(data) is None ==> last_event_text(
            lines.push(line),
        ) == last_event_text(lines),
        event_data(line) is None ==> last_event_text(lines.push(line)) == last_event_text(lines),
{
    assert(lines.push(line).drop_last() =~= lines);
}

/// What is read from an event stream is never blank, and a last text that is not blank is
/// read.
pub proof fn law_blank_texts_are_not_read(body: Seq<char>)
    ensures
        sse_text(body) matches Some(last) ==> !text::blank(last) && last_event_text(
            words::lines_of(body),
        ) == Some(last),
        last_event_text(words::lines_of(body)) matches Some(last) && !text::blank(last)
            ==> sse_text(body) is Some,
{
}

/// A text that fits is shown whole. One that does not ends with three dots behind its
/// first bytes.
pub proof fn law_previews_are_cut(s: Seq<char>, max_len: int)
    requires
        0 <= max_len,
    ensures
        vstd::utf8::encode_utf8(s).len() <= max_len ==> preview(s, max_len) == s,
        vstd::utf8::encode_utf8(s).len() > max_len ==> preview(s, max_len)
            == vstd::utf8::decode_utf8(vstd::utf8::encode_utf8(s).take(max_len)) + "..."@,
{
    if vstd::utf8::encode_utf8(s).len() > max_len {
        assert(vstd::utf8::encode_utf8(s).subrange(0, max_len) =~= vstd::utf8::encode_utf8(s).take(
            max_len,
        ));
    }
}

} // verus!
