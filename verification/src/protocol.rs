//! The command protocol: requests as JSON objects.
//!
//! A request is an object with a member `type` that is text:
//!
//! - `input`, with text `payload`: send the payload as it is;
//! - `sendKeys`, with a list of text `keys`: send each key, by its name;
//! - `resize`, with counts `cols` and `rows`: resize the terminal;
//! - `snapshot`: announce the screen.
//!
//! Other members are passed over. On the wire a request is one line of
//! text, the JSON notation of the object.
use vstd::prelude::*;
use crate::command::{seq_views, Command, CommandView, InputSeq, SeqView};
use crate::json::{
    all_texts, as_count, as_text, as_texts, count_value, error_text, item_views, list_value,
    member, new_members, no_members, object_value, parse_value, parsed, put_member, text_value,
    value_view, JsonView,
};
use crate::keys::{encode_keys, key_name, key_names, key_seq, key_seqs, lemma_key_name, name_key};
use crate::text::same_text;

verus! {

/// Why a request is no command.
#[derive(Clone, Debug, PartialEq, Eq)]
pub enum RequestError {
    /// The line is no JSON; what is wrong with it, in words.
    Syntax(String),
    /// There is no member `type` that is text.
    MissingType,
    /// The type is none of those that are known.
    UnknownType(String),
    /// An `input` request without a `payload` that is text.
    BadPayload,
    /// A `sendKeys` request without `keys` that are a list of text.
    BadKeys,
    /// A `resize` request without `cols` and `rows` that are counts.
    BadSize,
}

/// An error, over the text it holds.
pub enum RequestErrorView {
    Syntax(Seq<char>),
    MissingType,
    UnknownType(Seq<char>),
    BadPayload,
    BadKeys,
    BadSize,
}

impl View for RequestError {
    type V = RequestErrorView;

    open spec fn view(&self) -> RequestErrorView {
        match *self {
            RequestError::Syntax(text) => RequestErrorView::Syntax(text@),
            RequestError::MissingType => RequestErrorView::MissingType,
            RequestError::UnknownType(kind) => RequestErrorView::UnknownType(kind@),
            RequestError::BadPayload => RequestErrorView::BadPayload,
            RequestError::BadKeys => RequestErrorView::BadKeys,
            RequestError::BadSize => RequestErrorView::BadSize,
        }
    }
}

impl RequestError {
    /// The error in words.
    pub fn message(&self) -> (text: String)
        ensures
            text@ == match self@ {
                RequestErrorView::Syntax(what) => what,
                RequestErrorView::MissingType => "invalid command: no type"@,
                RequestErrorView::UnknownType(kind) => "invalid command type: "@ + kind,
                RequestErrorView::BadPayload => "invalid input command: no payload"@,
                RequestErrorView::BadKeys => "invalid sendKeys command: no keys"@,
                RequestErrorView::BadSize => "invalid resize command: no cols and rows"@,
            },
    {
        match self {
            RequestError::Syntax(what) => what.clone(),
            RequestError::MissingType => "invalid command: no type".to_owned(),
            RequestError::UnknownType(kind) => {
                let mut text = "invalid command type: ".to_owned();
                text.append(kind.as_str());
                text
            },
            RequestError::BadPayload => "invalid input command: no payload".to_owned(),
            RequestError::BadKeys => "invalid sendKeys command: no keys".to_owned(),
            RequestError::BadSize => "invalid resize command: no cols and rows".to_owned(),
        }
    }
}

/// The command that an `input` request asks for.
pub open spec fn input_command(request: JsonView) -> Result<CommandView, RequestErrorView> {
    match request.member("payload"@) {
        Some(JsonView::Text(payload)) => Ok(CommandView::Input(seq![SeqView::Standard(payload)])),
        _ => Err(RequestErrorView::BadPayload),
    }
}

/// The command that a `sendKeys` request asks for.
pub open spec fn keys_command(request: JsonView) -> Result<CommandView, RequestErrorView> {
    match request.member("keys"@) {
        Some(keys) => match keys.as_texts() {
            Some(names) => Ok(CommandView::Input(key_seqs(names))),
            None => Err(RequestErrorView::BadKeys),
        },
        None => Err(RequestErrorView::BadKeys),
    }
}

/// A member that is a count.
pub open spec fn count_member(request: JsonView, name: Seq<char>) -> Option<usize> {
    match request.member(name) {
        Some(value) => value.as_count(),
        None => None,
    }
}

/// The command that a `resize` request asks for.
pub open spec fn resize_command(request: JsonView) -> Result<CommandView, RequestErrorView> {
    match (count_member(request, "cols"@), count_member(request, "rows"@)) {
        (Some(cols), Some(rows)) => Ok(CommandView::Resize(cols, rows)),
        _ => Err(RequestErrorView::BadSize),
    }
}

/// The command that a request asks for, or why it asks for none.
pub open spec fn command_of(request: JsonView) -> Result<CommandView, RequestErrorView> {
    match request.member("type"@) {
        Some(JsonView::Text(kind)) => if kind == "input"@ {
            input_command(request)
        } else if kind == "sendKeys"@ {
            keys_command(request)
        } else if kind == "resize"@ {
            resize_command(request)
        } else if kind == "snapshot"@ {
            Ok(CommandView::Snapshot)
        } else {
            Err(RequestErrorView::UnknownType(kind))
        },
        _ => Err(RequestErrorView::MissingType),
    }
}

/// Whether a result is the given one, view by view.
pub open spec fn is_result(
    got: Result<Command, RequestError>,
    expected: Result<CommandView, RequestErrorView>,
) -> bool {
    match got {
        Ok(command) => expected == Ok::<CommandView, RequestErrorView>(command@),
        Err(error) => expected == Err::<CommandView, RequestErrorView>(error@),
    }
}

fn count_of(request: &serde_json::Value, name: &str) -> (count: Option<usize>)
    ensures
        count == count_member(value_view(*request), name@),
{
    match member(request, name) {
        Some(value) => as_count(value),
        None => None,
    }
}

/// Reads a request.
pub fn build_command(request: &serde_json::Value) -> (result: Result<Command, RequestError>)
    ensures
        is_result(result, command_of(value_view(*request))),
{
    let kind = match member(request, "type") {
        Some(value) => match as_text(value) {
            Some(kind) => kind,
            None => {
                return Err(RequestError::MissingType);
            },
        },
        None => {
            return Err(RequestError::MissingType);
        },
    };
    if same_text(kind.as_str(), "input") {
        match member(request, "payload") {
            Some(value) => match as_text(value) {
                Some(payload) => {
                    let mut seqs: Vec<InputSeq> = Vec::new();
                    let ghost text = payload@;
                    seqs.push(InputSeq::Standard(payload));
                    assert(seq_views(seqs@) =~= seq![SeqView::Standard(text)]);
                    Ok(Command::Input(seqs))
                },
                None => Err(RequestError::BadPayload),
            },
            None => Err(RequestError::BadPayload),
        }
    } else if same_text(kind.as_str(), "sendKeys") {
        match member(request, "keys") {
            Some(value) => match as_texts(value) {
                Some(names) => Ok(Command::Input(encode_keys(&names))),
                None => Err(RequestError::BadKeys),
            },
            None => Err(RequestError::BadKeys),
        }
    } else if same_text(kind.as_str(), "resize") {
        let cols = count_of(request, "cols");
        let rows = count_of(request, "rows");
        match (cols, rows) {
            (Some(cols), Some(rows)) => Ok(Command::Resize(cols, rows)),
            _ => Err(RequestError::BadSize),
        }
    } else if same_text(kind.as_str(), "snapshot") {
        Ok(Command::Snapshot)
    } else {
        Err(RequestError::UnknownType(kind))
    }
}

/// Reads a request from a line of text: a line that is no JSON is an
/// error, and the value of any other line is read as `build_command`
/// reads it.
pub fn parse_line(line: &str) -> (result: Result<Command, RequestError>)
    ensures
        match parsed(line@) {
            Some(request) => is_result(result, command_of(request)),
            None => result matches Err(RequestError::Syntax(_)),
        },
{
    match parse_value(line) {
        Ok(request) => build_command(&request),
        Err(error) => Err(RequestError::Syntax(error_text(&error))),
    }
}

/// Each text as a JSON value, in order.
pub open spec fn text_values(names: Seq<Seq<char>>) -> Seq<JsonView> {
    Seq::new(names.len(), |i: int| JsonView::Text(names[i]))
}

/// The request that asks for a command.
///
/// Input of one standard sequence is asked for by its text. Other input is
/// asked for by a name for each sequence.
pub open spec fn request_of(command: CommandView) -> JsonView {
    match command {
        CommandView::Input(seqs) => if seqs.len() == 1 && seqs[0] is Standard {
            JsonView::Object(
                no_members().insert("type"@, JsonView::Text("input"@)).insert(
                    "payload"@,
                    JsonView::Text(seqs[0]->Standard_0),
                ),
            )
        } else {
            JsonView::Object(
                no_members().insert("type"@, JsonView::Text("sendKeys"@)).insert(
                    "keys"@,
                    JsonView::List(text_values(key_names(seqs))),
                ),
            )
        },
        CommandView::Snapshot => JsonView::Object(
            no_members().insert("type"@, JsonView::Text("snapshot"@)),
        ),
        CommandView::Resize(cols, rows) => JsonView::Object(
            no_members().insert("type"@, JsonView::Text("resize"@)).insert(
                "cols"@,
                JsonView::Number(cols as int),
            ).insert("rows"@, JsonView::Number(rows as int)),
        ),
    }
}

/// Writes the request that asks for a command.
pub fn request_for(command: &Command) -> (request: serde_json::Value)
    ensures
        value_view(request) == request_of(command@),
{
    let mut members = new_members();
    match command {
        Command::Input(seqs) => {
            if seqs.len() == 1 {
                if let InputSeq::Standard(text) = &seqs[0] {
                    put_member(&mut members, "type", text_value("input".to_owned()));
                    put_member(&mut members, "payload", text_value(text.clone()));
                    assert(seq_views(seqs@)[0] == seqs@[0]@);
                    return object_value(members);
                }
            }
            let mut names: Vec<serde_json::Value> = Vec::new();
            let mut i: usize = 0;
            while i < seqs.len()
                invariant
                    i <= seqs.len(),
                    names.len() == i,
                    forall|j: int|
                        0 <= j < i ==> value_view(#[trigger] names@[j]) == JsonView::Text(
                            key_name(seqs@[j]@),
                        ),
                decreases seqs.len() - i,
            {
                let name = name_key(&seqs[i]);
                names.push(text_value(name));
                i += 1;
            }
            assert(item_views(names@) =~= text_values(key_names(seq_views(seqs@))));
            put_member(&mut members, "type", text_value("sendKeys".to_owned()));
            put_member(&mut members, "keys", list_value(names));
            assert(seqs.len() == 1 ==> seq_views(seqs@)[0] == seqs@[0]@);
            object_value(members)
        },
        Command::Snapshot => {
            put_member(&mut members, "type", text_value("snapshot".to_owned()));
            object_value(members)
        },
        Command::Resize(cols, rows) => {
            put_member(&mut members, "type", text_value("resize".to_owned()));
            put_member(&mut members, "cols", count_value(*cols as u64));
            put_member(&mut members, "rows", count_value(*rows as u64));
            object_value(members)
        },
    }
}

/// A list of text holds the texts.
proof fn lemma_all_texts_of_text_values(names: Seq<Seq<char>>)
    ensures
        all_texts(text_values(names)) == Some(names),
    decreases names.len(),
{
    if names.len() > 0 {
        lemma_all_texts_of_text_values(names.drop_last());
        assert(text_values(names).drop_last() =~= text_values(names.drop_last()));
        assert(names.drop_last().push(names.last()) =~= names);
    } else {
        assert(names =~= Seq::empty());
    }
}

/// A command that was read from a request is read again from the request
/// that asks for it.
pub proof fn lemma_request_round_trip(request: JsonView)
    requires
        command_of(request) is Ok,
    ensures
        command_of(request_of(command_of(request)->Ok_0)) == command_of(request),
{
    reveal_strlit("type");
    reveal_strlit("payload");
    reveal_strlit("keys");
    reveal_strlit("cols");
    reveal_strlit("rows");
    reveal_strlit("input");
    reveal_strlit("sendKeys");
    reveal_strlit("resize");
    reveal_strlit("snapshot");
    assert("type"@.len() == 4 && "type"@[0] == 't');
    assert("payload"@.len() == 7);
    assert("keys"@.len() == 4 && "keys"@[0] == 'k');
    assert("cols"@.len() == 4 && "cols"@[0] == 'c');
    assert("rows"@.len() == 4 && "rows"@[0] == 'r');
    let command = command_of(request)->Ok_0;
    match command {
        CommandView::Input(seqs) => {
            if seqs.len() == 1 && seqs[0] is Standard {
                assert(seq![seqs[0]] =~= seqs);
            } else {
                let names = key_names(seqs);
                lemma_all_texts_of_text_values(names);
                let given = request.member("keys"@)->0.as_texts()->0;
                assert(seqs == key_seqs(given));
                assert forall|i: int| 0 <= i < seqs.len() implies key_seq(names[i]) == seqs[i] by {
                    lemma_key_name(given[i]);
                }
                assert(key_seqs(names) =~= seqs);
            }
        },
        CommandView::Snapshot => {},
        CommandView::Resize(cols, rows) => {},
    }
}

} // verus!
