//! What the transports tell their peers.
//!
//! A transport gets the events of a subscription one by one, or the news
//! that it has fallen behind by some of them. Which events a peer is told,
//! and in what shape, is decided here.
use vstd::prelude::*;
use crate::json::{
    count_value, int_value, item_views, list_value, new_members, no_members, object_value,
    put_member, text_value, value_view, JsonView,
};
use crate::session::{Event, EventView};
use crate::text::{chars_of, decimal, decimal_text, push_char, string_of, word_at};

verus! {

/// The events that a peer wants to be told.
#[derive(Debug, Copy, Clone, PartialEq, Eq)]
pub struct Subscription {
    pub init: bool,
    pub snapshot: bool,
    pub resize: bool,
    pub output: bool,
}

impl Subscription {
    /// No event at all.
    pub open spec fn none() -> Subscription {
        Subscription { init: false, snapshot: false, resize: false, output: false }
    }

    /// The events of either.
    pub open spec fn with(self, other: Subscription) -> Subscription {
        Subscription {
            init: self.init || other.init,
            snapshot: self.snapshot || other.snapshot,
            resize: self.resize || other.resize,
            output: self.output || other.output,
        }
    }

    /// Whether events of this kind are wanted.
    pub open spec fn covers(self, event: EventView) -> bool {
        match event {
            EventView::Init(_, _, _, _, _, _) => self.init,
            EventView::Output(_, _) => self.output,
            EventView::Resize(_, _, _) => self.resize,
            EventView::Snapshot(_, _, _, _) => self.snapshot,
        }
    }

    /// Whether events of this kind are wanted.
    pub fn wants(&self, event: &Event) -> (wanted: bool)
        ensures
            wanted == self.covers(event@),
    {
        match event {
            Event::Init(_, _, _, _, _, _) => self.init,
            Event::Output(_, _) => self.output,
            Event::Resize(_, _, _) => self.resize,
            Event::Snapshot(_, _, _, _) => self.snapshot,
        }
    }
}

impl Default for Subscription {
    /// The subscription that wants no event.
    fn default() -> (sub: Subscription)
        ensures
            sub == Subscription::none(),
    {
        Subscription { init: false, snapshot: false, resize: false, output: false }
    }
}

impl std::str::FromStr for Subscription {
    type Err = String;

    /// Reads a list of event names with commas between them, as `parse`
    /// does.
    fn from_str(text: &str) -> (result: Result<Subscription, String>)
        ensures
            is_subscription(result, subscription_of(text@)),
    {
        Subscription::parse(text)
    }
}

/// The kind of event that a name stands for.
pub open spec fn event_named(name: Seq<char>) -> Option<Subscription> {
    if name == "init"@ {
        Some(Subscription { init: true, ..Subscription::none() })
    } else if name == "output"@ {
        Some(Subscription { output: true, ..Subscription::none() })
    } else if name == "resize"@ {
        Some(Subscription { resize: true, ..Subscription::none() })
    } else if name == "snapshot"@ {
        Some(Subscription { snapshot: true, ..Subscription::none() })
    } else {
        None
    }
}

/// Where the first piece of a text ends: at the first separator, or at
/// the end of the text.
pub open spec fn piece_end(text: Seq<char>, sep: char) -> nat
    decreases text.len(),
{
    if text.len() == 0 || text[0] == sep {
        0
    } else {
        1 + piece_end(text.skip(1), sep)
    }
}

/// The subscription that a list of event names, with commas between them,
/// stands for. A piece that names no event is an error, the first such
/// piece from the left; so is the empty text, whose one piece is empty.
pub open spec fn subscription_of(text: Seq<char>) -> Result<Subscription, Seq<char>>
    decreases text.len(),
{
    let end = piece_end(text, ',');
    let piece = text.take(end as int);
    match event_named(piece) {
        None => Err("invalid event name: "@ + piece),
        Some(kind) => if end >= text.len() {
            Ok(kind)
        } else {
            match subscription_of(text.skip(end as int + 1)) {
                Ok(rest) => Ok(kind.with(rest)),
                Err(error) => Err(error),
            }
        },
    }
}

/// Whether a result is the given one, text by text.
pub open spec fn is_subscription(
    got: Result<Subscription, String>,
    expected: Result<Subscription, Seq<char>>,
) -> bool {
    match got {
        Ok(sub) => expected == Ok::<Subscription, Seq<char>>(sub),
        Err(error) => expected == Err::<Subscription, Seq<char>>(error@),
    }
}

/// The first piece ends where the first separator stands.
proof fn lemma_piece_end(text: Seq<char>, sep: char, n: nat)
    requires
        n <= text.len(),
        forall|k: int| 0 <= k < n ==> text[k] != sep,
        n == text.len() || text[n as int] == sep,
    ensures
        piece_end(text, sep) == n,
    decreases n,
{
    if n > 0 {
        let rest = text.skip(1);
        assert forall|k: int| 0 <= k < n - 1 implies rest[k] != sep by {
            assert(rest[k] == text[k + 1]);
        }
        lemma_piece_end(rest, sep, (n - 1) as nat);
    }
}

/// The kind of event that a piece of a text names.
fn event_at(piece: &Vec<char>) -> (kind: Option<Subscription>)
    ensures
        kind == event_named(piece@),
{
    let none = Subscription { init: false, snapshot: false, resize: false, output: false };
    assert(piece@.skip(0) =~= piece@);
    if word_at(piece, 0, "init") {
        Some(Subscription { init: true, ..none })
    } else if word_at(piece, 0, "output") {
        Some(Subscription { output: true, ..none })
    } else if word_at(piece, 0, "resize") {
        Some(Subscription { resize: true, ..none })
    } else if word_at(piece, 0, "snapshot") {
        Some(Subscription { snapshot: true, ..none })
    } else {
        None
    }
}

impl Subscription {
    /// Reads a list of event names with commas between them.
    pub fn parse(text: &str) -> (result: Result<Subscription, String>)
        ensures
            is_subscription(result, subscription_of(text@)),
    {
        let chars = chars_of(text);
        let mut sub = Subscription { init: false, snapshot: false, resize: false, output: false };
        let mut start: usize = 0;
        assert(chars@.skip(0) =~= chars@);
        loop
            invariant
                start <= chars.len(),
                chars@ == text@,
                subscription_of(chars@) == match subscription_of(chars@.skip(start as int)) {
                    Ok(rest) => Ok::<Subscription, Seq<char>>(sub.with(rest)),
                    Err(error) => Err(error),
                },
            decreases chars.len() - start,
        {
            let ghost rest = chars@.skip(start as int);
            let mut piece: Vec<char> = Vec::new();
            let mut end: usize = start;
            while end < chars.len() && chars[end] != ','
                invariant
                    start <= end <= chars.len(),
                    piece@ == chars@.subrange(start as int, end as int),
                    forall|k: int| start <= k < end ==> chars@[k] != ',',
                decreases chars.len() - end,
            {
                piece.push(chars[end]);
                assert(chars@.subrange(start as int, end + 1) =~= chars@.subrange(
                    start as int,
                    end as int,
                ).push(chars@[end as int]));
                end += 1;
            }
            proof {
                assert forall|k: int| 0 <= k < end - start implies rest[k] != ',' by {
                    assert(rest[k] == chars@[start + k]);
                }
                lemma_piece_end(rest, ',', (end - start) as nat);
                assert(rest.take(end - start) =~= piece@);
                if end < chars.len() {
                    assert(rest.skip(end - start + 1) =~= chars@.skip(end + 1));
                }
            }
            match event_at(&piece) {
                None => {
                    let mut error = "invalid event name: ".to_owned();
                    error.append(string_of(&piece).as_str());
                    return Err(error);
                },
                Some(kind) => {
                    sub = Subscription {
                        init: sub.init || kind.init,
                        snapshot: sub.snapshot || kind.snapshot,
                        resize: sub.resize || kind.resize,
                        output: sub.output || kind.output,
                    };
                },
            }
            if end >= chars.len() {
                return Ok(sub);
            }
            start = end + 1;
        }
    }
}

/// The JSON form of an event: an object with the kind of the event as
/// `type` and what the event holds, without its time, as `data`.
pub open spec fn event_json(event: EventView) -> JsonView {
    match event {
        EventView::Init(_, cols, rows, pid, seq, text) => message_json(
            "init"@,
            no_members().insert("cols"@, JsonView::Number(cols as int)).insert(
                "rows"@,
                JsonView::Number(rows as int),
            ).insert("pid"@, JsonView::Number(pid as int)).insert("seq"@, JsonView::Text(seq)).insert(
                "text"@,
                JsonView::Text(text),
            ),
        ),
        EventView::Output(_, data) => message_json(
            "output"@,
            no_members().insert("seq"@, JsonView::Text(data)),
        ),
        EventView::Resize(_, cols, rows) => message_json(
            "resize"@,
            no_members().insert("cols"@, JsonView::Number(cols as int)).insert(
                "rows"@,
                JsonView::Number(rows as int),
            ),
        ),
        EventView::Snapshot(cols, rows, seq, text) => message_json(
            "snapshot"@,
            no_members().insert("cols"@, JsonView::Number(cols as int)).insert(
                "rows"@,
                JsonView::Number(rows as int),
            ).insert("seq"@, JsonView::Text(seq)).insert("text"@, JsonView::Text(text)),
        ),
    }
}

/// A message of the given kind with the given data.
pub open spec fn message_json(kind: Seq<char>, data: Map<Seq<char>, JsonView>) -> JsonView {
    JsonView::Object(
        no_members().insert("type"@, JsonView::Text(kind)).insert("data"@, JsonView::Object(data)),
    )
}

/// Writes a message of the given kind with the given data.
fn message(kind: &str, data: serde_json::Map<String, serde_json::Value>) -> (json:
    serde_json::Value)
    ensures
        value_view(json) == message_json(kind@, crate::json::map_view(data)),
{
    let mut members = new_members();
    put_member(&mut members, "type", text_value(kind.to_owned()));
    put_member(&mut members, "data", object_value(data));
    object_value(members)
}

impl Event {
    /// The JSON form of the event.
    pub fn to_json(&self) -> (json: serde_json::Value)
        ensures
            value_view(json) == event_json(self@),
    {
        let mut data = new_members();
        match self {
            Event::Init(_time, cols, rows, pid, seq, text) => {
                put_member(&mut data, "cols", count_value(*cols as u64));
                put_member(&mut data, "rows", count_value(*rows as u64));
                put_member(&mut data, "pid", int_value(*pid as i64));
                put_member(&mut data, "seq", text_value(seq.clone()));
                put_member(&mut data, "text", text_value(text.clone()));
                message("init", data)
            },
            Event::Output(_time, seq) => {
                put_member(&mut data, "seq", text_value(seq.clone()));
                message("output", data)
            },
            Event::Resize(_time, cols, rows) => {
                put_member(&mut data, "cols", count_value(*cols as u64));
                put_member(&mut data, "rows", count_value(*rows as u64));
                message("resize", data)
            },
            Event::Snapshot(cols, rows, seq, text) => {
                put_member(&mut data, "cols", count_value(*cols as u64));
                put_member(&mut data, "rows", count_value(*rows as u64));
                put_member(&mut data, "seq", text_value(seq.clone()));
                put_member(&mut data, "text", text_value(text.clone()));
                message("snapshot", data)
            },
        }
    }
}

/// What the event stream tells a peer for an item of its subscription:
/// the JSON form of an event that the peer wants, nothing for an event
/// that it does not want, and a failure where events were missed.
pub open spec fn event_message(item: Result<EventView, u64>, sub: Subscription) -> Option<
    Result<JsonView, u64>,
> {
    match item {
        Ok(event) => if sub.covers(event) {
            Some(Ok(event_json(event)))
        } else {
            None
        },
        Err(missed) => Some(Err(missed)),
    }
}

/// What the event stream tells a peer for an item of its subscription.
/// The item is an event, or the number of events that were missed.
pub fn event_stream_message(item: Result<Event, u64>, sub: Subscription) -> (message: Option<
    Result<serde_json::Value, u64>,
>)
    ensures
        match item {
            Ok(event) => match message {
                Some(Ok(json)) => event_message(Ok(event@), sub) == Some(
                    Ok::<JsonView, u64>(value_view(json)),
                ),
                Some(Err(_)) => false,
                None => event_message(Ok(event@), sub) is None,
            },
            Err(missed) => message matches Some(Err(n)) && n == missed,
        },
{
    match item {
        Ok(event) => {
            if sub.wants(&event) {
                Some(Ok(event.to_json()))
            } else {
                None
            }
        },
        Err(missed) => Some(Err(missed)),
    }
}

/// The code that a stream is closed with when the session is over: a
/// normal closure.
pub const CLOSE_CODE: u16 = 1000;

/// The reason that a stream is closed with when the session is over.
pub const CLOSE_REASON: &'static str = "ended";

/// A message of the live stream, with its time in nanoseconds.
#[derive(Clone, Debug, PartialEq, Eq)]
pub enum AlisFrame {
    /// The start of the stream: time, size and the dump of the terminal.
    Init { time: u128, cols: usize, rows: usize, init: String },
    /// Output of the child.
    Output { time: u128, data: String },
    /// A resize, with the new size written as columns, `x` and rows.
    Resize { time: u128, size: String },
}

/// A message of the live stream, over the text it holds.
pub enum AlisFrameView {
    Init { time: u128, cols: usize, rows: usize, init: Seq<char> },
    Output { time: u128, data: Seq<char> },
    Resize { time: u128, size: Seq<char> },
}

impl View for AlisFrame {
    type V = AlisFrameView;

    open spec fn view(&self) -> AlisFrameView {
        match *self {
            AlisFrame::Init { time, cols, rows, init } => AlisFrameView::Init {
                time,
                cols,
                rows,
                init: init@,
            },
            AlisFrame::Output { time, data } => AlisFrameView::Output { time, data: data@ },
            AlisFrame::Resize { time, size } => AlisFrameView::Resize { time, size: size@ },
        }
    }
}

impl AlisFrameView {
    /// The time of the message, in nanoseconds.
    pub open spec fn time(self) -> u128 {
        match self {
            AlisFrameView::Init { time, .. } => time,
            AlisFrameView::Output { time, .. } => time,
            AlisFrameView::Resize { time, .. } => time,
        }
    }
}

/// The JSON form of a message of the live stream, with its time as the
/// given value: the start of the stream is an object with `time`, `cols`,
/// `rows` and `init`, and every other message a list of the time, a letter
/// for the kind of message (`o` for output, `r` for a resize) and the data.
pub open spec fn alis_json(frame: AlisFrameView, time: JsonView) -> JsonView {
    match frame {
        AlisFrameView::Init { cols, rows, init, .. } => JsonView::Object(
            no_members().insert("time"@, time).insert("cols"@, JsonView::Number(cols as int)).insert(
                "rows"@,
                JsonView::Number(rows as int),
            ).insert("init"@, JsonView::Text(init)),
        ),
        AlisFrameView::Output { data, .. } => JsonView::List(
            seq![time, JsonView::Text("o"@), JsonView::Text(data)],
        ),
        AlisFrameView::Resize { size, .. } => JsonView::List(
            seq![time, JsonView::Text("r"@), JsonView::Text(size)],
        ),
    }
}

impl AlisFrame {
    /// The time of the message, in nanoseconds.
    pub fn time(&self) -> (time: u128)
        ensures
            time == self@.time(),
    {
        match self {
            AlisFrame::Init { time, .. } => *time,
            AlisFrame::Output { time, .. } => *time,
            AlisFrame::Resize { time, .. } => *time,
        }
    }

    /// The JSON form of the message, with its time as the given value.
    pub fn to_json(&self, time: serde_json::Value) -> (json: serde_json::Value)
        ensures
            value_view(json) == alis_json(self@, value_view(time)),
    {
        match self {
            AlisFrame::Init { cols, rows, init, .. } => {
                let mut members = new_members();
                put_member(&mut members, "time", time);
                put_member(&mut members, "cols", count_value(*cols as u64));
                put_member(&mut members, "rows", count_value(*rows as u64));
                put_member(&mut members, "init", text_value(init.clone()));
                object_value(members)
            },
            AlisFrame::Output { data, .. } => {
                let ghost at = value_view(time);
                let mut items: Vec<serde_json::Value> = Vec::new();
                items.push(time);
                items.push(text_value("o".to_owned()));
                items.push(text_value(data.clone()));
                assert(item_views(items@) =~= seq![
                    at,
                    JsonView::Text("o"@),
                    JsonView::Text(data@),
                ]);
                list_value(items)
            },
            AlisFrame::Resize { size, .. } => {
                let ghost at = value_view(time);
                let mut items: Vec<serde_json::Value> = Vec::new();
                items.push(time);
                items.push(text_value("r".to_owned()));
                items.push(text_value(size.clone()));
                assert(item_views(items@) =~= seq![
                    at,
                    JsonView::Text("r"@),
                    JsonView::Text(size@),
                ]);
                list_value(items)
            },
        }
    }
}

/// A size as the live stream writes it: columns, `x`, rows.
pub open spec fn size_text(cols: usize, rows: usize) -> Seq<char> {
    decimal_text(cols as nat) + seq!['x'] + decimal_text(rows as nat)
}

/// Writes a size as columns, `x`, rows.
pub fn write_size(cols: usize, rows: usize) -> (text: String)
    ensures
        text@ == size_text(cols, rows),
{
    let mut text = decimal(cols);
    push_char(&mut text, 'x');
    text.append(decimal(rows).as_str());
    assert(text@ =~= size_text(cols, rows));
    text
}

/// The message of the live stream for an event; snapshots are not part
/// of the stream.
pub open spec fn alis_frame(event: EventView) -> Option<AlisFrameView> {
    match event {
        EventView::Init(time, cols, rows, _, seq, _) => Some(
            AlisFrameView::Init { time, cols, rows, init: seq },
        ),
        EventView::Output(time, data) => Some(AlisFrameView::Output { time, data }),
        EventView::Resize(time, cols, rows) => Some(
            AlisFrameView::Resize { time, size: size_text(cols, rows) },
        ),
        EventView::Snapshot(_, _, _, _) => None,
    }
}

/// What the live stream tells a peer for an item of its subscription:
/// the message for an event, nothing for a snapshot, and a failure where
/// events were missed.
pub fn alis_message(item: Result<Event, u64>) -> (message: Option<Result<AlisFrame, u64>>)
    ensures
        match item {
            Ok(event) => match message {
                Some(Ok(frame)) => alis_frame(event@) == Some(frame@),
                Some(Err(_)) => false,
                None => alis_frame(event@) is None,
            },
            Err(missed) => message == Some(Err::<AlisFrame, u64>(missed)),
        },
{
    match item {
        Ok(Event::Init(time, cols, rows, _pid, seq, _text)) => Some(
            Ok(AlisFrame::Init { time, cols, rows, init: seq }),
        ),
        Ok(Event::Output(time, data)) => Some(Ok(AlisFrame::Output { time, data })),
        Ok(Event::Resize(time, cols, rows)) => Some(
            Ok(AlisFrame::Resize { time, size: write_size(cols, rows) }),
        ),
        Ok(Event::Snapshot(_, _, _, _)) => None,
        Err(missed) => Some(Err(missed)),
    }
}

/// The media type that goes with a path.
pub uninterp spec fn media_type(path: Seq<char>) -> Seq<char>;

/// Guesses the media type of a file from its path.
///
/// Trusted: this is `mime_guess::from_path` and, on its result,
/// `first_or_octet_stream`: the first media type that the crate's table
/// has for the extension of the path, or `application/octet-stream`. The
/// result depends on the path alone.
#[verifier::external_body]
fn guess_media_type(path: &str) -> (media: String)
    ensures
        media@ == media_type(path@),
{
    mime_guess::from_path(path).first_or_octet_stream().as_ref().to_owned()
}

/// How many of the first characters are slashes.
pub open spec fn leading_slashes(path: Seq<char>) -> nat
    decreases path.len(),
{
    if path.len() == 0 || path[0] != '/' {
        0
    } else {
        1 + leading_slashes(path.skip(1))
    }
}

/// The asset that a request path asks for: the path without the slashes
/// in front, and the index page where nothing is left.
pub open spec fn asset_of(path: Seq<char>) -> Seq<char> {
    let rest = path.skip(leading_slashes(path) as int);
    if rest.len() == 0 {
        "index.html"@
    } else {
        rest
    }
}

proof fn lemma_leading_slashes(path: Seq<char>, n: nat)
    requires
        n <= path.len(),
        forall|k: int| 0 <= k < n ==> path[k] == '/',
        n == path.len() || path[n as int] != '/',
    ensures
        leading_slashes(path) == n,
    decreases n,
{
    if n > 0 {
        let rest = path.skip(1);
        assert forall|k: int| 0 <= k < n - 1 implies rest[k] == '/' by {
            assert(rest[k] == path[k + 1]);
        }
        lemma_leading_slashes(rest, (n - 1) as nat);
    }
}

/// The name of the asset that a request path asks for.
pub fn asset_path(path: &str) -> (asset: String)
    ensures
        asset@ == asset_of(path@),
{
    let chars = chars_of(path);
    let mut start: usize = 0;
    while start < chars.len() && chars[start] == '/'
        invariant
            start <= chars.len(),
            forall|k: int| 0 <= k < start ==> chars@[k] == '/',
        decreases chars.len() - start,
    {
        start += 1;
    }
    proof {
        lemma_leading_slashes(chars@, start as nat);
    }
    if start == chars.len() {
        return "index.html".to_owned();
    }
    let mut rest: Vec<char> = Vec::new();
    let mut i: usize = start;
    while i < chars.len()
        invariant
            start <= i <= chars.len(),
            rest@ == chars@.subrange(start as int, i as int),
        decreases chars.len() - i,
    {
        rest.push(chars[i]);
        assert(chars@.subrange(start as int, i + 1) =~= chars@.subrange(start as int, i as int).push(
            chars@[i as int],
        ));
        i += 1;
    }
    assert(rest@ =~= chars@.skip(start as int));
    string_of(&rest)
}

/// The answer to a request for a static asset.
#[derive(Clone, Debug, PartialEq, Eq)]
pub struct StaticResponse {
    /// The HTTP status.
    pub status: u16,
    /// The media type of the body, where the asset was found.
    pub content_type: Option<String>,
    /// The body.
    pub body: Vec<u8>,
}

/// The status of an answer with the asset.
pub const STATUS_OK: u16 = 200;

/// The status of an answer for an asset that is not there.
pub const STATUS_NOT_FOUND: u16 = 404;

/// Answers a request for the asset of the given name with its content,
/// or with "not found" where there is no such asset.
pub fn static_response(asset: &str, content: Option<Vec<u8>>) -> (response: StaticResponse)
    ensures
        match content {
            Some(data) => {
                &&& response.status == STATUS_OK
                &&& response.content_type matches Some(media)
                &&& media@ == media_type(asset@)
                &&& response.body@ == data@
            },
            None => {
                &&& response.status == STATUS_NOT_FOUND
                &&& response.content_type is None
                &&& response.body@ == seq![0x34u8, 0x30u8, 0x34u8]
            },
        },
{
    match content {
        Some(data) => StaticResponse {
            status: STATUS_OK,
            content_type: Some(guess_media_type(asset)),
            body: data,
        },
        None => {
            let mut body: Vec<u8> = Vec::new();
            body.push(0x34);
            body.push(0x30);
            body.push(0x34);
            assert(body@ =~= seq![0x34u8, 0x30u8, 0x34u8]);
            StaticResponse { status: STATUS_NOT_FOUND, content_type: None, body }
        },
    }
}

} // verus!
