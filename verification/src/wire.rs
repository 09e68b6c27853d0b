//! Lines on the connection: each message is one line of JSON that ends in `\r\n`.
use crate::entries::{entry_map, keys_differ, last_value};
use crate::json::{
    encoded_json, fields_view, params_json, params_view, parsed_json, to_string, Field, Json, Param,
    ParamView,
};
use vstd::prelude::*;
use vstd::utf8::{
    decode_utf8, encode_scalar, encode_utf8, encode_utf8_decode_utf8, encode_utf8_valid_utf8,
    is_ascii_chars_encode_utf8, valid_utf8,
};

verus! {

/// The document that a command is.
pub open spec fn command_json(id: u32, method: Seq<char>, params: Seq<ParamView>) -> Json {
    Json::Object(
        Map::empty().insert("id"@, ParamView::Int(id as int).json()).insert(
            "method"@,
            Json::Text(method),
        ).insert("params"@, params_json(params)),
    )
}

/// The line feed that ends a line, and the carriage return before it.
pub open spec fn line_end() -> Seq<char> {
    seq!['\r', '\n']
}

/// `text` has no line break in it.
pub open spec fn on_one_line(text: Seq<char>) -> bool {
    forall|i: int| 0 <= i < text.len() ==> #[trigger] text[i] != '\r' && text[i] != '\n'
}

/// Writes a command as the line that the bulb expects.
///
/// The line carries exactly the command: what stands before the line end is on one line, and it
/// is a document that says just this id, this method and these parameters.
pub fn write_command(id: u32, method: &str, params: &Vec<Param>) -> (r: Result<
    String,
    serde_json::Error,
>)
    ensures
        r matches Ok(line) && {
            let document = command_json(id, method@, params_view(params@));
            let text = encoded_json(document);
            &&& line@ == text + line_end()
            &&& on_one_line(text)
            &&& parsed_json(text) == Some(document)
        },
{
    let mut fields: Vec<(String, Field<'_>)> = Vec::new();
    fields.push(("id".to_owned(), Field::One(Param::Int(id as i64))));
    fields.push(("method".to_owned(), Field::One(Param::Text(method.to_owned()))));
    fields.push(("params".to_owned(), Field::List(params)));
    let ghost document = command_json(id, method@, params_view(params@));
    proof {
        reveal_strlit("id");
        reveal_strlit("method");
        reveal_strlit("params");
        let view = fields_view(fields@);
        assert("method"@[0] != "params"@[0]);
        assert(keys_differ(view));
        assert forall|key: Seq<char>| #[trigger]
            last_value(view, key) == if key == "id"@ {
                Some(ParamView::Int(id as int).json())
            } else if key == "method"@ {
                Some(Json::Text(method@))
            } else if key == "params"@ {
                Some(params_json(params_view(params@)))
            } else {
                None
            } by {
            reveal_with_fuel(last_value, 4);
        }
        assert(entry_map(view) =~= document->Object_0);
    }
    match to_string(&fields) {
        Ok(text) => {
            proof {
                reveal_strlit("\r\n");
                assert("\r\n"@ =~= line_end());
                assert(on_one_line(text@)) by {
                    assert forall|i: int| 0 <= i < text@.len() implies #[trigger] text@[i] != '\r'
                        && text@[i] != '\n' by {
                        assert(0x20 <= text@[i] as u32);
                    }
                }
            }
            Ok(text.concat("\r\n"))
        },
        Err(e) => Err(e),
    }
}

/// What `String::from_utf8_lossy` makes of bytes that are not UTF-8.
pub uninterp spec fn lossy_text(bytes: Seq<u8>) -> Seq<char>;

/// The text that the bytes of a line stand for.
pub open spec fn line_text(bytes: Seq<u8>) -> Seq<char> {
    if valid_utf8(bytes) {
        decode_utf8(bytes)
    } else {
        lossy_text(bytes)
    }
}

/// Calls `String::from_utf8_lossy`: UTF-8 as the text that it encodes, and other bytes as a text
/// that depends on them alone.
#[verifier::external_body]
fn from_utf8_lossy(bytes: &Vec<u8>) -> (r: String)
    ensures
        valid_utf8(bytes@) ==> r@ == decode_utf8(bytes@),
        !valid_utf8(bytes@) ==> r@ == lossy_text(bytes@),
{
    String::from_utf8_lossy(bytes).into_owned()
}

/// What comes of reading from the connection once.
pub enum ReadEvent {
    /// A byte came.
    Byte(u8),
    /// The other side has closed the connection.
    Closed,
    /// Nothing came within the time that reading may take.
    WouldBlock(std::io::Error),
    /// Nothing came within the time that reading may take.
    TimedOut(std::io::Error),
    /// Reading failed otherwise.
    Failed(std::io::Error),
}

/// What the reader of one answer does next.
pub enum LineStep {
    /// Read on.
    More,
    /// The line is complete.
    Line(String),
    /// Give up.
    Failed(std::io::Error),
}

/// What the reader of notifications does next.
pub enum ReaderStep {
    /// Read on.
    Continue,
    /// Handle this line, and read on.
    Line(String),
    /// Stop reading.
    Exit,
}

/// Gathers bytes into lines. A line feed ends a line, and carriage returns are dropped.
#[derive(Debug)]
pub struct LineReader {
    line: Vec<u8>,
}

/// The line under way after `byte`.
pub open spec fn line_after(line: Seq<u8>, byte: u8) -> Seq<u8> {
    if byte == 0x0a {
        Seq::empty()
    } else if byte == 0x0d {
        line
    } else {
        line.push(byte)
    }
}

/// The lines that `bytes` complete when `line` is under way, and the line under way after them.
pub open spec fn lines_after(line: Seq<u8>, bytes: Seq<u8>) -> (Seq<Seq<u8>>, Seq<u8>)
    decreases bytes.len(),
{
    if bytes.len() == 0 {
        (Seq::empty(), line)
    } else {
        let (lines, rest) = lines_after(line, bytes.drop_last());
        (
            if bytes.last() == 0x0a {
                lines.push(rest)
            } else {
                lines
            },
            line_after(rest, bytes.last()),
        )
    }
}

impl View for LineReader {
    type V = Seq<u8>;

    closed spec fn view(&self) -> Seq<u8> {
        self.line@
    }
}

impl LineReader {
    /// A reader that has read nothing.
    pub fn new() -> (r: LineReader)
        ensures
            r@ == Seq::<u8>::empty(),
    {
        LineReader { line: Vec::new() }
    }

    /// Takes one byte, and returns the line that it completes.
    pub fn push(&mut self, byte: u8) -> (r: Option<String>)
        ensures
            final(self)@ == line_after(old(self)@, byte),
            match r {
                Some(text) => byte == 0x0a && text@ == line_text(old(self)@),
                None => byte != 0x0a,
            },
    {
        if byte == 0x0a {
            Some(self.take())
        } else {
            if byte != 0x0d {
                self.line.push(byte);
            }
            None
        }
    }

    /// Takes what has come of a line, and starts a new one.
    fn take(&mut self) -> (r: String)
        ensures
            final(self)@ == Seq::<u8>::empty(),
            r@ == line_text(old(self)@),
    {
        let text = from_utf8_lossy(&self.line);
        self.line.clear();
        text
    }

    /// Reads one line: it ends with a line feed, or where the connection is closed.
    pub fn read_line_raw(&mut self, event: ReadEvent) -> (r: LineStep)
        ensures
            match event {
                ReadEvent::Byte(byte) => {
                    &&& final(self)@ == line_after(old(self)@, byte)
                    &&& if byte == 0x0a {
                        r matches LineStep::Line(text) && text@ == line_text(old(self)@)
                    } else {
                        r is More
                    }
                },
                ReadEvent::Closed => {
                    &&& final(self)@ == Seq::<u8>::empty()
                    &&& r matches LineStep::Line(text) && text@ == line_text(old(self)@)
                },
                ReadEvent::WouldBlock(e) | ReadEvent::TimedOut(e) | ReadEvent::Failed(e) => {
                    &&& final(self)@ == old(self)@
                    &&& r == LineStep::Failed(e)
                },
            },
    {
        match event {
            ReadEvent::Byte(byte) => match self.push(byte) {
                Some(text) => LineStep::Line(text),
                None => LineStep::More,
            },
            ReadEvent::Closed => LineStep::Line(self.take()),
            ReadEvent::WouldBlock(e) => LineStep::Failed(e),
            ReadEvent::TimedOut(e) => LineStep::Failed(e),
            ReadEvent::Failed(e) => LineStep::Failed(e),
        }
    }

    /// Reads notifications: line after line, until told to stop, which is the event `None`, or
    /// until the connection is closed or lost. That nothing came in time changes nothing.
    pub fn notification_reader(&mut self, event: Option<ReadEvent>) -> (r: ReaderStep)
        ensures
            match event {
                Some(ReadEvent::Byte(byte)) => {
                    &&& final(self)@ == line_after(old(self)@, byte)
                    &&& if byte == 0x0a {
                        r matches ReaderStep::Line(text) && text@ == line_text(old(self)@)
                    } else {
                        r is Continue
                    }
                },
                Some(ReadEvent::WouldBlock(_)) | Some(ReadEvent::TimedOut(_)) => {
                    &&& final(self)@ == old(self)@
                    &&& r is Continue
                },
                Some(ReadEvent::Closed) | Some(ReadEvent::Failed(_)) | None => {
                    &&& final(self)@ == old(self)@
                    &&& r is Exit
                },
            },
    {
        match event {
            Some(ReadEvent::Byte(byte)) => match self.push(byte) {
                Some(text) => ReaderStep::Line(text),
                None => ReaderStep::Continue,
            },
            Some(ReadEvent::WouldBlock(_)) => ReaderStep::Continue,
            Some(ReadEvent::TimedOut(_)) => ReaderStep::Continue,
            Some(ReadEvent::Closed) => ReaderStep::Exit,
            Some(ReadEvent::Failed(_)) => ReaderStep::Exit,
            None => ReaderStep::Exit,
        }
    }
}

/// It does not matter in which pieces bytes arrive: the second piece goes on where the first
/// left off.
pub proof fn lemma_pieces(line: Seq<u8>, first: Seq<u8>, second: Seq<u8>)
    ensures
        lines_after(line, first + second) == ({
            let (lines, rest) = lines_after(line, first);
            let (more, end) = lines_after(rest, second);
            (lines + more, end)
        }),
    decreases second.len(),
{
    let (lines, rest) = lines_after(line, first);
    if second.len() == 0 {
        assert(first + second =~= first);
        assert(lines + Seq::<Seq<u8>>::empty() =~= lines);
    } else {
        lemma_pieces(line, first, second.drop_last());
        assert((first + second).drop_last() =~= first + second.drop_last());
        let (more, end) = lines_after(rest, second.drop_last());
        assert(lines + more.push(end) =~= (lines + more).push(end));
    }
}

/// The encodings of two texts, one after the other, are the encoding of both.
proof fn lemma_encode_both(first: Seq<char>, second: Seq<char>)
    ensures
        encode_utf8(first + second) == encode_utf8(first) + encode_utf8(second),
    decreases first.len(),
{
    if first.len() == 0 {
        assert(first + second =~= second);
        assert(encode_utf8(first) + encode_utf8(second) =~= encode_utf8(second));
    } else {
        lemma_encode_both(first.drop_first(), second);
        assert((first + second).drop_first() =~= first.drop_first() + second);
        assert(encode_utf8(first + second) =~= encode_utf8(first) + encode_utf8(second));
    }
}

/// Only a carriage return or a line feed is encoded with the byte of one.
proof fn lemma_encoded_char(c: char)
    requires
        c != '\r',
        c != '\n',
    ensures
        forall|i: int|
            0 <= i < encode_scalar(c as u32).len() ==> #[trigger] encode_scalar(c as u32)[i] != 0x0d
                && encode_scalar(c as u32)[i] != 0x0a,
{
    let v = c as u32;
    assert(v <= 0x7f ==> (v & 0x7f) as u8 == v) by (bit_vector);
    assert((0xc0u8 | ((v >> 6) & 0x1f) as u8) >= 0x80) by (bit_vector);
    assert((0xe0u8 | ((v >> 12) & 0x0f) as u8) >= 0x80) by (bit_vector);
    assert((0xf0u8 | ((v >> 18) & 0x07) as u8) >= 0x80) by (bit_vector);
    assert((0x80u8 | (v & 0x3f) as u8) >= 0x80) by (bit_vector);
    assert((0x80u8 | ((v >> 6) & 0x3f) as u8) >= 0x80) by (bit_vector);
    assert((0x80u8 | ((v >> 12) & 0x3f) as u8) >= 0x80) by (bit_vector);
}

/// A text without line breaks is encoded without the bytes of one.
proof fn lemma_encoded_line(text: Seq<char>)
    requires
        on_one_line(text),
    ensures
        forall|i: int|
            0 <= i < encode_utf8(text).len() ==> #[trigger] encode_utf8(text)[i] != 0x0d
                && encode_utf8(text)[i] != 0x0a,
    decreases text.len(),
{
    if text.len() > 0 {
        let head = encode_scalar(text[0] as u32);
        let tail = encode_utf8(text.drop_first());
        assert(text[0] != '\r' && text[0] != '\n');
        lemma_encoded_char(text[0]);
        lemma_encoded_line(text.drop_first());
        assert(encode_utf8(text) =~= head + tail);
    }
}

/// Bytes without a line break go to the line under way.
proof fn lemma_plain_bytes(line: Seq<u8>, bytes: Seq<u8>)
    requires
        forall|i: int| 0 <= i < bytes.len() ==> #[trigger] bytes[i] != 0x0d && bytes[i] != 0x0a,
    ensures
        lines_after(line, bytes) == (Seq::<Seq<u8>>::empty(), line + bytes),
    decreases bytes.len(),
{
    if bytes.len() == 0 {
        assert(line + bytes =~= line);
    } else {
        lemma_plain_bytes(line, bytes.drop_last());
        assert(bytes[bytes.len() - 1] != 0x0d);
        assert((line + bytes.drop_last()).push(bytes.last()) =~= line + bytes);
    }
}

/// What is read is what was written: the bytes of a text on one line and of its line end make
/// one line, which stands for that text, and nothing is left over.
pub proof fn lemma_line_reads_back(text: Seq<char>)
    requires
        on_one_line(text),
    ensures
        lines_after(Seq::empty(), encode_utf8(text + line_end())) == (
            seq![encode_utf8(text)],
            Seq::<u8>::empty(),
        ),
        line_text(encode_utf8(text)) == text,
{
    let bytes = encode_utf8(text);
    let end = encode_utf8(line_end());
    encode_utf8_valid_utf8(text);
    encode_utf8_decode_utf8(text);
    lemma_encode_both(text, line_end());
    lemma_encoded_line(text);
    lemma_plain_bytes(Seq::empty(), bytes);
    assert(Seq::<u8>::empty() + bytes =~= bytes);
    assert(end =~= seq![0x0du8, 0x0au8]) by {
        is_ascii_chars_encode_utf8(line_end());
    }
    lemma_pieces(Seq::empty(), bytes, end);
    reveal_with_fuel(lines_after, 3);
    assert(end.drop_last() =~= seq![0x0du8]);
    assert(end.drop_last().drop_last() =~= Seq::<u8>::empty());
    assert(lines_after(bytes, end) == (seq![bytes], Seq::<u8>::empty())) by {
        assert(Seq::<Seq<u8>>::empty().push(bytes) =~= seq![bytes]);
    }
    assert(Seq::<Seq<u8>>::empty() + seq![bytes] =~= seq![bytes]);
}

/// Of the bytes of a line all go to it but the carriage returns, and none completes it.
pub proof fn lemma_line_bytes(line: Seq<u8>, bytes: Seq<u8>)
    requires
        !bytes.contains(0x0a),
    ensures
        lines_after(line, bytes) == (
            Seq::<Seq<u8>>::empty(),
            line + bytes.filter(|b: u8| b != 0x0d),
        ),
    decreases bytes.len(),
{
    reveal(Seq::filter);
    let kept = |b: u8| b != 0x0d;
    if bytes.len() == 0 {
        assert(line + bytes.filter(kept) =~= line);
    } else {
        let before = bytes.drop_last();
        assert(bytes[bytes.len() - 1] != 0x0a);
        assert(!before.contains(0x0a)) by {
            if before.contains(0x0a) {
                let i = choose|i: int| 0 <= i < before.len() && before[i] == 0x0a;
                assert(bytes[i] == 0x0a);
            }
        }
        lemma_line_bytes(line, before);
        if bytes.last() != 0x0d {
            assert((line + before.filter(kept)).push(bytes.last()) =~= line + before.filter(
                kept,
            ).push(bytes.last()));
        }
    }
}

/// A line feed completes the line under way, and starts an empty one.
pub proof fn lemma_line_feed(line: Seq<u8>, bytes: Seq<u8>)
    ensures
        ({
            let (lines, rest) = lines_after(line, bytes);
            lines_after(line, bytes.push(0x0a)) == (lines.push(rest), Seq::<u8>::empty())
        }),
{
    assert(bytes.push(0x0a).drop_last() =~= bytes);
}

/// The line end is a carriage return and a line feed.
pub proof fn lemma_line_end()
    ensures
        line_end() == "\r\n"@,
{
    reveal_strlit("\r\n");
    assert(line_end() =~= "\r\n"@);
}

} // verus!
