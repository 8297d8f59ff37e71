//! Pictures that are handed to the shelf without a file between.
//!
//! An offer describes the picture and changes nothing. Only after the shelf is ready for it are
//! its pixels sent; from then on nothing is tried again, as the shelf may have taken it.
use vstd::prelude::*;
use vstd::string::StringExecFns;

use crate::document::{Document, DocumentView};
use crate::json::{parse_json, print_json, Parsed};
use crate::protocol::{
    denied, invalid_data, ErrorKind, Response, WireError, WireErrorView, MAX_PAYLOAD_BYTES,
};
use crate::text::{joined, same};

verus! {

/// The command of an offer.
pub const COMMAND: &'static str = "add_pixels_v1";

/// How many bytes the name of the source may have.
pub const MAX_SOURCE: usize = 128;

/// How many bytes the name of the output may have.
pub const MAX_OUTPUT: usize = 256;

/// What an offer says of a picture.
#[derive(Debug, PartialEq, Eq)]
pub struct Metadata {
    pub width: u32,
    pub height: u32,
    /// How many bytes the pixels have.
    pub len: usize,
    pub source: String,
    pub output: Option<String>,
    pub copy: bool,
    /// A number by which the request is followed through the logs.
    pub trace: Option<u64>,
}

/// What [`Metadata`] say.
pub struct MetadataView {
    pub width: u32,
    pub height: u32,
    pub len: nat,
    pub source: Seq<char>,
    pub output: Option<Seq<char>>,
    pub copy: bool,
    pub trace: Option<u64>,
}

/// How many pixels a picture has.
pub open spec fn pixel_count(width: u32, height: u32) -> int {
    width * height
}

impl MetadataView {
    /// A picture that may be offered, or why not.
    pub open spec fn offered(
        width: u32,
        height: u32,
        source: Seq<char>,
        output: Option<Seq<char>>,
        copy: bool,
        trace: Option<u64>,
    ) -> Result<MetadataView, WireErrorView> {
        if width == 0 || height == 0 || pixel_count(width, height) > MAX_PAYLOAD_BYTES / 4 {
            Err(
                WireErrorView::invalid("RGB image exceeds the 64 Mi-pixel limit or is empty"@),
            )
        } else if vstd::utf8::encode_utf8(source).len() > MAX_SOURCE || (output matches Some(name)
            && vstd::utf8::encode_utf8(name).len() > MAX_OUTPUT) {
            Err(WireErrorView::invalid("image metadata is too long"@))
        } else {
            Ok(
                MetadataView {
                    width,
                    height,
                    len: (pixel_count(width, height) * 3) as nat,
                    source,
                    output,
                    copy,
                    trace,
                },
            )
        }
    }

    /// What is said is what can be offered.
    pub open spec fn valid(self) -> bool {
        MetadataView::offered(
            self.width,
            self.height,
            self.source,
            self.output,
            self.copy,
            self.trace,
        ) == Ok::<MetadataView, WireErrorView>(self)
    }

    /// The offer as a document.
    pub open spec fn document(self) -> DocumentView {
        DocumentView::Object(
            Map::empty().insert("cmd"@, DocumentView::Text(COMMAND@)).insert(
                "format"@,
                DocumentView::Text("RGB8"@),
            ).insert("width"@, DocumentView::Number(self.width as int)).insert(
                "height"@,
                DocumentView::Number(self.height as int),
            ).insert("stride"@, DocumentView::Number(self.width * 3)).insert(
                "length"@,
                DocumentView::Number(self.len as int),
            ).insert("source"@, DocumentView::Text(self.source)).insert(
                "output"@,
                DocumentView::text_or_null(self.output),
            ).insert("copy"@, DocumentView::Bool(self.copy)).insert(
                "trace"@,
                match self.trace {
                    Some(trace) => DocumentView::Number(trace as int),
                    None => DocumentView::Null,
                },
            ),
        )
    }

    /// The side of a picture in a document.
    pub open spec fn side(value: DocumentView, name: Seq<char>) -> Result<u32, WireErrorView> {
        match value.u64_at(name) {
            None => Err(WireErrorView::invalid("invalid "@ + name)),
            Some(side) => if side > u32::MAX {
                Err(WireErrorView::invalid(name + " overflow"@))
            } else {
                Ok(side as u32)
            },
        }
    }

    /// What the rows and the length in a document say, given the picture that it describes.
    pub open spec fn measured(self, value: DocumentView) -> Result<MetadataView, WireErrorView> {
        let mismatch = WireErrorView::invalid("RGB stride or length mismatch"@);
        match value.u64_at("stride"@) {
            None => Err(WireErrorView::invalid("invalid stride"@)),
            Some(stride) => if stride != self.width * 3 {
                Err(mismatch)
            } else {
                match value.u64_at("length"@) {
                    None => Err(WireErrorView::invalid("invalid length"@)),
                    Some(length) => if length != self.len {
                        Err(mismatch)
                    } else {
                        match value.field("trace"@) {
                            None | Some(DocumentView::Null) => Ok(
                                MetadataView { trace: None, ..self },
                            ),
                            Some(_) => match value.u64_at("trace"@) {
                                Some(trace) => Ok(MetadataView { trace: Some(trace), ..self }),
                                None => Err(WireErrorView::invalid("invalid trace ID"@)),
                            },
                        }
                    },
                }
            },
        }
    }

    /// The offer that a document describes.
    pub open spec fn described(value: DocumentView) -> Result<MetadataView, WireErrorView> {
        if value.text_at("cmd"@) != Some(COMMAND@) || value.text_at("format"@) != Some("RGB8"@) {
            Err(WireErrorView::invalid("unsupported pixel format"@))
        } else {
            match (
                MetadataView::side(value, "width"@),
                MetadataView::side(value, "height"@),
                value.text_at("source"@),
                value.field("output"@),
                value.bool_at("copy"@),
            ) {
                (Err(error), _, _, _, _) => Err(error),
                (Ok(_), Err(error), _, _, _) => Err(error),
                (Ok(_), Ok(_), None, _, _) => Err(WireErrorView::invalid("invalid source"@)),
                (Ok(width), Ok(height), Some(source), output, copy) => {
                    let named = match output {
                        None | Some(DocumentView::Null) => Some(None),
                        Some(DocumentView::Text(name)) => Some(Some(name)),
                        Some(_) => None::<Option<Seq<char>>>,
                    };
                    match (named, copy) {
                        (None, _) => Err(WireErrorView::invalid("invalid output"@)),
                        (Some(_), None) => Err(WireErrorView::invalid("invalid copy"@)),
                        (Some(output), Some(copy)) => match MetadataView::offered(
                            width,
                            height,
                            source,
                            output,
                            copy,
                            None,
                        ) {
                            Ok(picture) => picture.measured(value),
                            Err(error) => Err(error),
                        },
                    }
                },
            }
        }
    }
}

/// A described offer is the one that was made.
pub proof fn lemma_metadata_roundtrip(metadata: MetadataView)
    requires
        metadata.valid(),
    ensures
        MetadataView::described(metadata.document()) == Ok::<MetadataView, WireErrorView>(metadata),
{
    reveal_strlit("cmd");
    reveal_strlit("format");
    reveal_strlit("width");
    reveal_strlit("height");
    reveal_strlit("stride");
    reveal_strlit("length");
    reveal_strlit("source");
    reveal_strlit("output");
    reveal_strlit("copy");
    reveal_strlit("trace");
    assert("cmd"@.len() == 3 && "copy"@.len() == 4 && "width"@.len() == 5 && "trace"@.len() == 5);
    assert("format"@.len() == 6 && "height"@.len() == 6 && "stride"@.len() == 6);
    assert("length"@.len() == 6 && "source"@.len() == 6 && "output"@.len() == 6);
    assert("width"@[0] == 'w' && "trace"@[0] == 't');
    assert("format"@[0] == 'f' && "height"@[0] == 'h' && "length"@[0] == 'l' && "output"@[0] == 'o');
    assert("stride"@[0] == 's' && "stride"@[1] == 't');
    assert("source"@[0] == 's' && "source"@[1] == 'o');
    let value = metadata.document();
    assert(value.field("cmd"@) == Some(DocumentView::Text(COMMAND@)));
    assert(value.field("format"@) == Some(DocumentView::Text("RGB8"@)));
    assert(value.field("width"@) == Some(DocumentView::Number(metadata.width as int)));
    assert(value.field("height"@) == Some(DocumentView::Number(metadata.height as int)));
    assert(value.field("stride"@) == Some(DocumentView::Number(metadata.width * 3)));
    assert(value.field("length"@) == Some(DocumentView::Number(metadata.len as int)));
    assert(value.field("source"@) == Some(DocumentView::Text(metadata.source)));
    assert(value.field("output"@) == Some(DocumentView::text_or_null(metadata.output)));
    assert(value.field("copy"@) == Some(DocumentView::Bool(metadata.copy)));
    let offered = MetadataView::offered(
        metadata.width,
        metadata.height,
        metadata.source,
        metadata.output,
        metadata.copy,
        None,
    );
    assert(offered == Ok::<MetadataView, WireErrorView>(MetadataView { trace: None, ..metadata }));
}

/// The side of a picture in a document.
fn side(value: &Document, name: &str) -> (r: Result<u32, WireError>)
    ensures
        MetadataView::side(value@, name@) == (match r {
            Ok(side) => Ok(side),
            Err(error) => Err(error@),
        }),
{
    match value.u64_at(name) {
        None => Err(invalid_data(joined("invalid ", name))),
        Some(side) => if side > u32::MAX as u64 {
            Err(invalid_data(joined(name, " overflow")))
        } else {
            Ok(side as u32)
        },
    }
}

impl Metadata {
    /// What is said of the picture.
    pub open spec fn view(&self) -> MetadataView {
        MetadataView {
            width: self.width,
            height: self.height,
            len: self.len as nat,
            source: self.source@,
            output: crate::text::view_of(self.output),
            copy: self.copy,
            trace: self.trace,
        }
    }

    /// What an offer says of a picture. One of more than a quarter of what a message may hold is
    /// not offered.
    pub fn new(
        width: u32,
        height: u32,
        source: String,
        output: Option<String>,
        copy: bool,
        trace: Option<u64>,
    ) -> (r: Result<Self, WireError>)
        ensures
            MetadataView::offered(
                width,
                height,
                source@,
                crate::text::view_of(output),
                copy,
                trace,
            ) == (match r {
                Ok(metadata) => Ok(metadata@),
                Err(error) => Err(error@),
            }),
            r matches Ok(metadata) ==> metadata@.valid(),
    {
        proof {
            assert(0 <= pixel_count(width, height) <= u32::MAX * u32::MAX) by (nonlinear_arith)
                requires
                    width <= u32::MAX,
                    height <= u32::MAX,
                    pixel_count(width, height) == width * height,
            ;
        }
        let pixels: u64 = width as u64 * height as u64;
        if width == 0 || height == 0 || pixels > MAX_PAYLOAD_BYTES as u64 / 4 {
            return Err(
                invalid_data("RGB image exceeds the 64 Mi-pixel limit or is empty".to_owned()),
            );
        }
        let long = match &output {
            Some(name) => name.as_str().as_bytes().len() > MAX_OUTPUT,
            None => false,
        };
        if source.as_str().as_bytes().len() > MAX_SOURCE || long {
            return Err(invalid_data("image metadata is too long".to_owned()));
        }
        Ok(Metadata { width, height, len: (pixels * 3) as usize, source, output, copy, trace })
    }

    /// The offer that a document describes.
    pub fn parse(value: &Document) -> (r: Result<Self, WireError>)
        ensures
            MetadataView::described(value@) == (match r {
                Ok(metadata) => Ok(metadata@),
                Err(error) => Err(error@),
            }),
            r matches Ok(metadata) ==> metadata@.valid(),
    {
        let understood = match (value.text_at("cmd"), value.text_at("format")) {
            (Some(command), Some(format)) => same(command, COMMAND) && same(format, "RGB8"),
            _ => false,
        };
        if !understood {
            return Err(invalid_data("unsupported pixel format".to_owned()));
        }
        let width: u32 = match side(value, "width") {
            Ok(width) => width,
            Err(error) => {
                return Err(error);
            },
        };
        let height: u32 = match side(value, "height") {
            Ok(height) => height,
            Err(error) => {
                return Err(error);
            },
        };
        let source = match value.text_at("source") {
            Some(source) => source.to_owned(),
            None => {
                return Err(invalid_data("invalid source".to_owned()));
            },
        };
        let output: Option<String> = match value.get("output") {
            None => None,
            Some(Document::Null) => None,
            Some(Document::Text(name)) => Some(name.as_str().to_owned()),
            Some(_) => {
                return Err(invalid_data("invalid output".to_owned()));
            },
        };
        let copy = match value.bool_at("copy") {
            Some(copy) => copy,
            None => {
                return Err(invalid_data("invalid copy".to_owned()));
            },
        };
        let mut metadata = match Metadata::new(width, height, source, output, copy, None) {
            Ok(metadata) => metadata,
            Err(error) => {
                return Err(error);
            },
        };
        match value.u64_at("stride") {
            None => {
                return Err(invalid_data("invalid stride".to_owned()));
            },
            Some(stride) => {
                if stride != width as u64 * 3 {
                    return Err(invalid_data("RGB stride or length mismatch".to_owned()));
                }
            },
        }
        match value.u64_at("length") {
            None => {
                return Err(invalid_data("invalid length".to_owned()));
            },
            Some(length) => {
                if length != metadata.len as u64 {
                    return Err(invalid_data("RGB stride or length mismatch".to_owned()));
                }
            },
        }
        match value.get("trace") {
            None => {},
            Some(Document::Null) => {},
            Some(_) => match value.u64_at("trace") {
                Some(trace) => {
                    metadata.trace = Some(trace);
                },
                None => {
                    return Err(invalid_data("invalid trace ID".to_owned()));
                },
            },
        }
        Ok(metadata)
    }

    /// The bytes of the offer. A reader finds the offer in them.
    pub fn header(&self) -> (r: Vec<u8>)
        ensures
            r@ == vstd::utf8::encode_utf8(crate::json::printed_json(self@.document())),
            crate::json::parsed_json(r@) == Parsed::Document(self@.document()),
            self@.valid() ==> MetadataView::described(
                crate::json::parsed_json(r@)->Document_0,
            ) == Ok::<MetadataView, WireErrorView>(self@),
    {
        let trace = match self.trace {
            Some(trace) => Document::Unsigned(trace),
            None => Document::Null,
        };
        let document = Document::object().with("cmd", Document::text(COMMAND)).with(
            "format",
            Document::text("RGB8"),
        ).with("width", Document::Unsigned(self.width as u64)).with(
            "height",
            Document::Unsigned(self.height as u64),
        ).with("stride", Document::Unsigned(self.width as u64 * 3)).with(
            "length",
            Document::Unsigned(self.len as u64),
        ).with("source", Document::text(self.source.as_str())).with(
            "output",
            Document::text_or_null(&self.output),
        ).with("copy", Document::Bool(self.copy)).with("trace", trace);
        proof {
            if self@.valid() {
                lemma_metadata_roundtrip(self@);
            }
        }
        let text = print_json(document);
        bytes_of(text.as_str())
    }
}

/// The bytes of a text.
fn bytes_of(text: &str) -> (r: Vec<u8>)
    ensures
        r@ == vstd::utf8::encode_utf8(text@),
{
    let bytes = text.as_bytes();
    let mut out: Vec<u8> = Vec::new();
    let mut i: usize = 0;
    while i < bytes.len()
        invariant
            i <= bytes@.len(),
            out@ == bytes@.take(i as int),
        decreases bytes.len() - i,
    {
        out.push(bytes[i]);
        proof {
            assert(out@ =~= bytes@.take(i + 1));
        }
        i = i + 1;
    }
    proof {
        assert(bytes@.take(i as int) =~= bytes@);
    }
    out
}

/// Whether the process at the other end may be handed pixels: it has to belong to the same user.
pub fn same_user(length: u32, expected: u32, peer: u32, user: u32) -> (r: Result<(), WireError>)
    ensures
        if length == expected && peer == user {
            r is Ok
        } else {
            r matches Err(error) && error@ == WireErrorView::denied(
                "pixel peer must have the same UID"@,
            )
        },
{
    if length != expected || peer != user {
        Err(denied("pixel peer must have the same UID"))
    } else {
        Ok(())
    }
}

/// The byte that goes with the pixels.
pub const MARKER: u8 = 0x50;

/// Whether exactly one descriptor came, with nothing cut off.
pub fn receive_fd(received: i64, marker: u8, truncated: bool, descriptors: usize) -> (r: Result<
    (),
    WireError,
>)
    ensures
        if received == 1 && marker == MARKER && !truncated && descriptors == 1 {
            r is Ok
        } else {
            r matches Err(error) && error@ == WireErrorView::invalid(
                "expected one complete pixel FD"@,
            )
        },
{
    if received != 1 || marker != MARKER || truncated || descriptors != 1 {
        Err(invalid_data("expected one complete pixel FD".to_owned()))
    } else {
        Ok(())
    }
}

/// The seals that keep a file as it is: no write, no other length, and no other seals.
pub const SEALS: i32 = 15;

/// Whether as many bytes can be mapped at all.
pub fn check_length(len: usize) -> (r: Result<(), WireError>)
    ensures
        if 0 < len <= MAX_PAYLOAD_BYTES {
            r is Ok
        } else {
            r matches Err(error) && error@ == WireErrorView::invalid("invalid mapping length"@)
        },
{
    if len == 0 || len > MAX_PAYLOAD_BYTES {
        Err(invalid_data("invalid mapping length".to_owned()))
    } else {
        Ok(())
    }
}

/// Whether a file can no longer change. `seals` are its seals, or less than zero where it has none.
pub fn check_seals(seals: i32) -> (r: Result<(), WireError>)
    ensures
        if seals >= 0 && seals & SEALS == SEALS {
            r is Ok
        } else {
            r matches Err(error) && error@ == WireErrorView::invalid(
                "pixel FD must be fully sealed"@,
            )
        },
{
    if seals < 0 || seals & SEALS != SEALS {
        Err(invalid_data("pixel FD must be fully sealed".to_owned()))
    } else {
        Ok(())
    }
}

/// Whether a file is an ordinary one of the expected length.
pub fn check_file(regular: bool, size: i64, len: usize) -> (r: Result<(), WireError>)
    requires
        len <= MAX_PAYLOAD_BYTES,
    ensures
        if regular && size == len {
            r is Ok
        } else {
            r matches Err(error) && error@ == WireErrorView::invalid(
                "pixel FD size or type mismatch"@,
            )
        },
{
    if !regular || size != len as i64 {
        Err(invalid_data("pixel FD size or type mismatch".to_owned()))
    } else {
        Ok(())
    }
}

/// What the answer to an offer says: whether the pixels are to be sent.
pub open spec fn offer_answer(frame: Result<(Seq<u8>, Seq<u8>), WireErrorView>) -> Result<
    bool,
    WireErrorView,
> {
    match frame {
        Err(error) => if error.kind == ErrorKind::UnexpectedEof || error.kind
            == ErrorKind::ConnectionReset {
            Ok(false)
        } else {
            Err(error)
        },
        Ok((header, payload)) => match crate::json::parsed_json(header) {
            Parsed::Refused(message) => Err(WireErrorView::invalid(message)),
            Parsed::Document(answer) => if payload.len() > 0 || answer.text_at("ready"@) != Some(
                COMMAND@,
            ) {
                Err(
                    WireErrorView::invalid(
                        match answer.text_at("error"@) {
                            Some(error) => error,
                            None => "invalid pixel READY response"@,
                        },
                    ),
                )
            } else {
                Ok(true)
            },
        },
    }
}

/// Whether the pixels are to be sent, given a document and what follows it.
pub fn ready(answer: &Document, payload: usize) -> (r: Result<bool, WireError>)
    ensures
        if payload > 0 || answer@.text_at("ready"@) != Some(COMMAND@) {
            r matches Err(error) && error@ == WireErrorView::invalid(
                match answer@.text_at("error"@) {
                    Some(error) => error,
                    None => "invalid pixel READY response"@,
                },
            )
        } else {
            r == Ok::<bool, WireError>(true)
        },
{
    let named = match answer.text_at("ready") {
        Some(command) => same(command, COMMAND),
        None => false,
    };
    if payload > 0 || !named {
        return Err(
            match answer.text_at("error") {
                Some(error) => invalid_data(error.to_owned()),
                None => invalid_data("invalid pixel READY response".to_owned()),
            },
        );
    }
    Ok(true)
}

/// Whether the pixels are to be sent. `false` stands for an older shelf that does not know offers
/// and closes the connection: it has changed nothing.
pub fn offered(frame: Result<(Vec<u8>, Vec<u8>), WireError>) -> (r: Result<bool, WireError>)
    ensures
        offer_answer(
            match frame {
                Ok((header, payload)) => Ok((header@, payload@)),
                Err(error) => Err(error@),
            },
        ) == (match r {
            Ok(ready) => Ok(ready),
            Err(error) => Err(error@),
        }),
{
    let (header, payload) = match frame {
        Ok(parts) => parts,
        Err(error) => {
            if error.kind == ErrorKind::UnexpectedEof || error.kind == ErrorKind::ConnectionReset {
                return Ok(false);
            }
            return Err(error);
        },
    };
    match parse_json(header.as_slice()) {
        Err(message) => Err(invalid_data(message)),
        Ok(answer) => ready(&answer, payload.len()),
    }
}

/// What is said where the pixels could not be sent.
pub fn send_error(error: &str) -> (r: WireError)
    ensures
        r@ == not_sent(error@),
{
    WireError {
        kind: ErrorKind::Other,
        message: joined(
            "pixel transfer failed; acceptance uncertain, do not retry automatically: ",
            error,
        ),
    }
}

/// What came of pixels that were sent, given the answer of the shelf.
pub open spec fn sent(answer: Result<crate::protocol::ResponseView, Seq<char>>) -> Result<
    (),
    Seq<char>,
> {
    match answer {
        Err(error) => Err(
            "shelf ACK lost; image may have been accepted, do not retry automatically: "@ + error,
        ),
        Ok(response) => if response.ok {
            Ok(())
        } else {
            match response.error {
                Some(error) => Err(error),
                None => Err("shelf rejected image"@),
            }
        },
    }
}

/// What came of pixels that were sent. They are never said not to have been: the result is `true`
/// or an error.
pub fn acknowledged(answer: Result<Response, WireError>) -> (r: Result<bool, WireError>)
    ensures
        match sent(
            match answer {
                Ok(response) => Ok(response@),
                Err(error) => Err(error.message@),
            },
        ) {
            Ok(_) => r == Ok::<bool, WireError>(true),
            Err(text) => r matches Err(error) && error@ == (WireErrorView {
                kind: ErrorKind::Other,
                message: text,
            }),
        },
{
    match answer {
        Err(error) => Err(
            WireError {
                kind: ErrorKind::Other,
                message: joined(
                    "shelf ACK lost; image may have been accepted, do not retry automatically: ",
                    error.message.as_str(),
                ),
            },
        ),
        Ok(response) => if response.ok {
            Ok(true)
        } else {
            match response.error {
                Some(error) => Err(WireError { kind: ErrorKind::Other, message: error }),
                None => Err(
                    WireError { kind: ErrorKind::Other, message: "shelf rejected image".to_owned() },
                ),
            }
        },
    }
}

/// How far a transfer has come.
#[derive(Clone, Copy, Debug, PartialEq, Eq, Structural)]
pub enum Transfer {
    /// The picture was offered.
    Offered,
    /// The shelf said that it is ready.
    Ready,
    /// The pixels were sent.
    Sent,
}

/// What happens to a transfer.
pub enum TransferEvent {
    /// The shelf answered the offer, or the answer could not be read.
    Answer(Result<(Vec<u8>, Vec<u8>), WireError>),
    /// Something else failed.
    Failed(WireError),
    /// The pixels were sent, or could not be.
    Sent(Result<(), String>),
    /// The shelf answered the pixels, or the answer could not be read.
    Acknowledged(Result<Response, WireError>),
}

/// What a [`TransferEvent`] says.
pub enum TransferEventView {
    Answer(Result<(Seq<u8>, Seq<u8>), WireErrorView>),
    Failed(WireErrorView),
    Sent(Result<(), Seq<char>>),
    Acknowledged(Result<crate::protocol::ResponseView, Seq<char>>),
}

impl TransferEvent {
    /// What happens.
    pub open spec fn view(&self) -> TransferEventView {
        match self {
            TransferEvent::Answer(frame) => TransferEventView::Answer(
                match frame {
                    Ok((header, payload)) => Ok((header@, payload@)),
                    Err(error) => Err(error@),
                },
            ),
            TransferEvent::Failed(error) => TransferEventView::Failed(error@),
            TransferEvent::Sent(sent) => TransferEventView::Sent(
                match sent {
                    Ok(_) => Ok(()),
                    Err(error) => Err(error@),
                },
            ),
            TransferEvent::Acknowledged(answer) => TransferEventView::Acknowledged(
                match answer {
                    Ok(response) => Ok(response@),
                    Err(error) => Err(error.message@),
                },
            ),
        }
    }
}

/// What follows from what happens to a transfer.
pub enum TransferStep {
    Next(Transfer),
    /// The transfer is over. `Ok(false)` is what lets the picture be added in another way.
    End(Result<bool, WireError>),
}

/// What a [`TransferStep`] says.
pub enum TransferStepView {
    Next(Transfer),
    End(Result<bool, WireErrorView>),
}

impl TransferStep {
    /// What follows.
    pub open spec fn view(&self) -> TransferStepView {
        match self {
            TransferStep::Next(at) => TransferStepView::Next(*at),
            TransferStep::End(result) => TransferStepView::End(
                match result {
                    Ok(added) => Ok(*added),
                    Err(error) => Err(error@),
                },
            ),
        }
    }
}

/// What is said where the pixels could not be sent.
pub open spec fn not_sent(error: Seq<char>) -> WireErrorView {
    WireErrorView {
        kind: ErrorKind::Other,
        message: "pixel transfer failed; acceptance uncertain, do not retry automatically: "@
            + error,
    }
}

impl Transfer {
    /// What follows from what happens to a transfer. What does not belong to how far it has come
    /// changes nothing.
    pub open spec fn after(self, event: TransferEventView) -> TransferStepView {
        match (self, event) {
            (_, TransferEventView::Failed(error)) => TransferStepView::End(Err(error)),
            (Transfer::Offered, TransferEventView::Answer(frame)) => match offer_answer(frame) {
                Ok(true) => TransferStepView::Next(Transfer::Ready),
                other => TransferStepView::End(other),
            },
            (Transfer::Ready, TransferEventView::Sent(pixels)) => match pixels {
                Ok(_) => TransferStepView::Next(Transfer::Sent),
                Err(error) => TransferStepView::End(Err(not_sent(error))),
            },
            (Transfer::Sent, TransferEventView::Acknowledged(answer)) => TransferStepView::End(
                match sent(answer) {
                    Ok(_) => Ok(true),
                    Err(text) => Err(WireErrorView { kind: ErrorKind::Other, message: text }),
                },
            ),
            _ => TransferStepView::Next(self),
        }
    }

    /// How a transfer ends to which the given things happen: `None` where it does not.
    pub open spec fn ended(self, events: Seq<TransferEventView>) -> Option<
        Result<bool, WireErrorView>,
    >
        decreases events.len(),
    {
        if events.len() == 0 {
            None
        } else {
            match self.after(events[0]) {
                TransferStepView::Next(at) => at.ended(events.skip(1)),
                TransferStepView::End(result) => Some(result),
            }
        }
    }

    /// What follows from what happens to a transfer.
    pub fn step(self, event: TransferEvent) -> (r: TransferStep)
        ensures
            r@ == self.after(event@),
    {
        match event {
            TransferEvent::Failed(error) => TransferStep::End(Err(error)),
            TransferEvent::Answer(frame) => match self {
                Transfer::Offered => match offered(frame) {
                    Ok(true) => TransferStep::Next(Transfer::Ready),
                    other => TransferStep::End(other),
                },
                _ => TransferStep::Next(self),
            },
            TransferEvent::Sent(pixels) => match self {
                Transfer::Ready => match pixels {
                    Ok(_) => TransferStep::Next(Transfer::Sent),
                    Err(error) => TransferStep::End(Err(send_error(error.as_str()))),
                },
                _ => TransferStep::Next(self),
            },
            TransferEvent::Acknowledged(answer) => match self {
                Transfer::Sent => TransferStep::End(acknowledged(answer)),
                _ => TransferStep::Next(self),
            },
        }
    }
}

/// Once the shelf was ready for a picture, the picture is not added in another way, whatever happens
/// then.
pub proof fn lemma_never_added_twice(at: Transfer, events: Seq<TransferEventView>)
    requires
        at != Transfer::Offered,
    ensures
        at.ended(events) != Some(Ok::<bool, WireErrorView>(false)),
    decreases events.len(),
{
    if events.len() > 0 {
        match at.after(events[0]) {
            TransferStepView::Next(next) => {
                lemma_never_added_twice(next, events.skip(1));
            },
            TransferStepView::End(_) => {},
        }
    }
}

/// A picture that is offered is added in another way only where the shelf closed the connection over
/// the offer.
pub proof fn lemma_added_otherwise(events: Seq<TransferEventView>)
    requires
        Transfer::Offered.ended(events) == Some(Ok::<bool, WireErrorView>(false)),
    ensures
        exists|i: int|
            0 <= i < events.len() && (#[trigger] events[i] matches TransferEventView::Answer(frame)
                && offer_answer(frame) == Ok::<bool, WireErrorView>(false)),
    decreases events.len(),
{
    if events.len() > 0 {
        match Transfer::Offered.after(events[0]) {
            TransferStepView::Next(next) => {
                if next == Transfer::Offered {
                    lemma_added_otherwise(events.skip(1));
                    let i = choose|i: int|
                        0 <= i < events.skip(1).len() && (#[trigger] events.skip(1)[i]
                            matches TransferEventView::Answer(frame) && offer_answer(frame) == Ok::<
                            bool,
                            WireErrorView,
                        >(false));
                    assert(events[i + 1] == events.skip(1)[i]);
                } else {
                    lemma_never_added_twice(next, events.skip(1));
                }
            },
            TransferStepView::End(_) => {
                assert(events[0] is Answer);
            },
        }
    }
}

/// A picture is offered with its size, where it comes from and what is asked for, each in the field
/// of its name.
pub proof fn lemma_offered_fields(metadata: MetadataView)
    ensures
        ({
            let document = metadata.document();
            &&& document.field("cmd"@) == Some(DocumentView::Text("add_pixels_v1"@))
            &&& document.field("format"@) == Some(DocumentView::Text("RGB8"@))
            &&& document.field("width"@) == Some(DocumentView::Number(metadata.width as int))
            &&& document.field("height"@) == Some(DocumentView::Number(metadata.height as int))
            &&& document.field("stride"@) == Some(DocumentView::Number(3 * metadata.width))
            &&& document.field("length"@) == Some(DocumentView::Number(metadata.len as int))
            &&& document.field("source"@) == Some(DocumentView::Text(metadata.source))
            &&& document.field("copy"@) == Some(DocumentView::Bool(metadata.copy))
            &&& metadata.output matches Some(output) ==> document.field("output"@) == Some(
                DocumentView::Text(output),
            )
            &&& metadata.output is None ==> document.field("output"@) == Some(DocumentView::Null)
            &&& metadata.trace matches Some(trace) ==> document.field("trace"@) == Some(
                DocumentView::Number(trace as int),
            )
            &&& metadata.trace is None ==> document.field("trace"@) == Some(DocumentView::Null)
        }),
{
    reveal_strlit("cmd");
    reveal_strlit("format");
    reveal_strlit("width");
    reveal_strlit("height");
    reveal_strlit("stride");
    reveal_strlit("length");
    reveal_strlit("source");
    reveal_strlit("output");
    reveal_strlit("copy");
    reveal_strlit("trace");
    assert("cmd"@.len() == 3);
    assert("format"@.len() == 6);
    assert("width"@.len() == 5);
    assert("height"@.len() == 6);
    assert("stride"@.len() == 6);
    assert("length"@.len() == 6);
    assert("source"@.len() == 6);
    assert("output"@.len() == 6);
    assert("copy"@.len() == 4);
    assert("trace"@.len() == 5);
    assert("format"@[0] != "height"@[0]);
    assert("format"@[0] != "stride"@[0]);
    assert("format"@[0] != "length"@[0]);
    assert("format"@[0] != "source"@[0]);
    assert("format"@[0] != "output"@[0]);
    assert("width"@[0] != "trace"@[0]);
    assert("height"@[0] != "stride"@[0]);
    assert("height"@[0] != "length"@[0]);
    assert("height"@[0] != "source"@[0]);
    assert("height"@[0] != "output"@[0]);
    assert("stride"@[0] != "length"@[0]);
    assert("stride"@[1] != "source"@[1]);
    assert("stride"@[0] != "output"@[0]);
    assert("length"@[0] != "source"@[0]);
    assert("length"@[0] != "output"@[0]);
    assert("source"@[0] != "output"@[0]);
}

/// A picture can be offered where it is not empty and no larger than 64 Mi pixels and its names are
/// short enough; it is offered as it is, at three bytes for each pixel.
pub proof fn lemma_offered(
    width: u32,
    height: u32,
    source: Seq<char>,
    output: Option<Seq<char>>,
    copy: bool,
    trace: Option<u64>,
)
    ensures
        MetadataView::offered(width, height, source, output, copy, trace) is Ok <==> {
            &&& width > 0 && height > 0
            &&& width * height <= 67_108_864
            &&& vstd::utf8::encode_utf8(source).len() <= 128
            &&& output matches Some(name) ==> vstd::utf8::encode_utf8(name).len() <= 256
        },
        MetadataView::offered(width, height, source, output, copy, trace) matches Ok(metadata)
            ==> metadata.width == width && metadata.height == height && metadata.len == 3 * (width
            * height) && metadata.source == source && metadata.output == output && metadata.copy
            == copy && metadata.trace == trace,
{
}

/// What is read of an offer stands in it.
pub proof fn lemma_read_offer(value: DocumentView)
    ensures
        MetadataView::described(value) matches Ok(metadata) ==> {
            &&& value.field("cmd"@) == Some(DocumentView::Text("add_pixels_v1"@))
            &&& value.field("format"@) == Some(DocumentView::Text("RGB8"@))
            &&& value.field("width"@) == Some(DocumentView::Number(metadata.width as int))
            &&& value.field("height"@) == Some(DocumentView::Number(metadata.height as int))
            &&& value.field("stride"@) == Some(DocumentView::Number(3 * metadata.width))
            &&& value.field("length"@) == Some(DocumentView::Number(metadata.len as int))
            &&& value.field("source"@) == Some(DocumentView::Text(metadata.source))
            &&& value.field("copy"@) == Some(DocumentView::Bool(metadata.copy))
            &&& metadata.output matches Some(output) ==> value.field("output"@) == Some(
                DocumentView::Text(output),
            )
            &&& metadata.trace matches Some(trace) ==> value.field("trace"@) == Some(
                DocumentView::Number(trace as int),
            )
            &&& metadata.len == 3 * (metadata.width * metadata.height)
        },
{
}

/// Who may hand pixels over: a process of the same user, with one descriptor behind one mark, of a
/// sealed regular file of the length that was told.
pub proof fn lemma_accepted(
    length: u32,
    expected: u32,
    peer: u32,
    user: u32,
    known: Result<(), WireError>,
    received: i64,
    marker: u8,
    truncated: bool,
    descriptors: usize,
    whole: Result<(), WireError>,
    len: usize,
    fits: Result<(), WireError>,
    regular: bool,
    size: i64,
    file: Result<(), WireError>,
)
    requires
        len <= MAX_PAYLOAD_BYTES,
        call_ensures(same_user, (length, expected, peer, user), known),
        call_ensures(receive_fd, (received, marker, truncated, descriptors), whole),
        call_ensures(check_length, (len,), fits),
        call_ensures(check_file, (regular, size, len), file),
    ensures
        known is Ok <==> length == expected && peer == user,
        whole is Ok <==> received == 1 && marker == 0x50 && !truncated && descriptors == 1,
        fits is Ok <==> len > 0,
        file is Ok <==> regular && size == len,
{
}

/// A file is sealed where all four seals are set.
pub proof fn lemma_sealed(seals: i32, sealed: Result<(), WireError>)
    requires
        call_ensures(check_seals, (seals,), sealed),
    ensures
        sealed is Ok <==> seals >= 0 && seals & 1 != 0 && seals & 2 != 0 && seals & 4 != 0 && seals
            & 8 != 0,
{
    assert(seals & 15 == 15 <==> seals & 1 != 0 && seals & 2 != 0 && seals & 4 != 0 && seals & 8
        != 0) by (bit_vector);
}

/// An offer is taken up only where the answer says so and nothing more; it is done otherwise where
/// the other side hung up, and failed where anything else is wrong.
pub proof fn lemma_offer_answer(frame: Result<(Seq<u8>, Seq<u8>), WireErrorView>)
    ensures
        offer_answer(frame) == Ok::<bool, WireErrorView>(true) <==> (frame matches Ok(
            (header, payload),
        ) && payload.len() == 0 && (crate::json::parsed_json(header) matches Parsed::Document(answer)
            && answer.field("ready"@) == Some(DocumentView::Text("add_pixels_v1"@)))),
        offer_answer(frame) == Ok::<bool, WireErrorView>(false) <==> (frame matches Err(error) && (
        error.kind == ErrorKind::UnexpectedEof || error.kind == ErrorKind::ConnectionReset)),
{
}

/// A picture is added only where the shelf says so behind the pixels, and whatever is not known to
/// have been added or refused is told as uncertain.
pub proof fn lemma_transfer_ends(at: Transfer, event: TransferEventView)
    ensures
        at.after(event) == TransferStepView::End(Ok::<bool, WireErrorView>(true)) <==> at
            == Transfer::Sent && (event matches TransferEventView::Acknowledged(Ok(response))
            && response.ok),
        at.after(event) == TransferStepView::End(Ok::<bool, WireErrorView>(false)) ==> at
            == Transfer::Offered && event is Answer,
        at.after(event) == TransferStepView::Next(Transfer::Ready) ==> at == Transfer::Ready || (at
            == Transfer::Offered && event is Answer),
        at.after(event) == TransferStepView::Next(Transfer::Sent) ==> at == Transfer::Sent || (at
            == Transfer::Ready && (event matches TransferEventView::Sent(Ok(_)))),
        event matches TransferEventView::Failed(error) ==> at.after(event) == TransferStepView::End(
            Err::<bool, WireErrorView>(error),
        ),
        at == Transfer::Ready ==> (event matches TransferEventView::Sent(Err(error)) ==> at.after(
            event,
        ) matches TransferStepView::End(Err(told)) && crate::text::has_suffix(
            told.message,
            error,
        )),
        at == Transfer::Sent ==> (event matches TransferEventView::Acknowledged(Ok(response)) ==> (
        !response.ok ==> (response.error matches Some(error) ==> at.after(event)
            matches TransferStepView::End(Err(told)) && told.message == error))),
        at == Transfer::Sent ==> (event matches TransferEventView::Acknowledged(Err(error))
            ==> at.after(event) matches TransferStepView::End(Err(told))
            && crate::text::has_suffix(told.message, error)),
{
    if at == Transfer::Ready {
        if let TransferEventView::Sent(Err(error)) = event {
            let told = not_sent(error).message;
            assert(told.skip(told.len() - error.len()) =~= error);
        }
    }
    if at == Transfer::Sent {
        if let TransferEventView::Acknowledged(Err(error)) = event {
            let told = sent(Err(error))->Err_0;
            assert(told.skip(told.len() - error.len()) =~= error);
        }
    }
}

} // verus!
