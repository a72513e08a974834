//! The trace decoder: a format table with its source locations, and the
//! streams that turn device bytes into sink calls.
//!
//! Frame decoding is the work of the `defmt_decoder` crate. What this module
//! states of it is collected in the trusted items at its end; everything
//! else is verified against them.

use vstd::prelude::*;
use vstd::string::StringExecFns;
use std::collections::BTreeMap;
use defmt_decoder::DecodeError;
use defmt_decoder::StreamDecoder;
use defmt_decoder::Table;
use crate::location::lookup;
use crate::location::resolve;
use crate::location::table_model;
use crate::location::Location;
use crate::location::LocationModel;
use crate::record::classify;
use crate::record::display_name;
use crate::record::strip_legacy_suffix;
use crate::record::Directive;
use crate::record::Record;
use crate::record::RecordModel;
use crate::scope::empty_stack;
use crate::scope::enter_step;
use crate::scope::exit_step;
use crate::scope::log_step;
use crate::scope::record_step;
use crate::scope::run;
use crate::scope::close_calls;
use crate::scope::ScopeFrameModel;
use crate::scope::ScopeStack;
use crate::scope::StackModel;
use crate::sink::SinkCall;
use crate::sink::SinkCallModel;
use crate::text::starts_with;

verus! {

/// Why a decoder could not be built.
#[derive(Debug, PartialEq, Eq)]
pub enum Error {
    /// The frame decoder failed.
    Defmt(DecodeError),
    /// The debug image could not be read, or holds no format table.
    Elf(String),
}

impl From<DecodeError> for Error {
    fn from(error: DecodeError) -> (res: Error) {
        Error::Defmt(error)
    }
}

impl vstd::std_specs::convert::FromSpecImpl<DecodeError> for Error {
    open spec fn obeys_from_spec() -> bool {
        true
    }

    open spec fn from_spec(error: DecodeError) -> Error {
        Error::Defmt(error)
    }
}

/// The message of a debug image that holds no format table.
pub open spec fn no_table_message() -> Seq<char> {
    "No defmt table found"@
}

/// The prefix of the message of a debug image whose locations cannot be read.
pub open spec fn locations_prefix() -> Seq<char> {
    "Locs: "@
}

/// The notice that is handed out when the byte stream lost alignment.
pub open spec fn resync_notice() -> Seq<char> {
    "\u{26a0}\u{fe0f}  Defmt stream malformed. Resetting decoder..."@
}

/// What the frame source hands out when it is asked for the next record.
#[derive(Debug, Clone, PartialEq, Eq)]
pub enum Pull {
    /// The next complete record.
    Frame(Record),
    /// The buffer holds no complete record: more input is needed.
    NeedMore,
    /// The buffered bytes are no record.
    Malformed,
}

/// The mathematical value of a [`Pull`].
pub enum PullModel {
    Frame(RecordModel),
    NeedMore,
    Malformed,
}

impl View for Pull {
    type V = PullModel;

    open spec fn view(&self) -> PullModel {
        match self {
            Pull::Frame(record) => PullModel::Frame(record@),
            Pull::NeedMore => PullModel::NeedMore,
            Pull::Malformed => PullModel::Malformed,
        }
    }
}

/// The format table of a debug image with the source locations of its log
/// statements.
pub struct TraceDecoder {
    table: Table,
    locations: BTreeMap<u64, Location>,
}

/// One byte stream of a device: its decode state and its open scopes.
pub struct TraceStream<'a> {
    parent: &'a TraceDecoder,
    source: FrameSource<'a>,
    scopes: ScopeStack,
}

/// What an ingest does, given the records that the frame source handed out
/// and whether it reported malformed input behind them: the records run in
/// order, and a resynchronization adds its notice and nothing else.
pub open spec fn ingest(
    st: StackModel,
    table: Map<u64, LocationModel>,
    records: Seq<RecordModel>,
    resync: bool,
) -> (StackModel, Seq<SinkCallModel>) {
    let ran = run(st, table, records);
    if resync {
        (ran.0, ran.1.push(SinkCallModel::Diagnostic { text: resync_notice() }))
    } else {
        ran
    }
}

/// What draining a buffer comes to.
pub struct Drained {
    /// The scope stack afterwards.
    pub stack: StackModel,
    /// The calls for the sink, in order.
    pub calls: Seq<SinkCallModel>,
    /// The bytes that stay buffered.
    pub pending: Seq<u8>,
    /// The records that were decoded, in order.
    pub records: Seq<RecordModel>,
    /// Whether the draining ended on malformed input.
    pub resync: bool,
}

/// Draining the buffer: records are decoded and handled one by one until
/// the buffer holds no complete record, which leaves what is buffered, or
/// until it holds malformed input, which adds the notice, drops what is
/// buffered and leaves the scope stack as the records before it left it.
pub open spec fn drain(
    table: Table,
    locations: Map<u64, LocationModel>,
    st: StackModel,
    buffer: Seq<u8>,
) -> Drained
    decreases buffer.len(),
{
    let pulled = decoded(table, buffer);
    match pulled.0 {
        PullModel::Frame(record) => if pulled.1.len() < buffer.len() {
            let step = record_step(st, locations, record);
            let rest = drain(table, locations, step.0, pulled.1);
            Drained { calls: step.1 + rest.calls, records: seq![record] + rest.records, ..rest }
        } else {
            Drained {
                stack: st,
                calls: Seq::empty(),
                pending: buffer,
                records: Seq::empty(),
                resync: false,
            }
        },
        PullModel::NeedMore => Drained {
            stack: st,
            calls: Seq::empty(),
            pending: buffer,
            records: Seq::empty(),
            resync: false,
        },
        PullModel::Malformed => Drained {
            stack: st,
            calls: seq![SinkCallModel::Diagnostic { text: resync_notice() }],
            pending: Seq::empty(),
            records: Seq::empty(),
            resync: true,
        },
    }
}

/// The data with the zero bytes at its front taken off.
pub open spec fn without_leading_zeros(data: Seq<u8>) -> Seq<u8>
    decreases data.len(),
{
    if data.len() > 0 && data[0] == 0 {
        without_leading_zeros(data.drop_first())
    } else {
        data
    }
}

/// What receiving `data` makes of the buffer of a stream decoder that
/// holds `buffer`: the data is appended. Where zero bytes separate the
/// frames and the buffer is empty, the zero bytes at the front of the data
/// are dropped first.
pub open spec fn received(zeros_separate: bool, buffer: Seq<u8>, data: Seq<u8>) -> Seq<u8> {
    if zeros_separate && buffer.len() == 0 {
        without_leading_zeros(data)
    } else {
        buffer + data
    }
}

/// The frame source answers every request that draining `buffer` makes: it
/// hands out a record, asks for more data or reports malformed input, and
/// so for each buffer that the records before leave behind.
pub open spec fn answers(table: Table, buffer: Seq<u8>) -> bool
    decreases buffer.len(),
{
    &&& returns_on(table, buffer)
    &&& decoded(table, buffer).0 is Frame && decoded(table, buffer).1.len() < buffer.len()
        ==> answers(table, decoded(table, buffer).1)
}

/// What ingesting `data` comes to for a stream with the scope stack `st`
/// and the bytes `buffer` in its buffer: the data is received into the
/// buffer, and the buffer is drained.
pub open spec fn processed(
    table: Table,
    locations: Map<u64, LocationModel>,
    st: StackModel,
    buffer: Seq<u8>,
    data: Seq<u8>,
) -> Drained {
    drain(table, locations, st, received(zero_framed(table), buffer, data))
}

/// Turns the outcome of reading the format table into the table, or into the
/// error that the decoder's construction ends with.
pub fn table_or_error(parsed: Result<Option<Table>, String>) -> (res: Result<Table, Error>)
    ensures
        match parsed {
            Ok(Some(table)) => res == Ok::<Table, Error>(table),
            Ok(None) => res matches Err(Error::Elf(msg)) && msg@ == no_table_message(),
            Err(text) => res matches Err(Error::Elf(msg)) && msg@ == text@,
        },
{
    match parsed {
        Ok(Some(table)) => Ok(table),
        Ok(None) => Err(Error::Elf(String::from_str("No defmt table found"))),
        Err(text) => Err(Error::Elf(text)),
    }
}

impl TraceDecoder {
    /// The format table.
    pub closed spec fn table(&self) -> Table {
        self.table
    }

    /// The location table, by format index.
    pub closed spec fn locations(&self) -> Map<u64, LocationModel> {
        table_model(self.locations@)
    }

    /// A decoder over a format table and the locations of its entries.
    pub fn from_parts(table: Table, locations: BTreeMap<u64, Location>) -> (decoder: TraceDecoder)
        ensures
            decoder.table() == table,
            decoder.locations() == table_model(locations@),
    {
        TraceDecoder { table, locations }
    }

    /// Joins a format table with the outcome of reading its locations.
    pub fn with_locations(table: Table, located: Result<BTreeMap<u64, Location>, String>) -> (res:
        Result<TraceDecoder, Error>)
        ensures
            match located {
                Ok(locations) => res matches Ok(decoder) && decoder.table() == table
                    && decoder.locations() == table_model(locations@),
                Err(text) => res matches Err(Error::Elf(msg)) && msg@ == locations_prefix() + text@,
            },
    {
        match located {
            Ok(locations) => Ok(TraceDecoder::from_parts(table, locations)),
            Err(text) => Err(Error::Elf(String::from_str("Locs: ").concat(text.as_str()))),
        }
    }

    /// Builds the decoder from a debug image. It fails, with `Error::Elf`,
    /// exactly when the image cannot be read, holds no format table, or its
    /// locations cannot be read.
    pub fn new(elf_data: &[u8]) -> (res: Result<TraceDecoder, Error>)
        ensures
            match parsed_table(elf_data@) {
                Some(Some(table)) => match located(table, elf_data@) {
                    Some(locations) => res matches Ok(decoder) && decoder.table() == table
                        && decoder.locations() == locations,
                    None => res matches Err(Error::Elf(msg)) && starts_with(
                        msg@,
                        locations_prefix(),
                    ),
                },
                Some(None) => res matches Err(Error::Elf(msg)) && msg@ == no_table_message(),
                None => res matches Err(Error::Elf(_)),
            },
    {
        match table_or_error(parse_table(elf_data)) {
            Ok(table) => {
                let located = read_locations(&table, elf_data);
                let res = TraceDecoder::with_locations(table, located);
                proof {
                    if let Err(Error::Elf(msg)) = &res {
                        assert(msg@.subrange(0, locations_prefix().len() as int)
                            =~= locations_prefix());
                    }
                }
                res
            },
            Err(e) => Err(e),
        }
    }

    /// The location attributed to a format index.
    pub fn locate(&self, index: u64) -> (loc: Location)
        ensures
            loc@ == resolve(self.locations(), index),
    {
        lookup(&self.locations, index)
    }

    /// Opens a stream with a fresh decode state and no scope open.
    pub fn new_stream(&self) -> (stream: TraceStream<'_>)
        ensures
            stream.wf(),
            stream.decoder() == self,
            stream.stack() == empty_stack(),
            stream.buffered() == Seq::<u8>::empty(),
            answers(self.table(), Seq::<u8>::empty()),
    {
        TraceStream { parent: self, source: open_source(&self.table), scopes: ScopeStack::new() }
    }
}

impl<'a> TraceStream<'a> {
    /// The stream decodes with its decoder's table. Every stream that
    /// `new_stream` hands out does, and every method keeps it so.
    pub closed spec fn wf(&self) -> bool {
        table_of(self.source) == self.parent.table
    }

    /// The decoder that this stream belongs to.
    pub closed spec fn decoder(&self) -> &TraceDecoder {
        self.parent
    }

    /// The open scopes and the next handle.
    pub closed spec fn stack(&self) -> StackModel {
        self.scopes@
    }

    /// The bytes that were received and not yet decoded.
    pub closed spec fn buffered(&self) -> Seq<u8> {
        pending(self.source)
    }

    /// The number of open scopes.
    pub fn depth(&self) -> (n: usize)
        ensures
            n == self.stack().frames.len(),
    {
        self.scopes.depth()
    }

    /// Handles one decoded record: classifies it by its text and enters a
    /// scope, leaves one, or logs. The calls for the sink are appended to
    /// `out`.
    pub fn handle_frame(&mut self, frame: &Record, out: &mut Vec<SinkCall>)
        ensures
            final(self).wf() == old(self).wf(),
            final(self).decoder() == old(self).decoder(),
            final(self).buffered() == old(self).buffered(),
            final(self).stack() == record_step(
                old(self).stack(),
                old(self).decoder().locations(),
                frame@,
            ).0,
            final(out).deep_view() == old(out).deep_view() + record_step(
                old(self).stack(),
                old(self).decoder().locations(),
                frame@,
            ).1,
    {
        match classify(frame.rendered_text.as_str()) {
            Directive::Enter { payload } => self.handle_span_enter(payload.as_str(), frame, out),
            Directive::Exit { payload } => self.handle_span_exit(payload.as_str(), out),
            Directive::Log => self.handle_log(frame.rendered_text.as_str(), frame, out),
        }
    }

    /// Enters the scope that an enter record names: strips the legacy
    /// annotation from the payload, resolves the record's location, begins
    /// the scope under the innermost open one and pushes its frame.
    pub fn handle_span_enter(&mut self, name: &str, frame: &Record, out: &mut Vec<SinkCall>)
        ensures
            final(self).wf() == old(self).wf(),
            final(self).decoder() == old(self).decoder(),
            final(self).buffered() == old(self).buffered(),
            final(self).stack() == enter_step(
                old(self).stack(),
                display_name(name@),
                resolve(old(self).decoder().locations(), frame.format_index),
            ).0,
            final(out).deep_view() == old(out).deep_view() + enter_step(
                old(self).stack(),
                display_name(name@),
                resolve(old(self).decoder().locations(), frame.format_index),
            ).1,
    {
        let clean_name = strip_legacy_suffix(name);
        let loc = self.parent.locate(frame.format_index);
        self.scopes.enter(clean_name, &loc, out);
    }

    /// Leaves the innermost open scope. The exit record's payload is
    /// informational: it need not name that scope. With no scope open the
    /// record is ignored.
    pub fn handle_span_exit(&mut self, _name: &str, out: &mut Vec<SinkCall>)
        ensures
            final(self).wf() == old(self).wf(),
            final(self).decoder() == old(self).decoder(),
            final(self).buffered() == old(self).buffered(),
            final(self).stack() == exit_step(old(self).stack()).0,
            final(out).deep_view() == old(out).deep_view() + exit_step(old(self).stack()).1,
    {
        self.scopes.exit(out);
    }

    /// Logs a message: resolves the record's location, records an event in
    /// the innermost open scope and mirrors the message to the side channel.
    pub fn handle_log(&mut self, message: &str, frame: &Record, out: &mut Vec<SinkCall>)
        ensures
            *final(self) == *old(self),
            final(out).deep_view() == old(out).deep_view() + log_step(
                old(self).stack(),
                message@,
                resolve(old(self).decoder().locations(), frame.format_index),
            ),
    {
        let loc = self.parent.locate(frame.format_index);
        self.scopes.log(message, &loc, out);
    }

    /// Reacts to what the frame source handed out, and says whether the
    /// ingest goes on. A record is handled; with no complete record left the
    /// ingest ends; on malformed input the notice is appended to `out`, the
    /// decode state is replaced by a fresh one, the scope stack stays as it
    /// is, and the ingest ends.
    pub fn absorb(&mut self, pulled: Pull, out: &mut Vec<SinkCall>) -> (more: bool)
        ensures
            old(self).wf() ==> final(self).wf(),
            final(self).decoder() == old(self).decoder(),
            match pulled {
                Pull::Frame(record) => {
                    &&& more
                    &&& final(self).buffered() == old(self).buffered()
                    &&& final(self).stack() == record_step(
                        old(self).stack(),
                        old(self).decoder().locations(),
                        record@,
                    ).0
                    &&& final(out).deep_view() == old(out).deep_view() + record_step(
                        old(self).stack(),
                        old(self).decoder().locations(),
                        record@,
                    ).1
                },
                Pull::NeedMore => {
                    &&& !more
                    &&& *final(self) == *old(self)
                    &&& final(out).deep_view() == old(out).deep_view()
                },
                Pull::Malformed => {
                    &&& !more
                    &&& final(self).buffered() == Seq::<u8>::empty()
                    &&& final(self).stack() == old(self).stack()
                    &&& final(out).deep_view() == old(out).deep_view().push(
                        SinkCallModel::Diagnostic { text: resync_notice() },
                    )
                },
            },
    {
        match pulled {
            Pull::Frame(record) => {
                self.handle_frame(&record, out);
                true
            },
            Pull::NeedMore => false,
            Pull::Malformed => {
                out.push(
                    SinkCall::Diagnostic {
                        text: String::from_str(
                            "\u{26a0}\u{fe0f}  Defmt stream malformed. Resetting decoder...",
                        ),
                    },
                );
                let parent: &'a TraceDecoder = self.parent;
                self.source = open_source(&parent.table);
                proof {
                    assert(final(out).deep_view() =~= old(out).deep_view().push(
                        SinkCallModel::Diagnostic { text: resync_notice() },
                    ));
                }
                false
            },
        }
    }

    /// Ingests a chunk of the device's bytes and returns the calls for the
    /// sink, in order. Every record that is complete in the buffer is
    /// decoded and handled. Malformed input is no error: it ends the ingest
    /// with a notice, drops what is buffered and leaves the scope stack
    /// untouched, so that the next ingest starts clean.
    ///
    /// The frame source is taken to answer each request of the ingest. The
    /// decoder crate does not on every input: there are frames that it
    /// decodes and cannot render.
    pub fn process(&mut self, data: &[u8]) -> (res: Result<Vec<SinkCall>, Error>)
        requires
            old(self).wf(),
            answers(
                old(self).decoder().table(),
                received(zero_framed(old(self).decoder().table()), old(self).buffered(), data@),
            ),
        ensures
            res is Ok,
            final(self).wf(),
            final(self).decoder() == old(self).decoder(),
            final(self).stack() == processed(
                old(self).decoder().table(),
                old(self).decoder().locations(),
                old(self).stack(),
                old(self).buffered(),
                data@,
            ).stack,
            res->Ok_0.deep_view() == processed(
                old(self).decoder().table(),
                old(self).decoder().locations(),
                old(self).stack(),
                old(self).buffered(),
                data@,
            ).calls,
            final(self).buffered() == processed(
                old(self).decoder().table(),
                old(self).decoder().locations(),
                old(self).stack(),
                old(self).buffered(),
                data@,
            ).pending,
    {
        let mut out: Vec<SinkCall> = Vec::new();
        feed(&mut self.source, data);
        let ghost table = self.decoder().table();
        let ghost locations = self.decoder().locations();
        let ghost goal = drain(table, locations, self.stack(), self.buffered());
        proof {
            assert(out.deep_view() + goal.calls =~= goal.calls);
        }
        loop
            invariant_except_break
                answers(table, self.buffered()),
                goal.stack == drain(table, locations, self.stack(), self.buffered()).stack,
                goal.calls == out.deep_view() + drain(
                    table,
                    locations,
                    self.stack(),
                    self.buffered(),
                ).calls,
                goal.pending == drain(table, locations, self.stack(), self.buffered()).pending,
            invariant
                self.wf(),
                self.decoder() == old(self).decoder(),
                table == old(self).decoder().table(),
                locations == old(self).decoder().locations(),
            ensures
                self.wf(),
                self.decoder() == old(self).decoder(),
                self.stack() == goal.stack,
                out.deep_view() == goal.calls,
                self.buffered() == goal.pending,
            decreases self.buffered().len(),
        {
            let ghost stack = self.stack();
            let ghost buffer = self.buffered();
            let ghost sent = out.deep_view();
            let pulled = pull(&mut self.source);
            let ghost handed = pulled@;
            let more = self.absorb(pulled, &mut out);
            proof {
                let here = drain(table, locations, stack, buffer);
                match handed {
                    PullModel::Frame(record) => {
                        let step = record_step(stack, locations, record);
                        let rest = drain(table, locations, self.stack(), self.buffered());
                        assert(here.calls == step.1 + rest.calls);
                        assert(sent + (step.1 + rest.calls) =~= (sent + step.1) + rest.calls);
                    },
                    PullModel::NeedMore => {
                        assert(sent + here.calls =~= sent);
                    },
                    PullModel::Malformed => {
                        assert(sent + here.calls =~= sent.push(
                            SinkCallModel::Diagnostic { text: resync_notice() },
                        ));
                    },
                }
            }
            if !more {
                break;
            }
        }
        Ok(out)
    }

    /// Tears the stream's scopes down: every open scope is ended, innermost
    /// first. The decode state stays as it is.
    pub fn finish(&mut self) -> (calls: Vec<SinkCall>)
        ensures
            final(self).wf() == old(self).wf(),
            final(self).decoder() == old(self).decoder(),
            final(self).buffered() == old(self).buffered(),
            final(self).stack().frames == Seq::<ScopeFrameModel>::empty(),
            final(self).stack().next_handle == old(self).stack().next_handle,
            calls.deep_view() == close_calls(old(self).stack().frames),
    {
        let mut out: Vec<SinkCall> = Vec::new();
        proof {
            assert(out.deep_view() =~= Seq::<SinkCallModel>::empty());
        }
        self.scopes.close_all(&mut out);
        proof {
            assert(out.deep_view() =~= close_calls(old(self).stack().frames));
        }
        out
    }
}

/// `defmt_decoder::Table`, the format table of a debug image. Nothing is
/// stated of what it holds.
#[verifier::external_type_specification]
#[verifier::external_body]
pub struct ExTable(Table);

/// `defmt_decoder::DecodeError`, the failure of the frame decoder. Nothing is
/// stated of what it holds.
#[verifier::external_type_specification]
#[verifier::external_body]
pub struct ExDecodeError(DecodeError);

/// The stream decoder that `defmt_decoder::Table::new_stream_decoder` hands
/// out, a boxed trait object that borrows the table.
#[verifier::external_body]
pub struct FrameSource<'a> {
    inner: Box<dyn StreamDecoder + Send + Sync + 'a>,
}

/// What `defmt_decoder::Table::parse` makes of a debug image: `None` where it
/// fails, `Some(None)` where the image holds no format table.
pub uninterp spec fn parsed_table(elf: Seq<u8>) -> Option<Option<Table>>;

/// What `defmt_decoder::Table::get_locations` reads from a debug image for a
/// table: the location of each format index, or `None` where it fails.
pub uninterp spec fn located(table: Table, elf: Seq<u8>) -> Option<Map<u64, LocationModel>>;

/// The table that a stream decoder decodes with.
pub uninterp spec fn table_of(source: FrameSource<'_>) -> Table;

/// The bytes that a stream decoder holds: received and not yet decoded.
pub uninterp spec fn pending(source: FrameSource<'_>) -> Seq<u8>;

/// Whether the table's encoding, as `defmt_decoder::Table::encoding` gives
/// it, is rzCOBS, in which zero bytes separate the frames.
pub uninterp spec fn zero_framed(table: Table) -> bool;

/// Whether `defmt_decoder::StreamDecoder::decode` returns, and the frame
/// that it hands out can be rendered, for a stream decoder of `table` that
/// holds `buffer`. The decoder crate panics where a frame's arguments do
/// not fit the display hints of its format string.
pub uninterp spec fn returns_on(table: Table, buffer: Seq<u8>) -> bool;

/// What `defmt_decoder::StreamDecoder::decode` makes of the buffer of a
/// stream decoder of `table`: what it hands out and what it leaves in the
/// buffer. A frame has no value of its own here: it stands as the record of
/// its index, as `Frame::index` gives it, and its message, as
/// `Frame::display_message` renders it.
pub uninterp spec fn decoded(table: Table, buffer: Seq<u8>) -> (PullModel, Seq<u8>);

/// Calls `defmt_decoder::Table::parse`. The outcome is a function of the
/// image's bytes. The text of a failure is the error's debug rendering, of
/// which nothing is stated.
#[verifier::external_body]
fn parse_table(elf: &[u8]) -> (res: Result<Option<Table>, String>)
    ensures
        res matches Ok(found) ==> parsed_table(elf@) == Some(found),
        res is Err ==> parsed_table(elf@) is None,
{
    Table::parse(elf).map_err(|e| format!("{:?}", e))
}

/// Calls `defmt_decoder::Table::get_locations` and hands each location out
/// as a `Location` of this crate, the file path in its display form. The
/// outcome is a function of the table and the image's bytes. The text of a
/// failure is the error's debug rendering, of which nothing is stated.
#[verifier::external_body]
fn read_locations(table: &Table, elf: &[u8]) -> (res: Result<BTreeMap<u64, Location>, String>)
    ensures
        res matches Ok(locations) ==> located(*table, elf@) == Some(table_model(locations@)),
        res is Err ==> located(*table, elf@) is None,
{
    let found = table.get_locations(elf).map_err(|e| format!("{:?}", e))?;
    Ok(
        found.into_iter().map(
            |(index, loc)|
                (
                    index,
                    Location { file: loc.file.display().to_string(), line: loc.line, module: loc.module },
                ),
        ).collect(),
    )
}

/// Calls `defmt_decoder::Table::new_stream_decoder`. Both stream decoders of
/// that crate keep a reference to the table and start with an empty buffer,
/// on which a request to decode returns: it asks for more data.
#[verifier::external_body]
fn open_source<'a>(table: &'a Table) -> (source: FrameSource<'a>)
    ensures
        table_of(source) == *table,
        pending(source) == Seq::<u8>::empty(),
        returns_on(table_of(source), pending(source)),
{
    FrameSource { inner: table.new_stream_decoder() }
}

/// Calls `defmt_decoder::StreamDecoder::received`. The raw decoder appends
/// the data to its buffer; the rzCOBS decoder does the same, but for zero
/// bytes at the front of the data that it drops while its buffer is empty.
#[verifier::external_body]
fn feed(source: &mut FrameSource<'_>, data: &[u8])
    ensures
        table_of(*final(source)) == table_of(*old(source)),
        pending(*final(source)) == received(
            zero_framed(table_of(*old(source))),
            pending(*old(source)),
            data@,
        ),
{
    source.inner.received(data)
}

/// Calls `defmt_decoder::StreamDecoder::decode` and hands a frame out as a
/// record: the frame's index, as `Frame::index` gives it, and its message,
/// as `Frame::display_message` renders it. Both are functions of the table
/// and the buffered bytes, and so is what stays in the buffer. A frame takes
/// at least one byte out of the buffer; a call that asks for more data
/// leaves the buffer as it is; a malformed frame takes bytes out of the
/// buffer or leaves it. The buffers on which the decoder crate panics are
/// left out.
#[verifier::external_body]
fn pull(source: &mut FrameSource<'_>) -> (pulled: Pull)
    requires
        returns_on(table_of(*old(source)), pending(*old(source))),
    ensures
        table_of(*final(source)) == table_of(*old(source)),
        pulled@ == decoded(table_of(*old(source)), pending(*old(source))).0,
        pending(*final(source)) == decoded(table_of(*old(source)), pending(*old(source))).1,
        pulled is Frame ==> pending(*final(source)).len() < pending(*old(source)).len(),
        pulled is NeedMore ==> pending(*final(source)) == pending(*old(source)),
        pulled is Malformed ==> pending(*final(source)).len() <= pending(*old(source)).len(),
{
    match source.inner.decode() {
        Ok(frame) => Pull::Frame(
            Record {
                format_index: frame.index(),
                rendered_text: frame.display_message().to_string(),
            },
        ),
        Err(DecodeError::UnexpectedEof) => Pull::NeedMore,
        Err(DecodeError::Malformed) => Pull::Malformed,
    }
}

} // verus!
