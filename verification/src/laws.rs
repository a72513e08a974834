//! What holds of every reconstruction, proved over the state machine of
//! the scope stack.

use vstd::prelude::*;
use defmt_decoder::Table;
use crate::decoder::decoded;
use crate::decoder::drain;
use crate::decoder::ingest;
use crate::decoder::processed;
use crate::decoder::received;
use crate::decoder::resync_notice;
use crate::decoder::zero_framed;
use crate::decoder::PullModel;
use crate::location::resolve;
use crate::location::LocationModel;
use crate::codegen::arg_slots;
use crate::codegen::exit_format;
use crate::codegen::joined;
use crate::codegen::kept;
use crate::codegen::span_format;
use crate::record::classify_text;
use crate::record::enter_prefix;
use crate::record::exit_prefix;
use crate::text::starts_with;
use crate::record::display_name;
use crate::record::DirectiveModel;
use crate::record::RecordModel;
use crate::scope::empty_stack;
use crate::scope::innermost;
use crate::scope::record_step;
use crate::scope::run;
use crate::scope::ScopeFrameModel;
use crate::scope::StackModel;
use crate::sink::event_attributes;
use crate::sink::scope_attributes;
use crate::sink::AttrValueModel;
use crate::sink::SinkCallModel;

verus! {

/// The handles of the open scopes, outermost first.
pub open spec fn handles(frames: Seq<ScopeFrameModel>) -> Seq<u64> {
    Seq::new(frames.len(), |i: int| frames[i].handle)
}

/// The handle that the sink has open innermost.
pub open spec fn top_of(open: Seq<u64>) -> Option<u64> {
    if open.len() == 0 {
        None
    } else {
        Some(open.last())
    }
}

/// What one call does to the handles that the sink has open, or `None`
/// where the call breaks the nesting: a scope that begins under another
/// parent than the innermost open scope, an end that does not close the most
/// recently opened unclosed scope, an event outside the innermost open scope.
pub open spec fn replay_call(open: Seq<u64>, call: SinkCallModel) -> Option<Seq<u64>> {
    match call {
        SinkCallModel::Begin { handle, parent, name, attributes } => if parent == top_of(open) {
            Some(open.push(handle))
        } else {
            None
        },
        SinkCallModel::End { handle } => if open.len() > 0 && open.last() == handle {
            Some(open.drop_last())
        } else {
            None
        },
        SinkCallModel::Event { scope, message, attributes } => if scope == top_of(open) {
            Some(open)
        } else {
            None
        },
        SinkCallModel::Mirror { text } => Some(open),
        SinkCallModel::Diagnostic { text } => Some(open),
    }
}

/// What a sequence of calls does to the handles that the sink has open, or
/// `None` where one of them breaks the nesting.
pub open spec fn replay(open: Seq<u64>, calls: Seq<SinkCallModel>) -> Option<Seq<u64>>
    decreases calls.len(),
{
    if calls.len() == 0 {
        Some(open)
    } else {
        match replay(open, calls.drop_last()) {
            Some(mid) => replay_call(mid, calls.last()),
            None => None,
        }
    }
}

/// Whether the record opens a scope.
pub open spec fn is_enter(record: RecordModel) -> bool {
    classify_text(record.rendered_text) is Enter
}

/// Whether the record closes a scope.
pub open spec fn is_exit(record: RecordModel) -> bool {
    classify_text(record.rendered_text) is Exit
}

/// Whether the record is an ordinary log line.
pub open spec fn is_log(record: RecordModel) -> bool {
    classify_text(record.rendered_text) is Log
}

/// The number of enter records.
pub open spec fn enters(records: Seq<RecordModel>) -> nat
    decreases records.len(),
{
    if records.len() == 0 {
        0
    } else {
        enters(records.drop_last()) + if is_enter(records.last()) {
            1nat
        } else {
            0nat
        }
    }
}

/// The number of exit records.
pub open spec fn exits(records: Seq<RecordModel>) -> nat
    decreases records.len(),
{
    if records.len() == 0 {
        0
    } else {
        exits(records.drop_last()) + if is_exit(records.last()) {
            1nat
        } else {
            0nat
        }
    }
}

/// Every exit record is matched to an earlier enter record that no exit
/// record between them has closed.
pub open spec fn well_nested(records: Seq<RecordModel>) -> bool {
    forall|k: int|
        0 <= k <= records.len() ==> exits(#[trigger] records.take(k)) <= enters(records.take(k))
}

/// The input is well nested and closes every scope that it opens.
pub open spec fn balanced(records: Seq<RecordModel>) -> bool {
    well_nested(records) && enters(records) == exits(records)
}

/// The messages of the events among the calls, in order.
pub open spec fn event_messages(calls: Seq<SinkCallModel>) -> Seq<Seq<char>>
    decreases calls.len(),
{
    if calls.len() == 0 {
        Seq::empty()
    } else {
        match calls.last() {
            SinkCallModel::Event { scope, message, attributes } => event_messages(
                calls.drop_last(),
            ).push(message),
            _ => event_messages(calls.drop_last()),
        }
    }
}

/// The texts that the calls send to the side channel, in order.
pub open spec fn mirror_texts(calls: Seq<SinkCallModel>) -> Seq<Seq<char>>
    decreases calls.len(),
{
    if calls.len() == 0 {
        Seq::empty()
    } else {
        match calls.last() {
            SinkCallModel::Mirror { text } => mirror_texts(calls.drop_last()).push(text),
            _ => mirror_texts(calls.drop_last()),
        }
    }
}

/// The texts of the log records among the records, in order.
pub open spec fn log_texts(records: Seq<RecordModel>) -> Seq<Seq<char>>
    decreases records.len(),
{
    if records.len() == 0 {
        Seq::empty()
    } else if is_log(records.last()) {
        log_texts(records.drop_last()).push(records.last().rendered_text)
    } else {
        log_texts(records.drop_last())
    }
}

proof fn lemma_replay_one(open: Seq<u64>, call: SinkCallModel)
    ensures
        replay(open, seq![call]) == replay_call(open, call),
{
    assert(seq![call].drop_last() =~= Seq::<SinkCallModel>::empty());
    assert(replay(open, seq![call].drop_last()) == Some(open));
}

proof fn lemma_replay_concat(open: Seq<u64>, a: Seq<SinkCallModel>, b: Seq<SinkCallModel>)
    ensures
        replay(open, a + b) == match replay(open, a) {
            Some(mid) => replay(mid, b),
            None => None,
        },
    decreases b.len(),
{
    if b.len() == 0 {
        assert(a + b =~= a);
    } else {
        assert((a + b).drop_last() =~= a + b.drop_last());
        assert((a + b).last() == b.last());
        lemma_replay_concat(open, a, b.drop_last());
    }
}

proof fn lemma_step_replays(st: StackModel, table: Map<u64, LocationModel>, record: RecordModel)
    ensures
        replay(handles(st.frames), record_step(st, table, record).1) == Some(
            handles(record_step(st, table, record).0.frames),
        ),
{
    let open = handles(st.frames);
    let step = record_step(st, table, record);
    assert(top_of(open) == innermost(st.frames));
    match classify_text(record.rendered_text) {
        DirectiveModel::Enter { payload } => {
            lemma_replay_one(open, step.1[0]);
            assert(step.1 =~= seq![step.1[0]]);
            assert(handles(step.0.frames) =~= open.push(st.next_handle));
        },
        DirectiveModel::Exit { payload } => {
            if st.frames.len() > 0 {
                lemma_replay_one(open, step.1[0]);
                assert(step.1 =~= seq![step.1[0]]);
                assert(handles(step.0.frames) =~= open.drop_last());
            }
        },
        DirectiveModel::Log => {
            lemma_replay_one(open, step.1[0]);
            lemma_replay_one(open, step.1[1]);
            lemma_replay_concat(open, seq![step.1[0]], seq![step.1[1]]);
            assert(step.1 =~= seq![step.1[0]] + seq![step.1[1]]);
        },
    }
}

/// Nesting: whatever the records, the calls that a run hands out form a
/// valid trace when they are replayed from the scopes that were open at its
/// start. Every scope begins under the innermost open scope, every end
/// closes the most recently opened scope that is not closed yet, every event
/// lies in the innermost open scope, and the scopes that the sink has open
/// afterwards are those on the stack.
pub proof fn nesting_is_valid(
    st: StackModel,
    table: Map<u64, LocationModel>,
    records: Seq<RecordModel>,
)
    ensures
        replay(handles(st.frames), run(st, table, records).1) == Some(
            handles(run(st, table, records).0.frames),
        ),
    decreases records.len(),
{
    if records.len() > 0 {
        let before = run(st, table, records.drop_last());
        nesting_is_valid(st, table, records.drop_last());
        lemma_step_replays(before.0, table, records.last());
        lemma_replay_concat(
            handles(st.frames),
            before.1,
            record_step(before.0, table, records.last()).1,
        );
    }
}

proof fn lemma_counts_of_prefix(records: Seq<RecordModel>)
    requires
        records.len() > 0,
        well_nested(records),
    ensures
        well_nested(records.drop_last()),
        exits(records) <= enters(records),
{
    assert(records.take(records.len() as int) =~= records);
    assert forall|k: int| 0 <= k <= records.drop_last().len() implies exits(
        #[trigger] records.drop_last().take(k),
    ) <= enters(records.drop_last().take(k)) by {
        assert(records.drop_last().take(k) =~= records.take(k));
    }
}

/// Depth: on well-nested input the scopes that were open at the start stay
/// open, and above them as many scopes are open as were entered and not yet
/// left.
pub proof fn depth_follows_nesting(
    st: StackModel,
    table: Map<u64, LocationModel>,
    records: Seq<RecordModel>,
)
    requires
        well_nested(records),
    ensures
        run(st, table, records).0.frames.len() == st.frames.len() + enters(records) - exits(
            records,
        ),
        run(st, table, records).0.frames.take(st.frames.len() as int) == st.frames,
    decreases records.len(),
{
    if records.len() == 0 {
        assert(st.frames.take(st.frames.len() as int) =~= st.frames);
    } else {
        lemma_counts_of_prefix(records);
        depth_follows_nesting(st, table, records.drop_last());
        let before = run(st, table, records.drop_last()).0;
        let after = run(st, table, records).0;
        assert(after.frames.take(st.frames.len() as int) =~= before.frames.take(
            st.frames.len() as int,
        ));
    }
}

/// Closing: input that is well nested and closes every scope it opens
/// leaves the stack as it found it. From the empty stack no scope remains
/// open.
pub proof fn balanced_input_closes_every_scope(
    st: StackModel,
    table: Map<u64, LocationModel>,
    records: Seq<RecordModel>,
)
    requires
        balanced(records),
    ensures
        run(st, table, records).0.frames == st.frames,
        run(empty_stack(), table, records).0.frames.len() == 0,
{
    depth_follows_nesting(st, table, records);
    depth_follows_nesting(empty_stack(), table, records);
    let frames = run(st, table, records).0.frames;
    assert(frames.take(frames.len() as int) =~= frames);
}

/// Parent linkage: a log record that follows `before` leaves the stack as it
/// is and is attributed to the innermost of the scopes that are open behind
/// `before`, or to no scope where none is open.
pub proof fn log_goes_to_the_innermost_scope(
    st: StackModel,
    table: Map<u64, LocationModel>,
    before: Seq<RecordModel>,
    record: RecordModel,
)
    requires
        is_log(record),
    ensures
        run(st, table, before.push(record)).0 == run(st, table, before).0,
        run(st, table, before.push(record)).1 == run(st, table, before).1 + seq![
            SinkCallModel::Event {
                scope: innermost(run(st, table, before).0.frames),
                message: record.rendered_text,
                attributes: event_attributes(resolve(table, record.format_index)),
            },
            SinkCallModel::Mirror { text: record.rendered_text },
        ],
        run(st, table, before).0.frames.len() == 0 ==> innermost(run(st, table, before).0.frames)
            is None,
        run(st, table, before).0.frames.len() > 0 ==> innermost(run(st, table, before).0.frames)
            == Some(
            run(st, table, before).0.frames[run(st, table, before).0.frames.len() - 1].handle,
        ),
{
    assert(before.push(record).drop_last() =~= before);
}

/// Parent linkage of scopes: an enter record that follows `before` begins
/// its scope under the innermost of the scopes that are open behind
/// `before`, or as a root where none is open.
pub proof fn scope_begins_under_the_innermost_scope(
    st: StackModel,
    table: Map<u64, LocationModel>,
    before: Seq<RecordModel>,
    record: RecordModel,
)
    requires
        is_enter(record),
    ensures
        run(st, table, before.push(record)).1 == run(st, table, before).1.push(
            SinkCallModel::Begin {
                handle: run(st, table, before).0.next_handle,
                parent: innermost(run(st, table, before).0.frames),
                name: display_name(classify_text(record.rendered_text)->Enter_payload),
                attributes: scope_attributes(
                    display_name(classify_text(record.rendered_text)->Enter_payload),
                    resolve(table, record.format_index),
                ),
            },
        ),
{
    assert(before.push(record).drop_last() =~= before);
    let mid = run(st, table, before);
    let step = record_step(mid.0, table, record);
    assert(mid.1 + step.1 =~= mid.1.push(step.1[0]));
}

proof fn lemma_run_one(st: StackModel, table: Map<u64, LocationModel>, record: RecordModel)
    ensures
        run(st, table, seq![record]) == record_step(st, table, record),
{
    let one = seq![record];
    assert(one.drop_last() =~= Seq::<RecordModel>::empty());
    assert(run(st, table, one.drop_last()) == (st, Seq::<SinkCallModel>::empty()));
    assert(one.last() == record);
    let step = record_step(st, table, record);
    assert(Seq::<SinkCallModel>::empty() + step.1 =~= step.1);
    assert(run(st, table, one).1 =~= step.1);
}

proof fn lemma_run_concat(
    st: StackModel,
    table: Map<u64, LocationModel>,
    a: Seq<RecordModel>,
    b: Seq<RecordModel>,
)
    ensures
        run(st, table, a + b).0 == run(run(st, table, a).0, table, b).0,
        run(st, table, a + b).1 == run(st, table, a).1 + run(run(st, table, a).0, table, b).1,
    decreases b.len(),
{
    if b.len() == 0 {
        assert(a + b =~= a);
        assert(run(st, table, a).1 + Seq::<SinkCallModel>::empty() =~= run(st, table, a).1);
    } else {
        assert((a + b).drop_last() =~= a + b.drop_last());
        assert((a + b).last() == b.last());
        lemma_run_concat(st, table, a, b.drop_last());
        let mid = run(st, table, a);
        let before = run(mid.0, table, b.drop_last());
        let step = record_step(before.0, table, b.last());
        assert(mid.1 + (before.1 + step.1) =~= (mid.1 + before.1) + step.1);
    }
}

/// Draining: what draining a buffer comes to is what its decoded records
/// come to when they run in order, with the notice behind them where the
/// draining ended on malformed input. It decodes no more records than the
/// buffer has bytes, and a resynchronization leaves the buffer empty.
pub proof fn draining_runs_its_records(
    table: Table,
    locations: Map<u64, LocationModel>,
    st: StackModel,
    buffer: Seq<u8>,
)
    ensures
        drain(table, locations, st, buffer).stack == ingest(
            st,
            locations,
            drain(table, locations, st, buffer).records,
            drain(table, locations, st, buffer).resync,
        ).0,
        drain(table, locations, st, buffer).calls == ingest(
            st,
            locations,
            drain(table, locations, st, buffer).records,
            drain(table, locations, st, buffer).resync,
        ).1,
        drain(table, locations, st, buffer).records.len() <= buffer.len(),
        drain(table, locations, st, buffer).resync ==> drain(
            table,
            locations,
            st,
            buffer,
        ).pending.len() == 0,
    decreases buffer.len(),
{
    let pulled = decoded(table, buffer);
    let all = drain(table, locations, st, buffer);
    match pulled.0 {
        PullModel::Frame(record) => {
            if pulled.1.len() < buffer.len() {
                let step = record_step(st, locations, record);
                let rest = drain(table, locations, step.0, pulled.1);
                draining_runs_its_records(table, locations, step.0, pulled.1);
                lemma_run_one(st, locations, record);
                lemma_run_concat(st, locations, seq![record], rest.records);
                let tail = run(step.0, locations, rest.records);
                if rest.resync {
                    let notice = SinkCallModel::Diagnostic { text: resync_notice() };
                    assert(step.1 + tail.1.push(notice) =~= (step.1 + tail.1).push(notice));
                }
            } else {
                assert(all.calls =~= run(st, locations, all.records).1);
            }
        },
        PullModel::NeedMore => {
            assert(all.calls =~= run(st, locations, all.records).1);
        },
        PullModel::Malformed => {
            assert(all.calls =~= run(st, locations, all.records).1.push(
                SinkCallModel::Diagnostic { text: resync_notice() },
            ));
        },
    }
}

/// Resynchronization: an ingest that ends on malformed input leaves the
/// buffer empty and the scopes as its decoded records left them. The ingest
/// that follows therefore comes to what it would come to on a stream that
/// has just been opened with those scopes open; where no record came before
/// the malformed input, that is what the following bytes give when they are
/// fed alone.
pub proof fn resync_starts_clean(
    table: Table,
    locations: Map<u64, LocationModel>,
    st: StackModel,
    buffer: Seq<u8>,
    bad: Seq<u8>,
    good: Seq<u8>,
)
    requires
        processed(table, locations, st, buffer, bad).resync,
    ensures
        processed(table, locations, st, buffer, bad).pending == Seq::<u8>::empty(),
        processed(table, locations, st, buffer, bad).stack == run(
            st,
            locations,
            processed(table, locations, st, buffer, bad).records,
        ).0,
        processed(
            table,
            locations,
            processed(table, locations, st, buffer, bad).stack,
            processed(table, locations, st, buffer, bad).pending,
            good,
        ) == processed(
            table,
            locations,
            run(st, locations, processed(table, locations, st, buffer, bad).records).0,
            Seq::<u8>::empty(),
            good,
        ),
        processed(table, locations, st, buffer, bad).records.len() == 0 ==> processed(
            table,
            locations,
            processed(table, locations, st, buffer, bad).stack,
            processed(table, locations, st, buffer, bad).pending,
            good,
        ) == processed(table, locations, st, Seq::<u8>::empty(), good),
{
    let first = processed(table, locations, st, buffer, bad);
    draining_runs_its_records(
        table,
        locations,
        st,
        received(zero_framed(table), buffer, bad),
    );
    assert(first.pending =~= Seq::<u8>::empty());
    if first.records.len() == 0 {
        assert(first.records =~= Seq::<RecordModel>::empty());
    }
}

/// Location attribution: a record whose format index the table holds gets
/// the table's file, line and module, on a scope that it begins and on an
/// event that it logs.
pub proof fn location_is_exact(st: StackModel, table: Map<u64, LocationModel>, record: RecordModel)
    requires
        table.contains_key(record.format_index),
    ensures
        match classify_text(record.rendered_text) {
            DirectiveModel::Enter { payload } => {
                &&& record_step(st, table, record).1.len() == 1
                &&& record_step(st, table, record).1[0] matches SinkCallModel::Begin {
                    handle,
                    parent,
                    name,
                    attributes,
                }
                &&& attributes == scope_attributes(
                    display_name(payload),
                    table[record.format_index],
                )
                &&& attributes[1].value == AttrValueModel::Text(table[record.format_index].file)
                &&& attributes[2].value == AttrValueModel::Number(table[record.format_index].line)
                &&& attributes[3].value == AttrValueModel::Text(table[record.format_index].module)
            },
            DirectiveModel::Exit { payload } => true,
            DirectiveModel::Log => {
                &&& record_step(st, table, record).1.len() == 2
                &&& record_step(st, table, record).1[0] matches SinkCallModel::Event {
                    scope,
                    message,
                    attributes,
                }
                &&& attributes == event_attributes(table[record.format_index])
                &&& attributes[0].value == AttrValueModel::Text(table[record.format_index].file)
                &&& attributes[1].value == AttrValueModel::Number(table[record.format_index].line)
                &&& attributes[2].value == AttrValueModel::Text(table[record.format_index].module)
            },
        },
{
}

proof fn lemma_event_messages_concat(a: Seq<SinkCallModel>, b: Seq<SinkCallModel>)
    ensures
        event_messages(a + b) == event_messages(a) + event_messages(b),
    decreases b.len(),
{
    if b.len() == 0 {
        assert(a + b =~= a);
        assert(event_messages(a) + event_messages(b) =~= event_messages(a));
    } else {
        assert((a + b).drop_last() =~= a + b.drop_last());
        assert((a + b).last() == b.last());
        lemma_event_messages_concat(a, b.drop_last());
        match b.last() {
            SinkCallModel::Event { scope, message, attributes } => {
                assert(event_messages(a + b) =~= event_messages(a) + event_messages(b));
            },
            _ => {},
        }
    }
}

proof fn lemma_mirror_texts_concat(a: Seq<SinkCallModel>, b: Seq<SinkCallModel>)
    ensures
        mirror_texts(a + b) == mirror_texts(a) + mirror_texts(b),
    decreases b.len(),
{
    if b.len() == 0 {
        assert(a + b =~= a);
        assert(mirror_texts(a) + mirror_texts(b) =~= mirror_texts(a));
    } else {
        assert((a + b).drop_last() =~= a + b.drop_last());
        assert((a + b).last() == b.last());
        lemma_mirror_texts_concat(a, b.drop_last());
        match b.last() {
            SinkCallModel::Mirror { text } => {
                assert(mirror_texts(a + b) =~= mirror_texts(a) + mirror_texts(b));
            },
            _ => {},
        }
    }
}

proof fn lemma_step_texts(st: StackModel, table: Map<u64, LocationModel>, record: RecordModel)
    ensures
        event_messages(record_step(st, table, record).1) == if is_log(record) {
            seq![record.rendered_text]
        } else {
            Seq::<Seq<char>>::empty()
        },
        mirror_texts(record_step(st, table, record).1) == event_messages(
            record_step(st, table, record).1,
        ),
{
    let calls = record_step(st, table, record).1;
    reveal_with_fuel(event_messages, 3);
    reveal_with_fuel(mirror_texts, 3);
    match classify_text(record.rendered_text) {
        DirectiveModel::Enter { payload } => {
            assert(calls.drop_last() =~= Seq::<SinkCallModel>::empty());
        },
        DirectiveModel::Exit { payload } => {
            if st.frames.len() > 0 {
                assert(calls.drop_last() =~= Seq::<SinkCallModel>::empty());
            }
        },
        DirectiveModel::Log => {
            assert(calls.drop_last() =~= seq![calls[0]]);
            assert(calls.drop_last().drop_last() =~= Seq::<SinkCallModel>::empty());
            assert(event_messages(calls) =~= seq![record.rendered_text]);
            assert(mirror_texts(calls) =~= seq![record.rendered_text]);
        },
    }
}

/// Dual output: the messages of the events that a run records are the texts
/// of its log records, each once and in order, and the side channel gets the
/// same texts, each once and in the same order.
pub proof fn every_log_is_mirrored(
    st: StackModel,
    table: Map<u64, LocationModel>,
    records: Seq<RecordModel>,
)
    ensures
        event_messages(run(st, table, records).1) == log_texts(records),
        mirror_texts(run(st, table, records).1) == log_texts(records),
    decreases records.len(),
{
    if records.len() > 0 {
        let before = run(st, table, records.drop_last());
        let step = record_step(before.0, table, records.last());
        every_log_is_mirrored(st, table, records.drop_last());
        lemma_step_texts(before.0, table, records.last());
        lemma_event_messages_concat(before.1, step.1);
        lemma_mirror_texts_concat(before.1, step.1);
        if !is_log(records.last()) {
            assert(log_texts(records.drop_last()) + Seq::<Seq<char>>::empty() =~= log_texts(
                records.drop_last(),
            ));
        } else {
            assert(log_texts(records.drop_last()) + seq![records.last().rendered_text]
                =~= log_texts(records.drop_last()).push(records.last().rendered_text));
        }
    }
}

/// The handles of the open scopes ascend from the outermost to the
/// innermost scope, and all lie below `bound`.
pub open spec fn ascending(frames: Seq<ScopeFrameModel>, bound: u64) -> bool {
    &&& forall|i: int, j: int| 0 <= i < j < frames.len() ==> frames[i].handle < frames[j].handle
    &&& forall|i: int| 0 <= i < frames.len() ==> frames[i].handle < bound
}

/// Handles: as long as the handle counter does not wrap around, every scope
/// gets the handle that follows the last one given out, so the open scopes
/// have distinct handles that ascend from the outermost to the innermost.
pub proof fn handles_are_distinct(
    st: StackModel,
    table: Map<u64, LocationModel>,
    records: Seq<RecordModel>,
)
    requires
        ascending(st.frames, st.next_handle),
        st.next_handle + enters(records) <= u64::MAX,
    ensures
        run(st, table, records).0.next_handle == st.next_handle + enters(records),
        ascending(run(st, table, records).0.frames, run(st, table, records).0.next_handle),
    decreases records.len(),
{
    if records.len() > 0 {
        handles_are_distinct(st, table, records.drop_last());
    }
}

/// Wire convention: a text that is the enter prefix and a payload is an
/// enter record with that payload, and a text that is the exit prefix and a
/// payload is an exit record with that payload.
pub proof fn prefixed_texts_are_directives(payload: Seq<char>)
    ensures
        classify_text(enter_prefix() + payload) == (DirectiveModel::Enter { payload }),
        classify_text(exit_prefix() + payload) == (DirectiveModel::Exit { payload }),
{
    reveal_strlit("span_enter: ");
    reveal_strlit("span_exit: ");
    let enter = enter_prefix() + payload;
    let exit = exit_prefix() + payload;
    assert(enter.subrange(0, enter_prefix().len() as int) =~= enter_prefix());
    assert(enter.skip(enter_prefix().len() as int) =~= payload);
    assert(exit.subrange(0, exit_prefix().len() as int) =~= exit_prefix());
    assert(exit.skip(exit_prefix().len() as int) =~= payload);
    assert(exit[6] == 'x');
    assert(enter_prefix()[6] == 'n');
    if starts_with(exit, enter_prefix()) {
        assert(exit.subrange(0, enter_prefix().len() as int)[6] == exit[6]);
    }
}

/// Producer and consumer agree: the entry message of an instrumented
/// function is an enter record, and its exit message is an exit record that
/// names the span.
pub proof fn instrumented_messages_are_sentinels(
    name: Seq<char>,
    args: Seq<Seq<char>>,
    skip: Seq<Seq<char>>,
)
    ensures
        starts_with(span_format(name, args, skip), enter_prefix()),
        classify_text(span_format(name, args, skip)) is Enter,
        kept(args, skip).len() == 0 ==> classify_text(span_format(name, args, skip)) == (
            DirectiveModel::Enter { payload: name }
        ),
        classify_text(exit_format(name)) == (DirectiveModel::Exit { payload: name }),
{
    prefixed_texts_are_directives(name);
    let picked = kept(args, skip);
    if picked.len() > 0 {
        let rest = name + "("@ + joined(arg_slots(args, picked), ", "@) + ")"@;
        prefixed_texts_are_directives(rest);
        assert(span_format(name, args, skip) =~= enter_prefix() + rest);
    }
}

/// The number of calls that begin a scope.
pub open spec fn begin_count(calls: Seq<SinkCallModel>) -> nat
    decreases calls.len(),
{
    if calls.len() == 0 {
        0
    } else {
        begin_count(calls.drop_last()) + if calls.last() is Begin {
            1nat
        } else {
            0nat
        }
    }
}

/// The number of calls that end a scope.
pub open spec fn end_count(calls: Seq<SinkCallModel>) -> nat
    decreases calls.len(),
{
    if calls.len() == 0 {
        0
    } else {
        end_count(calls.drop_last()) + if calls.last() is End {
            1nat
        } else {
            0nat
        }
    }
}

proof fn lemma_counts_concat(a: Seq<SinkCallModel>, b: Seq<SinkCallModel>)
    ensures
        begin_count(a + b) == begin_count(a) + begin_count(b),
        end_count(a + b) == end_count(a) + end_count(b),
    decreases b.len(),
{
    if b.len() == 0 {
        assert(a + b =~= a);
    } else {
        assert((a + b).drop_last() =~= a + b.drop_last());
        assert((a + b).last() == b.last());
        lemma_counts_concat(a, b.drop_last());
    }
}

proof fn lemma_step_counts(st: StackModel, table: Map<u64, LocationModel>, record: RecordModel)
    ensures
        begin_count(record_step(st, table, record).1) == if is_enter(record) {
            1nat
        } else {
            0nat
        },
        end_count(record_step(st, table, record).1) == if is_exit(record) && st.frames.len() > 0 {
            1nat
        } else {
            0nat
        },
        st.frames.len() + begin_count(record_step(st, table, record).1) == record_step(
            st,
            table,
            record,
        ).0.frames.len() + end_count(record_step(st, table, record).1),
{
    let calls = record_step(st, table, record).1;
    reveal_with_fuel(begin_count, 3);
    reveal_with_fuel(end_count, 3);
    match classify_text(record.rendered_text) {
        DirectiveModel::Enter { payload } => {
            assert(calls.drop_last() =~= Seq::<SinkCallModel>::empty());
        },
        DirectiveModel::Exit { payload } => {
            if st.frames.len() > 0 {
                assert(calls.drop_last() =~= Seq::<SinkCallModel>::empty());
            }
        },
        DirectiveModel::Log => {
            assert(calls.drop_last() =~= seq![calls[0]]);
            assert(calls.drop_last().drop_last() =~= Seq::<SinkCallModel>::empty());
        },
    }
}

/// Counting: a run begins one scope for each enter record and ends at most
/// one for each exit record; the scopes that it begins and does not end are
/// those that it leaves open above the ones it found. On well-nested input
/// every exit record ends a scope.
pub proof fn begins_and_ends_are_counted(
    st: StackModel,
    table: Map<u64, LocationModel>,
    records: Seq<RecordModel>,
)
    ensures
        begin_count(run(st, table, records).1) == enters(records),
        end_count(run(st, table, records).1) <= exits(records),
        st.frames.len() + begin_count(run(st, table, records).1) == run(
            st,
            table,
            records,
        ).0.frames.len() + end_count(run(st, table, records).1),
        well_nested(records) ==> end_count(run(st, table, records).1) == exits(records),
    decreases records.len(),
{
    if records.len() > 0 {
        let before = run(st, table, records.drop_last());
        let step = record_step(before.0, table, records.last());
        begins_and_ends_are_counted(st, table, records.drop_last());
        lemma_step_counts(before.0, table, records.last());
        lemma_counts_concat(before.1, step.1);
    }
    if well_nested(records) {
        depth_follows_nesting(st, table, records);
    }
}

} // verus!
