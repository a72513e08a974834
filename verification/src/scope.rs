//! The scope stack and the state machine that turns records into sink calls.
//!
//! The stack is the only state carried from one record to the next. An enter
//! record pushes a frame, an exit record pops the innermost one, and a log
//! record leaves the stack as it is. An exit record that finds no open scope
//! is ignored: it changes nothing and asks nothing of the sink.
//!
//! Handles are drawn from a 64-bit counter that starts at zero and wraps
//! around behind `u64::MAX`.

use vstd::prelude::*;
use vstd::string::StringExecFns;
use crate::location::resolve;
use crate::location::Location;
use crate::location::LocationModel;
use crate::record::classify_text;
use crate::record::display_name;
use crate::record::DirectiveModel;
use crate::record::RecordModel;
use crate::sink::event_attributes;
use crate::sink::make_event_attributes;
use crate::sink::make_scope_attributes;
use crate::sink::scope_attributes;
use crate::sink::SinkCall;
use crate::sink::SinkCallModel;

verus! {

/// One open scope.
#[derive(Debug, Clone, PartialEq, Eq)]
pub struct ScopeFrame {
    /// The scope's display name.
    pub name: String,
    /// The handle under which the sink knows the scope.
    pub handle: u64,
}

/// The mathematical value of a [`ScopeFrame`].
pub struct ScopeFrameModel {
    pub name: Seq<char>,
    pub handle: u64,
}

impl View for ScopeFrame {
    type V = ScopeFrameModel;

    open spec fn view(&self) -> ScopeFrameModel {
        ScopeFrameModel { name: self.name@, handle: self.handle }
    }
}

impl DeepView for ScopeFrame {
    type V = ScopeFrameModel;

    open spec fn deep_view(&self) -> ScopeFrameModel {
        self@
    }
}

/// The open scopes, outermost first, and the handle that the next scope gets.
pub struct ScopeStack {
    frames: Vec<ScopeFrame>,
    next_handle: u64,
}

/// The mathematical value of a [`ScopeStack`].
pub struct StackModel {
    pub frames: Seq<ScopeFrameModel>,
    pub next_handle: u64,
}

impl View for ScopeStack {
    type V = StackModel;

    closed spec fn view(&self) -> StackModel {
        StackModel { frames: self.frames.deep_view(), next_handle: self.next_handle }
    }
}

/// The stack with no scope open and no handle given out yet.
pub open spec fn empty_stack() -> StackModel {
    StackModel { frames: Seq::<ScopeFrameModel>::empty(), next_handle: 0 }
}

/// The handle of the innermost open scope, if a scope is open.
pub open spec fn innermost(frames: Seq<ScopeFrameModel>) -> Option<u64> {
    if frames.len() == 0 {
        None
    } else {
        Some(frames.last().handle)
    }
}

/// The handle that follows `handle`.
pub open spec fn handle_after(handle: u64) -> u64 {
    if handle == u64::MAX {
        0
    } else {
        (handle + 1) as u64
    }
}

/// Entering a scope: the sink is asked to begin it under the innermost open
/// scope, and its frame is pushed.
pub open spec fn enter_step(st: StackModel, name: Seq<char>, loc: LocationModel) -> (
    StackModel,
    Seq<SinkCallModel>,
) {
    (
        StackModel {
            frames: st.frames.push(ScopeFrameModel { name, handle: st.next_handle }),
            next_handle: handle_after(st.next_handle),
        },
        seq![
            SinkCallModel::Begin {
                handle: st.next_handle,
                parent: innermost(st.frames),
                name,
                attributes: scope_attributes(name, loc),
            },
        ],
    )
}

/// Leaving a scope: the innermost frame is popped and the sink is asked to
/// end it. With no scope open nothing happens.
pub open spec fn exit_step(st: StackModel) -> (StackModel, Seq<SinkCallModel>) {
    if st.frames.len() == 0 {
        (st, Seq::<SinkCallModel>::empty())
    } else {
        (
            StackModel { frames: st.frames.drop_last(), next_handle: st.next_handle },
            seq![SinkCallModel::End { handle: st.frames.last().handle }],
        )
    }
}

/// A log line: one event in the innermost open scope, and the same message
/// once on the side channel.
pub open spec fn log_step(st: StackModel, message: Seq<char>, loc: LocationModel) -> Seq<
    SinkCallModel,
> {
    seq![
        SinkCallModel::Event {
            scope: innermost(st.frames),
            message,
            attributes: event_attributes(loc),
        },
        SinkCallModel::Mirror { text: message },
    ]
}

/// What one record does to the stack and asks of the sink.
pub open spec fn record_step(
    st: StackModel,
    table: Map<u64, LocationModel>,
    record: RecordModel,
) -> (StackModel, Seq<SinkCallModel>) {
    match classify_text(record.rendered_text) {
        DirectiveModel::Enter { payload } => enter_step(
            st,
            display_name(payload),
            resolve(table, record.format_index),
        ),
        DirectiveModel::Exit { payload } => exit_step(st),
        DirectiveModel::Log => (
            st,
            log_step(st, record.rendered_text, resolve(table, record.format_index)),
        ),
    }
}

/// What a sequence of records, taken in order, does to the stack and asks of
/// the sink.
pub open spec fn run(st: StackModel, table: Map<u64, LocationModel>, records: Seq<RecordModel>) -> (
    StackModel,
    Seq<SinkCallModel>,
)
    decreases records.len(),
{
    if records.len() == 0 {
        (st, Seq::<SinkCallModel>::empty())
    } else {
        let before = run(st, table, records.drop_last());
        let step = record_step(before.0, table, records.last());
        (step.0, before.1 + step.1)
    }
}

/// Tearing down: every open scope is ended, innermost first.
pub open spec fn close_calls(frames: Seq<ScopeFrameModel>) -> Seq<SinkCallModel> {
    Seq::new(
        frames.len(),
        |i: int| SinkCallModel::End { handle: frames[frames.len() - 1 - i].handle },
    )
}

impl ScopeStack {
    /// A stack with no scope open.
    pub fn new() -> (s: ScopeStack)
        ensures
            s@ == empty_stack(),
    {
        let s = ScopeStack { frames: Vec::new(), next_handle: 0 };
        proof {
            assert(s.frames.deep_view() =~= Seq::<ScopeFrameModel>::empty());
        }
        s
    }

    /// The number of open scopes.
    pub fn depth(&self) -> (n: usize)
        ensures
            n == self@.frames.len(),
    {
        self.frames.len()
    }

    /// The handle of the innermost open scope, if a scope is open.
    pub fn top(&self) -> (h: Option<u64>)
        ensures
            h == innermost(self@.frames),
    {
        let n = self.frames.len();
        if n == 0 {
            None
        } else {
            Some(self.frames[n - 1].handle)
        }
    }

    /// Opens a scope named `name` that was entered at `loc`, and appends the
    /// call that begins it to `out`.
    pub fn enter(&mut self, name: String, loc: &Location, out: &mut Vec<SinkCall>)
        ensures
            final(self)@ == enter_step(old(self)@, name@, loc@).0,
            final(out).deep_view() == old(out).deep_view() + enter_step(old(self)@, name@, loc@).1,
    {
        let handle = self.next_handle;
        let parent = self.top();
        let attributes = make_scope_attributes(name.as_str(), loc);
        out.push(SinkCall::Begin { handle, parent, name: name.clone(), attributes });
        self.frames.push(ScopeFrame { name, handle });
        self.next_handle = if handle == u64::MAX {
            0
        } else {
            handle + 1
        };
        proof {
            assert(final(self).frames.deep_view() =~= old(self).frames.deep_view().push(
                ScopeFrameModel { name: name@, handle },
            ));
            assert(final(out).deep_view() =~= old(out).deep_view() + enter_step(
                old(self)@,
                name@,
                loc@,
            ).1);
        }
    }

    /// Closes the innermost open scope and appends the call that ends it to
    /// `out`. With no scope open nothing happens.
    pub fn exit(&mut self, out: &mut Vec<SinkCall>)
        ensures
            final(self)@ == exit_step(old(self)@).0,
            final(out).deep_view() == old(out).deep_view() + exit_step(old(self)@).1,
    {
        match self.frames.pop() {
            Some(frame) => {
                out.push(SinkCall::End { handle: frame.handle });
                proof {
                    assert(final(self).frames.deep_view() =~= old(
                        self,
                    ).frames.deep_view().drop_last());
                    assert(final(out).deep_view() =~= old(out).deep_view() + exit_step(
                        old(self)@,
                    ).1);
                }
            },
            None => {
                proof {
                    assert(final(self).frames.deep_view() =~= old(self).frames.deep_view());
                    assert(final(out).deep_view() =~= old(out).deep_view() + exit_step(
                        old(self)@,
                    ).1);
                }
            },
        }
    }

    /// Appends to `out` the event for a log line that was emitted at `loc`,
    /// and the copy of its message for the side channel.
    pub fn log(&self, message: &str, loc: &Location, out: &mut Vec<SinkCall>)
        ensures
            final(out).deep_view() == old(out).deep_view() + log_step(self@, message@, loc@),
    {
        let scope = self.top();
        let attributes = make_event_attributes(loc);
        out.push(SinkCall::Event { scope, message: String::from_str(message), attributes });
        out.push(SinkCall::Mirror { text: String::from_str(message) });
        proof {
            assert(final(out).deep_view() =~= old(out).deep_view() + log_step(
                self@,
                message@,
                loc@,
            ));
        }
    }

    /// Closes every open scope, innermost first, and appends the calls that
    /// end them to `out`.
    pub fn close_all(&mut self, out: &mut Vec<SinkCall>)
        ensures
            final(self)@.frames == Seq::<ScopeFrameModel>::empty(),
            final(self)@.next_handle == old(self)@.next_handle,
            final(out).deep_view() == old(out).deep_view() + close_calls(old(self)@.frames),
    {
        let ghost frames = self@.frames;
        let ghost start = out.deep_view();
        while self.frames.len() > 0
            invariant
                self.next_handle == old(self).next_handle,
                self@.frames =~= frames.take(self.frames.len() as int),
                self.frames.len() <= frames.len(),
                out.deep_view() =~= start + close_calls(frames).take(
                    frames.len() - self.frames.len(),
                ),
            decreases self.frames.len(),
        {
            let ghost before = *self;
            let ghost out_before = out.deep_view();
            self.exit(out);
            proof {
                assert(self@.frames == before@.frames.drop_last());
                assert(out.deep_view() == out_before + exit_step(before@).1);
            }
        }
        proof {
            assert(close_calls(frames).take(frames.len() as int) =~= close_calls(frames));
        }
    }
}

} // verus!
