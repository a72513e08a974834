//! Decoded log records and the sentinel convention that marks scope
//! boundaries in their text.
//!
//! A record whose text begins with `span_enter: ` opens a scope, one whose
//! text begins with `span_exit: ` closes the innermost open scope, and every
//! other record is an ordinary log line.

use vstd::prelude::*;
use vstd::string::StringExecFns;
use crate::text::find;
use crate::text::find_first;
use crate::text::lemma_find_first;
use crate::text::matches_at;
use crate::text::slice_text;
use crate::text::starts_with;
use crate::text::to_chars;

verus! {

/// One decoded unit of the log stream.
#[derive(Debug, Clone, PartialEq, Eq)]
pub struct Record {
    /// Key of the record's format string, by which its source location is found.
    pub format_index: u64,
    /// The message with its arguments already substituted.
    pub rendered_text: String,
}

/// The mathematical value of a [`Record`].
pub struct RecordModel {
    pub format_index: u64,
    pub rendered_text: Seq<char>,
}

impl View for Record {
    type V = RecordModel;

    open spec fn view(&self) -> RecordModel {
        RecordModel { format_index: self.format_index, rendered_text: self.rendered_text@ }
    }
}

impl DeepView for Record {
    type V = RecordModel;

    open spec fn deep_view(&self) -> RecordModel {
        self@
    }
}

/// What a record asks of the reconstruction.
#[derive(Debug, Clone, PartialEq, Eq)]
pub enum Directive {
    /// Open a scope; `payload` is the text behind the enter prefix.
    Enter { payload: String },
    /// Close the innermost open scope; `payload` is informational.
    Exit { payload: String },
    /// An ordinary log line.
    Log,
}

/// The mathematical value of a [`Directive`].
pub enum DirectiveModel {
    Enter { payload: Seq<char> },
    Exit { payload: Seq<char> },
    Log,
}

impl View for Directive {
    type V = DirectiveModel;

    open spec fn view(&self) -> DirectiveModel {
        match self {
            Directive::Enter { payload } => DirectiveModel::Enter { payload: payload@ },
            Directive::Exit { payload } => DirectiveModel::Exit { payload: payload@ },
            Directive::Log => DirectiveModel::Log,
        }
    }
}

/// The prefix that marks an enter record.
pub open spec fn enter_prefix() -> Seq<char> {
    "span_enter: "@
}

/// The prefix that marks an exit record.
pub open spec fn exit_prefix() -> Seq<char> {
    "span_exit: "@
}

/// The marker that begins the legacy location annotation of an enter payload.
pub open spec fn legacy_marker() -> Seq<char> {
    "; file="@
}

/// The directive that a rendered text stands for.
pub open spec fn classify_text(text: Seq<char>) -> DirectiveModel {
    if starts_with(text, enter_prefix()) {
        DirectiveModel::Enter { payload: text.skip(enter_prefix().len() as int) }
    } else if starts_with(text, exit_prefix()) {
        DirectiveModel::Exit { payload: text.skip(exit_prefix().len() as int) }
    } else {
        DirectiveModel::Log
    }
}

/// The display name of a scope: its enter payload up to the first legacy
/// marker, or the whole payload where there is none.
pub open spec fn display_name(payload: Seq<char>) -> Seq<char> {
    match find_first(payload, legacy_marker()) {
        Some(i) => payload.take(i),
        None => payload,
    }
}

/// Classifies a rendered text by its prefix.
pub fn classify(text: &str) -> (d: Directive)
    ensures
        d@ == classify_text(text@),
{
    let chars = to_chars(text);
    let enter = to_chars("span_enter: ");
    let exit = to_chars("span_exit: ");
    if matches_at(&chars, &enter, 0) {
        Directive::Enter { payload: slice_text(text, enter.len(), chars.len()) }
    } else if matches_at(&chars, &exit, 0) {
        Directive::Exit { payload: slice_text(text, exit.len(), chars.len()) }
    } else {
        Directive::Log
    }
}

/// Strips the legacy location annotation from an enter payload.
pub fn strip_legacy_suffix(payload: &str) -> (name: String)
    ensures
        name@ == display_name(payload@),
{
    let chars = to_chars(payload);
    let marker = to_chars("; file=");
    match find(&chars, &marker) {
        Some(i) => {
            proof {
                lemma_find_first(chars@, marker@);
            }
            slice_text(payload, 0, i)
        },
        None => String::from_str(payload),
    }
}

} // verus!
