//! The calls that the reconstruction asks of the telemetry sink, and the
//! fixed mapping from a source location to semantic attributes.
//!
//! The reconstruction does not reach the sink itself: it hands the calls
//! out, in order, and whoever owns the sink performs them.

use vstd::prelude::*;
use vstd::string::StringExecFns;
use crate::location::Location;
use crate::location::LocationModel;

verus! {

/// The value of an attribute.
#[derive(Debug, Clone, PartialEq, Eq)]
pub enum AttrValue {
    Text(String),
    Number(u64),
}

/// The mathematical value of an [`AttrValue`].
pub enum AttrValueModel {
    Text(Seq<char>),
    Number(u64),
}

impl View for AttrValue {
    type V = AttrValueModel;

    open spec fn view(&self) -> AttrValueModel {
        match self {
            AttrValue::Text(s) => AttrValueModel::Text(s@),
            AttrValue::Number(n) => AttrValueModel::Number(*n),
        }
    }
}

/// A key with its value.
#[derive(Debug, Clone, PartialEq, Eq)]
pub struct Attribute {
    pub key: String,
    pub value: AttrValue,
}

/// The mathematical value of an [`Attribute`].
pub struct AttributeModel {
    pub key: Seq<char>,
    pub value: AttrValueModel,
}

impl View for Attribute {
    type V = AttributeModel;

    open spec fn view(&self) -> AttributeModel {
        AttributeModel { key: self.key@, value: self.value@ }
    }
}

impl DeepView for Attribute {
    type V = AttributeModel;

    open spec fn deep_view(&self) -> AttributeModel {
        self@
    }
}

/// One call on the telemetry sink or on the plain-text side channel.
#[derive(Debug, Clone, PartialEq, Eq)]
pub enum SinkCall {
    /// Begin the scope `handle` under `parent`, or as a root.
    Begin { handle: u64, parent: Option<u64>, name: String, attributes: Vec<Attribute> },
    /// End the scope `handle`.
    End { handle: u64 },
    /// Record an event in `scope`, or outside any scope.
    Event { scope: Option<u64>, message: String, attributes: Vec<Attribute> },
    /// Write a log message to the plain-text side channel.
    Mirror { text: String },
    /// Report that the byte stream lost alignment and decoding starts afresh.
    Diagnostic { text: String },
}

/// The mathematical value of a [`SinkCall`].
pub enum SinkCallModel {
    Begin { handle: u64, parent: Option<u64>, name: Seq<char>, attributes: Seq<AttributeModel> },
    End { handle: u64 },
    Event { scope: Option<u64>, message: Seq<char>, attributes: Seq<AttributeModel> },
    Mirror { text: Seq<char> },
    Diagnostic { text: Seq<char> },
}

impl View for SinkCall {
    type V = SinkCallModel;

    open spec fn view(&self) -> SinkCallModel {
        match self {
            SinkCall::Begin { handle, parent, name, attributes } => SinkCallModel::Begin {
                handle: *handle,
                parent: *parent,
                name: name@,
                attributes: attributes.deep_view(),
            },
            SinkCall::End { handle } => SinkCallModel::End { handle: *handle },
            SinkCall::Event { scope, message, attributes } => SinkCallModel::Event {
                scope: *scope,
                message: message@,
                attributes: attributes.deep_view(),
            },
            SinkCall::Mirror { text } => SinkCallModel::Mirror { text: text@ },
            SinkCall::Diagnostic { text } => SinkCallModel::Diagnostic { text: text@ },
        }
    }
}

impl DeepView for SinkCall {
    type V = SinkCallModel;

    open spec fn deep_view(&self) -> SinkCallModel {
        self@
    }
}

/// The attributes of a scope: function name, file path, line number and
/// namespace, under their semantic keys and in this order.
pub open spec fn scope_attributes(name: Seq<char>, loc: LocationModel) -> Seq<AttributeModel> {
    seq![
        AttributeModel { key: "code.function"@, value: AttrValueModel::Text(name) },
        AttributeModel { key: "code.filepath"@, value: AttrValueModel::Text(loc.file) },
        AttributeModel { key: "code.lineno"@, value: AttrValueModel::Number(loc.line) },
        AttributeModel { key: "code.namespace"@, value: AttrValueModel::Text(loc.module) },
    ]
}

/// The attributes of a log event: file path, line number and namespace.
pub open spec fn event_attributes(loc: LocationModel) -> Seq<AttributeModel> {
    seq![
        AttributeModel { key: "code.filepath"@, value: AttrValueModel::Text(loc.file) },
        AttributeModel { key: "code.lineno"@, value: AttrValueModel::Number(loc.line) },
        AttributeModel { key: "code.namespace"@, value: AttrValueModel::Text(loc.module) },
    ]
}

/// Builds the attributes of a scope named `name` that was entered at `loc`.
pub fn make_scope_attributes(name: &str, loc: &Location) -> (attrs: Vec<Attribute>)
    ensures
        attrs.deep_view() == scope_attributes(name@, loc@),
{
    let mut attrs: Vec<Attribute> = Vec::new();
    attrs.push(
        Attribute {
            key: String::from_str("code.function"),
            value: AttrValue::Text(String::from_str(name)),
        },
    );
    attrs.push(
        Attribute {
            key: String::from_str("code.filepath"),
            value: AttrValue::Text(loc.file.clone()),
        },
    );
    attrs.push(
        Attribute { key: String::from_str("code.lineno"), value: AttrValue::Number(loc.line) },
    );
    attrs.push(
        Attribute {
            key: String::from_str("code.namespace"),
            value: AttrValue::Text(loc.module.clone()),
        },
    );
    proof {
        assert(attrs.deep_view() =~= scope_attributes(name@, loc@));
    }
    attrs
}

/// Builds the attributes of a log event that was emitted at `loc`.
pub fn make_event_attributes(loc: &Location) -> (attrs: Vec<Attribute>)
    ensures
        attrs.deep_view() == event_attributes(loc@),
{
    let mut attrs: Vec<Attribute> = Vec::new();
    attrs.push(
        Attribute {
            key: String::from_str("code.filepath"),
            value: AttrValue::Text(loc.file.clone()),
        },
    );
    attrs.push(
        Attribute { key: String::from_str("code.lineno"), value: AttrValue::Number(loc.line) },
    );
    attrs.push(
        Attribute {
            key: String::from_str("code.namespace"),
            value: AttrValue::Text(loc.module.clone()),
        },
    );
    proof {
        assert(attrs.deep_view() =~= event_attributes(loc@));
    }
    attrs
}

} // verus!
