//! What the logging macros decide: from the shape of a macro's arguments to
//! the format string and the arguments of the device-side log call.
//!
//! Device-side logging has no structured fields, so fields are appended to
//! the message as `key={}` slots and their values to its arguments. The
//! functions here work on plain descriptions of the macro input; turning
//! tokens into those descriptions, and the result back into tokens, is left
//! to the macro crate.

use vstd::prelude::*;
use vstd::string::StringExecFns;
use vstd::string::StrSliceExecFns;
use crate::record::enter_prefix;
use crate::record::exit_prefix;
use crate::text::same_text;

verus! {

/// The path of the device-side log macro for a level name. A name that is
/// no level goes to the info macro.
pub open spec fn macro_path_of(level: Seq<char>) -> Seq<char> {
    if level == "trace"@ {
        "defmt::trace"@
    } else if level == "debug"@ {
        "defmt::debug"@
    } else if level == "info"@ {
        "defmt::info"@
    } else if level == "warn"@ {
        "defmt::warn"@
    } else if level == "error"@ {
        "defmt::error"@
    } else {
        "defmt::info"@
    }
}

/// The slot that shows a field in a format string.
pub open spec fn slot(key: Seq<char>) -> Seq<char> {
    key + "={}"@
}

/// The parts in order, with `sep` between each two of them.
pub open spec fn joined(parts: Seq<Seq<char>>, sep: Seq<char>) -> Seq<char>
    decreases parts.len(),
{
    if parts.len() == 0 {
        Seq::empty()
    } else if parts.len() == 1 {
        parts[0]
    } else {
        joined(parts.drop_last(), sep) + sep + parts.last()
    }
}

/// The positions of the arguments that are logged: those whose name is not
/// in the skip list, in order.
pub open spec fn kept(args: Seq<Seq<char>>, skip: Seq<Seq<char>>) -> Seq<usize>
    decreases args.len(),
{
    if args.len() == 0 {
        Seq::empty()
    } else if skip.contains(args.last()) {
        kept(args.drop_last(), skip)
    } else {
        kept(args.drop_last(), skip).push((args.len() - 1) as usize)
    }
}

/// The slots of the arguments at the given positions.
pub open spec fn arg_slots(args: Seq<Seq<char>>, picked: Seq<usize>) -> Seq<Seq<char>> {
    Seq::new(picked.len(), |i: int| slot(args[picked[i] as int]))
}

/// The format string of an instrumented function's entry: the enter prefix,
/// the span's name, and behind it in parentheses a slot for each logged
/// argument.
pub open spec fn span_format(name: Seq<char>, args: Seq<Seq<char>>, skip: Seq<Seq<char>>) -> Seq<
    char,
> {
    let picked = kept(args, skip);
    if picked.len() == 0 {
        enter_prefix() + name
    } else {
        enter_prefix() + name + "("@ + joined(arg_slots(args, picked), ", "@) + ")"@
    }
}

/// The message of an instrumented function's exit: the exit prefix and the
/// span's name.
pub open spec fn exit_format(name: Seq<char>) -> Seq<char> {
    exit_prefix() + name
}

/// The slots of the fields of a log call.
pub open spec fn field_slots(fields: Seq<(Seq<char>, usize)>) -> Seq<Seq<char>> {
    Seq::new(fields.len(), |i: int| slot(fields[i].0))
}

/// The positions of the values of the fields of a log call.
pub open spec fn field_values(fields: Seq<(Seq<char>, usize)>) -> Seq<usize> {
    Seq::new(fields.len(), |i: int| fields[i].1)
}

/// The format string of a log call: the message, and behind it a slot for
/// each field, all separated by commas.
pub open spec fn log_format(message: Seq<char>, fields: Seq<(Seq<char>, usize)>) -> Seq<char> {
    if fields.len() == 0 {
        message
    } else if message.len() == 0 {
        joined(field_slots(fields), ", "@)
    } else {
        message + ", "@ + joined(field_slots(fields), ", "@)
    }
}

/// The path of the device-side log macro for a level name.
pub fn level_to_macro_path(level: &str) -> (path: &'static str)
    ensures
        path@ == macro_path_of(level@),
{
    if same_text(level, "trace") {
        "defmt::trace"
    } else if same_text(level, "debug") {
        "defmt::debug"
    } else if same_text(level, "info") {
        "defmt::info"
    } else if same_text(level, "warn") {
        "defmt::warn"
    } else if same_text(level, "error") {
        "defmt::error"
    } else {
        "defmt::info"
    }
}

/// Whether `name` is one of `list`.
pub fn contains_text(list: &Vec<String>, name: &str) -> (found: bool)
    ensures
        found == list.deep_view().contains(name@),
{
    let mut i: usize = 0;
    while i < list.len()
        invariant
            i <= list.len(),
            forall|j: int| 0 <= j < i ==> list.deep_view()[j] != name@,
        decreases list.len() - i,
    {
        if same_text(list[i].as_str(), name) {
            proof {
                assert(list.deep_view()[i as int] == name@);
            }
            return true;
        }
        i += 1;
    }
    false
}

/// Joins the parts with `sep` between each two of them.
pub fn join(parts: &Vec<String>, sep: &str) -> (text: String)
    ensures
        text@ == joined(parts.deep_view(), sep@),
{
    let mut text = String::new();
    let mut i: usize = 0;
    while i < parts.len()
        invariant
            i <= parts.len(),
            text@ == joined(parts.deep_view().take(i as int), sep@),
        decreases parts.len() - i,
    {
        if i > 0 {
            text.append(sep);
        }
        text.append(parts[i].as_str());
        proof {
            let before = parts.deep_view().take(i as int);
            let now = parts.deep_view().take(i + 1);
            assert(now.drop_last() =~= before);
            assert(now.last() == parts[i as int]@);
            if i == 0 {
                assert(text@ =~= now[0]);
            }
        }
        i += 1;
    }
    proof {
        assert(parts.deep_view().take(parts.len() as int) =~= parts.deep_view());
    }
    text
}

/// The positions of the arguments whose name is not in the skip list.
pub fn kept_args(args: &Vec<String>, skip: &Vec<String>) -> (picked: Vec<usize>)
    ensures
        picked@ == kept(args.deep_view(), skip.deep_view()),
        forall|i: int| 0 <= i < picked.len() ==> picked[i] < args.len(),
{
    let mut picked: Vec<usize> = Vec::new();
    let mut i: usize = 0;
    while i < args.len()
        invariant
            i <= args.len(),
            picked@ == kept(args.deep_view().take(i as int), skip.deep_view()),
            forall|j: int| 0 <= j < picked.len() ==> picked[j] < i,
        decreases args.len() - i,
    {
        proof {
            let now = args.deep_view().take(i + 1);
            assert(now.drop_last() =~= args.deep_view().take(i as int));
            assert(now.last() == args[i as int]@);
        }
        if !contains_text(skip, args[i].as_str()) {
            picked.push(i);
        }
        i += 1;
    }
    proof {
        assert(args.deep_view().take(args.len() as int) =~= args.deep_view());
    }
    picked
}

/// The slots of the arguments at the given positions.
pub fn slots_of(args: &Vec<String>, picked: &Vec<usize>) -> (parts: Vec<String>)
    requires
        forall|i: int| 0 <= i < picked.len() ==> picked[i] < args.len(),
    ensures
        parts.deep_view() == arg_slots(args.deep_view(), picked@),
{
    let mut parts: Vec<String> = Vec::new();
    let mut i: usize = 0;
    while i < picked.len()
        invariant
            i <= picked.len(),
            forall|j: int| 0 <= j < picked.len() ==> picked[j] < args.len(),
            parts.len() == i,
            forall|j: int|
                0 <= j < i ==> parts[j]@ == slot(args.deep_view()[#[trigger] picked[j] as int]),
        decreases picked.len() - i,
    {
        let part = args[picked[i]].clone().concat("={}");
        parts.push(part);
        i += 1;
    }
    proof {
        assert(parts.deep_view() =~= arg_slots(args.deep_view(), picked@));
    }
    parts
}

/// One item of the argument list of the `instrument` attribute.
#[derive(Debug, Clone, PartialEq, Eq)]
pub enum MetaShape {
    /// `key = value`; `text` holds the value where it is a string literal.
    NameValue { key: String, text: Option<String> },
    /// `key(a, b, ...)`, with the identifiers between the parentheses.
    List { key: String, idents: Vec<String> },
    /// Anything else.
    Other,
}

/// The mathematical value of a [`MetaShape`].
pub enum MetaShapeModel {
    NameValue { key: Seq<char>, text: Option<Seq<char>> },
    List { key: Seq<char>, idents: Seq<Seq<char>> },
    Other,
}

impl View for MetaShape {
    type V = MetaShapeModel;

    open spec fn view(&self) -> MetaShapeModel {
        match self {
            MetaShape::NameValue { key, text } => MetaShapeModel::NameValue {
                key: key@,
                text: match text {
                    Some(t) => Some(t@),
                    None => None,
                },
            },
            MetaShape::List { key, idents } => MetaShapeModel::List {
                key: key@,
                idents: idents.deep_view(),
            },
            MetaShape::Other => MetaShapeModel::Other,
        }
    }
}

impl DeepView for MetaShape {
    type V = MetaShapeModel;

    open spec fn deep_view(&self) -> MetaShapeModel {
        self@
    }
}

/// What the `instrument` attribute asks for.
#[derive(Debug, Clone, PartialEq, Eq)]
pub struct InstrumentArgs {
    /// The name of the level to log at.
    pub level: String,
    /// The name of the span.
    pub name: String,
    /// The names of the arguments that are not logged.
    pub skip: Vec<String>,
}

/// The mathematical value of an [`InstrumentArgs`].
pub struct InstrumentArgsModel {
    pub level: Seq<char>,
    pub name: Seq<char>,
    pub skip: Seq<Seq<char>>,
}

impl View for InstrumentArgs {
    type V = InstrumentArgsModel;

    open spec fn view(&self) -> InstrumentArgsModel {
        InstrumentArgsModel { level: self.level@, name: self.name@, skip: self.skip.deep_view() }
    }
}

/// What one item of the attribute's argument list changes: a `level` or a
/// `name` with a string literal replaces the setting, a `skip` list adds its
/// identifiers, and anything else changes nothing.
pub open spec fn apply_meta(args: InstrumentArgsModel, meta: MetaShapeModel) -> InstrumentArgsModel {
    match meta {
        MetaShapeModel::NameValue { key, text: Some(t) } => if key == "level"@ {
            InstrumentArgsModel { level: t, ..args }
        } else if key == "name"@ {
            InstrumentArgsModel { name: t, ..args }
        } else {
            args
        },
        MetaShapeModel::List { key, idents } => if key == "skip"@ {
            InstrumentArgsModel { skip: args.skip + idents, ..args }
        } else {
            args
        },
        _ => args,
    }
}

/// What the attribute's argument list asks for on a function named
/// `fn_name`: the info level, the function's name and nothing skipped,
/// changed by each item in turn.
pub open spec fn instrument_args(fn_name: Seq<char>, metas: Seq<MetaShapeModel>) -> InstrumentArgsModel
    decreases metas.len(),
{
    if metas.len() == 0 {
        InstrumentArgsModel { level: "info"@, name: fn_name, skip: Seq::empty() }
    } else {
        apply_meta(instrument_args(fn_name, metas.drop_last()), metas.last())
    }
}

/// The log calls that an instrumented function makes: one on entry, and one
/// on every way out.
#[derive(Debug, Clone, PartialEq, Eq)]
pub struct Instrumented {
    /// The path of the log macro.
    pub macro_path: &'static str,
    /// The format string of the entry message.
    pub format: String,
    /// The positions of the function's arguments that the entry message
    /// logs, in order.
    pub logged: Vec<usize>,
    /// The exit message.
    pub exit_format: String,
}

/// Reads the argument list of the `instrument` attribute.
pub fn read_instrument_args(fn_name: &str, metas: &Vec<MetaShape>) -> (args: InstrumentArgs)
    ensures
        args@ == instrument_args(fn_name@, metas.deep_view()),
{
    let mut args = InstrumentArgs {
        level: String::from_str("info"),
        name: String::from_str(fn_name),
        skip: Vec::new(),
    };
    proof {
        assert(args.skip.deep_view() =~= Seq::<Seq<char>>::empty());
        assert(metas.deep_view().take(0).len() == 0);
    }
    let mut i: usize = 0;
    while i < metas.len()
        invariant
            i <= metas.len(),
            args@ == instrument_args(fn_name@, metas.deep_view().take(i as int)),
        decreases metas.len() - i,
    {
        let ghost before = args@;
        proof {
            let now = metas.deep_view().take(i + 1);
            assert(now.drop_last() =~= metas.deep_view().take(i as int));
            assert(now.last() == metas[i as int]@);
        }
        match &metas[i] {
            MetaShape::NameValue { key, text: Some(t) } => {
                if same_text(key.as_str(), "level") {
                    args.level = t.clone();
                } else if same_text(key.as_str(), "name") {
                    args.name = t.clone();
                }
            },
            MetaShape::List { key, idents } => {
                if same_text(key.as_str(), "skip") {
                    let mut j: usize = 0;
                    while j < idents.len()
                        invariant
                            j <= idents.len(),
                            args.level@ == before.level,
                            args.name@ == before.name,
                            args.skip.deep_view() == before.skip + idents.deep_view().take(
                                j as int,
                            ),
                        decreases idents.len() - j,
                    {
                        let ghost held = args.skip.deep_view();
                        args.skip.push(idents[j].clone());
                        proof {
                            assert(args.skip.deep_view() =~= held.push(idents[j as int]@));
                            assert(idents.deep_view().take(j + 1) =~= idents.deep_view().take(
                                j as int,
                            ).push(idents[j as int]@));
                            assert(args.skip.deep_view() =~= before.skip + idents.deep_view().take(
                                j + 1,
                            ));
                        }
                        j += 1;
                    }
                    proof {
                        assert(idents.deep_view().take(idents.len() as int)
                            =~= idents.deep_view());
                    }
                }
            },
            _ => {},
        }
        i += 1;
    }
    proof {
        assert(metas.deep_view().take(metas.len() as int) =~= metas.deep_view());
    }
    args
}

/// Plans the log calls of an instrumented function named `fn_name` whose
/// arguments with an identifier pattern are `params`, in order. The entry
/// message opens a scope for whoever reconstructs the trace, and the exit
/// message closes it.
pub fn instrument(fn_name: &str, metas: &Vec<MetaShape>, params: &Vec<String>) -> (plan:
    Instrumented)
    ensures
        plan.macro_path@ == macro_path_of(instrument_args(fn_name@, metas.deep_view()).level),
        plan.format@ == span_format(
            instrument_args(fn_name@, metas.deep_view()).name,
            params.deep_view(),
            instrument_args(fn_name@, metas.deep_view()).skip,
        ),
        plan.logged@ == kept(
            params.deep_view(),
            instrument_args(fn_name@, metas.deep_view()).skip,
        ),
        forall|i: int| 0 <= i < plan.logged.len() ==> plan.logged[i] < params.len(),
        plan.exit_format@ == exit_format(instrument_args(fn_name@, metas.deep_view()).name),
{
    let args = read_instrument_args(fn_name, metas);
    let macro_path = level_to_macro_path(args.level.as_str());
    let logged = kept_args(params, &args.skip);
    let mut format = String::from_str("span_enter: ");
    format.append(args.name.as_str());
    if logged.len() > 0 {
        let slots = slots_of(params, &logged);
        format.append("(");
        format.append(join(&slots, ", ").as_str());
        format.append(")");
    }
    let mut exit_format = String::from_str("span_exit: ");
    exit_format.append(args.name.as_str());
    Instrumented { macro_path, format, logged, exit_format }
}

/// One item of the argument list of a log macro. Its position in the list
/// stands for its expression.
#[derive(Debug, Clone, PartialEq, Eq)]
pub enum ArgShape {
    /// `key = value`: a field.
    Assign { key: String },
    /// `label: value`, such as a target: ignored.
    Labelled,
    /// A string literal.
    Literal { text: String },
    /// An expression that is a single identifier.
    Name { ident: String },
    /// Any other expression.
    Other,
}

/// The mathematical value of an [`ArgShape`].
pub enum ArgShapeModel {
    Assign { key: Seq<char> },
    Labelled,
    Literal { text: Seq<char> },
    Name { ident: Seq<char> },
    Other,
}

impl View for ArgShape {
    type V = ArgShapeModel;

    open spec fn view(&self) -> ArgShapeModel {
        match self {
            ArgShape::Assign { key } => ArgShapeModel::Assign { key: key@ },
            ArgShape::Labelled => ArgShapeModel::Labelled,
            ArgShape::Literal { text } => ArgShapeModel::Literal { text: text@ },
            ArgShape::Name { ident } => ArgShapeModel::Name { ident: ident@ },
            ArgShape::Other => ArgShapeModel::Other,
        }
    }
}

impl DeepView for ArgShape {
    type V = ArgShapeModel;

    open spec fn deep_view(&self) -> ArgShapeModel {
        self@
    }
}

/// The argument list of a log macro, taken apart.
#[derive(Debug, Clone, PartialEq, Eq)]
pub struct LogArgs {
    /// The fields: each key with the position of its value.
    pub fields: Vec<(String, usize)>,
    /// The format string, where there is one.
    pub fmt_str: Option<String>,
    /// The positions of the format arguments.
    pub fmt_args: Vec<usize>,
}

/// The mathematical value of a [`LogArgs`].
pub struct LogArgsModel {
    pub fields: Seq<(Seq<char>, usize)>,
    pub fmt_str: Option<Seq<char>>,
    pub fmt_args: Seq<usize>,
}

impl View for LogArgs {
    type V = LogArgsModel;

    open spec fn view(&self) -> LogArgsModel {
        LogArgsModel {
            fields: self.fields.deep_view(),
            fmt_str: match self.fmt_str {
                Some(t) => Some(t@),
                None => None,
            },
            fmt_args: self.fmt_args@,
        }
    }
}

/// What the item at `position` adds. A `key = value` is a field. The first
/// string literal is the format string. Behind the format string every
/// expression is a format argument. Before it a single identifier is the
/// field of that name, and any other expression is dropped.
pub open spec fn take_arg(args: LogArgsModel, shape: ArgShapeModel, position: usize) -> LogArgsModel {
    match shape {
        ArgShapeModel::Assign { key } => LogArgsModel {
            fields: args.fields.push((key, position)),
            ..args
        },
        ArgShapeModel::Labelled => args,
        ArgShapeModel::Literal { text } => if args.fmt_str is None {
            LogArgsModel { fmt_str: Some(text), ..args }
        } else {
            LogArgsModel { fmt_args: args.fmt_args.push(position), ..args }
        },
        ArgShapeModel::Name { ident } => if args.fmt_str is Some {
            LogArgsModel { fmt_args: args.fmt_args.push(position), ..args }
        } else {
            LogArgsModel { fields: args.fields.push((ident, position)), ..args }
        },
        ArgShapeModel::Other => if args.fmt_str is Some {
            LogArgsModel { fmt_args: args.fmt_args.push(position), ..args }
        } else {
            args
        },
    }
}

/// The argument list taken apart, item by item from the left.
pub open spec fn parsed_args(shapes: Seq<ArgShapeModel>) -> LogArgsModel
    decreases shapes.len(),
{
    if shapes.len() == 0 {
        LogArgsModel { fields: Seq::empty(), fmt_str: None, fmt_args: Seq::empty() }
    } else {
        take_arg(parsed_args(shapes.drop_last()), shapes.last(), (shapes.len() - 1) as usize)
    }
}

/// The device-side log call that a log macro expands to.
#[derive(Debug, Clone, PartialEq, Eq)]
pub struct LogCall {
    /// The path of the log macro.
    pub macro_path: &'static str,
    /// The format string.
    pub format: String,
    /// The positions of the expressions that are passed behind the format
    /// string, in order: the format arguments, then the values of the fields.
    pub args: Vec<usize>,
}

impl LogArgs {
    /// Takes the argument list of a log macro apart.
    pub fn parse(input: &Vec<ArgShape>) -> (args: LogArgs)
        ensures
            args@ == parsed_args(input.deep_view()),
            forall|j: int| 0 <= j < args.fmt_args.len() ==> args.fmt_args[j] < input.len(),
            forall|j: int| 0 <= j < args.fields.len() ==> args.fields[j].1 < input.len(),
    {
        let mut args = LogArgs { fields: Vec::new(), fmt_str: None, fmt_args: Vec::new() };
        proof {
            assert(args.fields.deep_view() =~= Seq::<(Seq<char>, usize)>::empty());
            assert(input.deep_view().take(0).len() == 0);
        }
        let mut i: usize = 0;
        while i < input.len()
            invariant
                i <= input.len(),
                args@ == parsed_args(input.deep_view().take(i as int)),
                forall|j: int| 0 <= j < args.fmt_args.len() ==> args.fmt_args[j] < i,
                forall|j: int| 0 <= j < args.fields.len() ==> args.fields[j].1 < i,
            decreases input.len() - i,
        {
            let ghost before = args@;
            proof {
                let now = input.deep_view().take(i + 1);
                assert(now.drop_last() =~= input.deep_view().take(i as int));
                assert(now.last() == input[i as int]@);
            }
            match &input[i] {
                ArgShape::Assign { key } => {
                    args.fields.push((key.clone(), i));
                    proof {
                        assert(args.fields.deep_view() =~= before.fields.push((key@, i)));
                    }
                },
                ArgShape::Labelled => {},
                ArgShape::Literal { text } => {
                    if args.fmt_str.is_none() {
                        args.fmt_str = Some(text.clone());
                    } else {
                        args.fmt_args.push(i);
                    }
                },
                ArgShape::Name { ident } => {
                    if args.fmt_str.is_some() {
                        args.fmt_args.push(i);
                    } else {
                        args.fields.push((ident.clone(), i));
                        proof {
                            assert(args.fields.deep_view() =~= before.fields.push((ident@, i)));
                        }
                    }
                },
                ArgShape::Other => {
                    if args.fmt_str.is_some() {
                        args.fmt_args.push(i);
                    }
                },
            }
            i += 1;
        }
        proof {
            assert(input.deep_view().take(input.len() as int) =~= input.deep_view());
        }
        args
    }
}

/// The message of a log call: its format string, or the empty text.
pub open spec fn message_of(args: LogArgsModel) -> Seq<char> {
    match args.fmt_str {
        Some(text) => text,
        None => Seq::empty(),
    }
}

/// Plans the log call of a log macro for the level named `level`.
pub fn impl_log_macro(level: &str, input: &Vec<ArgShape>) -> (call: LogCall)
    ensures
        call.macro_path@ == macro_path_of(level@),
        call.format@ == log_format(
            message_of(parsed_args(input.deep_view())),
            parsed_args(input.deep_view()).fields,
        ),
        call.args@ == parsed_args(input.deep_view()).fmt_args + field_values(
            parsed_args(input.deep_view()).fields,
        ),
        forall|i: int| 0 <= i < call.args.len() ==> call.args[i] < input.len(),
{
    let parsed = LogArgs::parse(input);
    let macro_path = level_to_macro_path(level);
    let mut format = match parsed.fmt_str {
        Some(text) => text,
        None => String::new(),
    };
    let mut args = parsed.fmt_args;
    let fields = parsed.fields;
    let ghost message = format@;
    let ghost positions = args@;
    let mut slots: Vec<String> = Vec::new();
    let mut i: usize = 0;
    while i < fields.len()
        invariant
            i <= fields.len(),
            slots.len() == i,
            forall|j: int| 0 <= j < i ==> slots[j]@ == slot(#[trigger] fields.deep_view()[j].0),
            args@ == positions + field_values(fields.deep_view()).take(i as int),
            forall|j: int| 0 <= j < fields.len() ==> fields[j].1 < input.len(),
            forall|j: int| 0 <= j < args.len() ==> args[j] < input.len(),
        decreases fields.len() - i,
    {
        slots.push(fields[i].0.clone().concat("={}"));
        args.push(fields[i].1);
        proof {
            assert(fields.deep_view()[i as int] == (fields[i as int].0@, fields[i as int].1));
            assert(args@ =~= positions + field_values(fields.deep_view()).take(i + 1));
        }
        i += 1;
    }
    proof {
        assert(slots.deep_view() =~= field_slots(fields.deep_view()));
        assert(field_values(fields.deep_view()).take(fields.len() as int) =~= field_values(
            fields.deep_view(),
        ));
    }
    if fields.len() > 0 {
        if format.as_str().unicode_len() > 0 {
            format.append(", ");
        }
        format.append(join(&slots, ", ").as_str());
        proof {
            if message.len() == 0 {
                assert(format@ =~= joined(field_slots(fields.deep_view()), ", "@));
            }
        }
    }
    LogCall { macro_path, format, args }
}

proof fn lemma_level_names_differ()
    ensures
        "trace"@[0] == 't',
        "debug"@[0] == 'd',
        "info"@[0] == 'i',
        "warn"@[0] == 'w',
        "error"@[0] == 'e',
{
    reveal_strlit("trace");
    reveal_strlit("debug");
    reveal_strlit("info");
    reveal_strlit("warn");
    reveal_strlit("error");
}

/// Plans the log call of the `trace` macro.
pub fn trace(input: &Vec<ArgShape>) -> (call: LogCall)
    ensures
        call.macro_path@ == "defmt::trace"@,
        call.format@ == log_format(
            message_of(parsed_args(input.deep_view())),
            parsed_args(input.deep_view()).fields,
        ),
        call.args@ == parsed_args(input.deep_view()).fmt_args + field_values(
            parsed_args(input.deep_view()).fields,
        ),
        forall|i: int| 0 <= i < call.args.len() ==> call.args[i] < input.len(),
{
    proof {
        lemma_level_names_differ();
    }
    impl_log_macro("trace", input)
}

/// Plans the log call of the `debug` macro.
pub fn debug(input: &Vec<ArgShape>) -> (call: LogCall)
    ensures
        call.macro_path@ == "defmt::debug"@,
        call.format@ == log_format(
            message_of(parsed_args(input.deep_view())),
            parsed_args(input.deep_view()).fields,
        ),
        call.args@ == parsed_args(input.deep_view()).fmt_args + field_values(
            parsed_args(input.deep_view()).fields,
        ),
        forall|i: int| 0 <= i < call.args.len() ==> call.args[i] < input.len(),
{
    proof {
        lemma_level_names_differ();
    }
    impl_log_macro("debug", input)
}

/// Plans the log call of the `info` macro.
pub fn info(input: &Vec<ArgShape>) -> (call: LogCall)
    ensures
        call.macro_path@ == "defmt::info"@,
        call.format@ == log_format(
            message_of(parsed_args(input.deep_view())),
            parsed_args(input.deep_view()).fields,
        ),
        call.args@ == parsed_args(input.deep_view()).fmt_args + field_values(
            parsed_args(input.deep_view()).fields,
        ),
        forall|i: int| 0 <= i < call.args.len() ==> call.args[i] < input.len(),
{
    proof {
        lemma_level_names_differ();
    }
    impl_log_macro("info", input)
}

/// Plans the log call of the `warn` macro.
pub fn warn(input: &Vec<ArgShape>) -> (call: LogCall)
    ensures
        call.macro_path@ == "defmt::warn"@,
        call.format@ == log_format(
            message_of(parsed_args(input.deep_view())),
            parsed_args(input.deep_view()).fields,
        ),
        call.args@ == parsed_args(input.deep_view()).fmt_args + field_values(
            parsed_args(input.deep_view()).fields,
        ),
        forall|i: int| 0 <= i < call.args.len() ==> call.args[i] < input.len(),
{
    proof {
        lemma_level_names_differ();
    }
    impl_log_macro("warn", input)
}

/// Plans the log call of the `error` macro.
pub fn error(input: &Vec<ArgShape>) -> (call: LogCall)
    ensures
        call.macro_path@ == "defmt::error"@,
        call.format@ == log_format(
            message_of(parsed_args(input.deep_view())),
            parsed_args(input.deep_view()).fields,
        ),
        call.args@ == parsed_args(input.deep_view()).fmt_args + field_values(
            parsed_args(input.deep_view()).fields,
        ),
        forall|i: int| 0 <= i < call.args.len() ==> call.args[i] < input.len(),
{
    proof {
        lemma_level_names_differ();
    }
    impl_log_macro("error", input)
}

} // verus!
