//! The declaration of a metric group in source text: a struct whose
//! fields are metrics, configured by `metric(...)` attributes and
//! documented by doc comments. This module reads a declaration, as
//! the attribute trees that a parser of Rust syntax hands over, and
//! says which names, help texts, labels and buckets it declares.

use vstd::prelude::*;
use crate::labels::same_text;
use crate::schema::texts;

verus! {

/// A literal.
#[derive(Debug)]
pub enum Literal {
    /// A string literal, with its value.
    Str(String),
    /// An integer literal, with its decimal digits.
    Int(String),
    /// A floating point literal, with its decimal digits.
    Float(String),
    /// Any other literal.
    Other,
}

/// An item of a list inside a parameter: `"url"` in `labels("url")`.
#[derive(Debug)]
pub enum ListItem {
    Lit(Literal),
    /// Anything that is not a literal.
    Meta,
}

/// What stands behind the name of a parameter.
#[derive(Debug)]
pub enum MetaValue {
    /// Nothing: `name`.
    Path,
    /// A value: `name = "requests"`.
    NameValue(Literal),
    /// A list: `labels("url", "status")`.
    List(Vec<ListItem>),
}

/// A named parameter of a `metric(...)` attribute. A name of several
/// segments is written with `::` between them.
#[derive(Debug)]
pub struct Meta {
    pub path: String,
    pub value: MetaValue,
}

/// An item of the list of a `metric(...)` attribute.
#[derive(Debug)]
pub enum NestedItem {
    /// A literal, where a named parameter is expected.
    Lit,
    Meta(Meta),
}

/// What an attribute holds behind its name.
#[derive(Debug)]
pub enum AttributeBody {
    /// Something that is not the syntax of an attribute's arguments.
    Malformed,
    /// Nothing: `#[metric]`.
    Path,
    /// A value: `#[doc = "text"]`.
    NameValue(Literal),
    /// A list: `#[metric(...)]`.
    List(Vec<NestedItem>),
}

/// An attribute of a struct or of a field. A name of several segments
/// is written with `::` between them.
#[derive(Debug)]
pub struct Attribute {
    pub path: String,
    pub body: AttributeBody,
}

/// The parameters that a `metric(...)` attribute can set.
#[derive(Clone, Copy, Debug, PartialEq, Eq, Structural)]
pub enum Key {
    Subsystem,
    Name,
    Help,
    Labels,
    Buckets,
}

/// What is wrong with a declaration.
#[derive(Clone, Copy, Debug, PartialEq, Eq, Structural)]
pub enum Fault {
    /// The arguments of an attribute are not attribute syntax.
    Malformed,
    /// The `metric` attribute has no list: it must be `metric(...)`.
    NotAList,
    /// A literal stands where a named parameter is expected.
    ExpectedNamedParameter,
    /// The parameter is unknown, or not allowed at this level.
    UnexpectedParameter,
    /// The parameter is set a second time.
    Redefined(Key),
    /// A value is expected: `name = value`, or a literal in a list.
    ExpectedValue,
    /// A list of values is expected: `name(value, ...)`.
    ExpectedList,
    /// The value is not a string literal.
    ExpectedString,
    /// The value is not a numeric literal.
    ExpectedNumber,
    /// A label occurs twice in one list.
    DuplicateLabel,
    /// The field has no name, or an empty one.
    MissingName,
    /// The field has no help text, or an empty one.
    MissingHelp,
}

/// A fault and where it was found: in which field (`None` for the
/// struct itself), in which of its attributes, at which parameter of
/// the attribute and at which item of the parameter's list, each
/// counted from zero and as far as the fault has such a place.
#[derive(Clone, Copy, Debug, PartialEq, Eq, Structural)]
pub struct DeclarationError {
    pub fault: Fault,
    pub field: Option<usize>,
    pub attribute: Option<usize>,
    pub parameter: Option<usize>,
    pub element: Option<usize>,
}

/// A fault at a place inside an attribute.
pub open spec fn fault_at(
    fault: Fault,
    attribute: usize,
    parameter: Option<usize>,
    element: Option<usize>,
) -> DeclarationError {
    DeclarationError { fault, field: None, attribute: Some(attribute), parameter, element }
}

/// What the attributes of a struct or field set.
#[derive(Debug)]
pub struct MetricAttrs {
    pub subsystem: Option<String>,
    pub name: Option<String>,
    pub help: Option<String>,
    pub labels: Option<Vec<String>>,
    /// The bucket bounds, as the digits of their literals.
    pub buckets: Option<Vec<String>>,
}

/// What the attributes of a struct or field set, as character
/// sequences.
pub struct AttrsView {
    pub subsystem: Option<Seq<char>>,
    pub name: Option<Seq<char>>,
    pub help: Option<Seq<char>>,
    pub labels: Option<Seq<Seq<char>>>,
    pub buckets: Option<Seq<Seq<char>>>,
}

/// The characters of an optional string.
pub open spec fn text_of(text: Option<String>) -> Option<Seq<char>> {
    match text {
        Some(t) => Some(t@),
        None => None,
    }
}

/// The character sequences of an optional list of strings.
pub open spec fn texts_of(list: Option<Vec<String>>) -> Option<Seq<Seq<char>>> {
    match list {
        Some(l) => Some(texts(l@)),
        None => None,
    }
}

impl View for MetricAttrs {
    type V = AttrsView;

    open spec fn view(&self) -> AttrsView {
        AttrsView {
            subsystem: text_of(self.subsystem),
            name: text_of(self.name),
            help: text_of(self.help),
            labels: texts_of(self.labels),
            buckets: texts_of(self.buckets),
        }
    }
}

/// Attributes that set nothing.
pub open spec fn no_attrs() -> AttrsView {
    AttrsView { subsystem: None, name: None, help: None, labels: None, buckets: None }
}

/// A character with the Unicode property White_Space.
pub open spec fn is_white_space(c: char) -> bool {
    ||| '\u{9}' <= c <= '\u{d}'
    ||| c == ' '
    ||| c == '\u{85}'
    ||| c == '\u{a0}'
    ||| c == '\u{1680}'
    ||| '\u{2000}' <= c <= '\u{200a}'
    ||| c == '\u{2028}'
    ||| c == '\u{2029}'
    ||| c == '\u{202f}'
    ||| c == '\u{205f}'
    ||| c == '\u{3000}'
}

/// The text without the white space at its start.
pub open spec fn trimmed_start(text: Seq<char>) -> Seq<char>
    decreases text.len(),
{
    if text.len() > 0 && is_white_space(text.first()) {
        trimmed_start(text.drop_first())
    } else {
        text
    }
}

/// The text without the white space at its end.
pub open spec fn trimmed_end(text: Seq<char>) -> Seq<char>
    decreases text.len(),
{
    if text.len() > 0 && is_white_space(text.last()) {
        trimmed_end(text.drop_last())
    } else {
        text
    }
}

/// The text without the white space at its two ends.
pub open spec fn trimmed(text: Seq<char>) -> Seq<char> {
    trimmed_end(trimmed_start(text))
}

/// `str::trim`: the text without leading and trailing white space,
/// which is every character with the Unicode property White_Space.
#[verifier::external_body]
fn trim(text: &str) -> (short: String)
    ensures
        short@ == trimmed(text@),
{
    text.trim().to_string()
}

/// The parameter that a name stands for, at the level of the struct
/// or at that of a field: `subsystem` for the struct only, `name`,
/// `help` and `buckets` for fields only, `labels` for both.
pub open spec fn key_of(name: Seq<char>, is_struct_level: bool) -> Option<Key> {
    if is_struct_level && name == "subsystem"@ {
        Some(Key::Subsystem)
    } else if !is_struct_level && name == "name"@ {
        Some(Key::Name)
    } else if !is_struct_level && name == "help"@ {
        Some(Key::Help)
    } else if name == "labels"@ {
        Some(Key::Labels)
    } else if !is_struct_level && name == "buckets"@ {
        Some(Key::Buckets)
    } else {
        None
    }
}

/// The value of a string literal.
pub open spec fn string_of(lit: Literal) -> Result<Seq<char>, Fault> {
    match lit {
        Literal::Str(text) => Ok(text@),
        _ => Err(Fault::ExpectedString),
    }
}

/// The digits of a numeric literal.
pub open spec fn number_of(lit: Literal) -> Result<Seq<char>, Fault> {
    match lit {
        Literal::Int(digits) => Ok(digits@),
        Literal::Float(digits) => Ok(digits@),
        _ => Err(Fault::ExpectedNumber),
    }
}

/// The string that a parameter of the form `name = "text"` gives.
pub open spec fn text_value(meta: Meta) -> Result<Seq<char>, Fault> {
    match meta.value {
        MetaValue::NameValue(lit) => string_of(lit),
        _ => Err(Fault::ExpectedValue),
    }
}

/// The labels that the first `upto` items of a list give: each item a
/// string literal, none equal to an earlier one. The first item that
/// is not so gives the fault, with its position.
pub open spec fn labels_upto(items: Seq<ListItem>, upto: int) -> Result<Seq<Seq<char>>, (Fault, usize)>
    decreases upto,
{
    if upto <= 0 {
        Ok(Seq::empty())
    } else {
        match labels_upto(items, upto - 1) {
            Err(e) => Err(e),
            Ok(labels) => match items[upto - 1] {
                ListItem::Meta => Err((Fault::ExpectedValue, (upto - 1) as usize)),
                ListItem::Lit(lit) => match string_of(lit) {
                    Err(fault) => Err((fault, (upto - 1) as usize)),
                    Ok(label) => if labels.contains(label) {
                        Err((Fault::DuplicateLabel, (upto - 1) as usize))
                    } else {
                        Ok(labels.push(label))
                    },
                },
            },
        }
    }
}

/// The bucket bounds that the first `upto` items of a list give: each
/// item a numeric literal. The first item that is not so gives the
/// fault, with its position.
pub open spec fn buckets_upto(items: Seq<ListItem>, upto: int) -> Result<Seq<Seq<char>>, (Fault, usize)>
    decreases upto,
{
    if upto <= 0 {
        Ok(Seq::empty())
    } else {
        match buckets_upto(items, upto - 1) {
            Err(e) => Err(e),
            Ok(buckets) => match items[upto - 1] {
                ListItem::Meta => Err((Fault::ExpectedValue, (upto - 1) as usize)),
                ListItem::Lit(lit) => match number_of(lit) {
                    Err(fault) => Err((fault, (upto - 1) as usize)),
                    Ok(digits) => Ok(buckets.push(digits)),
                },
            },
        }
    }
}

/// The attributes after `subsystem = "text"`.
pub open spec fn with_subsystem(
    attrs: AttrsView,
    meta: Meta,
    attribute: usize,
    parameter: usize,
) -> Result<AttrsView, DeclarationError> {
    if attrs.subsystem is Some {
        Err(fault_at(Fault::Redefined(Key::Subsystem), attribute, Some(parameter), None))
    } else {
        match text_value(meta) {
            Ok(text) => Ok(AttrsView { subsystem: Some(text), ..attrs }),
            Err(fault) => Err(fault_at(fault, attribute, Some(parameter), None)),
        }
    }
}

/// The attributes after `name = "text"`.
pub open spec fn with_name(
    attrs: AttrsView,
    meta: Meta,
    attribute: usize,
    parameter: usize,
) -> Result<AttrsView, DeclarationError> {
    if attrs.name is Some {
        Err(fault_at(Fault::Redefined(Key::Name), attribute, Some(parameter), None))
    } else {
        match text_value(meta) {
            Ok(text) => Ok(AttrsView { name: Some(text), ..attrs }),
            Err(fault) => Err(fault_at(fault, attribute, Some(parameter), None)),
        }
    }
}

/// The attributes after `help = "text"`.
pub open spec fn with_help(
    attrs: AttrsView,
    meta: Meta,
    attribute: usize,
    parameter: usize,
) -> Result<AttrsView, DeclarationError> {
    if attrs.help is Some {
        Err(fault_at(Fault::Redefined(Key::Help), attribute, Some(parameter), None))
    } else {
        match text_value(meta) {
            Ok(text) => Ok(AttrsView { help: Some(text), ..attrs }),
            Err(fault) => Err(fault_at(fault, attribute, Some(parameter), None)),
        }
    }
}

/// The attributes after `labels("a", "b", ...)`.
pub open spec fn with_labels(
    attrs: AttrsView,
    meta: Meta,
    attribute: usize,
    parameter: usize,
) -> Result<AttrsView, DeclarationError> {
    if attrs.labels is Some {
        Err(fault_at(Fault::Redefined(Key::Labels), attribute, Some(parameter), None))
    } else {
        match meta.value {
            MetaValue::List(items) => match labels_upto(items@, items@.len() as int) {
                Ok(labels) => Ok(AttrsView { labels: Some(labels), ..attrs }),
                Err((fault, at)) => Err(fault_at(fault, attribute, Some(parameter), Some(at))),
            },
            _ => Err(fault_at(Fault::ExpectedList, attribute, Some(parameter), None)),
        }
    }
}

/// The attributes after `buckets(0.1, 1, ...)`.
pub open spec fn with_buckets(
    attrs: AttrsView,
    meta: Meta,
    attribute: usize,
    parameter: usize,
) -> Result<AttrsView, DeclarationError> {
    if attrs.buckets is Some {
        Err(fault_at(Fault::Redefined(Key::Buckets), attribute, Some(parameter), None))
    } else {
        match meta.value {
            MetaValue::List(items) => match buckets_upto(items@, items@.len() as int) {
                Ok(buckets) => Ok(AttrsView { buckets: Some(buckets), ..attrs }),
                Err((fault, at)) => Err(fault_at(fault, attribute, Some(parameter), Some(at))),
            },
            _ => Err(fault_at(Fault::ExpectedList, attribute, Some(parameter), None)),
        }
    }
}

/// The attributes after one named parameter.
pub open spec fn with_parameter(
    attrs: AttrsView,
    meta: Meta,
    is_struct_level: bool,
    attribute: usize,
    parameter: usize,
) -> Result<AttrsView, DeclarationError> {
    match key_of(meta.path@, is_struct_level) {
        Some(Key::Subsystem) => with_subsystem(attrs, meta, attribute, parameter),
        Some(Key::Name) => with_name(attrs, meta, attribute, parameter),
        Some(Key::Help) => with_help(attrs, meta, attribute, parameter),
        Some(Key::Labels) => with_labels(attrs, meta, attribute, parameter),
        Some(Key::Buckets) => with_buckets(attrs, meta, attribute, parameter),
        None => Err(fault_at(Fault::UnexpectedParameter, attribute, Some(parameter), None)),
    }
}

/// The attributes after the first `upto` items of the list of a
/// `metric(...)` attribute.
pub open spec fn with_items(
    attrs: AttrsView,
    items: Seq<NestedItem>,
    is_struct_level: bool,
    attribute: usize,
    upto: int,
) -> Result<AttrsView, DeclarationError>
    decreases upto,
{
    if upto <= 0 {
        Ok(attrs)
    } else {
        match with_items(attrs, items, is_struct_level, attribute, upto - 1) {
            Err(e) => Err(e),
            Ok(sofar) => match items[upto - 1] {
                NestedItem::Lit => Err(
                    fault_at(
                        Fault::ExpectedNamedParameter,
                        attribute,
                        Some((upto - 1) as usize),
                        None,
                    ),
                ),
                NestedItem::Meta(meta) => with_parameter(
                    sofar,
                    meta,
                    is_struct_level,
                    attribute,
                    (upto - 1) as usize,
                ),
            },
        }
    }
}

/// What the attributes read so far have set, and the first doc text
/// among them.
pub struct Reading {
    pub attrs: AttrsView,
    pub doc: Option<Seq<char>>,
}

/// The reading after one more attribute, standing at position
/// `attribute`.
///
/// A `metric` attribute must hold a list, whose parameters are read in
/// turn. A `doc` attribute, while no doc text was found, gives its
/// trimmed string as the doc text; one without a string gives none.
/// Other attributes are passed over.
pub open spec fn with_attribute(
    reading: Reading,
    attr: Attribute,
    is_struct_level: bool,
    attribute: usize,
) -> Result<Reading, DeclarationError> {
    if attr.path@ == "metric"@ {
        match attr.body {
            AttributeBody::Malformed => Err(fault_at(Fault::Malformed, attribute, None, None)),
            AttributeBody::List(items) => match with_items(
                reading.attrs,
                items@,
                is_struct_level,
                attribute,
                items@.len() as int,
            ) {
                Ok(attrs) => Ok(Reading { attrs, doc: reading.doc }),
                Err(e) => Err(e),
            },
            _ => Err(fault_at(Fault::NotAList, attribute, None, None)),
        }
    } else if reading.doc is None && attr.path@ == "doc"@ {
        match attr.body {
            AttributeBody::Malformed => Err(fault_at(Fault::Malformed, attribute, None, None)),
            AttributeBody::NameValue(Literal::Str(text)) => Ok(
                Reading { attrs: reading.attrs, doc: Some(trimmed(text@)) },
            ),
            _ => Ok(reading),
        }
    } else {
        Ok(reading)
    }
}

/// The reading after the first `upto` attributes.
pub open spec fn with_attributes(attrs: Seq<Attribute>, is_struct_level: bool, upto: int) -> Result<
    Reading,
    DeclarationError,
>
    decreases upto,
{
    if upto <= 0 {
        Ok(Reading { attrs: no_attrs(), doc: None })
    } else {
        match with_attributes(attrs, is_struct_level, upto - 1) {
            Err(e) => Err(e),
            Ok(reading) => with_attribute(
                reading,
                attrs[upto - 1],
                is_struct_level,
                (upto - 1) as usize,
            ),
        }
    }
}

/// What the attributes of a struct or of a field set, or the first
/// fault in them. A help text that no parameter sets is the first doc
/// text.
pub open spec fn parse_result(attrs: Seq<Attribute>, is_struct_level: bool) -> Result<
    AttrsView,
    DeclarationError,
> {
    match with_attributes(attrs, is_struct_level, attrs.len() as int) {
        Err(e) => Err(e),
        Ok(reading) => if reading.attrs.help is None {
            Ok(AttrsView { help: reading.doc, ..reading.attrs })
        } else {
            Ok(reading.attrs)
        },
    }
}

/// Whether the list holds the text.
pub fn contains_text(list: &Vec<String>, text: &str) -> (found: bool)
    ensures
        found == texts(list@).contains(text@),
{
    let mut i: usize = 0;
    while i < list.len()
        invariant
            i <= list@.len(),
            forall|j: int| 0 <= j < i ==> (#[trigger] texts(list@)[j]) != text@,
        decreases list@.len() - i,
    {
        if same_text(list[i].as_str(), text) {
            assert(texts(list@)[i as int] == text@);
            return true;
        }
        i += 1;
    }
    false
}

impl MetricAttrs {
    /// Refuses a parameter that is set already.
    pub fn check_none(key: Key, is_some: bool, attribute: usize, parameter: usize) -> (checked:
        Result<(), DeclarationError>)
        ensures
            match checked {
                Ok(()) => !is_some,
                Err(e) => is_some && e == fault_at(
                    Fault::Redefined(key),
                    attribute,
                    Some(parameter),
                    None,
                ),
            },
    {
        if is_some {
            Err(
                DeclarationError {
                    fault: Fault::Redefined(key),
                    field: None,
                    attribute: Some(attribute),
                    parameter: Some(parameter),
                    element: None,
                },
            )
        } else {
            Ok(())
        }
    }

    /// The value of a parameter of the form `name = value`.
    pub fn meta_to_value(meta: &Meta) -> (value: Result<&Literal, Fault>)
        ensures
            match value {
                Ok(lit) => meta.value == MetaValue::NameValue(*lit),
                Err(fault) => !(meta.value is NameValue) && fault == Fault::ExpectedValue,
            },
    {
        match &meta.value {
            MetaValue::NameValue(lit) => Ok(lit),
            _ => Err(Fault::ExpectedValue),
        }
    }

    /// The literal that an item of a list is.
    pub fn nested_meta_to_value(item: &ListItem) -> (value: Result<&Literal, Fault>)
        ensures
            match value {
                Ok(lit) => *item == ListItem::Lit(*lit),
                Err(fault) => item is Meta && fault == Fault::ExpectedValue,
            },
    {
        match item {
            ListItem::Lit(lit) => Ok(lit),
            ListItem::Meta => Err(Fault::ExpectedValue),
        }
    }

    /// The list of a parameter of the form `name(value, ...)`.
    pub fn meta_to_list(meta: &Meta) -> (list: Result<&Vec<ListItem>, Fault>)
        ensures
            match list {
                Ok(items) => meta.value == MetaValue::List(*items),
                Err(fault) => !(meta.value is List) && fault == Fault::ExpectedList,
            },
    {
        match &meta.value {
            MetaValue::List(items) => Ok(items),
            _ => Err(Fault::ExpectedList),
        }
    }

    /// The value of a string literal.
    pub fn value_to_string(lit: &Literal) -> (value: Result<String, Fault>)
        ensures
            match value {
                Ok(text) => string_of(*lit) == Ok::<Seq<char>, Fault>(text@),
                Err(fault) => string_of(*lit) == Err::<Seq<char>, Fault>(fault),
            },
    {
        match lit {
            Literal::Str(text) => Ok(text.clone()),
            _ => Err(Fault::ExpectedString),
        }
    }

    /// The digits of a numeric literal.
    pub fn value_to_float(lit: &Literal) -> (value: Result<String, Fault>)
        ensures
            match value {
                Ok(digits) => number_of(*lit) == Ok::<Seq<char>, Fault>(digits@),
                Err(fault) => number_of(*lit) == Err::<Seq<char>, Fault>(fault),
            },
    {
        match lit {
            Literal::Int(digits) => Ok(digits.clone()),
            Literal::Float(digits) => Ok(digits.clone()),
            _ => Err(Fault::ExpectedNumber),
        }
    }

    /// The string of a parameter of the form `name = "text"`.
    fn meta_to_string(meta: &Meta, attribute: usize, parameter: usize) -> (value: Result<
        String,
        DeclarationError,
    >)
        ensures
            match value {
                Ok(text) => text_value(*meta) == Ok::<Seq<char>, Fault>(text@),
                Err(e) => text_value(*meta) is Err && e == fault_at(
                    text_value(*meta)->Err_0,
                    attribute,
                    Some(parameter),
                    None,
                ),
            },
    {
        let found = match Self::meta_to_value(meta) {
            Ok(lit) => Self::value_to_string(lit),
            Err(fault) => Err(fault),
        };
        match found {
            Ok(text) => Ok(text),
            Err(fault) => Err(
                DeclarationError {
                    fault,
                    field: None,
                    attribute: Some(attribute),
                    parameter: Some(parameter),
                    element: None,
                },
            ),
        }
    }

    /// Reads `subsystem = "text"`.
    pub fn parse_subsystem(&mut self, meta: &Meta, attribute: usize, parameter: usize) -> (done:
        Result<(), DeclarationError>)
        ensures
            match done {
                Ok(()) => with_subsystem(old(self)@, *meta, attribute, parameter) == Ok::<
                    AttrsView,
                    DeclarationError,
                >(final(self)@),
                Err(e) => final(self)@ == old(self)@ && with_subsystem(
                    old(self)@,
                    *meta,
                    attribute,
                    parameter,
                ) == Err::<AttrsView, DeclarationError>(e),
            },
    {
        match Self::check_none(Key::Subsystem, self.subsystem.is_some(), attribute, parameter) {
            Ok(()) => {},
            Err(e) => {
                return Err(e);
            },
        }
        match Self::meta_to_string(meta, attribute, parameter) {
            Ok(text) => {
                self.subsystem = Some(text);
                Ok(())
            },
            Err(e) => Err(e),
        }
    }

    /// Reads `name = "text"`.
    pub fn parse_name(&mut self, meta: &Meta, attribute: usize, parameter: usize) -> (done: Result<
        (),
        DeclarationError,
    >)
        ensures
            match done {
                Ok(()) => with_name(old(self)@, *meta, attribute, parameter) == Ok::<
                    AttrsView,
                    DeclarationError,
                >(final(self)@),
                Err(e) => final(self)@ == old(self)@ && with_name(
                    old(self)@,
                    *meta,
                    attribute,
                    parameter,
                ) == Err::<AttrsView, DeclarationError>(e),
            },
    {
        match Self::check_none(Key::Name, self.name.is_some(), attribute, parameter) {
            Ok(()) => {},
            Err(e) => {
                return Err(e);
            },
        }
        match Self::meta_to_string(meta, attribute, parameter) {
            Ok(text) => {
                self.name = Some(text);
                Ok(())
            },
            Err(e) => Err(e),
        }
    }

    /// Reads `help = "text"`.
    pub fn parse_help(&mut self, meta: &Meta, attribute: usize, parameter: usize) -> (done: Result<
        (),
        DeclarationError,
    >)
        ensures
            match done {
                Ok(()) => with_help(old(self)@, *meta, attribute, parameter) == Ok::<
                    AttrsView,
                    DeclarationError,
                >(final(self)@),
                Err(e) => final(self)@ == old(self)@ && with_help(
                    old(self)@,
                    *meta,
                    attribute,
                    parameter,
                ) == Err::<AttrsView, DeclarationError>(e),
            },
    {
        match Self::check_none(Key::Help, self.help.is_some(), attribute, parameter) {
            Ok(()) => {},
            Err(e) => {
                return Err(e);
            },
        }
        match Self::meta_to_string(meta, attribute, parameter) {
            Ok(text) => {
                self.help = Some(text);
                Ok(())
            },
            Err(e) => Err(e),
        }
    }

    /// Reads `labels("a", "b", ...)`.
    pub fn parse_labels(&mut self, meta: &Meta, attribute: usize, parameter: usize) -> (done: Result<
        (),
        DeclarationError,
    >)
        ensures
            match done {
                Ok(()) => with_labels(old(self)@, *meta, attribute, parameter) == Ok::<
                    AttrsView,
                    DeclarationError,
                >(final(self)@),
                Err(e) => final(self)@ == old(self)@ && with_labels(
                    old(self)@,
                    *meta,
                    attribute,
                    parameter,
                ) == Err::<AttrsView, DeclarationError>(e),
            },
    {
        match Self::check_none(Key::Labels, self.labels.is_some(), attribute, parameter) {
            Ok(()) => {},
            Err(e) => {
                return Err(e);
            },
        }
        let items = match Self::meta_to_list(meta) {
            Ok(items) => items,
            Err(fault) => {
                return Err(
                    DeclarationError {
                        fault,
                        field: None,
                        attribute: Some(attribute),
                        parameter: Some(parameter),
                        element: None,
                    },
                );
            },
        };
        let mut labels: Vec<String> = Vec::new();
        let mut i: usize = 0;
        let ghost before = self@;
        assert(texts(labels@) =~= Seq::<Seq<char>>::empty());
        while i < items.len()
            invariant
                i <= items@.len(),
                self@ == before,
                before.labels is None,
                meta.value == MetaValue::List(*items),
                labels_upto(items@, i as int) == Ok::<Seq<Seq<char>>, (Fault, usize)>(
                    texts(labels@),
                ),
            decreases items@.len() - i,
        {
            let found = match Self::nested_meta_to_value(&items[i]) {
                Ok(lit) => Self::value_to_string(lit),
                Err(fault) => Err(fault),
            };
            let fault = match found {
                Ok(label) => {
                    if contains_text(&labels, label.as_str()) {
                        Some(Fault::DuplicateLabel)
                    } else {
                        proof {
                            assert(texts(labels@.push(label)) =~= texts(labels@).push(label@));
                        }
                        labels.push(label);
                        None
                    }
                },
                Err(fault) => Some(fault),
            };
            match fault {
                Some(fault) => {
                    proof {
                        lemma_labels_fault_stays(items@, i + 1, items@.len() as int);
                    }
                    return Err(
                        DeclarationError {
                            fault,
                            field: None,
                            attribute: Some(attribute),
                            parameter: Some(parameter),
                            element: Some(i),
                        },
                    );
                },
                None => {},
            }
            i += 1;
        }
        self.labels = Some(labels);
        Ok(())
    }

    /// Reads `buckets(0.1, 1, ...)`.
    pub fn parse_buckets(&mut self, meta: &Meta, attribute: usize, parameter: usize) -> (done:
        Result<(), DeclarationError>)
        ensures
            match done {
                Ok(()) => with_buckets(old(self)@, *meta, attribute, parameter) == Ok::<
                    AttrsView,
                    DeclarationError,
                >(final(self)@),
                Err(e) => final(self)@ == old(self)@ && with_buckets(
                    old(self)@,
                    *meta,
                    attribute,
                    parameter,
                ) == Err::<AttrsView, DeclarationError>(e),
            },
    {
        match Self::check_none(Key::Buckets, self.buckets.is_some(), attribute, parameter) {
            Ok(()) => {},
            Err(e) => {
                return Err(e);
            },
        }
        let items = match Self::meta_to_list(meta) {
            Ok(items) => items,
            Err(fault) => {
                return Err(
                    DeclarationError {
                        fault,
                        field: None,
                        attribute: Some(attribute),
                        parameter: Some(parameter),
                        element: None,
                    },
                );
            },
        };
        let mut buckets: Vec<String> = Vec::new();
        let mut i: usize = 0;
        let ghost before = self@;
        assert(texts(buckets@) =~= Seq::<Seq<char>>::empty());
        while i < items.len()
            invariant
                i <= items@.len(),
                self@ == before,
                before.buckets is None,
                meta.value == MetaValue::List(*items),
                buckets_upto(items@, i as int) == Ok::<Seq<Seq<char>>, (Fault, usize)>(
                    texts(buckets@),
                ),
            decreases items@.len() - i,
        {
            let found = match Self::nested_meta_to_value(&items[i]) {
                Ok(lit) => Self::value_to_float(lit),
                Err(fault) => Err(fault),
            };
            match found {
                Ok(digits) => {
                    proof {
                        assert(texts(buckets@.push(digits)) =~= texts(buckets@).push(digits@));
                    }
                    buckets.push(digits);
                },
                Err(fault) => {
                    proof {
                        lemma_buckets_fault_stays(items@, i + 1, items@.len() as int);
                    }
                    return Err(
                        DeclarationError {
                            fault,
                            field: None,
                            attribute: Some(attribute),
                            parameter: Some(parameter),
                            element: Some(i),
                        },
                    );
                },
            }
            i += 1;
        }
        self.buckets = Some(buckets);
        Ok(())
    }
}

/// A fault among the first items of a list of labels is the fault of
/// every longer part of the list.
pub proof fn lemma_labels_fault_stays(items: Seq<ListItem>, upto: int, later: int)
    requires
        0 <= upto <= later,
        labels_upto(items, upto) is Err,
    ensures
        labels_upto(items, later) == labels_upto(items, upto),
    decreases later - upto,
{
    if upto < later {
        lemma_labels_fault_stays(items, upto, later - 1);
    }
}

/// A fault among the first items of a list of buckets is the fault of
/// every longer part of the list.
pub proof fn lemma_buckets_fault_stays(items: Seq<ListItem>, upto: int, later: int)
    requires
        0 <= upto <= later,
        buckets_upto(items, upto) is Err,
    ensures
        buckets_upto(items, later) == buckets_upto(items, upto),
    decreases later - upto,
{
    if upto < later {
        lemma_buckets_fault_stays(items, upto, later - 1);
    }
}

/// A fault among the first items of an attribute's list is the fault
/// of every longer part of the list.
pub proof fn lemma_items_fault_stays(
    attrs: AttrsView,
    items: Seq<NestedItem>,
    is_struct_level: bool,
    attribute: usize,
    upto: int,
    later: int,
)
    requires
        0 <= upto <= later,
        with_items(attrs, items, is_struct_level, attribute, upto) is Err,
    ensures
        with_items(attrs, items, is_struct_level, attribute, later) == with_items(
            attrs,
            items,
            is_struct_level,
            attribute,
            upto,
        ),
    decreases later - upto,
{
    if upto < later {
        lemma_items_fault_stays(attrs, items, is_struct_level, attribute, upto, later - 1);
    }
}

/// A fault among the first attributes is the fault of every longer
/// part of the list of attributes.
pub proof fn lemma_attributes_fault_stays(
    attrs: Seq<Attribute>,
    is_struct_level: bool,
    upto: int,
    later: int,
)
    requires
        0 <= upto <= later,
        with_attributes(attrs, is_struct_level, upto) is Err,
    ensures
        with_attributes(attrs, is_struct_level, later) == with_attributes(
            attrs,
            is_struct_level,
            upto,
        ),
    decreases later - upto,
{
    if upto < later {
        lemma_attributes_fault_stays(attrs, is_struct_level, upto, later - 1);
    }
}

impl MetricAttrs {
    /// Attributes that set nothing.
    pub fn new() -> (attrs: MetricAttrs)
        ensures
            attrs@ == no_attrs(),
    {
        MetricAttrs { subsystem: None, name: None, help: None, labels: None, buckets: None }
    }

    /// Reads one named parameter of a `metric(...)` attribute.
    pub fn parse_parameter(
        &mut self,
        meta: &Meta,
        is_struct_level: bool,
        attribute: usize,
        parameter: usize,
    ) -> (done: Result<(), DeclarationError>)
        ensures
            match done {
                Ok(()) => with_parameter(old(self)@, *meta, is_struct_level, attribute, parameter)
                    == Ok::<AttrsView, DeclarationError>(final(self)@),
                Err(e) => final(self)@ == old(self)@ && with_parameter(
                    old(self)@,
                    *meta,
                    is_struct_level,
                    attribute,
                    parameter,
                ) == Err::<AttrsView, DeclarationError>(e),
            },
    {
        let path = meta.path.as_str();
        if is_struct_level && same_text(path, "subsystem") {
            self.parse_subsystem(meta, attribute, parameter)
        } else if !is_struct_level && same_text(path, "name") {
            self.parse_name(meta, attribute, parameter)
        } else if !is_struct_level && same_text(path, "help") {
            self.parse_help(meta, attribute, parameter)
        } else if same_text(path, "labels") {
            self.parse_labels(meta, attribute, parameter)
        } else if !is_struct_level && same_text(path, "buckets") {
            self.parse_buckets(meta, attribute, parameter)
        } else {
            Err(
                DeclarationError {
                    fault: Fault::UnexpectedParameter,
                    field: None,
                    attribute: Some(attribute),
                    parameter: Some(parameter),
                    element: None,
                },
            )
        }
    }

    /// Reads the list of a `metric(...)` attribute, one parameter
    /// after the other.
    pub fn parse_items(
        &mut self,
        items: &Vec<NestedItem>,
        is_struct_level: bool,
        attribute: usize,
    ) -> (done: Result<(), DeclarationError>)
        ensures
            match done {
                Ok(()) => with_items(
                    old(self)@,
                    items@,
                    is_struct_level,
                    attribute,
                    items@.len() as int,
                ) == Ok::<AttrsView, DeclarationError>(final(self)@),
                Err(e) => with_items(
                    old(self)@,
                    items@,
                    is_struct_level,
                    attribute,
                    items@.len() as int,
                ) == Err::<AttrsView, DeclarationError>(e),
            },
    {
        let ghost before = self@;
        let mut j: usize = 0;
        while j < items.len()
            invariant
                j <= items@.len(),
                before == old(self)@,
                with_items(before, items@, is_struct_level, attribute, j as int) == Ok::<
                    AttrsView,
                    DeclarationError,
                >(self@),
            decreases items@.len() - j,
        {
            let done = match &items[j] {
                NestedItem::Lit => Err(
                    DeclarationError {
                        fault: Fault::ExpectedNamedParameter,
                        field: None,
                        attribute: Some(attribute),
                        parameter: Some(j),
                        element: None,
                    },
                ),
                NestedItem::Meta(meta) => self.parse_parameter(
                    meta,
                    is_struct_level,
                    attribute,
                    j,
                ),
            };
            match done {
                Ok(()) => {},
                Err(e) => {
                    proof {
                        lemma_items_fault_stays(
                            before,
                            items@,
                            is_struct_level,
                            attribute,
                            j + 1,
                            items@.len() as int,
                        );
                    }
                    return Err(e);
                },
            }
            j += 1;
        }
        Ok(())
    }

    /// Reads the attributes of a struct or of a field.
    ///
    /// Each `metric(...)` attribute is read in turn; a parameter may
    /// be set once. Where no parameter sets the help text, it is the
    /// trimmed text of the first doc attribute that holds a string.
    /// The first fault ends the reading.
    pub fn parse(attrs: &Vec<Attribute>, is_struct_level: bool) -> (parsed: Result<
        MetricAttrs,
        DeclarationError,
    >)
        ensures
            match parsed {
                Ok(read) => parse_result(attrs@, is_struct_level) == Ok::<
                    AttrsView,
                    DeclarationError,
                >(read@),
                Err(e) => parse_result(attrs@, is_struct_level) == Err::<AttrsView, DeclarationError>(e),
            },
    {
        let mut result = MetricAttrs::new();
        let mut doc: Option<String> = None;
        let mut i: usize = 0;
        while i < attrs.len()
            invariant
                i <= attrs@.len(),
                with_attributes(attrs@, is_struct_level, i as int) == Ok::<Reading, DeclarationError>(
                    Reading { attrs: result@, doc: text_of(doc) },
                ),
            decreases attrs@.len() - i,
        {
            let attr = &attrs[i];
            let mut fault: Option<DeclarationError> = None;
            if same_text(attr.path.as_str(), "metric") {
                match &attr.body {
                    AttributeBody::List(items) => {
                        match result.parse_items(items, is_struct_level, i) {
                            Ok(()) => {},
                            Err(e) => {
                                fault = Some(e);
                            },
                        }
                    },
                    AttributeBody::Malformed => {
                        fault =
                        Some(
                            DeclarationError {
                                fault: Fault::Malformed,
                                field: None,
                                attribute: Some(i),
                                parameter: None,
                                element: None,
                            },
                        );
                    },
                    _ => {
                        fault =
                        Some(
                            DeclarationError {
                                fault: Fault::NotAList,
                                field: None,
                                attribute: Some(i),
                                parameter: None,
                                element: None,
                            },
                        );
                    },
                }
            } else if doc.is_none() && same_text(attr.path.as_str(), "doc") {
                match &attr.body {
                    AttributeBody::Malformed => {
                        fault =
                        Some(
                            DeclarationError {
                                fault: Fault::Malformed,
                                field: None,
                                attribute: Some(i),
                                parameter: None,
                                element: None,
                            },
                        );
                    },
                    AttributeBody::NameValue(Literal::Str(text)) => {
                        doc = Some(trim(text.as_str()));
                    },
                    _ => {},
                }
            }
            match fault {
                Some(e) => {
                    proof {
                        lemma_attributes_fault_stays(
                            attrs@,
                            is_struct_level,
                            i + 1,
                            attrs@.len() as int,
                        );
                    }
                    return Err(e);
                },
                None => {},
            }
            i += 1;
        }
        if result.help.is_none() {
            result.help = doc;
        }
        Ok(result)
    }
}

/// A field of a struct, as it is declared: its name, if it has one,
/// and its attributes.
#[derive(Debug)]
pub struct FieldDeclaration {
    pub ident: Option<String>,
    pub attrs: Vec<Attribute>,
}

/// A struct, as it is declared: its name, its attributes and its
/// fields in their order.
#[derive(Debug)]
pub struct StructDeclaration {
    pub ident: String,
    pub attrs: Vec<Attribute>,
    pub fields: Vec<FieldDeclaration>,
}

/// What a field declares: the metric's name, its help text, its
/// variable labels and, if it names any, its bucket bounds as digits.
#[derive(Debug)]
pub struct FieldPlan {
    pub name: String,
    pub help: String,
    pub labels: Vec<String>,
    pub buckets: Option<Vec<String>>,
}

/// What a field declares, as character sequences.
pub struct FieldPlanView {
    pub name: Seq<char>,
    pub help: Seq<char>,
    pub labels: Seq<Seq<char>>,
    pub buckets: Option<Seq<Seq<char>>>,
}

impl View for FieldPlan {
    type V = FieldPlanView;

    open spec fn view(&self) -> FieldPlanView {
        FieldPlanView {
            name: self.name@,
            help: self.help@,
            labels: texts(self.labels@),
            buckets: texts_of(self.buckets),
        }
    }
}

/// What a struct declares: its name, the subsystem, the constant
/// labels and what each field declares.
#[derive(Debug)]
pub struct GroupPlan {
    pub ident: String,
    pub subsystem: String,
    pub labels: Vec<String>,
    pub fields: Vec<FieldPlan>,
}

/// What a struct declares, as character sequences.
pub struct GroupPlanView {
    pub ident: Seq<char>,
    pub subsystem: Seq<char>,
    pub labels: Seq<Seq<char>>,
    pub fields: Seq<FieldPlanView>,
}

/// What each field of a list declares, as character sequences.
pub open spec fn plan_views(plans: Seq<FieldPlan>) -> Seq<FieldPlanView> {
    Seq::new(plans.len(), |i: int| plans[i]@)
}

impl View for GroupPlan {
    type V = GroupPlanView;

    open spec fn view(&self) -> GroupPlanView {
        GroupPlanView {
            ident: self.ident@,
            subsystem: self.subsystem@,
            labels: texts(self.labels@),
            fields: plan_views(self.fields@),
        }
    }
}

/// A fault of the field at position `at` as a whole.
pub open spec fn field_fault(fault: Fault, at: usize) -> DeclarationError {
    DeclarationError { fault, field: Some(at), attribute: None, parameter: None, element: None }
}

/// The list, or the empty list where there is none.
pub open spec fn list_or_empty(list: Option<Seq<Seq<char>>>) -> Seq<Seq<char>> {
    match list {
        Some(l) => l,
        None => Seq::empty(),
    }
}

/// What the field at position `at` declares, or its first fault.
///
/// The metric's name is the `name` parameter or else the field's own
/// name; the help text is the `help` parameter or else the first doc
/// text. Neither may be wanting or empty.
pub open spec fn field_plan(field: FieldDeclaration, at: usize) -> Result<
    FieldPlanView,
    DeclarationError,
> {
    match parse_result(field.attrs@, false) {
        Err(e) => Err(DeclarationError { field: Some(at), ..e }),
        Ok(attrs) => {
            let name = if attrs.name is Some {
                attrs.name
            } else {
                text_of(field.ident)
            };
            if name is None || name->0.len() == 0 {
                Err(field_fault(Fault::MissingName, at))
            } else if attrs.help is None || attrs.help->0.len() == 0 {
                Err(field_fault(Fault::MissingHelp, at))
            } else {
                Ok(
                    FieldPlanView {
                        name: name->0,
                        help: attrs.help->0,
                        labels: list_or_empty(attrs.labels),
                        buckets: attrs.buckets,
                    },
                )
            }
        },
    }
}

/// What the first `upto` fields declare, or the first fault in them.
pub open spec fn plans_upto(fields: Seq<FieldDeclaration>, upto: int) -> Result<
    Seq<FieldPlanView>,
    DeclarationError,
>
    decreases upto,
{
    if upto <= 0 {
        Ok(Seq::empty())
    } else {
        match plans_upto(fields, upto - 1) {
            Err(e) => Err(e),
            Ok(plans) => match field_plan(fields[upto - 1], (upto - 1) as usize) {
                Err(e) => Err(e),
                Ok(plan) => Ok(plans.push(plan)),
            },
        }
    }
}

/// What a struct declares, or the first fault in its declaration: in
/// its own attributes first, then in its fields in their order.
pub open spec fn expand_result(input: StructDeclaration) -> Result<GroupPlanView, DeclarationError> {
    match parse_result(input.attrs@, true) {
        Err(e) => Err(e),
        Ok(attrs) => match plans_upto(input.fields@, input.fields@.len() as int) {
            Err(e) => Err(e),
            Ok(fields) => Ok(
                GroupPlanView {
                    ident: input.ident@,
                    subsystem: match attrs.subsystem {
                        Some(s) => s,
                        None => Seq::empty(),
                    },
                    labels: list_or_empty(attrs.labels),
                    fields,
                },
            ),
        },
    }
}

/// A fault among the first fields is the fault of every longer part
/// of the list of fields.
pub proof fn lemma_plans_fault_stays(fields: Seq<FieldDeclaration>, upto: int, later: int)
    requires
        0 <= upto <= later,
        plans_upto(fields, upto) is Err,
    ensures
        plans_upto(fields, later) == plans_upto(fields, upto),
    decreases later - upto,
{
    if upto < later {
        lemma_plans_fault_stays(fields, upto, later - 1);
    }
}

/// Reads what one field declares.
pub fn initializer(field: &FieldDeclaration, at: usize) -> (plan: Result<
    FieldPlan,
    DeclarationError,
>)
    ensures
        match plan {
            Ok(p) => field_plan(*field, at) == Ok::<FieldPlanView, DeclarationError>(p@),
            Err(e) => field_plan(*field, at) == Err::<FieldPlanView, DeclarationError>(e),
        },
{
    let attrs = match MetricAttrs::parse(&field.attrs, false) {
        Ok(attrs) => attrs,
        Err(e) => {
            return Err(
                DeclarationError {
                    fault: e.fault,
                    field: Some(at),
                    attribute: e.attribute,
                    parameter: e.parameter,
                    element: e.element,
                },
            );
        },
    };
    let ghost read = attrs@;
    let MetricAttrs { subsystem: _, name, help, labels, buckets } = attrs;
    let name = match name {
        Some(name) => Some(name),
        None => match &field.ident {
            Some(ident) => Some(ident.clone()),
            None => None,
        },
    };
    let name = match name {
        Some(name) => name,
        None => {
            return Err(
                DeclarationError {
                    fault: Fault::MissingName,
                    field: Some(at),
                    attribute: None,
                    parameter: None,
                    element: None,
                },
            );
        },
    };
    if name.as_str().is_empty() {
        return Err(
            DeclarationError {
                fault: Fault::MissingName,
                field: Some(at),
                attribute: None,
                parameter: None,
                element: None,
            },
        );
    }
    let help = match help {
        Some(help) => help,
        None => {
            return Err(
                DeclarationError {
                    fault: Fault::MissingHelp,
                    field: Some(at),
                    attribute: None,
                    parameter: None,
                    element: None,
                },
            );
        },
    };
    if help.as_str().is_empty() {
        return Err(
            DeclarationError {
                fault: Fault::MissingHelp,
                field: Some(at),
                attribute: None,
                parameter: None,
                element: None,
            },
        );
    }
    let labels = match labels {
        Some(labels) => labels,
        None => {
            let none: Vec<String> = Vec::new();
            assert(texts(none@) =~= Seq::<Seq<char>>::empty());
            none
        },
    };
    Ok(FieldPlan { name, help, labels, buckets })
}

/// Reads what each field declares, in the order of the fields, and
/// stops at the first fault.
pub fn initializers(fields: &Vec<FieldDeclaration>) -> (plans: Result<
    Vec<FieldPlan>,
    DeclarationError,
>)
    ensures
        match plans {
            Ok(p) => plans_upto(fields@, fields@.len() as int) == Ok::<
                Seq<FieldPlanView>,
                DeclarationError,
            >(plan_views(p@)),
            Err(e) => plans_upto(fields@, fields@.len() as int) == Err::<
                Seq<FieldPlanView>,
                DeclarationError,
            >(e),
        },
{
    let mut plans: Vec<FieldPlan> = Vec::new();
    let mut i: usize = 0;
    assert(plan_views(plans@) =~= Seq::<FieldPlanView>::empty());
    while i < fields.len()
        invariant
            i <= fields@.len(),
            plans_upto(fields@, i as int) == Ok::<Seq<FieldPlanView>, DeclarationError>(
                plan_views(plans@),
            ),
        decreases fields@.len() - i,
    {
        match initializer(&fields[i], i) {
            Ok(plan) => {
                proof {
                    assert(plan_views(plans@.push(plan)) =~= plan_views(plans@).push(plan@));
                }
                plans.push(plan);
            },
            Err(e) => {
                proof {
                    lemma_plans_fault_stays(fields@, i + 1, fields@.len() as int);
                }
                return Err(e);
            },
        }
        i += 1;
    }
    Ok(plans)
}

/// Reads the declaration of a metric group: the struct's own
/// attributes, then what each field declares. A subsystem or a list
/// of labels that is not set is empty.
pub fn expand(input: &StructDeclaration) -> (plan: Result<GroupPlan, DeclarationError>)
    ensures
        match plan {
            Ok(p) => expand_result(*input) == Ok::<GroupPlanView, DeclarationError>(p@),
            Err(e) => expand_result(*input) == Err::<GroupPlanView, DeclarationError>(e),
        },
{
    let attrs = match MetricAttrs::parse(&input.attrs, true) {
        Ok(attrs) => attrs,
        Err(e) => {
            return Err(e);
        },
    };
    let MetricAttrs { subsystem, name: _, help: _, labels, buckets: _ } = attrs;
    let subsystem = match subsystem {
        Some(subsystem) => subsystem,
        None => String::new(),
    };
    let labels = match labels {
        Some(labels) => labels,
        None => {
            let none: Vec<String> = Vec::new();
            assert(texts(none@) =~= Seq::<Seq<char>>::empty());
            none
        },
    };
    let fields = match initializers(&input.fields) {
        Ok(fields) => fields,
        Err(e) => {
            return Err(e);
        },
    };
    Ok(GroupPlan { ident: input.ident.clone(), subsystem, labels, fields })
}

} // verus!
