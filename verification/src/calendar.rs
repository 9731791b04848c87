//! The calendar: a product identifier and the components, in the order in
//! which they were added, and its serialization.

use crate::content_line::{
    is_name_text, is_value_text, lemma_begin_and_end_are_names, line, line_views, lines_bytes,
    write_lines, ContentLine, ContentLineView, TextValue,
};
use crate::event::{Event, EventView};
use vstd::prelude::*;
use vstd::std_specs::convert::IntoSpec;

verus! {

/// Default product identifier.
pub const DEFAULT_PRODUCT_IDENTIFIER: &'static str = "nicolabruhin.com : ical_writer 0.1.0";

/// A component as numbers and texts.
pub enum ComponentView {
    Event(EventView),
}

impl ComponentView {
    /// The content lines of the component.
    pub open spec fn lines(self) -> Seq<ContentLineView> {
        match self {
            ComponentView::Event(event) => event.lines(),
        }
    }
}

/// Represents a component of a calendar.
///
/// Citing from [RFC 5545 section 3.6 - Calendar
/// Components](https://tools.ietf.org/html/rfc5545#section-3.6):
/// > The body of the iCalendar object consists of a sequence of calendar
/// > properties and one or more calendar components.  The calendar
/// > properties are attributes that apply to the calendar object as a
/// > whole.  The calendar components are collections of properties that
/// > express a particular calendar semantic.  For example, the calendar
/// > component can specify an event, a to-do, a journal entry, time zone
/// > information, free/busy time information, or an alarm.
#[derive(Debug, Clone)]
pub enum Component {
    /// An event component.
    Event(Event),
}

impl View for Component {
    type V = ComponentView;

    open spec fn view(&self) -> ComponentView {
        match self {
            Component::Event(event) => ComponentView::Event(event@),
        }
    }
}

impl Component {
    /// The content lines of the component, in the order in which they are
    /// written.
    pub fn content_lines(&self) -> (lines: Vec<ContentLine>)
        ensures
            line_views(lines@) == self@.lines(),
    {
        match self {
            Component::Event(event) => event.content_lines(),
        }
    }
}

impl From<Event> for Component {
    fn from(event: Event) -> (component: Component) {
        Component::Event(event)
    }
}

impl vstd::std_specs::convert::FromSpecImpl<Event> for Component {
    open spec fn obeys_from_spec() -> bool {
        true
    }

    open spec fn from_spec(event: Event) -> Component {
        Component::Event(event)
    }
}

/// The components that `components` holds, as numbers and texts.
pub open spec fn component_views(components: Seq<Component>) -> Seq<ComponentView> {
    components.map_values(|component: Component| component@)
}

/// The content lines of the given components, one component after the
/// other.
pub open spec fn components_lines(components: Seq<ComponentView>) -> Seq<ContentLineView>
    decreases components.len(),
{
    if components.len() == 0 {
        Seq::<ContentLineView>::empty()
    } else {
        components_lines(components.drop_last()) + components.last().lines()
    }
}

/// A calendar as texts: the product identifier, where one was set, and the
/// components in the order in which they were added.
pub struct CalendarView {
    pub product_identifier: Option<Seq<char>>,
    pub components: Seq<ComponentView>,
}

impl CalendarView {
    /// The product identifier that is written: the one that was set, or the
    /// default.
    pub open spec fn product_identifier_text(self) -> Seq<char> {
        match self.product_identifier {
            Some(product_identifier) => product_identifier,
            None => DEFAULT_PRODUCT_IDENTIFIER@,
        }
    }

    /// The content lines that open the calendar: its begin, `PRODID` and
    /// `VERSION`.
    pub open spec fn opening_lines(self) -> Seq<ContentLineView> {
        seq![
            line("BEGIN"@, "VCALENDAR"@),
            line("PRODID"@, self.product_identifier_text()),
            line("VERSION"@, "2.0"@),
        ]
    }

    /// The content lines of the calendar, in the order in which they are
    /// written: the begin of the calendar, `PRODID`, `VERSION`, the lines of
    /// each component in the order in which the components were added, and
    /// the end of the calendar.
    pub open spec fn lines(self) -> Seq<ContentLineView> {
        self.opening_lines() + components_lines(self.components) + seq![
            line("END"@, "VCALENDAR"@),
        ]
    }
}

/// Represents an iCalendar object.
///
/// > The body of the iCalendar object consists of a sequence of calendar properies and
/// > one or more calendar components.
///
/// For more information, see
/// - [RFC 5545 section 3 - iCalendar Object
///   Specification](https://tools.ietf.org/html/rfc5545#section-3)
/// - and [RFC 5545 section 3.4 - iCalendar Object](https://tools.ietf.org/html/rfc5545#section-3.4)
#[derive(Debug, Clone)]
pub struct Calendar {
    /// Corresponds to the `PRODID` property.
    product_identifier: Option<TextValue>,
    components: Vec<Component>,
}

impl View for Calendar {
    type V = CalendarView;

    closed spec fn view(&self) -> CalendarView {
        CalendarView {
            product_identifier: match self.product_identifier {
                Some(product_identifier) => Some(product_identifier@),
                None => None,
            },
            components: component_views(self.components@),
        }
    }
}

impl Calendar {
    /// Create a new [`Calendar`] object: no product identifier is set, and it
    /// holds no component.
    #[must_use]
    pub fn new() -> (calendar: Calendar)
        ensures
            calendar@ == (CalendarView {
                product_identifier: None,
                components: Seq::<ComponentView>::empty(),
            }),
    {
        let calendar = Calendar { product_identifier: None, components: Vec::new() };
        assert(calendar@.components =~= Seq::<ComponentView>::empty());
        calendar
    }

    /// Set the product identifier of the calendar.
    ///
    /// By default, the product identifier is set to [`DEFAULT_PRODUCT_IDENTIFIER`].
    /// The product identifier holds no control character other than the
    /// horizontal tab and does not begin with a space or a tab.
    ///
    /// See [RFC 5545 section 3.7.3 - Product Identifier](https://tools.ietf.org/html/rfc5545#section-3.7.3)
    /// for more information.
    pub fn set_product_identifier(&mut self, product_identifier: &str) -> (calendar: &mut Calendar)
        requires
            is_value_text(product_identifier@),
        ensures
            calendar@ == (CalendarView {
                product_identifier: Some(product_identifier@),
                ..old(self)@
            }),
            *final(self) == *final(calendar),
    {
        self.product_identifier = Some(TextValue::new(product_identifier).unwrap());
        self
    }

    /// Get the product identifier of the calendar.
    ///
    /// By default, the product identifier is set to [`DEFAULT_PRODUCT_IDENTIFIER`].
    ///
    /// See [RFC 5545 section 3.7.3 - Product Identifier](https://tools.ietf.org/html/rfc5545#section-3.7.3)
    /// for more information.
    #[must_use]
    pub fn product_identifier(&self) -> (product_identifier: &str)
        ensures
            product_identifier@ == self@.product_identifier_text(),
            is_value_text(product_identifier@),
    {
        match &self.product_identifier {
            Some(product_identifier) => product_identifier.as_str(),
            None => {
                proof {
                    lemma_default_product_identifier_is_value();
                }
                DEFAULT_PRODUCT_IDENTIFIER
            },
        }
    }

    /// Add a [`Component`] to the calendar, after those that it holds.
    ///
    /// What is added is the component that `component` converts into. For
    /// a component that is at hand as one, [`Calendar::add`] says which it
    /// is.
    pub fn add_component<C: Into<Component>>(&mut self, component: C) -> (calendar: &mut Calendar)
        ensures
            calendar@.product_identifier == old(self)@.product_identifier,
            calendar@.components.len() == old(self)@.components.len() + 1,
            calendar@.components.drop_last() == old(self)@.components,
            C::obeys_into_spec() ==> calendar@.components.last() == component.into_spec()@,
            *final(self) == *final(calendar),
    {
        let component: Component = component.into();
        self.add(component)
    }

    /// Add the component to the calendar, after those that it holds.
    pub fn add(&mut self, component: Component) -> (calendar: &mut Calendar)
        ensures
            calendar@ == (CalendarView {
                components: old(self)@.components.push(component@),
                ..old(self)@
            }),
            *final(self) == *final(calendar),
    {
        self.components.push(component);
        assert(self@.components =~= old(self)@.components.push(component@));
        self
    }

    /// Get the [`Component`]s of the calendar, in the order in which they
    /// were added.
    #[must_use]
    pub fn components(&self) -> (components: &[Component])
        ensures
            component_views(components@) == self@.components,
    {
        self.components.as_slice()
    }

    /// The content lines of the calendar, in the order in which they are
    /// written.
    pub fn content_lines(&self) -> (lines: Vec<ContentLine>)
        ensures
            line_views(lines@) == self@.lines(),
    {
        proof {
            lemma_begin_and_end_are_names();
            lemma_calendar_names();
            reveal_strlit("VCALENDAR");
            reveal_strlit("2.0");
        }
        let mut lines: Vec<ContentLine> = Vec::new();
        lines.push(ContentLine::new("BEGIN", "VCALENDAR".to_owned()));
        lines.push(ContentLine::new("PRODID", self.product_identifier().to_owned()));
        lines.push(ContentLine::new("VERSION", "2.0".to_owned()));
        assert(line_views(lines@) =~= self@.opening_lines());
        let mut i: usize = 0;
        while i < self.components.len()
            invariant
                i <= self.components@.len(),
                line_views(lines@) == self@.opening_lines() + components_lines(
                    self@.components.take(i as int),
                ),
            decreases self.components@.len() - i,
        {
            let mut component_lines = self.components[i].content_lines();
            proof {
                let views = self@.components;
                assert(views.take(i + 1).drop_last() =~= views.take(i as int));
                assert(line_views(lines@ + component_lines@) =~= line_views(lines@) + line_views(
                    component_lines@,
                ));
            }
            lines.append(&mut component_lines);
            i += 1;
        }
        proof {
            assert(self@.components.take(i as int) =~= self@.components);
        }
        lines.push(ContentLine::new("END", "VCALENDAR".to_owned()));
        lines
    }

    /// Write the calendar to the given sink: its content lines, in their
    /// order, each folded and ended as the iCalendar format asks.
    ///
    /// The sink is memory and takes every write, so the result is always
    /// `Ok`. What the sink held stays, and the bytes of the lines follow it.
    pub fn write(&self, sink: &mut Vec<u8>) -> (written: Result<(), std::io::Error>)
        ensures
            written is Ok,
            final(sink)@ == old(sink)@ + lines_bytes(self@.lines()),
    {
        let lines = self.content_lines();
        write_lines(lines.as_slice(), sink)
    }
}

/// A component that is added is written after the components that were
/// there: its content lines follow theirs.
pub proof fn lemma_added_component_is_written_last(
    components: Seq<ComponentView>,
    component: ComponentView,
)
    ensures
        components_lines(components.push(component)) == components_lines(components)
            + component.lines(),
{
    assert(components.push(component).drop_last() =~= components);
}

/// The names of the properties of a calendar can stand as names of content
/// lines.
proof fn lemma_calendar_names()
    ensures
        is_name_text("PRODID"@),
        is_name_text("VERSION"@),
{
    reveal_strlit("PRODID");
    reveal_strlit("VERSION");
}

/// The default product identifier can stand as a value.
pub proof fn lemma_default_product_identifier_is_value()
    ensures
        is_value_text(DEFAULT_PRODUCT_IDENTIFIER@),
{
    reveal_strlit("nicolabruhin.com : ical_writer 0.1.0");
}

} // verus!
