//! iCalendar files to Markdown: the calendar's name, its events and tasks,
//! and a count of them. Parsing is done by the `icalendar` crate.
use vstd::prelude::*;
use icalendar::{Component, EventLike};
use crate::chars::{from_utf8_lossy, to_string, utf8_lossy};
use crate::error::{is_parse_error, parse_error, MarkitdownError};
use crate::model::{ext_views, is_markdown_doc, markdown_document, opt_str, ConversionOptions, Document, DocumentConverter};
use crate::text::{chars_eq_str, chars_of, decimal, extend_chars, extend_str, push_decimal};

verus! {

/// iCalendar converter.
pub struct ICalendarConverter;

/// What the converter shows of an event: summary, start and end (as their
/// `Debug` writes them), location and description, where given.
pub struct EventInfo {
    pub summary: Option<String>,
    pub start: Option<String>,
    pub end: Option<String>,
    pub location: Option<String>,
    pub description: Option<String>,
}

/// The mathematical content of an [`EventInfo`].
pub struct EventView {
    pub summary: Option<Seq<char>>,
    pub start: Option<Seq<char>>,
    pub end: Option<Seq<char>>,
    pub location: Option<Seq<char>>,
    pub description: Option<Seq<char>>,
}

impl View for EventInfo {
    type V = EventView;

    open spec fn view(&self) -> EventView {
        EventView {
            summary: opt_str(self.summary),
            start: opt_str(self.start),
            end: opt_str(self.end),
            location: opt_str(self.location),
            description: opt_str(self.description),
        }
    }
}

/// What the converter shows of a task: summary, due date (as its `Debug`
/// writes it) and description, where given.
pub struct TodoInfo {
    pub summary: Option<String>,
    pub due: Option<String>,
    pub description: Option<String>,
}

/// The mathematical content of a [`TodoInfo`].
pub struct TodoView {
    pub summary: Option<Seq<char>>,
    pub due: Option<Seq<char>>,
    pub description: Option<Seq<char>>,
}

impl View for TodoInfo {
    type V = TodoView;

    open spec fn view(&self) -> TodoView {
        TodoView { summary: opt_str(self.summary), due: opt_str(self.due), description: opt_str(self.description) }
    }
}

/// The calendar that `str::parse::<icalendar::Calendar>` reads from the
/// text: its name and number of components, or the `Debug` text of the
/// error.
pub uninterp spec fn ics_calendar(content: Seq<char>) -> Result<(Option<Seq<char>>, nat), Seq<char>>;

/// Component `i` of the parsed calendar, where it is an event.
pub uninterp spec fn ics_event(content: Seq<char>, i: nat) -> Option<EventView>;

/// Component `i` of the parsed calendar, where it is a task.
pub uninterp spec fn ics_todo(content: Seq<char>, i: nat) -> Option<TodoView>;

/// Parses the calendar and gives `Calendar::get_name` and the number of
/// components, or the error formatted with `{:?}`.
#[verifier::external_body]
fn open_calendar(content: &str) -> (r: Result<(Option<String>, usize), String>)
    ensures
        match r {
            Ok((name, n)) => ics_calendar(content@) == Ok::<(Option<Seq<char>>, nat), Seq<char>>((opt_str(name), n as nat)),
            Err(m) => ics_calendar(content@) == Err::<(Option<Seq<char>>, nat), Seq<char>>(m@),
        },
{
    match content.parse::<icalendar::Calendar>() {
        Ok(cal) => Ok((cal.get_name().map(String::from), cal.components.len())),
        Err(e) => Err(format!("{:?}", e)),
    }
}

/// Parses the calendar and, where component `i` is an event, gives its
/// summary, start, end, location and description.
#[verifier::external_body]
fn event_at(content: &str, i: usize) -> (r: Option<EventInfo>)
    ensures
        match r {
            Some(e) => ics_event(content@, i as nat) == Some(e@),
            None => ics_event(content@, i as nat) is None,
        },
{
    let cal: icalendar::Calendar = content.parse().ok()?;
    match cal.components.get(i)? {
        icalendar::CalendarComponent::Event(e) => Some(EventInfo {
            summary: e.get_summary().map(String::from),
            start: e.get_start().map(|d| format!("{:?}", d)),
            end: e.get_end().map(|d| format!("{:?}", d)),
            location: e.get_location().map(String::from),
            description: e.get_description().map(String::from),
        }),
        _ => None,
    }
}

/// Parses the calendar and, where component `i` is a task, gives its
/// summary, due date and description.
#[verifier::external_body]
fn todo_at(content: &str, i: usize) -> (r: Option<TodoInfo>)
    ensures
        match r {
            Some(t) => ics_todo(content@, i as nat) == Some(t@),
            None => ics_todo(content@, i as nat) is None,
        },
{
    let cal: icalendar::Calendar = content.parse().ok()?;
    match cal.components.get(i)? {
        icalendar::CalendarComponent::Todo(t) => Some(TodoInfo {
            summary: t.get_summary().map(String::from),
            due: t.get_due().map(|d| format!("{:?}", d)),
            description: t.get_description().map(String::from),
        }),
        _ => None,
    }
}

/// `before`, the value and `after`, where there is a value.
pub open spec fn opt_line(before: Seq<char>, o: Option<Seq<char>>, after: Seq<char>) -> Seq<char> {
    match o {
        Some(v) => before + v + after,
        None => Seq::empty(),
    }
}

/// The section of an event.
pub open spec fn event_md(e: EventView) -> Seq<char> {
    "## \u{1F4C5} Event\n\n"@ + opt_line("**"@, e.summary, "**\n\n"@) + opt_line("- **Start:** "@, e.start, "\n"@)
        + opt_line("- **End:** "@, e.end, "\n"@) + opt_line("- **Location:** "@, e.location, "\n"@) + opt_line(
        "\n"@,
        e.description,
        "\n"@,
    ) + "\n"@
}

/// The section of a task.
pub open spec fn todo_md(t: TodoView) -> Seq<char> {
    "## \u{2611}\u{FE0F} Task\n\n"@ + opt_line("**"@, t.summary, "**\n\n"@) + opt_line("- **Due:** "@, t.due, "\n"@)
        + opt_line("\n"@, t.description, "\n"@) + "\n"@
}

/// The sections of the first `k` components: events and tasks, in order;
/// other components are left out.
pub open spec fn components_md(c: Seq<char>, k: nat) -> Seq<char>
    decreases k,
{
    if k == 0 {
        Seq::empty()
    } else {
        components_md(c, (k - 1) as nat) + match ics_event(c, (k - 1) as nat) {
            Some(e) => event_md(e),
            None => match ics_todo(c, (k - 1) as nat) {
                Some(t) => todo_md(t),
                None => Seq::empty(),
            },
        }
    }
}

/// The number of events among the first `k` components.
pub open spec fn event_count(c: Seq<char>, k: nat) -> nat
    decreases k,
{
    if k == 0 {
        0
    } else {
        event_count(c, (k - 1) as nat) + if ics_event(c, (k - 1) as nat) is Some {
            1nat
        } else {
            0nat
        }
    }
}

/// The number of tasks among the first `k` components.
pub open spec fn todo_count(c: Seq<char>, k: nat) -> nat
    decreases k,
{
    if k == 0 {
        0
    } else {
        todo_count(c, (k - 1) as nat) + if ics_event(c, (k - 1) as nat) is None && ics_todo(c, (k - 1) as nat) is Some {
            1nat
        } else {
            0nat
        }
    }
}

/// The Markdown of a calendar with this name and these `n` components.
pub open spec fn calendar_md(c: Seq<char>, name: Option<Seq<char>>, n: nat) -> Seq<char> {
    (match name {
        Some(x) => "# "@ + x + "\n\n"@,
        None => "# Calendar\n\n"@,
    }) + components_md(c, n) + if event_count(c, n) == 0 && todo_count(c, n) == 0 {
        "*No events or tasks found in calendar.*\n"@
    } else {
        "\n---\n*"@ + decimal(event_count(c, n)) + " event(s), "@ + decimal(todo_count(c, n)) + " task(s)*\n"@
    }
}

/// The result for calendar bytes (decoded as UTF-8, invalid sequences
/// replaced).
pub open spec fn ics_result(b: Seq<u8>, r: Result<Document, MarkitdownError>) -> bool {
    match ics_calendar(utf8_lossy(b)) {
        Ok((name, n)) => r matches Ok(d) && is_markdown_doc(d, calendar_md(utf8_lossy(b), name, n)),
        Err(m) => r matches Err(e) && is_parse_error(e, "iCalendar parse error: "@ + m),
    }
}

/// Appends `before`, the value and `after`, where there is a value.
fn push_opt(md: &mut Vec<char>, before: &str, o: &Option<String>, after: &str)
    ensures
        final(md)@ == old(md)@ + opt_line(before@, opt_str(*o), after@),
{
    let ghost start = md@;
    match o {
        Some(v) => {
            extend_str(md, before);
            extend_str(md, v.as_str());
            extend_str(md, after);
            assert(md@ =~= start + (before@ + v@ + after@));
        },
        None => {
            assert(start + Seq::<char>::empty() =~= start);
        },
    }
}

/// Appends the section of an event.
fn push_event(md: &mut Vec<char>, e: &EventInfo)
    ensures
        final(md)@ == old(md)@ + event_md(e@),
{
    let ghost start = md@;
    extend_str(md, "## \u{1F4C5} Event\n\n");
    push_opt(md, "**", &e.summary, "**\n\n");
    push_opt(md, "- **Start:** ", &e.start, "\n");
    push_opt(md, "- **End:** ", &e.end, "\n");
    push_opt(md, "- **Location:** ", &e.location, "\n");
    push_opt(md, "\n", &e.description, "\n");
    extend_str(md, "\n");
    assert(md@ =~= start + event_md(e@));
}

/// Appends the section of a task.
fn push_todo(md: &mut Vec<char>, t: &TodoInfo)
    ensures
        final(md)@ == old(md)@ + todo_md(t@),
{
    let ghost start = md@;
    extend_str(md, "## \u{2611}\u{FE0F} Task\n\n");
    push_opt(md, "**", &t.summary, "**\n\n");
    push_opt(md, "- **Due:** ", &t.due, "\n");
    push_opt(md, "\n", &t.description, "\n");
    extend_str(md, "\n");
    assert(md@ =~= start + todo_md(t@));
}

impl ICalendarConverter {
    /// Converts calendar bytes to a one-page document (see
    /// [`calendar_md`]); text that does not parse is a parse error.
    pub fn convert_ics(bytes: &[u8]) -> (r: Result<Document, MarkitdownError>)
        ensures
            ics_result(bytes@, r),
    {
        let content = to_string(from_utf8_lossy(bytes).as_slice());
        let ghost c = content@;
        let (name, n) = match open_calendar(content.as_str()) {
            Ok(x) => x,
            Err(m) => {
                let mc = chars_of(m.as_str());
                return Err(parse_error("iCalendar parse error: ", mc.as_slice()));
            },
        };
        let mut md: Vec<char> = Vec::new();
        match &name {
            Some(x) => {
                extend_str(&mut md, "# ");
                extend_str(&mut md, x.as_str());
                extend_str(&mut md, "\n\n");
            },
            None => {
                extend_str(&mut md, "# Calendar\n\n");
            },
        }
        let ghost head = md@;
        let mut events: usize = 0;
        let mut todos: usize = 0;
        let mut i: usize = 0;
        while i < n
            invariant
                i <= n,
                c == content@,
                md@ == head + components_md(c, i as nat),
                events == event_count(c, i as nat),
                todos == todo_count(c, i as nat),
                events + todos <= i,
            decreases n - i,
        {
            match event_at(content.as_str(), i) {
                Some(e) => {
                    push_event(&mut md, &e);
                    events = events + 1;
                },
                None => {
                    match todo_at(content.as_str(), i) {
                        Some(t) => {
                            push_todo(&mut md, &t);
                            todos = todos + 1;
                        },
                        None => {},
                    }
                },
            }
            i += 1;
        }
        let ghost body = md@;
        if events == 0 && todos == 0 {
            extend_str(&mut md, "*No events or tasks found in calendar.*\n");
        } else {
            extend_str(&mut md, "\n---\n*");
            push_decimal(&mut md, events);
            extend_str(&mut md, " event(s), ");
            push_decimal(&mut md, todos);
            extend_str(&mut md, " task(s)*\n");
        }
        assert(md@ =~= calendar_md(c, opt_str(name), n as nat));
        Ok(markdown_document(md))
    }

    /// Converts calendar bytes; an extension hint other than `.ics` or
    /// `.ical` (compared exactly) is an invalid file.
    pub fn convert_bytes(&self, bytes: &[u8], options: Option<&ConversionOptions>) -> (r: Result<Document, MarkitdownError>)
        ensures
            match options {
                Some(o) => match opt_str(o.file_extension) {
                    Some(e) => if e == ".ics"@ || e == ".ical"@ {
                        ics_result(bytes@, r)
                    } else {
                        r matches Err(MarkitdownError::InvalidFile(m)) && m@ == "Expected .ics file, got "@ + e
                    },
                    None => ics_result(bytes@, r),
                },
                None => ics_result(bytes@, r),
            },
    {
        match options {
            Some(o) => match &o.file_extension {
                Some(e) => {
                    let c = chars_of(e.as_str());
                    let s = c.as_slice();
                    if !(chars_eq_str(s, ".ics") || chars_eq_str(s, ".ical")) {
                        let mut m: Vec<char> = Vec::new();
                        extend_str(&mut m, "Expected .ics file, got ");
                        extend_chars(&mut m, s);
                        return Err(MarkitdownError::InvalidFile(to_string(m.as_slice())));
                    }
                },
                None => {},
            },
            None => {},
        }
        Self::convert_ics(bytes)
    }
}

impl DocumentConverter for ICalendarConverter {
    open spec fn extensions(&self) -> Seq<Seq<char>> {
        seq![".ics"@, ".ical"@]
    }

    fn supported_extensions(&self) -> (r: Vec<&'static str>) {
        let r = vec![".ics", ".ical"];
        assert(ext_views(r@) =~= self.extensions());
        r
    }
}

} // verus!
