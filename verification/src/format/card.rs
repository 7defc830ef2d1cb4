use crate::clock::local_time_text;
use crate::model::{shown_all, views_of, Link, Todo, TodoView, CSV};
use crate::style::{Color, StyleDisplay, Styler};
use crate::text::{blanks, join, joined, lines_of, spaces};
use crate::util::{all_chunked, word_chunks};
use vstd::prelude::*;
use vstd::string::*;

verus! {

/// The column at which the values of a card begin.
pub const INDENT: usize = 13;

/// The width to which the description of a card is broken.
pub const DESCRIPTION_WIDTH: usize = 100;

/// Card is used to get a user-friendly view of a todo.
#[derive(Debug)]
pub struct Card {
    pub color: bool,
    pub heading: Styler,
    pub bold_white: Styler,
    pub blue: Styler,
}

/// A line of a card: the name of a field, a colon, `gap` blanks and the
/// value.
pub open spec fn field_line(name: Seq<char>, gap: nat, value: Seq<char>) -> Seq<char> {
    name + ":"@ + blanks(gap) + value
}

/// The lines of a field of several values: the first behind the name of
/// the field, the others indented to the column of the values.
pub open spec fn indented(name: Seq<char>, gap: nat, values: Seq<Seq<char>>) -> Seq<Seq<char>> {
    Seq::new(
        values.len(),
        |i: int|
            if i == 0 {
                field_line(name, gap, values[0])
            } else {
                blanks(INDENT as nat) + values[i]
            },
    )
}

/// The lines of the links of a card, none where there is no link.
pub open spec fn link_lines(links: Seq<Link>) -> Seq<Seq<char>> {
    if links.len() == 0 {
        Seq::<Seq<char>>::empty()
    } else {
        indented("Links"@, 7, shown_all::<Link>(links))
    }
}

/// The lines of the description of a card, none where it is empty.
pub open spec fn description_lines(desc: Seq<char>) -> Seq<Seq<char>> {
    if desc.len() == 0 {
        Seq::<Seq<char>>::empty()
    } else {
        indented("Description"@, 1, all_chunked(lines_of(desc), DESCRIPTION_WIDTH as int))
    }
}

/// The lines of a plain card of the todo `todo`, `created` being the time
/// of its creation as text: the subject, an empty line, then one line for
/// each field that has a value, the links, and after an empty line the
/// description.
pub open spec fn card_lines(todo: TodoView, created: Seq<char>) -> Seq<Seq<char>> {
    seq![
        todo.subject,
        Seq::<char>::empty(),
        field_line("Created"@, 5, created),
        field_line("Status"@, 6, todo.status.name()),
        field_line("Priority"@, 4, todo.prio.name()),
    ] + (match todo.context {
        Some(c) => seq![field_line("Context"@, 5, c)],
        None => Seq::<Seq<char>>::empty(),
    }) + (if todo.tags.len() > 0 {
        seq![field_line("Tags"@, 8, joined(todo.tags, " "@))]
    } else {
        Seq::<Seq<char>>::empty()
    }) + link_lines(todo.links) + (if todo.description.len() > 0 {
        seq![Seq::<char>::empty()] + description_lines(todo.description)
    } else {
        Seq::<Seq<char>>::empty()
    })
}

impl Card {
    /// True when the card shows everything as it is.
    pub open spec fn is_plain(&self) -> bool {
        !self.color && self.heading.is_plain() && self.bold_white.is_plain() && self.blue.is_plain()
    }

    /// A card with colours and emphasis, or a plain one.
    pub fn new(color: bool) -> (r: Self)
        ensures
            r.color == color,
            color ==> r.heading == (Styler { fg: None, bold: true, underline: true }) && r.bold_white
                == (Styler { fg: None, bold: true, underline: false }) && r.blue == (Styler {
                fg: Some(Color::Blue),
                bold: true,
                underline: false,
            }),
            !color ==> r.is_plain(),
    {
        if color {
            Self {
                color,
                heading: Styler::default().underline(true).bold(true),
                bold_white: Styler::default().bold(true),
                blue: Styler::default().bold(true).fg(Color::Blue),
            }
        } else {
            Self {
                color,
                heading: Styler::default(),
                bold_white: Styler::default(),
                blue: Styler::default(),
            }
        }
    }

    /// A line of the card: the name of a field, a colon, blanks up to the
    /// column of the values, and the value.
    fn field(&self, name: &str, gap: usize, value: &str) -> (r: String)
        ensures
            self.bold_white.is_plain() ==> r@ == field_line(name@, gap as nat, value@),
    {
        let mut line = self.bold_white.style(name);
        line.append(":");
        line.append(spaces(gap).as_str());
        line.append(value);
        line
    }

    /// Format `todo` into a detailed text, with the time of its creation
    /// in the time of this machine. A plain card is the text that
    /// `format_at` gives; one with colours holds the codes of the terminal
    /// as well.
    pub fn format(&self, todo: &Todo) -> (r: String)
        ensures
            self.is_plain() ==> exists|created: Seq<char>| #[trigger]
                joined(card_lines(todo@, created), "\n"@) == r@,
    {
        let created = match local_time_text(todo.created) {
            Some(t) => t,
            None => String::new(),
        };
        self.format_at(todo, created.as_str())
    }

    /// Format `todo` into a detailed text, `created` being the time of its
    /// creation as text: the subject as heading, then one line for each
    /// field that has a value, the links and the description.
    pub fn format_at(&self, todo: &Todo, created: &str) -> (r: String)
        ensures
            self.is_plain() ==> r@ == joined(card_lines(todo@, created@), "\n"@),
    {
        let ghost empty = Seq::<Seq<char>>::empty();
        let mut lines: Vec<String> = Vec::new();
        lines.push(self.heading.style(todo.subject.as_str()));
        lines.push(String::new());
        lines.push(self.field("Created", 5, created));
        let (status, prio) = if self.color {
            (todo.status.style(), todo.prio.style())
        } else {
            (todo.status.to_string(), todo.prio.to_string())
        };
        lines.push(self.field("Status", 6, status.as_str()));
        lines.push(self.field("Priority", 4, prio.as_str()));
        let ghost p1 = views_of(lines@);
        proof {
            if self.is_plain() {
                assert(p1 =~= seq![
                    todo@.subject,
                    Seq::<char>::empty(),
                    field_line("Created"@, 5, created@),
                    field_line("Status"@, 6, todo@.status.name()),
                    field_line("Priority"@, 4, todo@.prio.name()),
                ]);
            }
        }
        if let Some(c) = &todo.context {
            let context = self.blue.style(c.as_str());
            lines.push(self.field("Context", 5, context.as_str()));
        }
        let ghost p2 = views_of(lines@);
        proof {
            if self.is_plain() {
                assert(p2 =~= p1 + (match todo@.context {
                    Some(c) => seq![field_line("Context"@, 5, c)],
                    None => empty,
                }));
            }
        }
        if !todo.tags.is_empty() {
            lines.push(self.field("Tags", 8, todo.tags.to_string().as_str()));
        }
        let ghost p3 = views_of(lines@);
        proof {
            if self.is_plain() {
                assert(p3 =~= p2 + (if todo@.tags.len() > 0 {
                    seq![field_line("Tags"@, 8, joined(todo@.tags, " "@))]
                } else {
                    empty
                }));
            }
        }
        if let Some(mut links) = self.format_links(&todo.links) {
            let ghost more = views_of(links@);
            let ghost before = views_of(lines@);
            lines.append(&mut links);
            assert(views_of(lines@) =~= before + more);
        }
        let ghost p4 = views_of(lines@);
        proof {
            if self.is_plain() {
                assert(p4 =~= p3 + link_lines(todo@.links));
            }
        }
        if let Some(mut description) = self.format_description(todo.description.as_str()) {
            lines.push(String::new());
            let ghost more = views_of(description@);
            let ghost before = views_of(lines@);
            lines.append(&mut description);
            assert(views_of(lines@) =~= before + more);
        }
        proof {
            if self.is_plain() {
                assert(views_of(lines@) =~= p4 + (if todo@.description.len() > 0 {
                    seq![Seq::<char>::empty()] + description_lines(todo@.description)
                } else {
                    empty
                }));
            }
        }
        join(&lines, "\n")
    }

    /// The lines of the links: none if there is no link, else one line for
    /// each, the first behind the name of the field, the others indented.
    pub fn format_links(&self, links: &CSV<Link>) -> (r: Option<Vec<String>>)
        ensures
            r is None <==> links@.len() == 0,
            r matches Some(lines) ==> lines@.len() == links@.len(),
            self.bold_white.is_plain() ==> (r matches Some(lines) ==> views_of(lines@)
                == link_lines(links@)),
    {
        if links.is_empty() {
            return None;
        }
        let values = links.display_values();
        assert(views_of(values@).len() == links@.len());
        Some(self.indent_lines("Links", 7, &values))
    }

    /// The lines of the description: none if it is empty, else its text
    /// broken to lines, the first behind the name of the field, the others
    /// indented.
    pub fn format_description(&self, desc: &str) -> (r: Option<Vec<String>>)
        ensures
            r is None <==> desc@.len() == 0,
            self.bold_white.is_plain() ==> (r matches Some(lines) ==> views_of(lines@)
                == description_lines(desc@)),
    {
        if desc.unicode_len() == 0 {
            return None;
        }
        let chunks = word_chunks(desc, DESCRIPTION_WIDTH);
        Some(self.indent_lines("Description", 1, &chunks))
    }

    /// The lines `values`, the first behind the name of a field, the others
    /// indented to the column of the values.
    fn indent_lines(&self, name: &str, gap: usize, values: &Vec<String>) -> (r: Vec<String>)
        ensures
            r@.len() == values@.len(),
            self.bold_white.is_plain() ==> views_of(r@) == indented(
                name@,
                gap as nat,
                views_of(values@),
            ),
    {
        let mut lines: Vec<String> = Vec::new();
        let mut i: usize = 0;
        while i < values.len()
            invariant
                i <= values@.len(),
                lines@.len() == i,
                self.bold_white.is_plain() ==> forall|k: int|
                    0 <= k < i ==> (#[trigger] lines@[k])@ == if k == 0 {
                        field_line(name@, gap as nat, values@[0]@)
                    } else {
                        blanks(INDENT as nat) + values@[k]@
                    },
            decreases values@.len() - i,
        {
            if i == 0 {
                lines.push(self.field(name, gap, values[i].as_str()));
            } else {
                let mut line = spaces(INDENT);
                line.append(values[i].as_str());
                lines.push(line);
            }
            i += 1;
        }
        proof {
            if self.bold_white.is_plain() {
                assert(views_of(lines@) =~= indented(name@, gap as nat, views_of(values@)));
            }
        }
        lines
    }
}

} // verus!
