//! The operator's view of the cache: every cached invite with its use count
//! and the names of its roles, as data and as the message that is sent.

use vstd::prelude::*;
use serenity::utils::MessageBuilder;
use crate::cache::{records_in_order, InviteCache};
use crate::directory::{name_of_role, GuildRoleView, RoleDirectory};
use crate::record::{record_views, Entry, RoleId};

verus! {

/// One role of a report line: its id, and its name where the guild still has
/// the role.
#[derive(Debug, PartialEq, Eq)]
pub struct ListedRole {
    pub id: RoleId,
    pub name: Option<String>,
}

/// Mathematical value of a [`ListedRole`].
pub struct ListedRoleView {
    pub id: RoleId,
    pub name: Option<Seq<char>>,
}

impl View for ListedRole {
    type V = ListedRoleView;

    open spec fn view(&self) -> ListedRoleView {
        ListedRoleView {
            id: self.id,
            name: match self.name {
                Some(name) => Some(name@),
                None => None,
            },
        }
    }
}

/// One line of the report: an invite, how often it was used, and its roles.
#[derive(Debug, PartialEq, Eq)]
pub struct ReportLine {
    pub code: String,
    pub uses: u64,
    pub roles: Vec<ListedRole>,
}

/// Mathematical value of a [`ReportLine`].
pub struct ReportLineView {
    pub code: Seq<char>,
    pub uses: u64,
    pub roles: Seq<ListedRoleView>,
}

impl View for ReportLine {
    type V = ReportLineView;

    open spec fn view(&self) -> ReportLineView {
        ReportLineView {
            code: self.code@,
            uses: self.uses,
            roles: role_views(self.roles@),
        }
    }
}

/// The values of a list of listed roles, in list order.
pub open spec fn role_views(roles: Seq<ListedRole>) -> Seq<ListedRoleView> {
    roles.map_values(|role: ListedRole| role@)
}

/// The values of a list of report lines, in list order.
pub open spec fn line_views(lines: Seq<ReportLine>) -> Seq<ReportLineView> {
    lines.map_values(|line: ReportLine| line@)
}

/// The roles of one invite as the report lists them.
pub open spec fn listed_roles(directory: Seq<GuildRoleView>, roles: Seq<RoleId>) -> Seq<
    ListedRoleView,
> {
    roles.map_values(|id: RoleId| ListedRoleView { id, name: name_of_role(directory, id) })
}

/// The report of `cache`: one line for each code, in the order of `codes`.
pub open spec fn report(
    cache: Map<Seq<char>, Entry>,
    codes: Seq<Seq<char>>,
    directory: Seq<GuildRoleView>,
) -> Seq<ReportLineView> {
    codes.map_values(
        |code: Seq<char>|
            ReportLineView {
                code,
                uses: cache[code].uses,
                roles: listed_roles(directory, cache[code].roles),
            },
    )
}

impl InviteCache {
    /// All cached invites with their use counts and the names of their roles,
    /// in snapshot order. Names are looked up in the guild directory when the
    /// report is made.
    pub fn list(&self, directory: &RoleDirectory) -> (lines: Vec<ReportLine>)
        ensures
            line_views(lines@) == report(self@, self.codes(), directory@),
    {
        let snapshot = self.snapshot();
        let ghost wanted = report(self@, self.codes(), directory@);
        let mut lines: Vec<ReportLine> = Vec::new();
        let mut next: usize = 0;
        assert(record_views(snapshot@).len() == snapshot@.len());
        while next < snapshot.len()
            invariant
                next <= snapshot.len(),
                snapshot@.len() == self.codes().len(),
                wanted == report(self@, self.codes(), directory@),
                record_views(snapshot@) == records_in_order(
                    self@,
                    self.codes(),
                ),
                lines@.len() == next,
                forall|i: int| 0 <= i < next ==> (#[trigger] lines@[i])@ == wanted[i],
            decreases snapshot.len() - next,
        {
            let record = &snapshot[next];
            assert(record@ == record_views(snapshot@)[next as int]);
            let ghost ids = record.roles@;
            let mut roles: Vec<ListedRole> = Vec::new();
            let mut at: usize = 0;
            while at < record.roles.len()
                invariant
                    at <= record.roles.len(),
                    ids == record.roles@,
                    roles@.len() == at,
                    forall|i: int|
                        0 <= i < at ==> (#[trigger] roles@[i])@ == listed_roles(directory@, ids)[i],
                decreases record.roles.len() - at,
            {
                let id = record.roles[at];
                roles.push(ListedRole { id, name: directory.role_name(id) });
                at += 1;
            }
            let line = ReportLine { code: record.code.clone(), uses: record.uses, roles };
            assert(line@.roles =~= listed_roles(directory@, ids));
            lines.push(line);
            next += 1;
        }
        lines
    }
}

/// The decimal digit for a value below ten.
pub open spec fn digit_char(digit: nat) -> char {
    if digit == 0 {
        '0'
    } else if digit == 1 {
        '1'
    } else if digit == 2 {
        '2'
    } else if digit == 3 {
        '3'
    } else if digit == 4 {
        '4'
    } else if digit == 5 {
        '5'
    } else if digit == 6 {
        '6'
    } else if digit == 7 {
        '7'
    } else if digit == 8 {
        '8'
    } else {
        '9'
    }
}

/// The decimal numeral of a number: no sign, no separators, no leading zero.
pub open spec fn decimal_text(number: nat) -> Seq<char>
    decreases number,
{
    if number < 10 {
        seq![digit_char(number)]
    } else {
        decimal_text(number / 10).push(digit_char(number % 10))
    }
}

/// How a role shows in the message: by its name, or by its id where the guild
/// no longer has the role.
pub open spec fn role_label(role: ListedRoleView) -> Seq<char> {
    match role.name {
        Some(name) => name,
        None => decimal_text(role.id as nat),
    }
}

/// The labels of the roles, with `", "` between one and the next.
pub open spec fn joined_labels(roles: Seq<ListedRoleView>) -> Seq<char>
    decreases roles.len(),
{
    if roles.len() == 0 {
        Seq::empty()
    } else if roles.len() == 1 {
        role_label(roles[0])
    } else {
        joined_labels(roles.drop_last()) + ", "@ + role_label(roles.last())
    }
}

/// One line of the message: `code (N uses): role, role` and a line break.
pub open spec fn line_text(line: ReportLineView) -> Seq<char> {
    line.code + " ("@ + decimal_text(line.uses as nat) + " uses): "@ + joined_labels(line.roles)
        + "\n"@
}

/// The lines of the message, one after the other.
pub open spec fn lines_text(lines: Seq<ReportLineView>) -> Seq<char>
    decreases lines.len(),
{
    if lines.len() == 0 {
        Seq::empty()
    } else {
        lines_text(lines.drop_last()) + line_text(lines.last())
    }
}

/// The whole message: a bold heading, then the lines.
pub open spec fn report_text(lines: Seq<ReportLineView>) -> Seq<char> {
    "**"@ + "Active invites:"@ + "**\n"@ + lines_text(lines)
}

/// `MessageBuilder` of serenity, as a value whose inside the proofs do not
/// see.
#[verifier::external_type_specification]
#[verifier::external_body]
pub struct ExMessageBuilder(MessageBuilder);

/// The text that a message builder has collected so far.
pub uninterp spec fn message_text(builder: MessageBuilder) -> Seq<char>;

/// Calls `MessageBuilder::new` of serenity. Trusted, not proved: the new
/// builder has collected no text.
#[verifier::external_body]
fn new_message() -> (builder: MessageBuilder)
    ensures
        message_text(builder) == Seq::<char>::empty(),
{
    MessageBuilder::new()
}

/// Calls `MessageBuilder::push` of serenity. Trusted, not proved: the
/// string is appended to the collected text as it is, with nothing escaped
/// and nothing added.
#[verifier::external_body]
fn push_text(builder: &mut MessageBuilder, text: &str)
    ensures
        message_text(*final(builder)) == message_text(*old(builder)) + text@,
{
    builder.push(text);
}

/// Calls `MessageBuilder::push_bold_line` of serenity. Trusted, not proved:
/// the string is appended between two pairs of asterisks, and a line break
/// after it.
#[verifier::external_body]
fn push_bold_line(builder: &mut MessageBuilder, text: &str)
    ensures
        message_text(*final(builder)) == message_text(*old(builder)) + "**"@ + text@ + "**\n"@,
{
    builder.push_bold_line(text);
}

/// Calls `MessageBuilder::build` of serenity. Trusted, not proved: the
/// result is a copy of the collected text, and the builder keeps what it
/// has.
#[verifier::external_body]
fn build_message(builder: &mut MessageBuilder) -> (text: String)
    ensures
        text@ == message_text(*old(builder)),
        message_text(*final(builder)) == message_text(*old(builder)),
{
    builder.build()
}

/// The numeral of one decimal digit.
fn digit_text(digit: u64) -> (text: &'static str)
    requires
        digit < 10,
    ensures
        text@ == seq![digit_char(digit as nat)],
{
    proof {
        reveal_strlit("0");
        reveal_strlit("1");
        reveal_strlit("2");
        reveal_strlit("3");
        reveal_strlit("4");
        reveal_strlit("5");
        reveal_strlit("6");
        reveal_strlit("7");
        reveal_strlit("8");
        reveal_strlit("9");
    }
    if digit == 0 {
        "0"
    } else if digit == 1 {
        "1"
    } else if digit == 2 {
        "2"
    } else if digit == 3 {
        "3"
    } else if digit == 4 {
        "4"
    } else if digit == 5 {
        "5"
    } else if digit == 6 {
        "6"
    } else if digit == 7 {
        "7"
    } else if digit == 8 {
        "8"
    } else {
        "9"
    }
}

/// Appends the decimal numeral of `number`.
fn push_number(builder: &mut MessageBuilder, number: u64)
    ensures
        message_text(*final(builder)) == message_text(*old(builder)) + decimal_text(number as nat),
    decreases number,
{
    if number >= 10 {
        push_number(builder, number / 10);
    }
    push_text(builder, digit_text(number % 10));
}

/// Appends the labels of `roles`, separated by `", "`.
fn push_labels(builder: &mut MessageBuilder, roles: &Vec<ListedRole>)
    ensures
        message_text(*final(builder)) == message_text(*old(builder)) + joined_labels(
            role_views(roles@),
        ),
{
    let ghost listed = role_views(roles@);
    let ghost start = message_text(*builder);
    let mut at: usize = 0;
    while at < roles.len()
        invariant
            at <= roles.len(),
            listed == role_views(roles@),
            message_text(*builder) == start + joined_labels(listed.take(at as int)),
        decreases roles.len() - at,
    {
        assert(listed.take(at + 1).drop_last() =~= listed.take(at as int));
        if at > 0 {
            push_text(builder, ", ");
        }
        match &roles[at].name {
            Some(name) => push_text(builder, name.as_str()),
            None => push_number(builder, roles[at].id),
        }
        at += 1;
    }
    assert(listed.take(listed.len() as int) =~= listed);
}

/// Writes the report as the message that the operator reads.
pub fn render_report(lines: &Vec<ReportLine>) -> (text: String)
    ensures
        text@ == report_text(line_views(lines@)),
{
    let ghost listed = line_views(lines@);
    let mut builder = new_message();
    push_bold_line(&mut builder, "Active invites:");
    let ghost heading = message_text(builder);
    let mut next: usize = 0;
    while next < lines.len()
        invariant
            next <= lines.len(),
            listed == line_views(lines@),
            heading == "**"@ + "Active invites:"@ + "**\n"@,
            message_text(builder) == heading + lines_text(listed.take(next as int)),
        decreases lines.len() - next,
    {
        let line = &lines[next];
        assert(listed.take(next + 1).drop_last() =~= listed.take(next as int));
        push_text(&mut builder, line.code.as_str());
        push_text(&mut builder, " (");
        push_number(&mut builder, line.uses);
        push_text(&mut builder, " uses): ");
        push_labels(&mut builder, &line.roles);
        push_text(&mut builder, "\n");
        next += 1;
    }
    assert(listed.take(listed.len() as int) =~= listed);
    build_message(&mut builder)
}

} // verus!
