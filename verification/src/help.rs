//! What the help panel lists, and the drawings on the tabs.

use vstd::prelude::*;

use crate::actions::label_of;
use crate::phrases::{
    all_rules, group_texts, query_example_texts, query_examples, rule_texts, rules, str_texts,
};
use crate::text::{join, own, push_text, same};

verus! {

/// The drawing for a name, as a path. A dash where the name is not known.
pub open spec fn icon_path(name: Seq<char>) -> Seq<char> {
    if name == "clipboard-list"@ {
        "M 16 4 h 2 a 2 2 0 0 1 2 2 v 14 a 2 2 0 0 1 -2 2 H 6 a 2 2 0 0 1 -2 -2 V 6 a 2 2 0 0 1 2 -2 h 2 M 9 2 h 6 a 1 1 0 0 1 1 1 v 2 a 1 1 0 0 1 -1 1 H 9 a 1 1 0 0 1 -1 -1 V 3 a 1 1 0 0 1 1 -1 z M 12 11 h 4 M 12 16 h 4 M 8 11 L 8 11.01 M 8 16 L 8 16.01"@
    } else if name == "plane"@ {
        "M 17.8 19.2 L 16 11 l 3.5 -3.5 C 21 6 21.5 4 21 3 c -1 -.5 -3 0 -4.5 1.5 L 13 8 L 4.8 6.2 c -.5 -.1 -.9 .1 -1.1 .5 l -.3 .5 c -.2 .5 -.1 1 .3 1.3 L 9 12 l -2 3 L 4 15 l -1 1 3 2 2 3 1 -1 v -3 l 3 -2 3.5 5.3 c .3 .4 .8 .5 1.3 .3 l .5 -.2 c .4 -.3 .6 -.7 .5 -1.2 z"@
    } else if name == "map"@ {
        "M 5 15.5 V 4.618 a 1 1 0 0 1 1.447 -.894 l 4 2 V 19 l -4 -2 a 1 1 0 0 1 -1.447 -.894 z M 9 3.236 v 16 M 15 5.764 v 16 M 14 5.553 a 2 2 0 0 0 1 0 L 18.382 3.553 a 1 1 0 0 1 1.45 .894 V 16.382 a 2 2 0 0 1 -1.106 1.79 L 14 20.447"@
    } else if name == "image"@ {
        "M 4 4 h 16 v 16 H 4 z M 9 11 a 2 2 0 1 1 -4 0 a 2 2 0 1 1 4 0 z M 20 17 l -5 -5 L 4 21"@
    } else if name == "list-checks"@ {
        "M 11 5 h 10 M 11 12 h 10 M 11 19 h 10 M 5 5 l 1 1 2 -2 M 5 12 l 1 1 2 -2 M 5 19 l 1 1 2 -2"@
    } else if name == "file-text"@ {
        "M 14 2 H 6 a 2 2 0 0 0 -2 2 v 16 a 2 2 0 0 0 2 2 h 12 a 2 2 0 0 0 2 -2 V 8 z M 14 2 v 6 h 6 M 16 13 H 8 M 16 17 H 8 M 10 9 H 8"@
    } else if name == "book"@ {
        "M 4 19.5 v -15 A 2.5 2.5 0 0 1 6.5 2 H 19 v 18 H 6.5 A 2.5 2.5 0 0 0 4 22.5 z M 8 6 h 8 M 8 10 h 8"@
    } else if name == "file"@ {
        "M 14.5 2 H 6 a 2 2 0 0 0 -2 2 v 16 a 2 2 0 0 0 2 2 h 12 a 2 2 0 0 0 2 -2 V 7.5 z M 14 2 v 6 h 6"@
    } else {
        "M 5 12 L 19 12"@
    }
}

/// The drawing on a tab, by the name of its icon.
pub fn lucide_path(name: &str) -> (r: &'static str)
    ensures
        r@ == icon_path(name@),
{
    if same(name, "clipboard-list") {
        "M 16 4 h 2 a 2 2 0 0 1 2 2 v 14 a 2 2 0 0 1 -2 2 H 6 a 2 2 0 0 1 -2 -2 V 6 a 2 2 0 0 1 2 -2 h 2 M 9 2 h 6 a 1 1 0 0 1 1 1 v 2 a 1 1 0 0 1 -1 1 H 9 a 1 1 0 0 1 -1 -1 V 3 a 1 1 0 0 1 1 -1 z M 12 11 h 4 M 12 16 h 4 M 8 11 L 8 11.01 M 8 16 L 8 16.01"
    } else if same(name, "plane") {
        "M 17.8 19.2 L 16 11 l 3.5 -3.5 C 21 6 21.5 4 21 3 c -1 -.5 -3 0 -4.5 1.5 L 13 8 L 4.8 6.2 c -.5 -.1 -.9 .1 -1.1 .5 l -.3 .5 c -.2 .5 -.1 1 .3 1.3 L 9 12 l -2 3 L 4 15 l -1 1 3 2 2 3 1 -1 v -3 l 3 -2 3.5 5.3 c .3 .4 .8 .5 1.3 .3 l .5 -.2 c .4 -.3 .6 -.7 .5 -1.2 z"
    } else if same(name, "map") {
        "M 5 15.5 V 4.618 a 1 1 0 0 1 1.447 -.894 l 4 2 V 19 l -4 -2 a 1 1 0 0 1 -1.447 -.894 z M 9 3.236 v 16 M 15 5.764 v 16 M 14 5.553 a 2 2 0 0 0 1 0 L 18.382 3.553 a 1 1 0 0 1 1.45 .894 V 16.382 a 2 2 0 0 1 -1.106 1.79 L 14 20.447"
    } else if same(name, "image") {
        "M 4 4 h 16 v 16 H 4 z M 9 11 a 2 2 0 1 1 -4 0 a 2 2 0 1 1 4 0 z M 20 17 l -5 -5 L 4 21"
    } else if same(name, "list-checks") {
        "M 11 5 h 10 M 11 12 h 10 M 11 19 h 10 M 5 5 l 1 1 2 -2 M 5 12 l 1 1 2 -2 M 5 19 l 1 1 2 -2"
    } else if same(name, "file-text") {
        "M 14 2 H 6 a 2 2 0 0 0 -2 2 v 16 a 2 2 0 0 0 2 2 h 12 a 2 2 0 0 0 2 -2 V 8 z M 14 2 v 6 h 6 M 16 13 H 8 M 16 17 H 8 M 10 9 H 8"
    } else if same(name, "book") {
        "M 4 19.5 v -15 A 2.5 2.5 0 0 1 6.5 2 H 19 v 18 H 6.5 A 2.5 2.5 0 0 0 4 22.5 z M 8 6 h 8 M 8 10 h 8"
    } else if same(name, "file") {
        "M 14.5 2 H 6 a 2 2 0 0 0 -2 2 v 16 a 2 2 0 0 0 2 2 h 12 a 2 2 0 0 0 2 -2 V 7.5 z M 14 2 v 6 h 6"
    } else {
        "M 5 12 L 19 12"
    }
}

/// A row of the help panel: a heading, or a command and what to say for it.
#[derive(Debug)]
pub struct HelpRow {
    pub label: String,
    pub phrases: String,
    pub is_header: bool,
}

/// What a row of the help panel says.
pub struct HelpRowView {
    pub label: Seq<char>,
    pub phrases: Seq<char>,
    pub is_header: bool,
}

impl View for HelpRow {
    type V = HelpRowView;

    open spec fn view(&self) -> HelpRowView {
        HelpRowView { label: self.label@, phrases: self.phrases@, is_header: self.is_header }
    }
}

pub open spec fn row_views(rows: Seq<HelpRow>) -> Seq<HelpRowView> {
    Seq::new(rows.len(), |i: int| rows[i]@)
}

/// A heading.
pub open spec fn heading_row(label: Seq<char>) -> HelpRowView {
    HelpRowView { label, phrases: Seq::empty(), is_header: true }
}

/// A command.
pub open spec fn command_row(label: Seq<char>, phrases: Seq<char>) -> HelpRowView {
    HelpRowView { label, phrases, is_header: false }
}

/// The rows for the phrases of the table.
pub open spec fn rule_rows() -> Seq<HelpRowView> {
    Seq::new(
        rules().len(),
        |i: int| command_row(label_of(rules()[i].1), join(rules()[i].0, ", "@)),
    )
}

/// The rows for the queries.
pub open spec fn query_rows() -> Seq<HelpRowView> {
    Seq::new(
        query_example_texts().len(),
        |i: int| command_row(query_example_texts()[i].0, join(query_example_texts()[i].1, ", "@)),
    )
}

/// What the help panel lists: the commands, the queries, and where aliases are
/// kept.
pub open spec fn help_panel() -> Seq<HelpRowView> {
    seq![heading_row("COMMANDS"@)] + rule_rows() + seq![
        heading_row("VOICE QUERIES (FREE-FORM)"@),
    ] + query_rows() + seq![
        heading_row("PHONETIC ALIASES"@),
        command_row(
            "Aliases (query_aliases.toml)"@,
            "Common: Maverick → AGM-65, Sidewinder → AIM-9, Slammer → AIM-120, HARM → AGM-88, Mark 82 → MK-82. Edit query_aliases.toml + press F5."@,
        ),
    ]
}

fn join_strs(list: &'static [&'static str], sep: &str) -> (r: String)
    ensures
        r@ == join(str_texts(list@), sep@),
{
    let ghost all = str_texts(list@);
    let mut out = String::new();
    let mut i: usize = 0;
    assert(all.take(0) =~= Seq::empty());
    while i < list.len()
        invariant
            i <= list.len(),
            all == str_texts(list@),
            out@ == join(all.take(i as int), sep@),
        decreases list.len() - i,
    {
        assert(all.take(i + 1).drop_last() =~= all.take(i as int));
        if i > 0 {
            push_text(&mut out, sep);
        }
        push_text(&mut out, list[i]);
        assert(i == 0 ==> out@ =~= all.take(1)[0]);
        i += 1;
    }
    assert(all.take(i as int) =~= all);
    out
}

fn push_row(rows: &mut Vec<HelpRow>, label: &str, phrases: String, is_header: bool)
    ensures
        row_views(final(rows)@) == row_views(old(rows)@).push(
            HelpRowView { label: label@, phrases: phrases@, is_header },
        ),
{
    rows.push(HelpRow { label: own(label), phrases, is_header });
    assert(row_views(rows@) =~= row_views(old(rows)@).push(
        HelpRowView { label: label@, phrases: phrases@, is_header },
    ));
}

/// The rows of the help panel.
pub fn help_rows() -> (r: Vec<HelpRow>)
    ensures
        row_views(r@) == help_panel(),
{
    let mut rows: Vec<HelpRow> = Vec::new();
    assert(row_views(rows@) =~= Seq::empty());
    push_row(&mut rows, "COMMANDS", String::new(), true);
    let ghost first = row_views(rows@);
    assert(first =~= seq![heading_row("COMMANDS"@)]);
    let table = all_rules();
    let mut i: usize = 0;
    assert(first + rule_rows().take(0) =~= first);
    while i < table.len()
        invariant
            i <= table.len(),
            rule_texts(table@) == rules(),
            row_views(rows@) == first + rule_rows().take(i as int),
        decreases table.len() - i,
    {
        assert(rules().len() == table.len());
        assert(rules()[i as int] == rule_texts(table@)[i as int]);
        let ghost before = row_views(rows@);
        push_row(&mut rows, table[i].1.label(), join_strs(table[i].0, ", "), false);
        i += 1;
        assert(before.push(rule_rows()[i - 1]) =~= first + rule_rows().take(i as int));
    }
    assert(rules().len() == table.len());
    assert(rule_rows().take(i as int) =~= rule_rows());
    push_row(&mut rows, "VOICE QUERIES (FREE-FORM)", String::new(), true);
    let ghost second = row_views(rows@);
    let examples = query_examples();
    let mut k: usize = 0;
    assert(second + query_rows().take(0) =~= second);
    while k < examples.len()
        invariant
            k <= examples.len(),
            group_texts(examples@) == query_example_texts(),
            row_views(rows@) == second + query_rows().take(k as int),
        decreases examples.len() - k,
    {
        assert(query_example_texts().len() == examples.len());
        assert(query_example_texts()[k as int] == group_texts(examples@)[k as int]);
        let ghost before = row_views(rows@);
        push_row(&mut rows, examples[k].0, join_strs(examples[k].1, ", "), false);
        k += 1;
        assert(before.push(query_rows()[k - 1]) =~= second + query_rows().take(k as int));
    }
    assert(query_example_texts().len() == examples.len());
    assert(query_rows().take(k as int) =~= query_rows());
    push_row(&mut rows, "PHONETIC ALIASES", String::new(), true);
    push_row(
        &mut rows,
        "Aliases (query_aliases.toml)",
        own(
            "Common: Maverick → AGM-65, Sidewinder → AIM-9, Slammer → AIM-120, HARM → AGM-88, Mark 82 → MK-82. Edit query_aliases.toml + press F5.",
        ),
        false,
    );
    assert(row_views(rows@) =~= help_panel());
    rows
}

/// Every command of the phrase table is listed: a row of the panel has the action's
/// label, and the phrases that are said for it.
pub proof fn law_every_command_is_listed(i: int)
    requires
        0 <= i < rules().len(),
    ensures
        exists|k: int|
            0 < k < help_panel().len() && {
                let row = #[trigger] help_panel()[k];
                !row.is_header && row.label == label_of(rules()[i].1) && row.phrases == join(
                    rules()[i].0,
                    ", "@,
                )
            },
        help_panel()[0].is_header && help_panel()[0].label == "COMMANDS"@,
{
    let rows = rule_rows();
    assert(rows[i] == command_row(label_of(rules()[i].1), join(rules()[i].0, ", "@)));
    assert(help_panel()[i + 1] == rows[i]);
    assert(help_panel()[0] == heading_row("COMMANDS"@));
}

/// Every kind of query is listed, with its examples.
pub proof fn law_every_query_is_listed(i: int)
    requires
        0 <= i < query_example_texts().len(),
    ensures
        exists|k: int|
            0 < k < help_panel().len() && {
                let row = #[trigger] help_panel()[k];
                !row.is_header && row.label == query_example_texts()[i].0 && row.phrases == join(
                    query_example_texts()[i].1,
                    ", "@,
                )
            },
{
    let n = rule_rows().len() as int;
    assert(query_rows()[i] == command_row(
        query_example_texts()[i].0,
        join(query_example_texts()[i].1, ", "@),
    ));
    assert(help_panel()[n + 2 + i] == query_rows()[i]);
}

/// A name that is not known has a dash for its drawing.
pub proof fn law_known_names_have_a_drawing(name: Seq<char>)
    ensures
        !seq![
            "clipboard-list"@,
            "plane"@,
            "map"@,
            "image"@,
            "list-checks"@,
            "file-text"@,
            "book"@,
            "file"@,
        ].contains(name) ==> icon_path(name) == "M 5 12 L 19 12"@,
{
    let known = seq![
        "clipboard-list"@,
        "plane"@,
        "map"@,
        "image"@,
        "list-checks"@,
        "file-text"@,
        "book"@,
        "file"@,
    ];
    if !known.contains(name) {
        assert(known.contains(known[0]) && known.contains(known[1]) && known.contains(known[2])
            && known.contains(known[3]) && known.contains(known[4]) && known.contains(known[5])
            && known.contains(known[6]) && known.contains(known[7]));
    }
}

} // verus!
