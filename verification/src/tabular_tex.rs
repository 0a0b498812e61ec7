//! A plain table with a coloured title row, a row of bold sub-titles and
//! underlined content rows, built up piece by piece.

use vstd::prelude::*;
use crate::config_xlsx::AlignTab;
use crate::tab_creation::{align_letter, padding, CELL_SEPARATOR};
use crate::text::{join, joined, repeat, repeated, Text};

verus! {

/// A table that has no sub-title for them still has this many columns.
pub const LEAST_COLUMNS: usize = 6;

/// A table under construction.
#[derive(Debug, Clone)]
pub struct TabularTex {
    align: AlignTab,
    nb_col: usize,
    title_color: String,
    line_color: String,
    title: String,
    sub_title: String,
    content: String,
}

/// What a [`TabularTex`] holds.
pub struct TabularTexView {
    /// How the columns are aligned.
    pub align: AlignTab,
    /// The number of columns.
    pub nb_col: nat,
    /// The name of the colour behind the title.
    pub title_color: Text,
    /// The name of the colour of the lines between rows.
    pub line_color: Text,
    /// The markup of the title row.
    pub title: Text,
    /// The markup of the row of sub-titles.
    pub sub_title: Text,
    /// The markup of the content rows.
    pub content: Text,
}

impl View for TabularTex {
    type V = TabularTexView;

    closed spec fn view(&self) -> TabularTexView {
        TabularTexView {
            align: self.align,
            nb_col: self.nb_col as nat,
            title_color: self.title_color@,
            line_color: self.line_color@,
            title: self.title@,
            sub_title: self.sub_title@,
            content: self.content@,
        }
    }
}

/// What ends a row of a plain table.
pub open spec fn row_break() -> Text {
    "\\\\"@
}

/// The column definition of a plain table: a stretching and an aligned
/// column for each of its columns.
pub open spec fn plain_columns(align: AlignTab, nb_col: nat) -> Text {
    repeated("X "@ + align_letter(align) + " "@, nb_col)
}

/// A table's title row for the title `text`.
pub open spec fn plain_title(title_color: Text, text: Text, nb_col: nat) -> Text {
    "\\rowcolor{"@ + title_color + "}{"@ + text + "} "@ + padding(nb_col, 1)
}

/// The sub-titles in bold, each followed by a separator.
pub open spec fn bold_cells(names: Seq<Text>) -> Text
    decreases names.len(),
{
    if names.len() == 0 {
        Seq::empty()
    } else {
        bold_cells(names.drop_last()) + "\\textbf{"@ + names.last() + "} & "@
    }
}

/// One content row: its cells, filled up to `nb_col` cells, ended, with a
/// line in the colour `line_color` below it.
pub open spec fn plain_row(row: Seq<Text>, nb_col: nat, line_color: Text) -> Text {
    joined(row, CELL_SEPARATOR@) + padding(nb_col, row.len()) + row_break()
        + "\n\\arrayrulecolor{"@ + line_color + "}\\hline\n"@
}

/// The content rows, one after the other.
pub open spec fn plain_rows(rows: Seq<Seq<Text>>, nb_col: nat, line_color: Text) -> Text
    decreases rows.len(),
{
    if rows.len() == 0 {
        Seq::empty()
    } else {
        plain_rows(rows.drop_last(), nb_col, line_color) + plain_row(
            rows.last(),
            nb_col,
            line_color,
        )
    }
}

/// `table` with the title `text` added to its title row.
pub open spec fn with_title(table: TabularTexView, text: Text) -> TabularTexView {
    TabularTexView {
        title: table.title + plain_title(table.title_color, text, table.nb_col),
        content: table.content + row_break(),
        ..table
    }
}

/// `table` with `names` added to its row of sub-titles.
pub open spec fn with_sub_titles(table: TabularTexView, names: Seq<Text>) -> TabularTexView {
    TabularTexView {
        sub_title: table.sub_title + bold_cells(names) + padding(table.nb_col, names.len()),
        content: table.content + row_break(),
        ..table
    }
}

/// `table` with `rows` added to its content.
pub open spec fn with_rows(table: TabularTexView, rows: Seq<Seq<Text>>) -> TabularTexView {
    TabularTexView {
        content: table.content + plain_rows(rows, table.nb_col, table.line_color),
        ..table
    }
}

/// An empty table with the given look.
pub open spec fn blank(
    align: AlignTab,
    nb_col: nat,
    title_color: Text,
    line_color: Text,
) -> TabularTexView {
    TabularTexView {
        align,
        nb_col,
        title_color,
        line_color,
        title: Seq::empty(),
        sub_title: Seq::empty(),
        content: Seq::empty(),
    }
}

/// The number of columns of a table with `sub_titles` sub-titles.
pub open spec fn columns_for(sub_titles: nat) -> nat {
    if sub_titles < LEAST_COLUMNS {
        LEAST_COLUMNS as nat
    } else {
        sub_titles
    }
}

/// The table with the given title, sub-titles and content rows: aligned to
/// the left, in cyan, with a column for each sub-title but at least
/// [`LEAST_COLUMNS`].
pub open spec fn table_of(
    title: Text,
    sub_title: Seq<Text>,
    content: Seq<Seq<Text>>,
) -> TabularTexView {
    with_rows(
        with_sub_titles(
            with_title(blank(AlignTab::L, columns_for(sub_title.len()), "cyan"@, "cyan"@), title),
            sub_title,
        ),
        content,
    )
}

/// The markup of a table.
pub open spec fn plain_table(table: TabularTexView) -> Text {
    "\\begin{tabularx}{\\textwidth}{"@ + plain_columns(table.align, table.nb_col) + "}\n"@
        + table.title + "\n"@ + table.sub_title + "\n"@ + table.content + "\\end{tabularx}"@
}

/// The markup of a section `name` around `content`.
pub open spec fn section(name: Text, content: Text) -> Text {
    "\\begin{"@ + name + "}\n"@ + content + "\\end{"@ + name + "}"@
}

impl TabularTex {
    /// An empty table of six columns aligned to the left, without colours.
    pub fn new() -> (table: Self)
        ensures
            table@ == blank(AlignTab::L, 6, Seq::empty(), Seq::empty()),
    {
        Self {
            align: AlignTab::L,
            nb_col: 6,
            title_color: String::new(),
            line_color: String::new(),
            title: String::new(),
            sub_title: String::new(),
            content: String::new(),
        }
    }

    /// An empty table with the given look.
    pub fn empty_default(
        align: AlignTab,
        nb_col: usize,
        title_color: String,
        line_color: String,
    ) -> (table: Self)
        ensures
            table@ == blank(align, nb_col as nat, title_color@, line_color@),
    {
        Self {
            align,
            nb_col,
            title_color,
            line_color,
            title: String::new(),
            sub_title: String::new(),
            content: String::new(),
        }
    }

    /// The table with the given title, sub-titles and content rows.
    pub fn from(title: String, sub_title: Vec<String>, content: Vec<Vec<String>>) -> (table: Self)
        ensures
            table@ == table_of(title@, sub_title.deep_view(), content.deep_view()),
    {
        let mut nb_c: usize = sub_title.len();
        if nb_c < LEAST_COLUMNS {
            nb_c = LEAST_COLUMNS;
        }
        let mut t = TabularTex {
            align: AlignTab::L,
            nb_col: nb_c,
            title_color: "cyan".to_owned(),
            line_color: "cyan".to_owned(),
            title: String::new(),
            sub_title: String::new(),
            content: String::new(),
        };
        t.define_title(title);
        t.define_sub_title(sub_title);
        t.define_content(content);
        t
    }

    /// Writes the column definition.
    fn define_column(&self) -> (column_definition: String)
        ensures
            column_definition@ == plain_columns(self@.align, self@.nb_col),
    {
        let letter = match self.align {
            AlignTab::C => "c",
            AlignTab::L => "l",
            AlignTab::R => "r",
        };
        let mut unit = "X ".to_owned();
        unit.append(letter);
        unit.append(" ");
        repeat(unit.as_str(), self.nb_col)
    }

    /// Adds the title `content` to the title row.
    fn define_title(&mut self, content: String)
        ensures
            final(self)@ == with_title(old(self)@, content@),
    {
        let ghost before = self.title@;
        self.title.append("\\rowcolor{");
        self.title.append(self.title_color.as_str());
        self.title.append("}{");
        self.title.append(content.as_str());
        self.title.append("} ");
        if self.nb_col > 1 {
            self.title.append(repeat(CELL_SEPARATOR, self.nb_col - 1).as_str());
        }
        self.content.append("\\\\");
        proof {
            assert(self.title@ =~= before + plain_title(
                self.title_color@,
                content@,
                self.nb_col as nat,
            ));
        }
    }

    /// Adds the sub-titles `content` to the row of sub-titles.
    fn define_sub_title(&mut self, content: Vec<String>)
        ensures
            final(self)@ == with_sub_titles(old(self)@, content.deep_view()),
    {
        let ghost before = self.sub_title@;
        let ghost names = content.deep_view();
        let mut i: usize = 0;
        while i < content.len()
            invariant
                i <= content.len(),
                names == content.deep_view(),
                self.sub_title@ == before + bold_cells(names.take(i as int)),
                self.align == old(self).align,
                self.nb_col == old(self).nb_col,
                self.title_color == old(self).title_color,
                self.line_color == old(self).line_color,
                self.title == old(self).title,
                self.content == old(self).content,
            decreases content.len() - i,
        {
            proof {
                assert(names.take(i + 1).drop_last() =~= names.take(i as int));
            }
            self.sub_title.append("\\textbf{");
            self.sub_title.append(content[i].as_str());
            self.sub_title.append("} & ");
            i += 1;
        }
        proof {
            assert(names.take(i as int) =~= names);
        }
        if content.len() < self.nb_col {
            self.sub_title.append(repeat(CELL_SEPARATOR, self.nb_col - content.len()).as_str());
        }
        self.content.append("\\\\");
    }

    /// Adds the rows `content` to the content.
    fn define_content(&mut self, content: Vec<Vec<String>>)
        ensures
            final(self)@ == with_rows(old(self)@, content.deep_view()),
    {
        let ghost before = self.content@;
        let ghost rows = content.deep_view();
        let mut i: usize = 0;
        while i < content.len()
            invariant
                i <= content.len(),
                rows == content.deep_view(),
                self.content@ == before + plain_rows(
                    rows.take(i as int),
                    self.nb_col as nat,
                    self.line_color@,
                ),
                self.align == old(self).align,
                self.nb_col == old(self).nb_col,
                self.title_color == old(self).title_color,
                self.line_color == old(self).line_color,
                self.title == old(self).title,
                self.sub_title == old(self).sub_title,
            decreases content.len() - i,
        {
            proof {
                assert(rows.take(i + 1).drop_last() =~= rows.take(i as int));
            }
            self.content.append(join(&content[i], CELL_SEPARATOR).as_str());
            if content[i].len() < self.nb_col {
                self.content.append(
                    repeat(CELL_SEPARATOR, self.nb_col - content[i].len()).as_str(),
                );
            }
            self.content.append("\\\\");
            self.content.append("\n\\arrayrulecolor{");
            self.content.append(self.line_color.as_str());
            self.content.append("}\\hline\n");
            i += 1;
        }
        proof {
            assert(rows.take(i as int) =~= rows);
        }
    }

    /// Writes the table out. The table stays as it is.
    pub fn create_tabularx(&mut self) -> (tabularx: String)
        ensures
            tabularx@ == plain_table(old(self)@),
            final(self)@ == old(self)@,
    {
        let mut tabularx = "\\begin{tabularx}{\\textwidth}{".to_owned();
        tabularx.append(self.define_column().as_str());
        tabularx.append("}\n");
        tabularx.append(self.title.as_str());
        tabularx.append("\n");
        tabularx.append(self.sub_title.as_str());
        tabularx.append("\n");
        tabularx.append(self.content.as_str());
        tabularx.append("\\end{tabularx}");
        tabularx
    }
}

/// Puts `content` into the section `name`.
pub fn begin_section_wo_param(name: String, content: String) -> (section: String)
    ensures
        section@ == self::section(name@, content@),
{
    let mut section = "\\begin{".to_owned();
    section.append(name.as_str());
    section.append("}\n");
    section.append(content.as_str());
    section.append("\\end{");
    section.append(name.as_str());
    section.append("}");
    section
}

} // verus!
