//! The configuration of a run and of each document it produces.

use vstd::prelude::*;
use crate::text::{replace_all, replaced, same_text, Text};

verus! {

/// How the columns of a table are aligned.
#[derive(Debug, Clone, Copy, PartialEq, Eq, Structural)]
pub enum AlignTab {
    /// Centred.
    C,
    /// Right aligned.
    R,
    /// Left aligned.
    L,
}

/// The kind of anchor cell that a label set is searched for.
#[derive(Debug, Clone, Copy, PartialEq, Eq, Structural)]
pub enum TabParameters {
    Parameter,
    Category,
    Product,
}

/// Where the configuration of a run is read from.
#[derive(Debug, Clone)]
pub struct Config {
    config_path: String,
}

impl Config {
    /// The path of the configuration file.
    pub closed spec fn path(&self) -> Text {
        self.config_path@
    }

    /// Takes the path of the configuration file from the arguments of the
    /// program: it is the second of them, the first being the program's name.
    pub fn new(args: &[String]) -> (result: Result<Config, &'static str>)
        ensures
            args@.len() < 2 ==> result is Err && result->Err_0@ == "Not enough argument"@,
            args@.len() >= 2 ==> result is Ok && result->Ok_0.path() == args@[1]@,
    {
        if args.len() < 2 {
            return Err("Not enough argument");
        }
        Ok(Config { config_path: args[1].clone() })
    }

    /// The path of the configuration file.
    pub fn get_config_path(&self) -> (path: &String)
        ensures
            path@ == self.path(),
    {
        &self.config_path
    }
}

impl Default for Config {
    /// The configuration file at its usual place.
    fn default() -> (config: Self)
        ensures
            config.path() == "config/config_source.json"@,
    {
        Self { config_path: "config/config_source.json".to_owned() }
    }
}

/// One document: where its data comes from and which labels mark it.
#[derive(Debug, Clone)]
pub struct PdfFile {
    pdf_name: String,
    output: String,
    source: String,
    worksheet: String,
    products: Vec<String>,
    categories: Vec<String>,
    parameters: Vec<String>,
}

/// The path of the markup file `name` in the directory `output`.
pub open spec fn tex_path(output: Text, name: Text) -> Text {
    output + "/"@ + name + ".tex"@
}

/// The path of the markup file `name` in the directory `output`.
pub fn tex_file_path(output: &str, name: &str) -> (path: String)
    ensures
        path@ == tex_path(output@, name@),
{
    let mut path = output.to_owned();
    path.append("/");
    path.append(name);
    path.append(".tex");
    path
}

impl PdfFile {
    /// The name of the document, without extension.
    pub closed spec fn name(&self) -> Text {
        self.pdf_name@
    }

    /// The directory the document is written to.
    pub closed spec fn output_dir(&self) -> Text {
        self.output@
    }

    /// The path of the workbook.
    pub closed spec fn source_path(&self) -> Text {
        self.source@
    }

    /// The name of the worksheet within the workbook.
    pub closed spec fn worksheet_name(&self) -> Text {
        self.worksheet@
    }

    /// The labels that mark the anchor cells of one kind.
    pub closed spec fn labels(&self, field: TabParameters) -> Seq<Text> {
        match field {
            TabParameters::Product => self.products.deep_view(),
            TabParameters::Parameter => self.parameters.deep_view(),
            TabParameters::Category => self.categories.deep_view(),
        }
    }

    /// A document without name, source or labels.
    pub fn new() -> (file: Self)
        ensures
            file.name() == Seq::<char>::empty(),
            file.output_dir() == Seq::<char>::empty(),
            file.source_path() == Seq::<char>::empty(),
            file.worksheet_name() == Seq::<char>::empty(),
            forall|field: TabParameters| #[trigger] file.labels(field) == Seq::<Text>::empty(),
    {
        let file = Self {
            pdf_name: String::new(),
            output: String::new(),
            source: String::new(),
            worksheet: String::new(),
            products: Vec::new(),
            categories: Vec::new(),
            parameters: Vec::new(),
        };
        file
    }

    /// A document with the given name, places and labels.
    pub fn from_values(
        pdf_name: String,
        output: String,
        source: String,
        worksheet: String,
        products: Vec<String>,
        categories: Vec<String>,
        parameters: Vec<String>,
    ) -> (file: Self)
        ensures
            file.name() == pdf_name@,
            file.output_dir() == output@,
            file.source_path() == source@,
            file.worksheet_name() == worksheet@,
            file.labels(TabParameters::Product) == products.deep_view(),
            file.labels(TabParameters::Category) == categories.deep_view(),
            file.labels(TabParameters::Parameter) == parameters.deep_view(),
    {
        Self { pdf_name, output, source, worksheet, products, categories, parameters }
    }

    /// Whether the document names no product.
    pub fn is_empty(self) -> (empty: bool)
        ensures
            empty == (self.labels(TabParameters::Product).len() == 0),
    {
        self.products.is_empty()
    }

    /// The name of the document, without extension.
    pub fn get_pdf_name(&self) -> (name: &String)
        ensures
            name@ == self.name(),
    {
        &self.pdf_name
    }

    /// The directory the document is written to.
    pub fn get_output(&self) -> (output: &String)
        ensures
            output@ == self.output_dir(),
    {
        &self.output
    }

    /// The path of the workbook.
    pub fn get_source(&self) -> (source: &String)
        ensures
            source@ == self.source_path(),
    {
        &self.source
    }

    /// The name of the worksheet within the workbook.
    pub fn get_worksheet(&self) -> (worksheet: &String)
        ensures
            worksheet@ == self.worksheet_name(),
    {
        &self.worksheet
    }

    /// The path of the file that the document's markup is written to.
    pub open spec fn markup_path(&self) -> Text {
        tex_path(self.output_dir(), self.name())
    }

    /// The path of the file that the document's markup is written to.
    pub fn tex_file(&self) -> (path: String)
        ensures
            path@ == self.markup_path(),
    {
        tex_file_path(self.output.as_str(), self.pdf_name.as_str())
    }

    /// The arguments that the compiler is run with.
    pub open spec fn compiler_arguments(&self) -> Seq<Text> {
        seq![
            self.output_dir(),
            "-pdf"@,
            "--output-directory="@ + replaced(self.output_dir(), "/"@, Seq::empty()) + "/"@,
        ]
    }

    /// The arguments that the compiler is run with: the directory of the
    /// markup, the kind of document to make, and the directory to write to,
    /// which is the output directory without its slashes.
    pub fn get_compiler_arguments(&self) -> (arguments: Vec<String>)
        ensures
            arguments.deep_view() == self.compiler_arguments(),
    {
        let mut directory = "--output-directory=".to_owned();
        directory.append(replace_all(self.output.as_str(), "/", "").as_str());
        directory.append("/");
        let mut arguments: Vec<String> = Vec::new();
        arguments.push(self.output.clone());
        arguments.push("-pdf".to_owned());
        arguments.push(directory);
        proof {
            reveal_strlit("");
            assert(""@ =~= Seq::<char>::empty());
        }
        arguments
    }

    /// The labels that mark the anchor cells of one kind.
    pub fn get_labels(&self, field: TabParameters) -> (labels: &Vec<String>)
        ensures
            labels.deep_view() == self.labels(field),
    {
        match field {
            TabParameters::Product => &self.products,
            TabParameters::Parameter => &self.parameters,
            TabParameters::Category => &self.categories,
        }
    }
}

/// Whether `file` is the document of the rigid-materials overview: one
/// product, three categories and five parameter columns.
pub open spec fn is_rigid_overview(file: PdfFile) -> bool {
    &&& file.name() == "Default File"@
    &&& file.output_dir() == "output/"@
    &&& file.source_path() == "sources/BIOTEC.xlsx"@
    &&& file.worksheet_name() == "Master - Rigid Overview "@
    &&& file.labels(TabParameters::Product) == seq!["BIOPLAST 800"@]
    &&& file.labels(TabParameters::Category) == seq![
        "Properties"@,
        "Mechanical Properties"@,
        "Compostable Certification"@,
    ]
    &&& file.labels(TabParameters::Parameter) == seq![
        "Parameters"@,
        "Certification"@,
        "Unit"@,
        "Descriptions"@,
        "Standart"@,
    ]
}

impl Default for PdfFile {
    /// The document of the rigid-materials overview.
    fn default() -> (file: Self)
        ensures
            is_rigid_overview(file),
    {
        let mut products: Vec<String> = Vec::new();
        products.push("BIOPLAST 800".to_owned());
        let mut categories: Vec<String> = Vec::new();
        categories.push("Properties".to_owned());
        categories.push("Mechanical Properties".to_owned());
        categories.push("Compostable Certification".to_owned());
        let mut parameters: Vec<String> = Vec::new();
        parameters.push("Parameters".to_owned());
        parameters.push("Certification".to_owned());
        parameters.push("Unit".to_owned());
        parameters.push("Descriptions".to_owned());
        parameters.push("Standart".to_owned());
        proof {
            assert(products.deep_view() =~= seq!["BIOPLAST 800"@]);
            assert(categories.deep_view() =~= seq![
                "Properties"@,
                "Mechanical Properties"@,
                "Compostable Certification"@,
            ]);
            assert(parameters.deep_view() =~= seq![
                "Parameters"@,
                "Certification"@,
                "Unit"@,
                "Descriptions"@,
                "Standart"@,
            ]);
        }
        Self {
            pdf_name: "Default File".to_owned(),
            output: "output/".to_owned(),
            source: "sources/BIOTEC.xlsx".to_owned(),
            worksheet: "Master - Rigid Overview ".to_owned(),
            products,
            categories,
            parameters,
        }
    }
}

/// Document-wide settings and the documents to produce.
#[derive(Debug, Clone)]
pub struct ConfigXlsx {
    /// The documents to produce.
    pub pdf_file: Vec<PdfFile>,
    /// Red, green and blue of the text.
    pub color_text: Vec<i32>,
    /// Red, green and blue behind a table's title.
    pub color_tab_title: Vec<i32>,
    /// Red, green and blue of the lines between rows.
    pub color_tab_line: Vec<i32>,
    /// The directory, below the output, that holds the images.
    pub assets: String,
    /// The page margin in inches, as it is to be written.
    pub margin_size: String,
    /// `left`, `right` or `center`.
    pub alignment_tabular: String,
}

impl ConfigXlsx {
    /// A configuration without documents and colours, with a margin of 0.84
    /// inches and tables aligned to the left.
    pub fn new() -> (config: Self)
        ensures
            config.pdf_file@.len() == 0,
            config.color_text@.len() == 0,
            config.color_tab_title@.len() == 0,
            config.color_tab_line@.len() == 0,
            config.assets@ == Seq::<char>::empty(),
            config.margin_size@ == "0.84"@,
            config.alignment_tabular@ == "left"@,
    {
        Self {
            pdf_file: Vec::new(),
            color_text: Vec::new(),
            color_tab_title: Vec::new(),
            color_tab_line: Vec::new(),
            assets: String::new(),
            margin_size: "0.84".to_owned(),
            alignment_tabular: "left".to_owned(),
        }
    }

    /// Whether nothing is configured: no document, no colour and no
    /// alignment.
    pub fn is_empty(self) -> (empty: bool)
        ensures
            empty == (self.alignment_tabular@.len() == 0 && self.color_tab_line@.len() == 0
                && self.color_tab_title@.len() == 0 && self.color_text@.len() == 0
                && self.pdf_file@.len() == 0),
    {
        self.alignment_tabular.as_str().is_empty() && self.color_tab_line.is_empty()
            && self.color_tab_title.is_empty() && self.color_text.is_empty()
            && self.pdf_file.is_empty()
    }
}

impl ConfigXlsx {
    /// The alignment that `alignment_tabular` asks for: left unless it reads
    /// `right` or `center`.
    pub open spec fn alignment(&self) -> AlignTab {
        if self.alignment_tabular@ == "right"@ {
            AlignTab::R
        } else if self.alignment_tabular@ == "center"@ {
            AlignTab::C
        } else {
            AlignTab::L
        }
    }

    /// The alignment of the columns of every table.
    pub fn align(&self) -> (align: AlignTab)
        ensures
            align == self.alignment(),
    {
        if same_text(self.alignment_tabular.as_str(), "right") {
            AlignTab::R
        } else if same_text(self.alignment_tabular.as_str(), "center") {
            AlignTab::C
        } else {
            AlignTab::L
        }
    }
}

impl Default for ConfigXlsx {
    /// The house style: dark green text, light grey titles and lines, a
    /// margin of 0.8 inches, tables aligned to the left, and the one
    /// document of [`PdfFile::default`].
    fn default() -> (config: Self)
        ensures
            config.pdf_file@.len() == 1,
            is_rigid_overview(config.pdf_file@[0]),
            config.color_text@ == seq![13i32, 64i32, 47i32],
            config.color_tab_title@ == seq![237i32, 233i32, 230i32],
            config.color_tab_line@ == seq![215i32, 212i32, 210i32],
            config.assets@ == "resources/"@,
            config.margin_size@ == "0.8"@,
            config.alignment_tabular@ == "left"@,
    {
        let mut pdf_file: Vec<PdfFile> = Vec::new();
        pdf_file.push(PdfFile::default());
        let mut color_text: Vec<i32> = Vec::new();
        color_text.push(13);
        color_text.push(64);
        color_text.push(47);
        let mut color_tab_title: Vec<i32> = Vec::new();
        color_tab_title.push(237);
        color_tab_title.push(233);
        color_tab_title.push(230);
        let mut color_tab_line: Vec<i32> = Vec::new();
        color_tab_line.push(215);
        color_tab_line.push(212);
        color_tab_line.push(210);
        Self {
            pdf_file,
            color_text,
            color_tab_title,
            color_tab_line,
            assets: "resources/".to_owned(),
            margin_size: "0.8".to_owned(),
            alignment_tabular: "left".to_owned(),
        }
    }
}

} // verus!
