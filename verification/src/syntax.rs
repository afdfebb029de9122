//! The document tree, and its mathematical model.
//!
//! Every executable node has a `model`, the same shape with its text as
//! `Seq<char>`; the contracts of the parser and the emitter speak of models.
use vstd::prelude::*;

verus! {

/// A package family that the emitted LaTeX loads.
#[derive(Debug, Clone, Copy, PartialEq, Eq)]
pub enum Feature {
    Bibliography,
    Graphics,
    Math,
    Theorem,
}

/// A set of features.
#[derive(Debug, Clone, Copy, PartialEq, Eq)]
pub struct FeatureSet {
    pub bibliography: bool,
    pub graphics: bool,
    pub math: bool,
    pub theorem: bool,
}

impl FeatureSet {
    pub open spec fn has(self, f: Feature) -> bool {
        match f {
            Feature::Bibliography => self.bibliography,
            Feature::Graphics => self.graphics,
            Feature::Math => self.math,
            Feature::Theorem => self.theorem,
        }
    }

    pub open spec fn with(self, f: Feature) -> FeatureSet {
        match f {
            Feature::Bibliography => FeatureSet { bibliography: true, ..self },
            Feature::Graphics => FeatureSet { graphics: true, ..self },
            Feature::Math => FeatureSet { math: true, ..self },
            Feature::Theorem => FeatureSet { theorem: true, ..self },
        }
    }

    pub open spec fn union(self, other: FeatureSet) -> FeatureSet {
        FeatureSet {
            bibliography: self.bibliography || other.bibliography,
            graphics: self.graphics || other.graphics,
            math: self.math || other.math,
            theorem: self.theorem || other.theorem,
        }
    }

    pub open spec fn none() -> FeatureSet {
        FeatureSet { bibliography: false, graphics: false, math: false, theorem: false }
    }

    pub fn empty() -> (s: FeatureSet)
        ensures
            s == FeatureSet::none(),
    {
        FeatureSet { bibliography: false, graphics: false, math: false, theorem: false }
    }

    pub fn insert(&mut self, f: Feature)
        ensures
            *final(self) == old(self).with(f),
    {
        match f {
            Feature::Bibliography => self.bibliography = true,
            Feature::Graphics => self.graphics = true,
            Feature::Math => self.math = true,
            Feature::Theorem => self.theorem = true,
        }
    }

    pub fn contains(&self, f: Feature) -> (b: bool)
        ensures
            b == self.has(f),
    {
        match f {
            Feature::Bibliography => self.bibliography,
            Feature::Graphics => self.graphics,
            Feature::Math => self.math,
            Feature::Theorem => self.theorem,
        }
    }
}

/// A table column alignment.
#[derive(Debug, Clone, Copy, PartialEq, Eq)]
pub enum Align {
    Left,
    Center,
    Right,
}

/// A `define name(params) "latex"` math macro.
#[derive(Debug)]
pub struct Definition {
    pub name: Vec<char>,
    pub params: Vec<Vec<char>>,
    pub latex: Vec<char>,
}

pub struct DefinitionModel {
    pub name: Seq<char>,
    pub params: Seq<Seq<char>>,
    pub latex: Seq<char>,
}

impl Definition {
    pub open spec fn model(self) -> DefinitionModel {
        DefinitionModel {
            name: self.name@,
            params: self.params@.map_values(|p: Vec<char>| p@),
            latex: self.latex@,
        }
    }
}

pub open spec fn definitions_model(v: Seq<Definition>) -> Seq<DefinitionModel> {
    v.map_values(|d: Definition| d.model())
}

#[derive(Debug)]
pub enum DateValue {
    Literal(Vec<char>),
    Today,
}

pub enum DateModel {
    Literal(Seq<char>),
    Today,
}

impl DateValue {
    pub open spec fn model(self) -> DateModel {
        match self {
            DateValue::Literal(s) => DateModel::Literal(s@),
            DateValue::Today => DateModel::Today,
        }
    }
}

/// Inline content of a paragraph, list item, table cell or comparison.
#[derive(Debug)]
pub enum Inline {
    Bold(Vec<Inline>),
    Cite(Vec<char>),
    Italic(Vec<Inline>),
    Latex(Vec<char>),
    Math(Vec<char>),
    Ref(Vec<char>),
    SmallCaps(Vec<Inline>),
    Text(Vec<char>),
}

pub enum InlineModel {
    Bold(Seq<InlineModel>),
    Cite(Seq<char>),
    Italic(Seq<InlineModel>),
    Latex(Seq<char>),
    Math(Seq<char>),
    Ref(Seq<char>),
    SmallCaps(Seq<InlineModel>),
    Text(Seq<char>),
}

impl Inline {
    pub open spec fn model(self) -> InlineModel
        decreases self,
    {
        match self {
            Inline::Bold(c) => InlineModel::Bold(inlines_model(c@)),
            Inline::Cite(s) => InlineModel::Cite(s@),
            Inline::Italic(c) => InlineModel::Italic(inlines_model(c@)),
            Inline::Latex(s) => InlineModel::Latex(s@),
            Inline::Math(s) => InlineModel::Math(s@),
            Inline::Ref(s) => InlineModel::Ref(s@),
            Inline::SmallCaps(c) => InlineModel::SmallCaps(inlines_model(c@)),
            Inline::Text(s) => InlineModel::Text(s@),
        }
    }
}

pub open spec fn inlines_model(v: Seq<Inline>) -> Seq<InlineModel>
    decreases v,
{
    Seq::new(
        v.len(),
        |i: int|
            if 0 <= i < v.len() {
                v[i].model()
            } else {
                InlineModel::Text(seq![])
            },
    )
}

/// The models of a list of inline lists (list items, or the cells of a row).
pub open spec fn inline_lists_model(v: Seq<Vec<Inline>>) -> Seq<Seq<InlineModel>> {
    v.map_values(|x: Vec<Inline>| inlines_model(x@))
}

/// The models of table rows.
pub open spec fn rows_model(v: Seq<Vec<Vec<Inline>>>) -> Seq<Seq<Seq<InlineModel>>> {
    v.map_values(|x: Vec<Vec<Inline>>| inline_lists_model(x@))
}

pub open spec fn opt_chars(o: Option<Vec<char>>) -> Option<Seq<char>> {
    match o {
        Some(s) => Some(s@),
        None => None,
    }
}

/// A block-level element of a document.
#[derive(Debug)]
#[allow(inconsistent_fields)]
pub enum Block {
    Abstract(Vec<Block>),
    Bibliography(Vec<char>),
    Compare { latex: Vec<char>, vitamins: Vec<Inline> },
    Equation { label: Option<Vec<char>>, expr: Vec<char> },
    Figure {
        path: Vec<char>,
        width: Option<Vec<char>>,
        caption: Option<Vec<char>>,
        label: Option<Vec<char>>,
    },
    Items(Vec<Vec<Inline>>),
    Paragraph(Vec<Inline>),
    Proof(Vec<Block>),
    Quote(Vec<Block>),
    RawLatex(Vec<char>),
    Section { level: u8, title: Vec<char>, children: Vec<Block> },
    Steps(Vec<Vec<Inline>>),
    Table {
        columns: Vec<Align>,
        rows: Vec<Vec<Vec<Inline>>>,
        rules: Vec<usize>,
        caption: Option<Vec<char>>,
    },
    Theorem { title: Option<Vec<char>>, children: Vec<Block> },
}

#[allow(inconsistent_fields)]
pub enum BlockModel {
    Abstract(Seq<BlockModel>),
    Bibliography(Seq<char>),
    Compare { latex: Seq<char>, vitamins: Seq<InlineModel> },
    Equation { label: Option<Seq<char>>, expr: Seq<char> },
    Figure {
        path: Seq<char>,
        width: Option<Seq<char>>,
        caption: Option<Seq<char>>,
        label: Option<Seq<char>>,
    },
    Items(Seq<Seq<InlineModel>>),
    Paragraph(Seq<InlineModel>),
    Proof(Seq<BlockModel>),
    Quote(Seq<BlockModel>),
    RawLatex(Seq<char>),
    Section { level: u8, title: Seq<char>, children: Seq<BlockModel> },
    Steps(Seq<Seq<InlineModel>>),
    Table {
        columns: Seq<Align>,
        rows: Seq<Seq<Seq<InlineModel>>>,
        rules: Seq<usize>,
        caption: Option<Seq<char>>,
    },
    Theorem { title: Option<Seq<char>>, children: Seq<BlockModel> },
}

impl Block {
    pub open spec fn model(self) -> BlockModel
        decreases self,
    {
        match self {
            Block::Abstract(c) => BlockModel::Abstract(blocks_model(c@)),
            Block::Bibliography(s) => BlockModel::Bibliography(s@),
            Block::Compare { latex, vitamins } => BlockModel::Compare {
                latex: latex@,
                vitamins: inlines_model(vitamins@),
            },
            Block::Equation { label, expr } => BlockModel::Equation {
                label: opt_chars(label),
                expr: expr@,
            },
            Block::Figure { path, width, caption, label } => BlockModel::Figure {
                path: path@,
                width: opt_chars(width),
                caption: opt_chars(caption),
                label: opt_chars(label),
            },
            Block::Items(items) => BlockModel::Items(inline_lists_model(items@)),
            Block::Paragraph(c) => BlockModel::Paragraph(inlines_model(c@)),
            Block::Proof(c) => BlockModel::Proof(blocks_model(c@)),
            Block::Quote(c) => BlockModel::Quote(blocks_model(c@)),
            Block::RawLatex(s) => BlockModel::RawLatex(s@),
            Block::Section { level, title, children } => BlockModel::Section {
                level,
                title: title@,
                children: blocks_model(children@),
            },
            Block::Steps(items) => BlockModel::Steps(inline_lists_model(items@)),
            Block::Table { columns, rows, rules, caption } => BlockModel::Table {
                columns: columns@,
                rows: rows_model(rows@),
                rules: rules@,
                caption: opt_chars(caption),
            },
            Block::Theorem { title, children } => BlockModel::Theorem {
                title: opt_chars(title),
                children: blocks_model(children@),
            },
        }
    }
}

pub open spec fn blocks_model(v: Seq<Block>) -> Seq<BlockModel>
    decreases v,
{
    Seq::new(
        v.len(),
        |i: int|
            if 0 <= i < v.len() {
                v[i].model()
            } else {
                BlockModel::RawLatex(seq![])
            },
    )
}

/// A parsed document.
#[derive(Debug)]
pub struct Document {
    pub title: Vec<char>,
    pub author: Option<Vec<char>>,
    pub date: Option<DateValue>,
    pub definitions: Vec<Definition>,
    pub uses: FeatureSet,
    pub body: Vec<Block>,
}

#[verifier::ext_equal]
pub struct DocumentModel {
    pub title: Seq<char>,
    pub author: Option<Seq<char>>,
    pub date: Option<DateModel>,
    pub definitions: Seq<DefinitionModel>,
    pub uses: FeatureSet,
    pub body: Seq<BlockModel>,
}

pub open spec fn opt_date(o: Option<DateValue>) -> Option<DateModel> {
    match o {
        Some(d) => Some(d.model()),
        None => None,
    }
}

impl View for Document {
    type V = DocumentModel;

    open spec fn view(&self) -> DocumentModel {
        DocumentModel {
            title: self.title@,
            author: opt_chars(self.author),
            date: opt_date(self.date),
            definitions: definitions_model(self.definitions@),
            uses: self.uses,
            body: blocks_model(self.body@),
        }
    }
}

} // verus!
