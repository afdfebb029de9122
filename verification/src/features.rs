//! Which package families a document needs.
use vstd::prelude::*;

use crate::syntax::{
    blocks_model, inline_lists_model, inlines_model, rows_model, Block, BlockModel, Document,
    DocumentModel, Feature, FeatureSet, Inline, InlineModel,
};

verus! {

pub open spec fn inline_features(i: InlineModel) -> FeatureSet
    decreases i,
{
    match i {
        InlineModel::Bold(c) => inlines_features(c),
        InlineModel::Italic(c) => inlines_features(c),
        InlineModel::SmallCaps(c) => inlines_features(c),
        InlineModel::Math(_) => FeatureSet::none().with(Feature::Math),
        InlineModel::Cite(_) => FeatureSet::none().with(Feature::Bibliography),
        _ => FeatureSet::none(),
    }
}

pub open spec fn inlines_features(s: Seq<InlineModel>) -> FeatureSet
    decreases s,
{
    if s.len() == 0 {
        FeatureSet::none()
    } else {
        inlines_features(s.drop_last()).union(inline_features(s.last()))
    }
}

pub open spec fn lists_features(items: Seq<Seq<InlineModel>>) -> FeatureSet
    decreases items.len(),
{
    if items.len() == 0 {
        FeatureSet::none()
    } else {
        lists_features(items.drop_last()).union(inlines_features(items.last()))
    }
}

pub open spec fn rows_features(rows: Seq<Seq<Seq<InlineModel>>>) -> FeatureSet
    decreases rows.len(),
{
    if rows.len() == 0 {
        FeatureSet::none()
    } else {
        rows_features(rows.drop_last()).union(lists_features(rows.last()))
    }
}

/// The features a block needs: math for equations and inline math, graphics
/// for figures, the bibliography for citations and bibliographies, theorems
/// for theorems and proofs.
pub open spec fn block_features(b: BlockModel) -> FeatureSet
    decreases b,
{
    match b {
        BlockModel::Abstract(c) => blocks_features(c),
        BlockModel::Quote(c) => blocks_features(c),
        BlockModel::Section { children, .. } => blocks_features(children),
        BlockModel::Proof(c) => FeatureSet::none().with(Feature::Theorem).union(
            blocks_features(c),
        ),
        BlockModel::Theorem { children, .. } => FeatureSet::none().with(Feature::Theorem).union(
            blocks_features(children),
        ),
        BlockModel::Equation { .. } => FeatureSet::none().with(Feature::Math),
        BlockModel::Figure { .. } => FeatureSet::none().with(Feature::Graphics),
        BlockModel::Bibliography(_) => FeatureSet::none().with(Feature::Bibliography),
        BlockModel::Items(items) => lists_features(items),
        BlockModel::Steps(items) => lists_features(items),
        BlockModel::Paragraph(i) => inlines_features(i),
        BlockModel::Compare { vitamins, .. } => inlines_features(vitamins),
        BlockModel::Table { rows, .. } => rows_features(rows),
        BlockModel::RawLatex(_) => FeatureSet::none(),
    }
}

pub open spec fn blocks_features(s: Seq<BlockModel>) -> FeatureSet
    decreases s,
{
    if s.len() == 0 {
        FeatureSet::none()
    } else {
        blocks_features(s.drop_last()).union(block_features(s.last()))
    }
}

/// The features a document needs: those it asks for with `use`, and those
/// its content needs.
pub open spec fn spec_detect_features(doc: DocumentModel) -> FeatureSet {
    doc.uses.union(blocks_features(doc.body))
}

pub fn detect_inline_feature(inline: &Inline, features: &mut FeatureSet)
    ensures
        *final(features) == old(features).union(inline_features(inline.model())),
    decreases inline,
{
    match inline {
        Inline::Bold(children) | Inline::Italic(children) | Inline::SmallCaps(children) => {
            detect_inline_features(children, features);
        },
        Inline::Math(_) => {
            features.insert(Feature::Math);
        },
        Inline::Cite(_) => {
            features.insert(Feature::Bibliography);
        },
        Inline::Latex(_) | Inline::Ref(_) | Inline::Text(_) => {},
    }
}

pub fn detect_inline_features(inlines: &Vec<Inline>, features: &mut FeatureSet)
    ensures
        *final(features) == old(features).union(inlines_features(inlines_model(inlines@))),
    decreases inlines,
{
    let ghost m = inlines_model(inlines@);
    let mut i: usize = 0;
    while i < inlines.len()
        invariant
            i <= inlines.len(),
            m == inlines_model(inlines@),
            *features == old(features).union(inlines_features(m.subrange(0, i as int))),
        decreases inlines.len() - i,
    {
        detect_inline_feature(&inlines[i], features);
        assert(m.subrange(0, i + 1).drop_last() =~= m.subrange(0, i as int));
        i += 1;
    }
    assert(m.subrange(0, inlines.len() as int) =~= m);
}

fn detect_list_features(items: &Vec<Vec<Inline>>, features: &mut FeatureSet)
    ensures
        *final(features) == old(features).union(lists_features(inline_lists_model(items@))),
{
    let ghost m = inline_lists_model(items@);
    let mut i: usize = 0;
    while i < items.len()
        invariant
            i <= items.len(),
            m == inline_lists_model(items@),
            *features == old(features).union(lists_features(m.subrange(0, i as int))),
        decreases items.len() - i,
    {
        detect_inline_features(&items[i], features);
        assert(m.subrange(0, i + 1).drop_last() =~= m.subrange(0, i as int));
        i += 1;
    }
    assert(m.subrange(0, items.len() as int) =~= m);
}

fn detect_row_features(rows: &Vec<Vec<Vec<Inline>>>, features: &mut FeatureSet)
    ensures
        *final(features) == old(features).union(rows_features(rows_model(rows@))),
{
    let ghost m = rows_model(rows@);
    let mut i: usize = 0;
    while i < rows.len()
        invariant
            i <= rows.len(),
            m == rows_model(rows@),
            *features == old(features).union(rows_features(m.subrange(0, i as int))),
        decreases rows.len() - i,
    {
        detect_list_features(&rows[i], features);
        assert(m.subrange(0, i + 1).drop_last() =~= m.subrange(0, i as int));
        i += 1;
    }
    assert(m.subrange(0, rows.len() as int) =~= m);
}

pub fn detect_block_features(block: &Block, features: &mut FeatureSet)
    ensures
        *final(features) == old(features).union(block_features(block.model())),
    decreases block,
{
    match block {
        Block::Abstract(children) | Block::Quote(children) => {
            detect_blocks_features(children, features);
        },
        Block::Section { children, .. } => {
            detect_blocks_features(children, features);
        },
        Block::Proof(children) | Block::Theorem { children, .. } => {
            features.insert(Feature::Theorem);
            detect_blocks_features(children, features);
        },
        Block::Equation { .. } => {
            features.insert(Feature::Math);
        },
        Block::Figure { .. } => {
            features.insert(Feature::Graphics);
        },
        Block::Bibliography(_) => {
            features.insert(Feature::Bibliography);
        },
        Block::Items(items) | Block::Steps(items) => {
            detect_list_features(items, features);
        },
        Block::Paragraph(inlines) | Block::Compare { vitamins: inlines, .. } => {
            detect_inline_features(inlines, features);
        },
        Block::Table { rows, .. } => {
            detect_row_features(rows, features);
        },
        Block::RawLatex(_) => {},
    }
}

pub fn detect_blocks_features(blocks: &Vec<Block>, features: &mut FeatureSet)
    ensures
        *final(features) == old(features).union(blocks_features(blocks_model(blocks@))),
    decreases blocks,
{
    let ghost m = blocks_model(blocks@);
    let mut i: usize = 0;
    while i < blocks.len()
        invariant
            i <= blocks.len(),
            m == blocks_model(blocks@),
            *features == old(features).union(blocks_features(m.subrange(0, i as int))),
        decreases blocks.len() - i,
    {
        detect_block_features(&blocks[i], features);
        assert(m.subrange(0, i + 1).drop_last() =~= m.subrange(0, i as int));
        i += 1;
    }
    assert(m.subrange(0, blocks.len() as int) =~= m);
}

pub fn detect_features(document: &Document) -> (f: FeatureSet)
    ensures
        f == spec_detect_features(document@),
{
    let mut features = document.uses;
    detect_blocks_features(&document.body, &mut features);
    features
}

} // verus!
