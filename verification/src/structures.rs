//! The intermediate document model: an ordered sequence of typed blocks.

use vstd::prelude::*;

verus! {

/// Mathematical form of one block: heading level as an unbounded natural,
/// text as character sequences.
pub enum BlockView {
    Heading { level: nat, text: Seq<char> },
    Paragraph { text: Seq<char> },
    List { items: Seq<Seq<char>> },
    CodeBlock { text: Seq<char> },
}

/// One classified unit of structured output.
#[derive(Debug, Clone)]
pub enum Block {
    /// Heading level (count of leading marker characters) and heading text.
    Heading(usize, String),
    /// A single logical line of running text.
    Paragraph(String),
    /// The items of one bullet list, in submission order.
    List(Vec<String>),
    /// Verbatim multi-line text captured between fence markers.
    CodeBlock(String),
}

impl View for Block {
    type V = BlockView;

    open spec fn view(&self) -> BlockView {
        match self {
            Block::Heading(level, text) => BlockView::Heading {
                level: *level as nat,
                text: text@,
            },
            Block::Paragraph(text) => BlockView::Paragraph { text: text@ },
            Block::List(items) => BlockView::List { items: items.deep_view() },
            Block::CodeBlock(text) => BlockView::CodeBlock { text: text@ },
        }
    }
}

/// A parsed document: the ordered sequence of blocks produced by one parse
/// pass, append-only while parsing and read-only afterwards.
#[derive(Debug, Clone)]
pub struct Document {
    pub blocks: Vec<Block>,
}

impl View for Document {
    type V = Seq<BlockView>;

    open spec fn view(&self) -> Seq<BlockView> {
        Seq::new(self.blocks@.len(), |i: int| self.blocks@[i]@)
    }
}

impl Document {
    /// Create a new, empty document.
    pub fn new() -> (d: Document)
        ensures
            d@ == Seq::<BlockView>::empty(),
    {
        let d = Document { blocks: Vec::new() };
        proof {
            assert(d@ =~= Seq::<BlockView>::empty());
        }
        d
    }
}

} // verus!
