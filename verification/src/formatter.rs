//! The renderers: pure mappings from a completed [`Document`] to one output
//! string, one rendering rule per block kind, applied in document order.

use vstd::prelude::*;

use crate::structures::{Block, BlockView, Document};

verus! {

/// `n` repetitions of the heading marker character.
pub open spec fn hashes(n: nat) -> Seq<char> {
    Seq::new(n, |i: int| '#')
}

/// The decimal digit character for `d`.
pub open spec fn dec_digit(d: nat) -> char {
    if d == 0 {
        '0'
    } else if d == 1 {
        '1'
    } else if d == 2 {
        '2'
    } else if d == 3 {
        '3'
    } else if d == 4 {
        '4'
    } else if d == 5 {
        '5'
    } else if d == 6 {
        '6'
    } else if d == 7 {
        '7'
    } else if d == 8 {
        '8'
    } else {
        '9'
    }
}

/// The decimal notation of `n`, most significant digit first.
pub open spec fn dec_str(n: nat) -> Seq<char>
    decreases n,
{
    if n < 10 {
        seq![dec_digit(n)]
    } else {
        dec_str(n / 10).push(dec_digit(n % 10))
    }
}

/// The Markdown lines of a list: one `- item` line per item.
pub open spec fn md_items(items: Seq<Seq<char>>) -> Seq<char>
    decreases items.len(),
{
    if items.len() == 0 {
        Seq::empty()
    } else {
        md_items(items.drop_last()) + "- "@ + items.last() + "\n"@
    }
}

/// The Markdown rendering of one block.
pub open spec fn md_block(b: BlockView) -> Seq<char> {
    match b {
        BlockView::Heading { level, text } => hashes(level) + " "@ + text + "\n\n"@,
        BlockView::Paragraph { text } => text + "\n\n"@,
        BlockView::List { items } => md_items(items) + "\n"@,
        BlockView::CodeBlock { text } => "```\n"@ + text + "\n```\n\n"@,
    }
}

/// The Markdown rendering of a document: the renderings of its blocks,
/// concatenated in order.
pub open spec fn md_doc(d: Seq<BlockView>) -> Seq<char>
    decreases d.len(),
{
    if d.len() == 0 {
        Seq::empty()
    } else {
        md_doc(d.drop_last()) + md_block(d.last())
    }
}

/// The HTML lines of a list body: one `<li>` line per item.
pub open spec fn html_items(items: Seq<Seq<char>>) -> Seq<char>
    decreases items.len(),
{
    if items.len() == 0 {
        Seq::empty()
    } else {
        html_items(items.drop_last()) + "<li>"@ + items.last() + "</li>\n"@
    }
}

/// The HTML rendering of one block. No escaping is performed on the text.
pub open spec fn html_block(b: BlockView) -> Seq<char> {
    match b {
        BlockView::Heading { level, text } => "<h"@ + dec_str(level) + ">"@ + text + "</h"@
            + dec_str(level) + ">\n"@,
        BlockView::Paragraph { text } => "<p>"@ + text + "</p>\n"@,
        BlockView::List { items } => "<ul>\n"@ + html_items(items) + "</ul>\n"@,
        BlockView::CodeBlock { text } => "<pre><code>"@ + text + "</code></pre>\n"@,
    }
}

/// The HTML rendering of a document: the renderings of its blocks,
/// concatenated in order.
pub open spec fn html_doc(d: Seq<BlockView>) -> Seq<char>
    decreases d.len(),
{
    if d.len() == 0 {
        Seq::empty()
    } else {
        html_doc(d.drop_last()) + html_block(d.last())
    }
}

/// Appends `n` heading markers to `out`.
fn push_hashes(out: &mut String, n: usize)
    ensures
        final(out)@ == old(out)@ + hashes(n as nat),
{
    let mut k: usize = 0;
    proof {
        assert(out@ =~= old(out)@ + hashes(0));
    }
    while k < n
        invariant
            k <= n,
            out@ == old(out)@ + hashes(k as nat),
        decreases n - k,
    {
        out.push('#');
        proof {
            assert(old(out)@ + hashes((k + 1) as nat) =~= (old(out)@ + hashes(k as nat)).push(
                '#',
            ));
        }
        k = k + 1;
    }
}

/// Appends the decimal notation of `n` to `out`.
fn push_decimal(out: &mut String, n: usize)
    ensures
        final(out)@ == old(out)@ + dec_str(n as nat),
    decreases n,
{
    if n >= 10 {
        push_decimal(out, n / 10);
    }
    let d = n % 10;
    let c = if d == 0 {
        '0'
    } else if d == 1 {
        '1'
    } else if d == 2 {
        '2'
    } else if d == 3 {
        '3'
    } else if d == 4 {
        '4'
    } else if d == 5 {
        '5'
    } else if d == 6 {
        '6'
    } else if d == 7 {
        '7'
    } else if d == 8 {
        '8'
    } else {
        '9'
    };
    proof {
        assert(c == dec_digit((n % 10) as nat));
        if n < 10 {
            assert(dec_str(n as nat) =~= Seq::<char>::empty().push(dec_digit(n as nat)));
            assert(old(out)@ + dec_str(n as nat) =~= old(out)@.push(dec_digit(n as nat)));
        } else {
            assert(old(out)@ + dec_str(n as nat) =~= (old(out)@ + dec_str((n / 10) as nat)).push(
                dec_digit((n % 10) as nat),
            ));
        }
    }
    out.push(c);
}

/// Convert a completed document to one Markdown string.
pub fn render_markdown(doc: &Document) -> (out: String)
    ensures
        out@ == md_doc(doc@),
{
    let mut out = String::new();
    let mut i: usize = 0;
    proof {
        assert(md_doc(doc@.take(0)) =~= Seq::<char>::empty());
    }
    while i < doc.blocks.len()
        invariant
            i <= doc.blocks@.len(),
            out@ == md_doc(doc@.take(i as int)),
        decreases doc.blocks@.len() - i,
    {
        let ghost pre = out@;
        proof {
            assert(doc@.take(i + 1).drop_last() =~= doc@.take(i as int));
            assert(doc@.take(i + 1).last() == doc@[i as int]);
        }
        match &doc.blocks[i] {
            Block::Heading(level, text) => {
                push_hashes(&mut out, *level);
                out.append(" ");
                out.append(text.as_str());
                out.append("\n\n");
                proof {
                    assert(out@ =~= pre + md_block(doc@[i as int]));
                }
            },
            Block::Paragraph(text) => {
                out.append(text.as_str());
                out.append("\n\n");
                proof {
                    assert(out@ =~= pre + md_block(doc@[i as int]));
                }
            },
            Block::List(items) => {
                let mut k: usize = 0;
                proof {
                    assert(md_items(items.deep_view().take(0)) =~= Seq::<char>::empty());
                    assert(out@ =~= pre + md_items(items.deep_view().take(0)));
                }
                while k < items.len()
                    invariant
                        k <= items@.len(),
                        out@ == pre + md_items(items.deep_view().take(k as int)),
                    decreases items@.len() - k,
                {
                    out.append("- ");
                    out.append(items[k].as_str());
                    out.append("\n");
                    proof {
                        assert(items.deep_view().take(k + 1).drop_last() =~= items.deep_view()
                            .take(k as int));
                        assert(items.deep_view().take(k + 1).last() == items@[k as int]@);
                        assert(out@ =~= pre + md_items(items.deep_view().take(k + 1)));
                    }
                    k = k + 1;
                }
                out.append("\n");
                proof {
                    assert(items.deep_view().take(items@.len() as int) =~= items.deep_view());
                    assert(out@ =~= pre + md_block(doc@[i as int]));
                }
            },
            Block::CodeBlock(text) => {
                out.append("```\n");
                out.append(text.as_str());
                out.append("\n```\n\n");
                proof {
                    assert(out@ =~= pre + md_block(doc@[i as int]));
                }
            },
        }
        i = i + 1;
    }
    proof {
        assert(doc@.take(doc.blocks@.len() as int) =~= doc@);
    }
    out
}

/// Convert a completed document to one HTML string.
pub fn render_html(doc: &Document) -> (out: String)
    ensures
        out@ == html_doc(doc@),
{
    let mut out = String::new();
    let mut i: usize = 0;
    proof {
        assert(html_doc(doc@.take(0)) =~= Seq::<char>::empty());
    }
    while i < doc.blocks.len()
        invariant
            i <= doc.blocks@.len(),
            out@ == html_doc(doc@.take(i as int)),
        decreases doc.blocks@.len() - i,
    {
        let ghost pre = out@;
        proof {
            assert(doc@.take(i + 1).drop_last() =~= doc@.take(i as int));
            assert(doc@.take(i + 1).last() == doc@[i as int]);
        }
        match &doc.blocks[i] {
            Block::Heading(level, text) => {
                out.append("<h");
                push_decimal(&mut out, *level);
                out.append(">");
                out.append(text.as_str());
                out.append("</h");
                push_decimal(&mut out, *level);
                out.append(">\n");
                proof {
                    assert(out@ =~= pre + html_block(doc@[i as int]));
                }
            },
            Block::Paragraph(text) => {
                out.append("<p>");
                out.append(text.as_str());
                out.append("</p>\n");
                proof {
                    assert(out@ =~= pre + html_block(doc@[i as int]));
                }
            },
            Block::List(items) => {
                out.append("<ul>\n");
                let ghost mid = out@;
                let mut k: usize = 0;
                proof {
                    assert(html_items(items.deep_view().take(0)) =~= Seq::<char>::empty());
                    assert(out@ =~= mid + html_items(items.deep_view().take(0)));
                }
                while k < items.len()
                    invariant
                        k <= items@.len(),
                        out@ == mid + html_items(items.deep_view().take(k as int)),
                    decreases items@.len() - k,
                {
                    out.append("<li>");
                    out.append(items[k].as_str());
                    out.append("</li>\n");
                    proof {
                        assert(items.deep_view().take(k + 1).drop_last() =~= items.deep_view()
                            .take(k as int));
                        assert(items.deep_view().take(k + 1).last() == items@[k as int]@);
                        assert(out@ =~= mid + html_items(items.deep_view().take(k + 1)));
                    }
                    k = k + 1;
                }
                out.append("</ul>\n");
                proof {
                    assert(items.deep_view().take(items@.len() as int) =~= items.deep_view());
                    assert(out@ =~= pre + html_block(doc@[i as int]));
                }
            },
            Block::CodeBlock(text) => {
                out.append("<pre><code>");
                out.append(text.as_str());
                out.append("</code></pre>\n");
                proof {
                    assert(out@ =~= pre + html_block(doc@[i as int]));
                }
            },
        }
        i = i + 1;
    }
    proof {
        assert(doc@.take(doc.blocks@.len() as int) =~= doc@);
    }
    out
}

} // verus!
