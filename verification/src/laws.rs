//! Document-level guarantees of the parser and the renderers, stated and
//! proved once over the specification functions.

use vstd::prelude::*;

use crate::classify::is_fence;
use crate::config::ConfigView;
use crate::formatter::{md_doc, html_doc};
use crate::parser::{
    ParseState, init_state, join_nl, flush_para_st, flush_list_st, step_line, steps, finalize_st,
    parse_spec,
};
use crate::structures::BlockView;
use crate::text::trim_end;

verus! {

/// No block of `blocks` is a heading.
pub open spec fn no_headings(blocks: Seq<BlockView>) -> bool {
    forall|i: int| 0 <= i < blocks.len() ==> !(blocks[i] is Heading)
}

/// No block of `blocks` is an empty paragraph or an empty list.
pub open spec fn no_empty_blocks(blocks: Seq<BlockView>) -> bool {
    forall|i: int|
        0 <= i < blocks.len() ==> (match #[trigger] blocks[i] {
            BlockView::Paragraph { text } => text.len() > 0,
            BlockView::List { items } => items.len() > 0,
            _ => true,
        })
}

/// Rendering is a pure function of the finished document: rendering the
/// same document twice, in either format, yields identical strings.
pub proof fn lemma_render_pure(d1: Seq<BlockView>, d2: Seq<BlockView>)
    requires
        d1 == d2,
    ensures
        md_doc(d1) == md_doc(d2),
        html_doc(d1) == html_doc(d2),
{
}

/// Empty input parses to a document with zero blocks, and an empty document
/// renders to the empty string in both formats.
pub proof fn lemma_empty_input(cfg: ConfigView)
    ensures
        parse_spec(Seq::empty(), cfg) == Seq::<BlockView>::empty(),
        md_doc(Seq::empty()) == Seq::<char>::empty(),
        html_doc(Seq::empty()) == Seq::<char>::empty(),
{
    assert(steps(init_state(), Seq::empty(), cfg) == init_state());
    assert(parse_spec(Seq::empty(), cfg) =~= Seq::<BlockView>::empty());
}

/// Inside a code block, lines that are not fence lines are accumulated
/// verbatim (after end-trimming only): no whitespace collapsing and no
/// classification touches them, and nothing else about the parse state
/// changes.
pub proof fn lemma_code_lines_verbatim(st: ParseState, lines: Seq<Seq<char>>, cfg: ConfigView)
    requires
        st.in_code,
        forall|i: int| 0 <= i < lines.len() ==> !is_fence(trim_end(lines[i])),
    ensures
        steps(st, lines, cfg) == (ParseState {
            code: st.code + lines.map_values(|l: Seq<char>| trim_end(l)),
            ..st
        }),
    decreases lines.len(),
{
    let mapped = lines.map_values(|l: Seq<char>| trim_end(l));
    if lines.len() == 0 {
        assert(st.code + mapped =~= st.code);
        assert(steps(st, lines, cfg) =~= ParseState { code: st.code + mapped, ..st });
    } else {
        let front = lines.drop_last();
        lemma_code_lines_verbatim(st, front, cfg);
        let mid = steps(st, front, cfg);
        assert(steps(st, lines, cfg) == step_line(mid, lines.last(), cfg));
        assert(!is_fence(trim_end(lines.last())));
        assert(st.code + mapped =~= (st.code + front.map_values(|l: Seq<char>| trim_end(l))).push(
            trim_end(lines.last()),
        ));
        assert(steps(st, lines, cfg) =~= ParseState { code: st.code + mapped, ..st });
    }
}

/// Feeding a concatenation of line sequences is feeding one after the
/// other.
pub proof fn lemma_steps_concat(st: ParseState, a: Seq<Seq<char>>, b: Seq<Seq<char>>, cfg: ConfigView)
    ensures
        steps(st, a + b, cfg) == steps(steps(st, a, cfg), b, cfg),
    decreases b.len(),
{
    if b.len() == 0 {
        assert(a + b =~= a);
    } else {
        lemma_steps_concat(st, a, b.drop_last(), cfg);
        assert((a + b).drop_last() =~= a + b.drop_last());
        assert((a + b).last() == b.last());
    }
}

/// A complete fenced block passes through the parser verbatim: between an
/// opening and a closing fence line, the body lines are only end-trimmed —
/// no whitespace collapsing and no classification, whatever the
/// configuration — and they emit exactly one code block holding those
/// lines joined by newlines, after the pending paragraph and list.
pub proof fn lemma_fenced_block(
    st: ParseState,
    fence: Seq<char>,
    body: Seq<Seq<char>>,
    cfg: ConfigView,
)
    requires
        !st.in_code,
        st.code == Seq::<Seq<char>>::empty(),
        is_fence(trim_end(fence)),
        forall|i: int| 0 <= i < body.len() ==> !is_fence(trim_end(body[i])),
    ensures
        steps(st, seq![fence] + body + seq![fence], cfg) == (ParseState {
            blocks: flush_list_st(flush_para_st(st)).blocks.push(
                BlockView::CodeBlock {
                    text: join_nl(body.map_values(|l: Seq<char>| trim_end(l))),
                },
            ),
            para: Seq::empty(),
            list: Seq::empty(),
            in_code: false,
            code: Seq::empty(),
        }),
{
    let opened = step_line(st, fence, cfg);
    assert(steps(st, seq![fence], cfg) == opened) by {
        assert(seq![fence].drop_last() =~= Seq::<Seq<char>>::empty());
        assert(steps(st, Seq::<Seq<char>>::empty(), cfg) == st);
        assert(seq![fence].last() == fence);
    }
    lemma_steps_concat(st, seq![fence], body, cfg);
    lemma_code_lines_verbatim(opened, body, cfg);
    let filled = steps(opened, body, cfg);
    lemma_steps_concat(st, seq![fence] + body, seq![fence], cfg);
    assert(steps(st, seq![fence] + body, cfg) == filled);
    assert(steps(filled, seq![fence], cfg) == step_line(filled, fence, cfg)) by {
        assert(seq![fence].drop_last() =~= Seq::<Seq<char>>::empty());
        assert(steps(filled, Seq::<Seq<char>>::empty(), cfg) == filled);
        assert(seq![fence].last() == fence);
    }
    assert(filled.code =~= body.map_values(|l: Seq<char>| trim_end(l)));
    assert(steps(st, seq![fence] + body + seq![fence], cfg) =~= ParseState {
        blocks: flush_list_st(flush_para_st(st)).blocks.push(
            BlockView::CodeBlock { text: join_nl(body.map_values(|l: Seq<char>| trim_end(l))) },
        ),
        para: Seq::empty(),
        list: Seq::empty(),
        in_code: false,
        code: Seq::empty(),
    });
}

/// Input that ends while still inside a fence does not lose the accumulated
/// lines: the final flush still emits them as one code block, as the last
/// block of the document.
pub proof fn lemma_unterminated_fence(st: ParseState)
    requires
        st.in_code,
    ensures
        finalize_st(st).len() > 0,
        finalize_st(st).last() == (BlockView::CodeBlock { text: join_nl(st.code) }),
{
}

/// A sequence is a prefix of itself with one element appended.
proof fn lemma_prefix_push(a: Seq<BlockView>, b: BlockView)
    ensures
        a.is_prefix_of(a.push(b)),
{
    assert(a =~= a.push(b).subrange(0, a.len() as int));
}

/// Being a prefix is transitive.
proof fn lemma_prefix_trans(a: Seq<BlockView>, b: Seq<BlockView>, c: Seq<BlockView>)
    requires
        a.is_prefix_of(b),
        b.is_prefix_of(c),
    ensures
        a.is_prefix_of(c),
{
    assert(a =~= c.subrange(0, a.len() as int));
}

/// One parser step only appends blocks: the blocks already emitted stay,
/// in place and unchanged.
pub proof fn lemma_step_append_only(st: ParseState, raw: Seq<char>, cfg: ConfigView)
    ensures
        st.blocks.is_prefix_of(step_line(st, raw, cfg).blocks),
{
    let line = trim_end(raw);
    let p = flush_para_st(st);
    let pl = flush_list_st(p);
    let l = flush_list_st(st);
    assert(st.blocks =~= st.blocks.subrange(0, st.blocks.len() as int));
    lemma_prefix_push(st.blocks, BlockView::Paragraph { text: crate::text::trim(st.para) });
    assert(p.blocks =~= p.blocks.subrange(0, p.blocks.len() as int));
    lemma_prefix_push(p.blocks, BlockView::List { items: p.list });
    lemma_prefix_trans(st.blocks, p.blocks, pl.blocks);
    lemma_prefix_push(st.blocks, BlockView::List { items: st.list });
    assert(l.blocks =~= l.blocks.subrange(0, l.blocks.len() as int));
    if st.in_code {
        if is_fence(line) {
            lemma_prefix_push(st.blocks, BlockView::CodeBlock { text: join_nl(st.code) });
        }
    } else if is_fence(line) {
    } else {
        let line2 = if cfg.remove_extra_spaces {
            crate::text::collapse_ws(line)
        } else {
            line
        };
        if cfg.detect_headings && crate::classify::is_heading(line2) {
            assert(pl.blocks =~= pl.blocks.subrange(0, pl.blocks.len() as int));
            lemma_prefix_push(
                pl.blocks,
                BlockView::Heading {
                    level: crate::classify::heading_level(line2),
                    text: crate::classify::heading_text(line2),
                },
            );
            lemma_prefix_trans(st.blocks, pl.blocks, step_line(st, raw, cfg).blocks);
        } else if cfg.detect_lists && crate::classify::is_bullet(line2) {
        } else if cfg.detect_lists && st.list.len() > 0 && crate::text::is_blank(line2) {
            lemma_prefix_push(l.blocks, BlockView::Paragraph { text: crate::text::trim(l.para) });
            lemma_prefix_trans(st.blocks, l.blocks, step_line(st, raw, cfg).blocks);
        }
    }
}

/// The block model is append-only under streaming: feeding further lines
/// never changes or reorders the blocks already emitted, it only adds
/// after them.
pub proof fn lemma_append_only(st: ParseState, lines: Seq<Seq<char>>, cfg: ConfigView)
    ensures
        st.blocks.is_prefix_of(steps(st, lines, cfg).blocks),
    decreases lines.len(),
{
    if lines.len() == 0 {
        assert(st.blocks =~= st.blocks.subrange(0, st.blocks.len() as int));
    } else {
        lemma_append_only(st, lines.drop_last(), cfg);
        let mid = steps(st, lines.drop_last(), cfg);
        lemma_step_append_only(mid, lines.last(), cfg);
        lemma_prefix_trans(st.blocks, mid.blocks, steps(st, lines, cfg).blocks);
    }
}

/// Pushing a block that is not a heading preserves `no_headings`.
proof fn lemma_no_headings_push(blocks: Seq<BlockView>, b: BlockView)
    requires
        no_headings(blocks),
        !(b is Heading),
    ensures
        no_headings(blocks.push(b)),
{
    assert forall|i: int| 0 <= i < blocks.push(b).len() implies !(blocks.push(b)[i]
        is Heading) by {
        if i < blocks.len() {
            assert(blocks.push(b)[i] == blocks[i]);
        } else {
            assert(blocks.push(b)[i] == b);
        }
    }
}

/// One parser step emits no heading when heading detection is off.
proof fn lemma_step_no_headings(st: ParseState, raw: Seq<char>, cfg: ConfigView)
    requires
        !cfg.detect_headings,
        no_headings(st.blocks),
    ensures
        no_headings(step_line(st, raw, cfg).blocks),
{
    let st1 = flush_para_st(st);
    let st3 = flush_list_st(st);
    lemma_no_headings_push(st.blocks, BlockView::CodeBlock { text: join_nl(st.code) });
    lemma_no_headings_push(st.blocks, BlockView::Paragraph { text: crate::text::trim(st.para) });
    lemma_no_headings_push(st1.blocks, BlockView::List { items: st1.list });
    lemma_no_headings_push(st.blocks, BlockView::List { items: st.list });
    lemma_no_headings_push(st3.blocks, BlockView::Paragraph { text: crate::text::trim(st3.para) });
}

/// If heading detection is disabled, no line of any input is ever
/// classified as a heading: the parsed document contains no heading block.
/// A line beginning with `#` is folded into paragraph text instead.
pub proof fn lemma_disabled_headings(lines: Seq<Seq<char>>, cfg: ConfigView)
    requires
        !cfg.detect_headings,
    ensures
        no_headings(parse_spec(lines, cfg)),
{
    lemma_steps_no_headings(init_state(), lines, cfg);
    let st = steps(init_state(), lines, cfg);
    let st1 = flush_para_st(st);
    lemma_no_headings_push(st.blocks, BlockView::Paragraph { text: crate::text::trim(st.para) });
    lemma_no_headings_push(st1.blocks, BlockView::List { items: st1.list });
    lemma_no_headings_push(
        flush_list_st(st1).blocks,
        BlockView::CodeBlock { text: join_nl(st.code) },
    );
}

/// Every parser step emits no heading when heading detection is off.
proof fn lemma_steps_no_headings(st: ParseState, lines: Seq<Seq<char>>, cfg: ConfigView)
    requires
        !cfg.detect_headings,
        no_headings(st.blocks),
    ensures
        no_headings(steps(st, lines, cfg).blocks),
    decreases lines.len(),
{
    if lines.len() > 0 {
        lemma_steps_no_headings(st, lines.drop_last(), cfg);
        lemma_step_no_headings(steps(st, lines.drop_last(), cfg), lines.last(), cfg);
    }
}

/// Pushing a block that is neither an empty paragraph nor an empty list
/// preserves `no_empty_blocks`.
proof fn lemma_no_empty_push(blocks: Seq<BlockView>, b: BlockView)
    requires
        no_empty_blocks(blocks),
        match b {
            BlockView::Paragraph { text } => text.len() > 0,
            BlockView::List { items } => items.len() > 0,
            _ => true,
        },
    ensures
        no_empty_blocks(blocks.push(b)),
{
    assert forall|i: int| 0 <= i < blocks.push(b).len() implies (match #[trigger] blocks.push(
        b,
    )[i] {
        BlockView::Paragraph { text } => text.len() > 0,
        BlockView::List { items } => items.len() > 0,
        _ => true,
    }) by {
        if i < blocks.len() {
            assert(blocks.push(b)[i] == blocks[i]);
        } else {
            assert(blocks.push(b)[i] == b);
        }
    }
}

/// The two flushes preserve `no_empty_blocks`: a blank pending buffer is
/// discarded, never emitted.
proof fn lemma_flushes_no_empty(st: ParseState)
    requires
        no_empty_blocks(st.blocks),
    ensures
        no_empty_blocks(flush_para_st(st).blocks),
        no_empty_blocks(flush_list_st(st).blocks),
{
    if crate::text::trim(st.para).len() > 0 {
        lemma_no_empty_push(st.blocks, BlockView::Paragraph { text: crate::text::trim(st.para) });
    }
    if st.list.len() > 0 {
        lemma_no_empty_push(st.blocks, BlockView::List { items: st.list });
    }
}

/// One parser step never emits an empty paragraph or an empty list.
proof fn lemma_step_no_empty(st: ParseState, raw: Seq<char>, cfg: ConfigView)
    requires
        no_empty_blocks(st.blocks),
    ensures
        no_empty_blocks(step_line(st, raw, cfg).blocks),
{
    lemma_flushes_no_empty(st);
    lemma_flushes_no_empty(flush_para_st(st));
    lemma_flushes_no_empty(flush_list_st(st));
    let st1 = flush_list_st(flush_para_st(st));
    lemma_no_empty_push(st.blocks, BlockView::CodeBlock { text: join_nl(st.code) });
    lemma_no_empty_push(
        st1.blocks,
        BlockView::Heading {
            level: crate::classify::heading_level(
                if cfg.remove_extra_spaces {
                    crate::text::collapse_ws(trim_end(raw))
                } else {
                    trim_end(raw)
                },
            ),
            text: crate::classify::heading_text(
                if cfg.remove_extra_spaces {
                    crate::text::collapse_ws(trim_end(raw))
                } else {
                    trim_end(raw)
                },
            ),
        },
    );
}

/// Every parse step keeps the document free of empty blocks.
proof fn lemma_steps_no_empty(st: ParseState, lines: Seq<Seq<char>>, cfg: ConfigView)
    requires
        no_empty_blocks(st.blocks),
    ensures
        no_empty_blocks(steps(st, lines, cfg).blocks),
    decreases lines.len(),
{
    if lines.len() > 0 {
        lemma_steps_no_empty(st, lines.drop_last(), cfg);
        lemma_step_no_empty(steps(st, lines.drop_last(), cfg), lines.last(), cfg);
    }
}

/// For every input — blank lines included — flush never emits an empty
/// paragraph or an empty list: no parsed document contains one.
pub proof fn lemma_no_empty_blocks_parse(lines: Seq<Seq<char>>, cfg: ConfigView)
    ensures
        no_empty_blocks(parse_spec(lines, cfg)),
{
    lemma_steps_no_empty(init_state(), lines, cfg);
    let st = steps(init_state(), lines, cfg);
    lemma_flushes_no_empty(st);
    lemma_flushes_no_empty(flush_para_st(st));
    lemma_no_empty_push(
        flush_list_st(flush_para_st(st)).blocks,
        BlockView::CodeBlock { text: join_nl(st.code) },
    );
}

} // verus!

