//! The streaming parser: consumes input lines one at a time, classifies each
//! under a two-state machine (`Normal` / inside a code block), accumulates
//! pending paragraph, list and code buffers, and emits finished blocks into
//! a [`Document`].

use vstd::prelude::*;

use crate::classify::{
    is_fence, is_heading, heading_level, heading_text, is_bullet, bullet_text, classify_fence,
    classify_heading, classify_bullet,
};
use crate::config::{Config, ConfigView};
use crate::structures::{Block, BlockView, Document};
use crate::text::{
    trim, trim_end, is_blank, collapse_ws, str_chars, chars_to_string, trim_end_chars,
    trim_chars, collapse_ws_chars, is_blank_chars, append_chars,
};

verus! {

/// The full state of a parse in progress: the blocks emitted so far and the
/// three pending buffers, plus the code-block mode flag.
#[verifier::ext_equal]
pub struct ParseState {
    /// Blocks emitted so far, in order.
    pub blocks: Seq<BlockView>,
    /// Pending paragraph text, joined with single spaces.
    pub para: Seq<char>,
    /// Pending list items, in submission order.
    pub list: Seq<Seq<char>>,
    /// Whether the parser is inside a fenced code block.
    pub in_code: bool,
    /// Pending code lines, kept verbatim.
    pub code: Seq<Seq<char>>,
}

/// The state a parse starts from: nothing emitted, nothing pending.
pub open spec fn init_state() -> ParseState {
    ParseState {
        blocks: Seq::empty(),
        para: Seq::empty(),
        list: Seq::empty(),
        in_code: false,
        code: Seq::empty(),
    }
}

/// The lines of `ls` joined with single newline characters.
pub open spec fn join_nl(ls: Seq<Seq<char>>) -> Seq<char>
    decreases ls.len(),
{
    if ls.len() == 0 {
        Seq::empty()
    } else if ls.len() == 1 {
        ls[0]
    } else {
        join_nl(ls.drop_last()) + seq!['\n'] + ls.last()
    }
}

/// Paragraph flush: the trimmed pending text becomes a `Paragraph` block if
/// it is non-empty; the buffer is cleared either way.
pub open spec fn flush_para_st(st: ParseState) -> ParseState {
    let t = trim(st.para);
    ParseState {
        blocks: if t.len() > 0 {
            st.blocks.push(BlockView::Paragraph { text: t })
        } else {
            st.blocks
        },
        para: Seq::empty(),
        ..st
    }
}

/// List flush: the pending items become a `List` block if there is at least
/// one; the buffer is cleared either way.
pub open spec fn flush_list_st(st: ParseState) -> ParseState {
    ParseState {
        blocks: if st.list.len() > 0 {
            st.blocks.push(BlockView::List { items: st.list })
        } else {
            st.blocks
        },
        list: Seq::empty(),
        ..st
    }
}

/// One step of the state machine: the effect of one raw input line.
///
/// The line is first end-trimmed. A fence line is recognized before any
/// other classification and unconditionally. In `Normal` state, interior
/// whitespace is then collapsed when `remove_extra_spaces` is on, and
/// heading, bullet, blank and plain-text handling follow in that fixed
/// order. Inside a code block every non-fence line is kept verbatim.
pub open spec fn step_line(st: ParseState, raw: Seq<char>, cfg: ConfigView) -> ParseState {
    let line = trim_end(raw);
    if st.in_code {
        if is_fence(line) {
            ParseState {
                blocks: st.blocks.push(BlockView::CodeBlock { text: join_nl(st.code) }),
                in_code: false,
                code: Seq::empty(),
                ..st
            }
        } else {
            ParseState { code: st.code.push(line), ..st }
        }
    } else if is_fence(line) {
        ParseState { in_code: true, ..flush_list_st(flush_para_st(st)) }
    } else {
        let line2 = if cfg.remove_extra_spaces {
            collapse_ws(line)
        } else {
            line
        };
        if cfg.detect_headings && is_heading(line2) {
            let st1 = flush_list_st(flush_para_st(st));
            ParseState {
                blocks: st1.blocks.push(
                    BlockView::Heading { level: heading_level(line2), text: heading_text(line2) },
                ),
                ..st1
            }
        } else if cfg.detect_lists && is_bullet(line2) {
            let st1 = flush_para_st(st);
            ParseState { list: st1.list.push(bullet_text(line2)), ..st1 }
        } else {
            let st1 = if cfg.detect_lists && st.list.len() > 0 {
                flush_list_st(st)
            } else {
                st
            };
            if is_blank(line2) {
                flush_para_st(st1)
            } else {
                ParseState {
                    para: if st1.para.len() > 0 {
                        st1.para + seq![' '] + line2
                    } else {
                        line2
                    },
                    ..st1
                }
            }
        }
    }
}

/// The state after feeding every line of `lines`, in order, starting
/// from `st`.
pub open spec fn steps(st: ParseState, lines: Seq<Seq<char>>, cfg: ConfigView) -> ParseState
    decreases lines.len(),
{
    if lines.len() == 0 {
        st
    } else {
        step_line(steps(st, lines.drop_last(), cfg), lines.last(), cfg)
    }
}

/// End-of-input flush: pending paragraph and list are flushed, and an
/// unterminated code block still emits its accumulated lines.
pub open spec fn finalize_st(st: ParseState) -> Seq<BlockView> {
    let st1 = flush_list_st(flush_para_st(st));
    if st.in_code {
        st1.blocks.push(BlockView::CodeBlock { text: join_nl(st.code) })
    } else {
        st1.blocks
    }
}

/// The document produced by parsing `lines` under configuration `cfg`.
pub open spec fn parse_spec(lines: Seq<Seq<char>>, cfg: ConfigView) -> Seq<BlockView> {
    finalize_st(steps(init_state(), lines, cfg))
}

/// A parser that applies the rules of a [`Config`] to build a [`Document`].
pub struct Parser {
    config: Config,
}

impl Parser {
    /// The configuration this parser applies.
    pub closed spec fn cfg(&self) -> ConfigView {
        self.config@
    }

    /// Creates a new `Parser` from a `Config`.
    pub fn new(config: Config) -> (p: Parser)
        ensures
            p.cfg() == config@,
    {
        Parser { config }
    }

    /// Parses a sequence of input lines into a [`Document`].
    ///
    /// The parser is total: every line, however unusual, is classified into
    /// some block, and the resulting document is exactly the one the
    /// state-machine specification [`parse_spec`] describes.
    pub fn parse(&self, lines: &Vec<String>) -> (doc: Document)
        ensures
            doc@ == parse_spec(lines.deep_view(), self.cfg()),
    {
        let mut doc = Document::new();
        let mut para: Vec<char> = Vec::new();
        let mut list: Vec<String> = Vec::new();
        let mut in_code = false;
        let mut code: Vec<Vec<char>> = Vec::new();

        let ghost all = lines.deep_view();
        proof {
            assert(abs_state(doc@, para@, list.deep_view(), in_code, code.deep_view()) =~= steps(
                init_state(),
                all.take(0),
                self.cfg(),
            ));
        }
        let mut i: usize = 0;
        while i < lines.len()
            invariant
                i <= lines.len(),
                all == lines.deep_view(),
                abs_state(doc@, para@, list.deep_view(), in_code, code.deep_view()) == steps(
                    init_state(),
                    all.take(i as int),
                    self.cfg(),
                ),
            decreases lines.len() - i,
        {
            let ghost pre = abs_state(doc@, para@, list.deep_view(), in_code, code.deep_view());
            let ghost raw = all[i as int];
            proof {
                assert(all.take(i + 1).drop_last() =~= all.take(i as int));
                assert(all.take(i + 1).last() == raw);
                assert(lines@[i as int]@ == raw);
            }
            let chars = str_chars(&lines[i]);
            let line = trim_end_chars(&chars);
            let ghost lns = trim_end(raw);

            if in_code {
                if classify_fence(&line) {
                    let text = join_nl_chars(&code);
                    doc.blocks.push(Block::CodeBlock(chars_to_string(&text)));
                    in_code = false;
                    code = Vec::new();
                    proof {
                        assert(doc@ =~= pre.blocks.push(
                            BlockView::CodeBlock { text: join_nl(pre.code) },
                        ));
                        assert(code.deep_view() =~= Seq::<Seq<char>>::empty());
                    }
                } else {
                    code.push(line);
                    proof {
                        assert(code.deep_view() =~~= pre.code.push(lns));
                    }
                }
            } else if classify_fence(&line) {
                flush_paragraph(&mut doc, &mut para);
                flush_list(&mut doc, &mut list);
                in_code = true;
            } else {
                let line2 = if self.config.remove_extra_spaces {
                    collapse_ws_chars(&line)
                } else {
                    line
                };
                let ghost l2 = if self.cfg().remove_extra_spaces {
                    collapse_ws(lns)
                } else {
                    lns
                };
                let mut handled = false;
                if self.config.detect_headings {
                    if let Some(cap) = classify_heading(&line2) {
                        flush_paragraph(&mut doc, &mut para);
                        flush_list(&mut doc, &mut list);
                        let ghost mid = doc@;
                        doc.blocks.push(Block::Heading(cap.0, chars_to_string(&cap.1)));
                        proof {
                            assert(doc@ =~= mid.push(
                                BlockView::Heading {
                                    level: heading_level(l2),
                                    text: heading_text(l2),
                                },
                            ));
                        }
                        handled = true;
                    }
                }
                if !handled && self.config.detect_lists {
                    if let Some(text) = classify_bullet(&line2) {
                        flush_paragraph(&mut doc, &mut para);
                        let ghost mid = list.deep_view();
                        list.push(chars_to_string(&text));
                        proof {
                            assert(list.deep_view() =~= mid.push(bullet_text(l2)));
                        }
                        handled = true;
                    }
                }
                if !handled {
                    if self.config.detect_lists && list.len() > 0 {
                        flush_list(&mut doc, &mut list);
                    }
                    if is_blank_chars(&line2) {
                        flush_paragraph(&mut doc, &mut para);
                    } else {
                        if para.len() > 0 {
                            para.push(' ');
                        }
                        append_chars(&mut para, &line2);
                        proof {
                            if pre.para.len() > 0 {
                                assert(para@ =~= pre.para + seq![' '] + l2);
                            }
                        }
                    }
                }
            }
            proof {
                assert(abs_state(doc@, para@, list.deep_view(), in_code, code.deep_view()) =~=
                    step_line(pre, raw, self.cfg()));
            }
            i = i + 1;
        }
        proof {
            assert(all.take(lines@.len() as int) =~= all);
        }
        flush_paragraph(&mut doc, &mut para);
        flush_list(&mut doc, &mut list);
        if in_code {
            let text = join_nl_chars(&code);
            doc.blocks.push(Block::CodeBlock(chars_to_string(&text)));
        }
        proof {
            assert(doc@ =~= parse_spec(all, self.cfg()));
        }
        doc
    }
}

/// The abstraction of the parser's in-progress executable state.
pub open spec fn abs_state(
    blocks: Seq<BlockView>,
    para: Seq<char>,
    list: Seq<Seq<char>>,
    in_code: bool,
    code: Seq<Seq<char>>,
) -> ParseState {
    ParseState { blocks, para, list, in_code, code }
}

/// Finalizes the pending paragraph buffer into a `Paragraph` block.
fn flush_paragraph(doc: &mut Document, para: &mut Vec<char>)
    ensures
        final(doc)@ == flush_para_st(
            abs_state(old(doc)@, old(para)@, Seq::empty(), false, Seq::empty()),
        ).blocks,
        final(para)@ == Seq::<char>::empty(),
{
    let t = trim_chars(para);
    if t.len() > 0 {
        let ghost pre = doc@;
        doc.blocks.push(Block::Paragraph(chars_to_string(&t)));
        proof {
            assert(doc@ =~= pre.push(BlockView::Paragraph { text: trim(old(para)@) }));
        }
    }
    para.clear();
}

/// Finalizes the pending list buffer into a `List` block.
fn flush_list(doc: &mut Document, list: &mut Vec<String>)
    ensures
        final(doc)@ == flush_list_st(
            abs_state(old(doc)@, Seq::empty(), old(list).deep_view(), false, Seq::empty()),
        ).blocks,
        final(list).deep_view() == Seq::<Seq<char>>::empty(),
{
    if list.len() > 0 {
        let items = clone_items(list);
        let ghost pre = doc@;
        doc.blocks.push(Block::List(items));
        proof {
            assert(doc@ =~= pre.push(BlockView::List { items: old(list).deep_view() }));
        }
    }
    list.clear();
    proof {
        assert(list.deep_view() =~= Seq::<Seq<char>>::empty());
    }
}

/// An element-wise copy of the pending list items.
fn clone_items(list: &Vec<String>) -> (r: Vec<String>)
    ensures
        r.deep_view() == list.deep_view(),
{
    let mut r: Vec<String> = Vec::new();
    let mut k: usize = 0;
    while k < list.len()
        invariant
            k <= list.len(),
            r@.len() == k,
            forall|i: int| 0 <= i < k ==> r@[i]@ == list@[i]@,
        decreases list.len() - k,
    {
        r.push(list[k].clone());
        k = k + 1;
    }
    proof {
        assert(r.deep_view() =~= list.deep_view()) by {
            assert(forall|i: int| 0 <= i < list@.len() ==> r.deep_view()[i]
                == list.deep_view()[i]);
        }
    }
    r
}

/// The lines of `ls` joined with single newline characters.
fn join_nl_chars(ls: &Vec<Vec<char>>) -> (r: Vec<char>)
    ensures
        r@ == join_nl(ls.deep_view()),
{
    let mut r: Vec<char> = Vec::new();
    let mut k: usize = 0;
    while k < ls.len()
        invariant
            k <= ls.len(),
            r@ == join_nl(ls.deep_view().take(k as int)),
        decreases ls.len() - k,
    {
        let ghost pre = r@;
        if k > 0 {
            r.push('\n');
        }
        append_chars(&mut r, &ls[k]);
        proof {
            assert(ls.deep_view().take(k + 1).drop_last() =~= ls.deep_view().take(k as int));
            assert(ls.deep_view().take(k + 1).last() == ls.deep_view()[k as int]);
            if k > 0 {
                assert(r@ =~= join_nl(ls.deep_view().take(k as int)) + seq!['\n']
                    + ls.deep_view()[k as int]);
            } else {
                assert(r@ =~= ls.deep_view()[0]);
            }
        }
        k = k + 1;
    }
    proof {
        assert(ls.deep_view().take(ls@.len() as int) =~= ls.deep_view());
    }
    r
}

} // verus!
