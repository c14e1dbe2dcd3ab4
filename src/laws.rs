//! Properties of the rendering rules that speak of all inputs or relate several of them.
use vstd::prelude::*;

use crate::buffer::{BufferModel, INDENT_UNIT, column_of, ends_with_newline, spaces};
use crate::error::Error;
use crate::rules::{
    Context, WIDTH, invalid_count, lemma_children_error_sticks, place_ports, push_port_lines,
    single_line,
};
use crate::syntax::{Kind, SyntaxNode};

verus! {

/// Whether `s` holds no line break.
pub open spec fn one_line(s: Seq<char>) -> bool {
    forall|k: int| 0 <= k < s.len() ==> s[k] != '\n'
}

/// The first `n` ports of a wrapped list as text: each on its own line at `indent`, all but
/// the last followed by a comma.
pub open spec fn wrapped_lines(fragments: Seq<Seq<char>>, indent: nat, n: nat) -> Seq<char>
    decreases n,
{
    if n == 0 {
        Seq::empty()
    } else {
        let comma = if n < fragments.len() {
            seq![',']
        } else {
            Seq::empty()
        };
        wrapped_lines(fragments, indent, (n - 1) as nat) + spaces(indent) + fragments[n - 1] + comma
            + seq!['\n']
    }
}

/// Text without line breaks written mid-line lands verbatim on the current line.
pub proof fn lemma_push_inline(b: BufferModel, s: Seq<char>)
    requires
        !ends_with_newline(b.content),
        one_line(s),
    ensures
        b.push_all(s) == (BufferModel {
            content: b.content + s,
            column: b.column + s.len(),
            ..b
        }),
    decreases s.len(),
{
    if s.len() == 0 {
        assert(b.content + s =~= b.content);
    } else {
        let p = s.drop_last();
        assert(s[s.len() - 1] != '\n');
        assert(one_line(p)) by {
            assert forall|k: int| 0 <= k < p.len() implies p[k] != '\n' by {
                assert(p[k] == s[k]);
            }
        }
        lemma_push_inline(b, p);
        let b1 = b.push_all(p);
        if p.len() > 0 {
            assert(b1.content.last() == p.last());
        }
        assert(b1.content.push(s.last()) =~= b.content + s);
    }
}

/// Non-empty text without line breaks written at the start of a line is preceded by the
/// pending blank line, if any, and by the indentation.
pub proof fn lemma_push_line_start(b: BufferModel, s: Seq<char>)
    requires
        ends_with_newline(b.content),
        s.len() > 0,
        one_line(s),
    ensures
        b.push_all(s).content == (if b.blank_pending {
            b.content.push('\n')
        } else {
            b.content
        }) + spaces(b.indent) + s,
        b.push_all(s).column == b.indent + s.len(),
        b.push_all(s).indent == b.indent,
        !b.push_all(s).blank_pending,
        !ends_with_newline(b.push_all(s).content),
    decreases s.len(),
{
    let head = if b.blank_pending {
        b.content.push('\n')
    } else {
        b.content
    };
    assert(s[s.len() - 1] != '\n');
    if s.len() == 1 {
        assert(s.drop_last() =~= Seq::<char>::empty());
        assert(b.push_all(s.drop_last()) == b);
        assert(head + spaces(b.indent).push(s[0]) =~= head + spaces(b.indent) + s);
    } else {
        let p = s.drop_last();
        assert(one_line(p)) by {
            assert forall|k: int| 0 <= k < p.len() implies p[k] != '\n' by {
                assert(p[k] == s[k]);
            }
        }
        lemma_push_line_start(b, p);
        let b1 = b.push_all(p);
        assert(b1.content.push(s.last()) =~= head + spaces(b.indent) + s);
    }
}

/// The lines of a wrapped port list, from a buffer whose line has ended.
proof fn lemma_port_lines(b: BufferModel, fragments: Seq<Seq<char>>, n: nat)
    requires
        ends_with_newline(b.content),
        !b.blank_pending,
        n <= fragments.len(),
        forall|k: int| 0 <= k < fragments.len() ==> #[trigger] fragments[k].len() > 0,
        forall|k: int| 0 <= k < fragments.len() ==> one_line(#[trigger] fragments[k]),
    ensures
        push_port_lines(b, fragments, n).content == b.content + wrapped_lines(
            fragments,
            b.indent,
            n,
        ),
        ends_with_newline(push_port_lines(b, fragments, n).content),
        !push_port_lines(b, fragments, n).blank_pending,
        push_port_lines(b, fragments, n).indent == b.indent,
    decreases n,
{
    reveal_strlit(",");
    reveal_strlit("\n");
    if n == 0 {
        assert(b.content + wrapped_lines(fragments, b.indent, 0) =~= b.content);
    } else {
        lemma_port_lines(b, fragments, (n - 1) as nat);
        let b0 = push_port_lines(b, fragments, (n - 1) as nat);
        let f = fragments[n - 1];
        assert(f.len() > 0);
        assert(one_line(f));
        lemma_push_line_start(b0, f);
        let b1 = b0.push_all(f);
        assert(b1.content == b0.content + spaces(b.indent) + f);
        let comma = if n < fragments.len() {
            seq![',']
        } else {
            Seq::<char>::empty()
        };
        let b2 = if n < fragments.len() {
            b1.push_all(","@)
        } else {
            b1
        };
        if n < fragments.len() {
            assert(one_line(","@));
            lemma_push_inline(b1, ","@);
        } else {
            assert(b1.content + comma =~= b1.content);
        }
        assert(b2.content == b1.content + comma);
        assert(!b2.blank_pending);
        assert(b2.indent == b.indent);
        assert("\n"@.drop_last() =~= Seq::<char>::empty());
        assert(b2.push_all("\n"@.drop_last()) == b2);
        let b3 = b2.push_all("\n"@);
        assert(b3 == b2.push('\n'));
        assert(b3.content == b2.content.push('\n'));
        assert(b3 == push_port_lines(b, fragments, n));
        assert(b3.content =~= b.content + wrapped_lines(fragments, b.indent, n));
    }
}

/// The parts and the separator holding no line break, neither does their join.
proof fn lemma_join_one_line(parts: Seq<Seq<char>>, sep: Seq<char>)
    requires
        one_line(sep),
        forall|k: int| 0 <= k < parts.len() ==> one_line(#[trigger] parts[k]),
    ensures
        one_line(crate::rules::join(parts, sep)),
    decreases parts.len(),
{
    if parts.len() > 1 {
        let p = parts.drop_last();
        assert forall|k: int| 0 <= k < p.len() implies one_line(#[trigger] p[k]) by {
            assert(p[k] == parts[k]);
        }
        lemma_join_one_line(p, sep);
        let j = crate::rules::join(p, sep) + sep + parts.last();
        assert(one_line(parts.last()));
        assert forall|k: int| 0 <= k < j.len() implies j[k] != '\n' by {
            let l1 = crate::rules::join(p, sep).len();
            if k < l1 {
            } else if k < l1 + sep.len() {
                assert(j[k] == sep[k - l1]);
            } else {
                assert(j[k] == parts.last()[k - l1 - sep.len()]);
            }
        }
    }
}

/// Wrap boundary: a port list whose one-line form, counted from the current column, ends
/// within the width stays on the current line as it is; one that would pass the width is
/// wrapped, each port on its own line one level in, all but the last followed by a comma,
/// and the closing `);` on a line of its own at the outer indentation.
pub proof fn wrap_boundary(b: BufferModel, fragments: Seq<Seq<char>>)
    requires
        b.wf(),
        b.column > 0,
        forall|k: int| 0 <= k < fragments.len() ==> #[trigger] fragments[k].len() > 0,
        forall|k: int| 0 <= k < fragments.len() ==> one_line(#[trigger] fragments[k]),
    ensures
        b.column + single_line(fragments).len() <= WIDTH ==> place_ports(b, fragments).content
            == b.content + single_line(fragments),
        b.column + single_line(fragments).len() > WIDTH ==> place_ports(b, fragments).content
            == b.content + "(\n"@ + wrapped_lines(
            fragments,
            (b.indent + INDENT_UNIT) as nat,
            fragments.len(),
        ) + spaces(b.indent) + ");"@,
{
    reveal_strlit("(");
    reveal_strlit(");");
    reveal_strlit("(\n");
    reveal_strlit(", ");
    assert(!ends_with_newline(b.content));
    let line = single_line(fragments);
    if b.column + line.len() <= WIDTH {
        assert(one_line(", "@));
        lemma_join_one_line(fragments, ", "@);
        let j = crate::rules::join(fragments, ", "@);
        assert forall|k: int| 0 <= k < line.len() implies line[k] != '\n' by {
            if k == 0 {
            } else if k < 1 + j.len() {
                assert(line[k] == j[k - 1]);
            } else {
            }
        }
        lemma_push_inline(b, line);
    } else {
        assert(one_line("("@));
        lemma_push_inline(b, "("@);
        assert("(\n"@.drop_last() =~= "("@);
        let opened = b.push_all("(\n"@);
        assert(opened.content =~= b.content + "(\n"@);
        let inner = opened.indented();
        lemma_port_lines(inner, fragments, fragments.len());
        let lines = push_port_lines(inner, fragments, fragments.len());
        let closing = lines.dedented();
        assert(closing.indent == b.indent);
        assert(one_line(");"@));
        lemma_push_line_start(closing, ");"@);
        assert(closing.push_all(");"@).content =~= b.content + "(\n"@ + wrapped_lines(
            fragments,
            (b.indent + INDENT_UNIT) as nat,
            fragments.len(),
        ) + spaces(b.indent) + ");"@);
    }
}

/// Blank-line normalization: before a statement whose preceding line has ended, no blank
/// source line adds nothing, and any number of them adds exactly one empty line.
pub proof fn blank_lines_collapse(ctx: Context, node: SyntaxNode, gap: nat, b: BufferModel)
    requires
        b.wf(),
        ends_with_newline(b.content),
    ensures
        ctx.render_statement(node, gap, b) == ctx.render_statement(
            node,
            0,
            if gap == 0 {
                b
            } else {
                BufferModel { content: b.content.push('\n'), ..b }
            },
        ),
{
}

/// Scope-boundary suppression: raising or lowering the indentation drops a pending blank
/// line, so the first line inside a scope and the line that closes it follow the previous
/// line directly; and the first item of a function body, which follows no statement or
/// comment, gets no gap.
pub proof fn no_blank_line_at_scope_edges(
    ctx: Context,
    body: SyntaxNode,
    b: BufferModel,
    s: Seq<char>,
)
    requires
        b.wf(),
        ends_with_newline(b.content),
        s.len() > 0,
        one_line(s),
    ensures
        b.indented().push_all(s).content == b.content + spaces((b.indent + INDENT_UNIT) as nat) + s,
        b.indent >= INDENT_UNIT ==> b.dedented().push_all(s).content == b.content + spaces(
            (b.indent - INDENT_UNIT) as nat,
        ) + s,
        forall|i: int|
            0 <= i < body.children.len() && (i == 0 || (ctx.kind(body.children@[i - 1])
                != Kind::FunctionStatementOrNull && ctx.kind(body.children@[i - 1])
                != Kind::Comment)) ==> #[trigger] ctx.gap_before(body, i) == 0,
{
    lemma_push_line_start(b.indented(), s);
    if b.indent >= INDENT_UNIT {
        lemma_push_line_start(b.dedented(), s);
    }
}

/// A pass-through over children that all render from every state never fails.
proof fn lemma_children_succeed(ctx: Context, node: SyntaxNode, n: nat, b: BufferModel)
    requires
        n <= node.children.len(),
        forall|i: int, b1: BufferModel|
            0 <= i < node.children.len() && node.children@[i].is_named ==> (#[trigger] ctx.render(
                node.children@[i],
                b1,
            )) is Ok,
    ensures
        ctx.render_children(node, n, b) is Ok,
    decreases n,
{
    if n > 0 {
        lemma_children_succeed(ctx, node, (n - 1) as nat, b);
        let b1 = ctx.render_children(node, (n - 1) as nat, b)->Ok_0;
        if node.children@[n - 1].is_named {
            assert(ctx.render(node.children@[n - 1], b1) is Ok);
        }
    }
}

/// Unknown-construct safety: a node whose kind id lies beyond the classifier's table renders
/// exactly as its named children do, one after another, with nothing added; where each of
/// them renders without error, so does the node.
pub proof fn unknown_kind_passes_through(ctx: Context, node: SyntaxNode, b: BufferModel)
    requires
        node.kind_id as int >= ctx.table.len(),
    ensures
        ctx.render(node, b) == ctx.render_children(node, node.children.len() as nat, b),
        (forall|i: int, b1: BufferModel|
            0 <= i < node.children.len() && node.children@[i].is_named ==> (#[trigger] ctx.render(
                node.children@[i],
                b1,
            )) is Ok) ==> ctx.render(node, b) is Ok,
{
    assert(ctx.kind(node) == Kind::Unknown);
    if forall|i: int, b1: BufferModel|
        0 <= i < node.children.len() && node.children@[i].is_named ==> (#[trigger] ctx.render(
            node.children@[i],
            b1,
        )) is Ok {
        lemma_children_succeed(ctx, node, node.children.len() as nat, b);
    }
}

/// Structural-mismatch detection: an expression with exactly two children fails with
/// `InvalidCount` at that node.
pub proof fn two_child_expression_is_a_mismatch(ctx: Context, node: SyntaxNode, b: BufferModel)
    requires
        ctx.kind(node) == Kind::Expression,
        node.children.len() == 2,
    ensures
        ctx.render(node, b) == Err::<BufferModel, Error>(invalid_count(node)),
        invalid_count(node).is_structural_mismatch(),
{
}

/// A failure aborts the whole render: where a named child of a node without a rule of its
/// own fails, the node fails with the same error.
pub proof fn mismatch_aborts_pass_through(
    ctx: Context,
    node: SyntaxNode,
    i: int,
    b: BufferModel,
    b1: BufferModel,
)
    requires
        node.kind_id as int >= ctx.table.len(),
        0 <= i < node.children.len(),
        node.children@[i].is_named,
        ctx.render_children(node, i as nat, b) == Ok::<BufferModel, Error>(b1),
        ctx.render(node.children@[i], b1) is Err,
    ensures
        ctx.render(node, b) == ctx.render(node.children@[i], b1),
{
    assert(ctx.kind(node) == Kind::Unknown);
    lemma_children_error_sticks(ctx, node, (i + 1) as nat, node.children.len() as nat, b);
}

/// Determinism: the result depends on nothing but the source text, the classifier's table,
/// the tree and the buffer's state.
pub proof fn rendering_is_deterministic(
    c1: Context,
    c2: Context,
    t1: SyntaxNode,
    t2: SyntaxNode,
    b1: BufferModel,
    b2: BufferModel,
)
    requires
        c1 == c2,
        t1 == t2,
        b1 == b2,
    ensures
        c1.render(t1, b1) == c2.render(t2, b2),
{
}

} // verus!
