//! What rendering a syntax tree produces, construct by construct, stated over the
//! buffer's model.
use vstd::prelude::*;

use crate::buffer::{BufferModel, spaces};
use crate::error::Error;
use crate::syntax::{Kind, SyntaxNode, kind_in};

verus! {

/// The greatest line length that a port list may reach before it is wrapped.
pub const WIDTH: usize = 80;

/// The parts, with `sep` between each two neighbours.
pub open spec fn join(parts: Seq<Seq<char>>, sep: Seq<char>) -> Seq<char>
    decreases parts.len(),
{
    if parts.len() == 0 {
        Seq::empty()
    } else if parts.len() == 1 {
        parts[0]
    } else {
        join(parts.drop_last(), sep) + sep + parts.last()
    }
}

/// What a formatter renders against: the source text and the classifier's table.
pub struct Context {
    pub source: Seq<char>,
    pub table: Seq<Kind>,
}

/// A port list on one line.
pub open spec fn single_line(fragments: Seq<Seq<char>>) -> Seq<char> {
    "("@ + join(fragments, ", "@) + ");"@
}

/// The first `n` fragments of a wrapped port list, each on its own line and all but the
/// last followed by a comma.
pub open spec fn push_port_lines(b: BufferModel, fragments: Seq<Seq<char>>, n: nat) -> BufferModel
    decreases n,
{
    if n == 0 {
        b
    } else {
        let b1 = push_port_lines(b, fragments, (n - 1) as nat).push_all(fragments[n - 1]);
        let b2 = if n < fragments.len() {
            b1.push_all(","@)
        } else {
            b1
        };
        b2.push_all("\n"@)
    }
}

/// A port list from its rendered ports: on one line where that line, from the current
/// column, fits the width, else wrapped with one port per line.
pub open spec fn place_ports(b: BufferModel, fragments: Seq<Seq<char>>) -> BufferModel {
    let line = single_line(fragments);
    if b.column + line.len() <= WIDTH {
        b.push_all(line)
    } else {
        push_port_lines(b.push_all("(\n"@).indented(), fragments, fragments.len()).dedented().push_all(
            ");"@,
        )
    }
}

pub open spec fn invalid_count(node: SyntaxNode) -> Error {
    Error::InvalidCount { kind_id: node.kind_id, position: node.start_position }
}

pub open spec fn invalid_kind(node: SyntaxNode) -> Error {
    Error::InvalidKind { kind_id: node.kind_id, position: node.start_position }
}

pub open spec fn missing_child(node: SyntaxNode) -> Error {
    Error::TreeError { kind_id: node.kind_id, position: node.start_position }
}

/// The number of wholly blank source lines between `next` and `prev`; none where `next`
/// does not start below `prev`'s last line.
pub open spec fn blank_rows_between(prev: SyntaxNode, next: SyntaxNode) -> nat {
    if next.start_position.row <= prev.end_position.row {
        0
    } else {
        (next.start_position.row - prev.end_position.row - 1) as nat
    }
}

impl Context {
    pub open spec fn kind(self, node: SyntaxNode) -> Kind {
        kind_in(self.table, node.kind_id)
    }

    /// The node's source text.
    pub open spec fn text(self, node: SyntaxNode) -> Seq<char> {
        self.source.subrange(node.start as int, node.end as int)
    }

    /// The texts of all leaves below `node`, in source order.
    pub open spec fn terminal_texts(self, node: SyntaxNode) -> Seq<Seq<char>>
        decreases node, 1nat, 0nat,
    {
        self.terminals_of(node, node.children.len() as nat)
    }

    /// The texts of all leaves below the first `n` children of `node`, in source order.
    pub open spec fn terminals_of(self, node: SyntaxNode, n: nat) -> Seq<Seq<char>>
        decreases node, 0nat, n,
    {
        if n == 0 || n > node.children.len() {
            Seq::empty()
        } else {
            let c = node.children@[n - 1];
            let own = if c.children.len() == 0 {
                seq![self.text(c)]
            } else {
                Seq::empty()
            };
            self.terminals_of(node, (n - 1) as nat) + own + self.terminal_texts(c)
        }
    }

    /// Gap policy: blank source lines before child `i` of a function body, counted only
    /// after a statement or a comment.
    pub open spec fn gap_before(self, body: SyntaxNode, i: int) -> nat {
        if 0 < i < body.children.len() && (self.kind(body.children@[i - 1])
            == Kind::FunctionStatementOrNull || self.kind(body.children@[i - 1]) == Kind::Comment) {
            blank_rows_between(body.children@[i - 1], body.children@[i])
        } else {
            0
        }
    }

    /// The result of rendering `node` onto a buffer in state `b`.
    pub open spec fn render(self, node: SyntaxNode, b: BufferModel) -> Result<BufferModel, Error>
        decreases node, 3nat, 0nat,
    {
        match self.kind(node) {
            Kind::FunctionDeclaration => self.render_function(node, b),
            Kind::ClassDeclaration => self.render_class(node, b),
            Kind::Expression => self.render_expression(node, b),
            Kind::JumpStatement => self.render_jump(node, b),
            Kind::OperatorAssignment => self.render_assignment(node, b),
            Kind::IntegerAtomType => Ok(b.push_all(self.text(node)).push_all(" "@)),
            Kind::SimpleIdentifier => Ok(b.push_all(self.text(node))),
            Kind::PrimaryLiteral => Ok(b.push_all(self.text(node))),
            Kind::ListOfArgumentsParent => self.render_arguments(node, b),
            _ => self.render_children(node, node.children.len() as nat, b),
        }
    }

    /// Structural pass-through: the first `n` children that are named, in order, with
    /// nothing in between.
    pub open spec fn render_children(self, node: SyntaxNode, n: nat, b: BufferModel) -> Result<
        BufferModel,
        Error,
    >
        decreases node, 1nat, n,
    {
        if n == 0 || n > node.children.len() {
            Ok(b)
        } else {
            match self.render_children(node, (n - 1) as nat, b) {
                Ok(b1) => {
                    let c = node.children@[n - 1];
                    if c.is_named {
                        self.render(c, b1)
                    } else {
                        Ok(b1)
                    }
                },
                Err(e) => Err(e),
            }
        }
    }

    /// Binary form `left op right` for three children, the child itself for one.
    pub open spec fn render_expression(self, node: SyntaxNode, b: BufferModel) -> Result<
        BufferModel,
        Error,
    >
        decreases node, 2nat, 0nat,
    {
        let n = node.children.len();
        if n == 3 {
            match self.render(node.children@[0], b) {
                Ok(b1) => {
                    let b2 = b1.push_all(" "@).push_all(self.text(node.children@[1])).push_all(
                        " "@,
                    );
                    self.render(node.children@[2], b2)
                },
                Err(e) => Err(e),
            }
        } else if n == 1 {
            self.render(node.children@[0], b)
        } else {
            Err(invalid_count(node))
        }
    }

    /// The keyword, then, where a third child follows, a space and the expression.
    pub open spec fn render_jump(self, node: SyntaxNode, b: BufferModel) -> Result<
        BufferModel,
        Error,
    >
        decreases node, 2nat, 0nat,
    {
        if node.children.len() == 0 {
            Err(missing_child(node))
        } else {
            let b1 = b.push_all(self.text(node.children@[0]));
            if node.children.len() == 3 {
                self.render_expression(node.children@[1], b1.push_all(" "@))
            } else {
                Ok(b1)
            }
        }
    }

    /// `lvalue op expression`, single spaced.
    pub open spec fn render_assignment(self, node: SyntaxNode, b: BufferModel) -> Result<
        BufferModel,
        Error,
    >
        decreases node, 2nat, 0nat,
    {
        if node.children.len() != 3 {
            Err(invalid_count(node))
        } else {
            let b1 = b.push_all(self.text(node.children@[0])).push(' ').push_all(
                self.text(node.children@[1]),
            ).push(' ');
            self.render_expression(node.children@[2], b1)
        }
    }

    /// The named children among the first `n`, with `", "` between them; the flag says
    /// whether any was rendered.
    pub open spec fn render_argument_items(self, node: SyntaxNode, n: nat, b: BufferModel) -> Result<
        (BufferModel, bool),
        Error,
    >
        decreases node, 1nat, n,
    {
        if n == 0 || n > node.children.len() {
            Ok((b, false))
        } else {
            match self.render_argument_items(node, (n - 1) as nat, b) {
                Ok((b1, seen)) => {
                    let c = node.children@[n - 1];
                    if c.is_named {
                        let b2 = if seen {
                            b1.push_all(", "@)
                        } else {
                            b1
                        };
                        match self.render(c, b2) {
                            Ok(b3) => Ok((b3, true)),
                            Err(e) => Err(e),
                        }
                    } else {
                        Ok((b1, seen))
                    }
                },
                Err(e) => Err(e),
            }
        }
    }

    /// An argument list: its named children, comma separated, in parentheses.
    pub open spec fn render_arguments(self, node: SyntaxNode, b: BufferModel) -> Result<
        BufferModel,
        Error,
    >
        decreases node, 2nat, 0nat,
    {
        match self.render_argument_items(node, node.children.len() as nat, b.push_all("("@)) {
            Ok((b1, _)) => Ok(b1.push_all(")"@)),
            Err(e) => Err(e),
        }
    }

    /// The first `n` children of a class: the identifier's leaves space joined, and the
    /// class items, the first of them preceded by `";\n"` and a raised indentation; the
    /// flag says whether an item was seen.
    pub open spec fn render_class_items(self, node: SyntaxNode, n: nat, b: BufferModel) -> Result<
        (BufferModel, bool),
        Error,
    >
        decreases node, 1nat, n,
    {
        if n == 0 || n > node.children.len() {
            Ok((b, false))
        } else {
            match self.render_class_items(node, (n - 1) as nat, b) {
                Ok((b1, seen)) => {
                    let c = node.children@[n - 1];
                    match self.kind(c) {
                        Kind::ClassIdentifier => Ok(
                            (b1.push_all(join(self.terminal_texts(c), " "@)), seen),
                        ),
                        Kind::ClassItem => {
                            let b2 = if seen {
                                b1
                            } else {
                                b1.push_all(";\n"@).indented()
                            };
                            match self.render(c, b2) {
                                Ok(b3) => Ok((b3, true)),
                                Err(e) => Err(e),
                            }
                        },
                        _ => Ok((b1, seen)),
                    }
                },
                Err(e) => Err(e),
            }
        }
    }

    /// `class`, the name, the items one level in, `endclass`, then a blank line asked for.
    pub open spec fn render_class(self, node: SyntaxNode, b: BufferModel) -> Result<
        BufferModel,
        Error,
    >
        decreases node, 2nat, 0nat,
    {
        match self.render_class_items(node, node.children.len() as nat, b.push_all("class "@)) {
            Ok((b1, seen)) => {
                let b2 = if seen {
                    b1.dedented()
                } else {
                    b1
                };
                Ok(b2.push_all("endclass\n"@).with_blank_line())
            },
            Err(e) => Err(e),
        }
    }

    /// A function: a `function` keyword and a body, else a structural mismatch.
    pub open spec fn render_function(self, node: SyntaxNode, b: BufferModel) -> Result<
        BufferModel,
        Error,
    >
        decreases node, 2nat, 0nat,
    {
        if node.children.len() != 2 {
            Err(invalid_count(node))
        } else if node.children@[0].kind_name@ != "function"@ || self.kind(node.children@[1])
            != Kind::FunctionBodyDeclaration {
            Err(invalid_kind(node))
        } else {
            let body = node.children@[1];
            match self.render_body_items(body, body.children.len() as nat, b.push_all("function "@)) {
                Ok(b1) => Ok(b1.push_all("endfunction\n"@).with_blank_line()),
                Err(e) => Err(e),
            }
        }
    }

    /// The first `n` children of a function body.
    pub open spec fn render_body_items(self, body: SyntaxNode, n: nat, b: BufferModel) -> Result<
        BufferModel,
        Error,
    >
        decreases body, 1nat, n,
    {
        if n == 0 || n > body.children.len() {
            Ok(b)
        } else {
            match self.render_body_items(body, (n - 1) as nat, b) {
                Ok(b1) => self.render_body_item(body, n - 1, b1),
                Err(e) => Err(e),
            }
        }
    }

    /// Child `i` of a function body, by kind: the return type's leaves space joined and
    /// followed by a space, the name's leaves space joined, the port list and a line break,
    /// and, one level in, each statement and each comment on its own line after at most one
    /// blank line.
    pub open spec fn render_body_item(self, body: SyntaxNode, i: int, b: BufferModel) -> Result<
        BufferModel,
        Error,
    >
        decreases body, 0nat, i,
    {
        if 0 <= i < body.children.len() {
            let c = body.children@[i];
            let gap = self.gap_before(body, i);
            match self.kind(c) {
                Kind::FunctionDataTypeOrImplicit1 => Ok(
                    b.push_all(join(self.terminal_texts(c), " "@)).push_all(" "@),
                ),
                Kind::FunctionIdentifier => Ok(b.push_all(join(self.terminal_texts(c), " "@))),
                Kind::TfPortList => match self.render_port_list(c, b) {
                    Ok(b1) => Ok(b1.push_all("\n"@)),
                    Err(e) => Err(e),
                },
                Kind::FunctionStatementOrNull => match self.render_statement(c, gap, b.indented()) {
                    Ok(b1) => Ok(b1.dedented()),
                    Err(e) => Err(e),
                },
                Kind::Comment => {
                    let b1 = b.indented();
                    let b2 = if gap > 0 {
                        b1.push('\n')
                    } else {
                        b1
                    };
                    Ok(b2.push_all(self.text(c)).push_all("\n"@).dedented())
                },
                _ => Ok(b),
            }
        } else {
            Ok(b)
        }
    }

    /// A statement with one child: an empty line first where the gap is not zero, then
    /// the child's named children and `";\n"`.
    pub open spec fn render_statement(self, node: SyntaxNode, gap: nat, b: BufferModel) -> Result<
        BufferModel,
        Error,
    >
        decreases node, 2nat, 0nat,
    {
        if node.children.len() != 1 {
            Err(invalid_count(node))
        } else {
            let b1 = if gap > 0 {
                b.push('\n')
            } else {
                b
            };
            match self.render_children(node, 1, b1) {
                Ok(b2) => Ok(b2.push_all(";\n"@)),
                Err(e) => Err(e),
            }
        }
    }

    /// Each named child among the first `n`, rendered alone on a fresh buffer.
    pub open spec fn render_fragments(self, node: SyntaxNode, n: nat) -> Result<
        Seq<Seq<char>>,
        Error,
    >
        decreases node, 1nat, n,
    {
        if n == 0 || n > node.children.len() {
            Ok(Seq::empty())
        } else {
            match self.render_fragments(node, (n - 1) as nat) {
                Ok(fragments) => {
                    let c = node.children@[n - 1];
                    if c.is_named {
                        match self.render(c, BufferModel::empty()) {
                            Ok(bc) => Ok(fragments.push(bc.content)),
                            Err(e) => Err(e),
                        }
                    } else {
                        Ok(fragments)
                    }
                },
                Err(e) => Err(e),
            }
        }
    }

    /// A port list: its named children rendered apart, then placed on one line or wrapped.
    pub open spec fn render_port_list(self, node: SyntaxNode, b: BufferModel) -> Result<
        BufferModel,
        Error,
    >
        decreases node, 2nat, 0nat,
    {
        match self.render_fragments(node, node.children.len() as nat) {
            Ok(fragments) => Ok(place_ports(b, fragments)),
            Err(e) => Err(e),
        }
    }

    /// The diagnostic dump of `node` at `indent`: one line per node, in pre-order.
    pub open spec fn dump(self, node: SyntaxNode, indent: nat) -> Seq<char>
        decreases node, 1nat, 0nat,
    {
        self.dump_line(node, indent) + self.dump_children(
            node,
            node.children.len() as nat,
            indent + 4,
        )
    }

    pub open spec fn dump_children(self, node: SyntaxNode, n: nat, indent: nat) -> Seq<char>
        decreases node, 0nat, n,
    {
        if n == 0 || n > node.children.len() {
            Seq::empty()
        } else {
            self.dump_children(node, (n - 1) as nat, indent) + self.dump(
                node.children@[n - 1],
                indent,
            )
        }
    }

    /// The indentation, the kind's name (or `anonymous` for a token), the field name in
    /// parentheses if any, the quoted text of a leaf, and a line break.
    pub open spec fn dump_line(self, node: SyntaxNode, indent: nat) -> Seq<char> {
        let name = if node.is_named {
            node.kind_name@
        } else {
            "anonymous"@
        };
        let field = match node.field_name {
            Some(f) => "("@ + f@ + ")"@,
            None => Seq::empty(),
        };
        let leaf = if node.children.len() == 0 {
            ": '"@ + self.text(node) + "'"@
        } else {
            Seq::empty()
        };
        spaces(indent) + name + field + leaf + "\n"@
    }
}


/// Once a fold over children has failed, it keeps failing with the same error.
pub proof fn lemma_children_error_sticks(ctx: Context, node: SyntaxNode, i: nat, n: nat, b: BufferModel)
    requires
        i <= n <= node.children.len(),
        ctx.render_children(node, i, b) is Err,
    ensures
        ctx.render_children(node, n, b) == ctx.render_children(node, i, b),
    decreases n - i,
{
    if i < n {
        lemma_children_error_sticks(ctx, node, i, (n - 1) as nat, b);
    }
}

pub proof fn lemma_argument_error_sticks(ctx: Context, node: SyntaxNode, i: nat, n: nat, b: BufferModel)
    requires
        i <= n <= node.children.len(),
        ctx.render_argument_items(node, i, b) is Err,
    ensures
        ctx.render_argument_items(node, n, b) == ctx.render_argument_items(node, i, b),
    decreases n - i,
{
    if i < n {
        lemma_argument_error_sticks(ctx, node, i, (n - 1) as nat, b);
    }
}

pub proof fn lemma_class_error_sticks(ctx: Context, node: SyntaxNode, i: nat, n: nat, b: BufferModel)
    requires
        i <= n <= node.children.len(),
        ctx.render_class_items(node, i, b) is Err,
    ensures
        ctx.render_class_items(node, n, b) == ctx.render_class_items(node, i, b),
    decreases n - i,
{
    if i < n {
        lemma_class_error_sticks(ctx, node, i, (n - 1) as nat, b);
    }
}

pub proof fn lemma_body_error_sticks(ctx: Context, body: SyntaxNode, i: nat, n: nat, b: BufferModel)
    requires
        i <= n <= body.children.len(),
        ctx.render_body_items(body, i, b) is Err,
    ensures
        ctx.render_body_items(body, n, b) == ctx.render_body_items(body, i, b),
    decreases n - i,
{
    if i < n {
        lemma_body_error_sticks(ctx, body, i, (n - 1) as nat, b);
    }
}

pub proof fn lemma_fragment_error_sticks(ctx: Context, node: SyntaxNode, i: nat, n: nat)
    requires
        i <= n <= node.children.len(),
        ctx.render_fragments(node, i) is Err,
    ensures
        ctx.render_fragments(node, n) == ctx.render_fragments(node, i),
    decreases n - i,
{
    if i < n {
        lemma_fragment_error_sticks(ctx, node, i, (n - 1) as nat);
    }
}

} // verus!
