//! The node renderer: one rule per construct, and the structural pass-through for
//! every other kind.
use vstd::prelude::*;

use crate::buffer::{Buffer, BufferModel, INDENT_UNIT, chars_of, spaces};
use crate::error::Error;
use crate::identify_last::{IdentifyLast, Iter};
use crate::rules::{
    Context, WIDTH, join, lemma_argument_error_sticks, lemma_body_error_sticks,
    lemma_children_error_sticks, lemma_class_error_sticks, lemma_fragment_error_sticks, place_ports,
    push_port_lines, single_line,
};
use crate::syntax::{Classifier, Kind, SyntaxNode, lemma_child_height};

verus! {

/// The views of a sequence of character vectors.
pub open spec fn views(v: Seq<Vec<char>>) -> Seq<Seq<char>> {
    v.map_values(|x: Vec<char>| x@)
}

/// Whether an executable outcome agrees with the outcome `expected` of the rules, `after`
/// being the buffer's state at the end.
pub open spec fn outcome_matches(
    r: Result<(), Error>,
    expected: Result<BufferModel, Error>,
    after: BufferModel,
) -> bool {
    match expected {
        Ok(b) => r is Ok && after == b,
        Err(e) => r == Err::<(), Error>(e),
    }
}

impl Context {
    /// `node` may be rendered onto a buffer in state `b`: the buffer is well formed, the
    /// node's text lies within the source, and its nesting leaves room for the indentation.
    pub open spec fn can_render(self, node: SyntaxNode, b: BufferModel) -> bool {
        &&& b.wf()
        &&& node.spans_within(self.source.len())
        &&& b.indent + INDENT_UNIT * node.height() <= usize::MAX
    }
}

/// Appends `src` to `dst`.
fn append_chars(dst: &mut Vec<char>, src: &[char])
    ensures
        final(dst)@ == old(dst)@ + src@,
{
    let mut i: usize = 0;
    while i < src.len()
        invariant
            i <= src@.len(),
            dst@ == old(dst)@ + src@.subrange(0, i as int),
        decreases src@.len() - i,
    {
        dst.push(src[i]);
        i = i + 1;
        proof {
            assert(dst@ =~= old(dst)@ + src@.subrange(0, i as int));
        }
    }
    proof {
        assert(src@.subrange(0, src@.len() as int) =~= src@);
    }
}

/// The parts with `sep` between each two neighbours.
fn join_parts(parts: &Vec<Vec<char>>, sep: &[char]) -> (r: Vec<char>)
    ensures
        r@ == join(views(parts@), sep@),
{
    let mut r: Vec<char> = Vec::new();
    let mut i: usize = 0;
    while i < parts.len()
        invariant
            i <= parts@.len(),
            r@ == join(views(parts@).subrange(0, i as int), sep@),
        decreases parts@.len() - i,
    {
        let ghost prefix = views(parts@).subrange(0, i + 1);
        proof {
            assert(prefix.drop_last() =~= views(parts@).subrange(0, i as int));
        }
        if i > 0 {
            append_chars(&mut r, sep);
        }
        append_chars(&mut r, parts[i].as_slice());
        proof {
            if i == 0 {
                assert(r@ =~= prefix[0]);
            }
        }
        i = i + 1;
    }
    proof {
        assert(views(parts@).subrange(0, parts@.len() as int) =~= views(parts@));
    }
    r
}

/// Writes rendered ports on one line where that line fits the width from the current
/// column, else one per line, one level in.
fn write_port_list(buffer: &mut Buffer, children: Vec<Vec<char>>)
    requires
        old(buffer)@.wf(),
        old(buffer)@.indent + INDENT_UNIT <= usize::MAX,
    ensures
        final(buffer)@ == place_ports(old(buffer)@, views(children@)),
        final(buffer)@.wf(),
        final(buffer)@.indent == old(buffer)@.indent,
{
    let ghost fragments = views(children@);
    let sep = chars_of(", ");
    let joined = join_parts(&children, sep.as_slice());
    let mut single: Vec<char> = chars_of("(");
    append_chars(&mut single, joined.as_slice());
    let close = chars_of(");");
    append_chars(&mut single, close.as_slice());
    proof {
        assert(single@ == single_line(fragments));
    }
    let column = buffer.column();
    if column <= WIDTH && single.len() <= WIDTH - column {
        buffer.push_chars(single.as_slice());
    } else {
        buffer.push_str("(\n");
        buffer.increment_indent();
        let ghost opened = buffer@;
        let total = children.len();
        let mut it: Iter<Vec<char>> = children.identify_last();
        let mut done: usize = 0;
        loop
            invariant
                total == fragments.len(),
                done + it@.len() == total,
                views(it@) == fragments.subrange(done as int, total as int),
                buffer@ == push_port_lines(opened, fragments, done as nat),
                buffer@.wf(),
                buffer@.indent == old(buffer)@.indent + INDENT_UNIT,
            ensures
                buffer@ == push_port_lines(opened, fragments, total as nat),
                buffer@.wf(),
                buffer@.indent == old(buffer)@.indent + INDENT_UNIT,
            decreases it@.len(),
        {
            let ghost remaining = it@;
            match it.next() {
                Some((last, child)) => {
                    proof {
                        assert(views(remaining)[0] == child@);
                        assert(views(it@) =~= views(remaining).drop_first());
                        assert(views(it@) =~= fragments.subrange(done + 1, total as int));
                    }
                    buffer.push_chars(child.as_slice());
                    if !last {
                        buffer.push_str(",");
                    }
                    buffer.push_str("\n");
                    done = done + 1;
                },
                None => {
                    break;
                },
            }
        }
        buffer.decrement_indent();
        buffer.push_str(");");
    }
}

/// Renders syntax trees of one source text.
pub struct Formatter {
    source: Vec<char>,
    classifier: Classifier,
}

impl View for Formatter {
    type V = Context;

    closed spec fn view(&self) -> Context {
        Context { source: self.source@, table: self.classifier@ }
    }
}

impl Formatter {
    /// A formatter for trees of `source`, whose kinds `classifier` tells apart.
    pub fn new(source: &str, classifier: Classifier) -> (r: Self)
        ensures
            r@ == (Context { source: source@, table: classifier@ }),
    {
        Formatter { source: chars_of(source), classifier }
    }

    fn kind(&self, node: &SyntaxNode) -> (r: Kind)
        ensures
            r == self@.kind(*node),
    {
        self.classifier.kind_of(node.kind_id)
    }

    /// The node's source text.
    pub fn text(&self, node: &SyntaxNode) -> (r: Vec<char>)
        requires
            node.spans_within(self@.source.len()),
        ensures
            r@ == self@.text(*node),
    {
        let mut r: Vec<char> = Vec::new();
        let mut i: usize = node.start;
        while i < node.end
            invariant
                node.start <= i <= node.end <= self@.source.len(),
                r@ == self@.source.subrange(node.start as int, i as int),
            decreases node.end - i,
        {
            r.push(self.source[i]);
            i = i + 1;
            proof {
                assert(r@ =~= self@.source.subrange(node.start as int, i as int));
            }
        }
        r
    }

    /// Writes the node's source text to the buffer.
    fn push_text(&self, buffer: &mut Buffer, node: &SyntaxNode)
        requires
            old(buffer)@.wf(),
            node.spans_within(self@.source.len()),
        ensures
            final(buffer)@ == old(buffer)@.push_all(self@.text(*node)),
            final(buffer)@.wf(),
            final(buffer)@.indent == old(buffer)@.indent,
    {
        let t = self.text(node);
        buffer.push_chars(t.as_slice());
    }

    /// Appends the texts of all leaves below `node`, in source order.
    pub fn collect_terminals(&self, node: &SyntaxNode, terminals: &mut Vec<Vec<char>>)
        requires
            node.spans_within(self@.source.len()),
        ensures
            views(final(terminals)@) == views(old(terminals)@) + self@.terminal_texts(*node),
        decreases node,
    {
        let n = node.children.len();
        let mut i: usize = 0;
        while i < n
            invariant
                n == node.children.len(),
                i <= n,
                node.spans_within(self@.source.len()),
                views(terminals@) == views(old(terminals)@) + self@.terminals_of(*node, i as nat),
            decreases n - i,
        {
            let child = &node.children[i];
            proof {
                lemma_child_height(*node, i as int);
            }
            let ghost before = views(terminals@);
            if child.children.len() == 0 {
                let t = self.text(child);
                terminals.push(t);
                proof {
                    assert(views(terminals@) =~= before + seq![self@.text(*child)]);
                }
            } else {
                proof {
                    assert(views(terminals@) =~= before + Seq::<Seq<char>>::empty());
                }
            }
            let ghost middle = views(terminals@);
            self.collect_terminals(child, terminals);
            proof {
                assert(views(terminals@) =~= middle + self@.terminal_texts(*child));
                assert(views(terminals@) =~= views(old(terminals)@) + self@.terminals_of(
                    *node,
                    (i + 1) as nat,
                ));
            }
            i = i + 1;
        }
    }

    /// The texts of all leaves below `node`, joined by `sep`.
    pub fn format_terminals(&self, node: &SyntaxNode, sep: &str) -> (r: Vec<char>)
        requires
            node.spans_within(self@.source.len()),
        ensures
            r@ == join(self@.terminal_texts(*node), sep@),
    {
        let mut terminals: Vec<Vec<char>> = Vec::new();
        self.collect_terminals(node, &mut terminals);
        proof {
            assert(views(terminals@) =~= self@.terminal_texts(*node));
        }
        let sep_chars = chars_of(sep);
        join_parts(&terminals, sep_chars.as_slice())
    }

    /// Renders the named children in order, adding nothing of its own.
    pub fn format_children(&self, buffer: &mut Buffer, node: &SyntaxNode) -> (r: Result<(), Error>)
        requires
            self@.can_render(*node, old(buffer)@),
        ensures
            outcome_matches(
                r,
                self@.render_children(*node, node.children.len() as nat, old(buffer)@),
                final(buffer)@,
            ),
            r is Ok ==> final(buffer)@.wf() && final(buffer)@.indent == old(buffer)@.indent,
        decreases node, 2nat,
    {
        let n = node.children.len();
        let mut i: usize = 0;
        while i < n
            invariant
                n == node.children.len(),
                i <= n,
                self@.can_render(*node, old(buffer)@),
                self@.render_children(*node, i as nat, old(buffer)@) == Ok::<BufferModel, Error>(
                    buffer@,
                ),
                buffer@.wf(),
                buffer@.indent == old(buffer)@.indent,
            decreases n - i,
        {
            let child = &node.children[i];
            if child.is_named {
                proof {
                    lemma_child_height(*node, i as int);
                }
                match self.format_node(buffer, child) {
                    Ok(()) => {},
                    Err(e) => {
                        proof {
                            lemma_children_error_sticks(self@, *node, (i + 1) as nat, n as nat, old(buffer)@);
                        }
                        return Err(e);
                    },
                }
            }
            i = i + 1;
        }
        Ok(())
    }

    /// Renders one node by the rule for its kind.
    pub fn format_node(&self, buffer: &mut Buffer, node: &SyntaxNode) -> (r: Result<(), Error>)
        requires
            self@.can_render(*node, old(buffer)@),
        ensures
            outcome_matches(r, self@.render(*node, old(buffer)@), final(buffer)@),
            r is Ok ==> final(buffer)@.wf() && final(buffer)@.indent == old(buffer)@.indent,
        decreases node, 3nat,
    {
        match self.kind(node) {
            Kind::FunctionDeclaration => self.format_function_declaration(buffer, node),
            Kind::ClassDeclaration => self.format_class_declaration(buffer, node),
            Kind::Expression => self.format_expression(buffer, node),
            Kind::JumpStatement => self.format_jump_statement(buffer, node),
            Kind::OperatorAssignment => self.format_operator_assignment(buffer, node),
            Kind::IntegerAtomType => {
                self.push_text(buffer, node);
                buffer.push_str(" ");
                Ok(())
            },
            Kind::SimpleIdentifier => {
                self.push_text(buffer, node);
                Ok(())
            },
            Kind::ListOfArgumentsParent => self.format_list_of_arguments(buffer, node),
            Kind::PrimaryLiteral => {
                self.push_text(buffer, node);
                Ok(())
            },
            _ => self.format_children(buffer, node),
        }
    }

    /// `(`, the named children separated by `", "`, `)`.
    pub fn format_list_of_arguments(&self, buffer: &mut Buffer, node: &SyntaxNode) -> (r: Result<
        (),
        Error,
    >)
        requires
            self@.can_render(*node, old(buffer)@),
        ensures
            outcome_matches(r, self@.render_arguments(*node, old(buffer)@), final(buffer)@),
            r is Ok ==> final(buffer)@.wf() && final(buffer)@.indent == old(buffer)@.indent,
        decreases node, 2nat,
    {
        buffer.push_str("(");
        let ghost start = buffer@;
        let n = node.children.len();
        let mut seen = false;
        let mut i: usize = 0;
        while i < n
            invariant
                n == node.children.len(),
                i <= n,
                self@.can_render(*node, old(buffer)@),
                start == old(buffer)@.push_all("("@),
                self@.render_argument_items(*node, i as nat, start) == Ok::<
                    (BufferModel, bool),
                    Error,
                >((buffer@, seen)),
                buffer@.wf(),
                buffer@.indent == old(buffer)@.indent,
            decreases n - i,
        {
            let child = &node.children[i];
            if child.is_named {
                if seen {
                    buffer.push_str(", ");
                }
                proof {
                    lemma_child_height(*node, i as int);
                }
                match self.format_node(buffer, child) {
                    Ok(()) => {},
                    Err(e) => {
                        proof {
                            lemma_argument_error_sticks(self@, *node, (i + 1) as nat, n as nat, start);
                        }
                        return Err(e);
                    },
                }
                seen = true;
            }
            i = i + 1;
        }
        buffer.push_str(")");
        Ok(())
    }

    /// Binary form for three children, the child itself for one.
    pub fn format_expression(&self, buffer: &mut Buffer, node: &SyntaxNode) -> (r: Result<
        (),
        Error,
    >)
        requires
            self@.can_render(*node, old(buffer)@),
        ensures
            outcome_matches(r, self@.render_expression(*node, old(buffer)@), final(buffer)@),
            r is Ok ==> final(buffer)@.wf() && final(buffer)@.indent == old(buffer)@.indent,
        decreases node, 2nat,
    {
        let n = node.children.len();
        if n == 3 {
            proof {
                lemma_child_height(*node, 0);
                lemma_child_height(*node, 1);
                lemma_child_height(*node, 2);
            }
            match self.format_node(buffer, &node.children[0]) {
                Ok(()) => {},
                Err(e) => {
                    return Err(e);
                },
            }
            buffer.push_str(" ");
            self.push_text(buffer, &node.children[1]);
            buffer.push_str(" ");
            self.format_node(buffer, &node.children[2])
        } else if n == 1 {
            proof {
                lemma_child_height(*node, 0);
            }
            self.format_node(buffer, &node.children[0])
        } else {
            Err(Error::InvalidCount { kind_id: node.kind_id, position: node.start_position })
        }
    }

    /// The keyword, then a space and the expression where a third child follows.
    pub fn format_jump_statement(&self, buffer: &mut Buffer, node: &SyntaxNode) -> (r: Result<
        (),
        Error,
    >)
        requires
            self@.can_render(*node, old(buffer)@),
        ensures
            outcome_matches(r, self@.render_jump(*node, old(buffer)@), final(buffer)@),
            r is Ok ==> final(buffer)@.wf() && final(buffer)@.indent == old(buffer)@.indent,
        decreases node, 2nat,
    {
        let n = node.children.len();
        proof {
            if n > 0 {
                lemma_child_height(*node, 0);
            }
        }
        if n == 0 {
            return Err(Error::TreeError { kind_id: node.kind_id, position: node.start_position });
        }
        self.push_text(buffer, &node.children[0]);
        if n == 3 {
            buffer.push_str(" ");
            proof {
                lemma_child_height(*node, 1);
            }
            return self.format_expression(buffer, &node.children[1]);
        }
        Ok(())
    }

    /// `lvalue op expression`, single spaced.
    pub fn format_operator_assignment(&self, buffer: &mut Buffer, node: &SyntaxNode) -> (r: Result<
        (),
        Error,
    >)
        requires
            self@.can_render(*node, old(buffer)@),
        ensures
            outcome_matches(r, self@.render_assignment(*node, old(buffer)@), final(buffer)@),
            r is Ok ==> final(buffer)@.wf() && final(buffer)@.indent == old(buffer)@.indent,
        decreases node, 2nat,
    {
        if node.children.len() != 3 {
            return Err(Error::InvalidCount { kind_id: node.kind_id, position: node.start_position });
        }
        proof {
            lemma_child_height(*node, 0);
            lemma_child_height(*node, 1);
        }
        self.push_text(buffer, &node.children[0]);
        buffer.push(' ');
        self.push_text(buffer, &node.children[1]);
        buffer.push(' ');
        proof {
            lemma_child_height(*node, 2);
        }
        self.format_expression(buffer, &node.children[2])
    }

    /// `class`, the name, the items one level in, `endclass`, then a blank line asked for.
    pub fn format_class_declaration(&self, buffer: &mut Buffer, node: &SyntaxNode) -> (r: Result<
        (),
        Error,
    >)
        requires
            self@.can_render(*node, old(buffer)@),
        ensures
            outcome_matches(r, self@.render_class(*node, old(buffer)@), final(buffer)@),
            r is Ok ==> final(buffer)@.wf() && final(buffer)@.indent == old(buffer)@.indent,
        decreases node, 2nat,
    {
        buffer.push_str("class ");
        let ghost start = buffer@;
        let n = node.children.len();
        let mut class_item_seen = false;
        let mut i: usize = 0;
        while i < n
            invariant
                n == node.children.len(),
                i <= n,
                self@.can_render(*node, old(buffer)@),
                start == old(buffer)@.push_all("class "@),
                start.indent == old(buffer)@.indent,
                self@.render_class_items(*node, i as nat, start) == Ok::<(BufferModel, bool), Error>(
                    (buffer@, class_item_seen),
                ),
                buffer@.wf(),
                buffer@.indent == if class_item_seen {
                    old(buffer)@.indent + INDENT_UNIT
                } else {
                    old(buffer)@.indent as int
                },
            decreases n - i,
        {
            let child = &node.children[i];
            proof {
                lemma_child_height(*node, i as int);
            }
            match self.kind(child) {
                Kind::ClassIdentifier => {
                    let t = self.format_terminals(child, " ");
                    buffer.push_chars(t.as_slice());
                },
                Kind::ClassItem => {
                    if !class_item_seen {
                        buffer.push_str(";\n");
                        buffer.increment_indent();
                        class_item_seen = true;
                    }
                    match self.format_node(buffer, child) {
                        Ok(()) => {},
                        Err(e) => {
                            proof {
                                lemma_class_error_sticks(self@, *node, (i + 1) as nat, n as nat, start);
                            }
                            return Err(e);
                        },
                    }
                },
                _ => {},
            }
            i = i + 1;
        }
        if class_item_seen {
            buffer.decrement_indent();
        }
        buffer.push_str("endclass\n");
        buffer.maybe_blank_line();
        Ok(())
    }

    /// Gap policy: the number of blank source lines between child `i` of a function body
    /// and the statement or comment before it, else zero.
    pub fn blank_lines_after_previous_function_item(&self, body: &SyntaxNode, i: usize) -> (r:
        usize)
        ensures
            r == self@.gap_before(*body, i as int),
    {
        if i == 0 || i >= body.children.len() {
            return 0;
        }
        let prev = &body.children[i - 1];
        let node = &body.children[i];
        let k = self.kind(prev);
        if k == Kind::FunctionStatementOrNull || k == Kind::Comment {
            if node.start_position.row <= prev.end_position.row {
                0
            } else {
                node.start_position.row - prev.end_position.row - 1
            }
        } else {
            0
        }
    }

    /// A statement of a function body: an empty line first where blank source lines
    /// precede it, then its content and `";\n"`.
    pub fn format_function_statement_or_null(
        &self,
        buffer: &mut Buffer,
        body: &SyntaxNode,
        i: usize,
    ) -> (r: Result<(), Error>)
        requires
            i < body.children.len(),
            self@.can_render(body.children@[i as int], old(buffer)@),
        ensures
            outcome_matches(
                r,
                self@.render_statement(
                    body.children@[i as int],
                    self@.gap_before(*body, i as int),
                    old(buffer)@,
                ),
                final(buffer)@,
            ),
            r is Ok ==> final(buffer)@.wf() && final(buffer)@.indent == old(buffer)@.indent,
        decreases body, 0nat,
    {
        let node = &body.children[i];
        if node.children.len() != 1 {
            return Err(Error::InvalidCount { kind_id: node.kind_id, position: node.start_position });
        }
        if self.blank_lines_after_previous_function_item(body, i) > 0 {
            buffer.push('\n');
        }
        match self.format_children(buffer, node) {
            Ok(()) => {},
            Err(e) => {
                return Err(e);
            },
        }
        buffer.push_str(";\n");
        Ok(())
    }

    /// A function: `function`, the return type, the name, the ports, each statement and
    /// comment one level in, `endfunction`, then a blank line asked for.
    pub fn format_function_declaration(&self, buffer: &mut Buffer, node: &SyntaxNode) -> (r:
        Result<(), Error>)
        requires
            self@.can_render(*node, old(buffer)@),
        ensures
            outcome_matches(r, self@.render_function(*node, old(buffer)@), final(buffer)@),
            r is Ok ==> final(buffer)@.wf() && final(buffer)@.indent == old(buffer)@.indent,
        decreases node, 2nat,
    {
        if node.children.len() != 2 {
            return Err(Error::InvalidCount { kind_id: node.kind_id, position: node.start_position });
        }
        let keyword = &node.children[0];
        let body = &node.children[1];
        let function_keyword = String::from_str("function");
        if !(keyword.kind_name == function_keyword && self.kind(body)
            == Kind::FunctionBodyDeclaration) {
            return Err(Error::InvalidKind { kind_id: node.kind_id, position: node.start_position });
        }
        proof {
            lemma_child_height(*node, 1);
        }
        buffer.push_str("function ");
        match self.format_function_body(buffer, body) {
            Ok(()) => {},
            Err(e) => {
                return Err(e);
            },
        }
        buffer.push_str("endfunction\n");
        buffer.maybe_blank_line();
        Ok(())
    }

    /// The children of a function body, each by the rule for its kind.
    fn format_function_body(&self, buffer: &mut Buffer, body: &SyntaxNode) -> (r: Result<
        (),
        Error,
    >)
        requires
            self@.can_render(*body, old(buffer)@),
        ensures
            outcome_matches(
                r,
                self@.render_body_items(*body, body.children.len() as nat, old(buffer)@),
                final(buffer)@,
            ),
            r is Ok ==> final(buffer)@.wf() && final(buffer)@.indent == old(buffer)@.indent,
        decreases body, 2nat,
    {
        let n = body.children.len();
        let mut i: usize = 0;
        while i < n
            invariant
                n == body.children.len(),
                i <= n,
                self@.can_render(*body, old(buffer)@),
                self@.render_body_items(*body, i as nat, old(buffer)@) == Ok::<BufferModel, Error>(
                    buffer@,
                ),
                buffer@.wf(),
                buffer@.indent == old(buffer)@.indent,
            decreases n - i,
        {
            match self.format_function_item(buffer, body, i) {
                Ok(()) => {},
                Err(e) => {
                    proof {
                        lemma_body_error_sticks(self@, *body, (i + 1) as nat, n as nat, old(buffer)@);
                    }
                    return Err(e);
                },
            }
            i = i + 1;
        }
        Ok(())
    }

    /// Child `i` of a function body, by the rule for its kind.
    #[verifier::rlimit(40)]
    fn format_function_item(&self, buffer: &mut Buffer, body: &SyntaxNode, i: usize) -> (r:
        Result<(), Error>)
        requires
            i < body.children.len(),
            self@.can_render(*body, old(buffer)@),
        ensures
            outcome_matches(r, self@.render_body_item(*body, i as int, old(buffer)@), final(buffer)@),
            r is Ok ==> final(buffer)@.wf() && final(buffer)@.indent == old(buffer)@.indent,
        decreases body, 1nat,
    {
        let child = &body.children[i];
        proof {
            lemma_child_height(*body, i as int);
        }
        match self.kind(child) {
            Kind::FunctionDataTypeOrImplicit1 => {
                let t = self.format_terminals(child, " ");
                buffer.push_chars(t.as_slice());
                buffer.push_str(" ");
            },
            Kind::FunctionIdentifier => {
                let t = self.format_terminals(child, " ");
                buffer.push_chars(t.as_slice());
            },
            Kind::TfPortList => {
                match self.format_tf_port_list(buffer, child) {
                    Ok(()) => {},
                    Err(e) => {
                        return Err(e);
                    },
                }
                buffer.push_str("\n");
            },
            Kind::FunctionStatementOrNull => {
                buffer.increment_indent();
                match self.format_function_statement_or_null(buffer, body, i) {
                    Ok(()) => {},
                    Err(e) => {
                        return Err(e);
                    },
                }
                buffer.decrement_indent();
            },
            Kind::Comment => {
                buffer.increment_indent();
                if self.blank_lines_after_previous_function_item(body, i) > 0 {
                    buffer.push('\n');
                }
                self.push_text(buffer, child);
                buffer.push_str("\n");
                buffer.decrement_indent();
            },
            _ => {},
        }
        Ok(())
    }

    /// Renders `node` alone on a fresh buffer and hands back the text.
    pub fn to_line_buffer(&self, node: &SyntaxNode) -> (r: Result<Vec<char>, Error>)
        requires
            self@.can_render(*node, BufferModel::empty()),
        ensures
            match self@.render(*node, BufferModel::empty()) {
                Ok(b) => r matches Ok(t) && t@ == b.content,
                Err(e) => r == Err::<Vec<char>, Error>(e),
            },
        decreases node, 4nat,
    {
        let mut b = Buffer::with_capacity(1024);
        match self.format_node(&mut b, node) {
            Ok(()) => Ok(b.into_chars()),
            Err(e) => Err(e),
        }
    }

    /// Wrap planner: the ports rendered apart, then written on one line where it fits the
    /// width from the current column, else one port per line, one level in.
    pub fn format_tf_port_list(&self, buffer: &mut Buffer, node: &SyntaxNode) -> (r: Result<
        (),
        Error,
    >)
        requires
            self@.can_render(*node, old(buffer)@),
            old(buffer)@.indent + INDENT_UNIT <= usize::MAX,
        ensures
            outcome_matches(r, self@.render_port_list(*node, old(buffer)@), final(buffer)@),
            r is Ok ==> final(buffer)@.wf() && final(buffer)@.indent == old(buffer)@.indent,
        decreases node, 2nat,
    {
        let n = node.children.len();
        let mut children: Vec<Vec<char>> = Vec::new();
        proof {
            assert(views(children@) =~= Seq::<Seq<char>>::empty());
        }
        let mut i: usize = 0;
        while i < n
            invariant
                n == node.children.len(),
                i <= n,
                self@.can_render(*node, old(buffer)@),
                self@.render_fragments(*node, i as nat) == Ok::<Seq<Seq<char>>, Error>(
                    views(children@),
                ),
            decreases n - i,
        {
            let child = &node.children[i];
            if child.is_named {
                proof {
                    lemma_child_height(*node, i as int);
                }
                match self.to_line_buffer(child) {
                    Ok(t) => {
                        let ghost before = views(children@);
                        children.push(t);
                        proof {
                            assert(views(children@) =~= before.push(t@));
                        }
                    },
                    Err(e) => {
                        proof {
                            lemma_fragment_error_sticks(self@, *node, (i + 1) as nat, n as nat);
                        }
                        return Err(e);
                    },
                }
            }
            i = i + 1;
        }
        write_port_list(buffer, children);
        Ok(())
    }

    /// Appends the diagnostic dump of `node` at `indent`: one line per node, in pre-order,
    /// each child four columns further in.
    pub fn debug_walk(&self, out: &mut Vec<char>, indent: usize, node: &SyntaxNode)
        requires
            node.spans_within(self@.source.len()),
            indent + INDENT_UNIT * node.height() <= usize::MAX,
        ensures
            final(out)@ == old(out)@ + self@.dump(*node, indent as nat),
        decreases node,
    {
        let mut k: usize = 0;
        while k < indent
            invariant
                k <= indent,
                out@ == old(out)@ + spaces(k as nat),
            decreases indent - k,
        {
            out.push(' ');
            k = k + 1;
            proof {
                assert(out@ =~= old(out)@ + spaces(k as nat));
            }
        }
        let ghost after_indent = out@;
        let name = if node.is_named {
            chars_of(node.kind_name.as_str())
        } else {
            chars_of("anonymous")
        };
        append_chars(out, name.as_slice());
        let ghost after_name = out@;
        match &node.field_name {
            Some(f) => {
                let open = chars_of("(");
                let field = chars_of(f.as_str());
                let close = chars_of(")");
                append_chars(out, open.as_slice());
                append_chars(out, field.as_slice());
                append_chars(out, close.as_slice());
                proof {
                    assert(out@ =~= after_name + ("("@ + f@ + ")"@));
                }
            },
            None => {
                proof {
                    assert(out@ =~= after_name + Seq::<char>::empty());
                }
            },
        }
        let ghost after_field = out@;
        if node.children.len() == 0 {
            let open = chars_of(": '");
            let text = self.text(node);
            let close = chars_of("'");
            append_chars(out, open.as_slice());
            append_chars(out, text.as_slice());
            append_chars(out, close.as_slice());
            proof {
                assert(out@ =~= after_field + (": '"@ + self@.text(*node) + "'"@));
            }
        } else {
            proof {
                assert(out@ =~= after_field + Seq::<char>::empty());
            }
        }
        let newline = chars_of("\n");
        append_chars(out, newline.as_slice());
        proof {
            assert(out@ =~= old(out)@ + self@.dump_line(*node, indent as nat));
        }
        let ghost line_end = out@;
        let n = node.children.len();
        if n > 0 {
            proof {
                lemma_child_height(*node, 0);
            }
            let mut i: usize = 0;
            while i < n
                invariant
                    n == node.children.len(),
                    i <= n,
                    node.spans_within(self@.source.len()),
                    indent + INDENT_UNIT * node.height() <= usize::MAX,
                    n > 0,
                    out@ == line_end + self@.dump_children(*node, i as nat, (indent + INDENT_UNIT) as nat),
                decreases n - i,
            {
                proof {
                    lemma_child_height(*node, i as int);
                }
                let ghost before = out@;
                self.debug_walk(out, indent + INDENT_UNIT, &node.children[i]);
                proof {
                    assert(out@ =~= line_end + self@.dump_children(
                        *node,
                        (i + 1) as nat,
                        (indent + INDENT_UNIT) as nat,
                    ));
                }
                i = i + 1;
            }
        }
        proof {
            assert(out@ =~= old(out)@ + self@.dump(*node, indent as nat));
        }
    }
}

} // verus!
