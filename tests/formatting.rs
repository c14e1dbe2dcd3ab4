use svfmt::{debug, Classifier, Error, Kind, Point, SyntaxNode};

/// The grammar's node kinds used below: name, whether named, and kind. A kind's id is its
/// index here.
const KINDS: &[(&str, bool, Kind)] = &[
    ("source_file", true, Kind::Unknown),
    ("function_declaration", true, Kind::FunctionDeclaration),
    ("function", false, Kind::Unknown),
    ("function_body_declaration", true, Kind::FunctionBodyDeclaration),
    ("function_data_type_or_implicit1", true, Kind::FunctionDataTypeOrImplicit1),
    ("data_type_or_implicit1", true, Kind::Unknown),
    ("data_type", true, Kind::Unknown),
    ("integer_atom_type", true, Kind::IntegerAtomType),
    ("int", false, Kind::Unknown),
    ("function_identifier", true, Kind::FunctionIdentifier),
    ("simple_identifier", true, Kind::SimpleIdentifier),
    ("(", false, Kind::Unknown),
    (")", false, Kind::Unknown),
    (";", false, Kind::Unknown),
    (",", false, Kind::Unknown),
    ("endfunction", false, Kind::Unknown),
    ("tf_port_list", true, Kind::TfPortList),
    ("tf_port_item1", true, Kind::Unknown),
    ("port_identifier", true, Kind::Unknown),
    ("function_statement_or_null", true, Kind::FunctionStatementOrNull),
    ("statement_item", true, Kind::Unknown),
    ("operator_assignment", true, Kind::OperatorAssignment),
    ("variable_lvalue", true, Kind::Unknown),
    ("assignment_operator", true, Kind::Unknown),
    ("expression", true, Kind::Expression),
    ("primary", true, Kind::Unknown),
    ("primary_literal", true, Kind::PrimaryLiteral),
    ("jump_statement", true, Kind::JumpStatement),
    ("return", false, Kind::Unknown),
    ("comment", true, Kind::Comment),
    ("class_declaration", true, Kind::ClassDeclaration),
    ("class", false, Kind::Unknown),
    ("class_identifier", true, Kind::ClassIdentifier),
    ("class_item", true, Kind::ClassItem),
    ("class_method", true, Kind::Unknown),
    ("endclass", false, Kind::Unknown),
    ("list_of_arguments_parent", true, Kind::ListOfArgumentsParent),
    ("+", false, Kind::Unknown),
    ("*", false, Kind::Unknown),
    ("mintypmax_expression", true, Kind::Unknown),
    ("tf_call", true, Kind::Unknown),
];

fn classifier() -> Classifier {
    Classifier::new(KINDS.iter().map(|k| k.2).collect())
}

fn kind_id(name: &str) -> u16 {
    KINDS
        .iter()
        .position(|k| k.0 == name)
        .unwrap_or_else(|| panic!("no kind {}", name)) as u16
}

/// Builds a syntax tree over a source text, leaf by leaf in source order.
struct Builder {
    src: Vec<char>,
    pos: usize,
}

impl Builder {
    fn new(source: &str) -> Self {
        Builder { src: source.chars().collect(), pos: 0 }
    }

    fn point(&self, offset: usize) -> Point {
        let before = &self.src[..offset];
        let row = before.iter().filter(|c| **c == '\n').count();
        let column = match before.iter().rposition(|c| *c == '\n') {
            Some(p) => offset - p - 1,
            None => offset,
        };
        Point { row, column }
    }

    /// The next token of the source, which must read `text`.
    fn leaf(&mut self, kind: &str, text: &str) -> SyntaxNode {
        while self.pos < self.src.len() && self.src[self.pos].is_whitespace() {
            self.pos += 1;
        }
        let chars: Vec<char> = text.chars().collect();
        let start = self.pos;
        let end = start + chars.len();
        assert_eq!(&self.src[start..end], &chars[..], "source does not read {:?}", text);
        self.pos = end;
        let id = kind_id(kind);
        SyntaxNode {
            kind_id: id,
            kind_name: kind.to_string(),
            is_named: KINDS[id as usize].1,
            field_name: None,
            start,
            end,
            start_position: self.point(start),
            end_position: self.point(end),
            children: Vec::new(),
        }
    }

    /// A node spanning its children.
    fn node(&self, kind: &str, children: Vec<SyntaxNode>) -> SyntaxNode {
        let id = kind_id(kind);
        let start = children.first().map(|c| c.start).unwrap_or(self.pos);
        let end = children.last().map(|c| c.end).unwrap_or(self.pos);
        SyntaxNode {
            kind_id: id,
            kind_name: kind.to_string(),
            is_named: KINDS[id as usize].1,
            field_name: None,
            start,
            end,
            start_position: self.point(start),
            end_position: self.point(end),
            children,
        }
    }

    fn identifier(&mut self, name: &str) -> SyntaxNode {
        self.leaf("simple_identifier", name)
    }

    fn int_type(&mut self) -> SyntaxNode {
        let int = self.leaf("int", "int");
        let atom = self.node("integer_atom_type", vec![int]);
        let data_type = self.node("data_type", vec![atom]);
        self.node("data_type_or_implicit1", vec![data_type])
    }

    /// `int name` or `name` as one port.
    fn port(&mut self, typed: bool, name: &str) -> SyntaxNode {
        let mut children = Vec::new();
        if typed {
            children.push(self.int_type());
        }
        let id = self.identifier(name);
        children.push(self.node("port_identifier", vec![id]));
        self.node("tf_port_item1", children)
    }

    /// `function int name(ports);`, the children of the body before its statements.
    fn header(&mut self, name: &str, ports: &[(bool, &str)]) -> Vec<SyntaxNode> {
        let ty = self.int_type();
        let data = self.node("function_data_type_or_implicit1", vec![ty]);
        let id = self.identifier(name);
        let ident = self.node("function_identifier", vec![id]);
        let open = self.leaf("(", "(");
        let mut items = Vec::new();
        for (i, (typed, port)) in ports.iter().enumerate() {
            if i > 0 {
                items.push(self.leaf(",", ","));
            }
            items.push(self.port(*typed, port));
        }
        let list = self.node("tf_port_list", items);
        let close = self.leaf(")", ")");
        let semi = self.leaf(";", ";");
        vec![data, ident, open, list, close, semi]
    }

    /// A function declaration from the `function` keyword already read, its body's
    /// children, and `endfunction`.
    fn function(&mut self, keyword: SyntaxNode, mut body: Vec<SyntaxNode>) -> SyntaxNode {
        body.push(self.leaf("endfunction", "endfunction"));
        let body = self.node("function_body_declaration", body);
        self.node("function_declaration", vec![keyword, body])
    }

    /// A primary made of one literal or identifier.
    fn primary(&mut self, text: &str) -> SyntaxNode {
        let first = text.chars().next().unwrap();
        let leaf = if first.is_ascii_digit() {
            self.leaf("primary_literal", text)
        } else {
            self.identifier(text)
        };
        let primary = self.node("primary", vec![leaf]);
        self.node("expression", vec![primary])
    }

    /// `lvalue op value ;` as a statement.
    fn assignment(&mut self, lvalue: &str, op: &str, value: &str) -> SyntaxNode {
        let l = self.identifier(lvalue);
        let l = self.node("variable_lvalue", vec![l]);
        let o = self.leaf("assignment_operator", op);
        let v = self.primary(value);
        let assign = self.node("operator_assignment", vec![l, o, v]);
        let semi = self.leaf(";", ";");
        let item = self.node("statement_item", vec![assign, semi]);
        self.node("function_statement_or_null", vec![item])
    }

    fn comment(&mut self, text: &str) -> SyntaxNode {
        self.leaf("comment", text)
    }

    fn source_file(&self, items: Vec<SyntaxNode>) -> SyntaxNode {
        self.node("source_file", items)
    }
}

fn render(source: &str, tree: &SyntaxNode) -> Result<String, Error> {
    assert!(tree.is_well_formed(source.chars().count()));
    svfmt::format(source, classifier(), tree)
}

fn simple_function(source: &str, name: &str, ports: &[(bool, &str)]) -> SyntaxNode {
    let mut b = Builder::new(source);
    let kw = b.leaf("function", "function");
    let header = b.header(name, ports);
    let f = b.function(kw, header);
    b.source_file(vec![f])
}

#[test]
fn operator_assignment() {
    let input = "function int f(a);\n    a  *=  2 ;\n    a <<= 3;\nendfunction\n";
    let expected = "function int f(a);\n    a *= 2;\n    a <<= 3;\nendfunction\n";
    let mut b = Builder::new(input);
    let kw = b.leaf("function", "function");
    let mut body = b.header("f", &[(false, "a")]);
    body.push(b.assignment("a", "*=", "2"));
    body.push(b.assignment("a", "<<=", "3"));
    let f = b.function(kw, body);
    let tree = b.source_file(vec![f]);
    assert_eq!(render(input, &tree).unwrap(), expected);
}

#[test]
fn basic() {
    let input = "class myclass;\n\nfunction int f(int a);\n\nreturn a;\n\nendfunction\n\nendclass\n";
    let expected =
        "class myclass;\n    function int f(int a);\n        return a;\n    endfunction\nendclass\n";
    let mut b = Builder::new(input);
    let class_kw = b.leaf("class", "class");
    let name = b.identifier("myclass");
    let class_id = b.node("class_identifier", vec![name]);
    let semi = b.leaf(";", ";");
    let kw = b.leaf("function", "function");
    let mut body = b.header("f", &[(true, "a")]);
    let ret = b.leaf("return", "return");
    let value = b.primary("a");
    let semi2 = b.leaf(";", ";");
    let jump = b.node("jump_statement", vec![ret, value, semi2]);
    let item = b.node("statement_item", vec![jump]);
    body.push(b.node("function_statement_or_null", vec![item]));
    let f = b.function(kw, body);
    let method = b.node("class_method", vec![f]);
    let class_item = b.node("class_item", vec![method]);
    let end = b.leaf("endclass", "endclass");
    let class = b.node("class_declaration", vec![class_kw, class_id, semi, class_item, end]);
    let tree = b.source_file(vec![class]);
    assert_eq!(render(input, &tree).unwrap(), expected);
}

/// `return(a+b* 2);` in a function of two ports.
fn binary_tree(input: &str) -> SyntaxNode {
    let mut b = Builder::new(input);
    let kw = b.leaf("function", "function");
    let mut body = b.header("f", &[(true, "a"), (true, "b")]);
    let ret = b.leaf("return", "return");
    let open = b.leaf("(", "(");
    let a = b.primary("a");
    let plus = b.leaf("+", "+");
    let bb = b.primary("b");
    let times = b.leaf("*", "*");
    let two = b.primary("2");
    let product = b.node("expression", vec![bb, times, two]);
    let sum = b.node("expression", vec![a, plus, product]);
    let inner = b.node("mintypmax_expression", vec![sum]);
    let close = b.leaf(")", ")");
    let paren = b.node("primary", vec![open, inner, close]);
    let value = b.node("expression", vec![paren]);
    let semi = b.leaf(";", ";");
    let jump = b.node("jump_statement", vec![ret, value, semi]);
    let item = b.node("statement_item", vec![jump]);
    body.push(b.node("function_statement_or_null", vec![item]));
    let f = b.function(kw, body);
    b.source_file(vec![f])
}

#[test]
fn binary_expression_spacing() {
    let input = "function int  f ( int a , int b ) ;\n    return(a+b* 2);\nendfunction";
    let expected = "function int f(int a, int b);\n    return a + b * 2;\nendfunction\n";
    let tree = binary_tree(input);
    assert_eq!(render(input, &tree).unwrap(), expected);
}

#[test]
fn wrap_at_81() {
    let input =
        "function int wrap_at_81(int long_parameter_name_a, int long_parameter_name_b___);\nendfunction\n";
    let expected = "function int wrap_at_81(\n    int long_parameter_name_a,\n    int long_parameter_name_b___\n);\nendfunction\n";
    let tree = simple_function(
        input,
        "wrap_at_81",
        &[(true, "long_parameter_name_a"), (true, "long_parameter_name_b___")],
    );
    assert_eq!(render(input, &tree).unwrap(), expected);
}

#[test]
fn dont_wrap_at_80() {
    let input =
        "function int dont_wrap_at_80(int parameter_a, int parameter_b, int parameter_c);\nendfunction\n";
    let expected =
        "function int dont_wrap_at_80(int parameter_a, int parameter_b, int parameter_c);\nendfunction\n";
    let tree = simple_function(
        input,
        "dont_wrap_at_80",
        &[(true, "parameter_a"), (true, "parameter_b"), (true, "parameter_c")],
    );
    assert_eq!(render(input, &tree).unwrap(), expected);
}

#[test]
fn one_more_column_wraps() {
    let input =
        "function int dont_wrap_at_80(int parameter_a, int parameter_b, int parameter_cc);\nendfunction\n";
    let expected = "function int dont_wrap_at_80(\n    int parameter_a,\n    int parameter_b,\n    int parameter_cc\n);\nendfunction\n";
    let tree = simple_function(
        input,
        "dont_wrap_at_80",
        &[(true, "parameter_a"), (true, "parameter_b"), (true, "parameter_cc")],
    );
    assert_eq!(render(input, &tree).unwrap(), expected);
}

#[test]
fn blank_line_separation() {
    let input = "function int f(int a);\nendfunction\nfunction int g(int a);\nendfunction\n";
    let expected = "function int f(int a);\nendfunction\n\nfunction int g(int a);\nendfunction\n";
    let mut b = Builder::new(input);
    let kw = b.leaf("function", "function");
    let header = b.header("f", &[(true, "a")]);
    let f = b.function(kw, header);
    let kw = b.leaf("function", "function");
    let header = b.header("g", &[(true, "a")]);
    let g = b.function(kw, header);
    let tree = b.source_file(vec![f, g]);
    assert_eq!(render(input, &tree).unwrap(), expected);
}

#[test]
fn item_separation() {
    let input = "function int f(a);\n\n    // Comment\n\n    a = 1;\n    a = 2;\n\n\n    // Comment\n    a = 3;\n\n    // Comment\n\nendfunction\n";
    let expected = "function int f(a);\n    // Comment\n\n    a = 1;\n    a = 2;\n\n    // Comment\n    a = 3;\n\n    // Comment\nendfunction\n";
    let mut b = Builder::new(input);
    let kw = b.leaf("function", "function");
    let mut body = b.header("f", &[(false, "a")]);
    body.push(b.comment("// Comment"));
    body.push(b.assignment("a", "=", "1"));
    body.push(b.assignment("a", "=", "2"));
    body.push(b.comment("// Comment"));
    body.push(b.assignment("a", "=", "3"));
    body.push(b.comment("// Comment"));
    let f = b.function(kw, body);
    let tree = b.source_file(vec![f]);
    assert_eq!(render(input, &tree).unwrap(), expected);
}

#[test]
fn blank_lines_collapse_to_one() {
    let input = "function int f(a);\na = 1;\n\n\na = 2;\nendfunction\n";
    let expected = "function int f(a);\n    a = 1;\n\n    a = 2;\nendfunction\n";
    let mut b = Builder::new(input);
    let kw = b.leaf("function", "function");
    let mut body = b.header("f", &[(false, "a")]);
    body.push(b.assignment("a", "=", "1"));
    body.push(b.assignment("a", "=", "2"));
    let f = b.function(kw, body);
    let tree = b.source_file(vec![f]);
    assert_eq!(render(input, &tree).unwrap(), expected);
}

#[test]
fn unknown_kind_renders_named_children() {
    let input = "x 7 ;";
    let mut b = Builder::new(input);
    let x = b.identifier("x");
    let seven = b.leaf("primary_literal", "7");
    let semi = b.leaf(";", ";");
    let mut odd = b.node("source_file", vec![x, seven, semi]);
    odd.kind_id = 9999;
    let tree = b.source_file(vec![odd]);
    assert_eq!(render(input, &tree).unwrap(), "x7");
}

#[test]
fn expression_with_two_children_is_a_mismatch() {
    let input = "function int f(a);\nreturn a b;\nendfunction\n";
    let mut b = Builder::new(input);
    let kw = b.leaf("function", "function");
    let mut body = b.header("f", &[(false, "a")]);
    let ret = b.leaf("return", "return");
    let a = b.primary("a");
    let bb = b.primary("b");
    let value = b.node("expression", vec![a, bb]);
    let position = value.start_position;
    let id = value.kind_id;
    let semi = b.leaf(";", ";");
    let jump = b.node("jump_statement", vec![ret, value, semi]);
    let item = b.node("statement_item", vec![jump]);
    body.push(b.node("function_statement_or_null", vec![item]));
    let f = b.function(kw, body);
    let tree = b.source_file(vec![f]);
    assert_eq!(render(input, &tree), Err(Error::InvalidCount { kind_id: id, position }));
    assert_eq!(position, Point { row: 1, column: 7 });
}

#[test]
fn function_without_keyword_is_invalid_kind() {
    let input = "task int f(a);\nendfunction\n";
    let mut b = Builder::new(input);
    let not_keyword = b.identifier("task");
    let header = b.header("f", &[(false, "a")]);
    let f = b.function(not_keyword, header);
    let position = f.start_position;
    let tree = b.source_file(vec![f]);
    let id = kind_id("function_declaration");
    assert_eq!(render(input, &tree), Err(Error::InvalidKind { kind_id: id, position }));
}

#[test]
fn function_with_three_children_is_invalid_count() {
    let input = "function int f(a);\nendfunction\n";
    let mut b = Builder::new(input);
    let kw = b.leaf("function", "function");
    let header = b.header("f", &[(false, "a")]);
    let end = b.leaf("endfunction", "endfunction");
    let body = b.node("function_body_declaration", header);
    let f = b.node("function_declaration", vec![kw, body, end]);
    let tree = b.source_file(vec![f]);
    let id = kind_id("function_declaration");
    assert_eq!(
        render(input, &tree),
        Err(Error::InvalidCount { kind_id: id, position: Point { row: 0, column: 0 } })
    );
}

#[test]
fn empty_jump_statement_is_a_tree_error() {
    let input = "";
    let b = Builder::new(input);
    let jump = b.node("jump_statement", Vec::new());
    let tree = b.source_file(vec![jump]);
    let id = kind_id("jump_statement");
    assert_eq!(
        render(input, &tree),
        Err(Error::TreeError { kind_id: id, position: Point { row: 0, column: 0 } })
    );
}

#[test]
fn language_error_keeps_message() {
    let e: Error = Error::from("bad grammar".to_string());
    assert_eq!(e, Error::LanguageError { message: "bad grammar".to_string() });
}

#[test]
fn argument_list_is_comma_separated() {
    let input = "(a,2 , b)";
    let mut b = Builder::new(input);
    let open = b.leaf("(", "(");
    let a = b.primary("a");
    let c1 = b.leaf(",", ",");
    let two = b.primary("2");
    let c2 = b.leaf(",", ",");
    let bb = b.primary("b");
    let close = b.leaf(")", ")");
    let args = b.node("list_of_arguments_parent", vec![open, a, c1, two, c2, bb, close]);
    let tree = b.source_file(vec![args]);
    assert_eq!(render(input, &tree).unwrap(), "(a, 2, b)");
}

#[test]
fn empty_class_is_balanced() {
    let input = "class c;\nendclass\n";
    let mut b = Builder::new(input);
    let kw = b.leaf("class", "class");
    let name = b.identifier("c");
    let id = b.node("class_identifier", vec![name]);
    let semi = b.leaf(";", ";");
    let end = b.leaf("endclass", "endclass");
    let class = b.node("class_declaration", vec![kw, id, semi, end]);
    let tree = b.source_file(vec![class]);
    assert_eq!(render(input, &tree).unwrap(), "class cendclass\n");
}

#[test]
fn formatting_twice_gives_the_same_text() {
    let input = "function int  f ( int a , int b ) ;\n    return(a+b* 2);\nendfunction";
    let tree = binary_tree(input);
    let first = render(input, &tree).unwrap();
    let second = render(input, &tree).unwrap();
    assert_eq!(first, second);
}

#[test]
fn debug_dump_lists_every_node() {
    let input = "x +";
    let mut b = Builder::new(input);
    let mut x = b.identifier("x");
    x.field_name = Some("left".to_string());
    let plus = b.leaf("+", "+");
    let tree = b.node("expression", vec![x, plus]);
    assert!(tree.is_well_formed(3));
    assert_eq!(
        debug(input, &tree),
        "expression\n    simple_identifier(left): 'x'\n    anonymous: '+'\n"
    );
}

#[test]
fn well_formedness_checks_spans() {
    let input = "abc";
    let mut b = Builder::new(input);
    let leaf = b.identifier("abc");
    let mut tree = b.source_file(vec![leaf]);
    assert!(tree.is_well_formed(3));
    assert!(!tree.is_well_formed(2));
    tree.children[0].end = 2;
    tree.children[0].start = 3;
    assert!(!tree.is_well_formed(3));
    assert!(tree.height_at_most(1));
    assert!(!tree.height_at_most(0));
}

#[test]
fn indentation_counts_toward_the_width() {
    let input =
        "class k;\nfunction int fits_at_top_level(int parameter_a, int parameter_b, int p_seven);\nendfunction\nendclass\n";
    let expected = "class k;\n    function int fits_at_top_level(\n        int parameter_a,\n        int parameter_b,\n        int p_seven\n    );\n    endfunction\nendclass\n";
    let mut b = Builder::new(input);
    let class_kw = b.leaf("class", "class");
    let name = b.identifier("k");
    let class_id = b.node("class_identifier", vec![name]);
    let semi = b.leaf(";", ";");
    let kw = b.leaf("function", "function");
    let header = b.header(
        "fits_at_top_level",
        &[(true, "parameter_a"), (true, "parameter_b"), (true, "p_seven")],
    );
    let f = b.function(kw, header);
    let method = b.node("class_method", vec![f]);
    let class_item = b.node("class_item", vec![method]);
    let end = b.leaf("endclass", "endclass");
    let class = b.node("class_declaration", vec![class_kw, class_id, semi, class_item, end]);
    let tree = b.source_file(vec![class]);
    let top_level = "function int fits_at_top_level(int parameter_a, int parameter_b, int p_seven);";
    assert_eq!(top_level.len(), 78);
    assert_eq!(render(input, &tree).unwrap(), expected);
}
