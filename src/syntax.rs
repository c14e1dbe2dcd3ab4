//! The syntax tree that the formatter reads, and the classifier of node kinds.
use vstd::prelude::*;

use crate::buffer::INDENT_UNIT;

verus! {

/// A position in the source text.
#[derive(Clone, Copy, Debug, PartialEq, Eq, Structural)]
pub struct Point {
    pub row: usize,
    pub column: usize,
}

/// The kinds of syntax node that the formatter tells apart.
#[derive(Clone, Copy, Debug, PartialEq, Eq, Structural)]
pub enum Kind {
    ClassDeclaration,
    ClassIdentifier,
    ClassItem,
    Comment,
    Expression,
    FunctionBodyDeclaration,
    FunctionDataTypeOrImplicit1,
    FunctionDeclaration,
    FunctionIdentifier,
    FunctionStatementOrNull,
    IntegerAtomType,
    JumpStatement,
    ListOfArgumentsParent,
    OperatorAssignment,
    PrimaryLiteral,
    SimpleIdentifier,
    TfPortList,
    Unknown,
}

/// One node of a concrete syntax tree.
///
/// `start` and `end` delimit the node's text as character offsets into the source.
pub struct SyntaxNode {
    /// The grammar's numeric id of the node's kind.
    pub kind_id: u16,
    /// The grammar's name of the node's kind.
    pub kind_name: String,
    /// Whether the node stands for a grammar rule rather than a literal token.
    pub is_named: bool,
    /// The node's relation to its parent, if the grammar names one.
    pub field_name: Option<String>,
    pub start: usize,
    pub end: usize,
    pub start_position: Point,
    pub end_position: Point,
    /// All children in source order, punctuation tokens included.
    pub children: Vec<SyntaxNode>,
}

impl SyntaxNode {
    /// Number of levels below this node: zero for a leaf.
    pub open spec fn height(self) -> nat
        decreases self, 1nat, 0nat,
    {
        if self.children.len() == 0 {
            0
        } else {
            1 + self.max_child_height(self.children.len() as nat)
        }
    }

    /// The greatest height among the first `n` children.
    pub open spec fn max_child_height(self, n: nat) -> nat
        decreases self, 0nat, n,
    {
        if n == 0 || n > self.children.len() {
            0
        } else {
            let h = self.children@[n - 1].height();
            let m = self.max_child_height((n - 1) as nat);
            if h > m {
                h
            } else {
                m
            }
        }
    }

    /// Every node's text lies within a source of `len` characters.
    pub open spec fn spans_within(self, len: nat) -> bool
        decreases self,
    {
        &&& self.start <= self.end <= len
        &&& forall|i: int|
            0 <= i < self.children.len() ==> (#[trigger] self.children@[i]).spans_within(len)
    }

    /// The node's text lies within the source and its nesting leaves room for the
    /// indentation that rendering it may add.
    pub open spec fn well_formed(self, source_len: nat) -> bool {
        &&& self.spans_within(source_len)
        &&& INDENT_UNIT * self.height() <= usize::MAX
    }
}

pub proof fn lemma_child_height(node: SyntaxNode, i: int)
    requires
        0 <= i < node.children.len(),
    ensures
        node.children@[i].height() < node.height(),
        forall|len: nat| node.spans_within(len) ==> #[trigger] node.children@[i].spans_within(len),
{
    lemma_max_child_height(node, node.children.len() as nat, i);
}

proof fn lemma_max_child_height(node: SyntaxNode, n: nat, i: int)
    requires
        0 <= i < n <= node.children.len(),
    ensures
        node.children@[i].height() <= node.max_child_height(n),
    decreases n,
{
    if i < n - 1 {
        lemma_max_child_height(node, (n - 1) as nat, i);
    }
}

/// The greatest height among the first `n` children is at most `limit` exactly when each
/// of their heights is.
proof fn lemma_max_child_height_bound(node: SyntaxNode, n: nat, limit: nat)
    requires
        n <= node.children.len(),
    ensures
        node.max_child_height(n) <= limit <==> forall|i: int|
            0 <= i < n ==> (#[trigger] node.children@[i]).height() <= limit,
    decreases n,
{
    if n > 0 {
        lemma_max_child_height_bound(node, (n - 1) as nat, limit);
    }
}

impl SyntaxNode {
    /// Whether the node's height is at most `limit`.
    pub fn height_at_most(&self, limit: usize) -> (r: bool)
        ensures
            r == (self.height() <= limit),
        decreases self,
    {
        let n = self.children.len();
        if n == 0 {
            return true;
        }
        if limit == 0 {
            return false;
        }
        let mut i: usize = 0;
        while i < n
            invariant
                n == self.children.len(),
                i <= n,
                limit > 0,
                forall|j: int| 0 <= j < i ==> (#[trigger] self.children@[j]).height() <= limit - 1,
            decreases n - i,
        {
            if !self.children[i].height_at_most(limit - 1) {
                proof {
                    lemma_max_child_height_bound(*self, n as nat, (limit - 1) as nat);
                }
                return false;
            }
            i = i + 1;
        }
        proof {
            lemma_max_child_height_bound(*self, n as nat, (limit - 1) as nat);
        }
        true
    }

    /// Whether every node's text lies within a source of `len` characters.
    pub fn spans_fit(&self, len: usize) -> (r: bool)
        ensures
            r == self.spans_within(len as nat),
        decreases self,
    {
        if !(self.start <= self.end && self.end <= len) {
            return false;
        }
        let n = self.children.len();
        let mut i: usize = 0;
        while i < n
            invariant
                n == self.children.len(),
                i <= n,
                self.start <= self.end <= len,
                forall|j: int| 0 <= j < i ==> (#[trigger] self.children@[j]).spans_within(len as nat),
            decreases n - i,
        {
            if !self.children[i].spans_fit(len) {
                return false;
            }
            i = i + 1;
        }
        true
    }

    /// Whether the tree may be formatted against a source of `source_len` characters.
    pub fn is_well_formed(&self, source_len: usize) -> (r: bool)
        ensures
            r == self.well_formed(source_len as nat),
    {
        self.spans_fit(source_len) && self.height_at_most(usize::MAX / INDENT_UNIT)
    }
}

/// The kind that `table` gives to the raw id `id`: ids beyond the table are unknown.
pub open spec fn kind_in(table: Seq<Kind>, id: u16) -> Kind {
    if (id as int) < table.len() {
        table[id as int]
    } else {
        Kind::Unknown
    }
}

/// Maps raw node-kind ids to [`Kind`]s through a table indexed by id.
pub struct Classifier {
    kinds: Vec<Kind>,
}

impl View for Classifier {
    type V = Seq<Kind>;

    closed spec fn view(&self) -> Seq<Kind> {
        self.kinds@
    }
}

impl Classifier {
    /// A classifier whose table gives `kinds[id]` to each id below its length.
    pub fn new(kinds: Vec<Kind>) -> (r: Self)
        ensures
            r@ == kinds@,
    {
        Classifier { kinds }
    }

    /// The kind of raw id `id`.
    pub fn kind_of(&self, id: u16) -> (r: Kind)
        ensures
            r == kind_in(self@, id),
    {
        if (id as usize) < self.kinds.len() {
            self.kinds[id as usize]
        } else {
            Kind::Unknown
        }
    }
}

} // verus!
