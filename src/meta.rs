use vstd::prelude::*;

verus! {

/// A primitive value form that can appear in an annotation.
#[derive(Clone, Debug, PartialEq)]
pub enum Literal {
    /// A string literal, holding its unescaped text.
    Str(String),
    /// An integer literal: its base-10 digits (with a leading `-` when negative), and its
    /// text as written in the source, in its own base and with any suffix.
    Int(String, String),
    /// A floating-point literal: its base-10 text, and its text as written in the source.
    Float(String, String),
    /// A boolean literal.
    Bool(bool),
    /// A bare identifier.
    Ident(String),
}

/// The mathematical model of a `Literal`.
pub enum LiteralV {
    Str(Seq<char>),
    Int(Seq<char>, Seq<char>),
    Float(Seq<char>, Seq<char>),
    Bool(bool),
    Ident(Seq<char>),
}

impl View for Literal {
    type V = LiteralV;

    open spec fn view(&self) -> LiteralV {
        match self {
            Literal::Str(s) => LiteralV::Str(s@),
            Literal::Int(s, t) => LiteralV::Int(s@, t@),
            Literal::Float(s, t) => LiteralV::Float(s@, t@),
            Literal::Bool(b) => LiteralV::Bool(*b),
            Literal::Ident(s) => LiteralV::Ident(s@),
        }
    }
}

impl Literal {
    /// A copy of this literal.
    pub fn copy(&self) -> (r: Literal)
        ensures
            r@ == self@,
    {
        match self {
            Literal::Str(s) => Literal::Str(s.clone()),
            Literal::Int(s, t) => Literal::Int(s.clone(), t.clone()),
            Literal::Float(s, t) => Literal::Float(s.clone(), t.clone()),
            Literal::Bool(b) => Literal::Bool(*b),
            Literal::Ident(s) => Literal::Ident(s.clone()),
        }
    }
}

/// One item of an annotation.
#[derive(Debug)]
pub enum MetaNode {
    /// A bare flag: `name`.
    Path(String),
    /// A pair: `name = literal`.
    NameValue(String, Literal),
    /// A group: `name(nested, ...)`.
    List(String, Vec<MetaNode>),
    /// A bare literal inside a group: `"text"`.
    Lit(Literal),
}

/// The mathematical model of a `MetaNode`.
pub enum NodeV {
    Path(Seq<char>),
    NameValue(Seq<char>, LiteralV),
    List(Seq<char>, Seq<NodeV>),
    Lit(LiteralV),
}

/// The models of a sequence of nodes, element by element.
pub open spec fn nodes_view(ns: Seq<MetaNode>) -> Seq<NodeV> {
    Seq::new(ns.len(), |i: int| ns[i].view_node())
}

impl MetaNode {
    /// The mathematical model of this node.
    pub open spec fn view_node(&self) -> NodeV
        decreases self,
    {
        match self {
            MetaNode::Path(n) => NodeV::Path(n@),
            MetaNode::NameValue(n, l) => NodeV::NameValue(n@, l@),
            MetaNode::List(n, ch) => NodeV::List(
                n@,
                Seq::new(
                    ch.len() as nat,
                    |i: int|
                        if 0 <= i < ch.len() {
                            ch[i].view_node()
                        } else {
                            NodeV::Path(Seq::empty())
                        },
                ),
            ),
            MetaNode::Lit(l) => NodeV::Lit(l@),
        }
    }
}

impl MetaNode {
    /// The name of this node; a bare literal has none.
    pub open spec fn name_of(n: NodeV) -> Option<Seq<char>> {
        match n {
            NodeV::Path(k) => Some(k),
            NodeV::NameValue(k, _) => Some(k),
            NodeV::List(k, _) => Some(k),
            NodeV::Lit(_) => None,
        }
    }

    /// A deep copy of this node.
    pub fn copy(&self) -> (r: MetaNode)
        ensures
            r.view_node() == self.view_node(),
        decreases self,
    {
        match self {
            MetaNode::Path(n) => MetaNode::Path(n.clone()),
            MetaNode::NameValue(n, l) => MetaNode::NameValue(n.clone(), l.copy()),
            MetaNode::Lit(l) => MetaNode::Lit(l.copy()),
            MetaNode::List(n, ch) => {
                let out = copy_nodes(ch);
                let r = MetaNode::List(n.clone(), out);
                assert(r.view_node() =~= self.view_node()) by {
                    assert(nodes_view(out@) == nodes_view(ch@));
                    if let NodeV::List(_, a) = r.view_node() {
                        if let NodeV::List(_, b) = self.view_node() {
                            assert(a =~= b) by {
                                assert forall|j: int| 0 <= j < a.len() implies a[j] == b[j] by {
                                    assert(nodes_view(out@)[j] == nodes_view(ch@)[j]);
                                }
                            }
                        }
                    }
                }
                r
            },
        }
    }
}

/// A deep copy of a sequence of nodes.
pub fn copy_nodes(ns: &Vec<MetaNode>) -> (r: Vec<MetaNode>)
    ensures
        nodes_view(r@) == nodes_view(ns@),
    decreases ns,
{
    let mut out: Vec<MetaNode> = Vec::new();
    let mut i: usize = 0;
    while i < ns.len()
        invariant
            0 <= i <= ns.len(),
            out@.len() == i,
            forall|j: int| 0 <= j < i ==> (#[trigger] out@[j]).view_node() == ns@[j].view_node(),
        decreases ns.len() - i,
    {
        assert(decreases_to!(ns => ns[i as int]));
        out.push(ns[i].copy());
        i += 1;
    }
    assert(nodes_view(out@) =~= nodes_view(ns@));
    out
}

} // verus!
