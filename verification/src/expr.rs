use vstd::prelude::*;
use vstd::string::*;
use vstd::slice::slice_subrange;

verus! {

/// A symbolic expression: a labelled leaf or an ordered list of expressions.
#[derive(Debug, PartialEq, Eq)]
pub enum Expr {
    Atom(String),
    List(Vec<Expr>),
}

impl View for Expr {
    type V = Expr;

    /// An expression is its own mathematical form.
    open spec fn view(&self) -> Expr {
        *self
    }
}

/// The texts of `items`, separated by single spaces.
pub open spec fn joined_text(items: Seq<Expr>) -> Seq<char>
    decreases items, 0nat,
{
    if items.len() == 0 {
        Seq::empty()
    } else if items.len() == 1 {
        items[0].text()
    } else {
        joined_text(items.drop_last()) + seq![' '] + items.last().text()
    }
}

/// The labels of the atoms in `items`, in the order in which they are read.
pub open spec fn labels_of(items: Seq<Expr>) -> Seq<Seq<char>>
    decreases items, 0nat,
{
    if items.len() == 0 {
        Seq::empty()
    } else {
        labels_of(items.drop_last()) + items.last().labels()
    }
}

/// The texts of a sequence of strings.
pub open spec fn texts_of(strings: Seq<String>) -> Seq<Seq<char>> {
    Seq::new(strings.len(), |i: int| strings[i]@)
}

impl Expr {
    /// The labels of the atoms in the expression, in the order in which
    /// they are read, each as often as it occurs.
    pub open spec fn labels(self) -> Seq<Seq<char>>
        decreases self, 1nat,
    {
        match self {
            Expr::Atom(label) => seq![label@],
            Expr::List(items) => labels_of(items@),
        }
    }

    /// The labels of the atoms in the expression: the texts that a layout
    /// of the expression measures.
    pub fn atom_labels(&self) -> (r: Vec<String>)
        ensures
            texts_of(r@) == self.labels(),
        decreases self,
    {
        let mut out: Vec<String> = Vec::new();
        match self {
            Expr::Atom(label) => {
                out.push(label.clone());
                assert(texts_of(out@) =~= seq![label@]);
            },
            Expr::List(children) => {
                let mut i: usize = 0;
                assert(texts_of(out@) =~= labels_of(children@.take(0)));
                while i < children.len()
                    invariant
                        0 <= i <= children.len(),
                        self is List,
                        self->List_0 == *children,
                        texts_of(out@) == labels_of(children@.take(i as int)),
                    decreases children.len() - i,
                {
                    let child = &children[i];
                    let mut part = child.atom_labels();
                    let ghost before = out@;
                    let ghost added = part@;
                    out.append(&mut part);
                    proof {
                        let next = children@.take(i + 1);
                        assert(next.drop_last() =~= children@.take(i as int));
                        assert(next.last() == children@[i as int]);
                        assert(texts_of(before + added) =~= texts_of(before) + texts_of(added));
                    }
                    i += 1;
                }
                proof {
                    assert(children@.take(i as int) =~= children@);
                }
            },
        }
        out
    }

    /// The elements of a list; an atom has none.
    pub open spec fn items(self) -> Seq<Expr> {
        match self {
            Expr::Atom(_) => Seq::empty(),
            Expr::List(items) => items@,
        }
    }

    /// The textual form: an atom's label, or the texts of a list's elements
    /// between parentheses, separated by single spaces.
    pub open spec fn text(self) -> Seq<char>
        decreases self, 1nat,
    {
        match self {
            Expr::Atom(label) => label@,
            Expr::List(items) => seq!['('] + joined_text(items@) + seq![')'],
        }
    }

    /// The first element of a list.
    pub fn car(&self) -> (r: Option<&Expr>)
        ensures
            match r {
                Some(head) => self is List && self.items().len() > 0 && *head == self.items()[0],
                None => !(self is List) || self.items().len() == 0,
            },
    {
        match self {
            Expr::Atom(_) => None,
            Expr::List(lst) => if lst.len() > 0 {
                Some(&lst[0])
            } else {
                None
            },
        }
    }

    /// What follows the first element of a list.
    pub fn cdr(&self) -> (r: Option<&[Expr]>)
        ensures
            match r {
                Some(tail) => self is List && self.items().len() > 0 && tail@ == self.items().skip(1),
                None => !(self is List) || self.items().len() == 0,
            },
    {
        match self {
            Expr::Atom(_) => None,
            Expr::List(lst) => if lst.len() > 0 {
                Some(slice_subrange(lst.as_slice(), 1, lst.len()))
            } else {
                None
            },
        }
    }

    /// All the elements of a list.
    pub fn lst(&self) -> (r: Option<&[Expr]>)
        ensures
            match r {
                Some(all) => self is List && all@ == self.items(),
                None => !(self is List),
            },
    {
        match self {
            Expr::Atom(_) => None,
            Expr::List(lst) => Some(lst.as_slice()),
        }
    }

    /// What follows the first element of a list that has one.
    pub fn cdr_unwrap(&self) -> (r: &[Expr])
        requires
            self is List,
            self.items().len() > 0,
        ensures
            r@ == self.items().skip(1),
    {
        match self.cdr() {
            Some(tail) => tail,
            None => {
                proof {
                    assert(false);
                }
                vstd::pervasive::unreached()
            },
        }
    }

    /// The label of an atom.
    pub fn sym(&self) -> (r: Option<&String>)
        ensures
            match r {
                Some(label) => *self == Expr::Atom(*label),
                None => self is List,
            },
    {
        if let Expr::Atom(sym) = self {
            Some(sym)
        } else {
            None
        }
    }

    /// The textual form of the expression.
    pub fn to_text(&self) -> (r: String)
        ensures
            r@ == self.text(),
        decreases self,
    {
        match self {
            Expr::Atom(label) => label.clone(),
            Expr::List(children) => {
                let mut acc = String::from_str("(");
                proof {
                    reveal_strlit("(");
                    reveal_strlit(" ");
                    reveal_strlit(")");
                    assert(acc@ =~= seq!['('] + joined_text(children@.take(0)));
                }
                let mut i: usize = 0;
                while i < children.len()
                    invariant
                        0 <= i <= children.len(),
                        self is List,
                        self->List_0 == *children,
                        acc@ == seq!['('] + joined_text(children@.take(i as int)),
                        " "@ == seq![' '],
                    decreases children.len() - i,
                {
                    if i != 0 {
                        acc.append(" ");
                    }
                    let child = &children[i];
                    let piece = child.to_text();
                    acc.append(piece.as_str());
                    proof {
                        let next = children@.take(i + 1);
                        assert(next.drop_last() =~= children@.take(i as int));
                        assert(next.last() == children@[i as int]);
                        assert(acc@ =~= seq!['('] + joined_text(next));
                    }
                    i += 1;
                }
                proof {
                    assert(children@.take(i as int) =~= children@);
                }
                acc.append(")");
                acc
            },
        }
    }
}

} // verus!
