//! The syntax tree that the reader builds.

use vstd::prelude::*;

verus! {

/// A syntax tree. A list is a chain of `Cons` cells that ends in `Nil`; each
/// cell owns its head and its tail.
#[derive(Debug, PartialEq, Eq)]
pub enum SExp {
    Cons(Box<SExp>, Box<SExp>),
    Nil,
    Symbol(String),
    String(String),
    Integer(isize),
}

/// The mathematical value of an [`SExp`].
pub enum SExpView {
    Cons(Box<SExpView>, Box<SExpView>),
    Nil,
    Symbol(Seq<char>),
    String(Seq<char>),
    Integer(int),
}

impl SExp {
    /// The tree, with every text as a sequence of characters.
    pub open spec fn model(&self) -> SExpView
        decreases self,
    {
        match self {
            SExp::Cons(head, tail) => SExpView::Cons(
                Box::new(head.model()),
                Box::new(tail.model()),
            ),
            SExp::Nil => SExpView::Nil,
            SExp::Symbol(text) => SExpView::Symbol(text@),
            SExp::String(text) => SExpView::String(text@),
            SExp::Integer(value) => SExpView::Integer(*value as int),
        }
    }
}

impl View for SExp {
    type V = SExpView;

    open spec fn view(&self) -> SExpView {
        self.model()
    }
}

impl SExpView {
    /// The chain of `Cons` cells that holds `items` in order and ends in `Nil`.
    pub open spec fn list(items: Seq<SExpView>) -> SExpView
        decreases items.len(),
    {
        if items.len() == 0 {
            SExpView::Nil
        } else {
            SExpView::Cons(Box::new(items[0]), Box::new(Self::list(items.drop_first())))
        }
    }

    /// Whether the tree is a chain of `Cons` cells that ends in `Nil`.
    pub open spec fn is_list(self) -> bool
        decreases self,
    {
        match self {
            SExpView::Nil => true,
            SExpView::Cons(_, tail) => tail.is_list(),
            _ => false,
        }
    }

    /// The heads along the chain of `Cons` cells, in order.
    pub open spec fn items(self) -> Seq<SExpView>
        decreases self,
    {
        match self {
            SExpView::Cons(head, tail) => seq![*head] + tail.items(),
            _ => Seq::empty(),
        }
    }
}

/// A chain built from `items` is a list that holds exactly `items`, in order.
pub proof fn lemma_list_holds_its_items(items: Seq<SExpView>)
    ensures
        SExpView::list(items).is_list(),
        SExpView::list(items).items() == items,
        SExpView::list(items).items().len() == items.len(),
    decreases items.len(),
{
    if items.len() > 0 {
        lemma_list_holds_its_items(items.drop_first());
    }
}

} // verus!
