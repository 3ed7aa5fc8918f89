//! Keyboard navigation order of the editable elements inside one row.

use vstd::prelude::*;

verus! {

/// One focusable element of a row, in left-to-right order.
#[derive(Clone, Copy, PartialEq, Eq, Structural, Debug)]
pub enum RowElement {
    Value,
    Label,
    InsertButton,
    RemoveButton,
}

/// The element to the left of `e`; the leftmost element is its own neighbour.
pub open spec fn spec_previous(e: RowElement) -> RowElement {
    match e {
        RowElement::Value => RowElement::Value,
        RowElement::Label => RowElement::Value,
        RowElement::InsertButton => RowElement::Label,
        RowElement::RemoveButton => RowElement::InsertButton,
    }
}

/// The element to the right of `e`; the rightmost element is its own neighbour.
pub open spec fn spec_next(e: RowElement) -> RowElement {
    match e {
        RowElement::Value => RowElement::Label,
        RowElement::Label => RowElement::InsertButton,
        RowElement::InsertButton => RowElement::RemoveButton,
        RowElement::RemoveButton => RowElement::RemoveButton,
    }
}

impl RowElement {
    pub fn previous(&self) -> (r: Self)
        ensures
            r == spec_previous(*self),
    {
        match self {
            RowElement::Value => RowElement::Value,
            RowElement::Label => RowElement::Value,
            RowElement::InsertButton => RowElement::Label,
            RowElement::RemoveButton => RowElement::InsertButton,
        }
    }

    pub fn next(&self) -> (r: Self)
        ensures
            r == spec_next(*self),
    {
        match self {
            RowElement::Value => RowElement::Label,
            RowElement::Label => RowElement::InsertButton,
            RowElement::InsertButton => RowElement::RemoveButton,
            RowElement::RemoveButton => RowElement::RemoveButton,
        }
    }
}

} // verus!
