//! Dynamically typed payloads.
//!
//! Everything a fiber keeps between calls, and everything that crosses a call
//! boundary, is a [`Value`]: a closed variant whose tag ([`ValueType`]) is the
//! run-time stand-in for a static type.
use vstd::prelude::*;
use vstd::std_specs::cmp::PartialEqSpecImpl;

verus! {

/// An opaque payload with an explicit type tag.
#[derive(Debug)]
pub enum Value {
    Unit,
    Bool(bool),
    Int(i64),
    Uint(u64),
    Text(String),
    List(Vec<Value>),
}

/// The tag of a [`Value`].
#[derive(Clone, Copy, Debug, PartialEq, Eq, Structural)]
pub enum ValueType {
    Unit,
    Bool,
    Int,
    Uint,
    Text,
    List,
}

/// The mathematical content of a [`Value`].
pub enum ValueView {
    Unit,
    Bool(bool),
    Int(int),
    Uint(nat),
    Text(Seq<char>),
    List(Seq<ValueView>),
}

impl ValueView {
    /// The tag of this content.
    pub open spec fn type_of(self) -> ValueType {
        match self {
            ValueView::Unit => ValueType::Unit,
            ValueView::Bool(_) => ValueType::Bool,
            ValueView::Int(_) => ValueType::Int,
            ValueView::Uint(_) => ValueType::Uint,
            ValueView::Text(_) => ValueType::Text,
            ValueView::List(_) => ValueType::List,
        }
    }
}

/// The contents of a sequence of values, element by element.
pub open spec fn views(items: Seq<Value>) -> Seq<ValueView>
    decreases items,
{
    if items.len() == 0 {
        Seq::empty()
    } else {
        views(items.drop_last()).push(items.last().view())
    }
}

impl View for Value {
    type V = ValueView;

    open spec fn view(&self) -> ValueView
        decreases self,
    {
        match self {
            Value::Unit => ValueView::Unit,
            Value::Bool(b) => ValueView::Bool(*b),
            Value::Int(i) => ValueView::Int(*i as int),
            Value::Uint(u) => ValueView::Uint(*u as nat),
            Value::Text(s) => ValueView::Text(s@),
            Value::List(items) => ValueView::List(views(items@)),
        }
    }
}

/// `views` maps position by position.
pub proof fn lemma_views(items: Seq<Value>)
    ensures
        views(items).len() == items.len(),
        forall|i: int| 0 <= i < items.len() ==> (#[trigger] views(items)[i]) == items[i]@,
    decreases items.len(),
{
    if items.len() > 0 {
        lemma_views(items.drop_last());
        assert(views(items) == views(items.drop_last()).push(items.last().view()));
    }
}

/// Compares two lists of values by content.
pub fn same_items(a: &Vec<Value>, b: &Vec<Value>) -> (same: bool)
    ensures
        same == (views(a@) == views(b@)),
    decreases a, 0nat,
{
    proof {
        lemma_views(a@);
        lemma_views(b@);
    }
    if a.len() != b.len() {
        return false;
    }
    let mut i: usize = 0;
    while i < a.len()
        invariant
            i <= a.len(),
            a.len() == b.len(),
            views(a@).len() == a.len(),
            views(b@).len() == a.len(),
            forall|j: int| 0 <= j < a.len() ==> (#[trigger] views(a@)[j]) == a[j]@,
            forall|j: int| 0 <= j < a.len() ==> (#[trigger] views(b@)[j]) == b[j]@,
            forall|j: int| 0 <= j < i ==> a[j]@ == b[j]@,
        decreases a.len() - i,
    {
        if !a[i].same(&b[i]) {
            assert(views(a@)[i as int] != views(b@)[i as int]);
            return false;
        }
        i += 1;
    }
    assert(views(a@) =~= views(b@));
    true
}

/// Copies a list of values.
pub fn clone_items(items: &Vec<Value>) -> (copy: Vec<Value>)
    ensures
        views(copy@) == views(items@),
    decreases items, 0nat,
{
    let mut copy: Vec<Value> = Vec::new();
    let mut i: usize = 0;
    while i < items.len()
        invariant
            i <= items.len(),
            copy.len() == i,
            forall|j: int| 0 <= j < i ==> copy[j]@ == items[j]@,
        decreases items.len() - i,
    {
        copy.push(items[i].clone());
        i += 1;
    }
    proof {
        lemma_views(copy@);
        lemma_views(items@);
        assert(views(copy@) =~= views(items@));
    }
    copy
}

impl Value {
    /// The tag of this value.
    pub fn type_of(&self) -> (tag: ValueType)
        ensures
            tag == self@.type_of(),
    {
        match self {
            Value::Unit => ValueType::Unit,
            Value::Bool(_) => ValueType::Bool,
            Value::Int(_) => ValueType::Int,
            Value::Uint(_) => ValueType::Uint,
            Value::Text(_) => ValueType::Text,
            Value::List(_) => ValueType::List,
        }
    }

    /// Whether two values have the same tag and the same content.
    pub fn same(&self, other: &Value) -> (same: bool)
        ensures
            same == (self@ == other@),
        decreases self, 1nat,
    {
        match self {
            Value::Unit => match other {
                Value::Unit => true,
                _ => false,
            },
            Value::Bool(a) => match other {
                Value::Bool(b) => *a == *b,
                _ => false,
            },
            Value::Int(a) => match other {
                Value::Int(b) => *a == *b,
                _ => false,
            },
            Value::Uint(a) => match other {
                Value::Uint(b) => *a == *b,
                _ => false,
            },
            Value::Text(a) => match other {
                Value::Text(b) => *a == *b,
                _ => false,
            },
            Value::List(a) => match other {
                Value::List(b) => same_items(a, b),
                _ => false,
            },
        }
    }
}

impl Clone for Value {
    fn clone(&self) -> (copy: Self)
        ensures
            copy@ == self@,
        decreases self, 1nat,
    {
        match self {
            Value::Unit => Value::Unit,
            Value::Bool(b) => Value::Bool(*b),
            Value::Int(i) => Value::Int(*i),
            Value::Uint(u) => Value::Uint(*u),
            Value::Text(s) => Value::Text(s.clone()),
            Value::List(items) => Value::List(clone_items(items)),
        }
    }
}

impl PartialEq for Value {
    fn eq(&self, other: &Value) -> (same: bool) {
        self.same(other)
    }
}

impl PartialEqSpecImpl for Value {
    open spec fn obeys_eq_spec() -> bool {
        true
    }

    open spec fn eq_spec(&self, other: &Value) -> bool {
        self@ == other@
    }
}

} // verus!
