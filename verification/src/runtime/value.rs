use vstd::prelude::*;

verus! {

/// A runtime value. Numbers, timestamps and durations are IEEE-754 double
/// precision values held as their bit patterns.
#[derive(Debug, PartialEq)]
pub enum Value {
    Number(u64),
    Text(String),
    Bool(bool),
    List(Vec<Value>),
    Timestamp(u64),
    Duration(u64),
    /// A secret value that is redacted in display output.
    Secret(String),
    /// A field whose value is unknown (e.g. an external entity lost connectivity).
    Unknown,
}

/// What a value holds.
pub enum ValueView {
    Number(u64),
    Text(Seq<char>),
    Bool(bool),
    List(Seq<ValueView>),
    Timestamp(u64),
    Duration(u64),
    Secret(Seq<char>),
    Unknown,
}

pub open spec fn value_view(v: Value) -> ValueView
    decreases v, 0nat,
{
    match v {
        Value::Number(n) => ValueView::Number(n),
        Value::Text(s) => ValueView::Text(s@),
        Value::Bool(b) => ValueView::Bool(b),
        Value::List(items) => ValueView::List(list_view(items@)),
        Value::Timestamp(t) => ValueView::Timestamp(t),
        Value::Duration(d) => ValueView::Duration(d),
        Value::Secret(s) => ValueView::Secret(s@),
        Value::Unknown => ValueView::Unknown,
    }
}

pub open spec fn list_view(s: Seq<Value>) -> Seq<ValueView>
    decreases s, 1nat,
{
    if s.len() == 0 {
        Seq::empty()
    } else {
        list_view(s.drop_last()).push(value_view(s.last()))
    }
}

impl View for Value {
    type V = ValueView;

    open spec fn view(&self) -> ValueView {
        value_view(*self)
    }
}

/// A copy of a value.
#[verifier::loop_isolation(false)]
pub fn copy_value(v: &Value) -> (r: Value)
    ensures
        r@ == v@,
    decreases v,
{
    match v {
        Value::Number(n) => Value::Number(*n),
        Value::Text(s) => Value::Text(s.clone()),
        Value::Bool(b) => Value::Bool(*b),
        Value::List(items) => {
            proof {
                assert(decreases_to!(*v => *items));
            }
            let mut out: Vec<Value> = Vec::new();
            let n = items.len();
            let mut i: usize = 0;
            while i < n
                invariant
                    *v == Value::List(*items),
                    n == items@.len(),
                    i <= n,
                    list_view(out@) == list_view(items@.take(i as int)),
                decreases n - i,
            {
                let c = copy_value(&items[i]);
                let ghost before = out@;
                out.push(c);
                proof {
                    let t = items@.take(i + 1);
                    assert(t.drop_last() =~= items@.take(i as int));
                    assert(out@.drop_last() =~= before);
                }
                i += 1;
            }
            assert(items@.take(n as int) =~= items@);
            Value::List(out)
        },
        Value::Timestamp(t) => Value::Timestamp(*t),
        Value::Duration(d) => Value::Duration(*d),
        Value::Secret(s) => Value::Secret(s.clone()),
        Value::Unknown => Value::Unknown,
    }
}

impl Clone for Value {
    fn clone(&self) -> (r: Self)
        ensures
            r@ == self@,
    {
        copy_value(self)
    }
}

pub open spec fn type_label_spec(v: ValueView) -> Seq<char> {
    match v {
        ValueView::Number(_) => "Number"@,
        ValueView::Text(_) => "Text"@,
        ValueView::Bool(_) => "Boolean"@,
        ValueView::List(_) => "List"@,
        ValueView::Timestamp(_) => "Timestamp"@,
        ValueView::Duration(_) => "Duration"@,
        ValueView::Secret(_) => "Secret"@,
        ValueView::Unknown => "Unknown"@,
    }
}

/// The two values are of the same kind.
pub open spec fn same_kind(a: ValueView, b: ValueView) -> bool {
    match (a, b) {
        (ValueView::Number(_), ValueView::Number(_)) => true,
        (ValueView::Text(_), ValueView::Text(_)) => true,
        (ValueView::Bool(_), ValueView::Bool(_)) => true,
        (ValueView::List(_), ValueView::List(_)) => true,
        (ValueView::Timestamp(_), ValueView::Timestamp(_)) => true,
        (ValueView::Duration(_), ValueView::Duration(_)) => true,
        (ValueView::Secret(_), ValueView::Secret(_)) => true,
        (ValueView::Unknown, ValueView::Unknown) => true,
        _ => false,
    }
}

impl Value {
    pub fn type_label(&self) -> (s: &'static str)
        ensures
            s@ == type_label_spec(self@),
    {
        proof {
            reveal_strlit("Number");
            reveal_strlit("Text");
            reveal_strlit("Boolean");
            reveal_strlit("List");
            reveal_strlit("Timestamp");
            reveal_strlit("Duration");
            reveal_strlit("Secret");
            reveal_strlit("Unknown");
        }
        match self {
            Value::Number(_) => "Number",
            Value::Text(_) => "Text",
            Value::Bool(_) => "Boolean",
            Value::List(_) => "List",
            Value::Timestamp(_) => "Timestamp",
            Value::Duration(_) => "Duration",
            Value::Secret(_) => "Secret",
            Value::Unknown => "Unknown",
        }
    }

    /// The number's bit pattern, when the value is a number.
    pub fn as_number(&self) -> (r: Option<u64>)
        ensures
            r == match self@ {
                ValueView::Number(n) => Some(n),
                _ => None::<u64>,
            },
    {
        match self {
            Value::Number(n) => Some(*n),
            _ => None,
        }
    }

    pub fn as_bool(&self) -> (r: Option<bool>)
        ensures
            r == match self@ {
                ValueView::Bool(b) => Some(b),
                _ => None::<bool>,
            },
    {
        match self {
            Value::Bool(b) => Some(*b),
            _ => None,
        }
    }

    pub fn as_text(&self) -> (r: Option<&str>)
        ensures
            match self@ {
                ValueView::Text(t) => r matches Some(s) && s@ == t,
                _ => r is None,
            },
    {
        match self {
            Value::Text(s) => Some(s.as_str()),
            _ => None,
        }
    }

    pub fn as_list(&self) -> (r: Option<&Vec<Value>>)
        ensures
            match self@ {
                ValueView::List(l) => r matches Some(v) && list_view(v@) == l,
                _ => r is None,
            },
    {
        match self {
            Value::List(l) => Some(l),
            _ => None,
        }
    }

    pub fn is_unknown(&self) -> (b: bool)
        ensures
            b == (self@ is Unknown),
    {
        match self {
            Value::Unknown => true,
            _ => false,
        }
    }

    pub fn is_same_type(&self, other: &Value) -> (b: bool)
        ensures
            b == same_kind(self@, other@),
    {
        match (self, other) {
            (Value::Number(_), Value::Number(_)) => true,
            (Value::Text(_), Value::Text(_)) => true,
            (Value::Bool(_), Value::Bool(_)) => true,
            (Value::List(_), Value::List(_)) => true,
            (Value::Timestamp(_), Value::Timestamp(_)) => true,
            (Value::Duration(_), Value::Duration(_)) => true,
            (Value::Secret(_), Value::Secret(_)) => true,
            (Value::Unknown, Value::Unknown) => true,
            _ => false,
        }
    }
}

} // verus!
