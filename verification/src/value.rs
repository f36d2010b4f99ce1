use std::rc::Rc;
use vstd::prelude::*;
use vstd::string::StringExecFns;
use crate::runtime::{Method, MethodView};
use crate::text::{decimal, to_decimal};

verus! {

/// The kind of a runtime value.
#[derive(Debug, PartialEq, Eq, Structural, Clone, Copy)]
pub enum ExprResType {
    String,
    Number,
    Boolean,
    /// A name that has not been looked up yet.
    Identifier,
    Function,
    Nil,
}

/// A runtime value: its kind and, by kind, its text, its number, its truth
/// value or the function it holds.
#[derive(Debug)]
pub struct ExpressionRes {
    pub type_: ExprResType,
    pub str: String,
    pub number: isize,
    pub boolean: bool,
    pub method: Option<Rc<Method>>,
}

/// The mathematical value of a runtime value.
pub struct ValueView {
    pub type_: ExprResType,
    pub str: Seq<char>,
    pub number: int,
    pub boolean: bool,
    pub method: Option<MethodView>,
}

impl View for ExpressionRes {
    type V = ValueView;

    open spec fn view(&self) -> ValueView {
        ValueView {
            type_: self.type_,
            str: self.str@,
            number: self.number as int,
            boolean: self.boolean,
            method: match self.method {
                Some(m) => Some(m@),
                None => None,
            },
        }
    }
}

/// The views of a sequence of values.
pub open spec fn value_views(s: Seq<ExpressionRes>) -> Seq<ValueView> {
    s.map_values(|v: ExpressionRes| v@)
}

/// The string value with the text `s`.
pub open spec fn string_value(s: Seq<char>) -> ValueView {
    ValueView { type_: ExprResType::String, str: s, number: 0, boolean: false, method: None }
}

/// The number value `n`.
pub open spec fn number_value(n: int) -> ValueView {
    ValueView {
        type_: ExprResType::Number,
        str: Seq::empty(),
        number: n,
        boolean: false,
        method: None,
    }
}

/// The truth value `b`.
pub open spec fn bool_value(b: bool) -> ValueView {
    ValueView {
        type_: ExprResType::Boolean,
        str: Seq::empty(),
        number: 0,
        boolean: b,
        method: None,
    }
}

/// The reference to the name `s`.
pub open spec fn name_value(s: Seq<char>) -> ValueView {
    ValueView { type_: ExprResType::Identifier, str: s, number: 0, boolean: false, method: None }
}

/// The function value that holds `m`.
pub open spec fn function_value(m: MethodView) -> ValueView {
    ValueView {
        type_: ExprResType::Function,
        str: "fun"@ + m.name,
        number: 0,
        boolean: false,
        method: Some(m),
    }
}

/// The value nil.
pub open spec fn nil_value() -> ValueView {
    ValueView { type_: ExprResType::Nil, str: "nil"@, number: 0, boolean: false, method: None }
}

/// How a value is written by `print`: a string as itself, a number in
/// decimal, a truth value as `true` or `false`, nil as `nil`; a name or a
/// function by its text.
pub open spec fn printed(v: ValueView) -> Seq<char> {
    match v.type_ {
        ExprResType::String => v.str,
        ExprResType::Number => decimal(v.number),
        ExprResType::Boolean => if v.boolean {
            "true"@
        } else {
            "false"@
        },
        ExprResType::Nil => "nil"@,
        ExprResType::Identifier => v.str,
        ExprResType::Function => v.str,
    }
}

/// Calls `Rc::clone`. Trusted: the new handle points to the same method.
#[verifier::external_body]
pub(crate) fn share_method(m: &Rc<Method>) -> (r: Rc<Method>)
    ensures
        r == *m,
{
    Rc::clone(m)
}

impl Clone for ExpressionRes {
    /// A copy that shares the function, if the value holds one.
    fn clone(&self) -> (r: ExpressionRes)
        ensures
            r@ == self@,
    {
        ExpressionRes {
            type_: self.type_,
            str: self.str.clone(),
            number: self.number,
            boolean: self.boolean,
            method: match &self.method {
                Some(m) => Some(share_method(m)),
                None => None,
            },
        }
    }
}

impl ExpressionRes {
    /// A copy of the plain parts of `p`: the function it may hold is left
    /// behind.
    pub fn copy(p: &ExpressionRes) -> (r: ExpressionRes)
        ensures
            r@ == (ValueView { method: None, ..p@ }),
    {
        ExpressionRes {
            type_: p.type_,
            str: p.str.clone(),
            number: p.number,
            boolean: p.boolean,
            method: None,
        }
    }

    /// The string value with the text `str`.
    pub fn from_str(str: String) -> (r: ExpressionRes)
        ensures
            r@ == string_value(str@),
    {
        ExpressionRes {
            type_: ExprResType::String,
            str,
            number: 0,
            boolean: false,
            method: None,
        }
    }

    /// The number value `number`.
    pub fn from_number(number: isize) -> (r: ExpressionRes)
        ensures
            r@ == number_value(number as int),
    {
        ExpressionRes {
            type_: ExprResType::Number,
            str: String::new(),
            number,
            boolean: false,
            method: None,
        }
    }

    /// The truth value `boolean`.
    pub fn from_bool(boolean: bool) -> (r: ExpressionRes)
        ensures
            r@ == bool_value(boolean),
    {
        ExpressionRes {
            type_: ExprResType::Boolean,
            str: String::new(),
            number: 0,
            boolean,
            method: None,
        }
    }

    /// The reference to the name `str`, not looked up yet.
    pub fn from_variable(str: String) -> (r: ExpressionRes)
        ensures
            r@ == name_value(str@),
    {
        ExpressionRes {
            type_: ExprResType::Identifier,
            str,
            number: 0,
            boolean: false,
            method: None,
        }
    }

    /// The function value that holds `method`; its text is `fun` and the
    /// function's name.
    pub fn from_method(method: Method) -> (r: ExpressionRes)
        ensures
            r@ == function_value(method@),
    {
        let mut str = String::from_str("fun");
        str.append(method.name.as_str());
        ExpressionRes {
            type_: ExprResType::Function,
            str,
            number: 0,
            boolean: false,
            method: Some(Rc::new(method)),
        }
    }

    /// The value nil; its text is `nil`.
    pub fn from_none() -> (r: ExpressionRes)
        ensures
            r@ == nil_value(),
    {
        ExpressionRes {
            type_: ExprResType::Nil,
            str: String::from_str("nil"),
            number: 0,
            boolean: false,
            method: None,
        }
    }

    /// The parameter names of the function that the value holds; none if it
    /// holds no function.
    pub fn get_params(&self) -> (names: Vec<String>)
        ensures
            names@.map_values(|n: String| n@) == match self@.method {
                Some(m) => m.params,
                None => Seq::empty(),
            },
    {
        let mut names: Vec<String> = Vec::new();
        match &self.method {
            None => {
                assert(names@.map_values(|n: String| n@) =~= Seq::<Seq<char>>::empty());
            },
            Some(m) => {
                let mut i: usize = 0;
                while i < m.args.len()
                    invariant
                        i <= m.args.len(),
                        names@.len() == i,
                        forall|j: int| 0 <= j < i ==> (#[trigger] names@[j])@ == m.args@[j].str@,
                    decreases m.args.len() - i,
                {
                    names.push(m.args[i].str.clone());
                    i += 1;
                }
                assert(names@.map_values(|n: String| n@) =~= m@.params);
            },
        }
        names
    }

    /// The function that the value holds, if it holds one.
    pub fn get_method(&self) -> (m: Option<&Rc<Method>>)
        ensures
            match m {
                Some(r) => self.method == Some(*r),
                None => self.method is None,
            },
    {
        match &self.method {
            Some(m) => Some(m),
            None => None,
        }
    }

    /// Whether the two values are of the same kind.
    pub fn eq_type(&self, other: &ExpressionRes) -> (b: bool)
        ensures
            b == (self.type_ == other.type_),
    {
        self.type_ == other.type_
    }

    /// The text that `print` writes for the value.
    pub fn print(&self) -> (s: String)
        ensures
            s@ == printed(self@),
    {
        match self.type_ {
            ExprResType::String => self.str.clone(),
            ExprResType::Number => to_decimal(self.number),
            ExprResType::Boolean => if self.boolean {
                String::from_str("true")
            } else {
                String::from_str("false")
            },
            ExprResType::Nil => String::from_str("nil"),
            ExprResType::Identifier => self.str.clone(),
            ExprResType::Function => self.str.clone(),
        }
    }
}

} // verus!
