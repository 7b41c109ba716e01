use vstd::prelude::*;

use crate::plan::{DataType, Frame, OrderType};
use crate::window::WindowFuncKind;

verus! {

/// A reference to an input column.
#[derive(Debug, Clone, Copy, PartialEq, Eq, Hash, Structural)]
pub struct InputRef {
    pub index: usize,
    pub data_type: DataType,
}

/// A constant; `None` is null.
#[derive(Debug, Clone, Copy, PartialEq, Eq, Hash, Structural)]
pub struct Literal {
    pub value: Option<i64>,
    pub data_type: DataType,
}

/// A function applied to other expressions.
#[derive(Debug)]
pub struct FunctionCall {
    pub inputs: Vec<ExprImpl>,
    pub return_type: DataType,
}

/// An expression and the direction to sort by it.
#[derive(Debug)]
pub struct OrderByExpr {
    pub expr: ExprImpl,
    pub order_type: OrderType,
}

/// A window function call as a query writes it, over any expressions.
#[derive(Debug)]
pub struct WindowFunction {
    pub kind: WindowFuncKind,
    pub args: Vec<ExprImpl>,
    pub return_type: DataType,
    pub partition_by: Vec<ExprImpl>,
    pub order_by: Vec<OrderByExpr>,
    pub frame: Option<Frame>,
}

/// A scalar expression of a query.
#[derive(Debug)]
pub enum ExprImpl {
    InputRef(InputRef),
    Literal(Literal),
    FunctionCall(Box<FunctionCall>),
    WindowFunction(Box<WindowFunction>),
}

/// The expression holds a window function, at its top or inside a function call.
pub open spec fn has_window(e: ExprImpl) -> bool
    decreases e, 0nat,
{
    match e {
        ExprImpl::WindowFunction(_) => true,
        ExprImpl::FunctionCall(c) => inputs_have_window(c.inputs, c.inputs@.len()),
        _ => false,
    }
}

/// One of the first `n` expressions of `v` holds a window function.
pub open spec fn inputs_have_window(v: Vec<ExprImpl>, n: nat) -> bool
    decreases v, n,
{
    if n == 0 || n > v@.len() {
        false
    } else {
        inputs_have_window(v, (n - 1) as nat) || has_window(v@[n - 1])
    }
}

pub open spec fn return_type_of(e: ExprImpl) -> DataType {
    match e {
        ExprImpl::InputRef(r) => r.data_type,
        ExprImpl::Literal(l) => l.data_type,
        ExprImpl::FunctionCall(c) => c.return_type,
        ExprImpl::WindowFunction(w) => w.return_type,
    }
}

impl ExprImpl {
    pub fn return_type(&self) -> (r: DataType)
        ensures
            r == return_type_of(*self),
    {
        match self {
            ExprImpl::InputRef(r) => r.data_type,
            ExprImpl::Literal(l) => l.data_type,
            ExprImpl::FunctionCall(c) => c.return_type,
            ExprImpl::WindowFunction(w) => w.return_type,
        }
    }

    /// Whether the expression holds a window function.
    pub fn has_window_function(&self) -> (r: bool)
        ensures
            r == has_window(*self),
        decreases *self, 0nat,
    {
        match self {
            ExprImpl::WindowFunction(_) => true,
            ExprImpl::FunctionCall(c) => any_has_window(&c.inputs, c.inputs.len()),
            _ => false,
        }
    }
}

/// Whether one of the first `n` expressions of `v` holds a window function.
fn any_has_window(v: &Vec<ExprImpl>, n: usize) -> (r: bool)
    requires
        n <= v@.len(),
    ensures
        r == inputs_have_window(*v, n as nat),
    decreases *v, n,
{
    if n == 0 {
        false
    } else {
        any_has_window(v, n - 1) || v[n - 1].has_window_function()
    }
}

} // verus!
