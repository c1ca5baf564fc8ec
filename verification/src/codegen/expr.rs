//! What an expression is at code-generation time, and the code that
//! computes it.
use vstd::prelude::*;
use crate::ast::{BinaryOperator, Expr, ObjectProperty, Type, UnaryOperator, VarType};
use crate::codegen::vars::literal_element_vartype;
use crate::codegen::CodeGenerator;

verus! {

/// The author-facing name the `type` property gives a statically typed
/// variable.
pub open spec fn type_display_name(t: Type) -> Option<&'static str> {
    match t {
        Type::Integer => Some("Number"),
        Type::Float => Some("Float"),
        Type::Text => Some("Text"),
        Type::Boolean => Some("Boolean"),
        Type::List(_) => Some("List"),
        Type::Dict(_) => Some("Map"),
        Type::Buffer => Some("Buffer"),
        Type::File => Some("File"),
        Type::Time => Some("Time"),
        Type::Timer => Some("Timer"),
        _ => None,
    }
}

/// Operators that compute a number from their operands.
pub open spec fn arithmetic_operator(op: BinaryOperator) -> bool {
    op == BinaryOperator::Add || op == BinaryOperator::Subtract || op == BinaryOperator::Multiply
        || op == BinaryOperator::Divide || op == BinaryOperator::Modulo || op == BinaryOperator::BitAnd
        || op == BinaryOperator::BitOr || op == BinaryOperator::BitXor || op == BinaryOperator::ShiftLeft
        || op == BinaryOperator::ShiftRight
}

/// Operators whose result is a 0/1 truth value.
pub open spec fn truth_operator(op: BinaryOperator) -> bool {
    op == BinaryOperator::Equal || op == BinaryOperator::NotEqual || op == BinaryOperator::Greater
        || op == BinaryOperator::Less || op == BinaryOperator::GreaterEqual || op == BinaryOperator::LessEqual
        || op == BinaryOperator::And || op == BinaryOperator::Or
}

/// The five operators of ordinary arithmetic.
pub open spec fn plain_arithmetic(op: BinaryOperator) -> bool {
    op == BinaryOperator::Add || op == BinaryOperator::Subtract || op == BinaryOperator::Multiply
        || op == BinaryOperator::Divide || op == BinaryOperator::Modulo
}

/// Whether a list literal's elements are not all of one kind.
pub open spec fn literal_is_mixed(elements: Seq<Expr>) -> bool {
    exists|i: int| 0 <= i < elements.len() && literal_element_vartype(#[trigger] elements[i])
        != literal_element_vartype(elements[0])
}

pub fn type_property_display_name(t: &Type) -> (r: Option<&'static str>)
    ensures
        r == type_display_name(*t),
{
    match t {
        Type::Integer => Some("Number"),
        Type::Float => Some("Float"),
        Type::Text => Some("Text"),
        Type::Boolean => Some("Boolean"),
        Type::List(_) => Some("List"),
        Type::Dict(_) => Some("Map"),
        Type::Buffer => Some("Buffer"),
        Type::File => Some("File"),
        Type::Time => Some("Time"),
        Type::Timer => Some("Timer"),
        _ => None,
    }
}

fn op_is_truth(op: BinaryOperator) -> (r: bool)
    ensures
        r == truth_operator(op),
{
    match op {
        BinaryOperator::Equal | BinaryOperator::NotEqual | BinaryOperator::Greater | BinaryOperator::Less
        | BinaryOperator::GreaterEqual | BinaryOperator::LessEqual | BinaryOperator::And
        | BinaryOperator::Or => true,
        _ => false,
    }
}

fn op_is_plain_arithmetic(op: BinaryOperator) -> (r: bool)
    ensures
        r == plain_arithmetic(op),
{
    match op {
        BinaryOperator::Add | BinaryOperator::Subtract | BinaryOperator::Multiply | BinaryOperator::Divide
        | BinaryOperator::Modulo => true,
        _ => false,
    }
}

/// Whether a list literal's elements are not all of one kind.
pub fn list_literal_is_mixed(elements: &Vec<Expr>) -> (r: bool)
    ensures
        r == literal_is_mixed(elements@),
{
    if elements.len() == 0 {
        return false;
    }
    let first = crate::codegen::vars::list_literal_element_vartype(&elements[0]);
    let mut i: usize = 0;
    while i < elements.len()
        invariant
            0 < elements@.len(),
            i <= elements@.len(),
            first == literal_element_vartype(elements@[0]),
            forall|j: int| 0 <= j < i ==> literal_element_vartype(#[trigger] elements@[j]) == first,
        decreases elements@.len() - i,
    {
        if crate::codegen::vars::list_literal_element_vartype(&elements[i]) != first {
            return true;
        }
        i = i + 1;
    }
    false
}

impl CodeGenerator {
    /// The storage class codegen tracks for a name, if any.
    pub open spec fn tracked_type(&self, name: Seq<char>) -> Option<VarType> {
        if self.variable_types@.contains_key(name) {
            Some(self.variable_types@[name])
        } else {
            None
        }
    }

    /// The tracked element type of a list name, if any.
    pub open spec fn element_type(&self, name: Seq<char>) -> Option<VarType> {
        if self.list_element_types@.contains_key(name) {
            Some(self.list_element_types@[name])
        } else {
            None
        }
    }

    /// The declared return type of whatever a call to `name` reaches.
    pub open spec fn call_return(&self, name: Seq<char>) -> Option<VarType> {
        if self.function_return_types@.contains_key(self.call_target(name)) {
            Some(self.function_return_types@[self.call_target(name)])
        } else {
            None
        }
    }

    /// A bare name's type: the variable's, else a function of no parameters'.
    pub open spec fn name_type(&self, name: Seq<char>) -> Option<VarType> {
        match self.tracked_type(name) {
            Some(t) => Some(t),
            None => self.zero_arg_return(name),
        }
    }

    /// Whether a list expression reads per-slot runtime tags: a list the
    /// pre-scan proved heterogeneous, one whose elements are `value`s, or a
    /// literal whose elements are not all of one kind.
    pub open spec fn list_mixed(&self, list: Expr) -> bool {
        match list {
            Expr::Identifier(n) | Expr::StringLit(n) => self.mixed_lists@.contains(n@) || self.element_type(n@)
                == Some(VarType::Mixed),
            Expr::ListLit { elements } => literal_is_mixed(elements@),
            _ => false,
        }
    }

    /// Whether an expression's value is a float's bit pattern.
    pub open spec fn float_expr(&self, e: Expr) -> bool
        decreases e,
    {
        match e {
            Expr::FloatLit(_) => true,
            Expr::StringLit(_) => false,
            Expr::Identifier(name) => self.name_type(name@) == Some(VarType::Float),
            Expr::Cast { target_type, .. } => target_type == Type::Float,
            Expr::BinaryOp { left, op, right } => if truth_operator(op) {
                false
            } else {
                self.float_expr(*left) || self.float_expr(*right)
            },
            Expr::UnaryOp { op: UnaryOperator::Not, .. } => false,
            Expr::UnaryOp { operand, .. } => self.float_expr(*operand),
            Expr::FunctionCall { name, .. } => self.call_return(name@) == Some(VarType::Float),
            _ => false,
        }
    }

    /// The storage class an expression's value has, when codegen can name it.
    pub open spec fn inferred(&self, e: Expr) -> Option<VarType>
        decreases e,
    {
        match e {
            Expr::IntegerLit(_) => Some(VarType::Integer),
            Expr::FloatLit(_) => Some(VarType::Float),
            Expr::StringLit(_) => Some(VarType::Text),
            Expr::FormatString { .. } => Some(VarType::Text),
            Expr::BoolLit(_) => Some(VarType::Integer),
            Expr::ListLit { .. } => Some(VarType::List),
            Expr::MapLit { .. } => Some(VarType::Dict),
            Expr::TypeCheck { .. } => Some(VarType::Integer),
            Expr::ArgumentCount => Some(VarType::Integer),
            Expr::ArgumentAt { .. } | Expr::ArgumentName | Expr::ArgumentFirst | Expr::ArgumentSecond
            | Expr::ArgumentLast => Some(VarType::Text),
            Expr::ArgumentEmpty | Expr::ArgumentHas { .. } => Some(VarType::Integer),
            Expr::EnvironmentVariable { .. } | Expr::EnvironmentVariableAt { .. }
            | Expr::EnvironmentVariableFirst | Expr::EnvironmentVariableLast => Some(VarType::Text),
            Expr::EnvironmentVariableCount | Expr::EnvironmentVariableExists { .. }
            | Expr::EnvironmentVariableEmpty => Some(VarType::Integer),
            Expr::ArgumentAll | Expr::ArgumentRaw => Some(VarType::List),
            Expr::Identifier(name) => self.name_type(name@),
            Expr::FunctionCall { name, .. } => self.call_return(name@),
            Expr::PropertyAccess { object, property } => match property {
                ObjectProperty::Type => Some(VarType::Text),
                ObjectProperty::First | ObjectProperty::Last => if self.tracked_type(object@) == Some(
                    VarType::List,
                ) {
                    self.element_type(object@)
                } else {
                    Some(VarType::Integer)
                },
                ObjectProperty::Keys | ObjectProperty::Values => Some(VarType::List),
                _ => Some(VarType::Integer),
            },
            Expr::ElementAccess { list, .. } => match *list {
                Expr::Identifier(name) => match self.element_type(name@) {
                    Some(VarType::Unknown) | None => None,
                    Some(other) => Some(other),
                },
                Expr::PropertyAccess { property: ObjectProperty::Keys, .. } => Some(VarType::Text),
                Expr::PropertyAccess { property: ObjectProperty::Values, .. } => None,
                Expr::ListLit { elements } => if literal_is_mixed(elements@) {
                    None
                } else {
                    Some(VarType::Integer)
                },
                _ => Some(VarType::Integer),
            },
            Expr::MapAccess { .. } => None,
            Expr::BinaryOp { left, op, right } => if plain_arithmetic(op) && (self.float_expr(*left)
                || self.float_expr(*right)) {
                Some(VarType::Float)
            } else {
                Some(VarType::Integer)
            },
            Expr::UnaryOp { op: UnaryOperator::Not, .. } => Some(VarType::Integer),
            Expr::UnaryOp { operand, .. } => self.inferred(*operand),
            Expr::TreatingAs { value, .. } => self.inferred(*value),
            Expr::Cast { target_type, .. } => match target_type {
                Type::Integer => Some(VarType::Integer),
                Type::Float => Some(VarType::Float),
                Type::Text => Some(VarType::Text),
                Type::Boolean => Some(VarType::Integer),
                Type::Buffer => Some(VarType::Buffer),
                _ => Some(VarType::Integer),
            },
            _ => Some(VarType::Integer),
        }
    }

    /// Whether operands involve floats, for choosing comparison
    /// instructions.
    pub open spec fn float_operands(&self, e: Expr) -> bool
        decreases e,
    {
        match e {
            Expr::FloatLit(_) => true,
            Expr::StringLit(_) => false,
            Expr::Identifier(name) => self.tracked_type(name@) == Some(VarType::Float),
            Expr::Cast { target_type, .. } => target_type == Type::Float,
            Expr::BinaryOp { left, right, .. } => self.float_operands(*left) || self.float_operands(*right),
            Expr::UnaryOp { operand, .. } => self.float_operands(*operand),
            _ => false,
        }
    }

    fn lookup_type(&self, name: &str) -> (r: Option<VarType>)
        ensures
            r == self.tracked_type(name@),
    {
        match self.variable_types.get(name) {
            Some(t) => Some(*t),
            None => None,
        }
    }

    fn lookup_element_type(&self, name: &str) -> (r: Option<VarType>)
        ensures
            r == self.element_type(name@),
    {
        match self.list_element_types.get(name) {
            Some(t) => Some(*t),
            None => None,
        }
    }

    fn call_return_type(&self, name: &str) -> (r: Option<VarType>)
        ensures
            r == self.call_return(name@),
    {
        let label = self.resolved_call_label(name);
        match self.function_return_types.get(label.as_str()) {
            Some(t) => Some(*t),
            None => None,
        }
    }

    /// Whether a list expression reads per-slot runtime tags.
    pub fn list_expr_is_mixed(&self, list: &Expr) -> (r: bool)
        ensures
            r == self.list_mixed(*list),
    {
        match list {
            Expr::Identifier(n) | Expr::StringLit(n) => {
                self.mixed_lists.contains(n.as_str()) || self.lookup_element_type(n.as_str()) == Some(VarType::Mixed)
            },
            Expr::ListLit { elements } => list_literal_is_mixed(elements),
            _ => false,
        }
    }

    pub fn is_float_expr(&self, expr: &Expr) -> (r: bool)
        ensures
            r == self.float_expr(*expr),
        decreases expr,
    {
        match expr {
            Expr::FloatLit(_) => true,
            Expr::StringLit(_) => false,
            Expr::Identifier(name) => {
                let t = match self.lookup_type(name.as_str()) {
                    Some(t) => Some(t),
                    None => self.zero_arg_func_return_type(name.as_str()),
                };
                t == Some(VarType::Float)
            },
            Expr::Cast { target_type, .. } => match target_type {
                Type::Float => true,
                _ => false,
            },
            Expr::BinaryOp { left, op, right } => {
                if op_is_truth(*op) {
                    false
                } else {
                    self.is_float_expr(left) || self.is_float_expr(right)
                }
            },
            Expr::UnaryOp { op: UnaryOperator::Not, .. } => false,
            Expr::UnaryOp { operand, .. } => self.is_float_expr(operand),
            Expr::FunctionCall { name, .. } => self.call_return_type(name.as_str()) == Some(VarType::Float),
            _ => false,
        }
    }

    pub fn is_buffer_expr(&self, expr: &Expr) -> (r: bool)
        ensures
            r == (match *expr {
                Expr::Identifier(name) => self.tracked_type(name@) == Some(VarType::Buffer),
                _ => false,
            }),
    {
        match expr {
            Expr::StringLit(_) => false,
            Expr::Identifier(name) => self.lookup_type(name.as_str()) == Some(VarType::Buffer),
            _ => false,
        }
    }

    pub fn is_boolean_expr(&self, expr: &Expr) -> (r: bool)
        ensures
            r == (match *expr {
                Expr::BoolLit(_) => true,
                Expr::Identifier(name) => self.tracked_type(name@) == Some(VarType::Boolean),
                Expr::Cast { target_type, .. } => target_type == Type::Boolean,
                Expr::UnaryOp { op: UnaryOperator::Not, .. } => true,
                Expr::BinaryOp { op, .. } => truth_operator(op),
                _ => false,
            }),
    {
        match expr {
            Expr::BoolLit(_) => true,
            Expr::Identifier(name) => self.lookup_type(name.as_str()) == Some(VarType::Boolean),
            Expr::Cast { target_type, .. } => match target_type {
                Type::Boolean => true,
                _ => false,
            },
            Expr::UnaryOp { op: UnaryOperator::Not, .. } => true,
            Expr::BinaryOp { op, .. } => op_is_truth(*op),
            _ => false,
        }
    }

    pub fn has_float_operands(&self, expr: &Expr) -> (r: bool)
        ensures
            r == self.float_operands(*expr),
        decreases expr,
    {
        match expr {
            Expr::FloatLit(_) => true,
            Expr::StringLit(_) => false,
            Expr::Identifier(name) => self.lookup_type(name.as_str()) == Some(VarType::Float),
            Expr::Cast { target_type, .. } => match target_type {
                Type::Float => true,
                _ => false,
            },
            Expr::BinaryOp { left, right, .. } => self.has_float_operands(left) || self.has_float_operands(right),
            Expr::UnaryOp { operand, .. } => self.has_float_operands(operand),
            _ => false,
        }
    }

    pub fn is_arithmetic_operator(&self, op: &BinaryOperator) -> (r: bool)
        ensures
            r == arithmetic_operator(*op),
    {
        match op {
            BinaryOperator::Add | BinaryOperator::Subtract | BinaryOperator::Multiply | BinaryOperator::Divide
            | BinaryOperator::Modulo | BinaryOperator::BitAnd | BinaryOperator::BitOr | BinaryOperator::BitXor
            | BinaryOperator::ShiftLeft | BinaryOperator::ShiftRight => true,
            _ => false,
        }
    }

    /// The storage class an expression's value has, when codegen can name
    /// it.
    pub fn infer_expr_type(&self, expr: &Expr) -> (r: Option<VarType>)
        ensures
            r == self.inferred(*expr),
        decreases expr,
    {
        match expr {
            Expr::IntegerLit(_) => Some(VarType::Integer),
            Expr::FloatLit(_) => Some(VarType::Float),
            Expr::StringLit(_) => Some(VarType::Text),
            Expr::FormatString { .. } => Some(VarType::Text),
            Expr::BoolLit(_) => Some(VarType::Integer),
            Expr::ListLit { .. } => Some(VarType::List),
            Expr::MapLit { .. } => Some(VarType::Dict),
            Expr::TypeCheck { .. } => Some(VarType::Integer),
            Expr::ArgumentCount => Some(VarType::Integer),
            Expr::ArgumentAt { .. } | Expr::ArgumentName | Expr::ArgumentFirst | Expr::ArgumentSecond
            | Expr::ArgumentLast => Some(VarType::Text),
            Expr::ArgumentEmpty | Expr::ArgumentHas { .. } => Some(VarType::Integer),
            Expr::EnvironmentVariable { .. } | Expr::EnvironmentVariableAt { .. }
            | Expr::EnvironmentVariableFirst | Expr::EnvironmentVariableLast => Some(VarType::Text),
            Expr::EnvironmentVariableCount | Expr::EnvironmentVariableExists { .. }
            | Expr::EnvironmentVariableEmpty => Some(VarType::Integer),
            Expr::ArgumentAll | Expr::ArgumentRaw => Some(VarType::List),
            Expr::Identifier(name) => match self.lookup_type(name.as_str()) {
                Some(t) => Some(t),
                None => self.zero_arg_func_return_type(name.as_str()),
            },
            Expr::FunctionCall { name, .. } => self.call_return_type(name.as_str()),
            Expr::PropertyAccess { object, property } => match property {
                ObjectProperty::Type => Some(VarType::Text),
                ObjectProperty::First | ObjectProperty::Last => {
                    if self.lookup_type(object.as_str()) == Some(VarType::List) {
                        self.lookup_element_type(object.as_str())
                    } else {
                        Some(VarType::Integer)
                    }
                },
                ObjectProperty::Keys | ObjectProperty::Values => Some(VarType::List),
                _ => Some(VarType::Integer),
            },
            Expr::ElementAccess { list, .. } => match &**list {
                Expr::Identifier(name) => match self.lookup_element_type(name.as_str()) {
                    Some(VarType::Unknown) | None => None,
                    Some(other) => Some(other),
                },
                Expr::PropertyAccess { property: ObjectProperty::Keys, .. } => Some(VarType::Text),
                Expr::PropertyAccess { property: ObjectProperty::Values, .. } => None,
                Expr::ListLit { elements } => {
                    if list_literal_is_mixed(elements) {
                        None
                    } else {
                        Some(VarType::Integer)
                    }
                },
                _ => Some(VarType::Integer),
            },
            Expr::MapAccess { .. } => None,
            Expr::BinaryOp { left, op, right } => {
                if op_is_plain_arithmetic(*op) && (self.is_float_expr(left) || self.is_float_expr(right)) {
                    Some(VarType::Float)
                } else {
                    Some(VarType::Integer)
                }
            },
            Expr::UnaryOp { op: UnaryOperator::Not, .. } => Some(VarType::Integer),
            Expr::UnaryOp { operand, .. } => self.infer_expr_type(operand),
            Expr::TreatingAs { value, .. } => self.infer_expr_type(value),
            Expr::Cast { target_type, .. } => match target_type {
                Type::Integer => Some(VarType::Integer),
                Type::Float => Some(VarType::Float),
                Type::Text => Some(VarType::Text),
                Type::Boolean => Some(VarType::Integer),
                Type::Buffer => Some(VarType::Buffer),
                _ => Some(VarType::Integer),
            },
            _ => Some(VarType::Integer),
        }
    }

    /// Whether comparing this expression with `==` compares bytes.
    pub fn is_stringy_expr(&self, expr: &Expr) -> (r: bool)
        ensures
            r == (self.inferred(*expr) == Some(VarType::Text) || self.inferred(*expr) == Some(VarType::Buffer)),
    {
        let t = self.infer_expr_type(expr);
        t == Some(VarType::Text) || t == Some(VarType::Buffer)
    }

    /// Whether an expression's type is known and can never be a text.
    pub fn is_definitely_non_stringy_expr(&self, expr: &Expr) -> (r: bool)
        ensures
            r == match self.inferred(*expr) {
                Some(VarType::Integer) | Some(VarType::Float) | Some(VarType::Boolean) | Some(VarType::List)
                | Some(VarType::Dict) => true,
                _ => false,
            },
    {
        match self.infer_expr_type(expr) {
            Some(VarType::Integer) | Some(VarType::Float) | Some(VarType::Boolean) | Some(VarType::List)
            | Some(VarType::Dict) => true,
            _ => false,
        }
    }

    /// Whether an equality compares a text with something that never is one.
    pub fn is_stringy_type_mismatch(&self, left: &Expr, right: &Expr) -> (r: bool)
        ensures
            r == ((self.is_stringy(*left) && self.never_stringy(*right)) || (self.is_stringy(*right)
                && self.never_stringy(*left))),
    {
        (self.is_stringy_expr(left) && self.is_definitely_non_stringy_expr(right)) || (self.is_stringy_expr(
            right,
        ) && self.is_definitely_non_stringy_expr(left))
    }

    /// Whether an expression's value is a text or a buffer.
    pub open spec fn is_stringy(&self, e: Expr) -> bool {
        self.inferred(e) == Some(VarType::Text) || self.inferred(e) == Some(VarType::Buffer)
    }

    /// Whether an expression's type is known and can never be a text.
    pub open spec fn never_stringy(&self, e: Expr) -> bool {
        match self.inferred(e) {
            Some(VarType::Integer) | Some(VarType::Float) | Some(VarType::Boolean) | Some(VarType::List)
            | Some(VarType::Dict) => true,
            _ => false,
        }
    }

    /// Whether an expression is the `nothing` literal.
    pub fn is_nothing_expr(&self, expr: &Expr) -> (r: bool)
        ensures
            r == (*expr is NothingLit),
    {
        match expr {
            Expr::NothingLit => true,
            _ => false,
        }
    }
}

/// A text literal is text, whatever variable its characters happen to
/// spell.
pub proof fn law_string_literal_is_text(g: CodeGenerator, s: String)
    ensures
        g.inferred(Expr::StringLit(s)) == Some(VarType::Text),
        !g.float_expr(Expr::StringLit(s)),
{
}

/// `not` answers a truth value whatever it is applied to: never a float.
pub proof fn law_not_is_never_float(g: CodeGenerator, operand: Box<Expr>)
    ensures
        g.inferred(Expr::UnaryOp { op: UnaryOperator::Not, operand }) == Some(VarType::Integer),
        !g.float_expr(Expr::UnaryOp { op: UnaryOperator::Not, operand }),
{
}

} // verus!
