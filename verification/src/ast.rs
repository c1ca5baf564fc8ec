//! The program tree the analyzer checks and the code generator lowers.
use vstd::prelude::*;

verus! {

/// A declared type, as the author wrote it.
pub enum Type {
    Integer,
    Float,
    Text,
    Boolean,
    Buffer,
    /// A list; the element type is `Unknown` unless an interface spelled it.
    List(Box<Type>),
    /// A map from text keys; the value type is `Unknown` unless spelled.
    Dict(Box<Type>),
    File,
    Time,
    Timer,
    /// The dynamic type: a payload that carries its own runtime tag.
    Value,
    Void,
    Unknown,
    /// A user-defined record type, by name.
    Thing(String),
}

impl Type {
    /// A copy of the type.
    pub fn copy(&self) -> (r: Type)
        ensures
            r == *self,
        decreases self,
    {
        match self {
            Type::Integer => Type::Integer,
            Type::Float => Type::Float,
            Type::Text => Type::Text,
            Type::Boolean => Type::Boolean,
            Type::Buffer => Type::Buffer,
            Type::List(inner) => Type::List(Box::new(inner.copy())),
            Type::Dict(inner) => Type::Dict(Box::new(inner.copy())),
            Type::File => Type::File,
            Type::Time => Type::Time,
            Type::Timer => Type::Timer,
            Type::Value => Type::Value,
            Type::Void => Type::Void,
            Type::Unknown => Type::Unknown,
            Type::Thing(name) => Type::Thing(name.clone()),
        }
    }
}

/// A list of named, typed parameters, copied.
pub fn copy_params(params: &Vec<(String, Type)>) -> (r: Vec<(String, Type)>)
    ensures
        r@.len() == params@.len(),
        forall|i: int|
            0 <= i < params@.len() ==> (#[trigger] r@[i]).0@ == params@[i].0@ && r@[i].1
                == params@[i].1,
{
    let mut r: Vec<(String, Type)> = Vec::new();
    let mut i: usize = 0;
    while i < params.len()
        invariant
            i <= params@.len(),
            r@.len() == i,
            forall|j: int|
                0 <= j < i ==> (#[trigger] r@[j]).0@ == params@[j].0@ && r@[j].1 == params@[j].1,
        decreases params@.len() - i,
    {
        r.push((params[i].0.clone(), params[i].1.copy()));
        i = i + 1;
    }
    r
}

/// The storage class codegen gives a slot.
#[derive(PartialEq, Eq, Structural, Clone, Copy, Debug)]
pub enum VarType {
    Integer,
    Float,
    Text,
    Boolean,
    Buffer,
    List,
    Dict,
    /// A `value`: the payload's type is its runtime tag.
    Mixed,
    Unknown,
}

#[derive(PartialEq, Eq, Structural, Clone, Copy, Debug)]
pub enum BinaryOperator {
    Add,
    Subtract,
    Multiply,
    Divide,
    Modulo,
    Equal,
    NotEqual,
    Greater,
    Less,
    GreaterEqual,
    LessEqual,
    And,
    Or,
    BitAnd,
    BitOr,
    BitXor,
    ShiftLeft,
    ShiftRight,
}

#[derive(PartialEq, Eq, Structural, Clone, Copy, Debug)]
pub enum UnaryOperator {
    Negate,
    Not,
}

/// A number property test: `x is even`, `x is empty`, ...
#[derive(PartialEq, Eq, Structural, Clone, Copy, Debug)]
pub enum Property {
    Even,
    Odd,
    Zero,
    Positive,
    Negative,
    Empty,
}

/// A `'s` property read: `xs's first`, `t's hour`, ...
#[derive(PartialEq, Eq, Structural, Clone, Copy, Debug)]
pub enum ObjectProperty {
    Type,
    Size,
    Capacity,
    Empty,
    Full,
    First,
    Last,
    Keys,
    Values,
    Hour,
    Minute,
    Second,
    Day,
    Month,
    Year,
    Unix,
}

/// The value type a command-line flag is declared with.
#[derive(PartialEq, Eq, Structural, Clone, Copy, Debug)]
pub enum FlagValueType {
    Boolean,
    Number,
    Text,
}

/// A float literal: its IEEE-754 bit pattern and its spelling in the source.
pub struct FloatLiteral {
    pub bits: u64,
    pub text: String,
}

/// One piece of a format string.
pub enum FormatPart {
    Literal(String),
    /// `{name}` or `{name:SPEC}`.
    Variable { name: String, format: Option<String> },
    /// `{expression}` or `{expression:SPEC}`.
    Expression { expr: Box<Expr>, format: Option<String> },
}

pub enum Expr {
    IntegerLit(i64),
    FloatLit(FloatLiteral),
    StringLit(String),
    BoolLit(bool),
    NothingLit,
    Identifier(String),
    FormatString { parts: Vec<FormatPart> },
    ListLit { elements: Vec<Expr> },
    MapLit { pairs: Vec<(Expr, Expr)> },
    Range { start: Box<Expr>, end: Box<Expr> },
    PropertyCheck { value: Box<Expr>, property: Property },
    TypeCheck { value: Box<Expr>, type_noun: Type },
    /// `value as a <type>`; a whole number read from text in `radix`.
    Cast { value: Box<Expr>, target_type: Type, radix: u32 },
    UnaryOp { op: UnaryOperator, operand: Box<Expr> },
    BinaryOp { left: Box<Expr>, op: BinaryOperator, right: Box<Expr> },
    FunctionCall { name: String, args: Vec<Expr> },
    PropertyAccess { object: String, property: ObjectProperty },
    ElementAccess { list: Box<Expr>, index: Box<Expr> },
    ListAccess { list: Box<Expr>, index: Box<Expr> },
    MapAccess { map: Box<Expr>, key: Box<Expr> },
    ByteAccess { buffer: Box<Expr>, index: Box<Expr> },
    TreatingAs { value: Box<Expr>, match_value: Box<Expr>, replacement: Box<Expr> },
    FileAvailable { path: Box<Expr> },
    LastError,
    ArgumentCount,
    ArgumentName,
    ArgumentFirst,
    ArgumentSecond,
    ArgumentLast,
    ArgumentAt { index: Box<Expr> },
    ArgumentEmpty,
    ArgumentHas { value: Box<Expr> },
    ArgumentAll,
    ArgumentRaw,
    EnvironmentVariable { name: Box<Expr> },
    EnvironmentVariableCount,
    EnvironmentVariableAt { index: Box<Expr> },
    EnvironmentVariableExists { name: Box<Expr> },
    EnvironmentVariableFirst,
    EnvironmentVariableLast,
    EnvironmentVariableEmpty,
    CurrentTime,
    Fork,
    ReapChild { pid: Option<Box<Expr>>, no_hang: bool },
    ReapedStatus,
}

/// A place in the source text.
pub struct SourceLocation {
    pub file: String,
    pub line: usize,
    pub column: usize,
}

impl SourceLocation {
    pub fn copy(&self) -> (r: SourceLocation)
        ensures
            r.file@ == self.file@,
            r.line == self.line,
            r.column == self.column,
    {
        SourceLocation { file: self.file.clone(), line: self.line, column: self.column }
    }
}

pub enum Statement {
    Print { value: Expr },
    VarDecl { name: String, var_type: Option<Type>, value: Option<Expr> },
    FlagSchemaDecl { name: String, value_type: FlagValueType, default: Option<Expr> },
    ParseFlags,
    Assignment { name: String, value: Expr },
    ValueRetype { name: String, target_type: Type },
    If {
        condition: Expr,
        then_block: Vec<Statement>,
        else_if_blocks: Vec<(Expr, Vec<Statement>)>,
        else_block: Option<Vec<Statement>>,
    },
    While { condition: Expr, body: Vec<Statement> },
    ForRange { variable: String, range: Expr, body: Vec<Statement> },
    ForEach { variable: String, collection: Expr, body: Vec<Statement> },
    Repeat { count: Expr, body: Vec<Statement> },
    Return { value: Option<Expr> },
    Allocate { name: String, size: Expr },
    Free { name: String },
    FunctionCall { name: String, args: Vec<Expr> },
    FunctionDef {
        name: String,
        params: Vec<(String, Type)>,
        return_type: Type,
        body: Vec<Statement>,
        /// Where a blank line closed the body early, if one did.
        body_ended_early: Option<SourceLocation>,
        /// Where a body-level `Return` closed the body early, if one did.
        body_ended_via_return: Option<SourceLocation>,
    },
    Increment { name: String },
    Decrement { name: String },
    Break,
    Continue,
    BufferDecl { name: String, size: Expr },
    ByteSet { buffer: String, index: Expr, value: Expr },
    ElementSet { list: String, index: Expr, value: Expr },
    MapSet { map: String, key: Expr, value: Expr },
    ListAppend { list: String, value: Expr },
    BufferCopy { source: Expr, destination: String },
    BufferClear { name: String },
    FileOpen { name: String, path: Expr },
    FileRead { buffer: String },
    FileReadLine { buffer: String },
    FileSeekLine { file: String, line: Expr },
    FileSeekByte { file: String, byte: Expr },
    FileWrite { file: String, value: Expr },
    FileWriteNewline { file: String },
    FileClose { file: String },
    FileDelete { path: Expr },
    Rmdir { path: Expr },
    Mkdir { path: Expr },
    Chdir { path: Expr },
    Mount { source: Expr, target: Expr, fstype: Expr, options: Option<Expr> },
    Unmount { target: Expr },
    Shutdown,
    Reboot,
    Halt,
    PivotRoot { new_root: Expr, put_old: Expr },
    Execute { path: Expr, args: Expr },
    SendSignal { signal: Expr, pid: Expr },
    Symlink { target: Expr, linkpath: Expr },
    Mknod { path: Expr, major: Expr, minor: Expr },
    OnError { actions: Vec<Statement> },
    BufferResize { name: String, new_size: Expr },
    LibraryDecl { name: String, version: String },
    See,
    ThingDecl { name: String },
    Exit { code: Expr },
    TimerDecl { name: String },
    TimerStart { name: String },
    TimerStop { name: String },
    Wait { duration: Expr },
    GetTime { into: String },
}

/// A parsed program, with the runtime pieces analysis found it needs.
pub struct Program {
    pub statements: Vec<Statement>,
    pub uses_io: bool,
    pub uses_heap: bool,
    pub uses_strings: bool,
    pub uses_args: bool,
}

/// A function another library exports, named by a `see ... from` line.
pub struct ImportedFunction {
    /// The name the author calls it by.
    pub name: String,
    pub lib: String,
    pub version: String,
    /// The `<lib>_<ver>_<func>` symbol it is reached through.
    pub mangled: String,
    pub params: Vec<(String, Type)>,
    pub return_type: Type,
}

/// One exported function of a library interface.
pub struct LibFunction {
    pub name: String,
    pub params: Vec<(String, Type)>,
    pub return_type: Type,
}

/// The exported functions of one `<library, version>` identity.
pub struct LibBlock {
    pub lib: String,
    pub version: String,
    pub funcs: Vec<LibFunction>,
}

} // verus!
