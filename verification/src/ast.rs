//! Syntax tree of Glimmer-Weave programs.

use vstd::prelude::*;
use crate::source_location::SourceSpan;

verus! {

/// Borrow mode for parameters and types
#[derive(Debug, Clone, Copy, PartialEq, Eq, Structural)]
pub enum BorrowMode {
    /// Owned: Takes ownership (move semantics)
    Owned,
    /// Borrowed: Shared/immutable borrow (read-only access)
    Borrowed,
    /// BorrowedMut: Mutable borrow (exclusive write access)
    BorrowedMut,
}

impl Default for BorrowMode {
    fn default() -> (m: BorrowMode)
        ensures
            m == BorrowMode::Owned,
    {
        BorrowMode::Owned
    }
}

/// Lifetime annotation: how long a reference remains valid ('a, 'static)
#[derive(Debug, Clone, PartialEq, Eq, Hash, PartialOrd, Ord)]
pub struct Lifetime {
    pub name: String,
}

impl Lifetime {
    /// Create a new lifetime annotation
    pub fn new(name: &str) -> (l: Lifetime)
        ensures
            l.name@ == name@,
    {
        Lifetime { name: String::from_str(name) }
    }

    /// The 'static lifetime (valid for entire program duration)
    pub fn static_lifetime() -> (l: Lifetime)
        ensures
            l.name@ == "static"@,
    {
        Lifetime { name: String::from_str("static") }
    }
}

/// Type annotation in the AST (syntactic representation)
#[derive(Debug, PartialEq)]
pub enum TypeAnnotation {
    /// Simple type name: `Number`, `Text`, `Truth`
    Named(String),
    /// Generic type parameter: `T`, `U`
    Generic(String),
    /// Parametrized type: `Box<Number>`, `Pair<T, U>`
    Parametrized { name: String, type_args: Vec<TypeAnnotation> },
    /// List type: `List<Number>`
    List(Box<TypeAnnotation>),
    /// Map type: `Map`
    MapType,
    /// Function type: `Function<(Number, Text) -> Truth>`
    Function { param_types: Vec<TypeAnnotation>, return_type: Box<TypeAnnotation> },
    /// Optional/nullable type: `Number?`
    Optional(Box<TypeAnnotation>),
    /// Borrowed type: `borrow T`, `borrow mut T`, `borrow 'a T`
    Borrowed { lifetime: Option<Lifetime>, inner: Box<TypeAnnotation>, mutable: bool },
}

/// Function parameter with optional type annotation
#[derive(Debug, PartialEq)]
pub struct Parameter {
    pub name: String,
    pub typ: Option<TypeAnnotation>,
    /// If true, this parameter collects remaining arguments into a list
    pub is_variadic: bool,
    /// Ownership mode: Owned, Borrowed, or BorrowedMut
    pub borrow_mode: BorrowMode,
    /// Optional lifetime annotation for borrowed parameters
    pub lifetime: Option<Lifetime>,
}

/// Struct field definition
#[derive(Debug, PartialEq)]
pub struct StructField {
    pub name: String,
    pub typ: TypeAnnotation,
}

/// Enum variant case definition (`Red`, `Move(x: Number, y: Number)`)
#[derive(Debug, PartialEq)]
pub struct VariantCase {
    pub name: String,
    pub fields: Vec<Parameter>,
}

/// Trait method signature (a declaration without implementation)
#[derive(Debug, PartialEq)]
pub struct TraitMethod {
    pub name: String,
    pub params: Vec<Parameter>,
    pub return_type: Option<TypeAnnotation>,
}

impl Parameter {
    /// Create a parameter without type annotation
    pub fn untyped(name: String) -> (p: Parameter)
        ensures
            p == (Parameter { name, typ: None, is_variadic: false, borrow_mode: BorrowMode::Owned, lifetime: None }),
    {
        Parameter { name, typ: None, is_variadic: false, borrow_mode: BorrowMode::Owned, lifetime: None }
    }

    /// Create a parameter with type annotation
    pub fn typed(name: String, typ: TypeAnnotation) -> (p: Parameter)
        ensures
            p == (Parameter { name, typ: Some(typ), is_variadic: false, borrow_mode: BorrowMode::Owned, lifetime: None }),
    {
        Parameter { name, typ: Some(typ), is_variadic: false, borrow_mode: BorrowMode::Owned, lifetime: None }
    }

    /// Create a variadic parameter
    pub fn variadic(name: String, typ: Option<TypeAnnotation>) -> (p: Parameter)
        ensures
            p == (Parameter { name, typ, is_variadic: true, borrow_mode: BorrowMode::Owned, lifetime: None }),
    {
        Parameter { name, typ, is_variadic: true, borrow_mode: BorrowMode::Owned, lifetime: None }
    }

    /// Create an immutably borrowed parameter: `borrow x as T` or `borrow 'a x as T`
    pub fn borrowed(name: String, typ: TypeAnnotation, lifetime: Option<Lifetime>) -> (p: Parameter)
        ensures
            p == (Parameter { name, typ: Some(typ), is_variadic: false, borrow_mode: BorrowMode::Borrowed, lifetime }),
    {
        Parameter { name, typ: Some(typ), is_variadic: false, borrow_mode: BorrowMode::Borrowed, lifetime }
    }

    /// Create a mutably borrowed parameter: `borrow mut x as T` or `borrow 'a mut x as T`
    pub fn borrowed_mut(name: String, typ: TypeAnnotation, lifetime: Option<Lifetime>) -> (p: Parameter)
        ensures
            p == (Parameter { name, typ: Some(typ), is_variadic: false, borrow_mode: BorrowMode::BorrowedMut, lifetime }),
    {
        Parameter { name, typ: Some(typ), is_variadic: false, borrow_mode: BorrowMode::BorrowedMut, lifetime }
    }
}

/// A node in the Abstract Syntax Tree
#[derive(Debug, PartialEq)]
pub enum AstNode {
    // === Statements ===
    /// Immutable binding: `bind x to 42` or `bind x: Number to 42`
    BindStmt { name: String, typ: Option<TypeAnnotation>, value: Box<AstNode>, span: SourceSpan },
    /// Mutable variable: `weave counter as 0`
    WeaveStmt { name: String, typ: Option<TypeAnnotation>, value: Box<AstNode>, span: SourceSpan },
    /// Mutation: `set counter to 10`, `set list[i] to 5`, `set obj.field to "value"`
    SetStmt { target: Box<AstNode>, value: Box<AstNode>, span: SourceSpan },
    /// Conditional: `should x > 5 then ... otherwise ... end`
    IfStmt {
        condition: Box<AstNode>,
        then_branch: Vec<AstNode>,
        else_branch: Option<Vec<AstNode>>,
        span: SourceSpan,
    },
    /// Bounded loop: `for each x in list then ... end`
    ForStmt { variable: String, iterable: Box<AstNode>, body: Vec<AstNode>, span: SourceSpan },
    /// Unbounded loop: `whilst condition then ... end`
    WhileStmt { condition: Box<AstNode>, body: Vec<AstNode>, span: SourceSpan },
    /// Function definition: `chant greet(name) then ... end`
    ChantDef {
        name: String,
        type_params: Vec<String>,
        lifetime_params: Vec<Lifetime>,
        params: Vec<Parameter>,
        return_type: Option<TypeAnnotation>,
        body: Vec<AstNode>,
        span: SourceSpan,
    },
    /// Struct definition: `form Person with name as Text age as Number end`
    FormDef { name: String, type_params: Vec<String>, fields: Vec<StructField>, span: SourceSpan },
    /// Enum definition: `variant Color then Red, Green, Blue end`
    VariantDef { name: String, type_params: Vec<String>, variants: Vec<VariantCase>, span: SourceSpan },
    /// Trait definition: `aspect Display then chant show(self) -> Text end`
    AspectDef { name: String, type_params: Vec<String>, methods: Vec<TraitMethod>, span: SourceSpan },
    /// Trait implementation: `embody Display for Number then ... end`
    EmbodyStmt {
        aspect_name: String,
        type_args: Vec<TypeAnnotation>,
        target_type: TypeAnnotation,
        methods: Vec<AstNode>,
        span: SourceSpan,
    },
    /// Return statement: `yield result`
    YieldStmt { value: Box<AstNode>, span: SourceSpan },
    /// Pattern matching: `match x with when 1 then ... end`
    MatchStmt { value: Box<AstNode>, arms: Vec<MatchArm>, span: SourceSpan },
    /// Error handling: `attempt ... harmonize on Error then ... end`
    AttemptStmt { body: Vec<AstNode>, handlers: Vec<ErrorHandler>, span: SourceSpan },
    /// Capability request: `request VGA.write with justification "message"`
    RequestStmt { capability: Box<AstNode>, justification: String, span: SourceSpan },
    // === Module System ===
    /// Module declaration: `grove Math with body end`
    ModuleDecl { name: String, body: Vec<AstNode>, exports: Vec<String>, span: SourceSpan },
    /// Import statement: `summon Math from "std/math.gw"` or `gather sqrt, pow from Math`
    Import {
        module_name: String,
        path: String,
        items: Option<Vec<String>>,
        alias: Option<String>,
        span: SourceSpan,
    },
    /// Export statement: `offer sqrt, pow`
    Export { items: Vec<String>, span: SourceSpan },
    // === Expressions ===
    /// Numeric literal, kept as its source digits: `42`, `3.14`
    Number { value: String, span: SourceSpan },
    /// String literal: `"hello"`
    Text { value: String, span: SourceSpan },
    /// Boolean literal: `true`, `false`
    Truth { value: bool, span: SourceSpan },
    /// Null/void value: `nothing`
    Nothing { span: SourceSpan },
    /// Variable reference: `x`, `counter`
    Ident { name: String, span: SourceSpan },
    /// Triumph value: `Triumph(42)` (successful Outcome)
    Triumph { value: Box<AstNode>, span: SourceSpan },
    /// Mishap value: `Mishap("error")` (failed Outcome)
    Mishap { value: Box<AstNode>, span: SourceSpan },
    /// Present value: `Present(42)` (Maybe with value)
    Present { value: Box<AstNode>, span: SourceSpan },
    /// Absent value: `Absent` (Maybe without value)
    Absent { span: SourceSpan },
    /// List literal: `[1, 2, 3]`
    List { elements: Vec<AstNode>, span: SourceSpan },
    /// Map literal: `{name: "Elara", age: 42}`
    MapLiteral { entries: Vec<(String, AstNode)>, span: SourceSpan },
    /// Struct literal: `Person { name: "Alice", age: 30 }`
    StructLiteral {
        struct_name: String,
        type_args: Vec<TypeAnnotation>,
        fields: Vec<(String, AstNode)>,
        span: SourceSpan,
    },
    /// Binary operation: `x + y`, `a > b`
    BinaryOp { left: Box<AstNode>, op: BinaryOperator, right: Box<AstNode>, span: SourceSpan },
    /// Unary operation: `not x`, `-y`
    UnaryOp { op: UnaryOperator, operand: Box<AstNode>, span: SourceSpan },
    /// Borrow expression: `borrow x`, `borrow mut y`
    BorrowExpr { value: Box<AstNode>, mutable: bool, span: SourceSpan },
    /// Function call: `greet("Elara")`, `identity<Number>(42)`
    Call { callee: Box<AstNode>, type_args: Vec<TypeAnnotation>, args: Vec<AstNode>, span: SourceSpan },
    /// Field access: `person.name`, `VGA.write`
    FieldAccess { object: Box<AstNode>, field: String, span: SourceSpan },
    /// Module-qualified access: `Math.sqrt`
    ModuleAccess { module: String, member: String, span: SourceSpan },
    /// Index access: `list[0]`
    IndexAccess { object: Box<AstNode>, index: Box<AstNode>, span: SourceSpan },
    /// Range: `range(1, 10)`
    Range { start: Box<AstNode>, end: Box<AstNode>, span: SourceSpan },
    /// Pipeline: `x | filter by y > 5 | take 10`
    Pipeline { stages: Vec<AstNode>, span: SourceSpan },
    /// Query expression: `seek where essence is "Scroll"`
    SeekExpr { conditions: Vec<QueryCondition>, span: SourceSpan },
    /// Expression statement (for side effects)
    ExprStmt { expr: Box<AstNode>, span: SourceSpan },
    /// Block of statements
    Block { statements: Vec<AstNode>, span: SourceSpan },
    /// Break statement: exits innermost loop
    Break { span: SourceSpan },
    /// Continue statement: skip to next iteration of innermost loop
    Continue { span: SourceSpan },
    /// Try operator: `expr?` - propagates Mishap errors, unwraps Triumph
    Try { expr: Box<AstNode>, span: SourceSpan },
}

/// Whether a node is a statement (as opposed to an expression).
pub open spec fn spec_is_statement(n: &AstNode) -> bool {
    match n {
        AstNode::BindStmt { .. } | AstNode::WeaveStmt { .. } | AstNode::SetStmt { .. }
        | AstNode::IfStmt { .. } | AstNode::ForStmt { .. } | AstNode::WhileStmt { .. }
        | AstNode::ChantDef { .. } | AstNode::FormDef { .. } | AstNode::VariantDef { .. }
        | AstNode::AspectDef { .. } | AstNode::EmbodyStmt { .. } | AstNode::YieldStmt { .. }
        | AstNode::MatchStmt { .. } | AstNode::AttemptStmt { .. } | AstNode::RequestStmt { .. }
        | AstNode::ExprStmt { .. } => true,
        _ => false,
    }
}

impl AstNode {
    /// Check if this node is a statement
    pub fn is_statement(&self) -> (b: bool)
        ensures
            b == spec_is_statement(self),
    {
        match self {
            AstNode::BindStmt { .. } | AstNode::WeaveStmt { .. } | AstNode::SetStmt { .. }
            | AstNode::IfStmt { .. } | AstNode::ForStmt { .. } | AstNode::WhileStmt { .. }
            | AstNode::ChantDef { .. } | AstNode::FormDef { .. } | AstNode::VariantDef { .. }
            | AstNode::AspectDef { .. } | AstNode::EmbodyStmt { .. } | AstNode::YieldStmt { .. }
            | AstNode::MatchStmt { .. } | AstNode::AttemptStmt { .. } | AstNode::RequestStmt { .. }
            | AstNode::ExprStmt { .. } => true,
            _ => false,
        }
    }

    /// Check if this node is an expression
    pub fn is_expression(&self) -> (b: bool)
        ensures
            b == !spec_is_statement(self),
    {
        !self.is_statement()
    }
}

/// Binary operators
#[derive(Debug, Clone, Copy, PartialEq, Eq, Structural)]
pub enum BinaryOperator {
    Add,
    Sub,
    Mul,
    Div,
    Mod,
    Equal,
    NotEqual,
    Greater,
    Less,
    GreaterEq,
    LessEq,
    And,
    Or,
}

/// Binding strength of each operator (higher binds tighter).
pub open spec fn spec_precedence(op: BinaryOperator) -> u8 {
    match op {
        BinaryOperator::Or => 1,
        BinaryOperator::And => 2,
        BinaryOperator::Equal | BinaryOperator::NotEqual | BinaryOperator::Greater
        | BinaryOperator::Less | BinaryOperator::GreaterEq | BinaryOperator::LessEq => 3,
        BinaryOperator::Add | BinaryOperator::Sub => 4,
        BinaryOperator::Mul | BinaryOperator::Div | BinaryOperator::Mod => 5,
    }
}

impl BinaryOperator {
    /// Get the precedence of this operator (higher = tighter binding)
    pub fn precedence(&self) -> (p: u8)
        ensures
            p == spec_precedence(*self),
            1 <= p <= 5,
    {
        match self {
            BinaryOperator::Or => 1,
            BinaryOperator::And => 2,
            BinaryOperator::Equal
            | BinaryOperator::NotEqual
            | BinaryOperator::Greater
            | BinaryOperator::Less
            | BinaryOperator::GreaterEq
            | BinaryOperator::LessEq => 3,
            BinaryOperator::Add | BinaryOperator::Sub => 4,
            BinaryOperator::Mul | BinaryOperator::Div | BinaryOperator::Mod => 5,
        }
    }
}

/// Unary operators
#[derive(Debug, Clone, Copy, PartialEq, Eq, Structural)]
pub enum UnaryOperator {
    Not,
    Negate,
}

/// Match arm: `when pattern then body`
#[derive(Debug, PartialEq)]
pub struct MatchArm {
    pub pattern: Pattern,
    pub body: Vec<AstNode>,
}

/// Pattern for pattern matching
#[derive(Debug, PartialEq)]
pub enum Pattern {
    /// Literal pattern: `when 42 then ...`
    Literal(AstNode),
    /// Variable binding pattern: `when x then ...`
    Ident(String),
    /// Wildcard pattern: `otherwise`
    Wildcard,
    /// Enum pattern: `when Triumph(x) then ...` or `when Absent then ...`
    Enum { variant: String, inner: Option<Box<Pattern>> },
}

/// Error handler: `harmonize on ErrorType then ...`
#[derive(Debug, PartialEq)]
pub struct ErrorHandler {
    pub error_type: String,
    pub body: Vec<AstNode>,
}

/// Query condition for seek expressions
#[derive(Debug, PartialEq)]
pub struct QueryCondition {
    pub field: String,
    pub operator: QueryOperator,
    pub value: Box<AstNode>,
}

/// Query operators for World-Tree queries
#[derive(Debug, Clone, Copy, PartialEq, Eq, Structural)]
pub enum QueryOperator {
    Is,
    IsNot,
    Greater,
    Less,
    GreaterEq,
    LessEq,
    After,
    Before,
}

} // verus!
