//! The abstract syntax tree the parser builds: statements, expressions,
//! column definitions and raw values, together with their mathematical views
//! (the same shapes over `Seq<char>`).

use vstd::prelude::*;

verus! {

/// A raw literal value: digits kept as text, or a quoted string with the
/// delimiters stripped.
#[derive(Debug, PartialEq)]
pub enum Value {
    Number(String),
    Str(String),
}

/// Mathematical view of a [`Value`].
pub enum ValueV {
    Number(Seq<char>),
    Str(Seq<char>),
}

impl View for Value {
    type V = ValueV;

    open spec fn view(&self) -> ValueV {
        match self {
            Value::Number(s) => ValueV::Number(s@),
            Value::Str(s) => ValueV::Str(s@),
        }
    }
}

impl DeepView for Value {
    type V = ValueV;

    open spec fn deep_view(&self) -> ValueV {
        self.view()
    }
}

/// The binary operators of the expression sublanguage.
#[derive(Debug, Clone, Copy, PartialEq, Eq, Structural)]
pub enum BinaryOperator {
    Plus,
    Minus,
    Mul,
    Div,
    Eq,
    Neq,
    Gt,
    GtEq,
    Lt,
    LtEq,
    And,
    Or,
}

/// An expression tree. Grouping parentheses are resolved into tree shape
/// during parsing and are not represented as nodes.
#[derive(Debug, PartialEq)]
pub enum Expression {
    Identifier(String),
    Wildcard,
    Value(Value),
    BinaryOperation { left: Box<Expression>, operator: BinaryOperator, right: Box<Expression> },
}

/// Mathematical view of an [`Expression`].
pub enum ExpressionV {
    Identifier(Seq<char>),
    Wildcard,
    Value(ValueV),
    BinaryOperation { left: Box<ExpressionV>, operator: BinaryOperator, right: Box<ExpressionV> },
}

pub open spec fn expr_view(e: Expression) -> ExpressionV
    decreases e,
{
    match e {
        Expression::Identifier(s) => ExpressionV::Identifier(s@),
        Expression::Wildcard => ExpressionV::Wildcard,
        Expression::Value(v) => ExpressionV::Value(v@),
        Expression::BinaryOperation { left, operator, right } => ExpressionV::BinaryOperation {
            left: Box::new(expr_view(*left)),
            operator,
            right: Box::new(expr_view(*right)),
        },
    }
}

impl View for Expression {
    type V = ExpressionV;

    open spec fn view(&self) -> ExpressionV {
        expr_view(*self)
    }
}

impl DeepView for Expression {
    type V = ExpressionV;

    open spec fn deep_view(&self) -> ExpressionV {
        expr_view(*self)
    }
}

/// The type a `CREATE TABLE` column is declared with.
#[derive(Debug, Clone, Copy, PartialEq, Eq, Structural)]
pub enum DataType {
    Int,
    Varchar(usize),
}

/// The optional per-column restriction of a `CREATE TABLE` column.
#[derive(Debug, Clone, Copy, PartialEq, Eq, Structural)]
pub enum Constraint {
    PrimaryKey,
    Unique,
}

/// One column definition in a `CREATE TABLE` schema.
#[derive(Debug, PartialEq)]
pub struct Column {
    pub name: String,
    pub data_type: DataType,
    pub constraint: Option<Constraint>,
}

/// Mathematical view of a [`Column`].
pub struct ColumnV {
    pub name: Seq<char>,
    pub data_type: DataType,
    pub constraint: Option<Constraint>,
}

impl View for Column {
    type V = ColumnV;

    open spec fn view(&self) -> ColumnV {
        ColumnV { name: self.name@, data_type: self.data_type, constraint: self.constraint }
    }
}

impl DeepView for Column {
    type V = ColumnV;

    open spec fn deep_view(&self) -> ColumnV {
        self.view()
    }
}

/// What a `CREATE` statement creates.
#[derive(Debug, PartialEq)]
pub enum Create {
    Database(String),
    Table { name: String, columns: Vec<Column> },
}

/// Mathematical view of a [`Create`].
pub enum CreateV {
    Database(Seq<char>),
    Table { name: Seq<char>, columns: Seq<ColumnV> },
}

impl View for Create {
    type V = CreateV;

    open spec fn view(&self) -> CreateV {
        match self {
            Create::Database(s) => CreateV::Database(s@),
            Create::Table { name, columns } => CreateV::Table {
                name: name@,
                columns: columns.deep_view(),
            },
        }
    }
}

impl DeepView for Create {
    type V = CreateV;

    open spec fn deep_view(&self) -> CreateV {
        self.view()
    }
}

/// What a `DROP` statement removes.
#[derive(Debug, PartialEq)]
pub enum Drop {
    Database(String),
    Table(String),
}

/// Mathematical view of a [`Drop`].
pub enum DropV {
    Database(Seq<char>),
    Table(Seq<char>),
}

impl View for Drop {
    type V = DropV;

    open spec fn view(&self) -> DropV {
        match self {
            Drop::Database(s) => DropV::Database(s@),
            Drop::Table(s) => DropV::Table(s@),
        }
    }
}

impl DeepView for Drop {
    type V = DropV;

    open spec fn deep_view(&self) -> DropV {
        self.view()
    }
}

/// One parsed SQL statement.
#[derive(Debug, PartialEq)]
pub enum Statement {
    Select { columns: Vec<Expression>, from: String, where_clause: Option<Expression> },
    Create(Create),
    Update { table: String, columns: Vec<Expression>, where_clause: Option<Expression> },
    Insert { into: String, columns: Vec<String>, values: Vec<Expression> },
    Delete { from: String, where_clause: Option<Expression> },
    Drop(Drop),
}

/// Mathematical view of a [`Statement`].
pub enum StatementV {
    Select { columns: Seq<ExpressionV>, from: Seq<char>, where_clause: Option<ExpressionV> },
    Create(CreateV),
    Update { table: Seq<char>, columns: Seq<ExpressionV>, where_clause: Option<ExpressionV> },
    Insert { into: Seq<char>, columns: Seq<Seq<char>>, values: Seq<ExpressionV> },
    Delete { from: Seq<char>, where_clause: Option<ExpressionV> },
    Drop(DropV),
}

impl View for Statement {
    type V = StatementV;

    open spec fn view(&self) -> StatementV {
        match self {
            Statement::Select { columns, from, where_clause } => StatementV::Select {
                columns: columns.deep_view(),
                from: from@,
                where_clause: where_clause.deep_view(),
            },
            Statement::Create(c) => StatementV::Create(c@),
            Statement::Update { table, columns, where_clause } => StatementV::Update {
                table: table@,
                columns: columns.deep_view(),
                where_clause: where_clause.deep_view(),
            },
            Statement::Insert { into, columns, values } => StatementV::Insert {
                into: into@,
                columns: columns.deep_view(),
                values: values.deep_view(),
            },
            Statement::Delete { from, where_clause } => StatementV::Delete {
                from: from@,
                where_clause: where_clause.deep_view(),
            },
            Statement::Drop(d) => StatementV::Drop(d@),
        }
    }
}

impl DeepView for Statement {
    type V = StatementV;

    open spec fn deep_view(&self) -> StatementV {
        self.view()
    }
}

} // verus!
