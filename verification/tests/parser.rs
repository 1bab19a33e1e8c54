use sql_parser::parser::Parser;
use sql_parser::statement::{
    BinaryOperator, Column, Constraint, Create, DataType, Drop, Expression, Statement, Value,
};

#[test]
fn parse_simple_select() {
    let sql = "SELECT id, name FROM users;";

    let mut parser = Parser::new(sql);
    assert_eq!(
        parser.parse_statement(),
        Ok(Statement::Select {
            columns: vec![
                Expression::Identifier("id".into()),
                Expression::Identifier("name".into())
            ],
            from: "users".into(),
            where_clause: None
        })
    )
}

#[test]
fn parse_select_wildcard() {
    let sql = "SELECT * FROM users;";

    let mut parser = Parser::new(sql);
    assert_eq!(
        parser.parse_statement(),
        Ok(Statement::Select {
            columns: vec![Expression::Wildcard],
            from: "users".into(),
            where_clause: None
        })
    )
}

#[test]
fn parse_select_where() {
    let sql = "SELECT id, price, discount FROM products WHERE price >= 100;";

    let mut parser = Parser::new(sql);
    assert_eq!(
        parser.parse_statement(),
        Ok(Statement::Select {
            columns: vec![
                Expression::Identifier("id".into()),
                Expression::Identifier("price".into()),
                Expression::Identifier("discount".into())
            ],
            from: "products".into(),
            where_clause: Some(Expression::BinaryOperation {
                left: Box::new(Expression::Identifier("price".into())),
                operator: BinaryOperator::GtEq,
                right: Box::new(Expression::Value(Value::Number("100".into())))
            })
        })
    )
}

#[test]
fn parse_select_with_expressions() {
    let sql = r#"
        SELECT id, price, discount, price * discount / 100
        FROM products
        WHERE 100 <= price AND price < 1000 OR discount < 10 + (2 * 20);
    "#;

    let mut parser = Parser::new(sql);
    assert_eq!(
        parser.parse_statement(),
        Ok(Statement::Select {
            columns: vec![
                Expression::Identifier("id".into()),
                Expression::Identifier("price".into()),
                Expression::Identifier("discount".into()),
                Expression::BinaryOperation {
                    left: Box::new(Expression::BinaryOperation {
                        left: Box::new(Expression::Identifier("price".into())),
                        operator: BinaryOperator::Mul,
                        right: Box::new(Expression::Identifier("discount".into())),
                    }),
                    operator: BinaryOperator::Div,
                    right: Box::new(Expression::Value(Value::Number("100".into()))),
                }
            ],
            from: "products".into(),
            where_clause: Some(Expression::BinaryOperation {
                left: Box::new(Expression::BinaryOperation {
                    left: Box::new(Expression::BinaryOperation {
                        left: Box::new(Expression::Value(Value::Number("100".into()))),
                        operator: BinaryOperator::LtEq,
                        right: Box::new(Expression::Identifier("price".into())),
                    }),
                    operator: BinaryOperator::And,
                    right: Box::new(Expression::BinaryOperation {
                        left: Box::new(Expression::Identifier("price".into())),
                        operator: BinaryOperator::Lt,
                        right: Box::new(Expression::Value(Value::Number("1000".into()))),
                    }),
                }),
                operator: BinaryOperator::Or,
                right: Box::new(Expression::BinaryOperation {
                    left: Box::new(Expression::Identifier("discount".into())),
                    operator: BinaryOperator::Lt,
                    right: Box::new(Expression::BinaryOperation {
                        left: Box::new(Expression::Value(Value::Number("10".into()))),
                        operator: BinaryOperator::Plus,
                        right: Box::new(Expression::BinaryOperation {
                            left: Box::new(Expression::Value(Value::Number("2".into()))),
                            operator: BinaryOperator::Mul,
                            right: Box::new(Expression::Value(Value::Number("20".into()))),
                        })
                    }),
                })
            })
        })
    )
}

#[test]
fn parse_create_database() {
    let sql = "CREATE DATABASE test;";

    let mut parser = Parser::new(sql);
    assert_eq!(
        parser.parse_statement(),
        Ok(Statement::Create(Create::Database("test".into())))
    )
}

#[test]
fn parse_create_table() {
    let sql = r#"
        CREATE TABLE users (
            id INT PRIMARY KEY,
            name VARCHAR(255),
            email VARCHAR(255) UNIQUE
        );
    "#;

    let mut parser = Parser::new(sql);
    assert_eq!(
        parser.parse_statement(),
        Ok(Statement::Create(Create::Table {
            name: "users".into(),
            columns: vec![
                Column {
                    name: "id".into(),
                    data_type: DataType::Int,
                    constraint: Some(Constraint::PrimaryKey),
                },
                Column {
                    name: "name".into(),
                    data_type: DataType::Varchar(255),
                    constraint: None,
                },
                Column {
                    name: "email".into(),
                    data_type: DataType::Varchar(255),
                    constraint: Some(Constraint::Unique),
                },
            ]
        }))
    )
}

#[test]
fn parse_simple_update() {
    let sql = "UPDATE users SET is_admin = 1;";

    let mut parser = Parser::new(sql);
    assert_eq!(
        parser.parse_statement(),
        Ok(Statement::Update {
            table: "users".into(),
            columns: vec![Expression::BinaryOperation {
                left: Box::new(Expression::Identifier("is_admin".into())),
                operator: BinaryOperator::Eq,
                right: Box::new(Expression::Value(Value::Number("1".into()))),
            }],
            where_clause: None,
        })
    )
}

#[test]
fn parse_update_where() {
    let sql = r#"
        UPDATE products
        SET price = price - 10, discount = 15, stock = 10
        WHERE price > 100;
    "#;

    let mut parser = Parser::new(sql);
    assert_eq!(
        parser.parse_statement(),
        Ok(Statement::Update {
            table: "products".into(),
            columns: vec![
                Expression::BinaryOperation {
                    left: Box::new(Expression::Identifier("price".into())),
                    operator: BinaryOperator::Eq,
                    right: Box::new(Expression::BinaryOperation {
                        left: Box::new(Expression::Identifier("price".into())),
                        operator: BinaryOperator::Minus,
                        right: Box::new(Expression::Value(Value::Number("10".into()))),
                    }),
                },
                Expression::BinaryOperation {
                    left: Box::new(Expression::Identifier("discount".into())),
                    operator: BinaryOperator::Eq,
                    right: Box::new(Expression::Value(Value::Number("15".into()))),
                },
                Expression::BinaryOperation {
                    left: Box::new(Expression::Identifier("stock".into())),
                    operator: BinaryOperator::Eq,
                    right: Box::new(Expression::Value(Value::Number("10".into()))),
                }
            ],
            where_clause: Some(Expression::BinaryOperation {
                left: Box::new(Expression::Identifier("price".into())),
                operator: BinaryOperator::Gt,
                right: Box::new(Expression::Value(Value::Number("100".into()))),
            })
        })
    )
}

#[test]
fn parse_delete_from() {
    let sql = "DELETE FROM products;";

    let mut parser = Parser::new(sql);
    assert_eq!(
        parser.parse_statement(),
        Ok(Statement::Delete {
            from: "products".into(),
            where_clause: None
        })
    )
}

#[test]
fn parse_delete_from_where() {
    let sql = "DELETE FROM products WHERE price > 5000;";

    let mut parser = Parser::new(sql);
    assert_eq!(
        parser.parse_statement(),
        Ok(Statement::Delete {
            from: "products".into(),
            where_clause: Some(Expression::BinaryOperation {
                left: Box::new(Expression::Identifier("price".into())),
                operator: BinaryOperator::Gt,
                right: Box::new(Expression::Value(Value::Number("5000".into()))),
            })
        })
    )
}

#[test]
fn parse_insert_into() {
    let sql = r#"INSERT INTO users (id, name, email) VALUES (1, "Test", "test@test.com");"#;

    let mut parser = Parser::new(sql);
    assert_eq!(
        parser.parse_statement(),
        Ok(Statement::Insert {
            into: "users".into(),
            columns: vec!["id".into(), "name".into(), "email".into()],
            values: vec![
                Expression::Value(Value::Number("1".into())),
                Expression::Value(Value::Str("Test".into())),
                Expression::Value(Value::Str("test@test.com".into())),
            ]
        })
    );
}

#[test]
fn parse_drop_database() {
    let sql = "DROP DATABASE test;";

    let mut parser = Parser::new(sql);
    assert_eq!(
        parser.parse_statement(),
        Ok(Statement::Drop(Drop::Database("test".into())))
    )
}

#[test]
fn parse_drop_table() {
    let sql = "DROP TABLE test;";

    let mut parser = Parser::new(sql);
    assert_eq!(
        parser.parse_statement(),
        Ok(Statement::Drop(Drop::Table("test".into())))
    )
}

#[test]
fn parse_multiple_statements() {
    let sql = r#"
        DROP TABLE test;
        UPDATE users SET is_admin = 1;
        SELECT * FROM products;
    "#;

    let mut parser = Parser::new(sql);
    assert_eq!(
        parser.try_parse(),
        Ok(vec![
            Statement::Drop(Drop::Table("test".into())),
            Statement::Update {
                table: "users".into(),
                columns: vec![Expression::BinaryOperation {
                    left: Box::new(Expression::Identifier("is_admin".into())),
                    operator: BinaryOperator::Eq,
                    right: Box::new(Expression::Value(Value::Number("1".into()))),
                }],
                where_clause: None,
            },
            Statement::Select {
                columns: vec![Expression::Wildcard],
                from: "products".into(),
                where_clause: None,
            }
        ])
    )
}

#[test]
fn arithmetic_operator_precedence() {
    let expr = "price * discount / 100 < 10 + 20 * 30";

    let mut parser = Parser::new(expr);
    assert_eq!(
        parser.parse_expression(),
        Ok(Expression::BinaryOperation {
            left: Box::new(Expression::BinaryOperation {
                left: Box::new(Expression::BinaryOperation {
                    left: Box::new(Expression::Identifier("price".into())),
                    operator: BinaryOperator::Mul,
                    right: Box::new(Expression::Identifier("discount".into())),
                }),
                operator: BinaryOperator::Div,
                right: Box::new(Expression::Value(Value::Number("100".into()))),
            }),
            operator: BinaryOperator::Lt,
            right: Box::new(Expression::BinaryOperation {
                left: Box::new(Expression::Value(Value::Number("10".into()))),
                operator: BinaryOperator::Plus,
                right: Box::new(Expression::BinaryOperation {
                    left: Box::new(Expression::Value(Value::Number("20".into()))),
                    operator: BinaryOperator::Mul,
                    right: Box::new(Expression::Value(Value::Number("30".into()))),
                })
            })
        })
    )
}

#[test]
fn nested_arithmetic_precedence() {
    let expr = "price * discount >= 10 - (20 + 50) / (2 * (4 + (1 - 1)))";

    let mut parser = Parser::new(expr);
    assert_eq!(
        parser.parse_expression(),
        Ok(Expression::BinaryOperation {
            left: Box::new(Expression::BinaryOperation {
                left: Box::new(Expression::Identifier("price".into())),
                operator: BinaryOperator::Mul,
                right: Box::new(Expression::Identifier("discount".into())),
            }),
            operator: BinaryOperator::GtEq,
            right: Box::new(Expression::BinaryOperation {
                left: Box::new(Expression::Value(Value::Number("10".into()))),
                operator: BinaryOperator::Minus,
                right: Box::new(Expression::BinaryOperation {
                    left: Box::new(Expression::BinaryOperation {
                        left: Box::new(Expression::Value(Value::Number("20".into()))),
                        operator: BinaryOperator::Plus,
                        right: Box::new(Expression::Value(Value::Number("50".into()))),
                    }),
                    operator: BinaryOperator::Div,
                    right: Box::new(Expression::BinaryOperation {
                        left: Box::new(Expression::Value(Value::Number("2".into()))),
                        operator: BinaryOperator::Mul,
                        right: Box::new(Expression::BinaryOperation {
                            left: Box::new(Expression::Value(Value::Number("4".into()))),
                            operator: BinaryOperator::Plus,
                            right: Box::new(Expression::BinaryOperation {
                                left: Box::new(Expression::Value(Value::Number("1".into()))),
                                operator: BinaryOperator::Minus,
                                right: Box::new(Expression::Value(Value::Number("1".into()))),
                            })
                        })
                    })
                })
            })
        })
    )
}

#[test]
fn and_or_operators_precedence() {
    let expr = "100 <= price AND price <= 200 OR price > 1000";

    let mut parser = Parser::new(expr);
    assert_eq!(
        parser.parse_expression(),
        Ok(Expression::BinaryOperation {
            left: Box::new(Expression::BinaryOperation {
                left: Box::new(Expression::BinaryOperation {
                    left: Box::new(Expression::Value(Value::Number("100".into()))),
                    operator: BinaryOperator::LtEq,
                    right: Box::new(Expression::Identifier("price".into())),
                }),
                operator: BinaryOperator::And,
                right: Box::new(Expression::BinaryOperation {
                    left: Box::new(Expression::Identifier("price".into())),
                    operator: BinaryOperator::LtEq,
                    right: Box::new(Expression::Value(Value::Number("200".into()))),
                }),
            }),
            operator: BinaryOperator::Or,
            right: Box::new(Expression::BinaryOperation {
                left: Box::new(Expression::Identifier("price".into())),
                operator: BinaryOperator::Gt,
                right: Box::new(Expression::Value(Value::Number("1000".into()))),
            })
        })
    )
}
