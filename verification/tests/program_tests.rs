use ruby_syntax::ast::expressions::Expression;
use ruby_syntax::ast::node::{token_literal, Node};
use ruby_syntax::lexer::token::{Token, TokenType};
use ruby_syntax::lexer::Lexer;
use ruby_syntax::parser::Parser;
use ruby_syntax::program::Program;

#[test]
fn should_parse_assign_expressions() {
    let input = "x = 5;y = 10
            foobar = 838383;";
    let mut lexer = Lexer::new(input.to_string());
    let mut parser = Parser::new(&mut lexer);
    let (program, errors) = parser.parse_program();
    check_parser_errors(errors);

    assert_eq!(program.len(), 3);
    test_assign_expression(program.get(0).unwrap().clone(), "x".to_string());
    test_assign_expression(program.get(1).unwrap().clone(), "y".to_string());
    test_assign_expression(program.get(2).unwrap().clone(), "foobar".to_string());
}

#[test]
fn should_parse_return_expressions() {
    let input = "
            return 5;
            return 10
            return 993322
        ";

    let mut lexer = Lexer::new(input.to_string());
    let mut parser = Parser::new(&mut lexer);
    let (program, errors) = parser.parse_program();
    check_parser_errors(errors);

    assert_eq!(program.len(), 3);
    for i in 0..program.len() {
        let expr = program.get(i).unwrap();
        println!("Checking expression {:?}", expr);
        match expr {
            Expression::Return(token, _) => assert_eq!(token.literal, "return"),
            Expression::Assign(_, _, _) => panic!("expected Return, got Assign"),
            Expression::Value(_, _) => panic!("expected Return, got Value"),
            Expression::Identifier(_, _) => panic!("expected Return, got Identifier"),
        }
    }
}

#[test]
fn should_print_a_program() {
    let mut program = Program::new();
    let assign_expression = Expression::Assign(
        Token::new(TokenType::ASSIGN, "=".to_string()),
        Node::Identifier(
            Token::new(TokenType::IDENT, "my_var".to_string()),
            "my_var".to_string()
        ),
        Box::new(Expression::Value(
            Token::new(TokenType::IDENT, "another_var".to_string()),
            5
        ))

    );
    program.push(assign_expression);
    assert_eq!(program.to_s(), "my_var = another_var\n");
}

fn test_assign_expression(e: Expression, expected_name: String) {
    match e {
        Expression::Assign(_, identifier, _) => {
            match identifier {
                Node::Identifier(_, name) => assert_eq!(name, expected_name),
                _ => panic!("Right expression type, wrong Node type")
            }
        },
        Expression::Value(_, _) => panic!("expected Assign, got Value"),
        Expression::Return(_, _) => panic!("expected Assign, got Return"),
        Expression::Identifier(_, _) => panic!("expected Assign, got Identifier"),
    }
}

fn check_parser_errors(errors: Vec<String>) {
    if errors.len() == 0 { return; }

    println!("parser has {} errors", errors.len());
    for msg in errors.iter() {
        println!("- {}", msg);
    }
    panic!("end of parser errors");
}

fn name(text: &str) -> Node<'static> {
    Node::Identifier(Token::new(TokenType::IDENT, text.to_string()), text.to_string())
}

fn value(text: &str) -> Expression<'static> {
    Expression::Value(Token::new(TokenType::INT, text.to_string()), 0)
}

#[test]
fn an_empty_program_prints_nothing() {
    let program = Program::new();
    assert_eq!(program.len(), 0);
    assert!(program.get(0).is_none());
    assert_eq!(program.to_s(), "");
}

#[test]
fn a_program_keeps_the_order_of_its_expressions() {
    let mut program = Program::new();
    program.push(value("1"));
    program.push(Expression::Identifier(Token::new(TokenType::IDENT, "x".to_string()), name("x")));
    program.push(Expression::Return(
        Token::new(TokenType::RETURN, "return".to_string()),
        Box::new(value("3")),
    ));
    assert_eq!(program.len(), 3);
    assert_eq!(program.get(0).unwrap().token_literal(), "1");
    assert_eq!(program.get(1).unwrap().token_literal(), "x");
    assert_eq!(program.get(2).unwrap().token_literal(), "return");
    assert!(program.get(3).is_none());
    assert!(program.get(usize::MAX).is_none());
    assert_eq!(program.to_s(), "1xreturn 3\n");
}

#[test]
fn expressions_print_as_source_text() {
    assert_eq!(value("42").to_s(), "42");
    assert_eq!(
        Expression::Identifier(Token::new(TokenType::IDENT, "x".to_string()), name("x")).to_s(),
        "x"
    );
    assert_eq!(
        Expression::Return(
            Token::new(TokenType::RETURN, "return".to_string()),
            Box::new(value("7"))
        )
        .to_s(),
        "return 7\n"
    );
    let nested = Expression::Assign(
        Token::new(TokenType::ASSIGN, "=".to_string()),
        name("a"),
        Box::new(Expression::Assign(
            Token::new(TokenType::ASSIGN, "=".to_string()),
            name("b"),
            Box::new(value("1")),
        )),
    );
    assert_eq!(nested.to_s(), "a = b = 1\n\n");
}

#[test]
fn an_assignment_to_anything_but_a_name_prints_as_invalid() {
    let target = Node::NumberNode(Token::new(TokenType::INT, "1".to_string()));
    let e = Expression::Assign(
        Token::new(TokenType::ASSIGN, "=".to_string()),
        target,
        Box::new(value("2")),
    );
    assert_eq!(e.to_s(), "[INVALID ASSIGN EXPRESSION]");
}

#[test]
fn expressions_know_their_token_literal() {
    assert_eq!(value("42").token_literal(), "42");
    assert_eq!(
        Expression::Assign(
            Token::new(TokenType::ASSIGN, "=".to_string()),
            name("a"),
            Box::new(value("1"))
        )
        .token_literal(),
        "="
    );
    assert_eq!(
        Expression::Return(
            Token::new(TokenType::RETURN, "return".to_string()),
            Box::new(value("7"))
        )
        .token_literal(),
        "return"
    );
    assert_eq!(
        Expression::Identifier(Token::new(TokenType::IDENT, "x".to_string()), name("y"))
            .token_literal(),
        "x"
    );
}

#[test]
fn nodes_know_their_token_literal() {
    let left = name("a");
    let right = Node::NumberNode(Token::new(TokenType::INT, "12".to_string()));
    assert_eq!(token_literal(&left), "a");
    assert_eq!(token_literal(&right), "12");
    let sum = Node::BinOpNode(&left, &right, Token::new(TokenType::PLUS, "+".to_string()));
    assert_eq!(token_literal(&sum), "+");
    let copy = sum.clone();
    assert_eq!(format!("{:?}", copy), format!("{:?}", sum));
}

#[test]
fn a_parsed_program_prints_its_statements() {
    let mut lexer = Lexer::new("x = 5;y = 10\nreturn z;".to_string());
    let mut parser = Parser::new(&mut lexer);
    let (program, errors) = parser.parse_program();
    assert!(errors.is_empty());
    assert_eq!(program.to_s(), "x = 5\ny = 10\nreturn z\n");
}
