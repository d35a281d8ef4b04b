use ruby_syntax::ast::expressions::Expression;
use ruby_syntax::ast::node::Node;
use ruby_syntax::lexer::token::TokenType;
use ruby_syntax::lexer::Lexer;
use ruby_syntax::parser::Parser;

fn parse(input: &str) -> (Vec<String>, Vec<String>) {
    let mut lexer = Lexer::new(input.to_string());
    let mut parser = Parser::new(&mut lexer);
    let (program, errors) = parser.parse_program();
    let mut shapes = Vec::new();
    for i in 0..program.len() {
        shapes.push(format!("{:?}", program.get(i).unwrap()));
    }
    (shapes, errors)
}

fn kinds_left(parser: &mut Parser) -> Vec<TokenType> {
    let mut kinds = vec![parser.current().token_type];
    while let Some(token) = parser.advance() {
        kinds.push(token.token_type);
    }
    kinds
}

#[test]
fn should_initialize_with_eof_when_lexer_is_empty() {
    let mut lexer = Lexer::new("".to_string());
    let parser = Parser::new(&mut lexer);
    assert_eq!(parser.current().token_type, TokenType::EOF);
    assert!(parser.peek().is_none());
}

#[test]
fn should_initialize_with_an_ident_and_eof_token() {
    let mut lexer = Lexer::new("foo".to_string());
    let parser = Parser::new(&mut lexer);
    assert_eq!(parser.current().token_type, TokenType::IDENT);
    assert_eq!(parser.peek().unwrap().token_type, TokenType::EOF);
}

#[test]
fn should_initialize_with_first_two_tokens() {
    let mut lexer = Lexer::new("foo =".to_string());
    let parser = Parser::new(&mut lexer);
    assert_eq!(parser.current().token_type, TokenType::IDENT);
    assert_eq!(parser.peek().unwrap().token_type, TokenType::ASSIGN);
}

#[test]
fn should_be_able_to_iterate_through_tokens() {
    let mut lexer = Lexer::new("foo = 5;".to_string());
    let mut parser = Parser::new(&mut lexer);
    assert_eq!(parser.current().token_type, TokenType::IDENT);
    assert_eq!(parser.peek().unwrap().token_type, TokenType::ASSIGN);

    parser.advance();

    assert_eq!(parser.current().token_type, TokenType::ASSIGN);
    assert_eq!(parser.peek().unwrap().token_type, TokenType::INT);

    parser.advance();

    assert_eq!(parser.current().token_type, TokenType::INT);
    assert_eq!(parser.peek().unwrap().token_type, TokenType::SEMICOLON);

    parser.advance();

    assert_eq!(parser.current().token_type, TokenType::SEMICOLON);
    assert_eq!(parser.peek().unwrap().token_type, TokenType::EOF);

    parser.advance();

    assert_eq!(parser.current().token_type, TokenType::EOF);
    assert!(parser.peek().is_none());
}

#[test]
fn the_eof_of_an_empty_source_has_the_null_literal() {
    let mut lexer = Lexer::new("".to_string());
    let parser = Parser::new(&mut lexer);
    assert_eq!(parser.current().literal, "\u{0}");
    assert!(parser.errors().is_empty());
}

#[test]
fn a_parser_over_an_exhausted_lexer_starts_at_eof() {
    let mut lexer = Lexer::new("x".to_string());
    while lexer.next().is_some() {}
    let mut parser = Parser::new(&mut lexer);
    assert_eq!(parser.current().token_type, TokenType::EOF);
    assert_eq!(parser.current().literal, "\u{0}");
    assert!(parser.peek().is_none());
    assert!(parser.advance().is_none());
    let (program, errors) = parser.parse_program();
    assert_eq!(program.len(), 0);
    assert!(errors.is_empty());
}

#[test]
fn a_parser_over_a_used_lexer_starts_where_the_lexer_stands() {
    let mut lexer = Lexer::new("x = 5".to_string());
    lexer.next();
    let mut parser = Parser::new(&mut lexer);
    assert_eq!(
        kinds_left(&mut parser),
        vec![TokenType::ASSIGN, TokenType::INT, TokenType::EOF]
    );
}

#[test]
fn advance_returns_the_new_current_token() {
    let mut lexer = Lexer::new("a 1".to_string());
    let mut parser = Parser::new(&mut lexer);
    let first = parser.advance().unwrap();
    assert_eq!(first.token_type, TokenType::INT);
    assert_eq!(first.literal, "1");
    assert_eq!(parser.current().literal, "1");
    let second = parser.advance().unwrap();
    assert_eq!(second.token_type, TokenType::EOF);
    assert_eq!(parser.current().token_type, TokenType::EOF);
    assert!(parser.advance().is_none());
    assert!(parser.advance().is_none());
    assert_eq!(parser.current().token_type, TokenType::EOF);
    assert!(parser.peek().is_none());
}

#[test]
fn assignments_give_assign_expressions() {
    let (shapes, errors) = parse("x = 5;y = 10\nfoobar = 838383;");
    assert!(errors.is_empty());
    assert_eq!(shapes.len(), 3);
    assert_eq!(
        shapes[0],
        "Assign(Token { token_type: ASSIGN, literal: \"=\" }, \
         Identifier(Token { token_type: IDENT, literal: \"x\" }, \"x\"), \
         Value(Token { token_type: INT, literal: \"5\" }, 0))"
    );
    assert_eq!(
        shapes[1],
        "Assign(Token { token_type: ASSIGN, literal: \"=\" }, \
         Identifier(Token { token_type: IDENT, literal: \"y\" }, \"y\"), \
         Value(Token { token_type: INT, literal: \"10\" }, 0))"
    );
    assert_eq!(
        shapes[2],
        "Assign(Token { token_type: ASSIGN, literal: \"=\" }, \
         Identifier(Token { token_type: IDENT, literal: \"foobar\" }, \"foobar\"), \
         Value(Token { token_type: INT, literal: \"838383\" }, 0))"
    );
}

#[test]
fn returns_give_return_expressions() {
    let (shapes, errors) = parse("return 5;\nreturn 10\nreturn 993322");
    assert!(errors.is_empty());
    assert_eq!(
        shapes,
        vec![
            "Return(Token { token_type: RETURN, literal: \"return\" }, \
             Value(Token { token_type: INT, literal: \"5\" }, 0))",
            "Return(Token { token_type: RETURN, literal: \"return\" }, \
             Value(Token { token_type: INT, literal: \"10\" }, 0))",
            "Return(Token { token_type: RETURN, literal: \"return\" }, \
             Value(Token { token_type: INT, literal: \"993322\" }, 0))",
        ]
    );
}

#[test]
fn an_assignment_without_a_value_gives_no_expression() {
    let mut lexer = Lexer::new("foo =".to_string());
    let mut parser = Parser::new(&mut lexer);
    let (program, errors) = parser.parse_program();
    assert!(program.len() <= 1);
    assert_eq!(program.len(), 0);
    assert_eq!(errors, Vec::<String>::new());
    assert_eq!(parser.current().token_type, TokenType::EOF);
    assert!(parser.peek().is_none());
}

#[test]
fn parsing_twice_gives_the_same_program() {
    for input in [
        "x = 5;y = 10\nfoobar = 838383;",
        "return 5;\nreturn 10\nreturn 993322",
        "foo =",
        "a = b;\nreturn c;\n1 + 2\n@ = 3",
        "",
    ] {
        assert_eq!(parse(input), parse(input));
    }
}

#[test]
fn a_lone_last_token_is_not_parsed() {
    for input in ["x", "5", "return", ";"] {
        let (shapes, errors) = parse(input);
        assert!(shapes.is_empty());
        assert!(errors.is_empty());
    }
}

#[test]
fn a_name_before_a_semicolon_stands_alone() {
    let (shapes, errors) = parse("x;");
    assert!(errors.is_empty());
    assert_eq!(
        shapes,
        vec![
            "Identifier(Token { token_type: IDENT, literal: \"x\" }, \
             Identifier(Token { token_type: IDENT, literal: \"x\" }, \"x\"))"
        ]
    );
}

#[test]
fn a_name_before_eof_stands_alone_inside_an_expression() {
    let (shapes, errors) = parse("y = x");
    assert!(errors.is_empty());
    assert_eq!(
        shapes,
        vec![
            "Assign(Token { token_type: ASSIGN, literal: \"=\" }, \
             Identifier(Token { token_type: IDENT, literal: \"y\" }, \"y\"), \
             Identifier(Token { token_type: IDENT, literal: \"x\" }, \
             Identifier(Token { token_type: IDENT, literal: \"x\" }, \"x\")))"
        ]
    );
}

#[test]
fn a_name_before_another_token_is_skipped() {
    let (shapes, errors) = parse("x y;");
    assert!(errors.is_empty());
    assert_eq!(
        shapes,
        vec![
            "Identifier(Token { token_type: IDENT, literal: \"y\" }, \
             Identifier(Token { token_type: IDENT, literal: \"y\" }, \"y\"))"
        ]
    );
    let (shapes, errors) = parse("x + 1;");
    assert!(errors.is_empty());
    assert_eq!(shapes, vec!["Value(Token { token_type: INT, literal: \"1\" }, 0)"]);
}

#[test]
fn an_integer_takes_the_rest_of_its_statement() {
    let (shapes, errors) = parse("5 + 3 * 2; y = 1\n7 8 9\n");
    assert!(errors.is_empty());
    assert_eq!(
        shapes,
        vec![
            "Value(Token { token_type: INT, literal: \"5\" }, 0)",
            "Assign(Token { token_type: ASSIGN, literal: \"=\" }, \
             Identifier(Token { token_type: IDENT, literal: \"y\" }, \"y\"), \
             Value(Token { token_type: INT, literal: \"1\" }, 0))",
            "Value(Token { token_type: INT, literal: \"7\" }, 0)",
        ]
    );
}

#[test]
fn an_integer_takes_the_tokens_up_to_the_last() {
    let (shapes, errors) = parse("x = 5 + 3");
    assert!(errors.is_empty());
    assert_eq!(
        shapes,
        vec![
            "Assign(Token { token_type: ASSIGN, literal: \"=\" }, \
             Identifier(Token { token_type: IDENT, literal: \"x\" }, \"x\"), \
             Value(Token { token_type: INT, literal: \"5\" }, 0))"
        ]
    );
}

#[test]
fn nested_returns_and_assignments() {
    let (shapes, errors) = parse("return x = 5;");
    assert!(errors.is_empty());
    assert_eq!(
        shapes,
        vec![
            "Return(Token { token_type: RETURN, literal: \"return\" }, \
             Assign(Token { token_type: ASSIGN, literal: \"=\" }, \
             Identifier(Token { token_type: IDENT, literal: \"x\" }, \"x\"), \
             Value(Token { token_type: INT, literal: \"5\" }, 0)))"
        ]
    );
    let (shapes, errors) = parse("a = return 1\n");
    assert!(errors.is_empty());
    assert_eq!(
        shapes,
        vec![
            "Assign(Token { token_type: ASSIGN, literal: \"=\" }, \
             Identifier(Token { token_type: IDENT, literal: \"a\" }, \"a\"), \
             Return(Token { token_type: RETURN, literal: \"return\" }, \
             Value(Token { token_type: INT, literal: \"1\" }, 0)))"
        ]
    );
}

#[test]
fn a_return_without_a_value_gives_no_expression() {
    let (shapes, errors) = parse("return ;\nreturn return\nx = 1");
    assert!(errors.is_empty());
    assert_eq!(
        shapes,
        vec![
            "Assign(Token { token_type: ASSIGN, literal: \"=\" }, \
             Identifier(Token { token_type: IDENT, literal: \"x\" }, \"x\"), \
             Value(Token { token_type: INT, literal: \"1\" }, 0))"
        ]
    );
}

#[test]
fn tokens_without_a_production_are_skipped() {
    let (shapes, errors) = parse("@ + ( ) { } , def end do true false if else\nx = 2;");
    assert!(errors.is_empty());
    assert_eq!(
        shapes,
        vec![
            "Assign(Token { token_type: ASSIGN, literal: \"=\" }, \
             Identifier(Token { token_type: IDENT, literal: \"x\" }, \"x\"), \
             Value(Token { token_type: INT, literal: \"2\" }, 0))"
        ]
    );
}

#[test]
fn parse_program_leaves_the_parser_at_the_end() {
    let mut lexer = Lexer::new("x = 5;y = 10\nfoobar = 838383;".to_string());
    let mut parser = Parser::new(&mut lexer);
    let (program, _) = parser.parse_program();
    assert_eq!(program.len(), 3);
    assert_eq!(parser.current().token_type, TokenType::EOF);
    assert!(parser.peek().is_none());
    let (again, errors) = parser.parse_program();
    assert_eq!(again.len(), 0);
    assert!(errors.is_empty());
}

#[test]
fn expect_peek_moves_on_when_the_token_is_there() {
    let mut lexer = Lexer::new("foo = 5".to_string());
    let mut parser = Parser::new(&mut lexer);
    assert!(parser.expect_peek(TokenType::ASSIGN));
    assert_eq!(parser.current().token_type, TokenType::ASSIGN);
    assert_eq!(parser.peek().unwrap().token_type, TokenType::INT);
    assert!(parser.errors().is_empty());
}

#[test]
fn expect_peek_records_what_it_found_instead() {
    let mut lexer = Lexer::new("foo 5".to_string());
    let mut parser = Parser::new(&mut lexer);
    assert!(!parser.expect_peek(TokenType::ASSIGN));
    assert_eq!(parser.current().token_type, TokenType::IDENT);
    assert_eq!(parser.peek().unwrap().token_type, TokenType::INT);
    assert_eq!(
        parser.errors(),
        vec!["expected next token to be ASSIGN, got INT instead".to_string()]
    );
    assert!(!parser.expect_peek(TokenType::SEMICOLON));
    assert_eq!(
        parser.errors(),
        vec![
            "expected next token to be ASSIGN, got INT instead".to_string(),
            "expected next token to be SEMICOLON, got INT instead".to_string(),
        ]
    );
    let (program, errors) = parser.parse_program();
    assert_eq!(program.len(), 0);
    assert_eq!(errors.len(), 2);
}

#[test]
fn expect_peek_names_eof_where_no_token_follows() {
    let mut lexer = Lexer::new("foo".to_string());
    let mut parser = Parser::new(&mut lexer);
    assert!(!parser.expect_peek(TokenType::ASSIGN));
    assert_eq!(
        parser.errors(),
        vec!["expected next token to be ASSIGN, got EOF instead".to_string()]
    );
    parser.advance();
    assert!(parser.peek().is_none());
    assert!(!parser.expect_peek(TokenType::RPAREN));
    assert_eq!(
        parser.errors(),
        vec![
            "expected next token to be ASSIGN, got EOF instead".to_string(),
            "expected next token to be RPAREN, got EOF instead".to_string(),
        ]
    );
}

#[test]
fn expressions_clone_whole() {
    let mut lexer = Lexer::new("return a = 1;".to_string());
    let mut parser = Parser::new(&mut lexer);
    let (program, _) = parser.parse_program();
    let first = program.get(0).unwrap();
    let copy = first.clone();
    assert_eq!(format!("{:?}", copy), format!("{:?}", first));
    match copy {
        Expression::Return(token, inner) => {
            assert_eq!(token.literal, "return");
            match *inner {
                Expression::Assign(assign, Node::Identifier(_, name), value) => {
                    assert_eq!(assign.token_type, TokenType::ASSIGN);
                    assert_eq!(name, "a");
                    assert_eq!(value.token_literal(), "1");
                },
                _ => panic!("expected an assignment"),
            }
        },
        _ => panic!("expected a return"),
    }
}
