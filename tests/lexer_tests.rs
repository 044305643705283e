use aurorac::lexer::{Cursor, Lexer};
use aurorac::tokens::{get_keyword_token, Token};

fn lexer_of(source: &str) -> Lexer {
    Lexer::new(source.chars().collect())
}

fn chars(s: &str) -> Vec<char> {
    s.chars().collect()
}

#[test]
fn keywords_are_recognised() {
    assert_eq!(get_keyword_token(&chars("fn")), Ok(Token::Function));
    assert_eq!(get_keyword_token(&chars("let")), Ok(Token::Let));
    assert_eq!(get_keyword_token(&chars("end")), Ok(Token::End));
    assert_eq!(get_keyword_token(&chars("module")), Ok(Token::Module));
    assert_eq!(get_keyword_token(&chars("pub")), Ok(Token::Public));
    assert!(get_keyword_token(&chars("fun")).is_err());
}

#[test]
fn lex_reads_every_token_kind() {
    let mut lexer = lexer_of("let x = add(1, 2.5) -> \"hi\" + - * / ! < > ; : { }");
    let (tokens, unknown) = lexer.lex();
    assert!(unknown.is_empty());
    assert_eq!(
        tokens,
        vec![
            Token::Let,
            Token::Identifier { val: chars("x") },
            Token::Assign { val: '=' },
            Token::Identifier { val: chars("add") },
            Token::LParen { val: '(' },
            Token::Int { val: chars("1") },
            Token::Comma { val: ',' },
            Token::Float { val: chars("2.5") },
            Token::RParen { val: ')' },
            Token::Arrow { val: "->".to_string() },
            Token::String { val: chars("hi") },
            Token::Plus { val: '+' },
            Token::Minus { val: '-' },
            Token::Multiplication { val: '*' },
            Token::Division { val: '/' },
            Token::Bang { val: '!' },
            Token::Lt { val: '<' },
            Token::Gt { val: '>' },
            Token::Semicolon { val: ';' },
            Token::Colon { val: ':' },
            Token::LBrace { val: '{' },
            Token::RBrace { val: '}' },
        ]
    );
}

#[test]
fn lex_consumes_whole_input() {
    let source = "module demo\nlet x : i32 = 5";
    let mut lexer = lexer_of(source);
    let (tokens, _) = lexer.lex();
    assert_eq!(tokens.len(), 8);
    assert_eq!(lexer.cursor.position, source.chars().count());
}

#[test]
fn peek_then_next_gives_same_token() {
    let mut lexer = lexer_of("  foo(bar)");
    loop {
        let before = lexer.clone();
        let peeked = lexer.peak_next_token();
        assert_eq!(lexer.cursor, before.cursor);
        let next = lexer.next_token();
        assert_eq!(peeked, next);
        if next == Token::EOF {
            break;
        }
    }
}

#[test]
fn unterminated_string_ends_at_end_of_input() {
    let mut lexer = lexer_of("\"abc");
    assert_eq!(lexer.next_token(), Token::Unkown);
    assert_eq!(lexer.cursor.position, 4);
    assert_eq!(lexer.next_token(), Token::EOF);
    assert_eq!(lexer.next_token(), Token::EOF);
}

#[test]
fn unterminated_string_is_left_out_of_lex() {
    let mut lexer = lexer_of("x \"abc");
    assert_eq!(lexer.lex(), (vec![Token::Identifier { val: chars("x") }], vec![2]));
}

#[test]
fn string_escape_copies_the_escaped_character() {
    let mut lexer = lexer_of("\"a\\\"b\"");
    assert_eq!(lexer.next_token(), Token::String { val: chars("a\"b") });
}

#[test]
fn minus_without_arrow_keeps_the_next_character() {
    let mut lexer = lexer_of("-5");
    assert_eq!(lexer.next_token(), Token::Minus { val: '-' });
    assert_eq!(lexer.next_token(), Token::Int { val: chars("5") });
}

#[test]
fn whitespace_runs_are_skipped() {
    let mut lexer = lexer_of("   \n\t  x");
    assert_eq!(lexer.next_token(), Token::Identifier { val: chars("x") });
}

#[test]
fn token_match_reports_whitespace_and_unknown() {
    let mut lexer = lexer_of("  x");
    assert_eq!(lexer.token_match(), Token::Whitespace);
    let mut lexer = lexer_of("[");
    assert_eq!(lexer.token_match(), Token::Unkown);
    assert_eq!(lexer.token_match(), Token::EOF);
}

#[test]
fn unicode_letters_and_digits_follow_std() {
    let mut lexer = lexer_of("été2 ٣");
    assert_eq!(lexer.next_token(), Token::Identifier { val: chars("été2") });
    assert_eq!(lexer.next_token(), Token::Int { val: chars("٣") });
}

#[test]
fn read_char_stops_at_end() {
    let mut lexer = lexer_of("a");
    lexer.read_char();
    assert_eq!(lexer.cursor, Cursor { position: 0, read_position: 1, ch: 'a' });
    lexer.read_char();
    assert_eq!(lexer.cursor, Cursor { position: 1, read_position: 2, ch: '\0' });
    lexer.read_char();
    assert_eq!(lexer.cursor, Cursor { position: 1, read_position: 2, ch: '\0' });
}

#[test]
fn skip_whitespace_steps_over_one_character() {
    let mut lexer = lexer_of("  x");
    lexer.read_char();
    lexer.skip_whitespace();
    assert_eq!(lexer.cursor.position, 1);
    lexer.skip_whitespace();
    assert_eq!(lexer.cursor.position, 2);
    lexer.skip_whitespace();
    assert_eq!(lexer.cursor.position, 2);
}

#[test]
fn type_suffix_is_read_after_a_name() {
    let mut lexer = lexer_of("array[array[i32]] = 1");
    assert_eq!(lexer.next_token(), Token::Identifier { val: chars("array") });
    assert_eq!(lexer.read_type_suffix(), chars("[array[i32]]"));
    assert_eq!(lexer.next_token(), Token::Assign { val: '=' });
}

#[test]
fn lex_reports_unknown_characters() {
    let mut lexer = lexer_of("a [ b ?");
    let (tokens, unknown) = lexer.lex();
    assert_eq!(
        tokens,
        vec![Token::Identifier { val: chars("a") }, Token::Identifier { val: chars("b") }]
    );
    assert_eq!(unknown, vec![2, 6]);
}

#[test]
fn unterminated_string_after_whitespace() {
    let mut lexer = lexer_of("  \"a\\\"b");
    lexer.read_char();
    assert_eq!(lexer.next_token(), Token::Unkown);
    assert_eq!(lexer.cursor.position, 7);
    assert_eq!(lexer.cursor.ch, '\0');
}
