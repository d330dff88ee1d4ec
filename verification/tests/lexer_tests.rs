use partape::lexer::{classify, lex, Token};

#[test]
fn lex_maps_each_symbol_to_its_token() {
    assert_eq!(
        lex("><+-.,[]{|}()~^v"),
        vec![
            Token::IncPtr,
            Token::DecPtr,
            Token::IncCell,
            Token::DecCell,
            Token::Output,
            Token::Input,
            Token::LoopStart,
            Token::LoopEnd,
            Token::ParStart,
            Token::ParSep,
            Token::ParEnd,
            Token::LockStart,
            Token::LockEnd,
            Token::Sleep,
            Token::Wait,
            Token::Notify,
        ]
    );
}

#[test]
fn lex_of_nothing_is_nothing() {
    assert_eq!(lex(""), Vec::<Token>::new());
}

#[test]
fn lex_ignores_characters_outside_the_alphabet() {
    assert_eq!(lex("a + b\t-\r\n x! 0 V"), vec![Token::IncCell, Token::DecCell]);
    assert_eq!(lex("héllo wörld"), Vec::<Token>::new());
}

#[test]
fn lex_keeps_the_lower_case_v_only() {
    assert_eq!(lex("vVv"), vec![Token::Notify, Token::Notify]);
}

#[test]
fn lex_drops_a_comment_up_to_the_newline() {
    assert_eq!(lex("+ ; - - -\n>"), vec![Token::IncCell, Token::IncPtr]);
}

#[test]
fn lex_takes_the_end_of_input_as_the_end_of_a_comment() {
    assert_eq!(lex("+;[[[["), vec![Token::IncCell]);
    assert_eq!(lex(";"), Vec::<Token>::new());
}

#[test]
fn lex_reads_on_after_each_comment() {
    assert_eq!(
        lex(";first\n+;second ; still second\n-\n;third\n."),
        vec![Token::IncCell, Token::DecCell, Token::Output]
    );
}

#[test]
fn lex_treats_a_semicolon_inside_a_comment_as_text() {
    assert_eq!(lex("; a ; b + \n+"), vec![Token::IncCell]);
}

#[test]
fn lex_is_unchanged_by_an_inserted_comment_line() {
    let plain = lex("+[>-]<.");
    assert_eq!(lex("+[>;this loop moves right\n-]<."), plain);
    assert_eq!(lex(";head\n+[>-]<."), plain);
    assert_eq!(lex("+[>-]<.;tail\n"), plain);
    assert_eq!(lex("+[;a\n>;b\n-;c\n];d\n<."), plain);
}

#[test]
fn lex_changes_when_a_comment_is_cut_short() {
    // Inside a comment the inserted newline ends it early.
    assert_eq!(lex(";+"), Vec::<Token>::new());
    assert_eq!(lex(";;x\n+"), vec![Token::IncCell]);
}

#[test]
fn classify_knows_sixteen_characters() {
    let mut known = 0;
    for code in 0u32..0x250 {
        if let Some(c) = char::from_u32(code) {
            if classify(c).is_some() {
                known += 1;
            }
        }
    }
    assert_eq!(known, 16);
    assert_eq!(classify('~'), Some(Token::Sleep));
    assert_eq!(classify('^'), Some(Token::Wait));
    assert_eq!(classify(';'), None);
    assert_eq!(classify('\n'), None);
}
