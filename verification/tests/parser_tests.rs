use partape::lexer::{lex, Token};
use partape::parser::{clone_nodes, parse, Node, ParseError};
use partape::printer::{pretty, render, symbol, unparse};

fn tree(source: &str) -> Result<Vec<Node>, ParseError> {
    parse(&lex(source))
}

#[test]
fn parse_of_nothing_is_the_empty_program() {
    assert_eq!(tree(""), Ok(vec![]));
}

#[test]
fn parse_maps_the_leaves_one_for_one() {
    assert_eq!(
        tree("><+-.,v"),
        Ok(vec![
            Node::IncPtr,
            Node::DecPtr,
            Node::IncCell,
            Node::DecCell,
            Node::Output,
            Node::Input,
            Node::Notify,
        ])
    );
}

#[test]
fn parse_builds_a_loop_from_brackets() {
    assert_eq!(tree("[-]"), Ok(vec![Node::Loop(vec![Node::DecCell])]));
    assert_eq!(tree("[]"), Ok(vec![Node::Loop(vec![])]));
    assert_eq!(
        tree("+[>[-]<]."),
        Ok(vec![
            Node::IncCell,
            Node::Loop(vec![Node::IncPtr, Node::Loop(vec![Node::DecCell]), Node::DecPtr]),
            Node::Output,
        ])
    );
}

#[test]
fn parse_gives_one_branch_more_than_separators() {
    assert_eq!(tree("{}"), Ok(vec![Node::Parallel(vec![vec![]])]));
    assert_eq!(tree("{|}"), Ok(vec![Node::Parallel(vec![vec![], vec![]])]));
    assert_eq!(
        tree("{+|-|.}"),
        Ok(vec![Node::Parallel(vec![
            vec![Node::IncCell],
            vec![Node::DecCell],
            vec![Node::Output],
        ])])
    );
    for separators in 0..6 {
        let mut source = String::from("{");
        for _ in 0..separators {
            source.push('|');
        }
        source.push('}');
        match tree(&source) {
            Ok(nodes) => match &nodes[0] {
                Node::Parallel(branches) => assert_eq!(branches.len(), separators + 1),
                other => panic!("no parallel block: {:?}", other),
            },
            Err(e) => panic!("no tree: {:?}", e),
        }
    }
}

#[test]
fn parse_counts_only_the_separators_of_the_block_itself() {
    assert_eq!(
        tree("{{+|-}|[{.|,}]}"),
        Ok(vec![Node::Parallel(vec![
            vec![Node::Parallel(vec![vec![Node::IncCell], vec![Node::DecCell]])],
            vec![Node::Loop(vec![Node::Parallel(vec![
                vec![Node::Output],
                vec![Node::Input],
            ])])],
        ])])
    );
}

#[test]
fn parse_leaves_the_lock_brackets_as_two_leaves() {
    assert_eq!(
        tree("(+)"),
        Ok(vec![Node::LockAcquire, Node::IncCell, Node::LockRelease])
    );
    // Nothing is enforced between them.
    assert_eq!(tree("("), Ok(vec![Node::LockAcquire]));
    assert_eq!(tree(")("), Ok(vec![Node::LockRelease, Node::LockAcquire]));
    assert_eq!(
        tree("[(]"),
        Ok(vec![Node::Loop(vec![Node::LockAcquire])])
    );
}

#[test]
fn parse_collapses_a_run_of_waits() {
    assert_eq!(tree("^"), Ok(vec![Node::Wait(1)]));
    assert_eq!(tree("^^^"), Ok(vec![Node::Wait(3)]));
    assert_eq!(
        tree("^^+^"),
        Ok(vec![Node::Wait(2), Node::IncCell, Node::Wait(1)])
    );
    assert_eq!(
        tree("^^v^"),
        Ok(vec![Node::Wait(2), Node::Notify, Node::Wait(1)])
    );
}

#[test]
fn parse_collapses_a_run_of_sleeps() {
    assert_eq!(tree("~"), Ok(vec![Node::Sleep(1)]));
    assert_eq!(tree("~~~~~"), Ok(vec![Node::Sleep(5)]));
    assert_eq!(tree("~~^^~"), Ok(vec![Node::Sleep(2), Node::Wait(2), Node::Sleep(1)]));
}

#[test]
fn parse_ends_a_run_at_a_bracket() {
    assert_eq!(
        tree("^[^]^"),
        Ok(vec![Node::Wait(1), Node::Loop(vec![Node::Wait(1)]), Node::Wait(1)])
    );
    assert_eq!(
        tree("{~|~}"),
        Ok(vec![Node::Parallel(vec![vec![Node::Sleep(1)], vec![Node::Sleep(1)]])])
    );
}

#[test]
fn parse_fails_on_an_unterminated_loop() {
    assert_eq!(tree("[+"), Err(ParseError::MalformedBrackets));
    assert_eq!(tree("["), Err(ParseError::MalformedBrackets));
    assert_eq!(tree("[[+]"), Err(ParseError::MalformedBrackets));
}

#[test]
fn parse_fails_on_an_unterminated_parallel_block() {
    assert_eq!(tree("{"), Err(ParseError::MalformedBrackets));
    assert_eq!(tree("{+|"), Err(ParseError::MalformedBrackets));
    assert_eq!(tree("{+|-"), Err(ParseError::MalformedBrackets));
    assert_eq!(tree("{{+}"), Err(ParseError::MalformedBrackets));
}

#[test]
fn parse_fails_on_a_closer_without_opener() {
    assert_eq!(tree("]"), Err(ParseError::MalformedBrackets));
    assert_eq!(tree("}"), Err(ParseError::MalformedBrackets));
    assert_eq!(tree("|"), Err(ParseError::MalformedBrackets));
    assert_eq!(tree("+]"), Err(ParseError::MalformedBrackets));
    assert_eq!(tree("[+]]"), Err(ParseError::MalformedBrackets));
    assert_eq!(tree("{+}|"), Err(ParseError::MalformedBrackets));
    assert_eq!(tree("[+|-]"), Err(ParseError::MalformedBrackets));
}

#[test]
fn parse_fails_on_crossed_brackets() {
    assert_eq!(tree("[}"), Err(ParseError::MalformedBrackets));
    assert_eq!(tree("{]"), Err(ParseError::MalformedBrackets));
    assert_eq!(tree("[{]}"), Err(ParseError::MalformedBrackets));
    assert_eq!(tree("{[}]"), Err(ParseError::MalformedBrackets));
}

#[test]
fn parse_does_not_see_brackets_inside_comments() {
    assert_eq!(tree("+;]\n"), Ok(vec![Node::IncCell]));
    assert_eq!(tree("[+;]\n"), Err(ParseError::MalformedBrackets));
}

#[test]
fn unparse_writes_the_tokens_of_a_tree() {
    let nodes = vec![
        Node::IncCell,
        Node::Loop(vec![Node::Wait(2), Node::Notify]),
        Node::Parallel(vec![vec![Node::LockAcquire], vec![], vec![Node::Sleep(3)]]),
    ];
    assert_eq!(unparse(&nodes), lex("+[^^v]{(||~~~}"));
}

#[test]
fn unparse_writes_nothing_for_an_empty_run() {
    assert_eq!(unparse(&vec![Node::Wait(0), Node::Sleep(0)]), Vec::<Token>::new());
    assert_eq!(unparse(&vec![Node::Parallel(vec![])]), lex("{}"));
}

#[test]
fn render_writes_one_symbol_for_each_token() {
    assert_eq!(render(&lex("><+-.,[]{|}()~^v")), "><+-.,[]{|}()~^v");
    assert_eq!(render(&[]), "");
    assert_eq!(symbol(Token::Notify), "v");
    assert_eq!(symbol(Token::ParSep), "|");
}

#[test]
fn pretty_gives_the_source_without_what_the_lexer_drops() {
    let source = "+++ [ > ;comment ]\n ++ < - ] { ^^ | v } ~~ ( . )";
    match tree(source) {
        Ok(nodes) => assert_eq!(pretty(&nodes), "+++[>++<-]{^^|v}~~(.)"),
        Err(e) => panic!("no tree: {:?}", e),
    }
}

#[test]
fn printing_a_parsed_program_gives_its_tokens_back() {
    let sources = [
        "",
        "+++++++++[>++++++++<-]>.",
        "{+|+}",
        "{(+)|(+)}",
        "{^|v}",
        "((((((((((((((((((",
        "~~~[{^^^|v|[,.]}]~",
        "{{{}|}|}",
        "hello ; a comment\n[ world ]",
    ];
    for source in sources {
        let tokens = lex(source);
        match parse(&tokens) {
            Ok(nodes) => {
                assert_eq!(unparse(&nodes), tokens);
                assert_eq!(lex(&pretty(&nodes)), tokens);
                assert_eq!(parse(&lex(&pretty(&nodes))), Ok(nodes));
            }
            Err(e) => panic!("no tree for {:?}: {:?}", source, e),
        }
    }
}

#[test]
fn a_clone_is_the_same_tree() {
    let nodes = vec![
        Node::Sleep(2),
        Node::Loop(vec![Node::Parallel(vec![vec![Node::Wait(1)], vec![]]), Node::Notify]),
    ];
    let copy = nodes.clone();
    assert_eq!(copy, nodes);
    assert_eq!(clone_nodes(&nodes), nodes);
    assert_eq!(nodes[1].clone(), nodes[1]);
}
