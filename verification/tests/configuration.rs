//! Tests of the current grammar revision: escaper, parser primitives, blobs,
//! generators and the statement pipeline.

use cage::char_iter::Position;
use cage::configuration::error::ConfigurationError;
use cage::configuration::escape::escape;
use cage::configuration::lexer::Word;
use cage::configuration::parser::Parser;
use cage::configuration::statement::parse;
use cage::configuration::statement::Blob;
use cage::configuration::statement::BlobValue;
use cage::configuration::statement::Generator;
use cage::configuration::statement::Identifier;
use cage::configuration::statement::Name;
use cage::configuration::statement::Statement;
use cage::configuration::LexerError;

const ZERO: Position = Position { line: 0, column: 0 };

/// Parser over a token list whose position column is always 1 and whose line
/// is the token's index.
fn test_value(src: Vec<Word>) -> Parser {
    let tokens = src
        .into_iter()
        .enumerate()
        .map(|(line, w)| (Position { line, column: 1 }, w))
        .collect();
    Parser::new(tokens, None)
}

fn pos(line: usize) -> Position {
    Position { line, column: 1 }
}

#[test]
fn test_escape() {
    let compare = |expected: &str, input: &str| {
        assert_eq!(
            expected,
            escape(ZERO, input.to_string()).unwrap().as_str()
        );
    };

    compare("Hello World!", "Hello World!");
    compare("a\nb", "a\\nb");
    compare("a\rb", "a\\rb");
    compare("a\tb", "a\\tb");
    compare("a\\b", "a\\\\b");
    compare("a\0b", "a\\0b");
    compare("a'b", "a\\'b");
    compare("a\"b", "a\\\"b");
    compare("a\nb\nc\nd", "a\\nb\\nc\\nd");
}

#[test]
fn escape_failure_keeps_output_so_far() {
    // An unknown escape is fatal and carries the output built so far.
    match escape(ZERO, "a\\qb".to_string()) {
        Err(ConfigurationError::UnescapeFail(p, c, partial)) => {
            assert_eq!(ZERO, p);
            assert_eq!('q', c);
            assert_eq!("a", partial.as_str());
        }
        other => panic!("expected an unescape failure, got {:?}", other),
    }
}

#[test]
fn parse_pipes() {
    let mut parser = test_value(vec![
        Word::QuotedString(".".to_string()),
        Word::PipeDirectory,
        Word::DollardString("https://exemple.com/g.wasm".to_string()),
        Word::QuotedString("arg1".to_string()),
        Word::QuotedString("arg2".to_string()),
    ]);
    assert_eq!(
        Blob {
            position: pos(0),
            value: BlobValue::Name(Name::Source(".".to_string())),
            pipes: vec![Generator {
                position: pos(1),
                input_is_dir: true,
                name: None,
                generator: BlobValue::Name(Name::Url("https://exemple.com/g.wasm".to_string())),
                args: vec![
                    (pos(3), "arg1".to_string()),
                    (pos(4), "arg2".to_string())
                ],
            }],
        },
        parser.parse_blob().unwrap()
    );
}

#[test]
fn parser_blob_name() {
    let mut parser = test_value(vec![
        Word::SimpleString("var".to_string()),
        Word::QuotedString(".".to_string()),
        Word::DollardString("https://exemple.com/foo.zip".to_string()),
        Word::SystemRun,
        Word::SystemTest,
        Word::SystemPackage,
    ]);

    assert_eq!(
        Blob {
            position: pos(0),
            value: BlobValue::Name(Name::Variable("var".to_string())),
            pipes: Vec::new(),
        },
        parser.parse_blob().unwrap()
    );
    assert_eq!(
        Blob {
            position: pos(1),
            value: BlobValue::Name(Name::Source(".".to_string())),
            pipes: Vec::new(),
        },
        parser.parse_blob().unwrap()
    );
    assert_eq!(
        Blob {
            position: pos(2),
            value: BlobValue::Literal("https://exemple.com/foo.zip".to_string()),
            pipes: Vec::new(),
        },
        parser.parse_blob().unwrap()
    );
    assert_eq!(
        Blob {
            position: pos(3),
            value: BlobValue::Name(Name::SystemRun),
            pipes: Vec::new(),
        },
        parser.parse_blob().unwrap()
    );
    assert_eq!(
        Blob {
            position: pos(4),
            value: BlobValue::Name(Name::SystemTest),
            pipes: Vec::new(),
        },
        parser.parse_blob().unwrap()
    );
    assert_eq!(
        Blob {
            position: pos(5),
            value: BlobValue::Name(Name::SystemPackage),
            pipes: Vec::new(),
        },
        parser.parse_blob().unwrap()
    );
}

#[test]
fn parse_composition() {
    let mut parser = test_value(vec![
        Word::DirectoryComposeClose,
        Word::QuotedString("key".to_string()),
        Word::Colon,
        Word::SimpleString("var".to_string()),
        Word::Comma,
        Word::DirectoryComposeClose,
    ]);

    assert_eq!(
        BlobValue::Composition(vec![]),
        parser.parse_composition().unwrap()
    );
    assert_eq!(
        BlobValue::Composition(vec![(
            pos(1),
            "key".to_string(),
            Blob {
                position: pos(3),
                value: BlobValue::Name(Name::Variable("var".to_string())),
                pipes: Vec::new(),
            }
        )]),
        parser.parse_composition().unwrap()
    );
}

#[test]
fn parser_concatenation() {
    let mut parser = test_value(vec![
        Word::DirectoryConcatClose,
        Word::SimpleString("var".to_string()),
        Word::Comma,
        Word::DirectoryConcatClose,
        Word::SimpleString("var1".to_string()),
        Word::Comma,
        Word::SimpleString("var2".to_string()),
        Word::DirectoryConcatClose,
    ]);

    assert_eq!(
        BlobValue::Concatenation(vec![]),
        parser.parse_concatenation().unwrap()
    );
    assert_eq!(
        BlobValue::Concatenation(vec![Blob {
            position: pos(1),
            value: BlobValue::Name(Name::Variable("var".to_string())),
            pipes: Vec::new(),
        }]),
        parser.parse_concatenation().unwrap()
    );
    assert_eq!(
        BlobValue::Concatenation(vec![
            Blob {
                position: pos(4),
                value: BlobValue::Name(Name::Variable("var1".to_string())),
                pipes: Vec::new(),
            },
            Blob {
                position: pos(6),
                value: BlobValue::Name(Name::Variable("var2".to_string())),
                pipes: Vec::new(),
            },
        ]),
        parser.parse_concatenation().unwrap()
    );
}

#[test]
fn parse_parenthesis() {
    let mut parser = test_value(vec![
        Word::SimpleString("var".to_string()),
        Word::ParenthesisClose,
    ]);

    assert_eq!(
        Blob {
            position: pos(0),
            value: BlobValue::Name(Name::Variable("var".to_string())),
            pipes: Vec::new(),
        },
        parser.parse_parenthesis().unwrap()
    );
}

#[test]
fn parse_generator_statement() {
    let mut parser = test_value(vec![
        Word::KeywordGenerator,
        Word::SimpleString("g".to_string()),
        Word::PipeFile,
        Word::DollardString("https://exemple.com/g.wasm".to_string()),
        Word::QuotedString("arg1".to_string()),
        Word::QuotedString("arg2".to_string()),
    ]);

    let (position, name, chain) =
        if let Statement::Generator(p, n, g) = parser.next().unwrap().unwrap() {
            (p, n, g)
        } else {
            panic!("Expected a Statement::Generator")
        };
    assert_eq!(pos(0), position);
    assert_eq!("g", name.as_str());
    assert_eq!(1, chain.len());
    assert_eq!(
        Generator {
            position: pos(2),
            input_is_dir: false,
            name: None,
            generator: BlobValue::Name(Name::Url("https://exemple.com/g.wasm".to_string())),
            args: vec![
                (pos(4), "arg1".to_string()),
                (pos(5), "arg2".to_string())
            ],
        },
        chain[0]
    );

    assert_eq!(None, parser.next());
}

#[test]
fn parse_generator_chain() {
    let mut p = test_value(vec![
        // first generator
        Word::PipeFile,
        Word::DollardString("https://exemple.com/generator.wasm".to_string()),
        // second generator
        Word::PipeDirectory,
        Word::DollardString("g".to_string()),
        Word::DefaultGenerator,
        Word::ParenthesisOpen,
        Word::QuotedString("generator.wasm".to_string()),
        Word::ParenthesisClose,
        Word::QuotedString("arg1".to_string()),
        Word::SimpleString("arg2".to_string()),
        // other part
        Word::Comma,
    ]);

    let chain = p.parse_generator_chain().unwrap();
    assert_eq!(2, chain.len());

    assert_eq!(
        Generator {
            position: pos(0),
            input_is_dir: false,
            name: None,
            generator: BlobValue::Name(Name::Url(
                "https://exemple.com/generator.wasm".to_string()
            )),
            args: Vec::new(),
        },
        chain[0],
    );
    p.skip_token();
    assert_eq!(
        Generator {
            position: pos(2),
            input_is_dir: true,
            name: Some(String::from("g")),
            generator: BlobValue::Name(Name::Source("generator.wasm".to_string())),
            args: vec![
                (pos(8), "arg1".to_string()),
                (pos(9), "arg2".to_string())
            ],
        },
        chain[1],
    );
}

#[test]
fn test_parser() {
    let mut parser = test_value(vec![
        Word::KeywordDir,
        Word::SystemPackage,
        Word::DirectoryComposeOpen,
        // first element
        Word::QuotedString("style.css".to_string()),
        Word::Colon,
        Word::QuotedString("styling/".to_string()),
        Word::PipeDirectory,
        Word::DollardString("https://styling.io/v1/gen.wasm".to_string()),
        Word::Comma,
        // second element: directory
        Word::QuotedString("img/".to_string()),
        Word::Colon,
        Word::QuotedString("img-src/".to_string()),
        Word::PipeDirectory,
        Word::ParenthesisOpen,
        Word::QuotedString("build/resize.c".to_string()),
        Word::PipeFile,
        Word::DollardString("https://c.land/2.wasm".to_string()),
        Word::ParenthesisClose,
        Word::PipeDirectory,
        Word::DollardString("https://image.io/v1/grey.wasm".to_string()),
        Word::Comma,
        Word::DirectoryComposeClose,
        // final pipe
        Word::PipeDirectory,
        Word::SimpleString("minifier".to_string()),
        Word::QuotedString("arg1".to_string()),
        Word::QuotedString("arg2".to_string()),
    ]);

    // The parenthesized sub-blob is folded away: its value becomes the
    // generator's value.
    let expected = Statement::Directory(
        pos(0),
        Identifier::SystemPackage,
        Blob {
            position: pos(2),
            value: BlobValue::Composition(vec![
                (
                    pos(3),
                    "style.css".to_string(),
                    Blob {
                        position: pos(5),
                        value: BlobValue::Name(Name::Source("styling/".to_string())),
                        pipes: vec![Generator {
                            position: pos(6),
                            input_is_dir: true,
                            name: None,
                            generator: BlobValue::Name(Name::Url(
                                "https://styling.io/v1/gen.wasm".to_string(),
                            )),
                            args: Vec::new(),
                        }],
                    },
                ),
                (
                    pos(9),
                    "img/".to_string(),
                    Blob {
                        position: pos(11),
                        value: BlobValue::Name(Name::Source("img-src/".to_string())),
                        pipes: vec![
                            Generator {
                                position: pos(12),
                                input_is_dir: true,
                                name: None,
                                generator: BlobValue::Name(Name::Source(
                                    "build/resize.c".to_string(),
                                )),
                                args: Vec::new(),
                            },
                            Generator {
                                position: pos(18),
                                input_is_dir: true,
                                name: None,
                                generator: BlobValue::Name(Name::Url(
                                    "https://image.io/v1/grey.wasm".to_string(),
                                )),
                                args: Vec::new(),
                            },
                        ],
                    },
                ),
            ]),
            pipes: vec![Generator {
                position: pos(22),
                input_is_dir: true,
                name: None,
                generator: BlobValue::Name(Name::Variable("minifier".to_string())),
                args: vec![(pos(24), "arg1".to_string()), (pos(25), "arg2".to_string())],
            }],
        },
    );
    let received = parser.next().unwrap().unwrap();

    assert_eq!(expected, received);
}

#[test]
fn parse_file_statement() {
    let mut parser = test_value(vec![
        Word::KeywordFile,
        Word::SimpleString("f".to_string()),
        Word::DollardString("The file content".to_string()),
    ]);
    assert_eq!(
        Statement::File(
            pos(0),
            Identifier::Variable("f".to_string()),
            Blob {
                position: pos(2),
                value: BlobValue::Literal("The file content".to_string()),
                pipes: Vec::new(),
            }
        ),
        parser.next().unwrap().unwrap()
    );
}

#[test]
fn parse_tag_statement() {
    let mut parser = test_value(vec![
        Word::KeywordTag,
        Word::SimpleString("simpleTag".to_string()),
    ]);

    assert_eq!(
        Statement::Tag(pos(0), "simpleTag".to_string()),
        parser.next().unwrap().unwrap()
    );
    assert_eq!(None, parser.next());
}

#[test]
fn scenario_tag_statement() {
    // `tag superTag` parses to a single tag statement.
    let out = parse("tag superTag");
    assert_eq!(1, out.len());
    match &out[0] {
        Ok(Statement::Tag(_, name)) => assert_eq!("superTag", name.as_str()),
        other => panic!("expected a tag statement, got {:?}", other),
    }
}

#[test]
fn scenario_file_with_default_generator() {
    // `file front "front/" > "min" ?? $"https://example.com/minifier"`:
    // the blob is the source path, with one directory-input stage whose
    // default generator alias is "min" and whose value is the URL.
    let out = parse("file front \"front/\" > \"min\" ?? $\"https://example.com/minifier\"");
    assert_eq!(1, out.len());
    match &out[0] {
        Ok(Statement::File(_, id, blob)) => {
            assert_eq!(&Identifier::Variable("front".to_string()), id);
            assert_eq!(
                BlobValue::Name(Name::Source("front/".to_string())),
                blob.value
            );
            assert_eq!(1, blob.pipes.len());
            let stage = &blob.pipes[0];
            assert!(stage.input_is_dir);
            assert_eq!(Some("min".to_string()), stage.name);
            assert_eq!(
                BlobValue::Name(Name::Url("https://example.com/minifier".to_string())),
                stage.generator
            );
            assert!(stage.args.is_empty());
        }
        other => panic!("expected a file statement, got {:?}", other),
    }
}

#[test]
fn scenario_directory_composition() {
    // `dir $pkg [ { "file.txt": $"A" }, variable, ]`.
    let out = parse("dir $pkg [ { \"file.txt\": $\"A\" }, variable, ]");
    assert_eq!(1, out.len());
    match &out[0] {
        Ok(Statement::Directory(_, id, blob)) => {
            assert_eq!(&Identifier::SystemPackage, id);
            match &blob.value {
                BlobValue::Concatenation(items) => {
                    assert_eq!(2, items.len());
                    match &items[0].value {
                        BlobValue::Composition(entries) => {
                            assert_eq!(1, entries.len());
                            assert_eq!("file.txt", entries[0].1.as_str());
                            assert_eq!(
                                BlobValue::Literal("A".to_string()),
                                entries[0].2.value
                            );
                        }
                        other => panic!("expected a composition, got {:?}", other),
                    }
                    assert_eq!(
                        BlobValue::Name(Name::Variable("variable".to_string())),
                        items[1].value
                    );
                }
                other => panic!("expected a concatenation, got {:?}", other),
            }
        }
        other => panic!("expected a directory statement, got {:?}", other),
    }
}

#[test]
fn empty_concatenation_and_composition() {
    // `[]` and `{}` parse with no error, consuming exactly the bracket
    // pair: the following pipe stage still belongs to the same blob.
    let out = parse("dir d [] | g\ndir e {} | h");
    assert_eq!(2, out.len());
    match &out[0] {
        Ok(Statement::Directory(_, _, blob)) => {
            assert_eq!(BlobValue::Concatenation(vec![]), blob.value);
            assert_eq!(1, blob.pipes.len());
        }
        other => panic!("expected a directory statement, got {:?}", other),
    }
    match &out[1] {
        Ok(Statement::Directory(_, _, blob)) => {
            assert_eq!(BlobValue::Composition(vec![]), blob.value);
            assert_eq!(1, blob.pipes.len());
        }
        other => panic!("expected a directory statement, got {:?}", other),
    }
}

#[test]
fn trailing_comma_accepted_double_comma_rejected() {
    // A trailing comma directly before the closing bracket is fine.
    let ok = parse("dir d [ a, b, ]");
    assert_eq!(1, ok.len());
    assert!(ok[0].is_ok());

    // Two consecutive commas are an error.
    let bad = parse("dir d [ a,, b ]");
    assert_eq!(1, bad.len());
    assert!(bad[0].is_err());
}

#[test]
fn dollar_at_end_of_input() {
    // A bare `$` that ends the input is the dollar-at-end lexical error.
    let out = parse("tag t\ndir d $");
    let last = out.last().unwrap();
    match last {
        Err(ConfigurationError::Lexer(_, LexerError::DollardAtEOF)) => {}
        other => panic!("expected the dollar-at-end error, got {:?}", other),
    }
}

#[test]
fn unescape_failure_inside_dollar_string() {
    // `a\qb` inside a dollar string fails to unescape at the `q`.
    let out = parse("file f $\"a\\qb\"");
    let last = out.last().unwrap();
    match last {
        Err(ConfigurationError::UnescapeFail(_, c, partial)) => {
            assert_eq!(&'q', c);
            assert_eq!("a", partial.as_str());
        }
        other => panic!("expected an unescape failure, got {:?}", other),
    }
}

#[test]
fn lexical_error_variants() {
    // A single question mark.
    match parse("dir d ?x").last().unwrap() {
        Err(ConfigurationError::Lexer(_, LexerError::HalfDefaultGenerator)) => {}
        other => panic!("expected the half default generator error, got {:?}", other),
    }
    // A doubled dollar.
    match parse("dir d $$x").last().unwrap() {
        Err(ConfigurationError::Lexer(_, LexerError::DoubleDollard)) => {}
        other => panic!("expected the double dollar error, got {:?}", other),
    }
    // An unknown system variable.
    match parse("dir $zzz x").last().unwrap() {
        Err(ConfigurationError::Lexer(_, LexerError::UnknowSystem(w))) => {
            assert_eq!("zzz", w.as_str())
        }
        other => panic!("expected the unknown system error, got {:?}", other),
    }
    // An unterminated string.
    match parse("file f \"abc").last().unwrap() {
        Err(ConfigurationError::Lexer(_, LexerError::StringWithoutEnd)) => {}
        other => panic!("expected the unterminated string error, got {:?}", other),
    }
    // A character that can not follow a dollar.
    match parse("dir d $-").last().unwrap() {
        Err(ConfigurationError::Lexer(_, LexerError::UnknowChar(c))) => assert_eq!(&'-', c),
        other => panic!("expected the unknown character error, got {:?}", other),
    }
}

#[test]
fn parser_error_variants() {
    // A statement keyword ends the current construct early.
    match parse("file f\ntag t").first().unwrap() {
        Err(ConfigurationError::UnexpectedEnd) => {}
        other => panic!("expected the unexpected-end error, got {:?}", other),
    }
    // A name is required after `tag`.
    match parse("tag |").first().unwrap() {
        Err(ConfigurationError::ParserExpectedStatementName(_, _)) => {}
        other => panic!("expected the statement-name error, got {:?}", other),
    }
    // A colon is required after a composition key.
    match parse("dir d { \"k\" x }").first().unwrap() {
        Err(ConfigurationError::UnexpectedToken(_, _, op)) => {
            assert_eq!("composition.collon", op.as_str())
        }
        other => panic!("expected an unexpected-token error, got {:?}", other),
    }
    // A default generator alias must be a quoted or dollar string.
    match parse("file f x | y ?? $\"u\"").first().unwrap() {
        Err(ConfigurationError::UnexpectedToken(_, _, op)) => {
            assert_eq!("generator name", op.as_str())
        }
        other => panic!("expected a generator-name error, got {:?}", other),
    }
}

#[test]
fn comments_and_newlines_are_skipped() {
    let out = parse("# heading\n\ntag one\n# middle\ntag two\n");
    assert_eq!(2, out.len());
    match (&out[0], &out[1]) {
        (Ok(Statement::Tag(_, a)), Ok(Statement::Tag(_, b))) => {
            assert_eq!("one", a.as_str());
            assert_eq!("two", b.as_str());
        }
        other => panic!("expected two tag statements, got {:?}", other),
    }
}

#[test]
fn quoted_payload_round_trip() {
    // The raw payload of a quoted string, before escaping, is the exact
    // substring between the matching quotes, embedded escaped quotes
    // included: the input is rebuilt from the pieces around it.
    let source = "\"a\\\"b\" rest";
    let mut lexer = cage::configuration::lexer::Lexer::new(source);
    match lexer.word_lexer() {
        Some(Ok((_, Word::QuotedString(raw)))) => {
            // The escaper has not run: the payload holds the escape pair.
            assert_eq!("a\\\"b", raw.as_str());
            let rebuilt = format!("\"{}\"{}", "a\\\"b", " rest");
            assert_eq!(source, rebuilt.as_str());
        }
        other => panic!("expected a quoted string, got {:?}", other),
    }
}

#[test]
fn lexer_positions_are_exact() {
    let mut lexer = cage::configuration::lexer::Lexer::new("tag a\n  b");
    let (p, w) = lexer.word_lexer().unwrap().unwrap();
    assert_eq!(Word::KeywordTag, w);
    assert_eq!(Position { line: 1, column: 1 }, p);
    let (p, w) = lexer.word_lexer().unwrap().unwrap();
    assert_eq!(Word::SimpleString("a".to_string()), w);
    assert_eq!(Position { line: 1, column: 5 }, p);
    let (p, w) = lexer.word_lexer().unwrap().unwrap();
    assert_eq!(Word::NewLine, w);
    assert_eq!(Position { line: 1, column: 6 }, p);
    let (p, w) = lexer.word_lexer().unwrap().unwrap();
    assert_eq!(Word::SimpleString("b".to_string()), w);
    assert_eq!(Position { line: 2, column: 3 }, p);
    assert!(lexer.word_lexer().is_none());
}

#[test]
fn escape_drops_a_trailing_backslash() {
    // A backslash that ends the text escapes nothing and is dropped.
    assert_eq!("a", escape(ZERO, "a\\".to_string()).unwrap().as_str());
}
