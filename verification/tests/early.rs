//! Tests of the early grammar revision: the character source, the word
//! scanners, the state-machine lexer and the statement parser.

use cage::char_iter::CharItem;
use cage::char_iter::Position;
use cage::draft::error::ConfigurationError;
use cage::draft::lexer::Lexer;
use cage::draft::lexer::Word;
use cage::draft::parser::Parser;
use cage::draft::simple::SimpleLexer;
use cage::draft::simple::SimpleWordType;
use cage::draft::statement::Generator;
use cage::draft::statement::GeneratorValue;
use cage::draft::statement::Statement;
use cage::draft::words::word_lexer;
use cage::draft::words::GeneralWordType;
use cage::draft::words::State;

const ZERO: Position = Position { line: 0, column: 0 };

#[test]
fn test_char_iter() {
    let mut iter = CharItem::new("Hel\nlo");
    assert_eq!(Some('H'), iter.next());
    assert_eq!(Position { line: 1, column: 2 }, iter.position());
    assert_eq!(Some('e'), iter.next());
    assert_eq!(Position { line: 1, column: 3 }, iter.position());
    assert_eq!(Some('l'), iter.next());
    assert_eq!(Position { line: 1, column: 4 }, iter.position());
    assert_eq!(Some('\n'), iter.next());
    assert_eq!(Position { line: 2, column: 1 }, iter.position());
    assert_eq!(Some('l'), iter.next());
    assert_eq!(Position { line: 2, column: 2 }, iter.position());
    assert_eq!(Some('o'), iter.next());
    assert_eq!(Position { line: 2, column: 3 }, iter.position());
}

#[test]
fn lexer_test_word_lexer() {
    let chars: Vec<char> = "yolo = [\n\t{\n\t\t# A comment\n\t\t# \"sdfb\":\n\t},\n\tyoloPartent1,\n\tyoloPartent2,\n]"
        .chars()
        .collect();
    let mut at: usize = 0;
    let mut buff: Vec<char> = Vec::new();
    let mut state = State::Word;

    let mut t = |r: GeneralWordType,
                 word: &str,
                 at: &mut usize,
                 buff: &mut Vec<char>,
                 state: &mut State| {
        assert_eq!(Some(r), word_lexer(&chars, at, buff, state));
        let text: String = buff.iter().collect();
        assert_eq!(word, text.as_str());
        buff.clear();
    };
    t(GeneralWordType::Word, "yolo", &mut at, &mut buff, &mut state);
    t(GeneralWordType::Word, "=", &mut at, &mut buff, &mut state);
    t(GeneralWordType::Word, "[", &mut at, &mut buff, &mut state);
    t(GeneralWordType::Word, "{", &mut at, &mut buff, &mut state);
    t(GeneralWordType::Comment, " A comment", &mut at, &mut buff, &mut state);
    t(GeneralWordType::Comment, " \"sdfb\":", &mut at, &mut buff, &mut state);
    t(GeneralWordType::Word, "},", &mut at, &mut buff, &mut state);
    t(GeneralWordType::Word, "yoloPartent1,", &mut at, &mut buff, &mut state);
    t(GeneralWordType::Word, "yoloPartent2,", &mut at, &mut buff, &mut state);
    t(GeneralWordType::Word, "]", &mut at, &mut buff, &mut state);

    assert_eq!(None, word_lexer(&chars, &mut at, &mut buff, &mut state));
}

#[test]
fn simple_test_word_lexer() {
    let s = "yolo = [\n\t{\n\t\t# A comment\n\t\t\"file\": $\"A great literal string.\nEnclose by double quote \\\"\\\".\",\n\t},\n\tyoloPartent1,\n\tyoloPartent2,\n]";

    let mut lexer = SimpleLexer::new(s);

    let mut t = |r: SimpleWordType, word: &str| {
        let (ty, text) = lexer.next().unwrap();
        assert_eq!(r, ty);
        assert_eq!(word, text.as_str());
    };
    t(SimpleWordType::Word, "yolo");
    t(SimpleWordType::Word, "=");
    t(SimpleWordType::Word, "[");
    t(SimpleWordType::Word, "{");
    t(SimpleWordType::Comment, " A comment");
    t(SimpleWordType::String, "file");
    t(SimpleWordType::Word, ":");
    t(SimpleWordType::Word, "$");
    t(
        SimpleWordType::String,
        "A great literal string.\nEnclose by double quote \\\"\\\".",
    );
    t(SimpleWordType::Word, ",");
    t(SimpleWordType::Word, "},");
    t(SimpleWordType::Word, "yoloPartent1,");
    t(SimpleWordType::Word, "yoloPartent2,");
    t(SimpleWordType::Word, "]");

    assert_eq!(None, lexer.next());
}

#[test]
fn test_lexer() {
    let mut l = Lexer::new(
        "\n# A comment\ntag superTag\n\nfile front \"front/\" > \"min\" ?? $\"https://exemple.com/minifier\"\n\ndir$pkg[\n\t{\n\t\t\"file.txt\": $\"A great literal string.\nEnclose by double quote \\\"\\\".\",\n\t},\n\tvariable,\n]\n",
    );
    let mut next = || l.next().unwrap().1;

    assert_eq!(Word::NewLine, next());
    assert_eq!(Word::Comment(" A comment".to_string()), next());

    assert_eq!(Word::KeywordTag, next());
    assert_eq!(Word::SimpleString("superTag".to_string()), next());
    assert_eq!(Word::NewLine, next());
    assert_eq!(Word::NewLine, next());

    assert_eq!(Word::KeywordFile, next());
    assert_eq!(Word::SimpleString("front".to_string()), next());
    assert_eq!(Word::QuotedString("front/".to_string()), next());
    assert_eq!(Word::PipeDirectory, next());
    assert_eq!(Word::QuotedString("min".to_string()), next());
    assert_eq!(Word::DefaultGenerator, next());
    assert_eq!(
        Word::DollardString("https://exemple.com/minifier".to_string()),
        next()
    );
    assert_eq!(Word::NewLine, next());
    assert_eq!(Word::NewLine, next());

    assert_eq!(Word::KeywordDir, next());
    assert_eq!(Word::SystemPackage, next());
    assert_eq!(Word::DirectoryConcatOpen, next());
    assert_eq!(Word::NewLine, next());

    assert_eq!(Word::DirectoryComposeOpen, next());
    assert_eq!(Word::NewLine, next());

    assert_eq!(Word::QuotedString("file.txt".to_string()), next());
    assert_eq!(Word::Colon, next());
    assert_eq!(
        Word::DollardString(
            "A great literal string.\nEnclose by double quote \\\"\\\".".to_string()
        ),
        next()
    );
    assert_eq!(Word::Comma, next());
    assert_eq!(Word::NewLine, next());

    assert_eq!(Word::DirectoryComposeClose, next());
    assert_eq!(Word::Comma, next());
    assert_eq!(Word::NewLine, next());

    assert_eq!(Word::SimpleString("variable".to_string()), next());
    assert_eq!(Word::Comma, next());
    assert_eq!(Word::NewLine, next());

    assert_eq!(Word::DirectoryConcatClose, next());
    assert_eq!(Word::NewLine, next());

    assert_eq!(None, l.next());
    assert_eq!(Ok(()), l.err());
}

#[test]
fn early_lexer_error_is_reported() {
    let mut l = Lexer::new("tag t $$");
    while l.next().is_some() {}
    match l.err() {
        Err((_, e)) => assert_eq!(
            cage::configuration::LexerError::DoubleDollard,
            e
        ),
        Ok(()) => panic!("expected a recorded error"),
    }
}

#[test]
fn parse_generator_value() {
    let pos_gen_1 = Position { line: 1, column: 5 };
    let pos_gen_2 = Position { line: 2, column: 6 };
    let src: Vec<Result<(Position, Word), ConfigurationError>> = vec![
        Ok((
            pos_gen_1,
            Word::DollardString("https://exemple.com/generator.wasm".to_string()),
        )),
        Ok((ZERO, Word::Comma)),
        Ok((pos_gen_2, Word::DollardString("g".to_string()))),
        Ok((ZERO, Word::NewLine)),
        Ok((ZERO, Word::DefaultGenerator)),
        Ok((ZERO, Word::Comment("a comment".to_string()))),
        Ok((ZERO, Word::QuotedString("generator.wasm".to_string()))),
        Ok((ZERO, Word::Comma)),
    ];
    let mut p = Parser::new(src);

    assert_eq!(
        Generator {
            position: pos_gen_1,
            name: None,
            generator: GeneratorValue::Url("https://exemple.com/generator.wasm".to_string()),
            args: Vec::new(),
        },
        p.parse_generator_value().unwrap()
    );
    p.skip_token();
    assert_eq!(
        Generator {
            position: pos_gen_2,
            name: Some(String::from("g")),
            generator: GeneratorValue::File("generator.wasm".to_string()),
            args: Vec::new(),
        },
        p.parse_generator_value().unwrap()
    );
}

#[test]
fn parser_err() {
    let s: Vec<Result<(Position, Word), ConfigurationError>> = vec![
        Err(ConfigurationError::VersionNotFound),
        Ok((ZERO, Word::NewLine)),
        Ok((ZERO, Word::NewLine)),
    ];
    let mut p = Parser::new(s);
    assert_eq!(Some(Err(ConfigurationError::VersionNotFound)), p.next());
    assert_eq!(Some(Ok(Statement::EmptyLine)), p.next());
    assert_eq!(None, p.next());
}

#[test]
fn parser_tag_and_newline() {
    let pos_foo = Position {
        line: 17,
        column: 42,
    };
    let pos_bar = Position {
        line: 56,
        column: 124,
    };
    let s: Vec<Result<(Position, Word), ConfigurationError>> = vec![
        Ok((ZERO, Word::NewLine)),
        Ok((ZERO, Word::KeywordTag)),
        Ok((ZERO, Word::NewLine)),
        Ok((pos_foo, Word::SimpleString("foo".to_string()))),
        Ok((ZERO, Word::NewLine)),
        Ok((ZERO, Word::NewLine)),
        Ok((ZERO, Word::KeywordTag)),
        Ok((pos_bar, Word::SimpleString("bar".to_string()))),
        Ok((ZERO, Word::NewLine)),
        Ok((ZERO, Word::NewLine)),
    ];
    let mut p = Parser::new(s);
    assert_eq!(
        Some(Ok(Statement::Tag(pos_foo, "foo".to_string()))),
        p.next()
    );
    assert_eq!(Some(Ok(Statement::EmptyLine)), p.next());
    assert_eq!(
        Some(Ok(Statement::Tag(pos_bar, "bar".to_string()))),
        p.next()
    );
    assert_eq!(Some(Ok(Statement::EmptyLine)), p.next());
    assert_eq!(None, p.next());
}

#[test]
fn early_parse_end_to_end() {
    let out = cage::draft::statement::parse("\ntag foo\n\ntag bar\n");
    let tags: Vec<&Statement> = out
        .iter()
        .filter_map(|r| r.as_ref().ok())
        .filter(|s| matches!(s, Statement::Tag(_, _)))
        .collect();
    assert_eq!(2, tags.len());
}
