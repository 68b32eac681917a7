//! Tests of the resolved object tree: the pre-order walk and the generator
//! URL query.

use cage::char_iter::Position;
use cage::configuration::tree::Definition;
use cage::configuration::tree::DefinitionKey;
use cage::configuration::tree::Generator;
use cage::configuration::tree::GeneratorDefault;
use cage::configuration::tree::Object;
use cage::configuration::tree::ObjectValue;
use cage::configuration::tree::Pipe;
use cage::configuration::tree::Tree;

const P: Position = Position { line: 0, column: 0 };

fn literal(s: &str) -> Object {
    Object {
        position: P,
        value: ObjectValue::Literal(s.to_string()),
    }
}

fn variable(s: &str) -> Object {
    Object {
        position: P,
        value: ObjectValue::Variable(s.to_string()),
    }
}

fn create_pipe(src: Object, generator: Generator) -> Object {
    Object {
        position: P,
        value: ObjectValue::Pipe(Pipe {
            input: Box::new(src),
            generator,
            output_is_dir: true,
        }),
    }
}

#[test]
fn test_object_iter() {
    let pipe_src = literal("source");
    let aggregation = literal("literal string");
    let composition_intern = vec![
        variable("variable"),
        literal("literal string"),
        Object {
            position: P,
            value: ObjectValue::Pipe(Pipe {
                input: Box::new(literal("source")),
                generator: Generator::Variable(String::from("var")),
                output_is_dir: true,
            }),
        },
        Object {
            position: P,
            value: ObjectValue::Aggregation(vec![(
                String::from("foo/bar/"),
                literal("literal string"),
            )]),
        },
    ];
    let root = Object {
        position: P,
        value: ObjectValue::Composition(vec![
            variable("variable"),
            literal("literal string"),
            Object {
                position: P,
                value: ObjectValue::Pipe(Pipe {
                    input: Box::new(literal("source")),
                    generator: Generator::Variable(String::from("var")),
                    output_is_dir: true,
                }),
            },
            Object {
                position: P,
                value: ObjectValue::Aggregation(vec![(
                    String::from("foo/bar/"),
                    literal("literal string"),
                )]),
            },
        ]),
    };

    println!("root: {:#?}", root);

    let mut iter = root.collect().into_iter();
    assert_eq!(Some(&root), iter.next());
    assert_eq!(Some(&composition_intern[0]), iter.next());
    assert_eq!(Some(&composition_intern[1]), iter.next());
    assert_eq!(Some(&composition_intern[2]), iter.next());
    assert_eq!(Some(&pipe_src), iter.next());
    assert_eq!(Some(&composition_intern[3]), iter.next());
    assert_eq!(Some(&aggregation), iter.next());
    assert_eq!(None, iter.next());
}

#[test]
fn walk_is_repeatable() {
    // Re-running the walk over an unmodified tree visits the same nodes in
    // the same pre-order sequence.
    let root = Object {
        position: P,
        value: ObjectValue::Composition(vec![
            variable("a"),
            create_pipe(literal("b"), Generator::Url("https://exemple.com/u".to_string())),
        ]),
    };
    let first: Vec<&Object> = root.walk();
    let second: Vec<&Object> = root.walk();
    assert_eq!(first, second);
    assert_eq!(first, root.collect());
}

#[test]
fn generator_url_list() {
    let mut default: Vec<(String, String)> = Vec::new();
    default.push(("bar".to_string(), "https://gen.exemple.com/bar".to_string()));
    default.push(("foo".to_string(), "https://gen.exemple.com/foo".to_string()));

    let root = create_pipe(
        create_pipe(
            create_pipe(
                literal("literal"),
                Generator::Default(GeneratorDefault {
                    default_name: "bar".to_string(),
                    url: "https://exemple.com/custom/bar".to_string(),
                }),
            ),
            Generator::Default(GeneratorDefault {
                default_name: "specificfoo".to_string(),
                url: "https://exemple.com/custom/foo".to_string(),
            }),
        ),
        Generator::Url("https://exemple.com/url".to_string()),
    );

    println!("root: {:#?}", root);

    let tree = Tree(vec![Definition {
        position: P,
        key: DefinitionKey::SystemRelease,
        value: root,
    }]);
    let urls = tree.generator_url_list(&default);

    assert_eq!(3, urls.len());
    assert!(urls.iter().any(|u| u == "https://gen.exemple.com/bar"));
    assert!(urls.iter().any(|u| u == "https://exemple.com/custom/foo"));
    assert!(urls.iter().any(|u| u == "https://exemple.com/url"));
    assert_eq!(1, tree.number_of_definition());
    assert_eq!(1, tree.len());
}

#[test]
fn default_generator_override() {
    // A registered default wins over the stage's own fallback URL.
    let root = create_pipe(
        literal("x"),
        Generator::Default(GeneratorDefault {
            default_name: "bar".to_string(),
            url: "https://fallback".to_string(),
        }),
    );
    let tree = Tree(vec![Definition {
        position: P,
        key: DefinitionKey::Variable("v".to_string()),
        value: root,
    }]);
    let defaults = vec![("bar".to_string(), "https://real".to_string())];
    let urls = tree.generator_url_list(&defaults);
    assert_eq!(vec!["https://real".to_string()], urls);
}

#[test]
fn paths_and_variables_are_not_fetched() {
    let root = Object {
        position: P,
        value: ObjectValue::Composition(vec![
            create_pipe(literal("a"), Generator::Path("gen/local.wasm".to_string())),
            create_pipe(literal("b"), Generator::Variable("g".to_string())),
            create_pipe(literal("c"), Generator::Url("https://exemple.com/u".to_string())),
            create_pipe(literal("d"), Generator::Url("https://exemple.com/u".to_string())),
        ]),
    };
    let tree = Tree(vec![Definition {
        position: P,
        key: DefinitionKey::SystemRun,
        value: root,
    }]);
    // Duplicates collapse; paths and variables contribute nothing.
    let urls = tree.generator_url_list(&Vec::new());
    assert_eq!(vec!["https://exemple.com/u".to_string()], urls);
}
