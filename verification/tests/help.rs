use endbasic_store::help::{
    build_index, compute_callables, describe_callable, describe_lang, describe_topic, header,
    help, help_callable, summary, ArgSep, Callable, Expr, VarRef, VarType,
};

/// The version that the tests pass for the program.
const VERSION: &str = "0.6.0";

/// The home page that the tests pass for the program.
const HOMEPAGE: &str = "https://www.endbasic.dev/";

/// Cheat-sheet for the language syntax.
const LANG_REFERENCE: &str = r"
    Symbols (variable and function references):
        name?    Boolean (TRUE and FALSE).
        name%    Integer (32 bits).
        name$    String.
        name     Type determined by value or definition.

    Assignments:
        varref = expr

    Expressions:
        a + b      a - b       a * b     a / b      a MOD b    -a
        a AND b    NOT a       a OR b    a XOR b
        a = b      a <> b      a < b     a <= b     a > b      a >= b
        (a)        varref      funcref(a1[, ..., aN])

    Flow control:
        IF expr THEN: ...: ELSE IF expr THEN: ...: ELSE: ...: END IF
        FOR varref = expr TO expr [STEP int]: ...: NEXT
        WHILE expr: ...: END WHILE

    Misc:
        st1: st2    Separates statements (same as a newline).
        REM text    Comment until end of line.
        ' text      Comment until end of line.
        ,           Long separator for arguments to builtin call.
        ;           Short separator for arguments to builtin call.
";

fn lines_of(description: &str) -> Vec<String> {
    description.lines().map(|line| line.to_owned()).collect()
}

/// A command that does nothing.
fn do_nothing_command() -> Callable {
    Callable {
        name: "DO_NOTHING".to_owned(),
        return_type: VarType::Void,
        syntax: "this [would] <be|the> syntax \"specification\"".to_owned(),
        category: "Testing".to_owned(),
        description: lines_of(
            "This is the blurb.
First paragraph of the extended description.
Second paragraph of the extended description.",
        ),
    }
}

/// A function that does nothing.
fn empty_function() -> Callable {
    Callable {
        name: "EMPTY".to_owned(),
        return_type: VarType::Text,
        syntax: "this [would] <be|the> syntax \"specification\"".to_owned(),
        category: "Testing".to_owned(),
        description: lines_of(
            "This is the blurb.
First paragraph of the extended description.
Second paragraph of the extended description.",
        ),
    }
}

fn symbol(name: &str, ref_type: VarType, sep: ArgSep) -> (Option<Expr>, ArgSep) {
    (Some(Expr::Symbol(VarRef { name: name.to_owned(), ref_type })), sep)
}

fn strings(lines: &[&str]) -> Vec<String> {
    lines.iter().map(|line| (*line).to_owned()).collect()
}

fn run(args: Vec<(Option<Expr>, ArgSep)>, callables: &Vec<Callable>) -> Result<Vec<String>, String> {
    help(&args, callables, VERSION, HOMEPAGE)
}

#[test]
fn test_help_summarize_callables() {
    let callables =
        compute_callables(vec![help_callable(), do_nothing_command()], vec![empty_function()]);
    let mut expected = header(VERSION, HOMEPAGE);
    expected.extend(strings(&[
        "",
        "    >> Interpreter manipulation <<",
        "    HELP          Prints interactive help.",
        "",
        "    >> Testing <<",
        "    DO_NOTHING    This is the blurb.",
        "    EMPTY$        This is the blurb.",
        "",
        "    Type HELP followed by a command or function name for details.",
        "    Type HELP LANG for a quick reference guide about the language.",
        "",
    ]));
    assert_eq!(Ok(expected), run(vec![], &callables));
}

#[test]
fn test_help_describe_command() {
    let callables = compute_callables(vec![help_callable(), do_nothing_command()], vec![]);
    assert_eq!(
        Ok(strings(&[
            "",
            "    DO_NOTHING this [would] <be|the> syntax \"specification\"",
            "",
            "    This is the blurb.",
            "",
            "    First paragraph of the extended description.",
            "",
            "    Second paragraph of the extended description.",
            "",
        ])),
        run(vec![symbol("Do_Nothing", VarType::Auto, ArgSep::End)], &callables)
    );
}

fn do_help_describe_function_test(name: &str, ref_type: VarType) {
    let callables = compute_callables(vec![help_callable()], vec![empty_function()]);
    assert_eq!(
        Ok(strings(&[
            "",
            "    EMPTY$(this [would] <be|the> syntax \"specification\")",
            "",
            "    This is the blurb.",
            "",
            "    First paragraph of the extended description.",
            "",
            "    Second paragraph of the extended description.",
            "",
        ])),
        run(vec![symbol(name, ref_type, ArgSep::End)], &callables)
    );
}

#[test]
fn test_help_describe_function_without_annotation() {
    do_help_describe_function_test("Empty", VarType::Auto)
}

#[test]
fn test_help_describe_function_with_annotation() {
    do_help_describe_function_test("EMPTY", VarType::Text)
}

#[test]
fn test_help_lang() {
    let callables = compute_callables(vec![help_callable()], vec![]);
    let mut expected = strings(&LANG_REFERENCE.lines().collect::<Vec<&str>>());
    expected.extend(strings(&[""]));
    assert_eq!(Ok(expected), run(vec![symbol("lang", VarType::Auto, ArgSep::End)], &callables));
}

#[test]
fn test_help_errors() {
    let callables =
        compute_callables(vec![help_callable(), do_nothing_command()], vec![empty_function()]);
    let error = |message: &str| Err(message.to_owned());

    assert_eq!(
        error("HELP takes zero or only one argument"),
        run(
            vec![
                symbol("foo", VarType::Auto, ArgSep::Long),
                symbol("bar", VarType::Auto, ArgSep::End)
            ],
            &callables
        )
    );

    assert_eq!(
        error("Incompatible type annotation"),
        run(vec![symbol("lang", VarType::Integer, ArgSep::End)], &callables)
    );

    assert_eq!(
        error("Cannot describe unknown command or function FOO"),
        run(vec![symbol("foo", VarType::Text, ArgSep::End)], &callables)
    );
    assert_eq!(
        error("Cannot describe unknown command or function FOO"),
        run(vec![symbol("foo", VarType::Auto, ArgSep::End)], &callables)
    );

    assert_eq!(
        error("Incompatible type annotation"),
        run(vec![symbol("do_nothing", VarType::Text, ArgSep::End)], &callables)
    );
    assert_eq!(
        error("Incompatible type annotation"),
        run(vec![symbol("empty", VarType::Boolean, ArgSep::End)], &callables)
    );
}

#[test]
fn test_help_rejects_other_arguments() {
    let callables = compute_callables(vec![help_callable()], vec![]);
    let error: Result<Vec<String>, String> =
        Err("HELP takes zero or only one argument".to_owned());

    assert_eq!(error, run(vec![(Some(Expr::Other), ArgSep::End)], &callables));
    assert_eq!(error, run(vec![(None, ArgSep::End)], &callables));
    assert_eq!(error, run(vec![symbol("help", VarType::Auto, ArgSep::Short)], &callables));
    assert_eq!(error, run(vec![symbol("help", VarType::Auto, ArgSep::Long)], &callables));
    assert_eq!(
        error,
        run(
            vec![
                symbol("help", VarType::Auto, ArgSep::End),
                symbol("help", VarType::Auto, ArgSep::End)
            ],
            &callables
        )
    );
}

#[test]
fn test_help_header() {
    assert_eq!(
        strings(&[
            "",
            "    EndBASIC 0.6.0",
            "    Copyright 2020-2021 Julio Merino",
            "",
            "    Project page at <https://www.endbasic.dev/>",
            "    License Apache Version 2.0 <http://www.apache.org/licenses/LICENSE-2.0>",
        ]),
        header(VERSION, HOMEPAGE)
    );
    assert_eq!("    EndBASIC ", header("", "")[1]);
    assert_eq!("    Project page at <>", header("", "")[4]);
}

#[test]
fn test_help_callable() {
    let itself = help_callable();
    assert_eq!("HELP", itself.name);
    assert_eq!(VarType::Void, itself.return_type);
    assert_eq!("[topic]", itself.syntax);
    assert_eq!("Interpreter manipulation", itself.category);
    assert_eq!(
        lines_of(
            "Prints interactive help.
Without arguments, shows a summary of all available help topics.
With a single argument, shows detailed information about the given help topic, command, or \
function."
        ),
        itself.description
    );
    assert_eq!(
        strings(&[
            "",
            "    HELP [topic]",
            "",
            "    Prints interactive help.",
            "",
            "    Without arguments, shows a summary of all available help topics.",
            "",
            "    With a single argument, shows detailed information about the given help topic, command, or function.",
            "",
        ]),
        describe_callable(&itself)
    );
}

#[test]
fn test_help_annotations() {
    assert_eq!("", VarType::Auto.annotation());
    assert_eq!("?", VarType::Boolean.annotation());
    assert_eq!("%", VarType::Integer.annotation());
    assert_eq!("$", VarType::Text.annotation());
    assert_eq!("", VarType::Void.annotation());
}

#[test]
fn test_help_describe_without_syntax() {
    let bare = Callable {
        name: "CLEAR".to_owned(),
        return_type: VarType::Void,
        syntax: "".to_owned(),
        category: "Interpreter manipulation".to_owned(),
        description: strings(&["Clears all variables."]),
    };
    assert_eq!(
        strings(&["", "    CLEAR", "", "    Clears all variables.", ""]),
        describe_callable(&bare)
    );
    let count = Callable {
        name: "COUNT".to_owned(),
        return_type: VarType::Integer,
        syntax: "".to_owned(),
        category: "Numbers".to_owned(),
        description: vec![],
    };
    assert_eq!(strings(&["", "    COUNT%()", ""]), describe_callable(&count));
    assert_eq!(28, describe_lang().len());
}

fn callable(name: &str, return_type: VarType, category: &str, blurb: &str) -> Callable {
    Callable {
        name: name.to_owned(),
        return_type,
        syntax: "".to_owned(),
        category: category.to_owned(),
        description: strings(&[blurb, "More."]),
    }
}

#[test]
fn test_help_build_index() {
    let callables = vec![
        callable("ZED", VarType::Void, "b", "last"),
        callable("LONGEST_NAME", VarType::Boolean, "a", "second"),
        callable("MID", VarType::Text, "b", "middle"),
        callable("ABC", VarType::Integer, "a", "first"),
        callable("ñ", VarType::Void, "B", "upper case comes first"),
    ];
    let (index, width) = build_index(&callables);
    let pair = |name: &str, blurb: &str| (name.to_owned(), blurb.to_owned());
    assert_eq!(
        vec![
            ("B".to_owned(), vec![pair("ñ", "upper case comes first")]),
            ("a".to_owned(), vec![pair("ABC%", "first"), pair("LONGEST_NAME?", "second")]),
            ("b".to_owned(), vec![pair("MID$", "middle"), pair("ZED", "last")]),
        ],
        index
    );
    assert_eq!(13, width);

    let (index, width) = build_index(&vec![]);
    assert!(index.is_empty());
    assert_eq!(0, width);

    // The width counts bytes.
    let (_, width) = build_index(&vec![callable("ñ", VarType::Void, "B", "")]);
    assert_eq!(2, width);
}

#[test]
fn test_help_summary_layout() {
    let callables = vec![
        callable("ZED", VarType::Void, "b", "last"),
        callable("LONGER", VarType::Boolean, "a", "second"),
        callable("é", VarType::Text, "b", "middle"),
    ];
    let mut expected = header("1", "x");
    expected.extend(strings(&[
        "",
        "    >> a <<",
        "    LONGER?    second",
        "",
        "    >> b <<",
        "    ZED        last",
        // The filler counts the bytes of a name, so a name with an accent gets less of it.
        "    é$        middle",
        "",
        "    Type HELP followed by a command or function name for details.",
        "    Type HELP LANG for a quick reference guide about the language.",
        "",
    ]));
    assert_eq!(expected, summary(&callables, "1", "x"));

    let mut expected = header("1", "x");
    expected.extend(strings(&[
        "",
        "    Type HELP followed by a command or function name for details.",
        "    Type HELP LANG for a quick reference guide about the language.",
        "",
    ]));
    assert_eq!(expected, summary(&vec![], "1", "x"));
}

#[test]
fn test_help_describe_topic() {
    let callables = vec![
        callable("FIRST", VarType::Void, "a", "the first"),
        callable("LANG", VarType::Void, "a", "never shown"),
        callable("FIRST", VarType::Text, "a", "shadowed"),
    ];
    let topic = |name: &str, ref_type: VarType| VarRef { name: name.to_owned(), ref_type };
    assert_eq!(
        Ok(strings(&["", "    FIRST", "", "    the first", "", "    More.", ""])),
        describe_topic(&callables, &topic("first", VarType::Auto))
    );
    assert_eq!(
        Ok(strings(&["", "    FIRST", "", "    the first", "", "    More.", ""])),
        describe_topic(&callables, &topic("First", VarType::Void))
    );
    assert_eq!(
        Err("Incompatible type annotation".to_owned()),
        describe_topic(&callables, &topic("first", VarType::Text))
    );
    assert_eq!(Ok(describe_lang()), describe_topic(&callables, &topic("Lang", VarType::Auto)));
    assert_eq!(
        Err("Incompatible type annotation".to_owned()),
        describe_topic(&callables, &topic("LANG", VarType::Void))
    );
    assert_eq!(
        Err("Cannot describe unknown command or function SECOND$".to_owned()),
        describe_topic(&callables, &topic("second$", VarType::Auto))
    );
}
