//! Interactive help: the text that the `HELP` command shows.

use crate::ordered::{has_name, put_in_order, sorted_by_name};
use crate::text::{to_upper, upper};
use vstd::prelude::*;
use vstd::string::StringExecFns;

verus! {

/// The type of a variable or of what a callable returns.
#[derive(Clone, Copy, Debug, PartialEq, Eq, Structural)]
pub enum VarType {
    /// The type is to be deduced from the context.
    Auto,
    /// A boolean.
    Boolean,
    /// A 32-bit integer.
    Integer,
    /// A string.
    Text,
    /// No value at all, which is what commands return.
    Void,
}

impl VarType {
    /// The suffix that marks a name as being of this type.
    pub open spec fn annotation_of(self) -> Seq<char> {
        match self {
            VarType::Auto => ""@,
            VarType::Boolean => "?"@,
            VarType::Integer => "%"@,
            VarType::Text => "$"@,
            VarType::Void => ""@,
        }
    }

    /// Returns the suffix that marks a name as being of this type.
    pub fn annotation(&self) -> (r: &'static str)
        ensures
            r@ == self.annotation_of(),
    {
        match self {
            VarType::Auto => "",
            VarType::Boolean => "?",
            VarType::Integer => "%",
            VarType::Text => "$",
            VarType::Void => "",
        }
    }
}

/// What is known of a command or function for the sake of describing it.
#[derive(Debug)]
pub struct Callable {
    /// The name, in upper case.
    pub name: String,
    /// The type of the value returned, which is `Void` for a command.
    pub return_type: VarType,
    /// The arguments, as the user is to write them.
    pub syntax: String,
    /// The group of callables that this one is listed with.
    pub category: String,
    /// The description, line by line.  The first line is the summary.
    pub description: Vec<String>,
}

/// The separator that follows an argument of a command.
#[derive(Clone, Copy, Debug, PartialEq, Eq, Structural)]
pub enum ArgSep {
    /// The argument is the last one.
    End,
    /// A semicolon follows.
    Short,
    /// A comma follows.
    Long,
}

/// A reference to a variable or callable: its name and the type that its
/// annotation asks for.
#[derive(Debug)]
pub struct VarRef {
    /// The name, in whatever case the user wrote it.
    pub name: String,
    /// The type that the annotation of the name asks for.
    pub ref_type: VarType,
}

/// An argument of the `HELP` command, as far as the command tells arguments
/// apart.
#[derive(Debug)]
pub enum Expr {
    /// A bare symbol.
    Symbol(VarRef),
    /// Any other expression.
    Other,
}

/// The texts of a list of lines.
pub open spec fn texts(lines: Seq<String>) -> Seq<Seq<char>> {
    Seq::new(lines.len(), |i: int| lines[i]@)
}

/// The length of `s` in bytes.
pub open spec fn byte_length(s: Seq<char>) -> nat {
    vstd::utf8::encode_utf8(s).len()
}

/// `n` spaces.
pub open spec fn spaces(n: nat) -> Seq<char> {
    Seq::new(n, |i: int| ' ')
}

/// The name under which a callable is listed: its name and the annotation
/// of what it returns.
pub open spec fn display_name(callable: Callable) -> Seq<char> {
    callable.name@ + callable.return_type.annotation_of()
}

/// The header of the help summary, for the given version of the program and
/// the address of its home page.
pub open spec fn header_lines(version: Seq<char>, homepage: Seq<char>) -> Seq<Seq<char>> {
    seq![
        ""@,
        "    EndBASIC "@ + version,
        "    Copyright 2020-2021 Julio Merino"@,
        ""@,
        "    Project page at <"@ + homepage + ">"@,
        "    License Apache Version 2.0 <http://www.apache.org/licenses/LICENSE-2.0>"@,
    ]
}

/// The closing lines of the help summary.
pub open spec fn footer_lines() -> Seq<Seq<char>> {
    seq![
        ""@,
        "    Type HELP followed by a command or function name for details."@,
        "    Type HELP LANG for a quick reference guide about the language."@,
        ""@,
    ]
}

/// The line of the summary for the callable listed as `name`: the name,
/// filled up with spaces to `width` bytes, and the summary `blurb`.
pub open spec fn entry_line(name: Seq<char>, blurb: Seq<char>, width: nat) -> Seq<char> {
    "    "@ + name + spaces((width - byte_length(name)) as nat) + "    "@ + blurb
}

/// The lines of the summary for the callables of one category.
pub open spec fn group_lines(category: Seq<char>, group: Seq<(String, String)>, width: nat) -> Seq<
    Seq<char>,
> {
    seq![""@, "    >> "@ + category + " <<"@] + Seq::new(
        group.len(),
        |e: int| entry_line(group[e].0@, group[e].1@, width),
    )
}

/// The lines of the summary for all categories of `index`.
pub open spec fn index_lines(index: Seq<(String, Vec<(String, String)>)>, width: nat) -> Seq<
    Seq<char>,
>
    decreases index.len(),
{
    if index.len() == 0 {
        Seq::empty()
    } else {
        index_lines(index.drop_last(), width) + group_lines(
            index.last().0@,
            index.last().1@,
            width,
        )
    }
}

/// Whether `group` lists the callables of `category`: one item for each
/// name under which one of them is listed, with the summary of a callable
/// of that name, ordered by name.
pub open spec fn is_group(
    group: Seq<(String, String)>,
    callables: Seq<Callable>,
    category: Seq<char>,
) -> bool {
    &&& sorted_by_name(group)
    &&& forall|c: int|
        0 <= c < callables.len() && callables[c].category@ == category ==> has_name(
            group,
            #[trigger] display_name(callables[c]),
        )
    &&& forall|e: int| 0 <= e < group.len() ==> listed_as(callables, category, #[trigger] group[e])
}

/// Whether `item` is the name and the summary of a callable of `category`.
pub open spec fn listed_as(
    callables: Seq<Callable>,
    category: Seq<char>,
    item: (String, String),
) -> bool {
    exists|c: int|
        0 <= c < callables.len() && #[trigger] callables[c].category@ == category && display_name(
            callables[c],
        ) == item.0@ && callables[c].description@[0]@ == item.1@
}

/// Whether one of `callables` is of `category`.
pub open spec fn has_category(callables: Seq<Callable>, category: Seq<char>) -> bool {
    exists|c: int| 0 <= c < callables.len() && #[trigger] callables[c].category@ == category
}

/// Whether `index` is the index of `callables`: one group for each
/// category, ordered by category, each listing the callables of its category.
pub open spec fn is_index(
    index: Seq<(String, Vec<(String, String)>)>,
    callables: Seq<Callable>,
) -> bool {
    &&& sorted_by_name(index)
    &&& forall|c: int|
        0 <= c < callables.len() ==> has_name(index, #[trigger] callables[c].category@)
    &&& forall|g: int| 0 <= g < index.len() ==> has_category(callables, #[trigger] index[g].0@)
    &&& forall|g: int|
        0 <= g < index.len() ==> is_group(index[g].1@, callables, #[trigger] index[g].0@)
}

/// Whether `width` is the length in bytes of the longest name under which
/// one of `callables` is listed, or zero if there are none.
pub open spec fn is_width(width: nat, callables: Seq<Callable>) -> bool {
    &&& forall|c: int|
        0 <= c < callables.len() ==> byte_length(#[trigger] display_name(callables[c])) <= width
    &&& callables.len() == 0 ==> width == 0
    &&& callables.len() > 0 ==> exists|c: int|
        0 <= c < callables.len() && byte_length(#[trigger] display_name(callables[c])) == width
}

/// Whether every callable has a description of at least one line.
pub open spec fn all_described(callables: Seq<Callable>) -> bool {
    forall|c: int| 0 <= c < callables.len() ==> (#[trigger] callables[c]).description@.len() > 0
}

/// Whether `lines` is the summary of `callables`: the header, the index of
/// the callables by category and name, and the footer.
pub open spec fn is_summary(
    lines: Seq<Seq<char>>,
    callables: Seq<Callable>,
    version: Seq<char>,
    homepage: Seq<char>,
) -> bool {
    exists|index: Seq<(String, Vec<(String, String)>)>, width: nat|
        is_index(index, callables) && is_width(width, callables) && lines == header_lines(
            version,
            homepage,
        ) + #[trigger] index_lines(index, width) + footer_lines()
}

/// The first line of the description of a callable: its name and how to
/// write its arguments.
pub open spec fn signature_line(callable: Callable) -> Seq<char> {
    if callable.return_type == VarType::Void {
        if callable.syntax@.len() == 0 {
            "    "@ + callable.name@
        } else {
            "    "@ + callable.name@ + " "@ + callable.syntax@
        }
    } else {
        "    "@ + callable.name@ + callable.return_type.annotation_of() + "("@ + callable.syntax@
            + ")"@
    }
}

/// Each line of `description`, indented, after an empty line.
pub open spec fn paragraphs(description: Seq<String>) -> Seq<Seq<char>>
    decreases description.len(),
{
    if description.len() == 0 {
        Seq::empty()
    } else {
        paragraphs(description.drop_last()) + seq![""@, "    "@ + description.last()@]
    }
}

/// The description of one callable.
pub open spec fn callable_lines(callable: Callable) -> Seq<Seq<char>> {
    seq![""@, signature_line(callable)] + paragraphs(callable.description@) + seq![""@]
}

/// The quick reference of the language.
pub open spec fn lang_lines() -> Seq<Seq<char>> {
    seq![
        ""@,
        "    Symbols (variable and function references):"@,
        "        name?    Boolean (TRUE and FALSE)."@,
        "        name%    Integer (32 bits)."@,
        "        name$    String."@,
        "        name     Type determined by value or definition."@,
        ""@,
        "    Assignments:"@,
        "        varref = expr"@,
        ""@,
        "    Expressions:"@,
        "        a + b      a - b       a * b     a / b      a MOD b    -a"@,
        "        a AND b    NOT a       a OR b    a XOR b"@,
        "        a = b      a <> b      a < b     a <= b     a > b      a >= b"@,
        "        (a)        varref      funcref(a1[, ..., aN])"@,
        ""@,
        "    Flow control:"@,
        "        IF expr THEN: ...: ELSE IF expr THEN: ...: ELSE: ...: END IF"@,
        "        FOR varref = expr TO expr [STEP int]: ...: NEXT"@,
        "        WHILE expr: ...: END WHILE"@,
        ""@,
        "    Misc:"@,
        "        st1: st2    Separates statements (same as a newline)."@,
        "        REM text    Comment until end of line."@,
        "        ' text      Comment until end of line."@,
        "        ,           Long separator for arguments to builtin call."@,
        "        ;           Short separator for arguments to builtin call."@,
        ""@,
    ]
}

/// The position of the first of `callables` that is called `name`.
pub open spec fn position_of(callables: Seq<Callable>, name: Seq<char>) -> Option<int> {
    if exists|c: int| 0 <= c < callables.len() && #[trigger] callables[c].name@ == name {
        Some(choose|c: int| is_first_called(callables, name, c))
    } else {
        None
    }
}

/// Whether `at` is the position of the first of `callables` that is called
/// `name`.
pub open spec fn is_first_called(callables: Seq<Callable>, name: Seq<char>, at: int) -> bool {
    &&& 0 <= at < callables.len()
    &&& callables[at].name@ == name
    &&& forall|c: int| 0 <= c < at ==> (#[trigger] callables[c]).name@ != name
}

/// What `HELP` answers when asked about the topic `topic`: the quick
/// reference for `LANG`, else the description of the callable of that name,
/// whatever the case of the topic; or the reason why that cannot be shown.
pub open spec fn topic_answer(callables: Seq<Callable>, topic: VarRef) -> Result<
    Seq<Seq<char>>,
    Seq<char>,
> {
    let name = upper(topic.name@);
    if name == "LANG"@ {
        if topic.ref_type != VarType::Auto {
            Err("Incompatible type annotation"@)
        } else {
            Ok(lang_lines())
        }
    } else {
        match position_of(callables, name) {
            Some(at) => if topic.ref_type != VarType::Auto && topic.ref_type
                != callables[at].return_type {
                Err("Incompatible type annotation"@)
            } else {
                Ok(callable_lines(callables[at]))
            },
            None => Err("Cannot describe unknown command or function "@ + name),
        }
    }
}

/// Whether no two of `callables` have the same name.
pub open spec fn distinct_names(callables: Seq<Callable>) -> bool {
    forall|i: int, j: int|
        0 <= i < j < callables.len() ==> callables[i].name@ != callables[j].name@
}

/// Whether `args` asks for one topic: a single bare symbol.
pub open spec fn asks_topic(args: Seq<(Option<Expr>, ArgSep)>) -> bool {
    &&& args.len() == 1
    &&& args[0].0 matches Some(Expr::Symbol(_))
    &&& args[0].1 == ArgSep::End
}

/// The lines of a successful answer, or the message of a failed one.
pub open spec fn answer_texts(answer: Result<Vec<String>, String>) -> Result<
    Seq<Seq<char>>,
    Seq<char>,
> {
    match answer {
        Ok(lines) => Ok(texts(lines@)),
        Err(message) => Err(message@),
    }
}

/// The description of the `HELP` command itself.
pub open spec fn help_description() -> Seq<Seq<char>> {
    seq![
        "Prints interactive help."@,
        "Without arguments, shows a summary of all available help topics."@,
        "With a single argument, shows detailed information about the given help topic, command, or function."@,
    ]
}

/// Returns `a` followed by `b`.
fn join(a: &str, b: &str) -> (r: String)
    ensures
        r@ == a@ + b@,
{
    let mut r = String::from_str(a);
    r.append(b);
    r
}

/// Returns whether `a` and `b` are the same text.
fn same_text(a: &str, b: &str) -> (r: bool)
    ensures
        r == (a@ == b@),
{
    a.to_owned() == b.to_owned()
}

/// Returns the length of `s` in bytes.
fn length_in_bytes(s: &str) -> (r: usize)
    ensures
        r == byte_length(s@),
{
    s.as_bytes().len()
}

proof fn lemma_texts_push(lines: Seq<String>, line: String)
    ensures
        texts(lines.push(line)) == texts(lines).push(line@),
{
    assert(texts(lines.push(line)) =~= texts(lines).push(line@));
}

/// Returns the header for the help summary, for the given version of the
/// program and the address of its home page.
pub fn header(version: &str, homepage: &str) -> (r: Vec<String>)
    ensures
        texts(r@) == header_lines(version@, homepage@),
{
    let mut project = join("    Project page at <", homepage);
    project.append(">");
    let mut lines: Vec<String> = Vec::new();
    lines.push(String::from_str(""));
    lines.push(join("    EndBASIC ", version));
    lines.push(String::from_str("    Copyright 2020-2021 Julio Merino"));
    lines.push(String::from_str(""));
    lines.push(project);
    lines.push(
        String::from_str(
            "    License Apache Version 2.0 <http://www.apache.org/licenses/LICENSE-2.0>",
        ),
    );
    assert(texts(lines@) =~= header_lines(version@, homepage@));
    lines
}

/// Describes one command or function.
pub fn describe_callable(callable: &Callable) -> (r: Vec<String>)
    ensures
        texts(r@) == callable_lines(*callable),
{
    let mut first = join("    ", callable.name.as_str());
    if callable.return_type == VarType::Void {
        if !callable.syntax.as_str().is_empty() {
            first.append(" ");
            first.append(callable.syntax.as_str());
        }
    } else {
        first.append(callable.return_type.annotation());
        first.append("(");
        first.append(callable.syntax.as_str());
        first.append(")");
    }
    let mut lines: Vec<String> = Vec::new();
    lines.push(String::from_str(""));
    lines.push(first);
    assert(texts(lines@) =~= seq![""@, signature_line(*callable)]);
    let mut i: usize = 0;
    while i < callable.description.len()
        invariant
            i <= callable.description@.len(),
            texts(lines@) == seq![""@, signature_line(*callable)] + paragraphs(
                callable.description@.take(i as int),
            ),
        decreases callable.description@.len() - i,
    {
        let ghost before = lines@;
        lines.push(String::from_str(""));
        lines.push(join("    ", callable.description[i].as_str()));
        proof {
            let upto = callable.description@.take(i as int + 1);
            assert(upto.drop_last() =~= callable.description@.take(i as int));
            assert(upto.last() == callable.description@[i as int]);
            assert(texts(lines@) =~= texts(before) + seq![""@, "    "@ + upto.last()@]);
        }
        i += 1;
    }
    let ghost before = lines@;
    lines.push(String::from_str(""));
    proof {
        assert(callable.description@.take(i as int) =~= callable.description@);
        assert(texts(lines@) =~= texts(before) + seq![""@]);
    }
    lines
}

/// Returns the quick reference of the language syntax.
pub fn describe_lang() -> (r: Vec<String>)
    ensures
        texts(r@) == lang_lines(),
{
    let mut lines: Vec<String> = Vec::new();
    lines.push(String::from_str(""));
    lines.push(String::from_str("    Symbols (variable and function references):"));
    lines.push(String::from_str("        name?    Boolean (TRUE and FALSE)."));
    lines.push(String::from_str("        name%    Integer (32 bits)."));
    lines.push(String::from_str("        name$    String."));
    lines.push(String::from_str("        name     Type determined by value or definition."));
    lines.push(String::from_str(""));
    lines.push(String::from_str("    Assignments:"));
    lines.push(String::from_str("        varref = expr"));
    lines.push(String::from_str(""));
    lines.push(String::from_str("    Expressions:"));
    lines.push(
        String::from_str("        a + b      a - b       a * b     a / b      a MOD b    -a"),
    );
    lines.push(String::from_str("        a AND b    NOT a       a OR b    a XOR b"));
    lines.push(
        String::from_str("        a = b      a <> b      a < b     a <= b     a > b      a >= b"),
    );
    lines.push(String::from_str("        (a)        varref      funcref(a1[, ..., aN])"));
    lines.push(String::from_str(""));
    lines.push(String::from_str("    Flow control:"));
    lines.push(
        String::from_str("        IF expr THEN: ...: ELSE IF expr THEN: ...: ELSE: ...: END IF"),
    );
    lines.push(String::from_str("        FOR varref = expr TO expr [STEP int]: ...: NEXT"));
    lines.push(String::from_str("        WHILE expr: ...: END WHILE"));
    lines.push(String::from_str(""));
    lines.push(String::from_str("    Misc:"));
    lines.push(
        String::from_str("        st1: st2    Separates statements (same as a newline)."),
    );
    lines.push(String::from_str("        REM text    Comment until end of line."));
    lines.push(String::from_str("        ' text      Comment until end of line."));
    lines.push(
        String::from_str("        ,           Long separator for arguments to builtin call."),
    );
    lines.push(
        String::from_str("        ;           Short separator for arguments to builtin call."),
    );
    lines.push(String::from_str(""));
    assert(texts(lines@) =~= lang_lines());
    lines
}

/// Returns the categories of `callables`, each once, in order.
fn categories(callables: &Vec<Callable>) -> (r: Vec<(String, ())>)
    ensures
        sorted_by_name(r@),
        forall|c: int|
            0 <= c < callables@.len() ==> has_name(r@, #[trigger] callables@[c].category@),
        forall|g: int| 0 <= g < r@.len() ==> has_category(callables@, #[trigger] r@[g].0@),
{
    let mut found: Vec<(String, ())> = Vec::new();
    let mut i: usize = 0;
    while i < callables.len()
        invariant
            i <= callables@.len(),
            sorted_by_name(found@),
            forall|c: int| 0 <= c < i ==> has_name(found@, #[trigger] callables@[c].category@),
            forall|g: int|
                0 <= g < found@.len() ==> has_category(callables@, #[trigger] found@[g].0@),
        decreases callables@.len() - i,
    {
        let ghost before = found@;
        let item = (callables[i].category.clone(), ());
        put_in_order(&mut found, item);
        proof {
            assert forall|g: int| 0 <= g < found@.len() implies has_category(
                callables@,
                #[trigger] found@[g].0@,
            ) by {
                if found@[g] == item {
                    assert(callables@[i as int].category@ == found@[g].0@);
                } else {
                    let e = choose|e: int| 0 <= e < before.len() && before[e] == found@[g];
                    assert(has_category(callables@, before[e].0@));
                }
            }
        }
        i += 1;
    }
    found
}

/// Returns the names under which the callables of `category` are listed,
/// each with the summary of its callable, in order.
fn group_of(callables: &Vec<Callable>, category: &str) -> (r: Vec<(String, String)>)
    requires
        all_described(callables@),
    ensures
        is_group(r@, callables@, category@),
{
    let mut group: Vec<(String, String)> = Vec::new();
    let mut i: usize = 0;
    while i < callables.len()
        invariant
            i <= callables@.len(),
            all_described(callables@),
            sorted_by_name(group@),
            forall|c: int|
                0 <= c < i && callables@[c].category@ == category@ ==> has_name(
                    group@,
                    #[trigger] display_name(callables@[c]),
                ),
            forall|e: int|
                0 <= e < group@.len() ==> listed_as(callables@, category@, #[trigger] group@[e]),
        decreases callables@.len() - i,
    {
        let callable = &callables[i];
        if same_text(callable.category.as_str(), category) {
            let ghost before = group@;
            let name = join(callable.name.as_str(), callable.return_type.annotation());
            let item = (name, callable.description[0].clone());
            put_in_order(&mut group, item);
            proof {
                assert forall|e: int| 0 <= e < group@.len() implies listed_as(
                    callables@,
                    category@,
                    #[trigger] group@[e],
                ) by {
                    if group@[e] == item {
                        assert(callables@[i as int].category@ == category@);
                    } else {
                        let x = choose|x: int| 0 <= x < before.len() && before[x] == group@[e];
                        assert(listed_as(callables@, category@, before[x]));
                    }
                }
            }
        }
        i += 1;
    }
    group
}

/// Returns the length in bytes of the longest name under which one of
/// `callables` is listed.
fn longest_name(callables: &Vec<Callable>) -> (r: usize)
    ensures
        is_width(r as nat, callables@),
{
    let mut width: usize = 0;
    let mut i: usize = 0;
    while i < callables.len()
        invariant
            i <= callables@.len(),
            is_width(width as nat, callables@.take(i as int)),
        decreases callables@.len() - i,
    {
        let callable = &callables[i];
        let name = join(callable.name.as_str(), callable.return_type.annotation());
        let length = length_in_bytes(name.as_str());
        let ghost before = callables@.take(i as int);
        let ghost after = callables@.take(i as int + 1);
        let ghost previous = width;
        if length > width {
            width = length;
        }
        proof {
            assert forall|c: int| 0 <= c < after.len() implies byte_length(
                #[trigger] display_name(after[c]),
            ) <= width by {
                if c < i {
                    assert(after[c] == before[c]);
                }
            }
            if length > previous {
                assert(byte_length(display_name(after[i as int])) == width);
            } else if i > 0 {
                let c = choose|c: int|
                    0 <= c < before.len() && byte_length(#[trigger] display_name(before[c]))
                        == previous;
                assert(after[c] == before[c]);
                assert(byte_length(display_name(after[c])) == width);
            } else {
                assert(byte_length(display_name(after[0])) == width);
            }
        }
        i += 1;
    }
    proof {
        assert(callables@.take(i as int) =~= callables@);
    }
    width
}

/// Builds the index of callables needed to print the summary: the names
/// under which the callables are listed, with their summaries, grouped by
/// category; and the length of the longest such name.
pub fn build_index(callables: &Vec<Callable>) -> (r: (Vec<(String, Vec<(String, String)>)>, usize))
    requires
        all_described(callables@),
    ensures
        is_index(r.0@, callables@),
        is_width(r.1 as nat, callables@),
{
    let found = categories(callables);
    let mut index: Vec<(String, Vec<(String, String)>)> = Vec::new();
    let mut g: usize = 0;
    while g < found.len()
        invariant
            g <= found@.len(),
            all_described(callables@),
            index@.len() == g,
            forall|j: int| 0 <= j < g ==> (#[trigger] index@[j]).0@ == found@[j].0@,
            forall|j: int|
                0 <= j < g ==> is_group(index@[j].1@, callables@, #[trigger] index@[j].0@),
        decreases found@.len() - g,
    {
        let category = found[g].0.clone();
        let group = group_of(callables, category.as_str());
        index.push((category, group));
        g += 1;
    }
    proof {
        assert forall|i: int, j: int| 0 <= i < j < index@.len() implies crate::text::precedes(
            index@[i].0@,
            index@[j].0@,
        ) by {
            assert(index@[i].0@ == found@[i].0@);
            assert(index@[j].0@ == found@[j].0@);
        }
        assert forall|c: int| 0 <= c < callables@.len() implies has_name(
            index@,
            #[trigger] callables@[c].category@,
        ) by {
            let name = callables@[c].category@;
            let j = choose|j: int| 0 <= j < found@.len() && found@[j].0@ == name;
            assert(index@[j].0@ == name);
        }
        assert forall|j: int| 0 <= j < index@.len() implies has_category(
            callables@,
            #[trigger] index@[j].0@,
        ) by {
            assert(has_category(callables@, found@[j].0@));
        }
    }
    (index, longest_name(callables))
}

/// Returns `n` spaces.
fn filler(n: usize) -> (r: String)
    ensures
        r@ == spaces(n as nat),
{
    let mut r = String::from_str("");
    let mut i: usize = 0;
    proof {
        reveal_strlit("");
        assert(r@ =~= spaces(0));
    }
    while i < n
        invariant
            i <= n,
            r@ == spaces(i as nat),
        decreases n - i,
    {
        r.append(" ");
        proof {
            reveal_strlit(" ");
            assert(r@ =~= spaces((i + 1) as nat));
        }
        i += 1;
    }
    r
}

/// Returns the summary of all available help topics, for the given version
/// of the program and the address of its home page.
pub fn summary(callables: &Vec<Callable>, version: &str, homepage: &str) -> (r: Vec<String>)
    requires
        all_described(callables@),
    ensures
        is_summary(texts(r@), callables@, version@, homepage@),
{
    let (index, width) = build_index(callables);
    let mut lines = header(version, homepage);
    let ghost head = header_lines(version@, homepage@);

    let mut g: usize = 0;
    proof {
        assert(texts(lines@) =~= head + index_lines(index@.take(0), width as nat));
    }
    while g < index.len()
        invariant
            g <= index@.len(),
            is_index(index@, callables@),
            is_width(width as nat, callables@),
            texts(lines@) == head + index_lines(index@.take(g as int), width as nat),
        decreases index@.len() - g,
    {
        let category = index[g].0.as_str();
        let group = &index[g].1;
        let ghost before = texts(lines@);
        let mut banner = join("    >> ", category);
        banner.append(" <<");
        lines.push(String::from_str(""));
        lines.push(banner);
        let ghost opened = texts(lines@);
        proof {
            assert(opened =~= before + seq![""@, "    >> "@ + category@ + " <<"@]);
            assert(is_group(group@, callables@, index@[g as int].0@));
        }
        let mut e: usize = 0;
        while e < group.len()
            invariant
                e <= group@.len(),
                is_width(width as nat, callables@),
                is_group(group@, callables@, category@),
                texts(lines@) == opened + Seq::new(
                    e as nat,
                    |x: int| entry_line(group@[x].0@, group@[x].1@, width as nat),
                ),
            decreases group@.len() - e,
        {
            let name = group[e].0.as_str();
            let blurb = group[e].1.as_str();
            proof {
                assert(listed_as(callables@, category@, group@[e as int]));
                let c = choose|c: int|
                    0 <= c < callables@.len() && callables@[c].category@ == category@
                        && display_name(callables@[c]) == group@[e as int].0@
                        && callables@[c].description@[0]@ == group@[e as int].1@;
                assert(byte_length(display_name(callables@[c])) <= width);
            }
            let ghost shown = texts(lines@);
            let mut line = join("    ", name);
            line.append(filler(width - length_in_bytes(name)).as_str());
            line.append("    ");
            line.append(blurb);
            lines.push(line);
            proof {
                assert(texts(lines@) =~= shown.push(entry_line(name@, blurb@, width as nat)));
                assert(texts(lines@) =~= opened + Seq::new(
                    (e + 1) as nat,
                    |x: int| entry_line(group@[x].0@, group@[x].1@, width as nat),
                ));
            }
            e += 1;
        }
        proof {
            let upto = index@.take(g as int + 1);
            assert(upto.drop_last() =~= index@.take(g as int));
            assert(upto.last() == index@[g as int]);
            assert(texts(lines@) =~= head + index_lines(upto, width as nat));
        }
        g += 1;
    }
    let ghost listed = texts(lines@);
    lines.push(String::from_str(""));
    lines.push(
        String::from_str("    Type HELP followed by a command or function name for details."),
    );
    lines.push(
        String::from_str("    Type HELP LANG for a quick reference guide about the language."),
    );
    lines.push(String::from_str(""));
    proof {
        assert(index@.take(g as int) =~= index@);
        assert(texts(lines@) =~= listed + footer_lines());
        assert(texts(lines@) == head + index_lines(index@, width as nat) + footer_lines());
    }
    lines
}

/// Computes a unified collection of the given `commands` and `functions`.
pub fn compute_callables(commands: Vec<Callable>, functions: Vec<Callable>) -> (r: Vec<Callable>)
    requires
        distinct_names(commands@ + functions@),
    ensures
        r@ == commands@ + functions@,
        distinct_names(r@),
{
    let mut callables = commands;
    let mut functions = functions;
    callables.append(&mut functions);
    callables
}

/// Returns what is known of the `HELP` command itself.
pub fn help_callable() -> (r: Callable)
    ensures
        r.name@ == "HELP"@,
        r.return_type == VarType::Void,
        r.syntax@ == "[topic]"@,
        r.category@ == "Interpreter manipulation"@,
        texts(r.description@) == help_description(),
{
    let mut description: Vec<String> = Vec::new();
    description.push(String::from_str("Prints interactive help."));
    description.push(
        String::from_str("Without arguments, shows a summary of all available help topics."),
    );
    description.push(
        String::from_str(
            "With a single argument, shows detailed information about the given help topic, command, or function.",
        ),
    );
    assert(texts(description@) =~= help_description());
    Callable {
        name: String::from_str("HELP"),
        return_type: VarType::Void,
        syntax: String::from_str("[topic]"),
        category: String::from_str("Interpreter manipulation"),
        description,
    }
}

/// Returns the position of the first of `callables` that is called `name`.
fn find_callable(callables: &Vec<Callable>, name: &str) -> (r: Option<usize>)
    ensures
        match r {
            Some(at) => position_of(callables@, name@) == Some(at as int),
            None => position_of(callables@, name@) is None,
        },
        r matches Some(at) ==> at < callables@.len(),
{
    let mut i: usize = 0;
    while i < callables.len()
        invariant
            i <= callables@.len(),
            forall|c: int| 0 <= c < i ==> (#[trigger] callables@[c]).name@ != name@,
        decreases callables@.len() - i,
    {
        if same_text(callables[i].name.as_str(), name) {
            proof {
                assert(is_first_called(callables@, name@, i as int));
                let at = choose|c: int| is_first_called(callables@, name@, c);
                if at < i {
                    assert(callables@[at].name@ != name@);
                } else if at > i {
                    assert(callables@[i as int].name@ != name@);
                }
            }
            return Some(i);
        }
        i += 1;
    }
    None
}

/// Answers a request for help on one topic; see [`topic_answer`].
pub fn describe_topic(callables: &Vec<Callable>, topic: &VarRef) -> (r: Result<
    Vec<String>,
    String,
>)
    ensures
        answer_texts(r) == topic_answer(callables@, *topic),
{
    let name = to_upper(topic.name.as_str());
    if same_text(name.as_str(), "LANG") {
        if topic.ref_type != VarType::Auto {
            return Err(String::from_str("Incompatible type annotation"));
        }
        Ok(describe_lang())
    } else {
        match find_callable(callables, name.as_str()) {
            Some(at) => {
                let callable = &callables[at];
                if topic.ref_type != VarType::Auto && topic.ref_type != callable.return_type {
                    return Err(String::from_str("Incompatible type annotation"));
                }
                Ok(describe_callable(callable))
            },
            None => Err(join("Cannot describe unknown command or function ", name.as_str())),
        }
    }
}

/// Executes the `HELP` command with the arguments `args`, and returns the
/// lines to print, or the message that says what is wrong with the
/// arguments.
///
/// Without arguments, the answer is the summary of `callables`; with one
/// bare symbol, it is the description of that topic.
pub fn help(
    args: &Vec<(Option<Expr>, ArgSep)>,
    callables: &Vec<Callable>,
    version: &str,
    homepage: &str,
) -> (r: Result<Vec<String>, String>)
    requires
        all_described(callables@),
    ensures
        args@.len() == 0 ==> (r matches Ok(lines) && is_summary(
            texts(lines@),
            callables@,
            version@,
            homepage@,
        )),
        asks_topic(args@) ==> answer_texts(r) == topic_answer(
            callables@,
            args@[0].0->Some_0->Symbol_0,
        ),
        args@.len() != 0 && !asks_topic(args@) ==> (r matches Err(message) && message@
            == "HELP takes zero or only one argument"@),
{
    if args.len() == 0 {
        return Ok(summary(callables, version, homepage));
    }
    if args.len() == 1 {
        match &args[0] {
            (Some(Expr::Symbol(topic)), ArgSep::End) => {
                return describe_topic(callables, topic);
            },
            _ => {},
        }
    }
    Err(String::from_str("HELP takes zero or only one argument"))
}

} // verus!
