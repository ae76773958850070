//! Reading a GraphViz description of factor graphs: the executable reader
//! for what [`crate::factorgraph::parse`] says a description declares.
use vstd::prelude::*;

use crate::factorgraph::graphviz::NodeKindTag;
use crate::factorgraph::parse::{
    all_digits, declared_edges_of, declared_nodes_of, first_line_feed, is_digit, leading_digits,
    lines_of, number_of, read_char, read_edges, read_label, read_line, read_name, read_nodes,
    read_number, read_statement, starts_with, DeclaredEdge, DeclaredNode, Line,
};
use crate::factorgraph::FactorGraphId;

verus! {

/// What a description declares.
#[derive(Debug)]
pub struct Description {
    /// The nodes, in the order of their lines.
    pub nodes: Vec<DeclaredNode>,
    /// The edges, in the order of their lines.
    pub edges: Vec<DeclaredEdge>,
}

/// A number that was looked for in a line.
enum NumberRead {
    /// There is no digit.
    Missing,
    /// The digits write a number that is too large for the machine.
    TooLarge,
    /// The number, and the position behind its last digit.
    Found { value: usize, next: usize },
}

/// More digits do not make a number smaller.
proof fn lemma_number_grows(digits: Seq<char>, count: int)
    requires
        0 <= count <= digits.len(),
    ensures
        number_of(digits.take(count)) <= number_of(digits),
    decreases digits.len() - count,
{
    if count < digits.len() {
        lemma_number_grows(digits.drop_last(), count);
        assert(digits.drop_last().take(count) =~= digits.take(count));
    } else {
        assert(digits.take(count) =~= digits);
    }
}

/// The digits that `text` starts with are digits, and what follows them
/// does not start with one.
proof fn lemma_leading_digits_are_digits(text: Seq<char>)
    ensures
        leading_digits(text) <= text.len(),
        all_digits(text.take(leading_digits(text) as int)),
        leading_digits(text) < text.len() ==> !is_digit(text[leading_digits(text) as int]),
    decreases text.len(),
{
    if text.len() > 0 && is_digit(text[0]) {
        let rest = text.drop_first();
        lemma_leading_digits_are_digits(rest);
        let count = leading_digits(text) as int;
        assert forall|i: int| 0 <= i < text.take(count).len() implies is_digit(
            #[trigger] text.take(count)[i],
        ) by {
            if i > 0 {
                assert(text.take(count)[i] == rest.take(count - 1)[i - 1]);
            }
        }
        if count < text.len() {
            assert(text[count] == rest[count - 1]);
        }
    }
}

/// Reads the number that starts at position `at` of `line`.
fn number_at(line: &Vec<char>, at: usize) -> (read: NumberRead)
    requires
        at <= line@.len(),
    ensures
        match read_number(line@.skip(at as int)) {
            None => read is Missing,
            Some((value, rest)) => if value <= usize::MAX {
                read matches NumberRead::Found { value: found, next } && found == value && at
                    < next <= line@.len() && rest == line@.skip(next as int)
            } else {
                read is TooLarge
            },
        },
{
    let ghost text = line@.skip(at as int);
    let ghost count = leading_digits(text) as int;
    proof {
        lemma_leading_digits_are_digits(text);
    }
    let mut next: usize = at;
    let mut value: usize = 0;
    assert(text.take(0) =~= Seq::<char>::empty());
    while next < line.len() && 48 <= line[next] as u32 && line[next] as u32 <= 57
        invariant
            at <= next <= line@.len(),
            text == line@.skip(at as int),
            count == leading_digits(text),
            next - at <= count <= text.len(),
            all_digits(text.take(count)),
            count < text.len() ==> !is_digit(text[count]),
            value == number_of(text.take(next - at)),
        decreases line@.len() - next,
    {
        let digit = (line[next] as u32 - 48) as usize;
        proof {
            assert(text[next - at] == line@[next as int]);
            if next - at == count {
                assert(is_digit(text[count]));
            }
            assert(text.take(next - at + 1).drop_last() =~= text.take(next - at));
            assert(text.take(next - at + 1).last() == line@[next as int]);
            assert(number_of(text.take(next - at + 1)) == value * 10 + digit);
        }
        if value > (usize::MAX - digit) / 10 {
            proof {
                lemma_number_grows(text.take(count), next - at + 1);
                assert(text.take(count).take(next - at + 1) =~= text.take(next - at + 1));
                assert(value * 10 + digit > usize::MAX) by (nonlinear_arith)
                    requires
                        value > (usize::MAX - digit) / 10,
                        0 <= digit <= 9,
                ;
            }
            return NumberRead::TooLarge;
        }
        assert(value * 10 + digit <= usize::MAX) by (nonlinear_arith)
            requires
                value <= (usize::MAX - digit) / 10,
                0 <= digit <= 9,
        ;
        value = value * 10 + digit;
        next += 1;
    }
    proof {
        if next < line@.len() {
            assert(text[next - at] == line@[next as int]);
        }
        if next - at < count {
            assert(is_digit(text.take(count)[next - at]));
        }
        assert(next - at == count);
        assert(text.skip(count) =~= line@.skip(next as int));
    }
    if next == at {
        NumberRead::Missing
    } else {
        NumberRead::Found { value, next }
    }
}

/// Whether the character `c` stands at position `at` of `line`.
fn char_at(line: &Vec<char>, at: usize, c: char) -> (found: bool)
    requires
        at <= line@.len(),
    ensures
        match read_char(line@.skip(at as int), c) {
            None => !found,
            Some(rest) => found && at < line@.len() && rest == line@.skip(at + 1),
        },
        found ==> at < usize::MAX,
{
    if at < line.len() && line[at] == c {
        proof {
            assert(line@.skip(at as int)[0] == line@[at as int]);
            assert(line@.skip(at as int).drop_first() =~= line@.skip(at + 1));
        }
        true
    } else {
        proof {
            if at < line@.len() {
                assert(line@.skip(at as int)[0] == line@[at as int]);
            }
        }
        false
    }
}

/// Reads the name of a node that starts at position `at` of `line`: the
/// node, and the position behind the name.
fn name_at(line: &Vec<char>, at: usize) -> (read: Option<(FactorGraphId, usize, usize)>)
    requires
        at <= line@.len(),
    ensures
        match read_name(line@.skip(at as int)) {
            None => read.is_none(),
            Some((graph, index, rest)) => read matches Some((found_graph, found_index, next))
                && found_graph == graph && found_index == index && at < next <= line@.len()
                && rest == line@.skip(next as int),
        },
{
    if !char_at(line, at, '"') {
        return None;
    }
    let (index, at) = match number_at(line, at + 1) {
        NumberRead::Found { value, next } => (value, next),
        _ => {
            return None;
        },
    };
    if !char_at(line, at, 'v') {
        return None;
    }
    let (generation, at) = match number_at(line, at + 1) {
        NumberRead::Found { value, next } => (value, next),
        _ => {
            return None;
        },
    };
    if !char_at(line, at, '_') {
        return None;
    }
    let (node, at) = match number_at(line, at + 1) {
        NumberRead::Found { value, next } => (value, next),
        _ => {
            return None;
        },
    };
    if !char_at(line, at, '"') {
        return None;
    }
    if index > u32::MAX as usize || generation > u32::MAX as usize {
        return None;
    }
    Some((FactorGraphId { index: index as u32, generation: generation as u32 }, node, at + 1))
}

/// Whether two dashes between blanks stand at position `at` of `line`.
fn dashes_at(line: &Vec<char>, at: usize) -> (found: bool)
    requires
        at <= line@.len(),
    ensures
        found == starts_with(line@.skip(at as int), " -- "@),
        found ==> at + 4 <= line@.len() <= usize::MAX,
{
    proof {
        reveal_strlit(" -- ");
    }
    let ghost rest = line@.skip(at as int);
    if line.len() - at < 4 {
        return false;
    }
    let found = line[at] == ' ' && line[at + 1] == '-' && line[at + 2] == '-' && line[at + 3]
        == ' ';
    proof {
        assert(rest.take(4)[0] == line@[at as int]);
        assert(rest.take(4)[1] == line@[at + 1]);
        assert(rest.take(4)[2] == line@[at + 2]);
        assert(rest.take(4)[3] == line@[at + 3]);
        if found {
            assert(rest.take(4) =~= " -- "@);
        }
    }
    found
}

/// Whether the opening of a label stands at position `at` of `line`.
fn label_opening_at(line: &Vec<char>, at: usize) -> (found: bool)
    requires
        at <= line@.len(),
    ensures
        found == starts_with(line@.skip(at as int), " [label=\""@),
        found ==> at + 9 <= line@.len() <= usize::MAX,
{
    proof {
        reveal_strlit(" [label=\"");
    }
    let ghost rest = line@.skip(at as int);
    if line.len() - at < 9 {
        return false;
    }
    let found = line[at] == ' ' && line[at + 1] == '[' && line[at + 2] == 'l' && line[at + 3]
        == 'a' && line[at + 4] == 'b' && line[at + 5] == 'e' && line[at + 6] == 'l' && line[at
        + 7] == '=' && line[at + 8] == '"';
    proof {
        assert(rest.take(9)[0] == line@[at as int]);
        assert(rest.take(9)[1] == line@[at + 1]);
        assert(rest.take(9)[2] == line@[at + 2]);
        assert(rest.take(9)[3] == line@[at + 3]);
        assert(rest.take(9)[4] == line@[at + 4]);
        assert(rest.take(9)[5] == line@[at + 5]);
        assert(rest.take(9)[6] == line@[at + 6]);
        assert(rest.take(9)[7] == line@[at + 7]);
        assert(rest.take(9)[8] == line@[at + 8]);
        if found {
            assert(rest.take(9) =~= " [label=\""@);
        }
    }
    found
}

/// The kind of node that the label at position `at` of `line` stands for.
fn label_at(line: &Vec<char>, at: usize) -> (kind: Option<NodeKindTag>)
    requires
        at <= line@.len(),
    ensures
        kind == read_label(line@.skip(at as int)),
{
    let ghost rest = line@.skip(at as int);
    if at >= line.len() {
        return None;
    }
    assert(rest[0] == line@[at as int]);
    if line[at] == 'v' {
        return Some(NodeKindTag::Variable);
    }
    if line.len() - at < 2 || line[at] != 'f' {
        return None;
    }
    assert(rest[1] == line@[at + 1]);
    let second = line[at + 1];
    if second == 'r' {
        Some(NodeKindTag::InterRobotFactor)
    } else if second == 'd' {
        Some(NodeKindTag::DynamicFactor)
    } else if second == 'o' {
        Some(NodeKindTag::ObstacleFactor)
    } else if second == 't' {
        Some(NodeKindTag::TrackingFactor)
    } else {
        None
    }
}

/// What the statement says that starts at position `at` of `line`.
fn statement_at(line: &Vec<char>, at: usize) -> (said: Line)
    requires
        at <= line@.len(),
    ensures
        said == read_statement(line@.skip(at as int)),
{
    let Some((graph, index, next)) = name_at(line, at) else {
        return Line::Other;
    };
    if dashes_at(line, next) {
        proof {
            assert(line@.skip(next as int).skip(4) =~= line@.skip(next + 4));
        }
        match name_at(line, next + 4) {
            None => Line::Other,
            Some((to_graph, to, _)) => Line::Edge(
                DeclaredEdge { from_graph: graph, from: index, to_graph, to },
            ),
        }
    } else if label_opening_at(line, next) {
        proof {
            assert(line@.skip(next as int).skip(9) =~= line@.skip(next + 9));
        }
        match label_at(line, next + 9) {
            None => Line::Other,
            Some(kind) => Line::Node(DeclaredNode { graph, index, kind }),
        }
    } else {
        Line::Other
    }
}

/// What the line `line` says.
pub fn line_said(line: &Vec<char>) -> (said: Line)
    ensures
        said == read_line(line@),
{
    if line.len() > 0 && line[0] == '"' {
        assert(line@.skip(0) =~= line@);
        statement_at(line, 0)
    } else if line.len() > 1 && line[0] == ' ' && line[1] == '"' {
        assert(line@.skip(1) =~= line@.drop_first());
        statement_at(line, 1)
    } else {
        Line::Other
    }
}

/// The first line feed of a text stands inside the text or at its end, and
/// no line feed stands before it.
pub proof fn lemma_first_line_feed_is_first(text: Seq<char>)
    ensures
        0 <= first_line_feed(text) <= text.len(),
        first_line_feed(text) < text.len() ==> text[first_line_feed(text)] == '\n',
        forall|i: int| 0 <= i < first_line_feed(text) ==> #[trigger] text[i] != '\n',
    decreases text.len(),
{
    if text.len() > 0 && text[0] != '\n' {
        let rest = text.drop_first();
        lemma_first_line_feed_is_first(rest);
        assert forall|i: int| 0 <= i < first_line_feed(text) implies #[trigger] text[i]
            != '\n' by {
            if i > 0 {
                assert(text[i] == rest[i - 1]);
            }
        }
    }
}

/// The lines of a text that ends with a line feed, followed by more text,
/// are the lines of the one and then the lines of the other.
pub proof fn lemma_lines_of_concat(first: Seq<char>, second: Seq<char>)
    requires
        first.len() == 0 || first.last() == '\n',
    ensures
        lines_of(first + second) == lines_of(first) + lines_of(second),
    decreases first.len(),
{
    if first.len() == 0 {
        assert(first + second =~= second);
        assert(lines_of(first) + lines_of(second) =~= lines_of(second));
    } else {
        let all = first + second;
        lemma_first_line_feed_is_first(first);
        lemma_first_line_feed_is_first(all);
        let at = first_line_feed(first);
        let at_all = first_line_feed(all);
        assert(at < first.len()) by {
            if at >= first.len() {
                assert(first[first.len() - 1] != '\n');
            }
        }
        assert(at_all == at) by {
            assert(all[at] == first[at]);
            if at_all < at {
                assert(all[at_all] == first[at_all]);
            }
        }
        let rest = first.skip(at + 1);
        assert(all.take(at) =~= first.take(at));
        assert(all.skip(at + 1) =~= rest + second);
        if rest.len() > 0 {
            assert(rest.last() == first.last());
        }
        lemma_lines_of_concat(rest, second);
        assert(lines_of(all) =~= lines_of(first) + lines_of(second));
    }
}

/// The lines of a line without a line feed that is closed by one are that
/// line; those of one that is not closed and not empty, too.
pub proof fn lemma_lines_of_one(line: Seq<char>)
    requires
        forall|i: int| 0 <= i < line.len() ==> #[trigger] line[i] != '\n',
    ensures
        lines_of(line + seq!['\n']) == seq![line],
        line.len() > 0 ==> lines_of(line) == seq![line],
        line.len() == 0 ==> lines_of(line) == Seq::<Seq<char>>::empty(),
{
    let closed = line + seq!['\n'];
    lemma_first_line_feed_is_first(closed);
    lemma_first_line_feed_is_first(line);
    let at = first_line_feed(closed);
    assert(at == line.len()) by {
        assert(closed[line.len() as int] == '\n');
        if at < line.len() {
            assert(closed[at] == line[at]);
        }
    }
    assert(closed.take(at) =~= line);
    assert(closed.skip(at + 1) =~= Seq::<char>::empty());
    assert(lines_of(closed.skip(at + 1)) =~= Seq::<Seq<char>>::empty());
    assert(lines_of(closed) =~= seq![line]);
    if line.len() > 0 {
        assert(first_line_feed(line) == line.len()) by {
            if first_line_feed(line) < line.len() {
                assert(line[first_line_feed(line)] == '\n');
            }
        }
    }
}

/// The characters of `text`.
fn chars_of(text: &str) -> (chars: Vec<char>)
    ensures
        chars@ == text@,
{
    let mut chars: Vec<char> = Vec::new();
    for c in it: text.chars()
        invariant
            chars@ == it.seq().take(it.index() as int),
            it.seq() == text@,
    {
        chars.push(c);
        assert(chars@ =~= it.seq().take(it.index() + 1));
    }
    assert(chars@ =~= text@);
    chars
}

/// Reads the description `text`: the nodes and the edges that its lines
/// declare, in order. Lines that declare neither are passed over.
pub fn read_description(text: &str) -> (description: Description)
    ensures
        description.nodes@ == read_nodes(text@),
        description.edges@ == read_edges(text@),
{
    let chars = chars_of(text);
    let mut nodes: Vec<DeclaredNode> = Vec::new();
    let mut edges: Vec<DeclaredEdge> = Vec::new();
    let mut line: Vec<char> = Vec::new();
    let mut next: usize = 0;
    let ghost mut start: int = 0;
    proof {
        assert(chars@.take(0) =~= Seq::<char>::empty());
        assert(chars@.subrange(0, 0) =~= Seq::<char>::empty());
    }
    while next < chars.len()
        invariant
            0 <= start <= next <= chars@.len(),
            start == 0 || chars@[start - 1] == '\n',
            line@ == chars@.subrange(start, next as int),
            forall|i: int| 0 <= i < line@.len() ==> #[trigger] line@[i] != '\n',
            nodes@ == declared_nodes_of(lines_of(chars@.take(start))),
            edges@ == declared_edges_of(lines_of(chars@.take(start))),
        decreases chars@.len() - next,
    {
        let c = chars[next];
        if c == '\n' {
            let said = line_said(&line);
            proof {
                let before = chars@.take(start);
                let closed = line@ + seq!['\n'];
                assert(chars@.take(next + 1) =~= before + closed);
                if start > 0 {
                    assert(before.last() == chars@[start - 1]);
                }
                lemma_lines_of_concat(before, closed);
                lemma_lines_of_one(line@);
                let lines = lines_of(chars@.take(next + 1));
                assert(lines =~= lines_of(before).push(line@));
                assert(lines.drop_last() =~= lines_of(before));
            }
            match said {
                Line::Node(node) => nodes.push(node),
                Line::Edge(edge) => edges.push(edge),
                Line::Other => {},
            }
            line = Vec::new();
            next += 1;
            proof {
                start = next as int;
                assert(chars@.subrange(start, next as int) =~= Seq::<char>::empty());
            }
        } else {
            line.push(c);
            next += 1;
            assert(line@ =~= chars@.subrange(start, next as int));
        }
    }
    let said = line_said(&line);
    proof {
        let before = chars@.take(start);
        assert(chars@ =~= before + line@);
        if start > 0 {
            assert(before.last() == chars@[start - 1]);
        }
        lemma_lines_of_concat(before, line@);
        lemma_lines_of_one(line@);
        if line@.len() > 0 {
            assert(lines_of(chars@) =~= lines_of(before).push(line@));
            assert(lines_of(chars@).drop_last() =~= lines_of(before));
        } else {
            assert(lines_of(chars@) =~= lines_of(before));
        }
    }
    if line.len() > 0 {
        match said {
            Line::Node(node) => nodes.push(node),
            Line::Edge(edge) => edges.push(edge),
            Line::Other => {},
        }
    }
    Description { nodes, edges }
}

} // verus!
