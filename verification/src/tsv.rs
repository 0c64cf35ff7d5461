//! Reading the nodes of a workspace from tab-separated text: one node to a
//! line, eight fields to a node.

use vstd::prelude::*;
use crate::number::{decimal_text, parse_i32, parsed_i32, push_decimal};
use crate::query::filter_text;
use crate::text::{chars_of, optional_view, push_text, rows, slice_of, string_from, trim, trimmed};
use crate::types::AnalysisWorkspaceNode;
use crate::workspace::{nags_from, node_records, parse_nags, NodeRecord};

verus! {

/// The first index at or after `from` that holds `sep`, or the length of
/// `s` where there is none.
pub open spec fn next_of(s: Seq<char>, sep: char, from: int) -> int
    decreases s.len() - from,
{
    if 0 <= from < s.len() && s[from] != sep {
        next_of(s, sep, from + 1)
    } else {
        from
    }
}

/// The fields of `s[from..]` between separators `sep`: one more than there
/// are separators.
pub open spec fn fields_from(s: Seq<char>, sep: char, from: int) -> Seq<Seq<char>>
    decreases s.len() - from,
{
    if from < 0 || from > s.len() {
        Seq::empty()
    } else {
        let end = next_of(s, sep, from);
        if from <= end < s.len() {
            seq![s.subrange(from, end)] + fields_from(s, sep, end + 1)
        } else {
            seq![s.subrange(from, s.len() as int)]
        }
    }
}

/// A line without the carriage return at its end, if it has one.
pub open spec fn without_return(line: Seq<char>) -> Seq<char> {
    if line.len() > 0 && line.last() == '\r' {
        line.drop_last()
    } else {
        line
    }
}

/// The lines of `s[from..]`. A line ends with a line feed, or a carriage
/// return and a line feed, neither of which belongs to it; the last line
/// may do without. Nothing follows the last line ending.
pub open spec fn lines_from(s: Seq<char>, from: int) -> Seq<Seq<char>>
    decreases s.len() - from,
{
    if from < 0 || from >= s.len() {
        Seq::empty()
    } else {
        let end = next_of(s, '\n', from);
        if from <= end < s.len() {
            seq![without_return(s.subrange(from, end))] + lines_from(s, end + 1)
        } else {
            seq![s.subrange(from, s.len() as int)]
        }
    }
}

/// The index that `next_of` names.
pub fn find_next(s: &Vec<char>, sep: char, from: usize) -> (end: usize)
    requires
        from <= s.len(),
    ensures
        end == next_of(s@, sep, from as int),
        from <= end <= s.len(),
{
    let mut end: usize = from;
    while end < s.len() && s[end] != sep
        invariant
            from <= end <= s.len(),
            next_of(s@, sep, end as int) == next_of(s@, sep, from as int),
        decreases s.len() - end,
    {
        end += 1;
    }
    end
}

/// Splits `s` at every `sep`.
pub fn split_fields(s: &Vec<char>, sep: char) -> (out: Vec<Vec<char>>)
    ensures
        rows(out@) == fields_from(s@, sep, 0),
        out.len() >= 1,
{
    let mut out: Vec<Vec<char>> = Vec::new();
    let mut from: usize = 0;
    assert(rows(out@) == Seq::<Seq<char>>::empty());
    loop
        invariant_except_break
            rows(out@) + fields_from(s@, sep, from as int) == fields_from(s@, sep, 0),
        invariant
            from <= s.len(),
        ensures
            rows(out@) == fields_from(s@, sep, 0),
            out.len() >= 1,
        decreases s.len() - from,
    {
        let end = find_next(s, sep, from);
        let ghost before = rows(out@);
        if end >= s.len() {
            let last = slice_of(s, from, s.len());
            assert(rows(out@.push(last)) == before.push(last@));
            assert(before.push(last@) == before + seq![last@]);
            out.push(last);
            break ;
        }
        let field = slice_of(s, from, end);
        proof {
            assert(rows(out@.push(field)) == before.push(field@));
            assert(before.push(field@) + fields_from(s@, sep, end + 1) == before + (seq![field@]
                + fields_from(s@, sep, end + 1)));
        }
        out.push(field);
        from = end + 1;
    }
    out
}

/// Splits `s` into its lines.
pub fn split_lines(s: &Vec<char>) -> (out: Vec<Vec<char>>)
    ensures
        rows(out@) == lines_from(s@, 0),
{
    let mut out: Vec<Vec<char>> = Vec::new();
    let mut from: usize = 0;
    assert(rows(out@) == Seq::<Seq<char>>::empty());
    while from < s.len()
        invariant
            from <= s.len(),
            rows(out@) + lines_from(s@, from as int) == lines_from(s@, 0),
        decreases s.len() - from,
    {
        let end = find_next(s, '\n', from);
        let ghost before = rows(out@);
        if end >= s.len() {
            let last = slice_of(s, from, s.len());
            proof {
                assert(rows(out@.push(last)) == before.push(last@));
                assert(before.push(last@) == before + seq![last@]);
                assert(lines_from(s@, s.len() as int) == Seq::<Seq<char>>::empty());
                assert(before.push(last@) + Seq::<Seq<char>>::empty() == before.push(last@));
            }
            out.push(last);
            from = s.len();
        } else {
            let stop: usize = if end > from && s[end - 1] == '\r' {
                end - 1
            } else {
                end
            };
            let line = slice_of(s, from, stop);
            proof {
                let raw = s@.subrange(from as int, end as int);
                if end > from {
                    assert(raw.last() == s@[end - 1]);
                }
                assert(line@ == without_return(raw)) by {
                    if stop < end {
                        assert(raw.drop_last() == s@.subrange(from as int, stop as int));
                    }
                }
                assert(rows(out@.push(line)) == before.push(line@));
                assert(before.push(line@) + lines_from(s@, end + 1) == before + (seq![line@]
                    + lines_from(s@, end + 1)));
            }
            out.push(line);
            from = end + 1;
        }
    }
    out
}

/// The error text for a line with the wrong number of fields.
pub open spec fn wrong_columns(line_number: nat, found: nat) -> Seq<char> {
    "invalid nodes TSV line "@ + decimal_text(line_number) + ": expected 8 columns, got "@
        + decimal_text(found)
}

/// The error text for a line whose last field is no number.
pub open spec fn wrong_sort_index(line_number: nat, field: Seq<char>) -> Seq<char> {
    "invalid sort_index at line "@ + decimal_text(line_number) + ": '"@ + field + "'"@
}

/// The node that the line with the number `line_number` spells: id,
/// parent, standard and coordinate notation, position, comment, glyphs and
/// sort index, in this order.
pub open spec fn node_of_line(line: Seq<char>, line_number: nat) -> Result<NodeRecord, Seq<char>> {
    let columns = fields_from(line, '\t', 0);
    if columns.len() != 8 {
        Err(wrong_columns(line_number, columns.len()))
    } else {
        match parsed_i32(columns[7]) {
            Some(sort_index) => Ok(
                NodeRecord {
                    id: trimmed(columns[0]),
                    parent_id: filter_text(Some(columns[1])),
                    san: filter_text(Some(columns[2])),
                    uci: filter_text(Some(columns[3])),
                    fen: columns[4],
                    comment: columns[5],
                    nags: nags_from(columns[6], 0),
                    sort_index,
                },
            ),
            None => Err(wrong_sort_index(line_number, columns[7])),
        }
    }
}

/// The nodes of the lines `lines[at..]`, after those read so far. Blank
/// lines are passed over, but counted.
pub open spec fn nodes_from(lines: Seq<Seq<char>>, at: int, so_far: Seq<NodeRecord>) -> Result<
    Seq<NodeRecord>,
    Seq<char>,
>
    decreases lines.len() - at,
{
    if at < 0 || at >= lines.len() {
        Ok(so_far)
    } else if trimmed(lines[at]).len() == 0 {
        nodes_from(lines, at + 1, so_far)
    } else {
        match node_of_line(lines[at], (at + 1) as nat) {
            Ok(node) => nodes_from(lines, at + 1, so_far.push(node)),
            Err(text) => Err(text),
        }
    }
}

/// The nodes that a text spells. A text without a node is refused.
pub open spec fn nodes_of_text(content: Seq<char>) -> Result<Seq<NodeRecord>, Seq<char>> {
    match nodes_from(lines_from(content, 0), 0, Seq::empty()) {
        Ok(nodes) => if nodes.len() == 0 {
            Err("nodes TSV has no rows"@)
        } else {
            Ok(nodes)
        },
        Err(text) => Err(text),
    }
}

fn kept_field(v: &Vec<char>) -> (r: Option<String>)
    ensures
        optional_view(r) == filter_text(Some(v@)),
{
    let t = trim(v);
    if t.len() == 0 {
        None
    } else {
        Some(string_from(&t))
    }
}

/// Reads the node of one line.
fn read_node(line: &Vec<char>, line_number: usize) -> (r: Result<AnalysisWorkspaceNode, String>)
    ensures
        match r {
            Ok(node) => node_of_line(line@, line_number as nat) == Ok::<NodeRecord, Seq<char>>(
                node@,
            ),
            Err(text) => node_of_line(line@, line_number as nat) == Err::<NodeRecord, Seq<char>>(
                text@,
            ),
        },
{
    let columns = split_fields(line, '\t');
    let ghost cols = fields_from(line@, '\t', 0);
    if columns.len() != 8 {
        let mut text = String::new();
        push_text(&mut text, "invalid nodes TSV line ");
        push_decimal(&mut text, line_number as u64);
        push_text(&mut text, ": expected 8 columns, got ");
        push_decimal(&mut text, columns.len() as u64);
        return Err(text);
    }
    proof {
        assert(cols[0] == columns@[0]@);
        assert(cols[1] == columns@[1]@);
        assert(cols[2] == columns@[2]@);
        assert(cols[3] == columns@[3]@);
        assert(cols[4] == columns@[4]@);
        assert(cols[5] == columns@[5]@);
        assert(cols[6] == columns@[6]@);
        assert(cols[7] == columns@[7]@);
    }
    let sort_index = match parse_i32(&columns[7]) {
        Some(n) => n,
        None => {
            let mut text = String::new();
            push_text(&mut text, "invalid sort_index at line ");
            push_decimal(&mut text, line_number as u64);
            push_text(&mut text, ": '");
            push_text(&mut text, string_from(&columns[7]).as_str());
            push_text(&mut text, "'");
            return Err(text);
        },
    };
    let id = trim(&columns[0]);
    let nags_field = string_from(&columns[6]);
    Ok(
        AnalysisWorkspaceNode {
            id: string_from(&id),
            parent_id: kept_field(&columns[1]),
            san: kept_field(&columns[2]),
            uci: kept_field(&columns[3]),
            fen: string_from(&columns[4]),
            comment: string_from(&columns[5]),
            nags: parse_nags(nags_field.as_str()),
            sort_index,
        },
    )
}

/// Reads the nodes of a workspace from tab-separated text.
pub fn parse_analysis_nodes_tsv(content: &str) -> (r: Result<Vec<AnalysisWorkspaceNode>, String>)
    ensures
        match r {
            Ok(nodes) => nodes_of_text(content@) == Ok::<Seq<NodeRecord>, Seq<char>>(
                node_records(nodes@),
            ),
            Err(text) => nodes_of_text(content@) == Err::<Seq<NodeRecord>, Seq<char>>(text@),
        },
{
    let chars = chars_of(content);
    let lines = split_lines(&chars);
    let mut nodes: Vec<AnalysisWorkspaceNode> = Vec::new();
    let mut at: usize = 0;
    let ghost all = lines_from(content@, 0);
    assert(node_records(nodes@) == Seq::<NodeRecord>::empty());
    while at < lines.len()
        invariant
            at <= lines.len(),
            all == rows(lines@),
            all == lines_from(content@, 0),
            nodes_from(all, at as int, node_records(nodes@)) == nodes_from(all, 0, Seq::empty()),
        decreases lines.len() - at,
    {
        assert(all[at as int] == lines@[at as int]@);
        let t = trim(&lines[at]);
        if t.len() > 0 {
            match read_node(&lines[at], at + 1) {
                Ok(node) => {
                    assert(node_records(nodes@.push(node)) == node_records(nodes@).push(node@));
                    nodes.push(node);
                },
                Err(text) => {
                    return Err(text);
                },
            }
        }
        at += 1;
    }
    if nodes.len() == 0 {
        return Err("nodes TSV has no rows".to_owned());
    }
    Ok(nodes)
}

} // verus!
