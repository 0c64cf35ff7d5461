//! What is stored of an analysis workspace: the checks that its name, its
//! root and its tree of nodes must pass, the rows that the nodes become, and
//! the text that stands for a node's annotation glyphs.

use vstd::prelude::*;
use crate::query::{filter_text, normalized_filter_text};
use crate::text::{
    chars_of,
    copy_string,
    optional_view,
    push_text,
    same_chars,
    slice_of,
    string_from,
    texts,
    trim,
    trimmed,
    trimmed_text,
};
use crate::types::{AnalysisWorkspaceError, AnalysisWorkspaceNode};

verus! {

/// The mathematical value of an `AnalysisWorkspaceNode`.
pub struct NodeRecord {
    pub id: Seq<char>,
    pub parent_id: Option<Seq<char>>,
    pub san: Option<Seq<char>>,
    pub uci: Option<Seq<char>>,
    pub fen: Seq<char>,
    pub comment: Seq<char>,
    pub nags: Seq<Seq<char>>,
    pub sort_index: i32,
}

impl View for AnalysisWorkspaceNode {
    type V = NodeRecord;

    open spec fn view(&self) -> NodeRecord {
        NodeRecord {
            id: self.id@,
            parent_id: optional_view(self.parent_id),
            san: optional_view(self.san),
            uci: optional_view(self.uci),
            fen: self.fen@,
            comment: self.comment@,
            nags: texts(self.nags@),
            sort_index: self.sort_index,
        }
    }
}

/// The views of a sequence of nodes.
pub open spec fn node_records(v: Seq<AnalysisWorkspaceNode>) -> Seq<NodeRecord> {
    v.map_values(|n: AnalysisWorkspaceNode| n@)
}

/// A node as it is stored.
#[derive(Debug, Clone, PartialEq, Eq)]
pub struct NodeRow {
    pub node_id: String,
    pub parent_node_id: Option<String>,
    pub san: Option<String>,
    pub uci: Option<String>,
    pub fen: String,
    pub comment: String,
    pub nags: String,
    pub sort_index: i32,
}

/// The mathematical value of a `NodeRow`.
pub struct RowRecord {
    pub node_id: Seq<char>,
    pub parent_node_id: Option<Seq<char>>,
    pub san: Option<Seq<char>>,
    pub uci: Option<Seq<char>>,
    pub fen: Seq<char>,
    pub comment: Seq<char>,
    pub nags: Seq<char>,
    pub sort_index: i32,
}

impl View for NodeRow {
    type V = RowRecord;

    open spec fn view(&self) -> RowRecord {
        RowRecord {
            node_id: self.node_id@,
            parent_node_id: optional_view(self.parent_node_id),
            san: optional_view(self.san),
            uci: optional_view(self.uci),
            fen: self.fen@,
            comment: self.comment@,
            nags: self.nags@,
            sort_index: self.sort_index,
        }
    }
}

/// The views of a sequence of rows.
pub open spec fn row_records(v: Seq<NodeRow>) -> Seq<RowRecord> {
    v.map_values(|r: NodeRow| r@)
}

/// A workspace as it is stored.
#[derive(Debug, Clone, PartialEq, Eq)]
pub struct WorkspaceDraft {
    pub source_db_path: String,
    pub name: String,
    pub root_node_id: String,
    pub current_node_id: Option<String>,
    pub nodes: Vec<NodeRow>,
}

/// The mathematical value of a `WorkspaceDraft`.
pub struct DraftRecord {
    pub source_db_path: Seq<char>,
    pub name: Seq<char>,
    pub root_node_id: Seq<char>,
    pub current_node_id: Option<Seq<char>>,
    pub nodes: Seq<RowRecord>,
}

impl View for WorkspaceDraft {
    type V = DraftRecord;

    open spec fn view(&self) -> DraftRecord {
        DraftRecord {
            source_db_path: self.source_db_path@,
            name: self.name@,
            root_node_id: self.root_node_id@,
            current_node_id: optional_view(self.current_node_id),
            nodes: row_records(self.nodes@),
        }
    }
}

/// The glyphs that count: each one trimmed, the empty ones left out.
pub open spec fn kept_nags(nags: Seq<Seq<char>>) -> Seq<Seq<char>>
    decreases nags.len(),
{
    if nags.len() == 0 {
        Seq::empty()
    } else if trimmed(nags.last()).len() > 0 {
        kept_nags(nags.drop_last()).push(trimmed(nags.last()))
    } else {
        kept_nags(nags.drop_last())
    }
}

/// The items, with a comma between each two.
pub open spec fn comma_joined(items: Seq<Seq<char>>) -> Seq<char>
    decreases items.len(),
{
    if items.len() == 0 {
        Seq::empty()
    } else if items.len() == 1 {
        items[0]
    } else {
        comma_joined(items.drop_last()) + ","@ + items.last()
    }
}

/// The text that stands for a node's glyphs.
pub open spec fn nags_text(nags: Seq<Seq<char>>) -> Seq<char> {
    comma_joined(kept_nags(nags))
}

/// Writes a node's glyphs as one text.
pub fn serialize_nags(nags: &Vec<String>) -> (out: String)
    ensures
        out@ == nags_text(texts(nags@)),
{
    let mut out = String::new();
    let mut any = false;
    let mut i: usize = 0;
    let ghost all = texts(nags@);
    assert(all.take(0) == Seq::<Seq<char>>::empty());
    while i < nags.len()
        invariant
            i <= nags.len(),
            all == texts(nags@),
            any == (kept_nags(all.take(i as int)).len() > 0),
            out@ == comma_joined(kept_nags(all.take(i as int))),
        decreases nags.len() - i,
    {
        let t = trimmed_text(nags[i].as_str());
        proof {
            let now = all.take(i + 1);
            assert(now.drop_last() == all.take(i as int));
            assert(now.last() == nags@[i as int]@);
            if t@.len() > 0 {
                let kept = kept_nags(now);
                assert(kept == kept_nags(all.take(i as int)).push(t@));
                assert(kept.drop_last() == kept_nags(all.take(i as int)));
                assert(kept.last() == t@);
            }
        }
        if !t.as_str().is_empty() {
            if any {
                push_text(&mut out, ",");
            }
            push_text(&mut out, t.as_str());
            proof {
                assert(Seq::<char>::empty() + t@ == t@);
            }
            any = true;
        }
        i += 1;
    }
    assert(all.take(nags.len() as int) == all);
    out
}

/// The first index at or after `from` that holds a comma, or the length of
/// `s` where there is none.
pub open spec fn next_comma(s: Seq<char>, from: int) -> int
    decreases s.len() - from,
{
    if 0 <= from < s.len() && s[from] != ',' {
        next_comma(s, from + 1)
    } else {
        from
    }
}

/// The glyphs that a stored text holds from `from` on: what stands between
/// the commas, trimmed, the empty ones left out.
pub open spec fn nags_from(s: Seq<char>, from: int) -> Seq<Seq<char>>
    decreases s.len() - from,
{
    if from < 0 || from > s.len() {
        Seq::empty()
    } else {
        let end = next_comma(s, from);
        let item = trimmed(s.subrange(from, end));
        let rest = if from <= end < s.len() {
            nags_from(s, end + 1)
        } else {
            Seq::empty()
        };
        if item.len() > 0 {
            seq![item] + rest
        } else {
            rest
        }
    }
}

/// Reads a node's glyphs from their stored text.
pub fn parse_nags(raw: &str) -> (out: Vec<String>)
    ensures
        texts(out@) == nags_from(raw@, 0),
{
    let chars = chars_of(raw);
    let mut out: Vec<String> = Vec::new();
    let mut from: usize = 0;
    assert(texts(out@) == Seq::<Seq<char>>::empty());
    loop
        invariant_except_break
            texts(out@) + nags_from(raw@, from as int) == nags_from(raw@, 0),
        invariant
            from <= chars.len(),
            chars@ == raw@,
        ensures
            texts(out@) == nags_from(raw@, 0),
        decreases chars.len() - from,
    {
        let mut end: usize = from;
        while end < chars.len() && chars[end] != ','
            invariant
                from <= end <= chars.len(),
                next_comma(chars@, end as int) == next_comma(chars@, from as int),
            decreases chars.len() - end,
        {
            end += 1;
        }
        let piece = slice_of(&chars, from, end);
        let t = trim(&piece);
        let ghost before = texts(out@);
        if t.len() > 0 {
            let item = string_from(&t);
            assert(texts(out@.push(item)) == before.push(item@));
            out.push(item);
        }
        if end >= chars.len() {
            proof {
                if t@.len() > 0 {
                    assert(before.push(t@) == before + seq![t@]);
                    assert(seq![t@] + Seq::<Seq<char>>::empty() == seq![t@]);
                } else {
                    assert(before + Seq::<Seq<char>>::empty() == before);
                }
            }
            break ;
        }
        proof {
            if t@.len() > 0 {
                assert(before.push(t@) + nags_from(raw@, end + 1) == before + (seq![t@]
                    + nags_from(raw@, end + 1)));
            }
        }
        from = end + 1;
    }
    out
}

/// Whether a text holds no comma.
pub open spec fn is_comma_free(s: Seq<char>) -> bool {
    forall|i: int| 0 <= i < s.len() ==> #[trigger] s[i] != ','
}

/// Where the next comma is, within a text and within the same text
/// followed by a comma and more.
proof fn lemma_next_comma_in_longer_text(t: Seq<char>, more: Seq<char>, from: int)
    requires
        0 <= from <= t.len(),
    ensures
        from <= next_comma(t, from) <= t.len(),
        next_comma(t + ","@ + more, from) == next_comma(t, from),
    decreases t.len() - from,
{
    let longer = t + ","@ + more;
    reveal_strlit(",");
    assert(","@.len() == 1 && ","@[0] == ',');
    if from < t.len() {
        assert(longer[from] == t[from]);
        if t[from] != ',' {
            lemma_next_comma_in_longer_text(t, more, from + 1);
        }
    } else {
        assert(longer[from] == ',');
    }
}

/// Where the next comma is in a text that holds none.
proof fn lemma_next_comma_of_comma_free(s: Seq<char>, from: int)
    requires
        0 <= from <= s.len(),
        forall|i: int| from <= i < s.len() ==> #[trigger] s[i] != ',',
    ensures
        next_comma(s, from) == s.len(),
    decreases s.len() - from,
{
    if from < s.len() {
        lemma_next_comma_of_comma_free(s, from + 1);
    }
}

/// The glyphs of a text that is followed by a comma and one more glyph are
/// the glyphs of the text and that glyph.
proof fn lemma_nags_of_longer_text(t: Seq<char>, last: Seq<char>, from: int)
    requires
        0 <= from <= t.len(),
        last.len() > 0,
        trimmed(last) == last,
        is_comma_free(last),
    ensures
        nags_from(t + ","@ + last, from) == nags_from(t, from).push(last),
    decreases t.len() - from,
{
    let longer = t + ","@ + last;
    reveal_strlit(",");
    assert(","@.len() == 1);
    lemma_next_comma_in_longer_text(t, last, from);
    let end = next_comma(t, from);
    assert(longer.subrange(from, end) == t.subrange(from, end));
    let item = trimmed(t.subrange(from, end));
    if end < t.len() {
        lemma_nags_of_longer_text(t, last, end + 1);
        let rest = nags_from(t, end + 1);
        if item.len() > 0 {
            assert(seq![item] + rest.push(last) == (seq![item] + rest).push(last));
        }
    } else {
        let behind: int = t.len() as int + 1;
        assert forall|i: int| behind <= i < longer.len() implies #[trigger] longer[i] != ',' by {
            assert(longer[i] == last[i - behind]);
        }
        lemma_next_comma_of_comma_free(longer, behind);
        assert(longer.subrange(behind, longer.len() as int) == last);
        assert(nags_from(longer, behind) == seq![last]);
        assert(nags_from(t, end + 1) == Seq::<Seq<char>>::empty()) by {
            reveal_with_fuel(nags_from, 1);
        }
        if item.len() > 0 {
            assert(seq![item] + seq![last] == seq![item].push(last));
            assert(seq![item] + Seq::<Seq<char>>::empty() == seq![item]);
        } else {
            assert(seq![last] == Seq::<Seq<char>>::empty().push(last));
        }
    }
}

/// Glyphs that were joined by commas are read back as they were, if each
/// is trimmed, not empty and without a comma.
pub proof fn lemma_joined_nags_are_read_back(items: Seq<Seq<char>>)
    requires
        forall|i: int|
            0 <= i < items.len() ==> (#[trigger] items[i]).len() > 0 && trimmed(items[i])
                == items[i] && is_comma_free(items[i]),
    ensures
        nags_from(comma_joined(items), 0) == items,
    decreases items.len(),
{
    if items.len() == 0 {
    } else if items.len() == 1 {
        let only = items[0];
        lemma_next_comma_of_comma_free(only, 0);
        assert(only.subrange(0, only.len() as int) == only);
        assert(nags_from(only, 0) == seq![only]);
    } else {
        let init = items.drop_last();
        lemma_joined_nags_are_read_back(init);
        lemma_nags_of_longer_text(comma_joined(init), items.last(), 0);
        assert(init.push(items.last()) == items);
    }
}

/// A trimmed text holds no comma where the text holds none.
proof fn lemma_trimmed_is_comma_free(s: Seq<char>)
    requires
        is_comma_free(s),
    ensures
        is_comma_free(trimmed(s)),
{
    crate::text::lemma_first_non_space_bounds(s, 0);
    crate::text::lemma_last_non_space_end_bounds(s, s.len() as int);
    let start = crate::text::first_non_space(s, 0);
    let t = trimmed(s);
    assert forall|i: int| 0 <= i < t.len() implies #[trigger] t[i] != ',' by {
        assert(t[i] == s[start + i]);
    }
}

/// The glyphs that count are trimmed, not empty, and without a comma
/// where the glyphs given hold none.
proof fn lemma_kept_nags_are_clean(nags: Seq<Seq<char>>)
    requires
        forall|i: int| 0 <= i < nags.len() ==> is_comma_free(#[trigger] nags[i]),
    ensures
        forall|i: int|
            0 <= i < kept_nags(nags).len() ==> (#[trigger] kept_nags(nags)[i]).len() > 0
                && trimmed(kept_nags(nags)[i]) == kept_nags(nags)[i] && is_comma_free(
                kept_nags(nags)[i],
            ),
    decreases nags.len(),
{
    if nags.len() > 0 {
        let init = nags.drop_last();
        assert forall|i: int| 0 <= i < init.len() implies is_comma_free(#[trigger] init[i]) by {
            assert(init[i] == nags[i]);
        }
        lemma_kept_nags_are_clean(init);
        let t = trimmed(nags.last());
        crate::text::lemma_trimmed_has_clean_ends(nags.last());
        lemma_trimmed_is_comma_free(nags.last());
        let kept = kept_nags(nags);
        assert forall|i: int| 0 <= i < kept.len() implies (#[trigger] kept[i]).len() > 0 && trimmed(
            kept[i],
        ) == kept[i] && is_comma_free(kept[i]) by {
            if i < kept_nags(init).len() {
                assert(kept[i] == kept_nags(init)[i]);
            }
        }
    }
}

/// What `serialize_nags` writes, `parse_nags` reads back: the glyphs that
/// count, provided no glyph holds a comma.
pub proof fn lemma_nags_are_read_back(nags: Seq<Seq<char>>)
    requires
        forall|i: int| 0 <= i < nags.len() ==> is_comma_free(#[trigger] nags[i]),
    ensures
        nags_from(nags_text(nags), 0) == kept_nags(nags),
{
    lemma_kept_nags_are_clean(nags);
    lemma_joined_nags_are_read_back(kept_nags(nags));
}

/// The nodes' ids, trimmed.
pub open spec fn trimmed_ids(nodes: Seq<NodeRecord>) -> Seq<Seq<char>> {
    nodes.map_values(|n: NodeRecord| trimmed(n.id))
}

/// What is wrong with a node by itself, if anything: an empty id, before
/// an empty position.
pub open spec fn node_fault(n: NodeRecord) -> Option<Seq<char>> {
    if trimmed(n.id).len() == 0 {
        Some("node id cannot be empty"@)
    } else if trimmed(n.fen).len() == 0 {
        Some("node fen cannot be empty"@)
    } else {
        None
    }
}

/// The fault of the first node at or after `at` that has one.
pub open spec fn first_node_fault(nodes: Seq<NodeRecord>, at: int) -> Option<Seq<char>>
    decreases nodes.len() - at,
{
    if at < 0 || at >= nodes.len() {
        None
    } else {
        match node_fault(nodes[at]) {
            Some(text) => Some(text),
            None => first_node_fault(nodes, at + 1),
        }
    }
}

/// The error text for a root that is no node.
pub open spec fn root_missing(root: Seq<char>) -> Seq<char> {
    "root node '"@ + root + "' was not found in node payload"@
}

/// The error text for a current node that is no node.
pub open spec fn current_missing(current: Seq<char>) -> Seq<char> {
    "current node '"@ + current + "' was not found in node payload"@
}

/// The error text for a parent that is no node.
pub open spec fn parent_missing(parent: Seq<char>, id: Seq<char>) -> Seq<char> {
    "parent node '"@ + parent + "' for node '"@ + id + "' was not found in node payload"@
}

/// What is wrong with a node's parent, if anything: it is named and is not
/// among `ids`.
pub open spec fn parent_fault(n: NodeRecord, ids: Seq<Seq<char>>) -> Option<Seq<char>> {
    match filter_text(n.parent_id) {
        Some(parent) => if ids.contains(parent) {
            None
        } else {
            Some(parent_missing(parent, n.id))
        },
        None => None,
    }
}

/// The parent fault of the first node at or after `at` that has one.
pub open spec fn first_parent_fault(nodes: Seq<NodeRecord>, ids: Seq<Seq<char>>, at: int)
    -> Option<Seq<char>>
    decreases nodes.len() - at,
{
    if at < 0 || at >= nodes.len() {
        None
    } else {
        match parent_fault(nodes[at], ids) {
            Some(text) => Some(text),
            None => first_parent_fault(nodes, ids, at + 1),
        }
    }
}

/// What a workspace is given as.
pub struct WorkspaceInput {
    pub source_db_path: Seq<char>,
    pub name: Seq<char>,
    pub root_node_id: Seq<char>,
    pub current_node_id: Option<Seq<char>>,
    pub nodes: Seq<NodeRecord>,
}

/// The first thing that is wrong with a workspace, if anything. In order:
/// the source, the name and the root must not be blank; there must be a
/// node; no node may have a blank id or position; the root, the current
/// node where one is named, and each node's parent where one is named must
/// be among the nodes.
pub open spec fn workspace_fault(w: WorkspaceInput) -> Option<Seq<char>> {
    let ids = trimmed_ids(w.nodes);
    if trimmed(w.source_db_path).len() == 0 {
        Some("source_db_path is required"@)
    } else if trimmed(w.name).len() == 0 {
        Some("workspace name is required"@)
    } else if trimmed(w.root_node_id).len() == 0 {
        Some("root_node_id is required"@)
    } else if w.nodes.len() == 0 {
        Some("at least one analysis node is required"@)
    } else if first_node_fault(w.nodes, 0) is Some {
        first_node_fault(w.nodes, 0)
    } else if !ids.contains(trimmed(w.root_node_id)) {
        Some(root_missing(trimmed(w.root_node_id)))
    } else if filter_text(w.current_node_id) is Some && !ids.contains(
        filter_text(w.current_node_id)->0,
    ) {
        Some(current_missing(filter_text(w.current_node_id)->0))
    } else {
        first_parent_fault(w.nodes, ids, 0)
    }
}

/// The row that a node is stored as: id and position trimmed, parent and
/// move notations kept only where they are not blank, the glyphs as one
/// text.
pub open spec fn row_of(n: NodeRecord) -> RowRecord {
    RowRecord {
        node_id: trimmed(n.id),
        parent_node_id: filter_text(n.parent_id),
        san: filter_text(n.san),
        uci: filter_text(n.uci),
        fen: trimmed(n.fen),
        comment: n.comment,
        nags: nags_text(n.nags),
        sort_index: n.sort_index,
    }
}

/// The workspace as it is stored.
pub open spec fn draft_of(w: WorkspaceInput) -> DraftRecord {
    DraftRecord {
        source_db_path: trimmed(w.source_db_path),
        name: trimmed(w.name),
        root_node_id: trimmed(w.root_node_id),
        current_node_id: filter_text(w.current_node_id),
        nodes: w.nodes.map_values(|n: NodeRecord| row_of(n)),
    }
}

fn invalid_input(text: &str) -> (e: AnalysisWorkspaceError)
    ensures
        e matches AnalysisWorkspaceError::InvalidInput(m) && m@ == text@,
{
    AnalysisWorkspaceError::InvalidInput(text.to_owned())
}

/// Whether `x` is among `ids`.
fn has_text(ids: &Vec<String>, x: &str) -> (r: bool)
    ensures
        r == texts(ids@).contains(x@),
{
    let wanted = chars_of(x);
    let mut i: usize = 0;
    while i < ids.len()
        invariant
            i <= ids.len(),
            wanted@ == x@,
            forall|k: int| 0 <= k < i ==> texts(ids@)[k] != x@,
        decreases ids.len() - i,
    {
        let here = chars_of(ids[i].as_str());
        if same_chars(&here, &wanted) {
            assert(texts(ids@)[i as int] == x@);
            return true;
        }
        i += 1;
    }
    false
}

/// Whether a result is the stored form of the workspace `w`, or the first
/// thing that is wrong with it.
pub open spec fn draft_result_is(r: Result<WorkspaceDraft, AnalysisWorkspaceError>, w: WorkspaceInput)
    -> bool {
    match r {
        Ok(draft) => workspace_fault(w) is None && draft@ == draft_of(w),
        Err(AnalysisWorkspaceError::InvalidInput(text)) => workspace_fault(w) == Some(text@),
        Err(_) => false,
    }
}

/// Checks a workspace and puts it in the form in which it is stored.
pub fn prepare_workspace(
    source_db_path: &str,
    name: &str,
    root_node_id: &str,
    current_node_id: &Option<String>,
    nodes: &Vec<AnalysisWorkspaceNode>,
) -> (r: Result<WorkspaceDraft, AnalysisWorkspaceError>)
    ensures
        draft_result_is(
            r,
            (WorkspaceInput {
                source_db_path: source_db_path@,
                name: name@,
                root_node_id: root_node_id@,
                current_node_id: optional_view(*current_node_id),
                nodes: node_records(nodes@),
            }),
        ),
{
    let ghost w = WorkspaceInput {
        source_db_path: source_db_path@,
        name: name@,
        root_node_id: root_node_id@,
        current_node_id: optional_view(*current_node_id),
        nodes: node_records(nodes@),
    };
    let source = trimmed_text(source_db_path);
    let title = trimmed_text(name);
    let root = trimmed_text(root_node_id);
    let current = normalized_filter_text(current_node_id);
    if source.as_str().is_empty() {
        return Err(invalid_input("source_db_path is required"));
    }
    if title.as_str().is_empty() {
        return Err(invalid_input("workspace name is required"));
    }
    if root.as_str().is_empty() {
        return Err(invalid_input("root_node_id is required"));
    }
    if nodes.len() == 0 {
        return Err(invalid_input("at least one analysis node is required"));
    }
    let mut ids: Vec<String> = Vec::new();
    let mut rows: Vec<NodeRow> = Vec::new();
    let mut i: usize = 0;
    assert(texts(ids@) == trimmed_ids(w.nodes).take(0));
    assert(row_records(rows@) == draft_of(w).nodes.take(0));
    while i < nodes.len()
        invariant
            i <= nodes.len(),
            w == (WorkspaceInput {
                source_db_path: source_db_path@,
                name: name@,
                root_node_id: root_node_id@,
                current_node_id: optional_view(*current_node_id),
                nodes: node_records(nodes@),
            }),
            trimmed(w.source_db_path).len() > 0,
            trimmed(w.name).len() > 0,
            trimmed(w.root_node_id).len() > 0,
            w.nodes.len() > 0,
            first_node_fault(w.nodes, i as int) == first_node_fault(w.nodes, 0),
            texts(ids@) == trimmed_ids(w.nodes).take(i as int),
            row_records(rows@) == draft_of(w).nodes.take(i as int),
            rows.len() == i,
        decreases nodes.len() - i,
    {
        let node = &nodes[i];
        assert(w.nodes[i as int] == node@);
        let id = trimmed_text(node.id.as_str());
        let fen = trimmed_text(node.fen.as_str());
        if id.as_str().is_empty() {
            return Err(invalid_input("node id cannot be empty"));
        }
        if fen.as_str().is_empty() {
            return Err(invalid_input("node fen cannot be empty"));
        }
        let row = NodeRow {
            node_id: copy_string(&id),
            parent_node_id: normalized_filter_text(&node.parent_id),
            san: normalized_filter_text(&node.san),
            uci: normalized_filter_text(&node.uci),
            fen,
            comment: copy_string(&node.comment),
            nags: serialize_nags(&node.nags),
            sort_index: node.sort_index,
        };
        proof {
            assert(row@ == row_of(node@));
            assert(texts(ids@.push(id)) == texts(ids@).push(id@));
            assert(trimmed_ids(w.nodes).take(i + 1) == trimmed_ids(w.nodes).take(i as int).push(
                trimmed(node@.id),
            ));
            assert(row_records(rows@.push(row)) == row_records(rows@).push(row@));
            assert(draft_of(w).nodes.take(i + 1) == draft_of(w).nodes.take(i as int).push(
                row_of(node@),
            ));
        }
        ids.push(id);
        rows.push(row);
        i += 1;
    }
    assert(trimmed_ids(w.nodes).take(nodes.len() as int) == trimmed_ids(w.nodes));
    assert(draft_of(w).nodes.take(nodes.len() as int) == draft_of(w).nodes);
    assert(first_node_fault(w.nodes, 0) is None);
    if !has_text(&ids, root.as_str()) {
        let mut text = String::new();
        push_text(&mut text, "root node '");
        push_text(&mut text, root.as_str());
        push_text(&mut text, "' was not found in node payload");
        return Err(AnalysisWorkspaceError::InvalidInput(text));
    }
    match &current {
        Some(c) => {
            if !has_text(&ids, c.as_str()) {
                let mut text = String::new();
                push_text(&mut text, "current node '");
                push_text(&mut text, c.as_str());
                push_text(&mut text, "' was not found in node payload");
                return Err(AnalysisWorkspaceError::InvalidInput(text));
            }
        },
        None => {},
    }
    let mut k: usize = 0;
    while k < nodes.len()
        invariant
            k <= nodes.len(),
            nodes.len() == rows.len(),
            w == (WorkspaceInput {
                source_db_path: source_db_path@,
                name: name@,
                root_node_id: root_node_id@,
                current_node_id: optional_view(*current_node_id),
                nodes: node_records(nodes@),
            }),
            trimmed(w.source_db_path).len() > 0,
            trimmed(w.name).len() > 0,
            trimmed(w.root_node_id).len() > 0,
            w.nodes.len() > 0,
            first_node_fault(w.nodes, 0) is None,
            texts(ids@).contains(trimmed(w.root_node_id)),
            filter_text(w.current_node_id) matches Some(c) ==> texts(ids@).contains(c),
            texts(ids@) == trimmed_ids(w.nodes),
            row_records(rows@) == draft_of(w).nodes,
            first_parent_fault(w.nodes, texts(ids@), k as int) == first_parent_fault(
                w.nodes,
                texts(ids@),
                0,
            ),
        decreases nodes.len() - k,
    {
        assert(w.nodes[k as int] == nodes@[k as int]@);
        assert(row_records(rows@)[k as int] == rows@[k as int]@);
        match &rows[k].parent_node_id {
            Some(parent) => {
                if !has_text(&ids, parent.as_str()) {
                    let mut text = String::new();
                    push_text(&mut text, "parent node '");
                    push_text(&mut text, parent.as_str());
                    push_text(&mut text, "' for node '");
                    push_text(&mut text, nodes[k].id.as_str());
                    push_text(&mut text, "' was not found in node payload");
                    return Err(AnalysisWorkspaceError::InvalidInput(text));
                }
            },
            None => {},
        }
        k += 1;
    }
    Ok(
        WorkspaceDraft {
            source_db_path: source,
            name: title,
            root_node_id: root,
            current_node_id: current,
            nodes: rows,
        },
    )
}

/// The name under which a workspace is stored: the name given, trimmed. A
/// blank name is refused.
pub fn workspace_name(name: &str) -> (r: Result<String, AnalysisWorkspaceError>)
    ensures
        match r {
            Ok(stored) => trimmed(name@).len() > 0 && stored@ == trimmed(name@),
            Err(AnalysisWorkspaceError::InvalidInput(text)) => trimmed(name@).len() == 0 && text@
                == "workspace name is required"@,
            Err(_) => false,
        },
{
    let stored = trimmed_text(name);
    if stored.as_str().is_empty() {
        Err(invalid_input("workspace name is required"))
    } else {
        Ok(stored)
    }
}

/// What a change of the workspace `workspace_id` came to, given the number
/// of rows that it touched: `NotFound` for none.
pub fn require_found(changed: usize, workspace_id: i64) -> (r: Result<(), AnalysisWorkspaceError>)
    ensures
        match r {
            Ok(_) => changed > 0,
            Err(AnalysisWorkspaceError::NotFound(id)) => changed == 0 && id == workspace_id,
            Err(_) => false,
        },
{
    if changed == 0 {
        Err(AnalysisWorkspaceError::NotFound(workspace_id))
    } else {
        Ok(())
    }
}

} // verus!
