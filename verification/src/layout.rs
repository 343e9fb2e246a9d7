//! Tab summaries reconstructed from a layout document.

use vstd::prelude::*;
use vstd::string::*;
use crate::document::{
    child_nodes, document_of, entries_view, lemma_children_view, nodes_view, read_document,
    EntryView, LayoutEntry, LayoutNode, NodeView,
};
use crate::error::SessionError;
use crate::text::{opt_chars, same_opt_text, same_text};

verus! {

/// One row of a session's summary: a tab, with the command and working
/// directory of one of its panes.
#[derive(Clone, Debug, PartialEq, Eq)]
pub struct TabInfo {
    pub name: String,
    pub command: Option<String>,
    pub cwd: Option<String>,
}

/// The (command, cwd) pair of a pane.
pub type PanePair = (Option<Seq<char>>, Option<Seq<char>>);

/// What a `TabInfo` holds.
pub struct TabView {
    pub name: Seq<char>,
    pub command: Option<Seq<char>>,
    pub cwd: Option<Seq<char>>,
}

impl View for TabInfo {
    type V = TabView;

    open spec fn view(&self) -> TabView {
        TabView { name: self.name@, command: opt_chars(self.command), cwd: opt_chars(self.cwd) }
    }
}

/// What each of a sequence of rows holds.
pub open spec fn tabs_view(tabs: Seq<TabInfo>) -> Seq<TabView> {
    Seq::new(tabs.len(), |i: int| tabs[i]@)
}

/// Looking from position `from` on: the string value of the first entry whose
/// key is `key`. `None` where no entry has that key, or where the value of the
/// first that has it is not a string.
pub open spec fn property_from(entries: Seq<EntryView>, key: Seq<char>, from: int) -> Option<
    Seq<char>,
>
    decreases entries.len() - from,
{
    if from < 0 || from >= entries.len() {
        None
    } else if entries[from].name == Some(key) {
        entries[from].text
    } else {
        property_from(entries, key, from + 1)
    }
}

/// The string value of the first entry whose key is `key`.
pub open spec fn property_text(entries: Seq<EntryView>, key: Seq<char>) -> Option<Seq<char>> {
    property_from(entries, key, 0)
}

/// Looking from position `from` on: the first node with the given name.
pub open spec fn first_named_from(nodes: Seq<NodeView>, name: Seq<char>, from: int) -> Option<
    NodeView,
>
    decreases nodes.len() - from,
{
    if from < 0 || from >= nodes.len() {
        None
    } else if nodes[from].name == name {
        Some(nodes[from])
    } else {
        first_named_from(nodes, name, from + 1)
    }
}

/// The first node with the given name.
pub open spec fn first_named(nodes: Seq<NodeView>, name: Seq<char>) -> Option<NodeView> {
    first_named_from(nodes, name, 0)
}

/// The pair that a node contributes to its tab: its command and working
/// directory, where it is a pane and declares at least one of the two.
pub open spec fn pane_pair(node: NodeView) -> Option<PanePair> {
    let command = property_text(node.entries, "command"@);
    let cwd = property_text(node.entries, "cwd"@);
    if node.name == "pane"@ && (command is Some || cwd is Some) {
        Some((command, cwd))
    } else {
        None
    }
}

/// The pairs of the informative panes among `children`, in document order.
pub open spec fn pane_pairs(children: Seq<NodeView>) -> Seq<PanePair>
    decreases children.len(),
{
    if children.len() == 0 {
        Seq::empty()
    } else {
        let before = pane_pairs(children.drop_last());
        match pane_pair(children.last()) {
            Some(pair) => before.push(pair),
            None => before,
        }
    }
}

/// The sequence without the repeats: of equal items only the first stays, and
/// what stays keeps its order.
pub open spec fn keep_first<T>(items: Seq<T>) -> Seq<T>
    decreases items.len(),
{
    if items.len() == 0 {
        Seq::empty()
    } else {
        let before = keep_first(items.drop_last());
        if before.contains(items.last()) {
            before
        } else {
            before.push(items.last())
        }
    }
}

/// The name under which a tab is listed: its `name` property, or `Tab`.
pub open spec fn tab_title(tab: NodeView) -> Seq<char> {
    match property_text(tab.entries, "name"@) {
        Some(name) => name,
        None => "Tab"@,
    }
}

/// One row per pair, all under the same name.
pub open spec fn rows_for(name: Seq<char>, pairs: Seq<PanePair>) -> Seq<TabView> {
    Seq::new(pairs.len(), |i: int| TabView { name: name, command: pairs[i].0, cwd: pairs[i].1 })
}

/// The rows of one tab: one per distinct pair of its informative panes, in
/// first-seen order; a single row without command and working directory where
/// it has no informative pane.
pub open spec fn tab_rows(tab: NodeView) -> Seq<TabView> {
    let pairs = keep_first(pane_pairs(child_nodes(tab)));
    if pairs.len() == 0 {
        seq![TabView { name: tab_title(tab), command: None, cwd: None }]
    } else {
        rows_for(tab_title(tab), pairs)
    }
}

/// The rows of the tabs among `nodes`, in document order.
pub open spec fn tabs_among(nodes: Seq<NodeView>) -> Seq<TabView>
    decreases nodes.len(),
{
    if nodes.len() == 0 {
        Seq::empty()
    } else {
        let before = tabs_among(nodes.drop_last());
        if nodes.last().name == "tab"@ {
            before + tab_rows(nodes.last())
        } else {
            before
        }
    }
}

/// The summary of a layout document: the rows of the tabs under its first
/// `layout` node, and nothing where it has no such node.
pub open spec fn layout_tabs(nodes: Seq<NodeView>) -> Seq<TabView> {
    match first_named(nodes, "layout"@) {
        Some(layout) => tabs_among(child_nodes(layout)),
        None => Seq::empty(),
    }
}

/// What the rows of an outcome hold.
pub open spec fn outcome_view(outcome: Result<Vec<TabInfo>, SessionError>) -> Result<
    Seq<TabView>,
    SessionError,
> {
    match outcome {
        Ok(tabs) => Ok(tabs_view(tabs@)),
        Err(error) => Err(error),
    }
}

/// The summary of a layout text: the rows of its tabs where the text is a
/// well-formed document, a parse error where it is not.
pub open spec fn layout_summary(text: Seq<char>) -> Result<Seq<TabView>, SessionError> {
    match document_of(text) {
        Some(nodes) => Ok(layout_tabs(nodes)),
        None => Err(SessionError::LayoutParse),
    }
}

/// Law: what `keep_first` leaves holds no item twice.
pub proof fn lemma_keep_first_no_duplicates<T>(items: Seq<T>)
    ensures
        keep_first(items).no_duplicates(),
    decreases items.len(),
{
    if items.len() > 0 {
        lemma_keep_first_no_duplicates(items.drop_last());
    }
}

/// Law: `keep_first` leaves an item exactly where the sequence holds it.
pub proof fn lemma_keep_first_same_items<T>(items: Seq<T>, item: T)
    ensures
        keep_first(items).contains(item) <==> items.contains(item),
    decreases items.len(),
{
    if items.len() > 0 {
        let before = items.drop_last();
        lemma_keep_first_same_items(before, item);
        let kept = keep_first(before);
        if items.contains(item) {
            let i = choose|i: int| 0 <= i < items.len() && items[i] == item;
            if i < items.len() - 1 {
                assert(before[i] == item);
                let k = choose|k: int| 0 <= k < kept.len() && kept[k] == item;
                assert(keep_first(items)[k] == item);
            } else if !kept.contains(item) {
                assert(keep_first(items)[kept.len() as int] == item);
            }
        }
    }
}

/// Law: what `keep_first` leaves of the first `count` items starts what it
/// leaves of them all; so the items stay in the order in which they first
/// come.
pub proof fn lemma_keep_first_grows<T>(items: Seq<T>, count: int)
    requires
        0 <= count <= items.len(),
    ensures
        keep_first(items.take(count)).is_prefix_of(keep_first(items)),
    decreases items.len() - count,
{
    if count < items.len() {
        lemma_keep_first_grows(items, count + 1);
        assert(items.take(count + 1).drop_last() =~= items.take(count));
    } else {
        assert(items.take(count) =~= items);
    }
}

/// Law: a tab has at least one row, every row carries the tab's title, and
/// no two rows of a tab are equal.
pub proof fn lemma_tab_rows(tab: NodeView)
    ensures
        tab_rows(tab).len() >= 1,
        forall|i: int|
            0 <= i < tab_rows(tab).len() ==> (#[trigger] tab_rows(tab)[i]).name == tab_title(tab),
        tab_rows(tab).no_duplicates(),
{
    lemma_keep_first_no_duplicates(pane_pairs(child_nodes(tab)));
}

/// Where no node from `from` on has the name, none is found.
proof fn lemma_first_named_none(nodes: Seq<NodeView>, name: Seq<char>, from: int)
    requires
        0 <= from,
        forall|i: int| from <= i < nodes.len() ==> (#[trigger] nodes[i]).name != name,
    ensures
        first_named_from(nodes, name, from) is None,
    decreases nodes.len() - from,
{
    if from < nodes.len() {
        lemma_first_named_none(nodes, name, from + 1);
    }
}

/// Where no node contributes a pair, there are no pairs.
proof fn lemma_no_pane_pairs(children: Seq<NodeView>)
    requires
        forall|i: int| 0 <= i < children.len() ==> pane_pair(#[trigger] children[i]) is None,
    ensures
        pane_pairs(children) == Seq::<PanePair>::empty(),
    decreases children.len(),
{
    if children.len() > 0 {
        lemma_no_pane_pairs(children.drop_last());
    }
}

/// Law: a document without a top-level `layout` node has no rows.
pub proof fn lemma_without_layout_node(nodes: Seq<NodeView>)
    requires
        forall|i: int| 0 <= i < nodes.len() ==> (#[trigger] nodes[i]).name != "layout"@,
    ensures
        layout_tabs(nodes) == Seq::<TabView>::empty(),
{
    lemma_first_named_none(nodes, "layout"@, 0);
}

/// Law: a layout text that is a well-formed document without a top-level
/// `layout` node has an empty summary, and no error.
pub proof fn lemma_text_without_layout_node(text: Seq<char>)
    requires
        document_of(text) is Some,
        forall|i: int|
            0 <= i < document_of(text)->0.len() ==> (#[trigger] document_of(text)->0[i]).name
                != "layout"@,
    ensures
        layout_summary(text) == Ok::<Seq<TabView>, SessionError>(Seq::empty()),
{
    lemma_without_layout_node(document_of(text)->0);
}

/// Law: a tab none of whose children is a pane with a command or a working
/// directory has exactly one row, without command and working directory and
/// under the tab's title; the title is `Tab` where the tab declares no name.
pub proof fn lemma_tab_without_panes(tab: NodeView)
    requires
        forall|i: int|
            0 <= i < child_nodes(tab).len() ==> pane_pair(#[trigger] child_nodes(tab)[i]) is None,
    ensures
        tab_rows(tab) == seq![TabView { name: tab_title(tab), command: None, cwd: None }],
        property_text(tab.entries, "name"@) is None ==> tab_title(tab) == "Tab"@,
{
    lemma_no_pane_pairs(child_nodes(tab));
}

/// Law: the rows of the tabs among two runs of nodes, one after the other,
/// are the rows of the first run followed by those of the second; so the
/// rows of a tab stand together, and the tabs keep their order.
pub proof fn lemma_tabs_among_concat(first: Seq<NodeView>, second: Seq<NodeView>)
    ensures
        tabs_among(first + second) == tabs_among(first) + tabs_among(second),
    decreases second.len(),
{
    if second.len() > 0 {
        assert((first + second).drop_last() =~= first + second.drop_last());
        lemma_tabs_among_concat(first, second.drop_last());
    }
}

/// Finds the string value of the first entry whose key is `key`.
fn find_property<'a>(entries: &'a [LayoutEntry], key: &str) -> (found: Option<&'a String>)
    ensures
        match found {
            Some(text) => property_text(entries_view(entries@), key@) == Some(text@),
            None => property_text(entries_view(entries@), key@) is None,
        },
{
    let mut i: usize = 0;
    while i < entries.len()
        invariant
            i <= entries@.len(),
            property_text(entries_view(entries@), key@) == property_from(
                entries_view(entries@),
                key@,
                i as int,
            ),
        decreases entries@.len() - i,
    {
        let entry = &entries[i];
        let named = match &entry.name {
            Some(name) => same_text(name.as_str(), key),
            None => false,
        };
        if named {
            return match &entry.text {
                Some(text) => Some(text),
                None => None,
            };
        }
        i += 1;
    }
    None
}

/// Reads off a node the pair that it contributes to its tab.
fn read_pane(node: &LayoutNode) -> (pair: Option<(Option<String>, Option<String>)>)
    ensures
        match pair {
            Some((command, cwd)) => pane_pair(node@) == Some((opt_chars(command), opt_chars(cwd))),
            None => pane_pair(node@) is None,
        },
{
    if !same_text(node.name.as_str(), "pane") {
        return None;
    }
    let command = match find_property(&node.entries, "command") {
        Some(text) => Some(text.clone()),
        None => None,
    };
    let cwd = match find_property(&node.entries, "cwd") {
        Some(text) => Some(text.clone()),
        None => None,
    };
    if command.is_some() || cwd.is_some() {
        Some((command, cwd))
    } else {
        None
    }
}

/// Whether one of the rows from position `start` on has this command and
/// working directory.
fn has_row(rows: &Vec<TabInfo>, start: usize, command: &Option<String>, cwd: &Option<String>) -> (
    found: bool
)
    requires
        start <= rows@.len(),
    ensures
        found == exists|k: int|
            start <= k < rows@.len() && (#[trigger] rows@[k]@).command == opt_chars(*command)
                && rows@[k]@.cwd == opt_chars(*cwd),
{
    let mut i: usize = start;
    while i < rows.len()
        invariant
            start <= i <= rows@.len(),
            forall|k: int|
                start <= k < i ==> !((#[trigger] rows@[k]@).command == opt_chars(*command)
                    && rows@[k]@.cwd == opt_chars(*cwd)),
        decreases rows@.len() - i,
    {
        let row = &rows[i];
        if same_opt_text(&row.command, command) && same_opt_text(&row.cwd, cwd) {
            assert(rows@[i as int]@.command == opt_chars(*command));
            return true;
        }
        i += 1;
    }
    false
}

/// Appends the rows of one tab to `out`.
fn push_tab_rows(tab: &LayoutNode, out: &mut Vec<TabInfo>)
    ensures
        tabs_view(final(out)@) == tabs_view(old(out)@) + tab_rows(tab@),
{
    let ghost before = tabs_view(out@);
    let start = out.len();
    let name = match find_property(&tab.entries, "name") {
        Some(text) => text.clone(),
        None => "Tab".to_owned(),
    };
    proof {
        lemma_children_view(*tab);
    }
    match &tab.children {
        Some(children) => {
            let ghost kids = nodes_view(children@);
            let mut i: usize = 0;
            while i < children.len()
                invariant
                    i <= children@.len(),
                    kids == nodes_view(children@),
                    start <= out@.len(),
                    tabs_view(out@).take(start as int) == before,
                    before.len() == start,
                    tabs_view(out@).skip(start as int) == rows_for(
                        name@,
                        keep_first(pane_pairs(kids.take(i as int))),
                    ),
                decreases children@.len() - i,
            {
                let ghost seen = keep_first(pane_pairs(kids.take(i as int)));
                let ghost rows = tabs_view(out@);
                proof {
                    assert(rows_for(name@, seen).len() == seen.len());
                    assert(kids.take(i + 1).drop_last() =~= kids.take(i as int));
                }
                match read_pane(&children[i]) {
                    Some((command, cwd)) => {
                        let ghost pair = (opt_chars(command), opt_chars(cwd));
                        proof {
                            assert(pane_pairs(kids.take(i as int)).push(pair).drop_last()
                                =~= pane_pairs(kids.take(i as int)));
                        }
                        let found = has_row(out, start, &command, &cwd);
                        proof {
                            if found {
                                let k = choose|k: int|
                                    start <= k < out@.len() && (#[trigger] out@[k]@).command
                                        == opt_chars(command) && out@[k]@.cwd == opt_chars(cwd);
                                assert(rows.skip(start as int)[k - start] == out@[k]@);
                            } else if seen.contains(pair) {
                                let j = choose|j: int| 0 <= j < seen.len() && seen[j] == pair;
                                assert(rows_for(name@, seen)[j].command == pair.0);
                            }
                        }
                        if !found {
                            out.push(TabInfo { name: name.clone(), command: command, cwd: cwd });
                            proof {
                                let now = tabs_view(out@);
                                assert forall|k: int| 0 <= k < seen.len() + 1 implies now.skip(
                                    start as int,
                                )[k] == rows_for(name@, seen.push(pair))[k] by {
                                    if k < seen.len() {
                                        assert(rows.skip(start as int)[k] == rows_for(
                                            name@,
                                            seen,
                                        )[k]);
                                    }
                                }
                            }
                        }
                    },
                    None => {},
                }
                i += 1;
            }
            assert(kids.take(children@.len() as int) =~= kids);
        },
        None => {},
    }
    if out.len() == start {
        out.push(TabInfo { name: name, command: None, cwd: None });
    }
}

/// Summarises a layout document: the rows of the tabs under its first
/// `layout` node, in document order.
pub fn summarize_layout(nodes: &[LayoutNode]) -> (tabs: Vec<TabInfo>)
    ensures
        tabs_view(tabs@) == layout_tabs(nodes_view(nodes@)),
{
    let mut tabs: Vec<TabInfo> = Vec::new();
    let ghost all = nodes_view(nodes@);
    let mut i: usize = 0;
    while i < nodes.len()
        invariant
            i <= nodes@.len(),
            all == nodes_view(nodes@),
            first_named(all, "layout"@) == first_named_from(all, "layout"@, i as int),
            tabs@.len() == 0,
        decreases nodes@.len() - i,
    {
        let node = &nodes[i];
        if same_text(node.name.as_str(), "layout") {
            proof {
                lemma_children_view(*node);
            }
            match &node.children {
                Some(children) => {
                    let ghost kids = nodes_view(children@);
                    let mut j: usize = 0;
                    while j < children.len()
                        invariant
                            j <= children@.len(),
                            kids == nodes_view(children@),
                            tabs_view(tabs@) == tabs_among(kids.take(j as int)),
                        decreases children@.len() - j,
                    {
                        proof {
                            assert(kids.take(j + 1).drop_last() =~= kids.take(j as int));
                        }
                        let child = &children[j];
                        if same_text(child.name.as_str(), "tab") {
                            push_tab_rows(child, &mut tabs);
                        }
                        j += 1;
                    }
                    assert(kids.take(children@.len() as int) =~= kids);
                },
                None => {},
            }
            return tabs;
        }
        i += 1;
    }
    tabs
}

/// Reads a layout text and summarises its tabs.
pub fn parse_kdl_layout(layout: &str) -> (outcome: Result<Vec<TabInfo>, SessionError>)
    ensures
        outcome_view(outcome) == layout_summary(layout@),
{
    match read_document(layout) {
        Some(nodes) => Ok(summarize_layout(&nodes)),
        None => Err(SessionError::LayoutParse),
    }
}

} // verus!
