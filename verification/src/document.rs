//! Layout documents: the tree of nodes that a layout text holds.

use vstd::prelude::*;
use crate::text::{occurs_at, opt_chars, to_chars};

verus! {

/// One argument or property of a node of a layout document.
#[derive(Clone, Debug, PartialEq, Eq)]
pub struct LayoutEntry {
    /// The key of a property; `None` for a positional argument.
    pub name: Option<String>,
    /// The value, where it is a string; `None` for any other kind of value.
    pub text: Option<String>,
}

/// One node of a layout document, with the nodes of its children block.
#[derive(Debug, PartialEq, Eq)]
pub struct LayoutNode {
    pub name: String,
    pub entries: Vec<LayoutEntry>,
    /// `None` where the node has no children block.
    pub children: Option<Vec<LayoutNode>>,
}

/// What a `LayoutEntry` holds.
pub struct EntryView {
    pub name: Option<Seq<char>>,
    pub text: Option<Seq<char>>,
}

/// What a `LayoutNode` holds.
pub struct NodeView {
    pub name: Seq<char>,
    pub entries: Seq<EntryView>,
    pub children: Option<Seq<NodeView>>,
}

impl View for LayoutEntry {
    type V = EntryView;

    open spec fn view(&self) -> EntryView {
        EntryView { name: opt_chars(self.name), text: opt_chars(self.text) }
    }
}

/// What a node holds: its name, its entries, and what each node of its
/// children block holds.
pub open spec fn node_view(node: LayoutNode) -> NodeView
    decreases node,
{
    NodeView {
        name: node.name@,
        entries: entries_view(node.entries@),
        children: match node.children {
            Some(nodes) => Some(
                Seq::new(
                    nodes@.len(),
                    |i: int|
                        if 0 <= i < nodes.len() {
                            node_view(nodes[i])
                        } else {
                            arbitrary()
                        },
                ),
            ),
            None => None,
        },
    }
}

impl View for LayoutNode {
    type V = NodeView;

    open spec fn view(&self) -> NodeView {
        node_view(*self)
    }
}

/// What each of a sequence of entries holds.
pub open spec fn entries_view(entries: Seq<LayoutEntry>) -> Seq<EntryView> {
    Seq::new(entries.len(), |i: int| entries[i]@)
}

/// What each of a sequence of nodes holds.
pub open spec fn nodes_view(nodes: Seq<LayoutNode>) -> Seq<NodeView> {
    Seq::new(nodes.len(), |i: int| nodes[i]@)
}

/// The view of a node's children is the view of each child, in order.
pub proof fn lemma_children_view(node: LayoutNode)
    ensures
        node@.children == match node.children {
            Some(nodes) => Some(nodes_view(nodes@)),
            None => None,
        },
{
}

/// The nodes of a node's children block; none where it has no such block.
pub open spec fn child_nodes(node: NodeView) -> Seq<NodeView> {
    match node.children {
        Some(nodes) => nodes,
        None => Seq::empty(),
    }
}

/// `kdl::KdlDocument`: a parsed KDL document, or the children block of one
/// of its nodes. Nothing of its inside is known here.
#[verifier::external_type_specification]
#[verifier::external_body]
pub struct ExKdlDocument(kdl::KdlDocument);

/// `kdl::KdlError`: what the parser says of a text that it refuses. Nothing
/// of its inside is known here.
#[verifier::external_type_specification]
#[verifier::external_body]
pub struct ExKdlError(kdl::KdlError);

/// What a text holds when read as a KDL document: its top-level nodes, or
/// `None` where the text is not a well-formed document.
pub uninterp spec fn kdl_nodes(text: Seq<char>) -> Option<Seq<NodeView>>;

/// The top-level nodes that a parsed KDL document holds, in document order.
pub uninterp spec fn document_nodes(doc: kdl::KdlDocument) -> Seq<NodeView>;

/// The number of bytes that a character takes in UTF-8.
pub open spec fn utf8_width(c: char) -> int {
    let v = c as u32;
    if v < 0x80 {
        1
    } else if v < 0x800 {
        2
    } else if v < 0x10000 {
        3
    } else {
        4
    }
}

/// Whether, counting the UTF-8 bytes of the text from the character at
/// position `from` on, a character begins or the text ends after exactly
/// `bytes` bytes.
pub open spec fn boundary_after(text: Seq<char>, from: int, bytes: int) -> bool
    decreases bytes,
{
    if bytes == 0 {
        true
    } else if bytes < 0 || from < 0 || from >= text.len() || bytes < utf8_width(text[from]) {
        false
    } else {
        boundary_after(text, from + 1, bytes - utf8_width(text[from]))
    }
}

/// Whether a character can stand inside a bare identifier of a document: it
/// is no control character, no white space or line break, and none of
/// `\ / ( ) { } < > ; [ ] = , "`.
pub open spec fn continues_identifier(c: char) -> bool {
    let v = c as u32;
    !(v < 0x20 || c == '\\' || c == '/' || c == '(' || c == ')' || c == '{' || c == '}' || c == '<'
        || c == '>' || c == ';' || c == '[' || c == ']' || c == '=' || c == ',' || c == '"' || v
        == 0x85 || v == 0x2028 || v == 0x2029 || v == 0x20 || v == 0xfeff || v == 0xa0 || v
        == 0x1680 || (0x2000 <= v <= 0x200a) || v == 0x202f || v == 0x205f || v == 0x3000)
}

/// Whether an opening parenthesis stands at position `open`, the reserved
/// word `word` follows it at once and ends there, and what follows the word
/// is cut short: it ends before as many bytes as the word has, or no
/// character begins after that many bytes.
pub open spec fn cut_short(text: Seq<char>, open: int, word: Seq<char>) -> bool {
    let after = open + 1 + word.len();
    &&& 0 <= open < text.len()
    &&& text[open] == '('
    &&& occurs_at(text, word, open + 1)
    &&& !(after < text.len() && continues_identifier(text[after]))
    &&& !boundary_after(text, after, word.len() as int)
}

/// Whether what follows one of the words `true`, `false` and `null` after
/// the parenthesis at position `open` is cut short.
pub open spec fn reserved_cut_short(text: Seq<char>, open: int) -> bool {
    cut_short(text, open, "true"@) || cut_short(text, open, "false"@) || cut_short(
        text,
        open,
        "null"@,
    )
}

/// Where a scan of a document stands: in the open, where nodes, entries and
/// type annotations are read, or inside a quoted string, a raw string, a
/// comment that runs to the end of its line, or a comment block.
#[derive(Clone, Copy, Debug, PartialEq, Eq)]
pub enum Lexical {
    Code,
    Quoted,
    Raw,
    Line,
    Block,
}

/// The number of `#` that stand one after the other from position `from` on.
pub open spec fn hash_run(text: Seq<char>, from: int) -> int
    decreases text.len() - from,
{
    if from < 0 || from >= text.len() || text[from] != '#' {
        0
    } else {
        1 + hash_run(text, from + 1)
    }
}

/// Whether a character ends a line.
pub open spec fn is_line_break(c: char) -> bool {
    let v = c as u32;
    c == '\r' || c == '\n' || v == 0x85 || v == 0x0c || v == 0x2028 || v == 0x2029
}

/// Whether the two characters stand at position `at`, one after the other.
pub open spec fn pair_at(text: Seq<char>, at: int, first: char, second: char) -> bool {
    0 <= at && at + 1 < text.len() && text[at] == first && text[at + 1] == second
}

/// Whether a raw string opens at position `at`: an `r`, any number of `#`,
/// and a quotation mark.
pub open spec fn raw_opens(text: Seq<char>, at: int) -> bool {
    let quote = at + 1 + hash_run(text, at + 1);
    0 <= at < text.len() && text[at] == 'r' && quote < text.len() && text[quote] == '"'
}

/// What `hash_run` counts lies within the text.
pub proof fn lemma_hash_run_bounds(text: Seq<char>, from: int)
    requires
        0 <= from <= text.len(),
    ensures
        0 <= hash_run(text, from) <= text.len() - from,
    decreases text.len() - from,
{
    if from < text.len() && text[from] == '#' {
        lemma_hash_run_bounds(text, from + 1);
    }
}

/// Whether the text is safe from position `at` on, where the scan stands in
/// `state` there. `count` is the number of `#` that close the raw string, or
/// the number of comment blocks that are open, and 0 in the other states.
///
/// In the open, a quotation mark opens a quoted string, `r` with its `#`
/// and quotation mark a raw string, `//` a comment to the end of the line
/// and `/*` a comment block; a parenthesis after which a reserved word is
/// cut short makes the text unsafe. A quoted string runs to the next
/// quotation mark that no backslash stands before; a raw string to the next
/// quotation mark with its `#` after it; a comment block to the `*/` that
/// closes it, blocks within it counted.
pub open spec fn safe_from(text: Seq<char>, at: int, state: Lexical, count: nat) -> bool
    decreases text.len() + 2 - at,
{
    if at < 0 || at >= text.len() {
        true
    } else {
        match state {
            Lexical::Code => {
                if text[at] == '"' {
                    safe_from(text, at + 1, Lexical::Quoted, 0)
                } else if raw_opens(text, at) {
                    proof {
                        lemma_hash_run_bounds(text, at + 1);
                    }
                    safe_from(
                        text,
                        at + 2 + hash_run(text, at + 1),
                        Lexical::Raw,
                        hash_run(text, at + 1) as nat,
                    )
                } else if pair_at(text, at, '/', '/') {
                    safe_from(text, at + 2, Lexical::Line, 0)
                } else if pair_at(text, at, '/', '*') {
                    safe_from(text, at + 2, Lexical::Block, 1)
                } else if reserved_cut_short(text, at) {
                    false
                } else {
                    safe_from(text, at + 1, Lexical::Code, 0)
                }
            },
            Lexical::Quoted => {
                if text[at] == '\\' {
                    safe_from(text, at + 2, Lexical::Quoted, 0)
                } else if text[at] == '"' {
                    safe_from(text, at + 1, Lexical::Code, 0)
                } else {
                    safe_from(text, at + 1, Lexical::Quoted, 0)
                }
            },
            Lexical::Raw => {
                if text[at] == '"' && hash_run(text, at + 1) >= count {
                    proof {
                        lemma_hash_run_bounds(text, at + 1);
                    }
                    safe_from(text, at + 1 + count, Lexical::Code, 0)
                } else {
                    safe_from(text, at + 1, Lexical::Raw, count)
                }
            },
            Lexical::Line => {
                if is_line_break(text[at]) {
                    safe_from(text, at + 1, Lexical::Code, 0)
                } else {
                    safe_from(text, at + 1, Lexical::Line, 0)
                }
            },
            Lexical::Block => {
                if pair_at(text, at, '*', '/') {
                    if count <= 1 {
                        safe_from(text, at + 2, Lexical::Code, 0)
                    } else {
                        safe_from(text, at + 2, Lexical::Block, (count - 1) as nat)
                    }
                } else if pair_at(text, at, '/', '*') {
                    safe_from(text, at + 2, Lexical::Block, count + 1)
                } else {
                    safe_from(text, at + 1, Lexical::Block, count)
                }
            },
        }
    }
}

/// Whether a text can be handed to the parser: nowhere in the open does a
/// parenthesis stand after which one of the words `true`, `false` and `null`
/// is cut short. What stands in a quoted string, a raw string or a comment
/// does not count.
///
/// The parser reads a parenthesis in the open as the start of a type
/// annotation. It refuses a reserved word there, and to report it takes as
/// many bytes as the word has from what follows the word; it does not return
/// where it cannot take them.
pub open spec fn parser_safe(text: Seq<char>) -> bool {
    safe_from(text, 0, Lexical::Code, 0)
}

/// What a text holds when read as a layout document: what the parser finds
/// in it where the text can be handed to the parser, and `None` where it
/// cannot. A text that cannot be handed to the parser is no well-formed
/// document: it holds a reserved word as a type annotation.
pub open spec fn document_of(text: Seq<char>) -> Option<Seq<NodeView>> {
    if parser_safe(text) {
        kdl_nodes(text)
    } else {
        None
    }
}

/// Whether a character can stand inside a bare identifier.
fn can_continue(c: char) -> (continues: bool)
    ensures
        continues == continues_identifier(c),
{
    let v = c as u32;
    !(v < 0x20 || c == '\\' || c == '/' || c == '(' || c == ')' || c == '{' || c == '}' || c == '<'
        || c == '>' || c == ';' || c == '[' || c == ']' || c == '=' || c == ',' || c == '"' || v
        == 0x85 || v == 0x2028 || v == 0x2029 || v == 0x20 || v == 0xfeff || v == 0xa0 || v
        == 0x1680 || (0x2000 <= v && v <= 0x200a) || v == 0x202f || v == 0x205f || v == 0x3000)
}

/// The number of bytes that a character takes in UTF-8.
fn width_of(c: char) -> (width: usize)
    ensures
        width == utf8_width(c),
        1 <= width <= 4,
{
    let v = c as u32;
    if v < 0x80 {
        1
    } else if v < 0x800 {
        2
    } else if v < 0x10000 {
        3
    } else {
        4
    }
}

/// Whether a character begins or the text ends exactly `bytes` bytes after
/// the start of the character at position `from`.
fn is_boundary_after(chars: &[char], from: usize, bytes: usize) -> (boundary: bool)
    ensures
        boundary == boundary_after(chars@, from as int, bytes as int),
{
    let mut at = from;
    let mut left = bytes;
    while left > 0
        invariant
            boundary_after(chars@, from as int, bytes as int) == boundary_after(
                chars@,
                at as int,
                left as int,
            ),
        decreases left,
    {
        if at >= chars.len() {
            return false;
        }
        let width = width_of(chars[at]);
        if width > left {
            return false;
        }
        left -= width;
        at += 1;
    }
    true
}

/// Whether `word` stands among the characters at position `at`.
fn stands_at(chars: &[char], word: &[char], at: usize) -> (stands: bool)
    requires
        at <= chars@.len(),
    ensures
        stands == occurs_at(chars@, word@, at as int),
{
    let total = chars.len();
    if word.len() > total - at {
        return false;
    }
    let mut k: usize = 0;
    while k < word.len()
        invariant
            k <= word@.len(),
            total == chars@.len(),
            at + word@.len() <= chars@.len(),
            forall|n: int| 0 <= n < k ==> chars@[at + n] == word@[n],
        decreases word@.len() - k,
    {
        if chars[at + k] != word[k] {
            assert(chars@.subrange(at as int, at + word@.len())[k as int] != word@[k as int]);
            return false;
        }
        k += 1;
    }
    assert(chars@.subrange(at as int, at + word@.len()) =~= word@);
    true
}

/// Whether what follows `word` after the parenthesis at position `open` is
/// cut short.
fn is_cut_short(chars: &[char], open: usize, word: &[char]) -> (short: bool)
    requires
        open < chars@.len(),
        chars@[open as int] == '(',
    ensures
        short == cut_short(chars@, open as int, word@),
{
    let total = chars.len();
    if !stands_at(chars, word, open + 1) {
        return false;
    }
    assert(open + 1 + word@.len() <= total);
    let after = open + 1 + word.len();
    if after < total && can_continue(chars[after]) {
        return false;
    }
    !is_boundary_after(chars, after, word.len())
}

/// Counts the `#` that stand one after the other from position `from` on.
fn count_hashes(chars: &[char], from: usize) -> (count: usize)
    requires
        from <= chars@.len(),
    ensures
        count == hash_run(chars@, from as int),
        from + count <= chars@.len(),
{
    let total = chars.len();
    let mut at = from;
    while at < total && chars[at] == '#'
        invariant
            from <= at <= total,
            total == chars@.len(),
            hash_run(chars@, from as int) == (at - from) + hash_run(chars@, at as int),
        decreases total - at,
    {
        at += 1;
    }
    at - from
}

/// Whether a character ends a line.
fn ends_line(c: char) -> (ends: bool)
    ensures
        ends == is_line_break(c),
{
    let v = c as u32;
    c == '\r' || c == '\n' || v == 0x85 || v == 0x0c || v == 0x2028 || v == 0x2029
}

/// Whether the two characters stand at position `at`, one after the other.
fn is_pair_at(chars: &[char], at: usize, first: char, second: char) -> (stands: bool)
    requires
        at < chars@.len(),
    ensures
        stands == pair_at(chars@, at as int, first, second),
{
    let total = chars.len();
    chars[at] == first && at + 1 < total && chars[at + 1] == second
}

/// Tells whether a text can be handed to the parser.
pub fn is_parser_safe(text: &str) -> (safe: bool)
    ensures
        safe == parser_safe(text@),
{
    let chars = to_chars(text);
    let yes = to_chars("true");
    let no = to_chars("false");
    let null = to_chars("null");
    let total = chars.len();
    let mut at: usize = 0;
    let mut state = Lexical::Code;
    let mut count: usize = 0;
    while at < total
        invariant
            at <= total,
            total == chars@.len(),
            chars@ == text@,
            yes@ == "true"@,
            no@ == "false"@,
            null@ == "null"@,
            count <= at,
            state is Block ==> count >= 1,
            !(state is Block) && !(state is Raw) ==> count == 0,
            parser_safe(text@) == safe_from(chars@, at as int, state, count as nat),
        decreases total - at,
    {
        let c = chars[at];
        match state {
            Lexical::Code => {
                if c == '"' {
                    state = Lexical::Quoted;
                    at += 1;
                } else if c == 'r' {
                    let hashes = count_hashes(&chars, at + 1);
                    let quote = at + 1 + hashes;
                    if quote < total && chars[quote] == '"' {
                        state = Lexical::Raw;
                        count = hashes;
                        at = quote + 1;
                    } else {
                        assert(!reserved_cut_short(chars@, at as int));
                        at += 1;
                    }
                } else if is_pair_at(&chars, at, '/', '/') {
                    state = Lexical::Line;
                    at += 2;
                } else if is_pair_at(&chars, at, '/', '*') {
                    state = Lexical::Block;
                    count = 1;
                    at += 2;
                } else if c == '(' && (is_cut_short(&chars, at, &yes) || is_cut_short(
                    &chars,
                    at,
                    &no,
                ) || is_cut_short(&chars, at, &null)) {
                    return false;
                } else {
                    at += 1;
                }
            },
            Lexical::Quoted => {
                if c == '\\' {
                    if at + 1 < total {
                        at += 2;
                    } else {
                        assert(safe_from(chars@, at + 2, Lexical::Quoted, 0));
                        at = total;
                    }
                } else if c == '"' {
                    state = Lexical::Code;
                    at += 1;
                } else {
                    at += 1;
                }
            },
            Lexical::Raw => {
                if c == '"' && count_hashes(&chars, at + 1) >= count {
                    at = at + 1 + count;
                    state = Lexical::Code;
                    count = 0;
                } else {
                    at += 1;
                }
            },
            Lexical::Line => {
                if ends_line(c) {
                    state = Lexical::Code;
                }
                at += 1;
            },
            Lexical::Block => {
                if is_pair_at(&chars, at, '*', '/') {
                    if count <= 1 {
                        state = Lexical::Code;
                        count = 0;
                    } else {
                        count -= 1;
                    }
                    at += 2;
                } else if is_pair_at(&chars, at, '/', '*') {
                    count += 1;
                    at += 2;
                } else {
                    at += 1;
                }
            },
        }
    }
    true
}

/// Calls the parser of `kdl::KdlDocument` (its `FromStr`) on the text.
///
/// Trusted: on a text that can be handed to it the parser returns; and
/// whether it accepts the text, and the nodes of the document it then
/// returns, depend on the characters of the text alone.
#[verifier::external_body]
fn parse_document(text: &str) -> (parsed: Result<kdl::KdlDocument, kdl::KdlError>)
    requires
        parser_safe(text@),
    ensures
        match parsed {
            Ok(doc) => kdl_nodes(text@) == Some(document_nodes(doc)),
            Err(_) => kdl_nodes(text@) is None,
        },
{
    text.parse::<kdl::KdlDocument>()
}

/// Calls `KdlDocument::nodes` and takes the length of the slice it returns.
///
/// Trusted: that length is the number of top-level nodes of the document.
#[verifier::external_body]
fn node_count(doc: &kdl::KdlDocument) -> (count: usize)
    ensures
        count == document_nodes(*doc).len(),
{
    doc.nodes().len()
}

/// Calls `KdlNode::name` on the node at position `at` of
/// `KdlDocument::nodes`, and `KdlIdentifier::value` on what that returns.
///
/// Trusted: the string is the name of that node.
#[verifier::external_body]
fn node_name(doc: &kdl::KdlDocument, at: usize) -> (name: String)
    requires
        at < document_nodes(*doc).len(),
    ensures
        name@ == document_nodes(*doc)[at as int].name,
{
    doc.nodes()[at].name().value().to_string()
}

/// Calls `KdlNode::entries` on the node at position `at` of
/// `KdlDocument::nodes`, and copies of each entry its key (`KdlEntry::name`,
/// `KdlIdentifier::value`) and its value where that is a string
/// (`KdlEntry::value`, `KdlValue::as_string`).
///
/// Trusted: the copies are the entries of that node, in order.
#[verifier::external_body]
fn node_entries(doc: &kdl::KdlDocument, at: usize) -> (entries: Vec<LayoutEntry>)
    requires
        at < document_nodes(*doc).len(),
    ensures
        entries_view(entries@) == document_nodes(*doc)[at as int].entries,
{
    doc.nodes()[at].entries().iter().map(|entry| LayoutEntry {
        name: entry.name().map(|key| key.value().to_string()),
        text: entry.value().as_string().map(|text| text.to_string()),
    }).collect()
}

/// Calls `KdlNode::children` on the node at position `at` of
/// `KdlDocument::nodes`.
///
/// Trusted: what is returned is the children block of that node, where it
/// has one.
#[verifier::external_body]
fn node_children(doc: &kdl::KdlDocument, at: usize) -> (children: Option<&kdl::KdlDocument>)
    requires
        at < document_nodes(*doc).len(),
    ensures
        match children {
            Some(block) => document_nodes(*doc)[at as int].children == Some(
                document_nodes(*block),
            ),
            None => document_nodes(*doc)[at as int].children is None,
        },
{
    doc.nodes()[at].children()
}

/// Copies out of a parsed document what the summary reads: the names and
/// entries of its nodes, and the same of the nodes below them.
fn document_tree(doc: &kdl::KdlDocument) -> (nodes: Vec<LayoutNode>)
    ensures
        nodes_view(nodes@) == document_nodes(*doc),
    decreases document_nodes(*doc),
{
    let count = node_count(doc);
    let mut nodes: Vec<LayoutNode> = Vec::new();
    let mut at: usize = 0;
    while at < count
        invariant
            at <= count,
            count == document_nodes(*doc).len(),
            nodes@.len() == at,
            forall|i: int| 0 <= i < at ==> (#[trigger] nodes@[i])@ == document_nodes(*doc)[i],
        decreases count - at,
    {
        let name = node_name(doc, at);
        let entries = node_entries(doc, at);
        let children = match node_children(doc, at) {
            Some(block) => {
                assert(decreases_to!(document_nodes(*doc)[at as int].children => document_nodes(
                    *doc,
                )[at as int].children->0));
                Some(document_tree(block))
            },
            None => None,
        };
        let node = LayoutNode { name: name, entries: entries, children: children };
        proof {
            lemma_children_view(node);
        }
        nodes.push(node);
        at += 1;
    }
    nodes
}

/// Reads a layout text as a document: its top-level nodes, each with its
/// entries and with the nodes below it; `None` where the text is not a
/// well-formed document.
pub fn read_document(text: &str) -> (nodes: Option<Vec<LayoutNode>>)
    ensures
        match nodes {
            Some(tree) => document_of(text@) == Some(nodes_view(tree@)),
            None => document_of(text@) is None,
        },
{
    if !is_parser_safe(text) {
        return None;
    }
    match parse_document(text) {
        Ok(doc) => Some(document_tree(&doc)),
        Err(_) => None,
    }
}

} // verus!
