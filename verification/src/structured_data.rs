use vstd::prelude::*;

use crate::chars::{concat_strs, copy_string, push_char, push_str, str_chars};
use crate::diff_view::decimal;
use crate::frame::Frame;
use crate::geometry::Rect;
use crate::rich_text::Line;
use crate::style::Style;
use crate::tree::{
    Tree,
    TreeCommand,
    TreeNode,
    TreeState,
    lemma_same_shape_same_commands,
    lemma_same_shape_same_render,
    forest_ids,
    node_ids,
    same_shape,
    same_shapes,
    tree_command,
    tree_rendered,
};

verus! {

/// A JSON value as the structured-data view reads it. Object members keep the order in which
/// the source map yields them; numbers carry the text that JSON serialization writes for them.
#[derive(Debug, PartialEq, Eq)]
pub enum JsonValue {
    Null,
    Bool(bool),
    Number(String),
    String(String),
    Array(Vec<JsonValue>),
    Object(Vec<(String, JsonValue)>),
}

/// Whether `str::chars().all(char::is_alphanumeric)` style classification holds for `c`, as the
/// standard library's Unicode tables decide it.
pub uninterp spec fn alphanumeric(c: char) -> bool;

/// The `Debug` rendering of a string: quoted, with escapes.
pub uninterp spec fn debug_quoted(s: Seq<char>) -> Seq<char>;

/// The lowercase hexadecimal digit for `v`, from 0 to 15.
pub open spec fn hex_digit(v: int) -> char {
    if v < 10 {
        (('0' as int) + v) as char
    } else {
        (('a' as int) + v - 10) as char
    }
}

/// One character inside a JSON string literal: quote and backslash escaped with a backslash,
/// backspace, tab, line feed, form feed and carriage return by their letters, the other
/// control characters below U+0020 as `\u00` and two hexadecimal digits, and every other
/// character as itself.
pub open spec fn json_char(c: char) -> Seq<char> {
    let v = c as u32 as int;
    if c == '"' {
        seq!['\\', '"']
    } else if c == '\\' {
        seq!['\\', '\\']
    } else if v == 0x08 {
        seq!['\\', 'b']
    } else if v == 0x09 {
        seq!['\\', 't']
    } else if v == 0x0a {
        seq!['\\', 'n']
    } else if v == 0x0c {
        seq!['\\', 'f']
    } else if v == 0x0d {
        seq!['\\', 'r']
    } else if v < 0x20 {
        seq!['\\', 'u', '0', '0', hex_digit(v / 16), hex_digit(v % 16)]
    } else {
        seq![c]
    }
}

/// The characters of `s`, each escaped as inside a JSON string literal.
pub open spec fn json_escaped(s: Seq<char>) -> Seq<char>
    decreases s.len(),
{
    if s.len() == 0 {
        Seq::empty()
    } else {
        json_escaped(s.drop_last()) + json_char(s.last())
    }
}

/// The JSON string literal for `s`, as `serde_json` writes it: the escaped characters between
/// double quotes.
pub open spec fn json_quoted(s: Seq<char>) -> Seq<char> {
    seq!['"'] + json_escaped(s) + seq!['"']
}

/// Calls `char::is_alphanumeric`: whether `c` is alphabetic or numeric by the Unicode tables.
#[verifier::external_body]
fn is_alphanumeric(c: char) -> (r: bool)
    ensures
        r == alphanumeric(c),
{
    c.is_alphanumeric()
}

/// Calls `<str as Debug>::fmt` through `format!`: the quoted, escaped form of `s`.
#[verifier::external_body]
fn debug_text(s: &str) -> (r: String)
    ensures
        r@ == debug_quoted(s@),
{
    format!("{:?}", s)
}

/// Calls `serde_json::Value::to_string` on a JSON string value: `s` between double quotes,
/// escaped as `serde_json`'s compact formatter escapes string contents (its `ESCAPE` table
/// and `write_char_escape`).
#[verifier::external_body]
fn json_text(s: &str) -> (r: String)
    ensures
        r@ == json_quoted(s@),
{
    serde_json::Value::String(s.to_owned()).to_string()
}

/// The UTF-8 encoding of one character.
pub open spec fn utf8_char(c: char) -> Seq<u8> {
    let v = c as u32 as int;
    if v < 0x80 {
        seq![v as u8]
    } else if v < 0x800 {
        seq![(0xc0 + v / 64) as u8, (0x80 + v % 64) as u8]
    } else if v < 0x10000 {
        seq![(0xe0 + v / 4096) as u8, (0x80 + (v / 64) % 64) as u8, (0x80 + v % 64) as u8]
    } else {
        seq![
            (0xf0 + v / 262144) as u8,
            (0x80 + (v / 4096) % 64) as u8,
            (0x80 + (v / 64) % 64) as u8,
            (0x80 + v % 64) as u8,
        ]
    }
}

/// The UTF-8 encoding of a string.
pub open spec fn utf8(s: Seq<char>) -> Seq<u8>
    decreases s.len(),
{
    if s.len() == 0 {
        Seq::empty()
    } else {
        utf8(s.drop_last()) + utf8_char(s.last())
    }
}

/// The 64-bit FNV-1a hash of `bytes`.
pub open spec fn fnv1a(bytes: Seq<u8>) -> u64
    decreases bytes.len(),
{
    if bytes.len() == 0 {
        0xcbf2_9ce4_8422_2325
    } else {
        (((fnv1a(bytes.drop_last()) ^ (bytes.last() as u64)) as int * 0x0000_0100_0000_01b3)
            % 0x1_0000_0000_0000_0000) as u64
    }
}

/// The node ID of a canonical path: the FNV-1a hash of its UTF-8 bytes.
pub open spec fn path_hash(path: Seq<char>) -> u64 {
    fnv1a(utf8(path))
}

/// The path of member `key` under `parent`: `parent.key` for keys of alphanumeric characters and
/// underscores, else `parent[<debug-quoted key>]`.
pub open spec fn object_path_spec(parent: Seq<char>, key: Seq<char>) -> Seq<char> {
    if forall|i: int| 0 <= i < key.len() ==> alphanumeric(#[trigger] key[i]) || key[i] == '_' {
        parent + seq!['.'] + key
    } else {
        parent + seq!['['] + debug_quoted(key) + seq![']']
    }
}

/// The path of element `index` under `parent`: `parent[index]`.
pub open spec fn index_path(parent: Seq<char>, index: nat) -> Seq<char> {
    parent + seq!['['] + decimal(index) + seq![']']
}

/// The label of element `index`: `[index]`.
pub open spec fn index_label(index: nat) -> Seq<char> {
    seq!['['] + decimal(index) + seq![']']
}

/// The text shown for a leaf value.
pub open spec fn scalar_text_spec(value: JsonValue) -> Seq<char> {
    match value {
        JsonValue::Null => seq!['n', 'u', 'l', 'l'],
        JsonValue::Bool(b) => if b {
            seq!['t', 'r', 'u', 'e']
        } else {
            seq!['f', 'a', 'l', 's', 'e']
        },
        JsonValue::Number(n) => n@,
        JsonValue::String(s) => json_quoted(s@),
        JsonValue::Array(_) => seq!['[', ']'],
        JsonValue::Object(_) => seq!['{', '}'],
    }
}

/// Whether `value` has no children in the tree (scalars and empty containers).
pub open spec fn is_leaf(value: JsonValue) -> bool {
    match value {
        JsonValue::Array(items) => items@.len() == 0,
        JsonValue::Object(entries) => entries@.len() == 0,
        _ => true,
    }
}

/// The canonical paths of `value` (at `path`) and all its descendants, parents first.
pub open spec fn value_paths(value: JsonValue, path: Seq<char>) -> Seq<Seq<char>>
    decreases value, 2int,
{
    seq![path] + match value {
        JsonValue::Array(items) => item_paths(items@, path, items@.len() as int),
        JsonValue::Object(entries) => entry_paths(entries@, path, entries@.len() as int),
        _ => Seq::empty(),
    }
}

/// The paths under the first `n` array elements.
pub open spec fn item_paths(items: Seq<JsonValue>, path: Seq<char>, n: int) -> Seq<Seq<char>>
    decreases items, 1int, n,
{
    if n <= 0 || n > items.len() {
        Seq::empty()
    } else {
        item_paths(items, path, n - 1) + value_paths(
            items[n - 1],
            index_path(path, (n - 1) as nat),
        )
    }
}

/// The paths under the first `n` object members.
pub open spec fn entry_paths(entries: Seq<(String, JsonValue)>, path: Seq<char>, n: int) -> Seq<
    Seq<char>,
>
    decreases entries, 1int, n,
{
    if n <= 0 || n > entries.len() {
        Seq::empty()
    } else {
        entry_paths(entries, path, n - 1) + value_paths(
            entries[n - 1].1,
            object_path_spec(path, entries[n - 1].0@),
        )
    }
}

/// The path and label of the root node.
pub open spec fn root_name() -> Seq<char> {
    seq!['r', 'o', 'o', 't']
}

/// The label text of the node for `value` labelled `label`: `label: <scalar text>` for a leaf,
/// the label alone for a non-empty container.
pub open spec fn node_text(value: JsonValue, label: Seq<char>) -> Seq<char> {
    if is_leaf(value) {
        label + seq![':', ' '] + scalar_text_spec(value)
    } else {
        label
    }
}

/// Whether `node` is the tree node built for `value` at `path` labelled `label`: its ID is the
/// hash of the path, its label is one unstyled span of the node text, and its children are the
/// nodes of the elements (labelled `[index]`) or members (labelled by key), in order.
pub open spec fn value_node(node: TreeNode, value: JsonValue, path: Seq<char>, label: Seq<char>) -> bool
    decreases value,
{
    &&& node.spec_id() == path_hash(path)
    &&& node.spec_label().spec_spans() == seq![(node_text(value, label), Style::plain())]
    &&& match value {
        JsonValue::Array(items) => {
            &&& node.spec_children().len() == items@.len()
            &&& forall|k: int|
                0 <= k < items@.len() ==> value_node(
                    #[trigger] node.spec_children()[k],
                    items@[k],
                    index_path(path, k as nat),
                    index_label(k as nat),
                )
        },
        JsonValue::Object(entries) => {
            &&& node.spec_children().len() == entries@.len()
            &&& forall|k: int|
                0 <= k < entries@.len() ==> value_node(
                    #[trigger] node.spec_children()[k],
                    entries@[k].1,
                    object_path_spec(path, entries@[k].0@),
                    entries@[k].0@,
                )
        },
        _ => node.spec_children().len() == 0,
    }
}

/// Whether `roots` is the forest built for `value`: a single node for it at path `root`,
/// labelled `root`.
pub open spec fn value_forest(value: JsonValue, roots: Seq<TreeNode>) -> bool {
    roots.len() == 1 && value_node(roots[0], value, root_name(), root_name())
}

/// The UTF-8 bytes of `s`.
fn encode_utf8(s: &str) -> (r: Vec<u8>)
    ensures
        r@ == utf8(s@),
{
    let chars = str_chars(s);
    let mut out: Vec<u8> = Vec::new();
    let mut i: usize = 0;
    while i < chars.len()
        invariant
            i <= chars@.len(),
            chars@ == s@,
            out@ == utf8(chars@.take(i as int)),
        decreases chars@.len() - i,
    {
        proof {
            assert(chars@.take(i + 1).drop_last() == chars@.take(i as int));
            assert(chars@.take(i + 1).last() == chars@[i as int]);
        }
        let v = chars[i] as u32;
        let ghost before = out@;
        if v < 0x80 {
            out.push(v as u8);
        } else if v < 0x800 {
            out.push((0xc0 + v / 64) as u8);
            out.push((0x80 + v % 64) as u8);
        } else if v < 0x10000 {
            out.push((0xe0 + v / 4096) as u8);
            out.push((0x80 + (v / 64) % 64) as u8);
            out.push((0x80 + v % 64) as u8);
        } else {
            out.push((0xf0 + v / 262144) as u8);
            out.push((0x80 + (v / 4096) % 64) as u8);
            out.push((0x80 + (v / 64) % 64) as u8);
            out.push((0x80 + v % 64) as u8);
        }
        proof {
            assert(out@ =~= before + utf8_char(chars@[i as int]));
        }
        i = i + 1;
    }
    proof {
        assert(chars@.take(chars@.len() as int) == chars@);
    }
    out
}

/// The stable node ID of a canonical path.
pub fn path_id(path: &str) -> (r: u64)
    ensures
        r == path_hash(path@),
{
    let bytes = encode_utf8(path);
    let mut hash: u64 = 0xcbf2_9ce4_8422_2325;
    let mut i: usize = 0;
    while i < bytes.len()
        invariant
            i <= bytes@.len(),
            hash == fnv1a(bytes@.take(i as int)),
        decreases bytes@.len() - i,
    {
        proof {
            assert(bytes@.take(i + 1).drop_last() == bytes@.take(i as int));
            assert(bytes@.take(i + 1).last() == bytes@[i as int]);
        }
        hash = (hash ^ bytes[i] as u64).wrapping_mul(0x0000_0100_0000_01b3);
        i = i + 1;
    }
    proof {
        assert(bytes@.take(bytes@.len() as int) == bytes@);
    }
    hash
}

/// The path of member `key` under `parent`.
pub fn object_path(parent: &str, key: &str) -> (r: String)
    ensures
        r@ == object_path_spec(parent@, key@),
{
    let chars = str_chars(key);
    let mut plain = true;
    let mut i: usize = 0;
    while i < chars.len()
        invariant
            i <= chars@.len(),
            chars@ == key@,
            plain == forall|k: int| 0 <= k < i ==> alphanumeric(#[trigger] key@[k]) || key@[k] == '_',
        decreases chars@.len() - i,
    {
        let c = chars[i];
        if !(is_alphanumeric(c) || c == '_') {
            plain = false;
        }
        i = i + 1;
    }
    let mut out = copy_string(parent);
    if plain {
        push_char(&mut out, '.');
        push_str(&mut out, key);
        proof {
            assert(out@ =~= parent@ + seq!['.'] + key@);
        }
    } else {
        push_char(&mut out, '[');
        let quoted = debug_text(key);
        push_str(&mut out, quoted.as_str());
        push_char(&mut out, ']');
        proof {
            assert(out@ =~= parent@ + seq!['['] + debug_quoted(key@) + seq![']']);
        }
    }
    out
}

/// `[index]`, and the path `parent[index]`.
fn index_parts(parent: &str, index: usize) -> (r: (String, String))
    ensures
        r.0@ == index_label(index as nat),
        r.1@ == index_path(parent@, index as nat),
{
    let mut label = String::new();
    push_char(&mut label, '[');
    crate::diff_view::push_decimal(&mut label, index);
    push_char(&mut label, ']');
    let path = concat_strs(parent, label.as_str());
    proof {
        assert(label@ =~= index_label(index as nat));
        assert(path@ =~= index_path(parent@, index as nat));
    }
    (label, path)
}

/// The text shown for a leaf value.
fn scalar_text(value: &JsonValue) -> (r: String)
    ensures
        r@ == scalar_text_spec(*value),
{
    let text = match value {
        JsonValue::Null => "null",
        JsonValue::Bool(b) => if *b {
            "true"
        } else {
            "false"
        },
        JsonValue::Number(n) => {
            return copy_string(n.as_str());
        },
        JsonValue::String(s) => {
            return json_text(s.as_str());
        },
        JsonValue::Array(_) => "[]",
        JsonValue::Object(_) => "{}",
    };
    proof {
        reveal_strlit("null");
        reveal_strlit("true");
        reveal_strlit("false");
        reveal_strlit("[]");
        reveal_strlit("{}");
    }
    copy_string(text)
}

/// Appends the canonical paths of `value` (at `path`) and its descendants to `paths`.
fn collect_paths(value: &JsonValue, path: &str, paths: &mut Vec<String>)
    ensures
        final(paths)@.map_values(|s: String| s@) == old(paths)@.map_values(|s: String| s@)
            + value_paths(*value, path@),
    decreases *value,
{
    let ghost start = paths@.map_values(|s: String| s@);
    paths.push(copy_string(path));
    proof {
        assert(paths@.map_values(|s: String| s@) =~= start + seq![path@]);
    }
    match value {
        JsonValue::Array(items) => {
            let mut i: usize = 0;
            while i < items.len()
                invariant
                    *value == JsonValue::Array(*items),
                    i <= items@.len(),
                    paths@.map_values(|s: String| s@) == start + seq![path@] + item_paths(
                        items@,
                        path@,
                        i as int,
                    ),
                decreases items@.len() - i,
            {
                let (_, child_path) = index_parts(path, i);
                proof {
                    assert(decreases_to!(*value => value->Array_0));
                    assert(decreases_to!(*items => items[i as int]));
                }
                let ghost before = paths@.map_values(|s: String| s@);
                collect_paths(&items[i], child_path.as_str(), paths);
                proof {
                    assert(start + seq![path@] + item_paths(items@, path@, i + 1) =~= before
                        + value_paths(items@[i as int], index_path(path@, i as nat)));
                }
                i = i + 1;
            }
            proof {
                assert(value_paths(*value, path@) =~= seq![path@] + item_paths(
                    items@,
                    path@,
                    items@.len() as int,
                ));
            }
        },
        JsonValue::Object(entries) => {
            let mut i: usize = 0;
            while i < entries.len()
                invariant
                    *value == JsonValue::Object(*entries),
                    i <= entries@.len(),
                    paths@.map_values(|s: String| s@) == start + seq![path@] + entry_paths(
                        entries@,
                        path@,
                        i as int,
                    ),
                decreases entries@.len() - i,
            {
                let child_path = object_path(path, entries[i].0.as_str());
                proof {
                    assert(decreases_to!(*value => value->Object_0));
                    assert(decreases_to!(*entries => entries[i as int]));
                    assert(decreases_to!(entries[i as int] => entries[i as int].1));
                }
                let ghost before = paths@.map_values(|s: String| s@);
                collect_paths(&entries[i].1, child_path.as_str(), paths);
                proof {
                    assert(start + seq![path@] + entry_paths(entries@, path@, i + 1) =~= before
                        + value_paths(
                        entries@[i as int].1,
                        object_path_spec(path@, entries@[i as int].0@),
                    ));
                }
                i = i + 1;
            }
            proof {
                assert(value_paths(*value, path@) =~= seq![path@] + entry_paths(
                    entries@,
                    path@,
                    entries@.len() as int,
                ));
            }
        },
        _ => {
            proof {
                assert(value_paths(*value, path@) =~= seq![path@]);
            }
        },
    }
}

/// The tree node for `value` at `path` labelled `label`, with nodes for its elements or members.
fn tree_node(value: &JsonValue, path: &str, label: &str) -> (r: TreeNode)
    ensures
        value_node(r, *value, path@, label@),
    decreases *value,
{
    let mut children: Vec<TreeNode> = Vec::new();
    match value {
        JsonValue::Array(items) => {
            let mut i: usize = 0;
            while i < items.len()
                invariant
                    *value == JsonValue::Array(*items),
                    i <= items@.len(),
                    children@.len() == i,
                    forall|k: int|
                        0 <= k < i ==> value_node(
                            #[trigger] children@[k],
                            items@[k],
                            index_path(path@, k as nat),
                            index_label(k as nat),
                        ),
                decreases items@.len() - i,
            {
                let (child_label, child_path) = index_parts(path, i);
                proof {
                    assert(decreases_to!(*value => value->Array_0));
                    assert(decreases_to!(*items => items[i as int]));
                }
                children.push(tree_node(&items[i], child_path.as_str(), child_label.as_str()));
                i = i + 1;
            }
        },
        JsonValue::Object(entries) => {
            let mut i: usize = 0;
            while i < entries.len()
                invariant
                    *value == JsonValue::Object(*entries),
                    i <= entries@.len(),
                    children@.len() == i,
                    forall|k: int|
                        0 <= k < i ==> value_node(
                            #[trigger] children@[k],
                            entries@[k].1,
                            object_path_spec(path@, entries@[k].0@),
                            entries@[k].0@,
                        ),
                decreases entries@.len() - i,
            {
                let key = entries[i].0.as_str();
                let child_path = object_path(path, key);
                proof {
                    assert(decreases_to!(*value => value->Object_0));
                    assert(decreases_to!(*entries => entries[i as int]));
                    assert(decreases_to!(entries[i as int] => entries[i as int].1));
                }
                children.push(tree_node(&entries[i].1, child_path.as_str(), key));
                i = i + 1;
            }
        },
        _ => {},
    }
    let leaf = children.len() == 0;
    proof {
        assert(leaf == is_leaf(*value));
    }
    let display = if leaf {
        let separator = ": ";
        proof {
            reveal_strlit(": ");
        }
        let with_colon = concat_strs(label, separator);
        let text = scalar_text(value);
        concat_strs(with_colon.as_str(), text.as_str())
    } else {
        copy_string(label)
    };
    assert(display@ == node_text(*value, label@));
    let line = Line::raw(display.as_str());
    let node = TreeNode::new(path_id(path), line);
    node.children(children)
}

/// A borrowed, read-only adapter from a JSON value to the reusable [`Tree`] primitive.
///
/// Node identity derives from a canonical path, so selection and expansion stay stable when an
/// equivalent structured value is rendered again.
pub struct StructuredData<'a> {
    value: &'a JsonValue,
}

impl<'a> StructuredData<'a> {
    pub closed spec fn spec_value(&self) -> JsonValue {
        *self.value
    }

    pub fn new(value: &'a JsonValue) -> (r: Self)
        ensures
            r.spec_value() == *value,
    {
        StructuredData { value }
    }

    /// The stable node ID for an existing canonical path (`None` for a path not in the value).
    pub fn id_for_path(&self, path: &str) -> (r: Option<u64>)
        ensures
            value_paths(self.spec_value(), seq!['r', 'o', 'o', 't']).contains(path@) ==> r == Some(
                path_hash(path@),
            ),
            !value_paths(self.spec_value(), seq!['r', 'o', 'o', 't']).contains(path@) ==> r is None,
    {
        let name = "root";
        proof {
            reveal_strlit("root");
        }
        let mut paths: Vec<String> = Vec::new();
        assert(paths@.map_values(|s: String| s@) =~= Seq::<Seq<char>>::empty());
        collect_paths(self.value, name, &mut paths);
        let ghost views = paths@.map_values(|s: String| s@);
        assert(name@ == seq!['r', 'o', 'o', 't']);
        assert(views =~= value_paths(*self.value, seq!['r', 'o', 'o', 't']));
        let target = str_chars(path);
        let mut i: usize = 0;
        while i < paths.len()
            invariant
                i <= paths@.len(),
                views == paths@.map_values(|s: String| s@),
                views == value_paths(*self.value, seq!['r', 'o', 'o', 't']),
                target@ == path@,
                forall|k: int| 0 <= k < i ==> #[trigger] views[k] != path@,
            decreases paths@.len() - i,
        {
            let candidate = str_chars(paths[i].as_str());
            if crate::chars::same_chars(&candidate, &target) {
                proof {
                    assert(views[i as int] == path@);
                    assert(views.contains(path@));
                }
                return Some(path_id(path));
            }
            i = i + 1;
        }
        None
    }

    /// The tree of the value: a root node labelled `root`, with one child per element or member.
    fn tree(&self) -> (r: Tree)
        ensures
            value_forest(self.spec_value(), r.spec_roots()),
            r.spec_selected_style() == Style::plain(),
    {
        let name = "root";
        proof {
            reveal_strlit("root");
        }
        let root = tree_node(self.value, name, name);
        assert(name@ == root_name());
        let mut roots: Vec<TreeNode> = Vec::new();
        roots.push(root);
        assert(roots@[0] == root);
        Tree::new(roots)
    }

    pub fn move_up(&self, state: &mut TreeState) -> (r: bool)
        ensures
            exists|roots: Seq<TreeNode>|
                #[trigger] value_forest(self.spec_value(), roots) && (
                    final(state).spec_selected(),
                    final(state).spec_expanded(),
                    r,
                ) == tree_command(
                    roots,
                    old(state).spec_selected(),
                    old(state).spec_expanded(),
                    TreeCommand::Up,
                ),
            final(state).spec_viewport() == old(state).spec_viewport(),
    {
        let tree = self.tree();
        let r = tree.move_up(state);
        assert(value_forest(self.spec_value(), tree.spec_roots()));
        r
    }

    pub fn move_down(&self, state: &mut TreeState) -> (r: bool)
        ensures
            exists|roots: Seq<TreeNode>|
                #[trigger] value_forest(self.spec_value(), roots) && (
                    final(state).spec_selected(),
                    final(state).spec_expanded(),
                    r,
                ) == tree_command(
                    roots,
                    old(state).spec_selected(),
                    old(state).spec_expanded(),
                    TreeCommand::Down,
                ),
            final(state).spec_viewport() == old(state).spec_viewport(),
    {
        let tree = self.tree();
        let r = tree.move_down(state);
        assert(value_forest(self.spec_value(), tree.spec_roots()));
        r
    }

    pub fn move_left(&self, state: &mut TreeState) -> (r: bool)
        ensures
            exists|roots: Seq<TreeNode>|
                #[trigger] value_forest(self.spec_value(), roots) && (
                    final(state).spec_selected(),
                    final(state).spec_expanded(),
                    r,
                ) == tree_command(
                    roots,
                    old(state).spec_selected(),
                    old(state).spec_expanded(),
                    TreeCommand::Left,
                ),
            final(state).spec_viewport() == old(state).spec_viewport(),
    {
        let tree = self.tree();
        let r = tree.move_left(state);
        assert(value_forest(self.spec_value(), tree.spec_roots()));
        r
    }

    pub fn move_right(&self, state: &mut TreeState) -> (r: bool)
        ensures
            exists|roots: Seq<TreeNode>|
                #[trigger] value_forest(self.spec_value(), roots) && (
                    final(state).spec_selected(),
                    final(state).spec_expanded(),
                    r,
                ) == tree_command(
                    roots,
                    old(state).spec_selected(),
                    old(state).spec_expanded(),
                    TreeCommand::Right,
                ),
            final(state).spec_viewport() == old(state).spec_viewport(),
    {
        let tree = self.tree();
        let r = tree.move_right(state);
        assert(value_forest(self.spec_value(), tree.spec_roots()));
        r
    }

    pub fn toggle(&self, state: &mut TreeState) -> (r: bool)
        ensures
            exists|roots: Seq<TreeNode>|
                #[trigger] value_forest(self.spec_value(), roots) && (
                    final(state).spec_selected(),
                    final(state).spec_expanded(),
                    r,
                ) == tree_command(
                    roots,
                    old(state).spec_selected(),
                    old(state).spec_expanded(),
                    TreeCommand::Toggle,
                ),
            final(state).spec_viewport() == old(state).spec_viewport(),
    {
        let tree = self.tree();
        let r = tree.toggle(state);
        assert(value_forest(self.spec_value(), tree.spec_roots()));
        r
    }

    /// Renders the value's tree into `rect`, drawing the selected row with `selected_style`.
    pub fn render(&self, frame: &mut Frame, rect: Rect, state: &mut TreeState, selected_style: Style)
        requires
            old(frame).wf(),
        ensures
            final(frame).wf(),
            final(frame).same_size(old(frame)),
            exists|roots: Seq<TreeNode>|
                #[trigger] value_forest(self.spec_value(), roots) && tree_rendered(
                    roots,
                    selected_style,
                    rect,
                    *old(frame),
                    *old(state),
                    *final(frame),
                    *final(state),
                ),
    {
        let tree = self.tree().selected_style(selected_style);
        tree.render(frame, rect, state);
        assert(value_forest(self.spec_value(), tree.spec_roots()));
    }
}

/// Two nodes built for the same value at the same path and label have the same shape.
proof fn lemma_value_nodes_same_shape(
    a: TreeNode,
    b: TreeNode,
    value: JsonValue,
    path: Seq<char>,
    label: Seq<char>,
)
    requires
        value_node(a, value, path, label),
        value_node(b, value, path, label),
    ensures
        same_shape(a, b),
    decreases value,
{
    match value {
        JsonValue::Array(items) => {
            assert forall|k: int| 0 <= k < a.spec_children().len() implies same_shape(
                #[trigger] a.spec_children()[k],
                b.spec_children()[k],
            ) by {
                assert(decreases_to!(value => items@[k]));
                lemma_value_nodes_same_shape(
                    a.spec_children()[k],
                    b.spec_children()[k],
                    items@[k],
                    index_path(path, k as nat),
                    index_label(k as nat),
                );
            }
        },
        JsonValue::Object(entries) => {
            assert forall|k: int| 0 <= k < a.spec_children().len() implies same_shape(
                #[trigger] a.spec_children()[k],
                b.spec_children()[k],
            ) by {
                assert(decreases_to!(value => entries@[k].1));
                lemma_value_nodes_same_shape(
                    a.spec_children()[k],
                    b.spec_children()[k],
                    entries@[k].1,
                    object_path_spec(path, entries@[k].0@),
                    entries@[k].0@,
                );
            }
        },
        _ => {},
    }
}

/// Node identity derives from canonical paths, so the view of a value is the same whenever it
/// is built again: every navigation command gives the same selection, expansion and result.
pub proof fn lemma_structured_commands_stable(
    value: JsonValue,
    a: Seq<TreeNode>,
    b: Seq<TreeNode>,
    selected: Option<u64>,
    expanded: Set<u64>,
    command: TreeCommand,
)
    requires
        value_forest(value, a),
        value_forest(value, b),
    ensures
        tree_command(a, selected, expanded, command) == tree_command(b, selected, expanded, command),
{
    lemma_value_nodes_same_shape(a[0], b[0], value, root_name(), root_name());
    assert(same_shapes(a, b));
    lemma_same_shape_same_commands(a, b, selected, expanded, command);
}

/// Node identity derives from canonical paths, so the view of a value is the same whenever it
/// is built again: rendering it draws the same cells and leaves the same state.
pub proof fn lemma_structured_render_stable(
    value: JsonValue,
    a: Seq<TreeNode>,
    b: Seq<TreeNode>,
    style: Style,
    rect: Rect,
    old_frame: Frame,
    old_state: TreeState,
    new_frame: Frame,
    new_state: TreeState,
)
    requires
        value_forest(value, a),
        value_forest(value, b),
    ensures
        tree_rendered(a, style, rect, old_frame, old_state, new_frame, new_state) == tree_rendered(
            b,
            style,
            rect,
            old_frame,
            old_state,
            new_frame,
            new_state,
        ),
{
    lemma_value_nodes_same_shape(a[0], b[0], value, root_name(), root_name());
    assert(same_shapes(a, b));
    lemma_same_shape_same_render(a, b, style, rect, old_frame, old_state, new_frame, new_state);
}

proof fn lemma_item_paths_member(items: Seq<JsonValue>, path: Seq<char>, n: int, q: Seq<char>)
    requires
        item_paths(items, path, n).contains(q),
    ensures
        exists|k: int|
            0 <= k < n && k < items.len() && #[trigger] value_paths(
                items[k],
                index_path(path, k as nat),
            ).contains(q),
    decreases n,
{
    if n <= 0 || n > items.len() {
    } else {
        let prev = item_paths(items, path, n - 1);
        let last = value_paths(items[n - 1], index_path(path, (n - 1) as nat));
        if prev.contains(q) {
            lemma_item_paths_member(items, path, n - 1, q);
        } else {
            let j = choose|j: int| 0 <= j < (prev + last).len() && (prev + last)[j] == q;
            assert(last[j - prev.len()] == q);
            assert(last.contains(q));
        }
    }
}

proof fn lemma_entry_paths_member(
    entries: Seq<(String, JsonValue)>,
    path: Seq<char>,
    n: int,
    q: Seq<char>,
)
    requires
        entry_paths(entries, path, n).contains(q),
    ensures
        exists|k: int|
            0 <= k < n && k < entries.len() && #[trigger] value_paths(
                entries[k].1,
                object_path_spec(path, entries[k].0@),
            ).contains(q),
    decreases n,
{
    if n <= 0 || n > entries.len() {
    } else {
        let prev = entry_paths(entries, path, n - 1);
        let last = value_paths(entries[n - 1].1, object_path_spec(path, entries[n - 1].0@));
        if prev.contains(q) {
            lemma_entry_paths_member(entries, path, n - 1, q);
        } else {
            let j = choose|j: int| 0 <= j < (prev + last).len() && (prev + last)[j] == q;
            assert(last[j - prev.len()] == q);
            assert(last.contains(q));
        }
    }
}

/// Every node of a list contributes its IDs to the list's IDs.
proof fn lemma_forest_ids_include(nodes: Seq<TreeNode>, k: int)
    requires
        0 <= k < nodes.len(),
    ensures
        node_ids(nodes[k]).subset_of(forest_ids(nodes)),
    decreases nodes.len(),
{
    if k < nodes.len() - 1 {
        lemma_forest_ids_include(nodes.drop_last(), k);
        assert(nodes.drop_last()[k] == nodes[k]);
    }
}

/// The node built for `value` at `path` carries the ID of every canonical path below it.
proof fn lemma_value_node_ids(node: TreeNode, value: JsonValue, path: Seq<char>, label: Seq<char>, q: Seq<char>)
    requires
        value_node(node, value, path, label),
        value_paths(value, path).contains(q),
    ensures
        node_ids(node).contains(path_hash(q)),
    decreases value,
{
    let rest = match value {
        JsonValue::Array(items) => item_paths(items@, path, items@.len() as int),
        JsonValue::Object(entries) => entry_paths(entries@, path, entries@.len() as int),
        _ => Seq::empty(),
    };
    assert(value_paths(value, path) == seq![path] + rest);
    if q == path {
        assert(node_ids(node).contains(node.spec_id()));
    } else {
        let j = choose|j: int| 0 <= j < (seq![path] + rest).len() && (seq![path] + rest)[j] == q;
        assert(rest[j - 1] == q);
        assert(rest.contains(q));
        match value {
            JsonValue::Array(items) => {
                lemma_item_paths_member(items@, path, items@.len() as int, q);
                let k = choose|k: int|
                    0 <= k < items@.len() && k < items@.len() && #[trigger] value_paths(
                        items@[k],
                        index_path(path, k as nat),
                    ).contains(q);
                assert(decreases_to!(value => items@[k]));
                let child = node.spec_children()[k];
                lemma_value_node_ids(child, items@[k], index_path(path, k as nat), index_label(k as nat), q);
                lemma_forest_ids_include(node.spec_children(), k);
            },
            JsonValue::Object(entries) => {
                lemma_entry_paths_member(entries@, path, entries@.len() as int, q);
                let k = choose|k: int|
                    0 <= k < entries@.len() && k < entries@.len() && #[trigger] value_paths(
                        entries@[k].1,
                        object_path_spec(path, entries@[k].0@),
                    ).contains(q);
                assert(decreases_to!(value => entries@[k].1));
                let child = node.spec_children()[k];
                lemma_value_node_ids(
                    child,
                    entries@[k].1,
                    object_path_spec(path, entries@[k].0@),
                    entries@[k].0@,
                    q,
                );
                lemma_forest_ids_include(node.spec_children(), k);
            },
            _ => {},
        }
    }
}

/// The ID that [`StructuredData::id_for_path`] gives for a canonical path names a node of the
/// value's tree, so selecting or expanding it acts on that node.
pub proof fn lemma_path_ids_name_nodes(value: JsonValue, roots: Seq<TreeNode>, path: Seq<char>)
    requires
        value_forest(value, roots),
        value_paths(value, root_name()).contains(path),
    ensures
        forest_ids(roots).contains(path_hash(path)),
{
    lemma_value_node_ids(roots[0], value, root_name(), root_name(), path);
    lemma_forest_ids_include(roots, 0);
}

} // verus!
