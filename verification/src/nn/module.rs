//! Module metadata: the layer tree a model reports, the names its layers are
//! given, and the summary table printed from it.
use vstd::prelude::*;
use crate::error::Error;
use crate::text::{decimal, decimal_string};

verus! {

// --- type names ---------------------------------------------------------------------

/// Whether `c` has the Unicode `White_Space` property, the set that
/// `char::is_whitespace` and `str::trim` use.
pub open spec fn is_white_space(c: char) -> bool {
    let u = c as u32;
    (0x09 <= u <= 0x0d) || u == 0x20 || u == 0x85 || u == 0xa0 || u == 0x1680 || (0x2000 <= u
        <= 0x200a) || u == 0x2028 || u == 0x2029 || u == 0x202f || u == 0x205f || u == 0x3000
}

fn white_space(c: char) -> (r: bool)
    ensures
        r == is_white_space(c),
{
    let u = c as u32;
    (0x09 <= u && u <= 0x0d) || u == 0x20 || u == 0x85 || u == 0xa0 || u == 0x1680 || (0x2000
        <= u && u <= 0x200a) || u == 0x2028 || u == 0x2029 || u == 0x202f || u == 0x205f || u
        == 0x3000
}

/// Index of the first `<` at or after `i`, or the length.
pub open spec fn generic_start(s: Seq<char>, i: int) -> int
    decreases s.len() - i,
{
    if i < 0 || i >= s.len() {
        s.len() as int
    } else if s[i] == '<' {
        i
    } else {
        generic_start(s, i + 1)
    }
}

/// For the prefix `s.take(j)`: the index just past its last `::`, or zero.
pub open spec fn after_last_separator(s: Seq<char>, j: int) -> int
    decreases j,
{
    if j < 2 || j > s.len() {
        0
    } else if s[j - 2] == ':' && s[j - 1] == ':' {
        j
    } else {
        after_last_separator(s, j - 1)
    }
}

/// The first index in `[i, end)` that is not white space, or `end`.
pub open spec fn trim_start(s: Seq<char>, i: int, end: int) -> int
    decreases end - i,
{
    if i >= end {
        end
    } else if is_white_space(s[i]) {
        trim_start(s, i + 1, end)
    } else {
        i
    }
}

/// The end of `[start, j)` once trailing white space is dropped.
pub open spec fn trim_end(s: Seq<char>, start: int, j: int) -> int
    decreases j - start,
{
    if j <= start {
        start
    } else if is_white_space(s[j - 1]) {
        trim_end(s, start, j - 1)
    } else {
        j
    }
}

/// A type path reduced to its simple name: everything from the first `<`
/// on is dropped, then everything up to the last `::`, then surrounding
/// white space.
pub open spec fn spec_clean_type_name(raw: Seq<char>) -> Seq<char> {
    let end = generic_start(raw, 0);
    let start = after_last_separator(raw, end);
    let lo = trim_start(raw, start, end);
    let hi = trim_end(raw, lo, end);
    raw.subrange(lo, hi)
}

/// Cleans a fully qualified Rust type path into a simple name (e.g.
/// `incin::nn::linear::Linear<...>` becomes `Linear`).
pub fn clean_type_name(raw: &str) -> (r: String)
    ensures
        r@ == spec_clean_type_name(raw@),
{
    let n = raw.unicode_len();
    let mut end: usize = 0;
    while end < n && raw.get_char(end) != '<'
        invariant
            end <= n,
            n == raw@.len(),
            generic_start(raw@, 0) == generic_start(raw@, end as int),
        decreases n - end,
    {
        end = end + 1;
    }
    let mut j: usize = end;
    while j >= 2 && !(raw.get_char(j - 2) == ':' && raw.get_char(j - 1) == ':')
        invariant
            j <= end,
            end <= n,
            n == raw@.len(),
            after_last_separator(raw@, end as int) == after_last_separator(raw@, j as int),
        decreases j,
    {
        j = j - 1;
    }
    let start: usize = if j >= 2 {
        j
    } else {
        0
    };
    let mut lo: usize = start;
    while lo < end && white_space(raw.get_char(lo))
        invariant
            start <= lo <= end,
            end <= n,
            n == raw@.len(),
            trim_start(raw@, start as int, end as int) == trim_start(raw@, lo as int, end as int),
        decreases end - lo,
    {
        lo = lo + 1;
    }
    let mut hi: usize = end;
    while hi > lo && white_space(raw.get_char(hi - 1))
        invariant
            lo <= hi <= end,
            end <= n,
            n == raw@.len(),
            trim_end(raw@, lo as int, end as int) == trim_end(raw@, lo as int, hi as int),
        decreases hi - lo,
    {
        hi = hi - 1;
    }
    String::from_str(raw.substring_char(lo, hi))
}

// --- the layer tree -----------------------------------------------------------------

/// One node of a model's layer tree, as reported for visualization.
#[derive(Debug, PartialEq)]
pub struct LayerNode {
    /// The display name of this layer node.
    pub name: String,
    /// The type name of this layer node.
    pub layer_type: String,
    /// Human-readable description of the layer's shape.
    pub shape_info: String,
    /// Nested child layer nodes.
    pub children: Vec<LayerNode>,
}

/// What is left of a child's name once its parent's old name is taken off
/// the front, together with the `.` that joined them.
pub open spec fn child_suffix(old_name: Seq<char>, child: Seq<char>) -> Seq<char> {
    if old_name.len() == 0 {
        child
    } else if old_name.len() <= child.len() && child.take(old_name.len() as int) == old_name {
        if child.len() > old_name.len() && child[old_name.len() as int] == '.' {
            child.skip(old_name.len() as int + 1)
        } else {
            child.skip(old_name.len() as int)
        }
    } else {
        child
    }
}

/// `parent.suffix`, or just the suffix under an unnamed parent.
pub open spec fn joined_name(parent: Seq<char>, suffix: Seq<char>) -> Seq<char> {
    if parent.len() == 0 {
        suffix
    } else {
        parent + seq!['.'] + suffix
    }
}

/// Whether `new` is `old` renamed to `new_name`, with every descendant's
/// name re-rooted under the new name and everything else unchanged.
pub open spec fn is_renamed_node(old: LayerNode, new: LayerNode, new_name: Seq<char>) -> bool
    decreases old,
{
    &&& new.name@ == new_name
    &&& new.layer_type@ == old.layer_type@
    &&& new.shape_info@ == old.shape_info@
    &&& new.children@.len() == old.children@.len()
    &&& forall|i: int|
        0 <= i < old.children@.len() ==> is_renamed_node(
            #[trigger] old.children@[i],
            new.children@[i],
            joined_name(new_name, child_suffix(old.name@, old.children@[i].name@)),
        )
}

fn child_suffix_exec(old_name: &str, child: &str) -> (r: String)
    ensures
        r@ == child_suffix(old_name@, child@),
{
    let old_len = old_name.unicode_len();
    let child_len = child.unicode_len();
    if old_len == 0 || old_len > child_len {
        return String::from_str(child);
    }
    let mut i: usize = 0;
    while i < old_len
        invariant
            i <= old_len,
            old_len == old_name@.len(),
            old_len <= child_len,
            child_len == child@.len(),
            forall|j: int| 0 <= j < i ==> child@[j] == old_name@[j],
        decreases old_len - i,
    {
        if child.get_char(i) != old_name.get_char(i) {
            proof {
                assert(child@.take(old_len as int)[i as int] != old_name@[i as int]);
            }
            return String::from_str(child);
        }
        i = i + 1;
    }
    proof {
        assert(child@.take(old_len as int) =~= old_name@);
    }
    if child_len > old_len && child.get_char(old_len) == '.' {
        String::from_str(child.substring_char(old_len + 1, child_len))
    } else {
        String::from_str(child.substring_char(old_len, child_len))
    }
}

fn joined_name_exec(parent: &str, suffix: String) -> (r: String)
    ensures
        r@ == joined_name(parent@, suffix@),
{
    if parent.is_empty() {
        suffix
    } else {
        let r = String::from_str(parent).concat(".").concat(suffix.as_str());
        proof {
            reveal_strlit(".");
        }
        r
    }
}

fn renamed_node(node: &LayerNode, new_name: &str) -> (r: LayerNode)
    ensures
        is_renamed_node(*node, r, new_name@),
    decreases node,
{
    let mut children: Vec<LayerNode> = Vec::new();
    let mut i: usize = 0;
    while i < node.children.len()
        invariant
            i <= node.children@.len(),
            children@.len() == i,
            forall|j: int|
                0 <= j < i ==> is_renamed_node(
                    #[trigger] node.children@[j],
                    children@[j],
                    joined_name(new_name@, child_suffix(node.name@, node.children@[j].name@)),
                ),
        decreases node.children.len() - i,
    {
        let child = &node.children[i];
        let suffix = child_suffix_exec(node.name.as_str(), child.name.as_str());
        let child_name = joined_name_exec(new_name, suffix);
        proof {
            assert(decreases_to!(node => node.children));
            assert(decreases_to!(node.children => node.children@));
            assert(decreases_to!(node.children@ => node.children@[i as int]));
        }
        children.push(renamed_node(child, child_name.as_str()));
        i = i + 1;
    }
    LayerNode {
        name: String::from_str(new_name),
        layer_type: node.layer_type.clone(),
        shape_info: node.shape_info.clone(),
        children,
    }
}

/// Renames a node and re-roots every descendant's name under the new name:
/// a child named `old.rest` (or `oldrest`) becomes `new.rest`.
pub fn update_node_name_prefix(node: &mut LayerNode, new_name: &str)
    ensures
        is_renamed_node(*old(node), *final(node), new_name@),
{
    *node = renamed_node(node, new_name);
}

/// How many of the first `upto` nodes have `key` as their cleaned type name.
pub open spec fn type_count(nodes: Seq<LayerNode>, upto: int, key: Seq<char>) -> nat
    decreases upto,
{
    if upto <= 0 || upto > nodes.len() {
        0
    } else {
        type_count(nodes, upto - 1, key) + if spec_clean_type_name(nodes[upto - 1].layer_type@)
            == key {
            1nat
        } else {
            0nat
        }
    }
}

/// The name `assign_sequential_names` gives node `i`: its cleaned type name
/// numbered by how many nodes up to and including it share that type (for
/// example `Linear2`), or its position when the type name is empty or
/// `LayerNode`; then placed under `prefix`.
pub open spec fn sequential_name(nodes: Seq<LayerNode>, prefix: Seq<char>, i: int) -> Seq<char> {
    let cleaned = spec_clean_type_name(nodes[i].layer_type@);
    let own = if cleaned.len() > 0 && cleaned != "LayerNode"@ {
        cleaned + decimal(type_count(nodes, i + 1, cleaned))
    } else {
        decimal(i as nat)
    };
    joined_name(prefix, own)
}

/// Names each node after its type and how many of that type came before it
/// (`Linear1`, `ReLU1`, `Linear2`, ...), under `prefix`, re-rooting every
/// descendant's name accordingly.
pub fn assign_sequential_names(nodes: &mut Vec<LayerNode>, prefix: &str)
    requires
        old(nodes)@.len() <= i32::MAX,
    ensures
        final(nodes)@.len() == old(nodes)@.len(),
        forall|i: int|
            0 <= i < old(nodes)@.len() ==> is_renamed_node(
                #[trigger] old(nodes)@[i],
                final(nodes)@[i],
                sequential_name(old(nodes)@, prefix@, i),
            ),
{
    let ghost before = nodes@;
    let mut cleaned: Vec<String> = Vec::new();
    let mut k: usize = 0;
    while k < nodes.len()
        invariant
            k <= nodes@.len(),
            nodes@ == before,
            cleaned@.len() == k,
            forall|j: int|
                0 <= j < k ==> #[trigger] cleaned@[j]@ == spec_clean_type_name(before[j].layer_type@),
        decreases nodes.len() - k,
    {
        cleaned.push(clean_type_name(nodes[k].layer_type.as_str()));
        k = k + 1;
    }
    proof {
        reveal_strlit("LayerNode");
    }
    let mut i: usize = 0;
    while i < nodes.len()
        invariant
            i <= nodes@.len(),
            nodes@.len() == before.len(),
            before.len() <= i32::MAX,
            cleaned@.len() == before.len(),
            forall|j: int|
                0 <= j < before.len() ==> #[trigger] cleaned@[j]@ == spec_clean_type_name(
                    before[j].layer_type@,
                ),
            forall|j: int| i <= j < before.len() ==> #[trigger] nodes@[j] == before[j],
            forall|j: int|
                0 <= j < i ==> is_renamed_node(
                    #[trigger] before[j],
                    nodes@[j],
                    sequential_name(before, prefix@, j),
                ),
        decreases nodes.len() - i,
    {
        let own = &cleaned[i];
        let mut count: usize = 0;
        let mut j: usize = 0;
        while j <= i
            invariant
                j <= i + 1,
                i < before.len(),
                before.len() <= i32::MAX,
                cleaned@.len() == before.len(),
                forall|m: int|
                    0 <= m < before.len() ==> #[trigger] cleaned@[m]@ == spec_clean_type_name(
                        before[m].layer_type@,
                    ),
                own@ == cleaned@[i as int]@,
                count == type_count(before, j as int, own@),
                count <= j,
            decreases i + 1 - j,
        {
            if cleaned[j] == *own {
                count = count + 1;
            }
            j = j + 1;
        }
        let own_name = if own.as_str().unicode_len() > 0 && !(*own == String::from_str("LayerNode")) {
            own.clone().concat(decimal_string(count as u64).as_str())
        } else {
            decimal_string(i as u64)
        };
        let name = joined_name_exec(prefix, own_name);
        proof {
            assert(nodes@[i as int] == before[i as int]);
            assert(name@ == sequential_name(before, prefix@, i as int));
        }
        let updated = renamed_node(&nodes[i], name.as_str());
        nodes.set(i, updated);
        i = i + 1;
    }
}

// --- the summary table --------------------------------------------------------------

/// `n` copies of `c`.
pub open spec fn repeat_char(c: char, n: nat) -> Seq<char> {
    Seq::new(n, |i: int| c)
}

/// `s` left-aligned in a field of `width` characters: padded with spaces
/// when shorter, unchanged otherwise.
pub open spec fn pad_right(s: Seq<char>, width: nat) -> Seq<char> {
    if s.len() < width {
        s + repeat_char(' ', (width - s.len()) as nat)
    } else {
        s
    }
}

/// A rule of 80 `=` and a newline.
pub open spec fn rule_line() -> Seq<char> {
    repeat_char('=', 80).push('\n')
}

/// One table row: three columns 32, 28 and 16 characters wide.
pub open spec fn table_row(a: Seq<char>, b: Seq<char>, c: Seq<char>) -> Seq<char> {
    pad_right(a, 32) + seq![' '] + pad_right(b, 28) + seq![' '] + pad_right(c, 16) + seq!['\n']
}

/// The row of one node at nesting depth `indent`: indented `name: Type`
/// (or just the type when unnamed), its shape (`-` when empty), and `-`.
pub open spec fn node_row(node: LayerNode, indent: nat) -> Seq<char> {
    let indent_str = repeat_char(' ', 2 * indent);
    let cleaned = spec_clean_type_name(node.layer_type@);
    let name_type = if node.name@.len() == 0 {
        indent_str + cleaned
    } else {
        indent_str + node.name@ + seq![':', ' '] + cleaned
    };
    let shape = if node.shape_info@.len() == 0 {
        seq!['-']
    } else {
        node.shape_info@
    };
    table_row(name_type, shape, seq!['-'])
}

/// The rows of a forest, depth first: each node, then its children one
/// level deeper.
pub open spec fn forest_rows(nodes: Seq<LayerNode>, indent: nat) -> Seq<char>
    decreases nodes,
{
    if nodes.len() == 0 {
        Seq::empty()
    } else {
        forest_rows(nodes.subrange(0, nodes.len() - 1), indent) + node_row(
            nodes[nodes.len() - 1],
            indent,
        ) + forest_rows(nodes[nodes.len() - 1].children@, indent + 1)
    }
}

/// The nesting depth of a forest: zero when empty, otherwise one more than
/// its deepest child forest.
pub open spec fn forest_depth(nodes: Seq<LayerNode>) -> nat
    decreases nodes,
{
    if nodes.len() == 0 {
        0
    } else {
        let rest = forest_depth(nodes.subrange(0, nodes.len() - 1));
        let last = 1 + forest_depth(nodes[nodes.len() - 1].children@);
        if rest >= last {
            rest
        } else {
            last
        }
    }
}

/// The printed architecture table of a layer forest.
pub open spec fn layer_summary(nodes: Seq<LayerNode>) -> Seq<char> {
    rule_line() + table_row("Layer (Name: Type)"@, "Shape / Spec"@, "Details"@) + rule_line()
        + forest_rows(nodes, 0) + rule_line()
}

proof fn lemma_forest_depth_bounds(nodes: Seq<LayerNode>, i: int)
    requires
        0 <= i < nodes.len(),
    ensures
        1 + forest_depth(nodes[i].children@) <= forest_depth(nodes),
    decreases nodes.len(),
{
    if i < nodes.len() - 1 {
        let prefix = nodes.subrange(0, nodes.len() - 1);
        lemma_forest_depth_bounds(prefix, i);
        assert(prefix[i] == nodes[i]);
    }
}

fn push_repeated(out: &mut String, unit: &str, n: usize)
    requires
        unit@.len() == 1,
    ensures
        final(out)@ == old(out)@ + repeat_char(unit@[0], n as nat),
{
    let ghost before = out@;
    let mut i: usize = 0;
    while i < n
        invariant
            i <= n,
            unit@.len() == 1,
            out@ == before + repeat_char(unit@[0], i as nat),
        decreases n - i,
    {
        out.append(unit);
        i = i + 1;
        proof {
            assert(before + repeat_char(unit@[0], i as nat) =~= before + repeat_char(
                unit@[0],
                (i - 1) as nat,
            ) + unit@);
        }
    }
}

fn push_padded(out: &mut String, s: &str, width: usize)
    ensures
        final(out)@ == old(out)@ + pad_right(s@, width as nat),
{
    let ghost before = out@;
    out.append(s);
    let len = s.unicode_len();
    if len < width {
        proof {
            reveal_strlit(" ");
        }
        push_repeated(out, " ", width - len);
    }
    proof {
        assert(out@ =~= before + pad_right(s@, width as nat));
    }
}

fn push_row(out: &mut String, a: &str, b: &str, c: &str)
    ensures
        final(out)@ == old(out)@ + table_row(a@, b@, c@),
{
    let ghost before = out@;
    proof {
        reveal_strlit(" ");
        reveal_strlit("\n");
    }
    push_padded(out, a, 32);
    out.append(" ");
    push_padded(out, b, 28);
    out.append(" ");
    push_padded(out, c, 16);
    out.append("\n");
    proof {
        assert(out@ =~= before + table_row(a@, b@, c@));
    }
}

fn push_rule(out: &mut String)
    ensures
        final(out)@ == old(out)@ + rule_line(),
{
    let ghost before = out@;
    proof {
        reveal_strlit("=");
        reveal_strlit("\n");
    }
    push_repeated(out, "=", 80);
    out.append("\n");
    proof {
        assert(out@ =~= before + rule_line());
    }
}

fn push_node_rows(node: &LayerNode, indent: usize, out: &mut String)
    requires
        indent + 1 + forest_depth(node.children@) < usize::MAX / 2,
    ensures
        final(out)@ == old(out)@ + node_row(*node, indent as nat) + forest_rows(
            node.children@,
            indent as nat + 1,
        ),
    decreases node, 0nat,
{
    let ghost before = out@;
    let mut name_type = String::new();
    proof {
        reveal_strlit(" ");
        reveal_strlit(": ");
        reveal_strlit("-");
    }
    push_repeated(&mut name_type, " ", 2 * indent);
    if !node.name.as_str().is_empty() {
        name_type.append(node.name.as_str());
        name_type.append(": ");
    }
    let cleaned = clean_type_name(node.layer_type.as_str());
    name_type.append(cleaned.as_str());
    let shape: &str = if node.shape_info.as_str().is_empty() {
        "-"
    } else {
        node.shape_info.as_str()
    };
    push_row(out, name_type.as_str(), shape, "-");
    proof {
        assert(out@ =~= before + node_row(*node, indent as nat));
    }
    push_forest_rows(node.children.as_slice(), indent + 1, out);
}

fn push_forest_rows(nodes: &[LayerNode], indent: usize, out: &mut String)
    requires
        indent + forest_depth(nodes@) < usize::MAX / 2,
    ensures
        final(out)@ == old(out)@ + forest_rows(nodes@, indent as nat),
    decreases nodes@, 1nat,
{
    let ghost before = out@;
    let mut i: usize = 0;
    proof {
        assert(nodes@.subrange(0, 0) =~= Seq::<LayerNode>::empty());
    }
    while i < nodes.len()
        invariant
            i <= nodes@.len(),
            indent + forest_depth(nodes@) < usize::MAX / 2,
            out@ == before + forest_rows(nodes@.subrange(0, i as int), indent as nat),
        decreases nodes.len() - i,
    {
        proof {
            assert(nodes@.subrange(0, i + 1).subrange(0, i as int) =~= nodes@.subrange(0, i as int));
            assert(decreases_to!(nodes@ => nodes@[i as int]));
            lemma_forest_depth_bounds(nodes@, i as int);
        }
        push_node_rows(&nodes[i], indent, out);
        i = i + 1;
        proof {
            let prefix = nodes@.subrange(0, i as int);
            assert(prefix[prefix.len() - 1] == nodes@[i - 1]);
            assert(out@ =~= before + forest_rows(prefix, indent as nat));
        }
    }
    proof {
        assert(nodes@.subrange(0, i as int) =~= nodes@);
    }
}

/// Formats a layer forest as a printable table: a header between rules of
/// `=`, one row per node (children indented two spaces per level), and a
/// closing rule.
pub fn format_layer_summary(nodes: &[LayerNode]) -> (r: String)
    requires
        forest_depth(nodes@) < usize::MAX / 2,
    ensures
        r@ == layer_summary(nodes@),
{
    let mut out = String::new();
    push_rule(&mut out);
    proof {
        reveal_strlit("Layer (Name: Type)");
        reveal_strlit("Shape / Spec");
        reveal_strlit("Details");
    }
    push_row(&mut out, "Layer (Name: Type)", "Shape / Spec", "Details");
    push_rule(&mut out);
    push_forest_rows(nodes, 0, &mut out);
    push_rule(&mut out);
    proof {
        assert(out@ =~= layer_summary(nodes@));
    }
    out
}

/// Model-wide totals: parameters, multiply-accumulates, floating-point
/// operations.
#[derive(Debug, Clone, Copy, PartialEq, Eq, Structural, Default)]
pub struct ModelStats {
    /// Total parameter count.
    pub params: u64,
    /// Total multiply-accumulate operations.
    pub macs: u64,
    /// Total floating-point operations.
    pub flops: u64,
}

/// The totals footer: one line of parameter, MAC and FLOP counts, then a
/// rule.
pub open spec fn stats_footer(stats: ModelStats) -> Seq<char> {
    "Total params: "@ + decimal(stats.params as nat) + "    MACs: "@ + decimal(stats.macs as nat)
        + "    FLOPs: "@ + decimal(stats.flops as nat) + seq!['\n'] + rule_line()
}

/// [`format_layer_summary`] followed by a totals footer.
pub fn format_layer_summary_with_stats(nodes: &[LayerNode], stats: ModelStats) -> (r: String)
    requires
        forest_depth(nodes@) < usize::MAX / 2,
    ensures
        r@ == layer_summary(nodes@) + stats_footer(stats),
{
    let mut out = format_layer_summary(nodes);
    let ghost table = out@;
    proof {
        reveal_strlit("Total params: ");
        reveal_strlit("    MACs: ");
        reveal_strlit("    FLOPs: ");
        reveal_strlit("\n");
    }
    out.append("Total params: ");
    out.append(decimal_string(stats.params).as_str());
    out.append("    MACs: ");
    out.append(decimal_string(stats.macs).as_str());
    out.append("    FLOPs: ");
    out.append(decimal_string(stats.flops).as_str());
    out.append("\n");
    push_rule(&mut out);
    proof {
        assert(out@ =~= table + stats_footer(stats));
    }
    out
}

// --- module traits ------------------------------------------------------------------

/// A network layer or module: takes an input and returns an output or an
/// error.
pub trait Module<Input> {
    /// The output produced by the forward pass.
    type Output;

    /// The error the forward pass can return.
    type Error;

    /// Whether `result` is an outcome this module's forward pass can give
    /// for `input`.
    spec fn spec_forward(&self, input: Input, result: Result<Self::Output, Self::Error>) -> bool;

    /// Runs the forward pass on `input`.
    fn forward(&self, input: Input) -> (r: Result<Self::Output, Self::Error>)
        ensures
            self.spec_forward(input, r),
    ;
}

/// Two modules composed: the second runs on what the first produced.
#[derive(Debug, Clone)]
pub struct Sequential<L1, L2>(pub L1, pub L2);

impl<I, L1, L2> Module<I> for Sequential<L1, L2> where
    L1: Module<I>,
    L2: Module<L1::Output, Error = L1::Error>,
 {
    type Output = L2::Output;

    type Error = L1::Error;

    /// The first module's output, fed to the second; or the first module's
    /// error, which stops the chain.
    open spec fn spec_forward(&self, input: I, result: Result<L2::Output, L1::Error>) -> bool {
        ||| exists|mid: L1::Output|
            self.0.spec_forward(input, Ok(mid)) && #[trigger] self.1.spec_forward(mid, result)
        ||| exists|e: L1::Error|
            #[trigger] self.0.spec_forward(input, Err(e)) && result == Err::<L2::Output, L1::Error>(e)
    }

    fn forward(&self, input: I) -> (r: Result<L2::Output, L1::Error>) {
        let ghost first_input = input;
        match self.0.forward(input) {
            Ok(out1) => {
                let ghost mid = out1;
                let r = self.1.forward(out1);
                proof {
                    assert(self.0.spec_forward(first_input, Ok(mid)) && self.1.spec_forward(mid, r));
                }
                r
            },
            Err(e) => {
                proof {
                    assert(self.0.spec_forward(first_input, Err(e)));
                }
                Err(e)
            },
        }
    }
}

/// Switching a module, and every submodule, between training and
/// evaluation behavior.
pub trait TrainMode {
    /// Whether `after` is this module switched to the mode `training`.
    /// Layers with no training-dependent behavior stay as they are.
    spec fn spec_switched(&self, after: &Self, training: bool) -> bool;

    /// Sets training mode on this module and its submodules.
    fn set_training(&mut self, training: bool)
        ensures
            old(self).spec_switched(&*final(self), training),
    ;

    /// Switches to training mode.
    fn train(&mut self)
        ensures
            old(self).spec_switched(&*final(self), true),
    {
        self.set_training(true);
    }

    /// Switches to evaluation mode.
    fn eval(&mut self)
        ensures
            old(self).spec_switched(&*final(self), false),
    {
        self.set_training(false);
    }
}

impl<L1: TrainMode, L2: TrainMode> TrainMode for Sequential<L1, L2> {
    /// Both halves are switched.
    open spec fn spec_switched(&self, after: &Self, training: bool) -> bool {
        self.0.spec_switched(&after.0, training) && self.1.spec_switched(&after.1, training)
    }

    fn set_training(&mut self, training: bool) {
        self.0.set_training(training);
        self.1.set_training(training);
    }
}

impl<T: TrainMode> TrainMode for Option<T> {
    /// A present module is switched; an absent one stays absent.
    open spec fn spec_switched(&self, after: &Self, training: bool) -> bool {
        match (*self, *after) {
            (Some(before), Some(now)) => before.spec_switched(&now, training),
            (None, None) => true,
            _ => false,
        }
    }

    fn set_training(&mut self, training: bool) {
        match self {
            Some(value) => value.set_training(training),
            None => {},
        }
    }
}

/// A description as plain text, when there is one.
pub open spec fn text_view(text: Option<String>) -> Option<Seq<char>> {
    match text {
        Some(s) => Some(s@),
        None => None,
    }
}

/// The field contract used by module traversal and diagnostics.
pub trait ShapeInfo {
    /// The compact shape description this field reports, if any.
    spec fn spec_shape_info(&self) -> Option<Seq<char>>;

    /// A compact shape description, when the field owns tensor-shaped state.
    fn shape_info(&self) -> (r: Option<String>)
        ensures
            text_view(r) == self.spec_shape_info(),
    ;
}

impl<T: ShapeInfo> ShapeInfo for Option<T> {
    /// The description of a present field; none for an absent one.
    open spec fn spec_shape_info(&self) -> Option<Seq<char>> {
        match *self {
            Some(value) => value.spec_shape_info(),
            None => None,
        }
    }

    fn shape_info(&self) -> (r: Option<String>) {
        match self {
            Some(value) => value.shape_info(),
            None => None,
        }
    }
}

/// Whether `nodes` is `parts` named sequentially under `prefix`, as
/// [`assign_sequential_names`] names them.
pub open spec fn sequentially_named(parts: Seq<LayerNode>, nodes: Seq<LayerNode>, prefix: Seq<char>) -> bool {
    &&& nodes.len() == parts.len()
    &&& forall|i: int|
        0 <= i < parts.len() ==> is_renamed_node(
            #[trigger] parts[i],
            nodes[i],
            sequential_name(parts, prefix, i),
        )
}

/// Whether `nodes` is the single node of a parameterless layer: named
/// `prefix`, typed `type_label`, describing `shape`, with no children.
pub open spec fn is_leaf_layer(nodes: Seq<LayerNode>, prefix: Seq<char>, type_label: Seq<char>, shape: Seq<char>) -> bool {
    &&& nodes.len() == 1
    &&& nodes[0].name@ == prefix
    &&& nodes[0].layer_type@ == type_label
    &&& nodes[0].shape_info@ == shape
    &&& nodes[0].children@.len() == 0
}

/// Reports a module's layer hierarchy for visualization.
pub trait NamedLayers {
    /// Whether `nodes` is the layer hierarchy this module reports under
    /// `prefix`.
    spec fn spec_layers(&self, prefix: Seq<char>, nodes: Seq<LayerNode>) -> bool;

    /// The layer hierarchy rooted at this module, named under `prefix`.
    fn layer_structure(&self, prefix: &str) -> (r: Vec<LayerNode>)
        ensures
            self.spec_layers(prefix@, r@),
    ;
}

impl<L1: NamedLayers, L2: NamedLayers> NamedLayers for Sequential<L1, L2> {
    /// The first half's layers then the second's, each reported under an
    /// empty prefix, then named sequentially under `prefix` (left as they
    /// are when there are more than `i32::MAX`).
    open spec fn spec_layers(&self, prefix: Seq<char>, nodes: Seq<LayerNode>) -> bool {
        exists|first: Seq<LayerNode>, second: Seq<LayerNode>|
            #![trigger self.0.spec_layers(Seq::empty(), first), self.1.spec_layers(Seq::empty(), second)]
            {
                &&& self.0.spec_layers(Seq::empty(), first)
                &&& self.1.spec_layers(Seq::empty(), second)
                &&& if first.len() + second.len() <= i32::MAX {
                    sequentially_named(first + second, nodes, prefix)
                } else {
                    nodes == first + second
                }
            }
    }

    fn layer_structure(&self, prefix: &str) -> (r: Vec<LayerNode>) {
        let mut nodes = self.0.layer_structure("");
        let mut second = self.1.layer_structure("");
        let ghost (a, b) = (nodes@, second@);
        proof {
            assert(""@ =~= Seq::<char>::empty()) by {
                reveal_strlit("");
            }
        }
        nodes.append(&mut second);
        if nodes.len() <= 2147483647 {
            assign_sequential_names(&mut nodes, prefix);
        }
        proof {
            assert(self.0.spec_layers(Seq::empty(), a) && self.1.spec_layers(Seq::empty(), b));
        }
        nodes
    }
}

impl<T: NamedLayers> NamedLayers for Option<T> {
    /// A present module's hierarchy; nothing for an absent one.
    open spec fn spec_layers(&self, prefix: Seq<char>, nodes: Seq<LayerNode>) -> bool {
        match *self {
            Some(layer) => layer.spec_layers(prefix, nodes),
            None => nodes.len() == 0,
        }
    }

    fn layer_structure(&self, prefix: &str) -> (r: Vec<LayerNode>) {
        match self {
            Some(layer) => layer.layer_structure(prefix),
            None => Vec::new(),
        }
    }
}

/// The single node a parameterless layer reports: named `prefix`, typed
/// `type_label`, with no shape and no children.
pub fn leaf_layer(prefix: &str, type_label: &str) -> (r: Vec<LayerNode>)
    ensures
        is_leaf_layer(r@, prefix@, type_label@, Seq::empty()),
{
    let mut out: Vec<LayerNode> = Vec::new();
    out.push(
        LayerNode {
            name: String::from_str(prefix),
            layer_type: String::from_str(type_label),
            shape_info: String::new(),
            children: Vec::new(),
        },
    );
    out
}

} // verus!
