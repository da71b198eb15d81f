//! Entity-relationship diagrams of table schemas: as a Graphviz graph, as
//! ASCII boxes, as an HTML page and as a Mermaid diagram.
use vstd::prelude::*;
use crate::database::{ColumnInfo, DatabaseError, ForeignKey, TableSchema};
use crate::text::{decimal, owned, str_eq, views};

verus! {

/// ER diagram generator.
#[derive(Debug, Clone, Copy)]
pub struct ERDiagramGenerator;

/// A column is part of the schema's primary key.
pub open spec fn in_primary_key(s: TableSchema, name: Seq<char>) -> bool {
    views(s.primary_key@).contains(name)
}

/// A column is marked as part of the primary key exactly when its name is
/// one of the key's columns, wherever in the key it stands.
pub proof fn law_primary_key_membership(s: TableSchema, name: Seq<char>)
    ensures
        in_primary_key(s, name) <==> exists|i: int| 0 <= i < s.primary_key@.len() && #[trigger] s.primary_key@[i]@ == name,
        forall|i: int| 0 <= i < s.primary_key@.len() ==> in_primary_key(s, #[trigger] s.primary_key@[i]@),
{
    assert forall|i: int| 0 <= i < s.primary_key@.len() implies in_primary_key(s, #[trigger] s.primary_key@[i]@) by {
        assert(views(s.primary_key@)[i] == s.primary_key@[i]@);
    }
    if in_primary_key(s, name) {
        let j = choose|j: int| 0 <= j < views(s.primary_key@).len() && views(s.primary_key@)[j] == name;
        assert(s.primary_key@[j]@ == name);
    }
    if exists|i: int| 0 <= i < s.primary_key@.len() && #[trigger] s.primary_key@[i]@ == name {
        let i = choose|i: int| 0 <= i < s.primary_key@.len() && #[trigger] s.primary_key@[i]@ == name;
        assert(views(s.primary_key@)[i] == name);
    }
}

fn primary_key_has(s: &TableSchema, name: &str) -> (b: bool)
    ensures b == in_primary_key(*s, name@),
{
    let mut i: usize = 0;
    while i < s.primary_key.len()
        invariant
            i <= s.primary_key@.len(),
            forall|j: int| 0 <= j < i ==> s.primary_key@[j]@ != name@,
        decreases s.primary_key.len() - i,
    {
        if str_eq(s.primary_key[i].as_str(), name) {
            assert(views(s.primary_key@)[i as int] == name@);
            return true;
        }
        i = i + 1;
    }
    proof {
        if views(s.primary_key@).contains(name@) {
            let j = choose|j: int| 0 <= j < views(s.primary_key@).len() && views(s.primary_key@)[j] == name@;
            assert(s.primary_key@[j]@ == name@);
        }
    }
    false
}

/// The horizontal border of an ASCII table box.
pub const ASCII_BORDER: &'static str = "+----------------------+\n";

/// A column line of an ASCII table box, primary-key columns marked with a key.
pub open spec fn ascii_column(s: TableSchema, c: ColumnInfo) -> Seq<char> {
    "| "@ + (if in_primary_key(s, c.name@) { "🔑 "@ } else { "   "@ }) + c.name@ + ": "@ + c.data_type@ + " |\n"@
}

pub open spec fn ascii_columns(s: TableSchema, cs: Seq<ColumnInfo>) -> Seq<char>
    decreases cs.len(),
{
    if cs.len() == 0 { Seq::empty() } else { ascii_columns(s, cs.drop_last()) + ascii_column(s, cs.last()) }
}

/// A relationship line under an ASCII table box.
pub open spec fn ascii_fk(fk: ForeignKey) -> Seq<char> {
    "    "@ + fk.column@ + " ──────→ "@ + fk.foreign_table@ + "."@ + fk.foreign_column@ + "\n"@
}

pub open spec fn ascii_fks(fks: Seq<ForeignKey>) -> Seq<char>
    decreases fks.len(),
{
    if fks.len() == 0 { Seq::empty() } else { ascii_fks(fks.drop_last()) + ascii_fk(fks.last()) }
}

/// The ASCII box of a table followed by its relationships.
pub open spec fn ascii_table(s: TableSchema) -> Seq<char> {
    ASCII_BORDER@ + "|        "@ + s.name@ + "        |\n"@ + ASCII_BORDER@
        + ascii_columns(s, s.columns@) + ASCII_BORDER@ + "\n"@
        + ascii_fks(s.foreign_keys@) + (if s.foreign_keys@.len() > 0 { "\n"@ } else { Seq::empty() })
}

pub open spec fn ascii_diagram(ss: Seq<TableSchema>) -> Seq<char>
    decreases ss.len(),
{
    if ss.len() == 0 { Seq::empty() } else { ascii_diagram(ss.drop_last()) + ascii_table(ss.last()) }
}

/// The beginning of the HTML page.
pub const HTML_HEAD: &'static str = "<!DOCTYPE html>\n<html>\n<head>\n    <title>ER Diagram</title>\n    <style>\n        body { font-family: Arial, sans-serif; margin: 20px; background: #1e1e1e; color: #fff; }\n        .table { \n            border: 2px solid #444; \n            border-radius: 5px; \n            margin: 10px; \n            display: inline-block;\n            vertical-align: top;\n            background: #2d2d2d;\n        }\n        .table-name { \n            background: #007acc; \n            color: white; \n            padding: 8px; \n            font-weight: bold;\n            border-radius: 3px 3px 0 0;\n        }\n        .columns { padding: 8px; }\n        .column { padding: 4px; border-bottom: 1px solid #444; }\n        .pk { color: #ffd700; }\n        .fk { color: #98fb98; }\n        .relationship { margin: 10px; color: #888; }\n    </style>\n</head>\n<body>\n    <h1>ER Diagram</h1>\n    <div class=\"diagram\">\n";

/// The end of the HTML page.
pub const HTML_TAIL: &'static str = "\n    </div>\n</body>\n</html>";

/// The opening of a table's block in the HTML page, up to its name.
pub const HTML_TABLE_OPEN: &'static str = "\n        <div class=\"table\">\n            <div class=\"table-name\">";

/// What follows the table's name, opening its columns.
pub const HTML_TABLE_COLUMNS: &'static str = "</div>\n            <div class=\"columns\">\n";

/// The closing of a table's block.
pub const HTML_TABLE_CLOSE: &'static str = "            </div>\n        </div>\n";

/// A column line of the HTML page (the line ends in the two characters `\n`,
/// as the page has always written them), primary keys with class "pk".
pub open spec fn html_column(s: TableSchema, c: ColumnInfo) -> Seq<char> {
    "                <div class=\"column "@ + (if in_primary_key(s, c.name@) { "pk"@ } else { Seq::empty() })
        + "\">"@ + c.name@ + ": "@ + c.data_type@ + "</div>\\n"@
}

pub open spec fn html_columns(s: TableSchema, cs: Seq<ColumnInfo>) -> Seq<char>
    decreases cs.len(),
{
    if cs.len() == 0 { Seq::empty() } else { html_columns(s, cs.drop_last()) + html_column(s, cs.last()) }
}

pub open spec fn html_table(s: TableSchema) -> Seq<char> {
    HTML_TABLE_OPEN@ + s.name@ + HTML_TABLE_COLUMNS@ + html_columns(s, s.columns@) + HTML_TABLE_CLOSE@
}

pub open spec fn html_tables(ss: Seq<TableSchema>) -> Seq<char>
    decreases ss.len(),
{
    if ss.len() == 0 { Seq::empty() } else { html_tables(ss.drop_last()) + html_table(ss.last()) }
}

/// A column line of a Mermaid entity, primary keys marked "PK".
pub open spec fn mermaid_column(s: TableSchema, c: ColumnInfo) -> Seq<char> {
    "        "@ + c.data_type@ + " "@ + c.name@ + (if in_primary_key(s, c.name@) { " PK"@ } else { Seq::empty() }) + "\n"@
}

pub open spec fn mermaid_columns(s: TableSchema, cs: Seq<ColumnInfo>) -> Seq<char>
    decreases cs.len(),
{
    if cs.len() == 0 { Seq::empty() } else { mermaid_columns(s, cs.drop_last()) + mermaid_column(s, cs.last()) }
}

pub open spec fn mermaid_entity(s: TableSchema) -> Seq<char> {
    "    "@ + s.name@ + " {\n"@ + mermaid_columns(s, s.columns@) + "    }\n"@
}

pub open spec fn mermaid_entities(ss: Seq<TableSchema>) -> Seq<char>
    decreases ss.len(),
{
    if ss.len() == 0 { Seq::empty() } else { mermaid_entities(ss.drop_last()) + mermaid_entity(ss.last()) }
}

/// A Mermaid relationship: the referenced table has many rows of the table.
pub open spec fn mermaid_relation(s: TableSchema, fk: ForeignKey) -> Seq<char> {
    "    "@ + fk.foreign_table@ + " ||--o{ "@ + s.name@ + " : \""@ + fk.column@ + "\"\n"@
}

pub open spec fn mermaid_relations_of(s: TableSchema, fks: Seq<ForeignKey>) -> Seq<char>
    decreases fks.len(),
{
    if fks.len() == 0 { Seq::empty() } else { mermaid_relations_of(s, fks.drop_last()) + mermaid_relation(s, fks.last()) }
}

pub open spec fn mermaid_relations(ss: Seq<TableSchema>) -> Seq<char>
    decreases ss.len(),
{
    if ss.len() == 0 { Seq::empty() } else { mermaid_relations(ss.drop_last()) + mermaid_relations_of(ss.last(), ss.last().foreign_keys@) }
}

/// The label of a table's node: its name, then its columns "name: type"
/// joined by ", " in parentheses.
pub open spec fn node_label(s: TableSchema) -> Seq<char> {
    s.name@ + "\n("@ + crate::database::join(column_labels(s.columns@), ", "@) + ")"@
}

pub open spec fn column_labels(cs: Seq<ColumnInfo>) -> Seq<Seq<char>>
    decreases cs.len(),
{
    if cs.len() == 0 { Seq::empty() } else { column_labels(cs.drop_last()).push(cs.last().name@ + ": "@ + cs.last().data_type@) }
}

pub open spec fn node_labels(ss: Seq<TableSchema>) -> Seq<Seq<char>>
    decreases ss.len(),
{
    if ss.len() == 0 { Seq::empty() } else { node_labels(ss.drop_last()).push(node_label(ss.last())) }
}

/// The last table of the given name, which is the node that name stands for.
pub open spec fn node_of(ss: Seq<TableSchema>, name: Seq<char>) -> Option<int>
    decreases ss.len(),
{
    if ss.len() == 0 {
        None
    } else if ss.last().name@ == name {
        Some(ss.len() - 1)
    } else {
        node_of(ss.drop_last(), name)
    }
}

/// The edges for the foreign keys of table `s`: from its node to the node of
/// the referenced table, when both tables are among `all`.
pub open spec fn fk_edges(all: Seq<TableSchema>, s: TableSchema, fks: Seq<ForeignKey>) -> Seq<(usize, usize)>
    decreases fks.len(),
{
    if fks.len() == 0 {
        Seq::empty()
    } else {
        let rest = fk_edges(all, s, fks.drop_last());
        match (node_of(all, s.name@), node_of(all, fks.last().foreign_table@)) {
            (Some(a), Some(b)) => rest.push((a as usize, b as usize)),
            _ => rest,
        }
    }
}

/// The edges of the diagram of `all`, for its first `k` tables' foreign keys.
pub open spec fn diagram_edges(all: Seq<TableSchema>, k: int) -> Seq<(usize, usize)>
    decreases k,
{
    if k <= 0 { Seq::empty() } else { diagram_edges(all, k - 1) + fk_edges(all, all[k - 1], all[k - 1].foreign_keys@) }
}

/// A label escaped as petgraph's `Dot` writes it: `"` and `\` get a
/// backslash before them and a line break becomes `\l`.
pub open spec fn dot_escape(t: Seq<char>) -> Seq<char>
    decreases t.len(),
{
    if t.len() == 0 {
        Seq::empty()
    } else {
        let c = t.last();
        let tail: Seq<char> = if c == '"' || c == '\\' { seq!['\\', c] } else if c == '\n' { seq!['\\', 'l'] } else { seq![c] };
        dot_escape(t.drop_last()) + tail
    }
}

/// The node lines: `    i [ label = "<escaped label>" ]`, one per node in order.
pub open spec fn dot_nodes(labels: Seq<Seq<char>>) -> Seq<char>
    decreases labels.len(),
{
    if labels.len() == 0 {
        Seq::empty()
    } else {
        dot_nodes(labels.drop_last()) + "    "@ + decimal((labels.len() - 1) as nat) + " [ label = \""@
            + dot_escape(labels.last()) + "\" ]\n"@
    }
}

/// The edge lines: `    a -> b [ ]`, one per edge in order.
pub open spec fn dot_edges(edges: Seq<(usize, usize)>) -> Seq<char>
    decreases edges.len(),
{
    if edges.len() == 0 {
        Seq::empty()
    } else {
        dot_edges(edges.drop_last()) + "    "@ + decimal(edges.last().0 as nat) + " -> "@
            + decimal(edges.last().1 as nat) + " [ ]\n"@
    }
}

/// What petgraph's `Dot` without edge labels writes for a directed graph with
/// these node labels and these edges, in order: a `digraph {` line, the node
/// lines, the edge lines and a closing `}` line.
pub open spec fn dot_graph(labels: Seq<Seq<char>>, edges: Seq<(usize, usize)>) -> Seq<char> {
    "digraph {\n"@ + dot_nodes(labels) + dot_edges(edges) + "}\n"@
}

/// `petgraph::dot::Dot::with_config(&graph, &[Config::EdgeNoLabel])` printed,
/// for the graph with these nodes and edges added in order: the text that
/// `dot_graph` spells out (petgraph/src/dot.rs `graph_fmt` and `Escaper`).
#[verifier::external_body]
fn dot_of(labels: &Vec<String>, edges: &Vec<(usize, usize)>) -> (s: String)
    requires
        forall|i: int| 0 <= i < edges@.len() ==> (#[trigger] edges@[i]).0 < labels@.len() && edges@[i].1 < labels@.len(),
    ensures
        s@ == dot_graph(views(labels@), edges@),
{
    let mut graph = petgraph::graph::Graph::<String, String>::new();
    let nodes: Vec<petgraph::graph::NodeIndex> = labels.iter().map(|l| graph.add_node(l.clone())).collect();
    for (a, b) in edges {
        graph.add_edge(nodes[*a], nodes[*b], String::new());
    }
    format!("{}", petgraph::dot::Dot::with_config(&graph, &[petgraph::dot::Config::EdgeNoLabel]))
}

fn push_columns_ascii(out: &mut String, s: &TableSchema)
    ensures final(out)@ == old(out)@ + ascii_columns(*s, s.columns@),
{
    let ghost start = out@;
    let mut i: usize = 0;
    while i < s.columns.len()
        invariant
            i <= s.columns@.len(),
            out@ == start + ascii_columns(*s, s.columns@.subrange(0, i as int)),
        decreases s.columns.len() - i,
    {
        proof { assert(s.columns@.subrange(0, i + 1).drop_last() =~= s.columns@.subrange(0, i as int)); }
        let col = &s.columns[i];
        out.append("| ");
        if primary_key_has(s, col.name.as_str()) { out.append("🔑 "); } else { out.append("   "); }
        out.append(col.name.as_str());
        out.append(": ");
        out.append(col.data_type.as_str());
        out.append(" |\n");
        i = i + 1;
        assert(out@ =~= start + ascii_columns(*s, s.columns@.subrange(0, i as int)));
    }
    assert(s.columns@.subrange(0, s.columns@.len() as int) =~= s.columns@);
}

fn push_fks_ascii(out: &mut String, s: &TableSchema)
    ensures final(out)@ == old(out)@ + ascii_fks(s.foreign_keys@),
{
    let ghost start = out@;
    let mut i: usize = 0;
    while i < s.foreign_keys.len()
        invariant
            i <= s.foreign_keys@.len(),
            out@ == start + ascii_fks(s.foreign_keys@.subrange(0, i as int)),
        decreases s.foreign_keys.len() - i,
    {
        proof { assert(s.foreign_keys@.subrange(0, i + 1).drop_last() =~= s.foreign_keys@.subrange(0, i as int)); }
        let fk = &s.foreign_keys[i];
        out.append("    ");
        out.append(fk.column.as_str());
        out.append(" ──────→ ");
        out.append(fk.foreign_table.as_str());
        out.append(".");
        out.append(fk.foreign_column.as_str());
        out.append("\n");
        i = i + 1;
        assert(out@ =~= start + ascii_fks(s.foreign_keys@.subrange(0, i as int)));
    }
    assert(s.foreign_keys@.subrange(0, s.foreign_keys@.len() as int) =~= s.foreign_keys@);
}

fn push_columns_html(out: &mut String, s: &TableSchema)
    ensures final(out)@ == old(out)@ + html_columns(*s, s.columns@),
{
    let ghost start = out@;
    let mut i: usize = 0;
    proof { reveal_strlit(""); }
    while i < s.columns.len()
        invariant
            i <= s.columns@.len(),
            out@ == start + html_columns(*s, s.columns@.subrange(0, i as int)),
        decreases s.columns.len() - i,
    {
        proof { assert(s.columns@.subrange(0, i + 1).drop_last() =~= s.columns@.subrange(0, i as int)); }
        let col = &s.columns[i];
        out.append("                <div class=\"column ");
        if primary_key_has(s, col.name.as_str()) { out.append("pk"); }
        out.append("\">");
        out.append(col.name.as_str());
        out.append(": ");
        out.append(col.data_type.as_str());
        out.append("</div>\\n");
        i = i + 1;
        assert(out@ =~= start + html_columns(*s, s.columns@.subrange(0, i as int)));
    }
    assert(s.columns@.subrange(0, s.columns@.len() as int) =~= s.columns@);
}

fn push_columns_mermaid(out: &mut String, s: &TableSchema)
    ensures final(out)@ == old(out)@ + mermaid_columns(*s, s.columns@),
{
    let ghost start = out@;
    let mut i: usize = 0;
    proof { reveal_strlit(""); }
    while i < s.columns.len()
        invariant
            i <= s.columns@.len(),
            out@ == start + mermaid_columns(*s, s.columns@.subrange(0, i as int)),
        decreases s.columns.len() - i,
    {
        proof { assert(s.columns@.subrange(0, i + 1).drop_last() =~= s.columns@.subrange(0, i as int)); }
        let col = &s.columns[i];
        out.append("        ");
        out.append(col.data_type.as_str());
        out.append(" ");
        out.append(col.name.as_str());
        if primary_key_has(s, col.name.as_str()) { out.append(" PK"); }
        out.append("\n");
        i = i + 1;
        assert(out@ =~= start + mermaid_columns(*s, s.columns@.subrange(0, i as int)));
    }
    assert(s.columns@.subrange(0, s.columns@.len() as int) =~= s.columns@);
}

fn push_relations_mermaid(out: &mut String, s: &TableSchema)
    ensures final(out)@ == old(out)@ + mermaid_relations_of(*s, s.foreign_keys@),
{
    let ghost start = out@;
    let mut i: usize = 0;
    while i < s.foreign_keys.len()
        invariant
            i <= s.foreign_keys@.len(),
            out@ == start + mermaid_relations_of(*s, s.foreign_keys@.subrange(0, i as int)),
        decreases s.foreign_keys.len() - i,
    {
        proof { assert(s.foreign_keys@.subrange(0, i + 1).drop_last() =~= s.foreign_keys@.subrange(0, i as int)); }
        let fk = &s.foreign_keys[i];
        out.append("    ");
        out.append(fk.foreign_table.as_str());
        out.append(" ||--o{ ");
        out.append(s.name.as_str());
        out.append(" : \"");
        out.append(fk.column.as_str());
        out.append("\"\n");
        i = i + 1;
        assert(out@ =~= start + mermaid_relations_of(*s, s.foreign_keys@.subrange(0, i as int)));
    }
    assert(s.foreign_keys@.subrange(0, s.foreign_keys@.len() as int) =~= s.foreign_keys@);
}

fn node_of_exec(ss: &[TableSchema], name: &str) -> (r: Option<usize>)
    ensures
        match r {
            Some(i) => node_of(ss@, name@) == Some(i as int),
            None => node_of(ss@, name@) is None,
        },
{
    let mut i: usize = ss.len();
    assert(ss@.subrange(0, ss@.len() as int) =~= ss@);
    while i > 0
        invariant
            i <= ss@.len(),
            node_of(ss@, name@) == node_of(ss@.subrange(0, i as int), name@),
        decreases i,
    {
        proof { assert(ss@.subrange(0, i as int).drop_last() =~= ss@.subrange(0, i - 1)); }
        if str_eq(ss[i - 1].name.as_str(), name) {
            return Some(i - 1);
        }
        i = i - 1;
    }
    None
}

proof fn lemma_node_of_bound(ss: Seq<TableSchema>, name: Seq<char>)
    ensures node_of(ss, name) matches Some(i) ==> 0 <= i < ss.len(),
    decreases ss.len(),
{
    if ss.len() > 0 {
        lemma_node_of_bound(ss.drop_last(), name);
    }
}

/// The nodes and edges of the diagram: one node per table, labelled with
/// `node_label`, and one edge per foreign key between tables of the diagram.
pub fn er_graph(schemas: &[TableSchema]) -> (r: (Vec<String>, Vec<(usize, usize)>))
    ensures
        views(r.0@) == node_labels(schemas@),
        r.1@ == diagram_edges(schemas@, schemas@.len() as int),
{
    let mut labels: Vec<String> = Vec::new();
    let mut i: usize = 0;
    while i < schemas.len()
        invariant
            i <= schemas@.len(),
            views(labels@) == node_labels(schemas@.subrange(0, i as int)),
        decreases schemas.len() - i,
    {
        proof { assert(schemas@.subrange(0, i + 1).drop_last() =~= schemas@.subrange(0, i as int)); }
        let s = &schemas[i];
        let mut cols: Vec<String> = Vec::new();
        let mut j: usize = 0;
        while j < s.columns.len()
            invariant
                j <= s.columns@.len(),
                views(cols@) == column_labels(s.columns@.subrange(0, j as int)),
            decreases s.columns.len() - j,
        {
            proof { assert(s.columns@.subrange(0, j + 1).drop_last() =~= s.columns@.subrange(0, j as int)); }
            let mut l = s.columns[j].name.clone();
            l.append(": ");
            l.append(s.columns[j].data_type.as_str());
            let ghost prev = views(cols@);
            cols.push(l);
            assert(views(cols@) =~= prev.push(l@));
            j = j + 1;
        }
        assert(s.columns@.subrange(0, s.columns@.len() as int) =~= s.columns@);
        let mut label = s.name.clone();
        label.append("\n(");
        let joined = crate::database::join_strings(&cols, ", ");
        label.append(joined.as_str());
        label.append(")");
        let ghost prev = views(labels@);
        labels.push(label);
        assert(views(labels@) =~= prev.push(label@));
        i = i + 1;
    }
    assert(schemas@.subrange(0, schemas@.len() as int) =~= schemas@);
    let mut edges: Vec<(usize, usize)> = Vec::new();
    let mut k: usize = 0;
    while k < schemas.len()
        invariant
            k <= schemas@.len(),
            edges@ == diagram_edges(schemas@, k as int),
        decreases schemas.len() - k,
    {
        let s = &schemas[k];
        let from = node_of_exec(schemas, s.name.as_str());
        let ghost base = edges@;
        let mut f: usize = 0;
        while f < s.foreign_keys.len()
            invariant
                f <= s.foreign_keys@.len(),
                edges@ == base + fk_edges(schemas@, *s, s.foreign_keys@.subrange(0, f as int)),
                match from { Some(a) => node_of(schemas@, s.name@) == Some(a as int), None => node_of(schemas@, s.name@) is None },
            decreases s.foreign_keys.len() - f,
        {
            proof { assert(s.foreign_keys@.subrange(0, f + 1).drop_last() =~= s.foreign_keys@.subrange(0, f as int)); }
            let to = node_of_exec(schemas, s.foreign_keys[f].foreign_table.as_str());
            match (from, to) {
                (Some(a), Some(b)) => {
                    edges.push((a, b));
                    assert(edges@ =~= base + fk_edges(schemas@, *s, s.foreign_keys@.subrange(0, f + 1)));
                },
                _ => {
                    assert(edges@ =~= base + fk_edges(schemas@, *s, s.foreign_keys@.subrange(0, f + 1)));
                },
            }
            f = f + 1;
        }
        assert(s.foreign_keys@.subrange(0, s.foreign_keys@.len() as int) =~= s.foreign_keys@);
        k = k + 1;
    }
    (labels, edges)
}

proof fn lemma_edges_in_range(all: Seq<TableSchema>, k: int)
    requires 0 <= k <= all.len(), all.len() <= usize::MAX,
    ensures
        forall|i: int| 0 <= i < diagram_edges(all, k).len() ==>
            (#[trigger] diagram_edges(all, k)[i]).0 < all.len() && diagram_edges(all, k)[i].1 < all.len(),
    decreases k,
{
    if k > 0 {
        lemma_edges_in_range(all, k - 1);
        lemma_fk_edges_in_range(all, all[k - 1], all[k - 1].foreign_keys@);
        let a = diagram_edges(all, k - 1);
        let b = fk_edges(all, all[k - 1], all[k - 1].foreign_keys@);
        assert forall|i: int| 0 <= i < (a + b).len() implies
            (#[trigger] (a + b)[i]).0 < all.len() && (a + b)[i].1 < all.len() by {
            if i >= a.len() {
                assert((a + b)[i] == b[i - a.len()]);
            }
        }
    }
}

proof fn lemma_fk_edges_in_range(all: Seq<TableSchema>, s: TableSchema, fks: Seq<ForeignKey>)
    requires all.len() <= usize::MAX,
    ensures
        forall|i: int| 0 <= i < fk_edges(all, s, fks).len() ==>
            (#[trigger] fk_edges(all, s, fks)[i]).0 < all.len() && fk_edges(all, s, fks)[i].1 < all.len(),
    decreases fks.len(),
{
    if fks.len() > 0 {
        lemma_fk_edges_in_range(all, s, fks.drop_last());
        lemma_node_of_bound(all, s.name@);
        lemma_node_of_bound(all, fks.last().foreign_table@);
        let rest = fk_edges(all, s, fks.drop_last());
        match (node_of(all, s.name@), node_of(all, fks.last().foreign_table@)) {
            (Some(a), Some(b)) => {
                assert(fk_edges(all, s, fks) == rest.push((a as usize, b as usize)));
                assert forall|i: int| 0 <= i < rest.len() + 1 implies
                    (#[trigger] rest.push((a as usize, b as usize))[i]).0 < all.len()
                        && rest.push((a as usize, b as usize))[i].1 < all.len() by {
                    if i < rest.len() {
                        assert(rest.push((a as usize, b as usize))[i] == rest[i]);
                    }
                }
            },
            _ => {
                assert(fk_edges(all, s, fks) == rest);
            },
        }
    }
}

impl ERDiagramGenerator {
    /// A generator.
    pub fn new() -> (g: Self)
        ensures g == ERDiagramGenerator,
    {
        ERDiagramGenerator
    }

    /// The Graphviz (DOT) text of the diagram: a directed graph of `er_graph`.
    pub fn generate(&self, schemas: &[TableSchema]) -> (r: Result<String, DatabaseError>)
        ensures
            r matches Ok(s) && s@ == dot_graph(node_labels(schemas@), diagram_edges(schemas@, schemas@.len() as int)),
    {
        let (labels, edges) = er_graph(schemas);
        let n = schemas.len();
        proof {
            assert(schemas@.len() == n);
            lemma_edges_in_range(schemas@, schemas@.len() as int);
            assert(views(labels@).len() == labels@.len());
            assert(node_labels(schemas@).len() == schemas@.len()) by { lemma_node_labels_len(schemas@); }
        }
        Ok(dot_of(&labels, &edges))
    }

    /// The ASCII diagram: a box per table with its columns, then its
    /// relationships.
    pub fn generate_ascii(&self, schemas: &[TableSchema]) -> (r: Result<String, DatabaseError>)
        ensures r matches Ok(s) && s@ == ascii_diagram(schemas@),
    {
        let mut output = owned("");
        proof { reveal_strlit(""); }
        let mut i: usize = 0;
        while i < schemas.len()
            invariant
                i <= schemas@.len(),
                output@ == ascii_diagram(schemas@.subrange(0, i as int)),
            decreases schemas.len() - i,
        {
            proof { assert(schemas@.subrange(0, i + 1).drop_last() =~= schemas@.subrange(0, i as int)); }
            let s = &schemas[i];
            let ghost start = output@;
            output.append(ASCII_BORDER);
            output.append("|        ");
            output.append(s.name.as_str());
            output.append("        |\n");
            output.append(ASCII_BORDER);
            push_columns_ascii(&mut output, s);
            output.append(ASCII_BORDER);
            output.append("\n");
            push_fks_ascii(&mut output, s);
            if s.foreign_keys.len() > 0 {
                output.append("\n");
            }
            assert(output@ =~= start + ascii_table(*s));
            i = i + 1;
        }
        assert(schemas@.subrange(0, schemas@.len() as int) =~= schemas@);
        Ok(output)
    }

    /// The HTML page of the diagram: a block per table with its columns.
    pub fn generate_html(&self, schemas: &[TableSchema]) -> (r: Result<String, DatabaseError>)
        ensures r matches Ok(s) && s@ == HTML_HEAD@ + html_tables(schemas@) + HTML_TAIL@,
    {
        let mut html = owned(HTML_HEAD);
        let mut i: usize = 0;
        while i < schemas.len()
            invariant
                i <= schemas@.len(),
                html@ == HTML_HEAD@ + html_tables(schemas@.subrange(0, i as int)),
            decreases schemas.len() - i,
        {
            proof { assert(schemas@.subrange(0, i + 1).drop_last() =~= schemas@.subrange(0, i as int)); }
            let s = &schemas[i];
            let ghost start = html@;
            html.append(HTML_TABLE_OPEN);
            html.append(s.name.as_str());
            html.append(HTML_TABLE_COLUMNS);
            push_columns_html(&mut html, s);
            html.append(HTML_TABLE_CLOSE);
            assert(html@ =~= start + html_table(*s));
            i = i + 1;
        }
        assert(schemas@.subrange(0, schemas@.len() as int) =~= schemas@);
        html.append(HTML_TAIL);
        Ok(html)
    }

    /// The Mermaid diagram: the entities with their columns, then one
    /// relationship per foreign key.
    pub fn generate_mermaid(&self, schemas: &[TableSchema]) -> (r: Result<String, DatabaseError>)
        ensures r matches Ok(s) && s@ == "erDiagram\n"@ + mermaid_entities(schemas@) + mermaid_relations(schemas@),
    {
        let mut out = owned("erDiagram\n");
        let mut i: usize = 0;
        while i < schemas.len()
            invariant
                i <= schemas@.len(),
                out@ == "erDiagram\n"@ + mermaid_entities(schemas@.subrange(0, i as int)),
            decreases schemas.len() - i,
        {
            proof { assert(schemas@.subrange(0, i + 1).drop_last() =~= schemas@.subrange(0, i as int)); }
            let s = &schemas[i];
            let ghost start = out@;
            out.append("    ");
            out.append(s.name.as_str());
            out.append(" {\n");
            push_columns_mermaid(&mut out, s);
            out.append("    }\n");
            assert(out@ =~= start + mermaid_entity(*s));
            i = i + 1;
        }
        assert(schemas@.subrange(0, schemas@.len() as int) =~= schemas@);
        let ghost head = out@;
        let mut k: usize = 0;
        while k < schemas.len()
            invariant
                k <= schemas@.len(),
                out@ == head + mermaid_relations(schemas@.subrange(0, k as int)),
            decreases schemas.len() - k,
        {
            proof { assert(schemas@.subrange(0, k + 1).drop_last() =~= schemas@.subrange(0, k as int)); }
            let ghost start = out@;
            push_relations_mermaid(&mut out, &schemas[k]);
            assert(out@ =~= head + mermaid_relations(schemas@.subrange(0, k + 1)));
            k = k + 1;
        }
        assert(schemas@.subrange(0, schemas@.len() as int) =~= schemas@);
        Ok(out)
    }
}

proof fn lemma_node_labels_len(ss: Seq<TableSchema>)
    ensures node_labels(ss).len() == ss.len(),
    decreases ss.len(),
{
    if ss.len() > 0 {
        lemma_node_labels_len(ss.drop_last());
    }
}

impl Default for ERDiagramGenerator {
    fn default() -> (g: Self)
        ensures g == ERDiagramGenerator,
    {
        ERDiagramGenerator::new()
    }
}

} // verus!
