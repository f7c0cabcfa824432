//! The extractor: a linear state machine over the nodes of a problem body
//! that fills the description and the two specification sections, and reads
//! one sample test case from each table.
use vstd::prelude::*;
use crate::text::{normalize_text, normalized};
use select::document::Document;
use select::predicate::{And, Any, Child, Class, Element, Name};

verus! {

/// One node directly under the problem body, as the extractor reads it: its
/// tag name (none for text and comments), its text content, and the inner
/// markup of each preformatted block below it, in document order.
pub struct BodyNode {
    pub name: Option<String>,
    pub text: String,
    pub pre_blocks: Vec<String>,
}

/// A node as plain values: its tag name, its text, its preformatted blocks.
pub type NodeModel = (Option<Seq<char>>, Seq<char>, Seq<Seq<char>>);

/// A tag name as characters.
pub open spec fn name_model(name: Option<String>) -> Option<Seq<char>> {
    match name {
        Some(s) => Some(s@),
        None => None,
    }
}

/// Preformatted blocks as characters.
pub open spec fn blocks_model(blocks: Seq<String>) -> Seq<Seq<char>> {
    blocks.map_values(|b: String| b@)
}

/// What the extractor reads of a node.
pub open spec fn node_model(n: BodyNode) -> NodeModel {
    (name_model(n.name), n.text@, blocks_model(n.pre_blocks@))
}

/// What the extractor reads of each node, in order.
pub open spec fn models(nodes: Seq<BodyNode>) -> Seq<NodeModel> {
    nodes.map_values(|n: BodyNode| node_model(n))
}

/// The element nodes whose parent carries the class `body_class` in the
/// document that `html` parses to, in document order, each with the inner
/// markup of its `block_tag` descendants.
pub uninterp spec fn selected_nodes(html: Seq<char>, body_class: Seq<char>, block_tag: Seq<char>) -> Seq<
    (Option<Seq<char>>, Seq<char>, Seq<Seq<char>>),
>;

/// Relies on `select`: `Document::from` parses the markup, `find` with
/// `Child(Class(..), Any)` walks the children of the body container, and
/// `Node::name`, `Node::text` and `Node::inner_html` read each of them.
#[verifier::external_body]
fn select_nodes(html: &str, body_class: &str, block_tag: &str) -> (r: Vec<BodyNode>)
    ensures
        models(r@) == selected_nodes(html@, body_class@, block_tag@),
{
    let document = Document::from(html);
    document
        .find(And(Element, Child(Class(body_class), Any)))
        .map(|node| BodyNode {
            name: node.name().map(|n| n.to_string()),
            text: node.text(),
            pre_blocks: node.find(And(Element, Name(block_tag))).map(|p| p.inner_html()).collect(),
        })
        .collect()
}

/// How the extractor treats a node.
#[derive(Clone, Copy, Debug, PartialEq, Eq, Structural)]
pub enum NodeKind {
    Paragraph,
    Heading,
    Table,
    Other,
}

/// The section that currently receives paragraph text.
#[derive(Clone, Copy, Debug, PartialEq, Eq, Structural)]
pub enum Section {
    Description,
    InputSpec,
    OutputSpec,
}

/// Why a document could not be extracted.
#[derive(Clone, Copy, Debug, PartialEq, Eq, Structural)]
pub enum ParseError {
    /// A section heading followed the output specification.
    TooManySections,
    /// A table held fewer than two preformatted blocks.
    InsufficientPreBlocks,
}

/// One sample: its position among the samples, its input and its expected output.
pub struct TestCase {
    pub index: usize,
    pub input: String,
    pub expected_output: String,
}

/// The structured content of a problem statement.
pub struct ExtractedProblem {
    pub description: String,
    pub input_description: String,
    pub output_description: String,
    pub tests: Vec<TestCase>,
}

/// The mathematical content of an `ExtractedProblem`: its three texts and the
/// (input, expected output) pair of each sample, in order.
pub struct ProblemModel {
    pub description: Seq<char>,
    pub input_description: Seq<char>,
    pub output_description: Seq<char>,
    pub tests: Seq<(Seq<char>, Seq<char>)>,
}

impl View for ExtractedProblem {
    type V = ProblemModel;

    open spec fn view(&self) -> ProblemModel {
        ProblemModel {
            description: self.description@,
            input_description: self.input_description@,
            output_description: self.output_description@,
            tests: self.tests@.map_values(|t: TestCase| (t.input@, t.expected_output@)),
        }
    }
}

impl ExtractedProblem {
    /// Each sample carries its own position as its index.
    pub open spec fn indexed(&self) -> bool {
        forall|k: int| 0 <= k < self.tests@.len() ==> #[trigger] self.tests@[k].index == k
    }
}

/// How the extractor treats a node with the given tag name.
pub open spec fn kind_of(name: Option<Seq<char>>) -> NodeKind {
    match name {
        Some(n) => if n == "p"@ {
            NodeKind::Paragraph
        } else if n == "h2"@ {
            NodeKind::Heading
        } else if n == "table"@ {
            NodeKind::Table
        } else {
            NodeKind::Other
        },
        None => NodeKind::Other,
    }
}

/// The position of a section: 0, 1 or 2.
pub open spec fn section_index(s: Section) -> nat {
    match s {
        Section::Description => 0,
        Section::InputSpec => 1,
        Section::OutputSpec => 2,
    }
}

/// The sample of a table: its first two preformatted blocks.
pub open spec fn sample_of(pre_blocks: Seq<Seq<char>>) -> (Seq<char>, Seq<char>) {
    (pre_blocks[0], pre_blocks[1])
}

/// What the extractor has gathered after reading a prefix of the nodes.
pub struct Scan {
    pub headings: nat,
    pub description: Seq<char>,
    pub input_description: Seq<char>,
    pub output_description: Seq<char>,
    pub tests: Seq<(Seq<char>, Seq<char>)>,
    pub malformed: bool,
}

/// The effect of one node on what the extractor has gathered.
pub open spec fn scan_step(a: Scan, n: NodeModel) -> Scan {
    match kind_of(n.0) {
        NodeKind::Paragraph => {
            let t = normalized(n.1);
            if a.headings == 0 {
                Scan { description: a.description + t, ..a }
            } else if a.headings == 1 {
                Scan { input_description: a.input_description + t, ..a }
            } else if a.headings == 2 {
                Scan { output_description: a.output_description + t, ..a }
            } else {
                a
            }
        },
        NodeKind::Heading => Scan { headings: a.headings + 1, ..a },
        NodeKind::Table => if n.2.len() >= 2 {
            Scan { tests: a.tests.push(sample_of(n.2)), ..a }
        } else {
            Scan { malformed: true, ..a }
        },
        NodeKind::Other => a,
    }
}

/// What the extractor has gathered after reading the nodes in order.
pub open spec fn scan(nodes: Seq<NodeModel>) -> Scan
    decreases nodes.len(),
{
    if nodes.len() == 0 {
        Scan {
            headings: 0,
            description: Seq::empty(),
            input_description: Seq::empty(),
            output_description: Seq::empty(),
            tests: Seq::empty(),
            malformed: false,
        }
    } else {
        scan_step(scan(nodes.drop_last()), nodes.last())
    }
}

/// The result of extracting a document: a heading past the output
/// specification fails it, whatever the tables hold; otherwise a table with
/// fewer than two preformatted blocks fails it; otherwise it succeeds.
pub open spec fn extract_spec(nodes: Seq<NodeModel>) -> Result<ProblemModel, ParseError> {
    let a = scan(nodes);
    if a.headings >= 3 {
        Err(ParseError::TooManySections)
    } else if a.malformed {
        Err(ParseError::InsufficientPreBlocks)
    } else {
        Ok(
            ProblemModel {
                description: a.description,
                input_description: a.input_description,
                output_description: a.output_description,
                tests: a.tests,
            },
        )
    }
}

impl Section {
    /// The next section; none follows the output specification.
    pub fn advance(self) -> (r: Result<Section, ParseError>)
        ensures
            match self {
                Section::OutputSpec => r == Err::<Section, ParseError>(ParseError::TooManySections),
                _ => r is Ok && section_index(r->Ok_0) == section_index(self) + 1,
            },
    {
        match self {
            Section::Description => Ok(Section::InputSpec),
            Section::InputSpec => Ok(Section::OutputSpec),
            Section::OutputSpec => Err(ParseError::TooManySections),
        }
    }
}

fn name_is(name: &String, tag: &str) -> (r: bool)
    ensures
        r == (name@ == tag@),
{
    let t = String::from_str(tag);
    *name == t
}

/// How the extractor treats a node with the given tag name.
pub fn classify(name: &Option<String>) -> (r: NodeKind)
    ensures
        r == kind_of(name_model(*name)),
{
    match name {
        Some(n) => if name_is(n, "p") {
            NodeKind::Paragraph
        } else if name_is(n, "h2") {
            NodeKind::Heading
        } else if name_is(n, "table") {
            NodeKind::Table
        } else {
            NodeKind::Other
        },
        None => NodeKind::Other,
    }
}

/// Reads the sample of a table from its preformatted blocks: the first is the
/// input, the second the expected output, and any further block is ignored.
pub fn parse_table(pre_blocks: &Vec<String>) -> (r: Result<(String, String), ParseError>)
    ensures
        pre_blocks@.len() < 2 <==> r is Err,
        r is Err ==> r->Err_0 == ParseError::InsufficientPreBlocks,
        r is Ok ==> (r->Ok_0.0@, r->Ok_0.1@) == sample_of(blocks_model(pre_blocks@)),
{
    if pre_blocks.len() < 2 {
        Err(ParseError::InsufficientPreBlocks)
    } else {
        Ok((pre_blocks[0].clone(), pre_blocks[1].clone()))
    }
}

proof fn lemma_headings_monotone(nodes: Seq<NodeModel>, j: int)
    requires
        0 <= j <= nodes.len(),
    ensures
        scan(nodes.take(j)).headings <= scan(nodes).headings,
    decreases nodes.len(),
{
    if j == nodes.len() {
        assert(nodes.take(j) == nodes);
    } else {
        assert(nodes.take(j) == nodes.drop_last().take(j));
        lemma_headings_monotone(nodes.drop_last(), j);
    }
}

/// Extracts the problem from the nodes of its body, in document order.
pub fn parse_document(nodes: &Vec<BodyNode>) -> (r: Result<ExtractedProblem, ParseError>)
    ensures
        match r {
            Ok(p) => extract_spec(models(nodes@)) == Ok::<ProblemModel, ParseError>(p@)
                && p.indexed(),
            Err(e) => extract_spec(models(nodes@)) == Err::<ProblemModel, ParseError>(e),
        },
{
    let ghost all = models(nodes@);
    let mut section = Section::Description;
    let mut description = String::new();
    let mut input_description = String::new();
    let mut output_description = String::new();
    let mut tests: Vec<TestCase> = Vec::new();
    let mut malformed = false;
    let mut i: usize = 0;
    while i < nodes.len()
        invariant
            i <= nodes@.len(),
            all == models(nodes@),
            scan(all.take(i as int)).headings == section_index(section),
            scan(all.take(i as int)).description == description@,
            scan(all.take(i as int)).input_description == input_description@,
            scan(all.take(i as int)).output_description == output_description@,
            scan(all.take(i as int)).tests == tests@.map_values(
                |t: TestCase| (t.input@, t.expected_output@),
            ),
            scan(all.take(i as int)).malformed == malformed,
            tests@.len() <= i,
            forall|k: int| 0 <= k < tests@.len() ==> #[trigger] tests@[k].index == k,
        decreases nodes@.len() - i,
    {
        let node = &nodes[i];
        proof {
            assert(all.take(i + 1).drop_last() == all.take(i as int));
            assert(all.take(i + 1).last() == node_model(*node));
            assert(scan(all.take(i + 1)) == scan_step(scan(all.take(i as int)), node_model(*node)));
        }
        match classify(&node.name) {
            NodeKind::Paragraph => {
                let t = normalize_text(node.text.as_str());
                match section {
                    Section::Description => description.append(t.as_str()),
                    Section::InputSpec => input_description.append(t.as_str()),
                    Section::OutputSpec => output_description.append(t.as_str()),
                }
            },
            NodeKind::Heading => {
                match section.advance() {
                    Ok(s) => section = s,
                    Err(e) => {
                        proof {
                            lemma_headings_monotone(all, i + 1);
                        }
                        return Err(e);
                    },
                }
            },
            NodeKind::Table => {
                match parse_table(&node.pre_blocks) {
                    Ok((input, expected_output)) => {
                        let index = tests.len();
                        tests.push(TestCase { index, input, expected_output });
                        proof {
                            assert(tests@.map_values(
                                |t: TestCase| (t.input@, t.expected_output@),
                            ) == scan(all.take(i + 1)).tests);
                        }
                    },
                    Err(_) => malformed = true,
                }
            },
            NodeKind::Other => {},
        }
        i = i + 1;
    }
    proof {
        assert(all.take(i as int) == all);
    }
    if malformed {
        Err(ParseError::InsufficientPreBlocks)
    } else {
        Ok(ExtractedProblem { description, input_description, output_description, tests })
    }
}

/// The number of section headings among the nodes.
pub open spec fn count_headings(nodes: Seq<NodeModel>) -> nat
    decreases nodes.len(),
{
    if nodes.len() == 0 {
        0
    } else {
        count_headings(nodes.drop_last()) + if kind_of(nodes.last().0) == NodeKind::Heading {
            1nat
        } else {
            0nat
        }
    }
}

/// The number of tables among the nodes.
pub open spec fn count_tables(nodes: Seq<NodeModel>) -> nat
    decreases nodes.len(),
{
    if nodes.len() == 0 {
        0
    } else {
        count_tables(nodes.drop_last()) + if kind_of(nodes.last().0) == NodeKind::Table {
            1nat
        } else {
            0nat
        }
    }
}

/// Every table holds at least two preformatted blocks.
pub open spec fn tables_complete(nodes: Seq<NodeModel>) -> bool {
    forall|k: int|
        0 <= k < nodes.len() && kind_of(#[trigger] nodes[k].0) == NodeKind::Table
            ==> nodes[k].2.len() >= 2
}

/// The samples of the tables, in document order.
pub open spec fn table_samples(nodes: Seq<NodeModel>) -> Seq<(Seq<char>, Seq<char>)>
    decreases nodes.len(),
{
    if nodes.len() == 0 {
        Seq::empty()
    } else if kind_of(nodes.last().0) == NodeKind::Table {
        table_samples(nodes.drop_last()).push(sample_of(nodes.last().2))
    } else {
        table_samples(nodes.drop_last())
    }
}

proof fn lemma_scan_counts(nodes: Seq<NodeModel>)
    ensures
        scan(nodes).headings == count_headings(nodes),
        tables_complete(nodes) ==> !scan(nodes).malformed && scan(nodes).tests == table_samples(
            nodes,
        ) && table_samples(nodes).len() == count_tables(nodes),
    decreases nodes.len(),
{
    if nodes.len() > 0 {
        let init = nodes.drop_last();
        lemma_scan_counts(init);
        if tables_complete(nodes) {
            assert forall|k: int|
                0 <= k < init.len() && kind_of(#[trigger] init[k].0) == NodeKind::Table implies init[k].2.len()
                >= 2 by {
                assert(init[k] == nodes[k]);
            }
            assert(nodes.last() == nodes[nodes.len() - 1]);
        }
    }
}

/// A document with at most two section headings whose tables each hold two or
/// more preformatted blocks is extracted, with one sample per table, in
/// document order.
pub proof fn law_well_formed_document_extracts(nodes: Seq<NodeModel>)
    requires
        count_headings(nodes) <= 2,
        tables_complete(nodes),
    ensures
        extract_spec(nodes) is Ok,
        extract_spec(nodes)->Ok_0.tests == table_samples(nodes),
        extract_spec(nodes)->Ok_0.tests.len() == count_tables(nodes),
{
    lemma_scan_counts(nodes);
}

/// A document with three or more section headings fails with
/// `TooManySections`, whatever its tables hold.
pub proof fn law_too_many_sections(nodes: Seq<NodeModel>)
    requires
        count_headings(nodes) >= 3,
    ensures
        extract_spec(nodes) == Err::<ProblemModel, ParseError>(ParseError::TooManySections),
{
    lemma_scan_counts(nodes);
}

/// The nodes of the problem body of a page: the children of its
/// `problembody` container, with their `pre` blocks.
pub open spec fn page_nodes(html: Seq<char>) -> Seq<NodeModel> {
    selected_nodes(html, "problembody"@, "pre"@)
}

/// Reads the nodes of the problem body of a page.
pub fn body_nodes(html: &str) -> (r: Vec<BodyNode>)
    ensures
        models(r@) == page_nodes(html@),
{
    select_nodes(html, "problembody", "pre")
}

/// Extracts the problem from the markup of its page.
pub fn parse_page(html: &str) -> (r: Result<ExtractedProblem, ParseError>)
    ensures
        match r {
            Ok(p) => extract_spec(page_nodes(html@)) == Ok::<ProblemModel, ParseError>(p@)
                && p.indexed(),
            Err(e) => extract_spec(page_nodes(html@)) == Err::<ProblemModel, ParseError>(e),
        },
{
    let nodes = body_nodes(html);
    parse_document(&nodes)
}

} // verus!
