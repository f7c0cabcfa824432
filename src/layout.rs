//! The files that persist an extracted problem: a main file that opens with a
//! header holding the input and output specifications, and an input and an
//! expected-output file for each sample, numbered from zero.
use vstd::prelude::*;
use crate::extract::{ExtractedProblem, ParseError, ProblemModel, TestCase, extract_spec, page_nodes, parse_page};
use crate::text::{decimal, lemma_decimal_injective, to_decimal};

verus! {

/// A file to write: its name and its content.
pub struct Artifact {
    pub name: String,
    pub content: String,
}

impl View for Artifact {
    type V = (Seq<char>, Seq<char>);

    open spec fn view(&self) -> (Seq<char>, Seq<char>) {
        (self.name@, self.content@)
    }
}

/// The header of the main file.
pub open spec fn header_text(input: Seq<char>, output: Seq<char>) -> Seq<char> {
    "#Input: "@ + input + "\n\n#Output: "@ + output + "\n\n"@
}

/// The name of the input file of sample `i`.
pub open spec fn input_name(i: nat) -> Seq<char> {
    "test"@ + decimal(i) + ".in"@
}

/// The name of the expected-output file of sample `i`.
pub open spec fn output_name(i: nat) -> Seq<char> {
    "test"@ + decimal(i) + ".out"@
}

/// The name of the main file for a language, given in lower case.
pub open spec fn main_name(lowered: Seq<char>) -> Seq<char> {
    "main"@ + if lowered == "python"@ {
        ".py"@
    } else {
        Seq::empty()
    }
}

/// The files of the samples, in order: for sample k, its input file and then
/// its expected-output file.
pub open spec fn test_files_spec(tests: Seq<(Seq<char>, Seq<char>)>) -> Seq<(Seq<char>, Seq<char>)> {
    Seq::new(
        2 * tests.len(),
        |j: int|
            if j % 2 == 0 {
                (input_name((j / 2) as nat), tests[j / 2].0)
            } else {
                (output_name((j / 2) as nat), tests[j / 2].1)
            },
    )
}

/// All files of a problem: the main file, then the files of the samples.
pub open spec fn artifacts_spec(p: ProblemModel, lowered_language: Seq<char>) -> Seq<(Seq<char>, Seq<char>)> {
    seq![(main_name(lowered_language), header_text(p.input_description, p.output_description))]
        + test_files_spec(p.tests)
}

/// What a language name is in lower case, as `str::to_lowercase` gives it.
pub uninterp spec fn lowercase_of(s: Seq<char>) -> Seq<char>;

/// Relies on `str::to_lowercase`: the result depends on the characters alone.
#[verifier::external_body]
fn to_lowercase(s: &str) -> (r: String)
    ensures
        r@ == lowercase_of(s@),
{
    s.to_lowercase()
}

/// The header of the main file: the input and output specifications, each
/// after its label.
pub fn make_header(data: &ExtractedProblem) -> (r: String)
    ensures
        r@ == header_text(data.input_description@, data.output_description@),
{
    let mut r = String::from_str("#Input: ");
    r.append(data.input_description.as_str());
    r.append("\n\n#Output: ");
    r.append(data.output_description.as_str());
    r.append("\n\n");
    r
}

/// The name of the input file of sample `i`.
pub fn input_file_name(i: usize) -> (r: String)
    ensures
        r@ == input_name(i as nat),
{
    let mut r = String::from_str("test");
    let d = to_decimal(i);
    r.append(d.as_str());
    r.append(".in");
    r
}

/// The name of the expected-output file of sample `i`.
pub fn output_file_name(i: usize) -> (r: String)
    ensures
        r@ == output_name(i as nat),
{
    let mut r = String::from_str("test");
    let d = to_decimal(i);
    r.append(d.as_str());
    r.append(".out");
    r
}

/// The name of the main file for a language already in lower case.
pub fn main_file_name_for(lowered: &str) -> (r: String)
    ensures
        r@ == main_name(lowered@),
{
    let mut r = String::from_str("main");
    let python = String::from_str("python");
    let given = String::from_str(lowered);
    if given == python {
        r.append(".py");
    }
    proof {
        assert(r@ =~= main_name(lowered@));
    }
    r
}

/// The name of the main file for a language, in any case.
pub fn main_file_name(language: &str) -> (r: String)
    ensures
        r@ == main_name(lowercase_of(language@)),
{
    let lowered = to_lowercase(language);
    main_file_name_for(lowered.as_str())
}

/// The files of the samples: for sample k, `test{k}.in` with its input and
/// `test{k}.out` with its expected output.
pub fn write_test_files(tests: &Vec<TestCase>) -> (r: Vec<Artifact>)
    ensures
        r@.map_values(|a: Artifact| a@) == test_files_spec(
            tests@.map_values(|t: TestCase| (t.input@, t.expected_output@)),
        ),
{
    let ghost model = tests@.map_values(|t: TestCase| (t.input@, t.expected_output@));
    let mut r: Vec<Artifact> = Vec::new();
    let mut k: usize = 0;
    while k < tests.len()
        invariant
            k <= tests@.len(),
            model == tests@.map_values(|t: TestCase| (t.input@, t.expected_output@)),
            r@.len() == 2 * k,
            forall|j: int| 0 <= j < 2 * k ==> #[trigger] r@[j]@ == test_files_spec(model)[j],
        decreases tests@.len() - k,
    {
        let test = &tests[k];
        r.push(Artifact { name: input_file_name(k), content: test.input.clone() });
        r.push(Artifact { name: output_file_name(k), content: test.expected_output.clone() });
        proof {
            let j0 = 2 * k as int;
            assert(j0 % 2 == 0 && j0 / 2 == k);
            assert((j0 + 1) % 2 == 1 && (j0 + 1) / 2 == k);
        }
        k = k + 1;
    }
    proof {
        assert(r@.map_values(|a: Artifact| a@) =~= test_files_spec(model));
    }
    r
}

/// Extracts a problem from the markup of its page and lays out the files that
/// persist it: the main file for the language, then those of the samples.
pub fn init(html: &str, language: &str) -> (r: Result<Vec<Artifact>, ParseError>)
    ensures
        match r {
            Ok(files) => extract_spec(page_nodes(html@)) is Ok && files@.map_values(
                |a: Artifact| a@,
            ) == artifacts_spec(extract_spec(page_nodes(html@))->Ok_0, lowercase_of(language@)),
            Err(e) => extract_spec(page_nodes(html@)) == Err::<ProblemModel, ParseError>(e),
        },
{
    match parse_page(html) {
        Ok(problem) => {
            let main = Artifact { name: main_file_name(language), content: make_header(&problem) };
            let tests = write_test_files(&problem.tests);
            let mut files: Vec<Artifact> = Vec::new();
            files.push(main);
            let mut rest = tests;
            files.append(&mut rest);
            proof {
                assert(files@.map_values(|a: Artifact| a@) =~= artifacts_spec(
                    problem@,
                    lowercase_of(language@),
                ));
            }
            Ok(files)
        },
        Err(e) => Err(e),
    }
}

/// The content of each file after writing `files` in order, a later write of
/// a name replacing an earlier one.
pub open spec fn written(files: Seq<(Seq<char>, Seq<char>)>) -> Map<Seq<char>, Seq<char>>
    decreases files.len(),
{
    if files.len() == 0 {
        Map::empty()
    } else {
        written(files.drop_last()).insert(files.last().0, files.last().1)
    }
}

proof fn lemma_written_lookup(files: Seq<(Seq<char>, Seq<char>)>, j: int)
    requires
        0 <= j < files.len(),
        forall|i: int| j < i < files.len() ==> #[trigger] files[i].0 != files[j].0,
    ensures
        written(files).contains_key(files[j].0),
        written(files)[files[j].0] == files[j].1,
    decreases files.len(),
{
    if j < files.len() - 1 {
        let init = files.drop_last();
        assert(files.last() == files[files.len() - 1]);
        assert forall|i: int| j < i < init.len() implies #[trigger] init[i].0 != init[j].0 by {
            assert(init[i] == files[i]);
        }
        lemma_written_lookup(init, j);
    }
}

/// Files of distinct samples, and the two files of one sample, have distinct names.
pub proof fn lemma_names_distinct(a: nat, b: nat)
    ensures
        input_name(a) == input_name(b) ==> a == b,
        output_name(a) == output_name(b) ==> a == b,
        input_name(a) != output_name(b),
{
    reveal_strlit("test");
    reveal_strlit(".in");
    reveal_strlit(".out");
    if input_name(a) == input_name(b) {
        let x = input_name(a);
        assert(x.subrange(4, x.len() - 3) =~= decimal(a));
        assert(x.subrange(4, x.len() - 3) =~= decimal(b));
        lemma_decimal_injective(a, b);
    }
    if output_name(a) == output_name(b) {
        let x = output_name(a);
        assert(x.subrange(4, x.len() - 4) =~= decimal(a));
        assert(x.subrange(4, x.len() - 4) =~= decimal(b));
        lemma_decimal_injective(a, b);
    }
    assert(input_name(a).last() == 'n');
    assert(output_name(b).last() == 't');
}

/// Writing the files of the samples and reading them back by name gives each
/// sample's input and expected output exactly.
pub proof fn law_test_files_round_trip(tests: Seq<(Seq<char>, Seq<char>)>, k: nat)
    requires
        k < tests.len(),
    ensures
        written(test_files_spec(tests))[input_name(k)] == tests[k as int].0,
        written(test_files_spec(tests))[output_name(k)] == tests[k as int].1,
{
    let files = test_files_spec(tests);
    let ji = 2 * k as int;
    let jo = ji + 1;
    assert(ji % 2 == 0 && ji / 2 == k);
    assert(jo % 2 == 1 && jo / 2 == k);
    assert forall|i: int| ji < i < files.len() implies #[trigger] files[i].0 != files[ji].0 by {
        lemma_names_distinct(k, (i / 2) as nat);
    }
    assert forall|i: int| jo < i < files.len() implies #[trigger] files[i].0 != files[jo].0 by {
        lemma_names_distinct((i / 2) as nat, k);
    }
    lemma_written_lookup(files, ji);
    lemma_written_lookup(files, jo);
}

} // verus!
