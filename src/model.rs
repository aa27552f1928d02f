use vstd::prelude::*;
use vstd::string::{StrSliceExecFns, StringExecFns};

use crate::codec::chars_of;
use crate::text::{find_sep_in, split_once, split_pieces};

verus! {

/// The coarse outcome of a submission, read from the first character of its
/// stored verdict.
#[derive(Debug, Clone, Copy, PartialEq, Eq, Structural)]
pub enum SimpleTestResponse {
    Correct,
    Wrong,
    InvalidProgram,
}

impl SimpleTestResponse {
    pub fn as_str(self) -> (r: &'static str)
        ensures
            r@ == simple_label(self),
    {
        proof {
            reveal_strlit("Correct");
            reveal_strlit("Wrong");
            reveal_strlit("Invalid program");
        }
        match self {
            SimpleTestResponse::Correct => "Correct",
            SimpleTestResponse::Wrong => "Wrong",
            SimpleTestResponse::InvalidProgram => "Invalid program",
        }
    }
}

pub open spec fn simple_label(s: SimpleTestResponse) -> Seq<char> {
    match s {
        SimpleTestResponse::Correct => "Correct"@,
        SimpleTestResponse::Wrong => "Wrong"@,
        SimpleTestResponse::InvalidProgram => "Invalid program"@,
    }
}

/// A stored verdict that could not be read; it holds the text that was given.
#[derive(Debug, Clone, PartialEq, Eq)]
pub struct TestResponseFromStrError(pub String);

/// How much a user may do on the site; a higher level may do all that a lower
/// one may. The stored number of each level never changes.
#[derive(Debug, Clone, Copy, PartialEq, Eq, Structural, PartialOrd, Ord, Hash)]
pub enum PermissionLevel {
    User,
    ProblemAuthor,
    Admin,
}

pub open spec fn permission_rank(p: PermissionLevel) -> i64 {
    match p {
        PermissionLevel::User => 0,
        PermissionLevel::ProblemAuthor => 10,
        PermissionLevel::Admin => 20,
    }
}

impl Default for PermissionLevel {
    fn default() -> (r: PermissionLevel)
        ensures
            r == PermissionLevel::User,
    {
        PermissionLevel::User
    }
}

impl PermissionLevel {
    pub fn name(self) -> (r: &'static str)
        ensures
            r@ == permission_name(self),
    {
        proof {
            reveal_strlit("User");
            reveal_strlit("Problem author");
            reveal_strlit("Admin");
        }
        match self {
            PermissionLevel::User => "User",
            PermissionLevel::ProblemAuthor => "Problem author",
            PermissionLevel::Admin => "Admin",
        }
    }

    /// The stored number of this level.
    pub fn repr(self) -> (r: i64)
        ensures
            r == permission_rank(self),
    {
        match self {
            PermissionLevel::User => 0,
            PermissionLevel::ProblemAuthor => 10,
            PermissionLevel::Admin => 20,
        }
    }

    /// The level stored as `repr`, if any.
    pub fn from_repr(repr: i64) -> (r: Option<PermissionLevel>)
        ensures
            r matches Some(p) ==> permission_rank(p) == repr,
            r is None <==> repr != 0 && repr != 10 && repr != 20,
    {
        match repr {
            0 => Some(PermissionLevel::User),
            10 => Some(PermissionLevel::ProblemAuthor),
            20 => Some(PermissionLevel::Admin),
            _ => None,
        }
    }

    /// Whether this level is `other` or above it.
    pub fn at_least(self, other: PermissionLevel) -> (r: bool)
        ensures
            r == (permission_rank(self) >= permission_rank(other)),
    {
        self.repr() >= other.repr()
    }
}

pub open spec fn permission_name(p: PermissionLevel) -> Seq<char> {
    match p {
        PermissionLevel::User => "User"@,
        PermissionLevel::ProblemAuthor => "Problem author"@,
        PermissionLevel::Admin => "Admin"@,
    }
}

/// A language that submissions may be written in. The stored number of each
/// language never changes; it also indexes the table of toolchain versions.
#[derive(Debug, Clone, Copy, PartialEq, Eq, Structural, Hash)]
pub enum Language {
    Python3,
    C,
    Cpp,
    Java,
    Rust,
}

pub open spec fn language_index(l: Language) -> i64 {
    match l {
        Language::Python3 => 0,
        Language::C => 1,
        Language::Cpp => 2,
        Language::Java => 3,
        Language::Rust => 4,
    }
}

pub open spec fn language_name(l: Language) -> Seq<char> {
    match l {
        Language::Python3 => "Python 3"@,
        Language::C => "C"@,
        Language::Cpp => "C++"@,
        Language::Java => "Java"@,
        Language::Rust => "Rust"@,
    }
}

impl Language {
    pub fn name(self) -> (r: &'static str)
        ensures
            r@ == language_name(self),
    {
        proof {
            reveal_strlit("Python 3");
            reveal_strlit("C");
            reveal_strlit("C++");
            reveal_strlit("Java");
            reveal_strlit("Rust");
        }
        match self {
            Language::Python3 => "Python 3",
            Language::C => "C",
            Language::Cpp => "C++",
            Language::Java => "Java",
            Language::Rust => "Rust",
        }
    }

    /// The stored number of this language.
    pub fn repr(self) -> (r: i64)
        ensures
            r == language_index(self),
            0 <= r < 5,
    {
        match self {
            Language::Python3 => 0,
            Language::C => 1,
            Language::Cpp => 2,
            Language::Java => 3,
            Language::Rust => 4,
        }
    }

    /// The language stored as `repr`, if any.
    pub fn from_repr(repr: i64) -> (r: Option<Language>)
        ensures
            r matches Some(l) ==> language_index(l) == repr,
            r is None <==> !(0 <= repr < 5),
    {
        match repr {
            0 => Some(Language::Python3),
            1 => Some(Language::C),
            2 => Some(Language::Cpp),
            3 => Some(Language::Java),
            4 => Some(Language::Rust),
            _ => None,
        }
    }
}

/// Every language, in the order of their stored numbers.
pub fn all_languages() -> (r: Vec<Language>)
    ensures
        r@.len() == 5,
        forall|i: int| 0 <= i < 5 ==> language_index(#[trigger] r@[i]) == i,
{
    vec![Language::Python3, Language::C, Language::Cpp, Language::Java, Language::Rust]
}

// ---------------------------------------------------------------------------
// Test cases of a problem
// ---------------------------------------------------------------------------

/// What stands between two test cases.
pub open spec fn case_separator() -> Seq<char> {
    "\n===\n"@
}

/// What stands between the input and the expected output of a test case.
pub open spec fn in_out_separator() -> Seq<char> {
    "\n--\n"@
}

/// The test cases written in `raw`, each as the text between separators.
pub open spec fn raw_cases(raw: Seq<char>) -> Seq<Seq<char>> {
    split_pieces(raw, case_separator())
}

/// A test case parsed into its input and expected output, if it has both.
pub open spec fn parse_case(case: Seq<char>) -> Option<(Seq<char>, Seq<char>)> {
    split_once(case, in_out_separator())
}

pub open spec fn tests_valid(raw: Seq<char>) -> bool {
    forall|i: int| 0 <= i < raw_cases(raw).len() ==> #[trigger] parse_case(raw_cases(raw)[i]) is Some
}

pub open spec fn pair_view(p: Option<(String, String)>) -> Option<(Seq<char>, Seq<char>)> {
    match p {
        Some((a, b)) => Some((a@, b@)),
        None => None,
    }
}

/// The test case `v[lo..hi]`, parsed into its input and expected output if
/// it has both; `v` holds the characters of `raw`.
fn parse_piece(raw: &str, v: &Vec<char>, lo: usize, hi: usize, io_sep: &Vec<char>) -> (r: Option<
    (String, String),
>)
    requires
        v@ == raw@,
        lo <= hi <= v@.len(),
        io_sep@ == in_out_separator(),
    ensures
        pair_view(r) == parse_case(v@.subrange(lo as int, hi as int)),
{
    proof {
        reveal_strlit("\n--\n");
    }
    let ghost piece = v@.subrange(lo as int, hi as int);
    match find_sep_in(v, lo, hi, io_sep) {
        Some(k) => {
            let input = raw.substring_char(lo, k);
            let output = raw.substring_char(k + 4, hi);
            assert(input@ =~= piece.take(k - lo));
            assert(output@ =~= piece.skip(k - lo + 4));
            Some((String::from_str(input), String::from_str(output)))
        },
        None => None,
    }
}

/// Each test case of `raw`, parsed into its input and expected output where
/// it has both.
pub fn parse_tests(raw: &str) -> (r: Vec<Option<(String, String)>>)
    ensures
        r@.len() == raw_cases(raw@).len(),
        forall|i: int|
            0 <= i < r@.len() ==> pair_view(#[trigger] r@[i]) == parse_case(raw_cases(raw@)[i]),
{
    proof {
        reveal_strlit("\n===\n");
        reveal_strlit("\n--\n");
    }
    let v = chars_of(raw);
    let case_sep = chars_of("\n===\n");
    let io_sep = chars_of("\n--\n");
    let n = v.len();
    let mut out: Vec<Option<(String, String)>> = Vec::new();
    let mut p: usize = 0;
    let ghost mut seen: Seq<Seq<char>> = Seq::empty();
    assert(v@.skip(0) =~= v@);
    assert(seen + split_pieces(v@.skip(0), case_separator()) =~= raw_cases(raw@));
    loop
        invariant
            v@ == raw@,
            n == v@.len(),
            p <= n,
            case_sep@ == case_separator(),
            io_sep@ == in_out_separator(),
            raw_cases(raw@) == seen + split_pieces(v@.skip(p as int), case_separator()),
            out@.len() == seen.len(),
            forall|i: int| 0 <= i < seen.len() ==> pair_view(#[trigger] out@[i]) == parse_case(seen[i]),
        decreases n - p,
    {
        proof {
            reveal_strlit("\n===\n");
            reveal_strlit("\n--\n");
        }
        let ghost rest = v@.skip(p as int);
        assert(rest =~= v@.subrange(p as int, n as int));
        let found = find_sep_in(&v, p, n, &case_sep);
        let end = match found {
            Some(e) => e,
            None => n,
        };
        let piece = parse_piece(raw, &v, p, end, &io_sep);
        let ghost before = seen;
        out.push(piece);
        if found.is_none() {
            proof {
                assert(split_pieces(rest, case_separator()) == seq![rest]);
                assert(rest =~= v@.subrange(p as int, end as int));
                seen = seen.push(rest);
                assert(raw_cases(raw@) =~= seen);
                assert forall|i: int| 0 <= i < seen.len() implies pair_view(#[trigger] out@[i])
                    == parse_case(seen[i]) by {
                    if i < before.len() {
                    }
                }
            }
            return out;
        }
        proof {
            let k = end - p;
            assert(rest.take(k) =~= v@.subrange(p as int, end as int));
            assert(rest.skip(k + 5) =~= v@.skip(end + 5));
            assert(split_pieces(rest, case_separator()) == seq![rest.take(k)] + split_pieces(
                rest.skip(k + 5),
                case_separator(),
            ));
            seen = seen.push(rest.take(k));
            assert(raw_cases(raw@) =~= seen + split_pieces(v@.skip(end + 5), case_separator()));
        }
        p = end + 5;
    }
}

/// Why a text is not a valid set of test cases.
#[derive(Debug, Clone, Copy, PartialEq, Eq, Structural)]
pub enum TestsFromStrError {
    NoTests,
    /// The test case at `index`, counted from zero, has no separator between
    /// its input and its output.
    InvalidTest { index: usize },
}

/// The index of the first test case of `raw` that does not parse, if any.
pub open spec fn first_invalid_case(raw: Seq<char>, index: int) -> bool {
    &&& 0 <= index < raw_cases(raw).len()
    &&& parse_case(raw_cases(raw)[index]) is None
    &&& forall|j: int| 0 <= j < index ==> #[trigger] parse_case(raw_cases(raw)[j]) is Some
}

/// The test cases of a problem, kept in their written form: cases separated
/// by a line `===`, input and expected output separated by a line `--`.
/// Every case has both parts.
pub struct Tests {
    inner: String,
}

impl View for Tests {
    type V = Seq<char>;

    closed spec fn view(&self) -> Seq<char> {
        self.inner@
    }
}

impl Tests {
    #[verifier::type_invariant]
    spec fn inv(&self) -> bool {
        tests_valid(self.inner@)
    }

    /// Checks that every test case of `raw` has an input and an output.
    pub fn validate(raw: &str) -> (r: Result<(), TestsFromStrError>)
        ensures
            r is Ok <==> tests_valid(raw@),
            r matches Err(e) ==> (e matches TestsFromStrError::InvalidTest { index }
                && first_invalid_case(raw@, index as int)),
    {
        let cases = parse_tests(raw);
        let mut i: usize = 0;
        while i < cases.len()
            invariant
                i <= cases@.len(),
                cases@.len() == raw_cases(raw@).len(),
                forall|k: int|
                    0 <= k < cases@.len() ==> pair_view(#[trigger] cases@[k]) == parse_case(
                        raw_cases(raw@)[k],
                    ),
                forall|j: int| 0 <= j < i ==> #[trigger] parse_case(raw_cases(raw@)[j]) is Some,
            decreases cases@.len() - i,
        {
            if cases[i].is_none() {
                assert(pair_view(cases@[i as int]) is None);
                return Err(TestsFromStrError::InvalidTest { index: i });
            }
            assert(pair_view(cases@[i as int]) is Some);
            i = i + 1;
        }
        Ok(())
    }

    /// The test cases written in `inner`, if every one has an input and an
    /// output.
    pub fn try_from(inner: String) -> (r: Result<Tests, TestsFromStrError>)
        ensures
            r matches Ok(t) ==> t@ == inner@,
            r is Ok <==> tests_valid(inner@),
            r matches Err(e) ==> (e matches TestsFromStrError::InvalidTest { index }
                && first_invalid_case(inner@, index as int)),
    {
        match Tests::validate(inner.as_str()) {
            Ok(()) => Ok(Tests { inner }),
            Err(e) => Err(e),
        }
    }

    /// The written form.
    pub fn repr(&self) -> (r: String)
        ensures
            r@ == self@,
    {
        self.inner.clone()
    }

    /// The input and expected output of each test case, in order.
    pub fn cases(&self) -> (r: Vec<(String, String)>)
        ensures
            r@.len() == raw_cases(self@).len(),
            forall|i: int|
                0 <= i < r@.len() ==> parse_case(raw_cases(self@)[i]) == Some(
                    ((#[trigger] r@[i]).0@, r@[i].1@),
                ),
    {
        proof {
            use_type_invariant(self);
        }
        let parsed = parse_tests(self.inner.as_str());
        let mut out: Vec<(String, String)> = Vec::new();
        let mut i: usize = 0;
        while i < parsed.len()
            invariant
                i <= parsed@.len(),
                parsed@.len() == raw_cases(self@).len(),
                tests_valid(self@),
                forall|k: int|
                    0 <= k < parsed@.len() ==> pair_view(#[trigger] parsed@[k]) == parse_case(
                        raw_cases(self@)[k],
                    ),
                out@.len() == i,
                forall|k: int|
                    0 <= k < i ==> parse_case(raw_cases(self@)[k]) == Some(
                        ((#[trigger] out@[k]).0@, out@[k].1@),
                    ),
            decreases parsed@.len() - i,
        {
            assert(parse_case(raw_cases(self@)[i as int]) is Some);
            assert(pair_view(parsed@[i as int]) is Some);
            match &parsed[i] {
                Some((input, output)) => {
                    out.push((input.clone(), output.clone()));
                },
                None => {},
            }
            i = i + 1;
        }
        out
    }
}

} // verus!
