use vstd::prelude::*;

use crate::error::{Malformed, SolveError};
use crate::status::{status_from_line, status_of_line, Status};
use crate::text::{is_space, same_text, split_tokens, texts, tokens};

verus! {

/// One variable of a solution and the value text the engine reported for it;
/// `None` means that the engine left it out, which stands for zero.
#[derive(Debug, Clone)]
pub struct Assignment {
    pub name: String,
    pub value: Option<String>,
}

/// A parsed solution: the solve status and one assignment per variable name.
#[derive(Debug, Clone)]
pub struct Solution {
    pub status: Status,
    pub values: Vec<Assignment>,
}

pub open spec fn value_text(o: Option<String>) -> Option<Seq<char>> {
    match o {
        Some(s) => Some(s@),
        None => None,
    }
}

/// No two assignments name the same variable.
pub open spec fn names_unique(s: Seq<Assignment>) -> bool {
    forall|i: int, j: int| 0 <= i < j < s.len() ==> s[i].name@ != s[j].name@
}

/// What the assignments hold for the variable `n`: `None` if it has none.
pub open spec fn lookup(s: Seq<Assignment>, n: Seq<char>) -> Option<Option<Seq<char>>>
    decreases s.len(),
{
    if s.len() == 0 {
        None
    } else if s.last().name@ == n {
        Some(value_text(s.last().value))
    } else {
        lookup(s.drop_last(), n)
    }
}

/// The assignments as a map from variable name to reported value text.
pub open spec fn value_map(s: Seq<Assignment>) -> Map<Seq<char>, Option<Seq<char>>> {
    Map::new(|n: Seq<char>| lookup(s, n) is Some, |n: Seq<char>| lookup(s, n)->0)
}

/// The leading token that marks a sparse-output annotation.
pub open spec fn marker() -> Seq<char> {
    seq!['*', '*']
}

/// The fields of a data line: its tokens without a leading marker.
pub open spec fn data_fields(line: Seq<char>) -> Seq<Seq<char>> {
    let t = tokens(line);
    if t.len() > 0 && t[0] == marker() {
        t.drop_first()
    } else {
        t
    }
}

/// A data line holds exactly index, name, value and a secondary figure.
pub open spec fn line_ok(line: Seq<char>) -> bool {
    data_fields(line).len() == 4
}

pub open spec fn entry_name(line: Seq<char>) -> Seq<char> {
    data_fields(line)[1]
}

pub open spec fn entry_value(line: Seq<char>) -> Seq<char> {
    data_fields(line)[2]
}

/// Whether the solution text (status line, then data lines) is well formed.
pub open spec fn accepts(lines: Seq<Seq<char>>) -> bool {
    lines.len() > 0 && forall|i: int| 1 <= i < lines.len() ==> line_ok(#[trigger] lines[i])
}

/// Line `i` is the first data line that is not well formed.
pub open spec fn first_bad_line(lines: Seq<Seq<char>>, i: int) -> bool {
    &&& 1 <= i < lines.len()
    &&& !line_ok(lines[i])
    &&& forall|j: int| 1 <= j < i ==> line_ok(#[trigger] lines[j])
}

/// What the variables alone give for `n`: every known name starts at zero.
pub open spec fn seeded(vars: Seq<Seq<char>>, n: Seq<char>) -> Option<Option<Seq<char>>>
    decreases vars.len(),
{
    if vars.len() == 0 {
        None
    } else if vars.last() == n {
        Some(None)
    } else {
        seeded(vars.drop_last(), n)
    }
}

/// What the variables and the data lines give for `n`: the last line that
/// names it wins, else its seeded default.
pub open spec fn expected(vars: Seq<Seq<char>>, data: Seq<Seq<char>>, n: Seq<char>) -> Option<
    Option<Seq<char>>,
>
    decreases data.len(),
{
    if data.len() == 0 {
        seeded(vars, n)
    } else if entry_name(data.last()) == n {
        Some(Some(entry_value(data.last())))
    } else {
        expected(vars, data.drop_last(), n)
    }
}

/// The value map that the variables and the data lines give.
pub open spec fn solution_values(vars: Seq<Seq<char>>, data: Seq<Seq<char>>) -> Map<
    Seq<char>,
    Option<Seq<char>>,
> {
    Map::new(|n: Seq<char>| expected(vars, data, n) is Some, |n: Seq<char>| expected(vars, data, n)->0)
}

impl Solution {
    /// The assignments as a map from variable name to reported value text.
    pub open spec fn values_view(&self) -> Map<Seq<char>, Option<Seq<char>>> {
        value_map(self.values@)
    }
}

proof fn lemma_lookup_at(s: Seq<Assignment>, k: int)
    requires
        names_unique(s),
        0 <= k < s.len(),
    ensures
        lookup(s, s[k].name@) == Some(value_text(s[k].value)),
    decreases s.len(),
{
    if k < s.len() - 1 {
        assert(s.drop_last()[k] == s[k]);
        lemma_lookup_at(s.drop_last(), k);
    }
}

proof fn lemma_lookup_absent(s: Seq<Assignment>, n: Seq<char>)
    requires
        forall|k: int| 0 <= k < s.len() ==> s[k].name@ != n,
    ensures
        lookup(s, n) is None,
    decreases s.len(),
{
    if s.len() > 0 {
        lemma_lookup_absent(s.drop_last(), n);
    }
}

/// Sets the value of `name`, overwriting an assignment of the same name.
fn set_value(values: &mut Vec<Assignment>, name: String, value: Option<String>)
    requires
        names_unique(old(values)@),
    ensures
        names_unique(final(values)@),
        forall|n: Seq<char>|
            #[trigger] lookup(final(values)@, n) == if n == name@ {
                Some(value_text(value))
            } else {
                lookup(old(values)@, n)
            },
{
    let ghost before = values@;
    let ghost key = name@;
    let ghost text = value_text(value);
    let mut k: usize = 0;
    while k < values.len()
        invariant
            values@ == before,
            before == old(values)@,
            names_unique(before),
            key == name@,
            text == value_text(value),
            k <= values.len(),
            forall|j: int| 0 <= j < k ==> values@[j].name@ != name@,
        decreases values.len() - k,
    {
        if same_text(values[k].name.as_str(), name.as_str()) {
            let a = Assignment { name, value };
            values.set(k, a);
            assert(values@ == before.update(k as int, a));
            assert(a.name@ == key && value_text(a.value) == text);
            assert(names_unique(values@));
            assert forall|n: Seq<char>|
                #[trigger] lookup(values@, n) == if n == key {
                    Some(text)
                } else {
                    lookup(before, n)
                } by {
                if n == key {
                    lemma_lookup_at(values@, k as int);
                } else if exists|j: int| 0 <= j < before.len() && before[j].name@ == n {
                    let j = choose|j: int| 0 <= j < before.len() && before[j].name@ == n;
                    assert(j != k);
                    assert(values@[j] == before[j]);
                    lemma_lookup_at(before, j);
                    lemma_lookup_at(values@, j);
                } else {
                    assert forall|m: int| 0 <= m < values@.len() implies values@[m].name@ != n by {
                        if m != k {
                            assert(values@[m] == before[m]);
                        }
                    }
                    lemma_lookup_absent(before, n);
                    lemma_lookup_absent(values@, n);
                }
            }
            return;
        }
        k = k + 1;
    }
    let a = Assignment { name, value };
    values.push(a);
    assert(values@.drop_last() =~= before);
    assert forall|n: Seq<char>|
        #[trigger] lookup(values@, n) == if n == key {
            Some(text)
        } else {
            lookup(before, n)
        } by {}
}

/// The fields of a data line: its tokens without a leading marker.
fn line_fields(line: &str) -> (r: Vec<String>)
    ensures
        texts(r@) == data_fields(line@),
{
    let mut fields = split_tokens(line);
    proof {
        reveal_strlit("**");
        assert("**"@ =~= marker());
    }
    if fields.len() > 0 && same_text(fields[0].as_str(), "**") {
        let ghost full = fields@;
        fields.remove(0);
        assert(texts(fields@) =~= texts(full).drop_first());
    }
    fields
}

/// The value field of each data line, in order, up to the first data line
/// that is not well formed: every value field that a reader of the solution
/// text meets before it stops.
pub fn data_values(lines: &Vec<String>) -> (r: Vec<String>)
    ensures
        lines@.len() == 0 ==> r@.len() == 0,
        lines@.len() > 0 ==> r@.len() < lines@.len(),
        forall|j: int| 0 <= j < r@.len() ==> line_ok(#[trigger] lines@[j + 1]@),
        forall|j: int| 0 <= j < r@.len() ==> #[trigger] r@[j]@ == entry_value(lines@[j + 1]@),
        r@.len() + 1 < lines@.len() ==> !line_ok(lines@[r@.len() as int + 1]@),
{
    let mut out: Vec<String> = Vec::new();
    if lines.len() == 0 {
        return out;
    }
    let mut i: usize = 1;
    while i < lines.len()
        invariant
            1 <= i <= lines.len(),
            out@.len() == i - 1,
            forall|j: int| 0 <= j < out@.len() ==> line_ok(#[trigger] lines@[j + 1]@),
            forall|j: int| 0 <= j < out@.len() ==> #[trigger] out@[j]@ == entry_value(lines@[j + 1]@),
        decreases lines.len() - i,
    {
        let fields = line_fields(lines[i].as_str());
        if fields.len() != 4 {
            return out;
        }
        assert(texts(fields@)[2] == fields@[2]@);
        out.push(fields[2].clone());
        i = i + 1;
    }
    out
}

/// Reads a solution from the engine's solution text, given as its lines, with
/// `variables` the names of the problem's variables (empty where the problem
/// is not at hand). Every variable starts at zero; each data line then sets the
/// value text of the variable it names.
pub fn read_specific_solution(lines: &Vec<String>, variables: &Vec<String>) -> (r: Result<
    Solution,
    SolveError,
>)
    ensures
        r is Ok <==> accepts(texts(lines@)),
        match r {
            Ok(sol) => {
                &&& sol.status == status_of_line(lines@[0]@)
                &&& names_unique(sol.values@)
                &&& sol.values_view() == solution_values(
                    texts(variables@),
                    texts(lines@).drop_first(),
                )
            },
            Err(SolveError::MalformedSolution(Malformed::MissingStatusLine)) => lines@.len() == 0,
            Err(SolveError::MalformedSolution(Malformed::FieldCount { index, line })) => {
                &&& first_bad_line(texts(lines@), index as int)
                &&& line@ == lines@[index as int]@
            },
            Err(_) => false,
        },
{
    let ghost all = texts(lines@);
    let ghost vars = texts(variables@);
    if lines.len() == 0 {
        return Err(SolveError::MalformedSolution(Malformed::MissingStatusLine));
    }
    let status = status_from_line(lines[0].as_str());
    let mut values: Vec<Assignment> = Vec::new();
    let mut v: usize = 0;
    while v < variables.len()
        invariant
            vars == texts(variables@),
            v <= variables.len(),
            names_unique(values@),
            forall|n: Seq<char>| #[trigger]
                lookup(values@, n) == seeded(vars.subrange(0, v as int), n),
        decreases variables.len() - v,
    {
        let name = variables[v].clone();
        set_value(&mut values, name, None);
        assert(vars.subrange(0, v + 1).drop_last() =~= vars.subrange(0, v as int));
        v = v + 1;
    }
    assert(vars.subrange(0, variables.len() as int) =~= vars);
    let mut i: usize = 1;
    while i < lines.len()
        invariant
            all == texts(lines@),
            vars == texts(variables@),
            1 <= i <= lines.len(),
            forall|j: int| 1 <= j < i ==> line_ok(#[trigger] all[j]),
            names_unique(values@),
            forall|n: Seq<char>| #[trigger]
                lookup(values@, n) == expected(vars, all.subrange(1, i as int), n),
        decreases lines.len() - i,
    {
        let fields = line_fields(lines[i].as_str());
        let ghost line = all[i as int];
        assert(line == lines@[i as int]@);
        if fields.len() != 4 {
            let bad = lines[i].clone();
            assert(first_bad_line(all, i as int));
            return Err(SolveError::MalformedSolution(Malformed::FieldCount { index: i, line: bad }));
        }
        assert(texts(fields@)[1] == fields@[1]@);
        assert(texts(fields@)[2] == fields@[2]@);
        let name = fields[1].clone();
        let value = fields[2].clone();
        set_value(&mut values, name, Some(value));
        assert(all.subrange(1, i + 1).drop_last() =~= all.subrange(1, i as int));
        i = i + 1;
    }
    assert(all.subrange(1, lines.len() as int) =~= all.drop_first());
    let sol = Solution { status, values };
    assert(sol.values_view() =~= solution_values(vars, all.drop_first()));
    Ok(sol)
}

/// A text without space characters is one token.
pub proof fn lemma_single_token(s: Seq<char>)
    requires
        s.len() > 0,
        forall|i: int| 0 <= i < s.len() ==> !is_space(#[trigger] s[i]),
    ensures
        tokens(s) == seq![s],
    decreases s.len(),
{
    let p = s.drop_last();
    assert(!is_space(s[s.len() - 1]));
    if p.len() == 0 {
        assert(tokens(p) == Seq::<Seq<char>>::empty());
        assert(seq![s.last()] =~= s);
        assert(Seq::<Seq<char>>::empty().push(seq![s.last()]) =~= seq![s]);
    } else {
        assert forall|i: int| 0 <= i < p.len() implies !is_space(#[trigger] p[i]) by {
            assert(p[i] == s[i]);
        }
        assert(!is_space(p[p.len() - 1]));
        lemma_single_token(p);
        assert(p.push(s.last()) =~= s);
        assert(seq![p].update(0, p.push(s.last())) =~= seq![s]);
    }
}

/// Without data lines every variable keeps its seeded default: a name is
/// present exactly when it is a variable, and then it stands at zero.
pub proof fn lemma_seeded_defaults(vars: Seq<Seq<char>>, n: Seq<char>)
    ensures
        expected(vars, Seq::empty(), n) == if vars.contains(n) {
            Some(None::<Seq<char>>)
        } else {
            None
        },
    decreases vars.len(),
{
    if vars.len() > 0 {
        lemma_seeded_defaults(vars.drop_last(), n);
        if vars.last() != n {
            if vars.contains(n) {
                let k = choose|k: int| 0 <= k < vars.len() && vars[k] == n;
                assert(vars.drop_last()[k] == n);
            }
            if vars.drop_last().contains(n) {
                let k = choose|k: int| 0 <= k < vars.drop_last().len() && vars.drop_last()[k] == n;
                assert(vars[k] == n);
            }
        } else {
            assert(vars[vars.len() - 1] == n);
        }
    }
}

/// A solution text that is the single status line "Optimal" is accepted, has
/// status `Optimal`, and maps every variable, and nothing else, to zero.
pub proof fn lemma_optimal_without_data(vars: Seq<Seq<char>>)
    ensures
        accepts(seq!["Optimal"@]),
        status_of_line("Optimal"@) == Status::Optimal,
        solution_values(vars, seq!["Optimal"@].drop_first()) == Map::new(
            |n: Seq<char>| vars.contains(n),
            |n: Seq<char>| None::<Seq<char>>,
        ),
{
    reveal_strlit("Optimal");
    lemma_single_token("Optimal"@);
    assert(seq!["Optimal"@].drop_first() =~= Seq::<Seq<char>>::empty());
    assert forall|n: Seq<char>| #[trigger] expected(vars, Seq::empty(), n) == if vars.contains(n) {
        Some(None::<Seq<char>>)
    } else {
        None
    } by {
        lemma_seeded_defaults(vars, n);
    }
    assert(solution_values(vars, Seq::empty()) =~= Map::new(
        |n: Seq<char>| vars.contains(n),
        |n: Seq<char>| None::<Seq<char>>,
    ));
}

/// A single data line that does not hold four fields rejects the whole
/// solution text, however many lines before it are well formed.
pub proof fn lemma_bad_line_rejects(lines: Seq<Seq<char>>, i: int)
    requires
        1 <= i < lines.len(),
        data_fields(lines[i]).len() != 4,
    ensures
        !accepts(lines),
{
    assert(!line_ok(lines[i]));
}

} // verus!
