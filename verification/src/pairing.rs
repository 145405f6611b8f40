//! Pairing of input and output path lists.
//!
//! Both lists arrive as one comma-separated string each. They are split on
//! every comma and zipped positionally; trailing entries of the longer list
//! are dropped. A checked variant rejects lists of unequal length instead.

use vstd::prelude::*;

verus! {

/// The pieces of `s` between its commas, in order. Always at least one
/// piece; an empty string yields one empty piece.
pub open spec fn split_commas(s: Seq<char>) -> Seq<Seq<char>>
    decreases s.len(),
{
    if s.len() == 0 {
        seq![s]
    } else if s[0] == ',' {
        seq![Seq::<char>::empty()] + split_commas(s.drop_first())
    } else {
        let rest = split_commas(s.drop_first());
        seq![seq![s[0]] + rest[0]] + rest.drop_first()
    }
}

/// Splitting yields at least one piece.
pub proof fn lemma_split_commas_nonempty(s: Seq<char>)
    ensures
        split_commas(s).len() >= 1,
    decreases s.len(),
{
    if s.len() != 0 {
        lemma_split_commas_nonempty(s.drop_first());
    }
}

/// A string without commas is one single piece.
proof fn lemma_split_no_comma(s: Seq<char>)
    requires
        forall|k: int| 0 <= k < s.len() ==> s[k] != ',',
    ensures
        split_commas(s) == seq![s],
    decreases s.len(),
{
    if s.len() != 0 {
        lemma_split_no_comma(s.drop_first());
        let rest = split_commas(s.drop_first());
        assert(seq![s[0]] + rest[0] =~= s);
        assert(rest.drop_first() =~= Seq::<Seq<char>>::empty());
        assert(split_commas(s) =~= seq![s]);
    }
}

/// Splitting at the first comma: the piece before it, then the split of what
/// follows it.
proof fn lemma_split_at_comma(s: Seq<char>, j: int)
    requires
        0 <= j < s.len(),
        s[j] == ',',
        forall|k: int| 0 <= k < j ==> s[k] != ',',
    ensures
        split_commas(s) == seq![s.subrange(0, j)] + split_commas(s.subrange(j + 1, s.len() as int)),
    decreases j,
{
    if j == 0 {
        assert(s.subrange(0, 0) =~= Seq::<char>::empty());
        assert(s.subrange(1, s.len() as int) =~= s.drop_first());
        assert(split_commas(s) =~= seq![s.subrange(0, 0)] + split_commas(
            s.subrange(1, s.len() as int),
        ));
    } else {
        let t = s.drop_first();
        assert(forall|k: int| 0 <= k < j - 1 ==> t[k] != ',');
        lemma_split_at_comma(t, j - 1);
        lemma_split_commas_nonempty(t.subrange(j, t.len() as int));
        let rest = split_commas(t);
        assert(rest[0] == t.subrange(0, j - 1));
        assert(seq![s[0]] + t.subrange(0, j - 1) =~= s.subrange(0, j));
        assert(rest.drop_first() =~= split_commas(t.subrange(j, t.len() as int)));
        assert(t.subrange(j, t.len() as int) =~= s.subrange(j + 1, s.len() as int));
        assert(split_commas(s) =~= seq![s.subrange(0, j)] + split_commas(
            s.subrange(j + 1, s.len() as int),
        ));
    }
}

/// Splits `s` on every comma, in order.
pub fn split_paths(s: &str) -> (r: Vec<String>)
    ensures
        r@.map_values(|t: String| t@) == split_commas(s@),
{
    let len = s.unicode_len();
    let mut r: Vec<String> = Vec::new();
    let mut start: usize = 0;
    let mut i: usize = 0;
    proof {
        assert(s@.subrange(0, len as int) =~= s@);
        assert(r@.map_values(|t: String| t@) + split_commas(s@) =~= split_commas(s@));
    }
    while i < len
        invariant
            start <= i <= len,
            len == s@.len(),
            forall|k: int| start <= k < i ==> s@[k] != ',',
            split_commas(s@) == r@.map_values(|t: String| t@) + split_commas(
                s@.subrange(start as int, len as int),
            ),
        decreases len - i,
    {
        let c = s.get_char(i);
        if c == ',' {
            let piece = s.substring_char(start, i).to_owned();
            proof {
                let tail = s@.subrange(start as int, len as int);
                assert(tail[(i - start) as int] == ',');
                assert(forall|k: int| 0 <= k < i - start ==> tail[k] != ',');
                lemma_split_at_comma(tail, (i - start) as int);
                assert(tail.subrange(0, (i - start) as int) =~= s@.subrange(
                    start as int,
                    i as int,
                ));
                assert(tail.subrange((i - start) as int + 1, tail.len() as int) =~= s@.subrange(
                    i as int + 1,
                    len as int,
                ));
                assert((r@ + seq![piece]).map_values(|t: String| t@) =~= r@.map_values(
                    |t: String| t@,
                ) + seq![piece@]);
                assert(r@.map_values(|t: String| t@) + (seq![piece@] + split_commas(
                    s@.subrange(i as int + 1, len as int),
                )) =~= r@.map_values(|t: String| t@) + seq![piece@] + split_commas(
                    s@.subrange(i as int + 1, len as int),
                ));
            }
            r.push(piece);
            start = i + 1;
        }
        i = i + 1;
    }
    let piece = s.substring_char(start, len).to_owned();
    proof {
        lemma_split_no_comma(s@.subrange(start as int, len as int));
        assert((r@ + seq![piece]).map_values(|t: String| t@) =~= r@.map_values(|t: String| t@)
            + seq![piece@]);
    }
    r.push(piece);
    r
}

/// One input path paired with the output path it is written to.
#[derive(Debug)]
pub struct FilePair {
    pub input: String,
    pub output: String,
}

impl View for FilePair {
    type V = (Seq<char>, Seq<char>);

    open spec fn view(&self) -> (Seq<char>, Seq<char>) {
        (self.input@, self.output@)
    }
}

/// Positional pairing of two lists; the longer list's tail is dropped.
pub open spec fn zip_pairs(a: Seq<Seq<char>>, b: Seq<Seq<char>>) -> Seq<(Seq<char>, Seq<char>)> {
    Seq::new(if a.len() <= b.len() { a.len() } else { b.len() }, |i: int| (a[i], b[i]))
}

/// The pairing that the two comma-separated argument strings describe.
pub open spec fn planned_pairs(input_arg: Seq<char>, output_arg: Seq<char>) -> Seq<
    (Seq<char>, Seq<char>),
> {
    zip_pairs(split_commas(input_arg), split_commas(output_arg))
}

/// Zips the two path lists positionally, dropping the longer list's tail.
pub fn pair_files(inputs: &Vec<String>, outputs: &Vec<String>) -> (r: Vec<FilePair>)
    ensures
        r@.map_values(|p: FilePair| p@) == zip_pairs(
            inputs@.map_values(|t: String| t@),
            outputs@.map_values(|t: String| t@),
        ),
{
    let n = if inputs.len() <= outputs.len() {
        inputs.len()
    } else {
        outputs.len()
    };
    let mut r: Vec<FilePair> = Vec::new();
    let mut i: usize = 0;
    while i < n
        invariant
            i <= n,
            n == if inputs@.len() <= outputs@.len() {
                inputs@.len()
            } else {
                outputs@.len()
            },
            r@.len() == i,
            forall|k: int|
                0 <= k < i ==> #[trigger] r@[k]@ == (inputs@[k]@, outputs@[k]@),
        decreases n - i,
    {
        let pair = FilePair { input: inputs[i].clone(), output: outputs[i].clone() };
        r.push(pair);
        i = i + 1;
    }
    proof {
        assert(r@.map_values(|p: FilePair| p@) =~= zip_pairs(
            inputs@.map_values(|t: String| t@),
            outputs@.map_values(|t: String| t@),
        ));
    }
    r
}

/// Splits both argument strings and pairs the resulting lists positionally.
pub fn plan_pairs(input_arg: &str, output_arg: &str) -> (r: Vec<FilePair>)
    ensures
        r@.map_values(|p: FilePair| p@) == planned_pairs(input_arg@, output_arg@),
{
    let inputs = split_paths(input_arg);
    let outputs = split_paths(output_arg);
    pair_files(&inputs, &outputs)
}

/// Rejection of argument lists that name unequal numbers of paths.
#[derive(Debug, PartialEq, Eq, Structural, Clone, Copy)]
pub struct ArgumentError {
    pub inputs: usize,
    pub outputs: usize,
}

/// Splits both argument strings and pairs them, rejecting lists of unequal
/// length instead of silently truncating.
pub fn checked_pairs(input_arg: &str, output_arg: &str) -> (r: Result<Vec<FilePair>, ArgumentError>)
    ensures
        r is Ok <==> split_commas(input_arg@).len() == split_commas(output_arg@).len(),
        r matches Ok(pairs) ==> pairs@.map_values(|p: FilePair| p@) == planned_pairs(
            input_arg@,
            output_arg@,
        ),
        r matches Err(e) ==> e.inputs == split_commas(input_arg@).len() && e.outputs
            == split_commas(output_arg@).len(),
{
    let inputs = split_paths(input_arg);
    let outputs = split_paths(output_arg);
    proof {
        assert(inputs@.map_values(|t: String| t@).len() == inputs@.len());
        assert(outputs@.map_values(|t: String| t@).len() == outputs@.len());
    }
    if inputs.len() != outputs.len() {
        return Err(ArgumentError { inputs: inputs.len(), outputs: outputs.len() });
    }
    Ok(pair_files(&inputs, &outputs))
}

} // verus!
