//! The inference table: facts recorded during the walk, and their merge.
//!
//! Each call site contributes zero or more *facts*: "parameter `param` was
//! passed to `callee` in a position declared as `ty`". The walk accumulates
//! facts in tree order; the driver then merges them into a table with one
//! entry per parameter. Two facts that assign the same parameter two
//! different types are a conflict and the merge fails, identifying both
//! call sites.

use vstd::prelude::*;

verus! {

/// The mathematical view of one inference fact.
#[verifier::ext_equal]
pub ghost struct SpecFact {
    pub param: Seq<char>,
    pub ty: Seq<char>,
    pub callee: Seq<char>,
}

/// One inference fact: at a call to `callee`, tracked parameter `param`
/// stood in an argument position whose declared type is `ty`.
#[derive(Debug)]
pub struct Fact {
    pub param: String,
    pub ty: String,
    pub callee: String,
}

impl View for Fact {
    type V = SpecFact;

    open spec fn view(&self) -> SpecFact {
        SpecFact { param: self.param@, ty: self.ty@, callee: self.callee@ }
    }
}

/// The view of a sequence of facts.
pub open spec fn facts_view(facts: Seq<Fact>) -> Seq<SpecFact> {
    facts.map_values(|f: Fact| f@)
}

/// The mathematical view of an inference error.
pub ghost enum SpecError {
    /// The parameter at `index` in the signature is not a simple named
    /// binding.
    MalformedParameter { index: int },
    /// Two call sites assign `param` two different types; `first` and
    /// `second` identify both.
    ConflictingInference { param: Seq<char>, first: SpecFact, second: SpecFact },
    /// The walk recorded no fact about `param`, so its placeholder cannot
    /// be replaced.
    UnresolvedParameter { param: Seq<char> },
}

/// An error of the inference pass. Every fatal condition aborts inference
/// for the one function under expansion.
#[derive(Debug)]
pub enum InferError {
    /// The parameter at `index` in the signature is not a simple named
    /// binding (`self`, a destructuring pattern, ...).
    MalformedParameter { index: usize },
    /// Two call sites assign `param` two different types; `first` and
    /// `second` identify both call sites by callee name.
    ConflictingInference { param: String, first: Fact, second: Fact },
    /// No call site revealed a type for the placeholder parameter `param`.
    UnresolvedParameter { param: String },
}

impl View for InferError {
    type V = SpecError;

    open spec fn view(&self) -> SpecError {
        match self {
            InferError::MalformedParameter { index } => SpecError::MalformedParameter {
                index: *index as int,
            },
            InferError::ConflictingInference { param, first, second } => {
                SpecError::ConflictingInference { param: param@, first: first@, second: second@ }
            },
            InferError::UnresolvedParameter { param } => SpecError::UnresolvedParameter {
                param: param@,
            },
        }
    }
}

/// The first fact in `table` about `param`, if any.
pub open spec fn spec_find(table: Seq<SpecFact>, param: Seq<char>) -> Option<SpecFact>
    decreases table.len(),
{
    if table.len() == 0 {
        None
    } else if table[0].param == param {
        Some(table[0])
    } else {
        spec_find(table.subrange(1, table.len() as int), param)
    }
}

/// Merge `facts` into `table`, left to right. A fact about a parameter not
/// yet in the table is appended; a fact that repeats the recorded type is
/// dropped; a fact that contradicts the recorded type stops the merge with
/// a conflict naming both facts.
pub open spec fn spec_merge(table: Seq<SpecFact>, facts: Seq<SpecFact>) -> Result<
    Seq<SpecFact>,
    SpecError,
>
    decreases facts.len(),
{
    if facts.len() == 0 {
        Ok(table)
    } else {
        let f = facts[0];
        let rest = facts.subrange(1, facts.len() as int);
        match spec_find(table, f.param) {
            None => spec_merge(table.push(f), rest),
            Some(g) => if g.ty == f.ty {
                spec_merge(table, rest)
            } else {
                Err(SpecError::ConflictingInference { param: f.param, first: g, second: f })
            },
        }
    }
}

/// Find the first fact about `param` in `table`.
pub fn find_fact<'a>(table: &'a Vec<Fact>, param: &String) -> (r: Option<&'a Fact>)
    ensures
        match r {
            Some(f) => spec_find(facts_view(table@), param@) == Some(f@),
            None => spec_find(facts_view(table@), param@) is None,
        },
{
    let n = table.len();
    proof {
        assert(facts_view(table@).subrange(0, n as int) =~= facts_view(table@));
    }
    for i in 0..n
        invariant
            n == table.len(),
            spec_find(facts_view(table@), param@) == spec_find(
                facts_view(table@).subrange(i as int, n as int),
                param@,
            ),
    {
        assert(facts_view(table@)[i as int] == table@[i as int]@);
        if table[i].param == *param {
            return Some(&table[i]);
        }
        proof {
            let s = facts_view(table@);
            assert(s.subrange(i as int, n as int).subrange(1, (n - i) as int) =~= s.subrange(
                i + 1,
                n as int,
            ));
        }
    }
    proof {
        assert(facts_view(table@).subrange(n as int, n as int) =~= Seq::<SpecFact>::empty());
    }
    None
}

/// Build the inference table from the facts the walk recorded, in order,
/// failing on the first conflicting pair.
pub fn build_table(facts: &Vec<Fact>) -> (r: Result<Vec<Fact>, InferError>)
    ensures
        match r {
            Ok(table) => spec_merge(Seq::empty(), facts_view(facts@)) == Ok::<_, SpecError>(
                facts_view(table@),
            ),
            Err(e) => spec_merge(Seq::empty(), facts_view(facts@)) == Err::<Seq<SpecFact>, _>(e@),
        },
{
    let mut table: Vec<Fact> = Vec::new();
    let n = facts.len();
    proof {
        assert(facts_view(table@) =~= Seq::<SpecFact>::empty());
        assert(facts_view(facts@).subrange(0, n as int) =~= facts_view(facts@));
    }
    for i in 0..n
        invariant
            n == facts.len(),
            spec_merge(Seq::empty(), facts_view(facts@)) == spec_merge(
                facts_view(table@),
                facts_view(facts@).subrange(i as int, n as int),
            ),
    {
        proof {
            let s = facts_view(facts@);
            assert(s[i as int] == facts@[i as int]@);
            assert(s.subrange(i as int, n as int).subrange(1, (n - i) as int) =~= s.subrange(
                i + 1,
                n as int,
            ));
        }
        let f = &facts[i];
        match find_fact(&table, &f.param) {
            None => {
                let fact = Fact {
                    param: f.param.clone(),
                    ty: f.ty.clone(),
                    callee: f.callee.clone(),
                };
                proof {
                    assert(fact@ == f@);
                    assert(facts_view(table@.push(fact)) =~= facts_view(table@).push(fact@));
                }
                table.push(fact);
            },
            Some(g) => {
                if g.ty != f.ty {
                    let err = InferError::ConflictingInference {
                        param: f.param.clone(),
                        first: Fact {
                            param: g.param.clone(),
                            ty: g.ty.clone(),
                            callee: g.callee.clone(),
                        },
                        second: Fact {
                            param: f.param.clone(),
                            ty: f.ty.clone(),
                            callee: f.callee.clone(),
                        },
                    };
                    return Err(err);
                }
            },
        }
    }
    proof {
        assert(facts_view(facts@).subrange(n as int, n as int) =~= Seq::<SpecFact>::empty());
    }
    Ok(table)
}

} // verus!
