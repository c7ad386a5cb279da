//! The driver of one inference pass: extract the tracked parameters, walk
//! the body, merge the facts, and rewrite the signature.

use vstd::prelude::*;

use crate::ast::{SigParam, Stmt, TypeMark};
use crate::catalog::{Catalog, SpecEntry};
use crate::table::{build_table, facts_view, find_fact, spec_find, spec_merge, Fact, InferError,
    SpecError, SpecFact};
use crate::walk::{facts_of_block, infer_from_block, names_view};

verus! {

/// The mathematical view of one rewritten parameter.
#[verifier::ext_equal]
pub ghost struct SpecResolved {
    pub name: Seq<char>,
    pub ty: Seq<char>,
}

/// One parameter of the rewritten signature: its name and its type, with
/// every placeholder replaced by the inferred type.
pub struct ResolvedParam {
    pub name: String,
    pub ty: String,
}

impl View for ResolvedParam {
    type V = SpecResolved;

    open spec fn view(&self) -> SpecResolved {
        SpecResolved { name: self.name@, ty: self.ty@ }
    }
}

/// The view of a rewritten signature.
pub open spec fn resolved_view(ps: Seq<ResolvedParam>) -> Seq<SpecResolved> {
    ps.map_values(|p: ResolvedParam| p@)
}

/// The index of the first parameter that is not a simple named binding,
/// or `None` when every parameter is one.
pub open spec fn spec_malformed(sig: Seq<SigParam>) -> Option<int>
    decreases sig.len(),
{
    if sig.len() == 0 {
        None
    } else if sig[0] is Unsupported {
        Some(0)
    } else {
        match spec_malformed(sig.subrange(1, sig.len() as int)) {
            None => None,
            Some(i) => Some(i + 1),
        }
    }
}

/// The names of the placeholder parameters, in signature order: the fixed
/// universe of names the walk watches for.
pub open spec fn spec_placeholders(sig: Seq<SigParam>) -> Seq<Seq<char>>
    decreases sig.len(),
{
    if sig.len() == 0 {
        Seq::empty()
    } else {
        let head = match sig[0] {
            SigParam::Named { name, ty: TypeMark::Placeholder } => seq![name@],
            _ => Seq::empty(),
        };
        head + spec_placeholders(sig.subrange(1, sig.len() as int))
    }
}

/// The rewritten signature: a declared type is kept, a placeholder is
/// replaced by the type the table records for the parameter's name, and a
/// placeholder whose name has no table entry is the first unresolved
/// parameter, which fails the rewrite.
pub open spec fn spec_rewrite(sig: Seq<SigParam>, table: Seq<SpecFact>) -> Result<
    Seq<SpecResolved>,
    SpecError,
>
    decreases sig.len(),
{
    if sig.len() == 0 {
        Ok(Seq::empty())
    } else {
        let head: Result<Seq<SpecResolved>, SpecError> = match sig[0] {
            SigParam::Named { name, ty: TypeMark::Given(t) } => Ok(
                seq![SpecResolved { name: name@, ty: t@ }],
            ),
            SigParam::Named { name, ty: TypeMark::Placeholder } => match spec_find(table, name@) {
                Some(f) => Ok(seq![SpecResolved { name: name@, ty: f.ty }]),
                None => Err(SpecError::UnresolvedParameter { param: name@ }),
            },
            SigParam::Unsupported => Ok(Seq::empty()),
        };
        match head {
            Err(e) => Err(e),
            Ok(h) => match spec_rewrite(sig.subrange(1, sig.len() as int), table) {
                Err(e) => Err(e),
                Ok(rest) => Ok(h + rest),
            },
        }
    }
}

/// The outcome of one whole inference pass, mathematically: fail on the
/// first malformed parameter; otherwise walk the body, merge the facts
/// (failing on a conflict), and rewrite the signature (failing on the
/// first unresolved placeholder).
pub open spec fn spec_infer(
    catalog: Seq<SpecEntry>,
    sig: Seq<SigParam>,
    body: Seq<Stmt>,
) -> Result<Seq<SpecResolved>, SpecError> {
    match spec_malformed(sig) {
        Some(i) => Err(SpecError::MalformedParameter { index: i }),
        None => {
            let names = spec_placeholders(sig);
            match spec_merge(Seq::empty(), facts_of_block(catalog, names, body)) {
                Err(e) => Err(e),
                Ok(table) => spec_rewrite(sig, table),
            }
        },
    }
}

/// The view of an inference pass's result.
pub open spec fn result_view(r: Result<Vec<ResolvedParam>, InferError>) -> Result<
    Seq<SpecResolved>,
    SpecError,
> {
    match r {
        Ok(ps) => Ok(resolved_view(ps@)),
        Err(e) => Err(e@),
    }
}

/// Extract the tracked parameter names: the names of the placeholder
/// parameters, in order. A parameter that is not a simple named binding is
/// a fatal input error, reported with its index, so that no parameter can
/// silently escape inference.
pub fn extract_params(sig: &Vec<SigParam>) -> (r: Result<Vec<String>, InferError>)
    ensures
        match r {
            Ok(names) => spec_malformed(sig@) is None && names_view(names@) == spec_placeholders(
                sig@,
            ),
            Err(e) => match spec_malformed(sig@) {
                Some(idx) => e@ == (SpecError::MalformedParameter { index: idx }),
                None => false,
            },
        },
{
    let mut names: Vec<String> = Vec::new();
    let n = sig.len();
    proof {
        assert(sig@.subrange(0, n as int) =~= sig@);
        assert(names_view(names@) =~= Seq::<Seq<char>>::empty());
    }
    for i in 0..n
        invariant
            n == sig.len(),
            match spec_malformed(sig@.subrange(i as int, n as int)) {
                Some(k) => spec_malformed(sig@) == Some(i + k),
                None => spec_malformed(sig@) is None,
            },
            spec_placeholders(sig@) == names_view(names@) + spec_placeholders(
                sig@.subrange(i as int, n as int),
            ),
    {
        proof {
            assert(sig@.subrange(i as int, n as int).subrange(1, (n - i) as int) =~= sig@.subrange(
                i + 1,
                n as int,
            ));
        }
        let ghost names0 = names@;
        match &sig[i] {
            SigParam::Named { name, ty } => {
                match ty {
                    TypeMark::Placeholder => {
                        names.push(name.clone());
                        proof {
                            let a = names_view(names0);
                            let b = seq![name@];
                            let c = spec_placeholders(sig@.subrange(i + 1, n as int));
                            assert(names_view(names@) =~= a + b);
                            assert((a + b) + c =~= a + (b + c));
                        }
                    },
                    TypeMark::Given(_t) => {},
                }
            },
            SigParam::Unsupported => {
                return Err(InferError::MalformedParameter { index: i });
            },
        }
    }
    proof {
        assert(spec_placeholders(sig@.subrange(n as int, n as int)) == Seq::<Seq<char>>::empty());
        assert(names_view(names@) + Seq::<Seq<char>>::empty() =~= names_view(names@));
    }
    Ok(names)
}

/// Rewrite the signature against a finished inference table: keep every
/// declared type, replace every placeholder with the type recorded for its
/// name, and report the first placeholder whose name has no entry.
pub fn rewrite_signature(sig: &Vec<SigParam>, table: &Vec<Fact>) -> (r: Result<
    Vec<ResolvedParam>,
    InferError,
>)
    ensures
        match r {
            Ok(ps) => spec_rewrite(sig@, facts_view(table@)) == Ok::<_, SpecError>(
                resolved_view(ps@),
            ),
            Err(e) => spec_rewrite(sig@, facts_view(table@)) == Err::<Seq<SpecResolved>, _>(e@),
        },
{
    let ghost tv = facts_view(table@);
    let mut out: Vec<ResolvedParam> = Vec::new();
    let n = sig.len();
    proof {
        assert(sig@.subrange(0, n as int) =~= sig@);
        assert(resolved_view(out@) =~= Seq::<SpecResolved>::empty());
    }
    for i in 0..n
        invariant
            n == sig.len(),
            tv == facts_view(table@),
            spec_rewrite(sig@, tv) == (match spec_rewrite(sig@.subrange(i as int, n as int), tv) {
                Ok(rest) => Ok::<_, SpecError>(resolved_view(out@) + rest),
                Err(e) => Err::<Seq<SpecResolved>, _>(e),
            }),
    {
        proof {
            assert(sig@.subrange(i as int, n as int).subrange(1, (n - i) as int) =~= sig@.subrange(
                i + 1,
                n as int,
            ));
        }
        let ghost out0 = out@;
        match &sig[i] {
            SigParam::Named { name, ty } => {
                match ty {
                    TypeMark::Given(t) => {
                        out.push(ResolvedParam { name: name.clone(), ty: t.clone() });
                        proof {
                            let a = resolved_view(out0);
                            let b = seq![SpecResolved { name: name@, ty: t@ }];
                            let c_r = spec_rewrite(sig@.subrange(i + 1, n as int), tv);
                            assert(resolved_view(out@) =~= a + b);
                            if c_r is Ok {
                                let c = c_r->Ok_0;
                                assert((a + b) + c =~= a + (b + c));
                            }
                        }
                    },
                    TypeMark::Placeholder => {
                        match find_fact(table, name) {
                            Some(f) => {
                                out.push(ResolvedParam { name: name.clone(), ty: f.ty.clone() });
                                proof {
                                    let a = resolved_view(out0);
                                    let b = seq![SpecResolved { name: name@, ty: f@.ty }];
                                    let c_r = spec_rewrite(sig@.subrange(i + 1, n as int), tv);
                                    assert(resolved_view(out@) =~= a + b);
                                    if c_r is Ok {
                                        let c = c_r->Ok_0;
                                        assert((a + b) + c =~= a + (b + c));
                                    }
                                }
                            },
                            None => {
                                return Err(InferError::UnresolvedParameter {
                                    param: name.clone(),
                                });
                            },
                        }
                    },
                }
            },
            SigParam::Unsupported => {
                proof {
                    let a = resolved_view(out0);
                    let c_r = spec_rewrite(sig@.subrange(i + 1, n as int), tv);
                    if c_r is Ok {
                        let c = c_r->Ok_0;
                        assert(Seq::<SpecResolved>::empty() + c =~= c);
                    }
                }
            },
        }
    }
    proof {
        assert(resolved_view(out@) + Seq::<SpecResolved>::empty() =~= resolved_view(out@));
    }
    Ok(out)
}

/// Run one whole inference pass over a function: validate and extract the
/// placeholder parameters, walk the body for call-site facts, merge them
/// into the inference table, and rewrite the signature.
///
/// The result is a function of the catalog, the signature and the body
/// alone, as the contract states: two runs over the same inputs return the
/// same value.
pub fn infer_types(catalog: &Catalog, sig: &Vec<SigParam>, body: &Vec<Stmt>) -> (r: Result<
    Vec<ResolvedParam>,
    InferError,
>)
    ensures
        result_view(r) == spec_infer(catalog@, sig@, body@),
{
    let names = match extract_params(sig) {
        Err(e) => {
            return Err(e);
        },
        Ok(names) => names,
    };
    let facts = infer_from_block(catalog, &names, body);
    let table = match build_table(&facts) {
        Err(e) => {
            return Err(e);
        },
        Ok(t) => t,
    };
    rewrite_signature(sig, &table)
}

} // verus!
