//! Output-key resolution: an inference call returns several named output
//! tensors; an ordered precedence list of rules picks the one to pool.

use vstd::prelude::*;
use vstd::string::StringExecFns;
use crate::errors::Error;

verus! {

/// One rule of a precedence list: either "use the sole output" (which
/// matches exactly when there is one output and no more), or "use the output
/// with this name" (which matches exactly when the name is present).
#[derive(Debug, Clone, PartialEq, Eq)]
pub enum OutputKey {
    OnlyOne,
    ByName(String),
}

/// Whether `key` matches the list of output names.
pub open spec fn key_matches(key: OutputKey, names: Seq<Seq<char>>) -> bool {
    match key {
        OutputKey::OnlyOne => names.len() == 1,
        OutputKey::ByName(n) => exists|i: int| 0 <= i < names.len() && names[i] == n@,
    }
}

/// The output index `key` selects: the sole output, or the first output
/// bearing the requested name.
pub open spec fn key_selection(key: OutputKey, names: Seq<Seq<char>>) -> int
    recommends
        key_matches(key, names),
{
    match key {
        OutputKey::OnlyOne => 0,
        OutputKey::ByName(n) => first_index_of(names, n@),
    }
}

/// Index of the first occurrence of `name` in `names`.
pub open spec fn first_index_of(names: Seq<Seq<char>>, name: Seq<char>) -> int {
    choose|i: int|
        0 <= i < names.len() && names[i] == name && forall|j: int|
            0 <= j < i ==> names[j] != name
}

/// The resolver's result on `names` under `precedence`: the selection of the
/// first matching rule, or `None` when no rule matches.
pub open spec fn resolved(names: Seq<Seq<char>>, precedence: Seq<OutputKey>) -> Option<int> {
    if exists|k: int| 0 <= k < precedence.len() && key_matches(#[trigger] precedence[k], names) {
        let k = choose|k: int|
            0 <= k < precedence.len() && key_matches(#[trigger] precedence[k], names) && forall|
                j: int,
            | 0 <= j < k ==> !key_matches(precedence[j], names);
        Some(key_selection(precedence[k], names))
    } else {
        Option::<int>::None
    }
}

/// Output key resolver: walks the precedence list in order and returns the
/// index (into `names`) of the output selected by the first rule that
/// matches; fails with `Error::OutputNotFound` exactly when no rule matches.
pub fn resolve_output_index(names: &Vec<String>, precedence: &Vec<OutputKey>) -> (result: Result<
    usize,
    Error,
>)
    ensures
        result matches Ok(i) ==> resolved(names@.map_values(|s: String| s@), precedence@)
            == Some(i as int) && 0 <= i < names@.len(),
        result is Err <==> resolved(names@.map_values(|s: String| s@), precedence@) is None,
        result matches Err(e) ==> e == Error::OutputNotFound,
{
    let ghost vnames = names@.map_values(|s: String| s@);
    let mut k: usize = 0;
    while k < precedence.len()
        invariant
            vnames == names@.map_values(|s: String| s@),
            0 <= k <= precedence@.len(),
            forall|j: int| 0 <= j < k ==> !key_matches(#[trigger] precedence@[j], vnames),
        decreases precedence@.len() - k,
    {
        match &precedence[k] {
            OutputKey::OnlyOne => {
                if names.len() == 1 {
                    proof {
                        assert(key_matches(precedence@[k as int], vnames));
                        lemma_resolved_at(vnames, precedence@, k as int);
                    }
                    return Ok(0);
                }
            },
            OutputKey::ByName(wanted) => {
                let mut i: usize = 0;
                while i < names.len()
                    invariant
                        vnames == names@.map_values(|s: String| s@),
                        0 <= i <= names@.len(),
                        forall|j: int| 0 <= j < i ==> vnames[j] != wanted@,
                        precedence@[k as int] matches OutputKey::ByName(w) && w@ == wanted@,
                        0 <= k < precedence@.len(),
                        forall|j: int| 0 <= j < k ==> !key_matches(
                            #[trigger] precedence@[j],
                            vnames,
                        ),
                    decreases names@.len() - i,
                {
                    if names[i].eq(wanted) {
                        proof {
                            assert(vnames[i as int] == wanted@);
                            assert(key_matches(precedence@[k as int], vnames));
                            lemma_first_index_of(vnames, wanted@, i as int);
                            lemma_resolved_at(vnames, precedence@, k as int);
                        }
                        return Ok(i);
                    }
                    i = i + 1;
                }
                proof {
                    assert(forall|j: int| 0 <= j < vnames.len() ==> vnames[j] != wanted@);
                    assert(!key_matches(precedence@[k as int], vnames));
                }
            },
        }
        k = k + 1;
    }
    Err(Error::OutputNotFound)
}

/// If `name` first occurs in `names` at `i`, then `first_index_of` is `i`:
/// the chosen index also bears the name with none earlier, and two such
/// indices are equal.
pub proof fn lemma_first_index_of(names: Seq<Seq<char>>, name: Seq<char>, i: int)
    requires
        0 <= i < names.len(),
        names[i] == name,
        forall|j: int| 0 <= j < i ==> names[j] != name,
    ensures
        first_index_of(names, name) == i,
{
    let picked = first_index_of(names, name);
    assert(0 <= i < names.len() && names[i] == name && forall|j: int|
        0 <= j < i ==> names[j] != name);
    if picked < i {
        assert(names[picked] != name);
    } else if i < picked {
        assert(names[i] != name);
    }
}

/// If rule `k` matches `names` and no earlier rule does, the resolver's
/// result is rule `k`'s selection.
pub proof fn lemma_resolved_at(names: Seq<Seq<char>>, precedence: Seq<OutputKey>, k: int)
    requires
        0 <= k < precedence.len(),
        key_matches(precedence[k], names),
        forall|j: int| 0 <= j < k ==> !key_matches(#[trigger] precedence[j], names),
    ensures
        resolved(names, precedence) == Some(key_selection(precedence[k], names)),
{
    assert(exists|m: int| 0 <= m < precedence.len() && key_matches(#[trigger] precedence[m], names));
    let picked = choose|m: int|
        0 <= m < precedence.len() && key_matches(#[trigger] precedence[m], names) && forall|
            j: int,
        | 0 <= j < m ==> !key_matches(precedence[j], names);
    assert(0 <= k < precedence.len() && key_matches(precedence[k], names) && forall|j: int|
        0 <= j < k ==> !key_matches(precedence[j], names));
    if picked < k {
        assert(!key_matches(precedence[picked], names));
    } else if k < picked {
        assert(!key_matches(precedence[k], names));
    }
}

/// The default output-key precedence: the sole output if there is exactly
/// one, else `last_hidden_state`, else `sentence_embedding`.
pub open spec fn is_default_precedence(p: Seq<OutputKey>) -> bool {
    &&& p.len() == 3
    &&& p[0] == OutputKey::OnlyOne
    &&& p[1] matches OutputKey::ByName(n) && n@ == "last_hidden_state"@
    &&& p[2] matches OutputKey::ByName(n) && n@ == "sentence_embedding"@
}

/// The default precedence: the sole output if there is exactly one, else
/// `last_hidden_state`, else `sentence_embedding`.
pub fn default_precedence() -> (p: Vec<OutputKey>)
    ensures
        is_default_precedence(p@),
        p@.len() == 3,
        p@[0] == OutputKey::OnlyOne,
        p@[1] matches OutputKey::ByName(n) && n@ == "last_hidden_state"@,
        p@[2] matches OutputKey::ByName(n) && n@ == "sentence_embedding"@,
{
    let mut p: Vec<OutputKey> = Vec::new();
    p.push(OutputKey::OnlyOne);
    p.push(OutputKey::ByName(last_hidden_state_name()));
    p.push(OutputKey::ByName(sentence_embedding_name()));
    p
}

/// The conventional name of a token-level (rank 3) model output.
pub fn last_hidden_state_name() -> (s: String)
    ensures
        s@ == "last_hidden_state"@,
{
    String::from_str("last_hidden_state")
}

/// The conventional name of a pre-pooled (rank 2) model output.
pub fn sentence_embedding_name() -> (s: String)
    ensures
        s@ == "sentence_embedding"@,
{
    String::from_str("sentence_embedding")
}

/// Precedence determinism: under the default precedence, a two-output set
/// holding both `last_hidden_state` and `sentence_embedding` always resolves
/// to the `last_hidden_state` entry — the sole-output rule cannot match two
/// outputs, and `last_hidden_state` stands earlier in the list.
pub proof fn lemma_default_precedence_two_outputs(
    names: Seq<Seq<char>>,
    precedence: Seq<OutputKey>,
    lhs: int,
    se: int,
)
    requires
        precedence.len() == 3,
        precedence[0] == OutputKey::OnlyOne,
        precedence[1] matches OutputKey::ByName(n) && n@ == "last_hidden_state"@,
        precedence[2] matches OutputKey::ByName(n) && n@ == "sentence_embedding"@,
        names.len() == 2,
        0 <= lhs < 2,
        0 <= se < 2,
        lhs != se,
        names[lhs] == "last_hidden_state"@,
        names[se] == "sentence_embedding"@,
    ensures
        resolved(names, precedence) == Some(lhs),
{
    assert(!key_matches(precedence[0], names));
    assert(key_matches(precedence[1], names));
    assert(names[se] != "last_hidden_state"@) by {
        reveal_strlit("last_hidden_state");
        reveal_strlit("sentence_embedding");
        assert("last_hidden_state"@[0] == 'l' && "sentence_embedding"@[0] == 's');
    }
    assert(forall|j: int| 0 <= j < lhs ==> names[j] != "last_hidden_state"@);
    lemma_first_index_of(names, "last_hidden_state"@, lhs);
    lemma_resolved_at(names, precedence, 1);
}

} // verus!
