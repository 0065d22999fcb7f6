use vstd::prelude::*;

use crate::alias::{any_scalable, best_index, resolve_alias, LoadPolicy};
use crate::snapshot::ControlPlaneSnapshot;

verus! {

/// Where the entries of a candidate list came from.
#[derive(Clone, Copy, Debug, PartialEq, Eq, Structural)]
pub enum Provenance {
    /// The reserved alias token, resolved against the control-plane snapshot.
    Alias,
    /// A comma-separated preference list written by the client.
    ExplicitPreference,
    /// A single literal model name, forwarded as is.
    Direct,
}

/// Whether candidates of this provenance run under the failover executor.
pub fn is_failover(p: Provenance) -> (r: bool)
    ensures
        r == (p != Provenance::Direct),
{
    match p {
        Provenance::Direct => false,
        _ => true,
    }
}

/// Why a request was refused before any upstream attempt.
#[derive(Clone, Copy, Debug, PartialEq, Eq, Structural)]
pub enum RouteError {
    /// The alias was asked for and no utilization row is scalable.
    NoEligibleCandidate,
    /// A preference list named no model once trimmed.
    InvalidModel,
}

/// One upstream model identifier, tagged with where it came from.
#[derive(Clone, Debug)]
pub struct Candidate {
    pub model: String,
    pub provenance: Provenance,
}

/// The model identifiers of a candidate list, in order.
pub open spec fn models_of(cands: Seq<Candidate>) -> Seq<Seq<char>> {
    cands.map_values(|c: Candidate| c.model@)
}

/// A candidate list as the executor accepts it: non-empty, one provenance.
pub open spec fn valid_candidates(cands: Seq<Candidate>) -> bool {
    &&& cands.len() > 0
    &&& forall|i: int| 0 <= i < cands.len() ==> #[trigger] cands[i].provenance == cands[0].provenance
}

/// Unicode `White_Space`, the set that `char::is_whitespace` tests.
pub open spec fn is_ws(c: char) -> bool {
    let u = c as u32;
    (0x09 <= u && u <= 0x0d) || u == 0x20 || u == 0x85 || u == 0xa0 || u == 0x1680
        || (0x2000 <= u && u <= 0x200a) || u == 0x2028 || u == 0x2029 || u == 0x202f
        || u == 0x205f || u == 0x3000
}

/// `s` without its leading whitespace.
pub open spec fn trim_start(s: Seq<char>) -> Seq<char>
    decreases s.len(),
{
    if s.len() > 0 && is_ws(s[0]) {
        trim_start(s.drop_first())
    } else {
        s
    }
}

/// `s` without its trailing whitespace.
pub open spec fn trim_end(s: Seq<char>) -> Seq<char>
    decreases s.len(),
{
    if s.len() > 0 && is_ws(s.last()) {
        trim_end(s.drop_last())
    } else {
        s
    }
}

/// `s` without its leading and trailing whitespace.
pub open spec fn trim(s: Seq<char>) -> Seq<char> {
    trim_end(trim_start(s))
}

/// The pieces of `s` between commas, in order; always at least one piece.
pub open spec fn split_commas(s: Seq<char>) -> Seq<Seq<char>>
    decreases s.len(),
{
    if s.len() == 0 {
        seq![Seq::<char>::empty()]
    } else {
        let init = split_commas(s.drop_last());
        if s.last() == ',' {
            init.push(Seq::<char>::empty())
        } else {
            init.update(init.len() - 1, init.last().push(s.last()))
        }
    }
}

/// The trimmed pieces that are not empty, in order.
pub open spec fn nonempty_trimmed(pieces: Seq<Seq<char>>) -> Seq<Seq<char>>
    decreases pieces.len(),
{
    if pieces.len() == 0 {
        Seq::empty()
    } else {
        let init = nonempty_trimmed(pieces.drop_last());
        let t = trim(pieces.last());
        if t.len() > 0 {
            init.push(t)
        } else {
            init
        }
    }
}

/// The ordered model names of a comma-separated preference list.
pub open spec fn preference_models(s: Seq<char>) -> Seq<Seq<char>> {
    nonempty_trimmed(split_commas(s))
}

/// Splitting gives more than one piece exactly when there is a comma.
pub proof fn lemma_split_commas_len(s: Seq<char>)
    ensures
        split_commas(s).len() >= 1,
        split_commas(s).len() > 1 <==> s.contains(','),
    decreases s.len(),
{
    if s.len() > 0 {
        let init = s.drop_last();
        lemma_split_commas_len(init);
        if init.contains(',') {
            let i = choose|i: int| 0 <= i < init.len() && init[i] == ',';
            assert(s[i] == ',');
        }
        if s.contains(',') && s.last() != ',' {
            let i = choose|i: int| 0 <= i < s.len() && s[i] == ',';
            assert(init[i] == ',');
        }
        if s.last() == ',' {
            assert(s[s.len() - 1] == ',');
        }
    }
}

/// Relies on `str::trim`: it strips leading and trailing `char::is_whitespace`.
#[verifier::external_body]
fn trim_whitespace(s: &str) -> (r: String)
    ensures
        r@ == trim(s@),
{
    s.trim().to_string()
}

/// Relies on `str::split` with a `char` pattern: the pieces between commas.
#[verifier::external_body]
fn split_on_commas(s: &str) -> (r: Vec<String>)
    ensures
        r@.map_values(|p: String| p@) == split_commas(s@),
{
    s.split(',').map(|p| p.to_string()).collect()
}

/// The non-empty, trimmed names among `pieces`, in order.
fn trimmed_names(pieces: &Vec<String>) -> (r: Vec<String>)
    ensures
        r@.map_values(|p: String| p@) == nonempty_trimmed(pieces@.map_values(|p: String| p@)),
{
    let ghost pv = pieces@.map_values(|p: String| p@);
    let mut out: Vec<String> = Vec::new();
    let mut i: usize = 0;
    while i < pieces.len()
        invariant
            i <= pieces.len(),
            pv == pieces@.map_values(|p: String| p@),
            out@.map_values(|p: String| p@) == nonempty_trimmed(pv.subrange(0, i as int)),
        decreases pieces.len() - i,
    {
        let t = trim_whitespace(pieces[i].as_str());
        proof {
            assert(pv.subrange(0, i as int + 1).drop_last() =~= pv.subrange(0, i as int));
            assert(pv.subrange(0, i as int + 1).last() == pieces@[i as int]@);
        }
        if !t.as_str().is_empty() {
            out.push(t);
            assert(out@.map_values(|p: String| p@) =~= nonempty_trimmed(pv.subrange(0, i as int)).push(t@));
        }
        i = i + 1;
    }
    assert(pv.subrange(0, pieces.len() as int) =~= pv);
    out
}

/// Splits a comma-separated preference list into its non-empty, trimmed names.
pub fn preference_list(s: &str) -> (r: Vec<String>)
    ensures
        r@.map_values(|p: String| p@) == preference_models(s@),
{
    let pieces = split_on_commas(s);
    trimmed_names(&pieces)
}

/// Tags each name with one provenance, keeping the order.
fn tag_all(names: Vec<String>, provenance: Provenance) -> (r: Vec<Candidate>)
    ensures
        models_of(r@) == names@.map_values(|p: String| p@),
        forall|i: int| 0 <= i < r@.len() ==> #[trigger] r@[i].provenance == provenance,
{
    let mut out: Vec<Candidate> = Vec::new();
    let mut i: usize = 0;
    while i < names.len()
        invariant
            i <= names.len(),
            out@.len() == i,
            models_of(out@) =~= names@.subrange(0, i as int).map_values(|p: String| p@),
            forall|k: int| 0 <= k < out@.len() ==> #[trigger] out@[k].provenance == provenance,
        decreases names.len() - i,
    {
        let ghost before = out@;
        out.push(Candidate { model: names[i].clone(), provenance });
        proof {
            assert(out@ =~= before.push(out@[i as int]));
            assert(names@.subrange(0, i as int + 1) =~= names@.subrange(0, i as int).push(names@[i as int]));
            assert(models_of(out@) =~= models_of(before).push(names@[i as int]@));
        }
        i = i + 1;
    }
    assert(names@.subrange(0, names.len() as int) =~= names@);
    out
}

/// What the builder makes of a model field, as the rules state it: the
/// resolved alias, a preference list, or a single direct name. `Err` carries
/// the refusal; `Ok` the ordered model names.
pub open spec fn expected_list(
    model: Seq<char>,
    alias_token: Seq<char>,
    resolved: Result<Seq<char>, RouteError>,
) -> Result<Seq<Seq<char>>, RouteError> {
    if model == alias_token {
        match resolved {
            Ok(name) => Ok(seq![name]),
            Err(e) => Err(e),
        }
    } else if model.contains(',') {
        let names = preference_models(model);
        if names.len() == 0 {
            Err(RouteError::InvalidModel)
        } else {
            Ok(names)
        }
    } else {
        Ok(seq![model])
    }
}

/// The provenance the builder gives a model field.
pub open spec fn expected_provenance(model: Seq<char>, alias_token: Seq<char>) -> Provenance {
    if model == alias_token {
        Provenance::Alias
    } else if model.contains(',') {
        Provenance::ExplicitPreference
    } else {
        Provenance::Direct
    }
}

/// The alias's pick in a snapshot, as a model name.
pub open spec fn alias_pick(p: LoadPolicy, snap: ControlPlaneSnapshot) -> Result<Seq<char>, RouteError> {
    if any_scalable(snap.utilization@) {
        Ok(snap.utilization@[best_index(p, snap.utilization@)].name@)
    } else {
        Err(RouteError::NoEligibleCandidate)
    }
}

/// Turns the model field of a request into its candidate list.
pub fn build_candidates(
    model: &str,
    alias_token: &str,
    p: &LoadPolicy,
    snap: &ControlPlaneSnapshot,
) -> (r: Result<Vec<Candidate>, RouteError>)
    ensures
        match (r, expected_list(model@, alias_token@, alias_pick(*p, *snap))) {
            (Ok(v), Ok(names)) => models_of(v@) == names && valid_candidates(v@)
                && v@[0].provenance == expected_provenance(model@, alias_token@),
            (Err(e), Err(f)) => e == f,
            _ => false,
        },
{
    let m = model.to_owned();
    let a = alias_token.to_owned();
    if m == a {
        match resolve_alias(p, snap) {
            Ok(c) => {
                let mut v: Vec<Candidate> = Vec::new();
                v.push(c);
                assert(models_of(v@) =~= seq![v@[0].model@]);
                Ok(v)
            },
            Err(e) => Err(e),
        }
    } else {
        let pieces = split_on_commas(model);
        proof {
            lemma_split_commas_len(model@);
        }
        if pieces.len() > 1 {
            let names = trimmed_names(&pieces);
            if names.len() == 0 {
                Err(RouteError::InvalidModel)
            } else {
                let v = tag_all(names, Provenance::ExplicitPreference);
                Ok(v)
            }
        } else {
            let mut v: Vec<Candidate> = Vec::new();
            v.push(Candidate { model: m, provenance: Provenance::Direct });
            assert(models_of(v@) =~= seq![model@]);
            Ok(v)
        }
    }
}

} // verus!
