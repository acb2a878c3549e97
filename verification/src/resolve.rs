use crate::cursor::{token_continues, PageCursor};
use crate::error::{Error, StoreError};
use crate::param::Parameter;
use crate::transform::{flat_of, flatten, FlatConfigMap};
use vstd::prelude::*;

verus! {

/// One page of a paged fetch: the parameters it carries and the
/// next-cursor field of the response, both as the server may omit them.
pub struct Page {
    /// The parameters of this page, in the order the server returned them.
    pub parameters: Option<Vec<Parameter>>,
    /// The continuation token for the next fetch; absent or empty when this
    /// page is the last.
    pub next_token: Option<String>,
}

impl Page {
    /// The parameters this page contributes: none when the field is absent.
    pub open spec fn params_seq(self) -> Seq<Parameter> {
        match self.parameters {
            Some(v) => v@,
            None => Seq::empty(),
        }
    }

    /// This page ends the traversal: its next-cursor is absent or empty.
    pub open spec fn ends(self) -> bool {
        !token_continues(self.next_token)
    }
}

/// What one fetch came back with: a page, or the store's error.
pub type FetchOutcome = Result<Page, StoreError>;

/// The traversal of `script` stops within the script: some fetch fails or
/// some page signals the end before the script runs out.
pub open spec fn has_stop(script: Seq<FetchOutcome>) -> bool
    decreases script.len(),
{
    script.len() > 0 && match script[0] {
        Err(_) => true,
        Ok(p) => p.ends() || has_stop(script.drop_first()),
    }
}

/// How many fetches a traversal of `script` makes: pages are consumed in
/// order, one fetch each, until one fails or signals the end.
pub open spec fn fetch_count(script: Seq<FetchOutcome>) -> int
    decreases script.len(),
{
    if script.len() == 0 {
        0
    } else {
        match script[0] {
            Err(_) => 1,
            Ok(p) => if p.ends() {
                1
            } else {
                1 + fetch_count(script.drop_first())
            },
        }
    }
}

/// What a traversal of `script` collects: the parameters of every page up
/// to and including the one that signals the end, flattened in fetch
/// order — or the error of the first fetch that fails.
pub open spec fn script_result(script: Seq<FetchOutcome>) -> Result<Seq<Parameter>, StoreError>
    decreases script.len(),
{
    if script.len() == 0 {
        Ok(Seq::empty())
    } else {
        match script[0] {
            Err(e) => Err(e),
            Ok(p) => if p.ends() {
                Ok(p.params_seq())
            } else {
                match script_result(script.drop_first()) {
                    Ok(rest) => Ok(p.params_seq() + rest),
                    Err(e) => Err(e),
                }
            },
        }
    }
}

/// Walk the scripted pages as the pagination cursor dictates and flatten
/// them into one parameter sequence, or surface the first fetch failure.
pub fn collect_script(script: Vec<FetchOutcome>) -> (r: Result<Vec<Parameter>, Error>)
    requires
        has_stop(script@),
    ensures
        match script_result(script@) {
            Ok(params) => r matches Ok(v) && v@ == params,
            Err(e) => r == Err::<Vec<Parameter>, Error>(Error::Store(e)),
        },
    decreases script@.len(),
{
    let mut script = script;
    let ghost script0 = script@;
    let first = script.remove(0);
    proof {
        assert(script@ =~= script0.drop_first());
    }
    match first {
        Err(e) => Err(Error::Store(e)),
        Ok(page) => {
            let Page { parameters, next_token } = page;
            let cursor = PageCursor::after_response(next_token);
            let mut params = match parameters {
                Some(v) => v,
                None => Vec::new(),
            };
            match cursor {
                PageCursor::Done => Ok(params),
                PageCursor::Continue(_) => {
                    match collect_script(script) {
                        Ok(mut rest) => {
                            params.append(&mut rest);
                            Ok(params)
                        },
                        Err(e) => Err(e),
                    }
                },
                PageCursor::Start => {
                    proof {
                        assert(false);
                    }
                    Ok(params)
                },
            }
        },
    }
}

/// All parameter names of every page of `script` are long enough to have
/// `strip` characters removed.
pub open spec fn page_params_fit(p: Page, strip: int) -> bool {
    forall|i: int|
        0 <= i < p.params_seq().len() ==> (#[trigger] p.params_seq()[i]).name_fits(strip)
}

/// Every page of `script` satisfies `page_params_fit`.
pub open spec fn script_params_fit(script: Seq<FetchOutcome>, strip: int) -> bool {
    forall|i: int|
        0 <= i < script.len() ==> match #[trigger] script[i] {
            Ok(p) => page_params_fit(p, strip),
            Err(_) => true,
        }
}

proof fn lemma_script_result_fits(script: Seq<FetchOutcome>, strip: int)
    requires
        script_params_fit(script, strip),
    ensures
        script_result(script) matches Ok(ps) ==> forall|i: int|
            0 <= i < ps.len() ==> (#[trigger] ps[i]).name_fits(strip),
    decreases script.len(),
{
    if script.len() > 0 {
        assert forall|i: int|
            0 <= i < script.drop_first().len() implies match #[trigger] script.drop_first()[i] {
            Ok(p) => page_params_fit(p, strip),
            Err(_) => true,
        } by {
            assert(script.drop_first()[i] == script[i + 1]);
        }
        lemma_script_result_fits(script.drop_first(), strip);
    }
}

/// Resolve a scripted traversal: walk the pages, strip the prefix plus its
/// separator from every parameter name, and fold the result into the flat
/// configuration map — or surface the first fetch failure and no map.
pub fn resolve_pages(path_prefix: &str, script: Vec<FetchOutcome>) -> (r: Result<
    FlatConfigMap,
    Error,
>)
    requires
        path_prefix@.len() < usize::MAX,
        has_stop(script@),
        script_params_fit(script@, path_prefix@.len() + 1 as int),
    ensures
        match script_result(script@) {
            Ok(params) => r matches Ok(m) && m.wf() && m@ == flat_of(
                params,
                path_prefix@.len() + 1 as int,
            ),
            Err(e) => r == Err::<FlatConfigMap, Error>(Error::Store(e)),
        },
{
    let strip = prefix_strip_len(path_prefix);
    proof {
        lemma_script_result_fits(script@, strip as int);
    }
    match collect_script(script) {
        Ok(params) => Ok(flatten(strip, params)),
        Err(e) => Err(e),
    }
}

/// How many leading characters flattening removes from every parameter
/// name: the prefix itself plus the one separator character after it.
pub fn prefix_strip_len(path_prefix: &str) -> (n: usize)
    requires
        path_prefix@.len() < usize::MAX,
    ensures
        n == path_prefix@.len() + 1,
{
    path_prefix.unicode_len() + 1
}

/// Pagination termination: a chain of pages of which exactly the last one
/// signals the end is traversed with one fetch per page — exactly as many
/// fetches as there are pages — and every fetch succeeds.
pub proof fn lemma_pagination_termination(script: Seq<FetchOutcome>)
    requires
        script.len() > 0,
        forall|i: int| 0 <= i < script.len() ==> (#[trigger] script[i]) is Ok,
        forall|i: int| 0 <= i < script.len() - 1 ==> !(#[trigger] script[i])->Ok_0.ends(),
        script[script.len() - 1]->Ok_0.ends(),
    ensures
        has_stop(script),
        fetch_count(script) == script.len(),
        script_result(script) is Ok,
    decreases script.len(),
{
    if script.len() > 1 {
        assert forall|i: int| 0 <= i < script.drop_first().len() implies (#[trigger] script.drop_first()[i]) is Ok by {
            assert(script.drop_first()[i] == script[i + 1]);
        }
        assert forall|i: int|
            0 <= i < script.drop_first().len() - 1 implies !(#[trigger] script.drop_first()[i])->Ok_0.ends() by {
            assert(script.drop_first()[i] == script[i + 1]);
        }
        assert(script.drop_first()[script.drop_first().len() - 1] == script[script.len() - 1]);
        lemma_pagination_termination(script.drop_first());
    }
}

/// Error short-circuit: when every page before position `k` chains on and
/// the fetch at `k` fails, the traversal stops right there — `k + 1`
/// fetches — and surfaces exactly that failure, whatever the earlier pages
/// held.
pub proof fn lemma_error_short_circuit(script: Seq<FetchOutcome>, k: int)
    requires
        0 <= k < script.len(),
        forall|i: int|
            0 <= i < k ==> (#[trigger] script[i]) is Ok && !script[i]->Ok_0.ends(),
        script[k] is Err,
    ensures
        has_stop(script),
        fetch_count(script) == k + 1,
        script_result(script) == Err::<Seq<Parameter>, StoreError>(script[k]->Err_0),
    decreases k,
{
    if k > 0 {
        assert forall|i: int|
            0 <= i < k - 1 implies (#[trigger] script.drop_first()[i]) is Ok
            && !script.drop_first()[i]->Ok_0.ends() by {
            assert(script.drop_first()[i] == script[i + 1]);
        }
        assert(script.drop_first()[k - 1] == script[k]);
        lemma_error_short_circuit(script.drop_first(), k - 1);
    }
}

/// Two fetch outcomes the traversal cannot tell apart: both fail with the
/// same error, or both carry the same parameters and agree on whether they
/// end the traversal.
pub open spec fn outcome_equiv(a: FetchOutcome, b: FetchOutcome) -> bool {
    match (a, b) {
        (Ok(pa), Ok(pb)) => pa.ends() == pb.ends() && pa.params_seq() == pb.params_seq(),
        (Err(ea), Err(eb)) => ea == eb,
        _ => false,
    }
}

/// Empty-cursor equivalence at the traversal level: two scripts whose
/// outcomes are pairwise indistinguishable — such as scripts differing only
/// in a page carrying an empty next-cursor where the other's is absent —
/// make the same number of fetches and collect the same result.
pub proof fn lemma_script_equiv(s1: Seq<FetchOutcome>, s2: Seq<FetchOutcome>)
    requires
        s1.len() == s2.len(),
        forall|i: int| 0 <= i < s1.len() ==> outcome_equiv(#[trigger] s1[i], s2[i]),
    ensures
        has_stop(s1) == has_stop(s2),
        fetch_count(s1) == fetch_count(s2),
        script_result(s1) == script_result(s2),
    decreases s1.len(),
{
    if s1.len() > 0 {
        assert(outcome_equiv(s1[0], s2[0]));
        assert forall|i: int|
            0 <= i < s1.drop_first().len() implies outcome_equiv(
            #[trigger] s1.drop_first()[i],
            s2.drop_first()[i],
        ) by {
            assert(s1.drop_first()[i] == s1[i + 1]);
            assert(s2.drop_first()[i] == s2[i + 1]);
        }
        lemma_script_equiv(s1.drop_first(), s2.drop_first());
    }
}

/// Empty-cursor equivalence at the page level: a page whose next-cursor is
/// the empty string ends the traversal exactly as one whose next-cursor is
/// absent, and contributes the same parameters.
pub proof fn lemma_empty_cursor_page(p_empty: Page, p_absent: Page)
    requires
        p_empty.next_token is Some,
        p_empty.next_token->0@.len() == 0,
        p_absent.next_token is None,
        p_empty.parameters == p_absent.parameters,
    ensures
        p_empty.ends(),
        p_absent.ends(),
        p_empty.params_seq() == p_absent.params_seq(),
{
}

} // verus!
