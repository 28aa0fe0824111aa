//! Choice of the RPC endpoints a transport rotates through: the usable
//! endpoints of a network, heaviest first, the first one active.
use vstd::prelude::*;

verus! {

/// An endpoint of a network, with its kind and weight.
#[derive(Debug, Clone, PartialEq)]
pub struct RpcUrl {
    pub type_: String,
    pub url: String,
    pub weight: u32,
}

/// The active endpoint, and the others to fall back on in order.
#[derive(Debug, Clone, PartialEq)]
pub struct EndpointPlan {
    pub active: String,
    pub fallbacks: Vec<String>,
}

/// Why no endpoint could be chosen.
#[derive(Debug, Clone, Copy, PartialEq, Eq)]
pub enum TransportError {
    NoValidRpcUrls,
}

/// Whether an endpoint can be used: it is of kind `rpc` and has weight.
pub open spec fn usable(u: RpcUrl) -> bool {
    u.type_@ == "rpc"@ && u.weight > 0
}

/// `s` with `x` inserted after every element at least as heavy.
pub open spec fn insert_by_weight(s: Seq<RpcUrl>, x: RpcUrl) -> Seq<RpcUrl>
    decreases s.len(),
{
    if s.len() == 0 {
        seq![x]
    } else if s.last().weight >= x.weight {
        s.push(x)
    } else {
        insert_by_weight(s.drop_last(), x).push(s.last())
    }
}

/// `s` ordered by weight, heaviest first, equal weights in their order in
/// `s` (a stable sort).
pub open spec fn sort_by_weight(s: Seq<RpcUrl>) -> Seq<RpcUrl>
    decreases s.len(),
{
    if s.len() == 0 {
        Seq::empty()
    } else {
        insert_by_weight(sort_by_weight(s.drop_last()), s.last())
    }
}

/// The usable endpoints, heaviest first.
pub open spec fn ranked(urls: Seq<RpcUrl>) -> Seq<RpcUrl> {
    sort_by_weight(urls.filter(|u: RpcUrl| usable(u)))
}

proof fn lemma_insert_at(s: Seq<RpcUrl>, x: RpcUrl, k: int)
    requires
        0 <= k <= s.len(),
        forall|j: int| k <= j < s.len() ==> (#[trigger] s[j]).weight < x.weight,
        k == 0 || s[k - 1].weight >= x.weight,
    ensures
        insert_by_weight(s, x) == s.insert(k, x),
    decreases s.len() - k,
{
    if s.len() == 0 {
        assert(s.insert(k, x) =~= seq![x]);
    } else if k == s.len() {
        assert(s.insert(k, x) =~= s.push(x));
    } else {
        let t = s.drop_last();
        lemma_insert_at(t, x, k);
        assert(s.insert(k, x) =~= t.insert(k, x).push(s.last()));
    }
}

fn copy_url(u: &RpcUrl) -> (r: RpcUrl)
    ensures
        r == *u,
{
    RpcUrl { type_: u.type_.clone(), url: u.url.clone(), weight: u.weight }
}

/// The usable endpoints (kind `rpc`, weight above zero) ordered by weight,
/// heaviest first and equal weights in their given order: the first is the
/// active endpoint, the rest its fallbacks. Fails when none is usable.
pub fn plan_endpoints(urls: &Vec<RpcUrl>) -> (r: Result<EndpointPlan, TransportError>)
    ensures
        r matches Ok(p) ==> ranked(urls@).len() > 0 && p.active@ == ranked(urls@)[0].url@
            && p.fallbacks@ == ranked(urls@).skip(1).map_values(|u: RpcUrl| u.url),
        r is Err <==> ranked(urls@).len() == 0,
{
    broadcast use vstd::seq_lib::group_filter_ensures;
    let ghost pred = |u: RpcUrl| usable(u);
    let mut sorted: Vec<RpcUrl> = Vec::new();
    let mut i: usize = 0;
    while i < urls.len()
        invariant
            i <= urls.len(),
            pred == (|u: RpcUrl| usable(u)),
            sorted@ == sort_by_weight(urls@.take(i as int).filter(pred)),
        decreases urls.len() - i,
    {
        let u = &urls[i];
        proof {
            urls@.take(i as int).lemma_filter_push(*u, pred);
            assert(urls@.take(i + 1) =~= urls@.take(i as int).push(*u));
        }
        if crate::text::str_is(u.type_.as_str(), "rpc") && u.weight > 0 {
            let x = copy_url(u);
            let mut k: usize = sorted.len();
            while k > 0 && sorted[k - 1].weight < x.weight
                invariant
                    k <= sorted.len(),
                    forall|j: int| k <= j < sorted@.len() ==> (#[trigger] sorted@[j]).weight < x.weight,
                decreases k,
            {
                k = k - 1;
            }
            proof {
                lemma_insert_at(sorted@, x, k as int);
                let f = urls@.take(i as int).filter(pred);
                assert(f.push(x).drop_last() =~= f);
            }
            sorted.insert(k, x);
        }
        i = i + 1;
    }
    assert(urls@.take(i as int) =~= urls@);
    if sorted.len() == 0 {
        return Err(TransportError::NoValidRpcUrls);
    }
    let active = sorted[0].url.clone();
    let mut fallbacks: Vec<String> = Vec::new();
    let mut j: usize = 1;
    while j < sorted.len()
        invariant
            1 <= j <= sorted.len(),
            fallbacks@ == sorted@.subrange(1, j as int).map_values(|u: RpcUrl| u.url),
        decreases sorted.len() - j,
    {
        fallbacks.push(sorted[j].url.clone());
        j = j + 1;
        assert(fallbacks@ =~= sorted@.subrange(1, j as int).map_values(|u: RpcUrl| u.url));
    }
    assert(sorted@.subrange(1, j as int) =~= sorted@.skip(1));
    Ok(EndpointPlan { active, fallbacks })
}

} // verus!
